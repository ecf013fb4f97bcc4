use vstd::prelude::*;
use vstd::string::StringExecFns;
use crate::error::OperatorDesc;
use crate::value::{Val, Value};

verus! {

/// Logical and comparison operators; all binary but `Not`.
#[derive(Debug, Clone, Copy, PartialEq, Eq, Structural)]
pub enum Logical {
    Eq,
    Ne,
    Lt,
    Le,
    Gt,
    Ge,
    Within,
    Without,
    And,
    Or,
    Not,
}

/// Binary arithmetic operators.
#[derive(Debug, Clone, Copy, PartialEq, Eq, Structural)]
pub enum Arithmetic {
    Add,
    Sub,
    Mul,
    Div,
    Mod,
    Exp,
}

/// A tag or a property name: either text or an integer identifier.
#[derive(Debug, Clone, PartialEq, Eq, Hash)]
pub enum NameOrId {
    Str(String),
    Id(i32),
}

/// What to read from an element: its id, its label, or a named property.
#[derive(Debug, Clone, PartialEq)]
pub enum PropKey {
    Id,
    Label,
    Key(NameOrId),
}

/// One instruction of a postfix expression.
#[derive(Debug, Clone, PartialEq)]
pub enum InnerOpr {
    Logical(Logical),
    Arith(Arithmetic),
    Const(Option<Value>),
    Var { tag: NameOrId, prop_key: Option<PropKey> },
}

/// Whether two names denote the same tag or property.
pub open spec fn same_name(a: NameOrId, b: NameOrId) -> bool {
    match (a, b) {
        (NameOrId::Str(x), NameOrId::Str(y)) => x@ == y@,
        (NameOrId::Id(x), NameOrId::Id(y)) => x == y,
        _ => false,
    }
}

impl InnerOpr {
    pub open spec fn spec_is_operand(self) -> bool {
        self is Const || self is Var
    }

    /// Whether this instruction is an operand (a constant or a variable).
    pub fn is_operand(&self) -> (r: bool)
        ensures
            r == self.spec_is_operand(),
    {
        match self {
            InnerOpr::Const(_) | InnerOpr::Var { .. } => true,
            _ => false,
        }
    }

    /// A human-readable rendering of the instruction.
    pub fn to_string(&self) -> (r: String)
        ensures
            r@ == desc_spec(*self),
    {
        describe(self).0
    }
}


/// Compares two names as `same_name` does.
pub fn names_match(a: &NameOrId, b: &NameOrId) -> (r: bool)
    ensures
        r == same_name(*a, *b),
{
    match (a, b) {
        (NameOrId::Str(x), NameOrId::Str(y)) => *x == *y,
        (NameOrId::Id(x), NameOrId::Id(y)) => *x == *y,
        _ => false,
    }
}

pub open spec fn digit_spec(d: nat) -> Seq<char> {
    if d == 0 {
        "0"@
    } else if d == 1 {
        "1"@
    } else if d == 2 {
        "2"@
    } else if d == 3 {
        "3"@
    } else if d == 4 {
        "4"@
    } else if d == 5 {
        "5"@
    } else if d == 6 {
        "6"@
    } else if d == 7 {
        "7"@
    } else if d == 8 {
        "8"@
    } else {
        "9"@
    }
}

/// The decimal digits of a natural number.
pub open spec fn digits_spec(n: nat) -> Seq<char>
    decreases n,
{
    if n < 10 {
        digit_spec(n)
    } else {
        digits_spec(n / 10) + digit_spec(n % 10)
    }
}

/// The decimal rendering of an integer.
pub open spec fn decimal_spec(x: int) -> Seq<char> {
    if x < 0 {
        "-"@ + digits_spec((-x) as nat)
    } else {
        digits_spec(x as nat)
    }
}

pub open spec fn logical_name(l: Logical) -> Seq<char> {
    match l {
        Logical::Eq => "Eq"@,
        Logical::Ne => "Ne"@,
        Logical::Lt => "Lt"@,
        Logical::Le => "Le"@,
        Logical::Gt => "Gt"@,
        Logical::Ge => "Ge"@,
        Logical::Within => "Within"@,
        Logical::Without => "Without"@,
        Logical::And => "And"@,
        Logical::Or => "Or"@,
        Logical::Not => "Not"@,
    }
}

pub open spec fn arith_name(a: Arithmetic) -> Seq<char> {
    match a {
        Arithmetic::Add => "Add"@,
        Arithmetic::Sub => "Sub"@,
        Arithmetic::Mul => "Mul"@,
        Arithmetic::Div => "Div"@,
        Arithmetic::Mod => "Mod"@,
        Arithmetic::Exp => "Exp"@,
    }
}

pub open spec fn name_desc(n: NameOrId) -> Seq<char> {
    match n {
        NameOrId::Str(s) => s@,
        NameOrId::Id(i) => decimal_spec(i as int),
    }
}

pub open spec fn prop_desc(p: PropKey) -> Seq<char> {
    match p {
        PropKey::Id => "ID"@,
        PropKey::Label => "LABEL"@,
        PropKey::Key(k) => name_desc(k),
    }
}

pub open spec fn value_desc(v: Val) -> Seq<char> {
    match v {
        Val::Null => "None"@,
        Val::Bool(b) => if b {
            "true"@
        } else {
            "false"@
        },
        Val::Int(i) => decimal_spec(i),
        Val::Str(s) => "\""@ + s + "\""@,
        Val::Blob(_) => "Blob"@,
    }
}

/// The text that describes an instruction in errors.
pub open spec fn desc_spec(op: InnerOpr) -> Seq<char> {
    match op {
        InnerOpr::Logical(l) => logical_name(l),
        InnerOpr::Arith(a) => arith_name(a),
        InnerOpr::Const(None) => "Const(None)"@,
        InnerOpr::Const(Some(v)) => "Const("@ + value_desc(v@) + ")"@,
        InnerOpr::Var { tag, prop_key: None } => "Var(@"@ + name_desc(tag) + ")"@,
        InnerOpr::Var { tag, prop_key: Some(p) } => "Var(@"@ + name_desc(tag) + "."@ + prop_desc(p)
            + ")"@,
    }
}

fn digit_str(d: u64) -> (r: &'static str)
    requires
        d < 10,
    ensures
        r@ == digit_spec(d as nat),
{
    if d == 0 {
        "0"
    } else if d == 1 {
        "1"
    } else if d == 2 {
        "2"
    } else if d == 3 {
        "3"
    } else if d == 4 {
        "4"
    } else if d == 5 {
        "5"
    } else if d == 6 {
        "6"
    } else if d == 7 {
        "7"
    } else if d == 8 {
        "8"
    } else {
        "9"
    }
}

fn push_digits(s: &mut String, n: u64)
    ensures
        final(s)@ == old(s)@ + digits_spec(n as nat),
    decreases n,
{
    if n >= 10 {
        push_digits(s, n / 10);
    }
    s.append(digit_str(n % 10));
    proof {
        if n >= 10 {
            assert(final(s)@ =~= old(s)@ + (digits_spec((n / 10) as nat) + digit_spec((n % 10) as nat)));
        } else {
            assert(final(s)@ =~= old(s)@ + digits_spec(n as nat));
        }
    }
}

fn push_decimal(s: &mut String, x: i64)
    ensures
        final(s)@ == old(s)@ + decimal_spec(x as int),
{
    if x < 0 {
        s.append("-");
        let m: u64 = (-(x as i128)) as u64;
        push_digits(s, m);
        assert(final(s)@ =~= old(s)@ + ("-"@ + digits_spec((-x) as nat)));
    } else {
        push_digits(s, x as u64);
    }
}

fn push_name(s: &mut String, n: &NameOrId)
    ensures
        final(s)@ == old(s)@ + name_desc(*n),
{
    match n {
        NameOrId::Str(t) => s.append(t.as_str()),
        NameOrId::Id(i) => push_decimal(s, *i as i64),
    }
}

fn push_prop(s: &mut String, p: &PropKey)
    ensures
        final(s)@ == old(s)@ + prop_desc(*p),
{
    match p {
        PropKey::Id => s.append("ID"),
        PropKey::Label => s.append("LABEL"),
        PropKey::Key(k) => push_name(s, k),
    }
}

fn push_value(s: &mut String, v: &Value)
    ensures
        final(s)@ == old(s)@ + value_desc(v@),
{
    match v {
        Value::Null => s.append("None"),
        Value::Bool(b) => if *b {
            s.append("true")
        } else {
            s.append("false")
        },
        Value::Int(i) => push_decimal(s, *i),
        Value::Str(t) => {
            s.append("\"");
            s.append(t.as_str());
            s.append("\"");
            assert(final(s)@ =~= old(s)@ + ("\""@ + t@ + "\""@));
        },
        Value::Blob(_) => s.append("Blob"),
    }
}

/// Renders an instruction as the description carried by errors.
pub fn describe(op: &InnerOpr) -> (d: OperatorDesc)
    ensures
        d@ == desc_spec(*op),
{
    let mut s = String::new();
    match op {
        InnerOpr::Logical(l) => {
            let name = match l {
                Logical::Eq => "Eq",
                Logical::Ne => "Ne",
                Logical::Lt => "Lt",
                Logical::Le => "Le",
                Logical::Gt => "Gt",
                Logical::Ge => "Ge",
                Logical::Within => "Within",
                Logical::Without => "Without",
                Logical::And => "And",
                Logical::Or => "Or",
                Logical::Not => "Not",
            };
            s.append(name);
            assert(s@ =~= logical_name(*l));
        },
        InnerOpr::Arith(a) => {
            let name = match a {
                Arithmetic::Add => "Add",
                Arithmetic::Sub => "Sub",
                Arithmetic::Mul => "Mul",
                Arithmetic::Div => "Div",
                Arithmetic::Mod => "Mod",
                Arithmetic::Exp => "Exp",
            };
            s.append(name);
            assert(s@ =~= arith_name(*a));
        },
        InnerOpr::Const(None) => {
            s.append("Const(None)");
            assert(s@ =~= "Const(None)"@);
        },
        InnerOpr::Const(Some(v)) => {
            s.append("Const(");
            push_value(&mut s, v);
            s.append(")");
            assert(s@ =~= "Const("@ + value_desc(v@) + ")"@);
        },
        InnerOpr::Var { tag, prop_key } => {
            s.append("Var(@");
            push_name(&mut s, tag);
            match prop_key {
                None => {},
                Some(p) => {
                    s.append(".");
                    push_prop(&mut s, p);
                },
            }
            s.append(")");
            assert(s@ =~= desc_spec(*op));
        },
    }
    OperatorDesc(s)
}

} // verus!
