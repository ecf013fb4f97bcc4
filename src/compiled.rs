use vstd::prelude::*;
use crate::error::ParseError;
use crate::eval::Evaluator;
use crate::operator::{Arithmetic, InnerOpr, Logical, NameOrId, PropKey};
use crate::value::Value;

verus! {

/// A literal as the compiler emits it.
pub enum Literal {
    Boolean(bool),
    I32(i32),
    I64(i64),
    Str(String),
    Blob(Vec<u8>),
    Null,
    I32Array(Vec<i32>),
    I64Array(Vec<i64>),
    StrArray(Vec<String>),
}

/// A constant operand of the compiled form; `value` is required.
pub struct Const {
    pub value: Option<Literal>,
}

/// A variable operand of the compiled form; `tag` is required.
pub struct Variable {
    pub tag: Option<NameOrId>,
    pub property: Option<PropKey>,
}

/// One compiled instruction; operators come as integer codes.
pub enum OprItem {
    Logical(i32),
    Arith(i32),
    Const(Const),
    Var(Variable),
}

/// One compiled instruction; `item` is required.
pub struct ExprOpr {
    pub item: Option<OprItem>,
}

/// A compiled postfix expression.
pub struct SuffixExpr {
    pub operators: Vec<ExprOpr>,
}

/// The logical operator that a code stands for.
pub open spec fn logical_code(c: int) -> Option<Logical> {
    if c == 0 {
        Some(Logical::Eq)
    } else if c == 1 {
        Some(Logical::Ne)
    } else if c == 2 {
        Some(Logical::Lt)
    } else if c == 3 {
        Some(Logical::Le)
    } else if c == 4 {
        Some(Logical::Gt)
    } else if c == 5 {
        Some(Logical::Ge)
    } else if c == 6 {
        Some(Logical::Within)
    } else if c == 7 {
        Some(Logical::Without)
    } else if c == 8 {
        Some(Logical::And)
    } else if c == 9 {
        Some(Logical::Or)
    } else if c == 10 {
        Some(Logical::Not)
    } else {
        None
    }
}

/// The arithmetic operator that a code stands for.
pub open spec fn arith_code(c: int) -> Option<Arithmetic> {
    if c == 0 {
        Some(Arithmetic::Add)
    } else if c == 1 {
        Some(Arithmetic::Sub)
    } else if c == 2 {
        Some(Arithmetic::Mul)
    } else if c == 3 {
        Some(Arithmetic::Div)
    } else if c == 4 {
        Some(Arithmetic::Mod)
    } else if c == 5 {
        Some(Arithmetic::Exp)
    } else {
        None
    }
}

/// The value of a constant: integers widened to 64 bits, `None` for the null literal.
pub open spec fn const_spec(c: Const) -> Result<Option<Value>, ParseError> {
    match c.value {
        None => Err(ParseError::EmptyValue),
        Some(lit) => match lit {
            Literal::Boolean(b) => Ok(Some(Value::Bool(b))),
            Literal::I32(i) => Ok(Some(Value::Int(i as i64))),
            Literal::I64(i) => Ok(Some(Value::Int(i))),
            Literal::Str(s) => Ok(Some(Value::Str(s))),
            Literal::Blob(b) => Ok(Some(Value::Blob(b))),
            Literal::Null => Ok(None),
            _ => Err(ParseError::UnsupportedArray),
        },
    }
}

/// The instruction that a compiled instruction decodes to.
pub open spec fn decode_spec(unit: ExprOpr) -> Result<InnerOpr, ParseError> {
    match unit.item {
        None => Err(ParseError::EmptyValue),
        Some(OprItem::Logical(c)) => match logical_code(c as int) {
            Some(l) => Ok(InnerOpr::Logical(l)),
            None => Err(ParseError::UnknownLogical(c)),
        },
        Some(OprItem::Arith(c)) => match arith_code(c as int) {
            Some(a) => Ok(InnerOpr::Arith(a)),
            None => Err(ParseError::UnknownArithmetic(c)),
        },
        Some(OprItem::Const(c)) => match const_spec(c) {
            Ok(v) => Ok(InnerOpr::Const(v)),
            Err(e) => Err(e),
        },
        Some(OprItem::Var(v)) => match v.tag {
            None => Err(ParseError::EmptyValue),
            Some(tag) => Ok(InnerOpr::Var { tag, prop_key: v.property }),
        },
    }
}

/// The instructions that the first `n` compiled ones decode to, or the first error.
pub open spec fn decode_prefix(units: Seq<ExprOpr>, n: nat) -> Result<Seq<InnerOpr>, ParseError>
    decreases n,
{
    if n == 0 {
        Ok(Seq::empty())
    } else {
        match decode_prefix(units, (n - 1) as nat) {
            Err(e) => Err(e),
            Ok(done) => match decode_spec(units[n - 1]) {
                Ok(op) => Ok(done.push(op)),
                Err(e) => Err(e),
            },
        }
    }
}

fn decode_logical(c: i32) -> (r: Option<Logical>)
    ensures
        r == logical_code(c as int),
{
    match c {
        0 => Some(Logical::Eq),
        1 => Some(Logical::Ne),
        2 => Some(Logical::Lt),
        3 => Some(Logical::Le),
        4 => Some(Logical::Gt),
        5 => Some(Logical::Ge),
        6 => Some(Logical::Within),
        7 => Some(Logical::Without),
        8 => Some(Logical::And),
        9 => Some(Logical::Or),
        10 => Some(Logical::Not),
        _ => None,
    }
}

fn decode_arith(c: i32) -> (r: Option<Arithmetic>)
    ensures
        r == arith_code(c as int),
{
    match c {
        0 => Some(Arithmetic::Add),
        1 => Some(Arithmetic::Sub),
        2 => Some(Arithmetic::Mul),
        3 => Some(Arithmetic::Div),
        4 => Some(Arithmetic::Mod),
        5 => Some(Arithmetic::Exp),
        _ => None,
    }
}

impl Const {
    /// The constant's value; array literals are refused.
    pub fn into_object(self) -> (r: Result<Option<Value>, ParseError>)
        ensures
            r == const_spec(self),
    {
        match self.value {
            None => Err(ParseError::EmptyValue),
            Some(lit) => match lit {
                Literal::Boolean(b) => Ok(Some(Value::Bool(b))),
                Literal::I32(i) => Ok(Some(Value::Int(i as i64))),
                Literal::I64(i) => Ok(Some(Value::Int(i))),
                Literal::Str(s) => Ok(Some(Value::Str(s))),
                Literal::Blob(b) => Ok(Some(Value::Blob(b))),
                Literal::Null => Ok(None),
                _ => Err(ParseError::UnsupportedArray),
            },
        }
    }
}

impl InnerOpr {
    /// Decodes one compiled instruction, validating operator codes.
    pub fn from_pb(unit: ExprOpr) -> (r: Result<InnerOpr, ParseError>)
        ensures
            r == decode_spec(unit),
    {
        match unit.item {
            None => Err(ParseError::EmptyValue),
            Some(OprItem::Logical(c)) => match decode_logical(c) {
                Some(l) => Ok(InnerOpr::Logical(l)),
                None => Err(ParseError::UnknownLogical(c)),
            },
            Some(OprItem::Arith(c)) => match decode_arith(c) {
                Some(a) => Ok(InnerOpr::Arith(a)),
                None => Err(ParseError::UnknownArithmetic(c)),
            },
            Some(OprItem::Const(c)) => match c.into_object() {
                Ok(v) => Ok(InnerOpr::Const(v)),
                Err(e) => Err(e),
            },
            Some(OprItem::Var(v)) => match v.tag {
                None => Err(ParseError::EmptyValue),
                Some(tag) => Ok(InnerOpr::Var { tag, prop_key: v.property }),
            },
        }
    }
}

proof fn lemma_decode_error_sticks(units: Seq<ExprOpr>, k: nat, m: nat)
    requires
        k <= m,
        decode_prefix(units, k) is Err,
    ensures
        decode_prefix(units, m) == decode_prefix(units, k),
    decreases m - k,
{
    if k < m {
        lemma_decode_error_sticks(units, k, (m - 1) as nat);
    }
}

impl Evaluator {
    /// An evaluator for a compiled expression: each instruction decoded in order, the
    /// first failure returned.
    pub fn from_pb(suffix_tree: SuffixExpr) -> (r: Result<Evaluator, ParseError>)
        ensures
            match r {
                Ok(e) => decode_prefix(suffix_tree.operators@, suffix_tree.operators@.len())
                    == Ok::<Seq<InnerOpr>, ParseError>(e.ops()),
                Err(err) => decode_prefix(suffix_tree.operators@, suffix_tree.operators@.len())
                    == Err::<Seq<InnerOpr>, ParseError>(err),
            },
    {
        let ghost units = suffix_tree.operators@;
        let total = suffix_tree.operators.len();
        let mut rest = suffix_tree.operators;
        let mut inner_tree: Vec<InnerOpr> = Vec::new();
        let mut i: usize = 0;
        while rest.len() > 0
            invariant
                i + rest@.len() == units.len(),
                units.len() == total,
                units == suffix_tree.operators@,
                rest@ == units.subrange(i as int, units.len() as int),
                decode_prefix(units, i as nat) == Ok::<Seq<InnerOpr>, ParseError>(inner_tree@),
            decreases rest@.len(),
        {
            let unit = rest.remove(0);
            assert(unit == units[i as int]);
            match InnerOpr::from_pb(unit) {
                Ok(op) => inner_tree.push(op),
                Err(e) => {
                    proof {
                        lemma_decode_error_sticks(units, (i + 1) as nat, units.len());
                    }
                    return Err(e);
                },
            }
            assert(rest@ =~= units.subrange(i + 1, units.len() as int));
            i = i + 1;
        }
        Ok(Evaluator::new(inner_tree))
    }
}

} // verus!
