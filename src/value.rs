use vstd::prelude::*;
use vstd::arithmetic::power::pow;
use vstd::utf8::encode_utf8;
use core::cmp::Ordering;
use crate::error::{ExprError, Fault};

verus! {

/// A dynamically typed value: absent, a boolean, a 64-bit integer, text or a byte blob.
#[derive(Debug, Clone, PartialEq)]
pub enum Value {
    Null,
    Bool(bool),
    Int(i64),
    Str(String),
    Blob(Vec<u8>),
}

/// The mathematical model of a `Value`.
pub enum Val {
    Null,
    Bool(bool),
    Int(int),
    Str(Seq<char>),
    Blob(Seq<u8>),
}

impl View for Value {
    type V = Val;

    open spec fn view(&self) -> Val {
        match self {
            Value::Null => Val::Null,
            Value::Bool(b) => Val::Bool(*b),
            Value::Int(i) => Val::Int(*i as int),
            Value::Str(s) => Val::Str(s@),
            Value::Blob(b) => Val::Blob(b@),
        }
    }
}

/// The view of an evaluation result.
pub open spec fn result_view(r: Result<Value, ExprError>) -> Result<Val, Fault> {
    match r {
        Ok(v) => Ok(v@),
        Err(e) => Err(e@),
    }
}

pub open spec fn in_i64(x: int) -> bool {
    i64::MIN <= x <= i64::MAX
}

/// An integer result, or `Overflow` where it leaves the 64-bit range.
pub open spec fn int_result(x: int) -> Result<Val, Fault> {
    if in_i64(x) {
        Ok(Val::Int(x))
    } else {
        Err(Fault::Overflow)
    }
}

pub open spec fn abs(x: int) -> nat {
    if x < 0 {
        (-x) as nat
    } else {
        x as nat
    }
}

/// Integer division rounded toward zero.
pub open spec fn trunc_div(x: int, y: int) -> int {
    if (x < 0) == (y < 0) {
        (abs(x) / abs(y)) as int
    } else {
        -((abs(x) / abs(y)) as int)
    }
}

/// The remainder that goes with `trunc_div`.
pub open spec fn trunc_rem(x: int, y: int) -> int {
    x - trunc_div(x, y) * y
}

/// Lexicographic order of two byte sequences.
pub open spec fn lex_cmp(a: Seq<u8>, b: Seq<u8>) -> Ordering
    decreases a.len(),
{
    if a.len() == 0 {
        if b.len() == 0 {
            Ordering::Equal
        } else {
            Ordering::Less
        }
    } else if b.len() == 0 {
        Ordering::Greater
    } else if a[0] < b[0] {
        Ordering::Less
    } else if a[0] > b[0] {
        Ordering::Greater
    } else {
        lex_cmp(a.drop_first(), b.drop_first())
    }
}

pub open spec fn int_cmp(x: int, y: int) -> Ordering {
    if x < y {
        Ordering::Less
    } else if x == y {
        Ordering::Equal
    } else {
        Ordering::Greater
    }
}

/// How two values compare: defined for two values of one shape, text by its UTF-8 bytes.
pub open spec fn compare_spec(a: Val, b: Val) -> Result<Ordering, Fault> {
    match (a, b) {
        (Val::Null, Val::Null) => Ok(Ordering::Equal),
        (Val::Bool(x), Val::Bool(y)) => Ok(
            if x == y {
                Ordering::Equal
            } else if !x {
                Ordering::Less
            } else {
                Ordering::Greater
            },
        ),
        (Val::Int(x), Val::Int(y)) => Ok(int_cmp(x, y)),
        (Val::Str(x), Val::Str(y)) => Ok(lex_cmp(encode_utf8(x), encode_utf8(y))),
        (Val::Blob(x), Val::Blob(y)) => Ok(lex_cmp(x, y)),
        _ => Err(Fault::TypeMismatch),
    }
}

/// Truthiness for unary negation: booleans as they are, integers by being non-zero.
pub open spec fn truth_spec(a: Val) -> Result<bool, Fault> {
    match a {
        Val::Bool(b) => Ok(b),
        Val::Int(i) => Ok(i != 0),
        _ => Err(Fault::TypeMismatch),
    }
}

/// Strict boolean reading for conjunction and disjunction.
pub open spec fn strict_bool(a: Val) -> Result<bool, Fault> {
    match a {
        Val::Bool(b) => Ok(b),
        _ => Err(Fault::TypeMismatch),
    }
}

impl Value {
    /// An owned copy with the same model.
    pub fn copied(&self) -> (r: Value)
        ensures
            r@ == self@,
    {
        match self {
            Value::Null => Value::Null,
            Value::Bool(b) => Value::Bool(*b),
            Value::Int(i) => Value::Int(*i),
            Value::Str(s) => Value::Str(s.clone()),
            Value::Blob(b) => {
                let mut out: Vec<u8> = Vec::new();
                let mut i: usize = 0;
                while i < b.len()
                    invariant
                        i <= b@.len(),
                        out@ == b@.subrange(0, i as int),
                    decreases b@.len() - i,
                {
                    out.push(b[i]);
                    i = i + 1;
                }
                assert(out@ =~= b@);
                Value::Blob(out)
            },
        }
    }

    /// Reads the value as a boolean where it is one, or as an integer's non-zero-ness.
    pub fn as_bool(&self) -> (r: Result<bool, ExprError>)
        ensures
            match r {
                Ok(b) => truth_spec(self@) == Ok::<bool, Fault>(b),
                Err(e) => truth_spec(self@) == Err::<bool, Fault>(e@),
            },
    {
        match self {
            Value::Bool(b) => Ok(*b),
            Value::Int(i) => Ok(*i != 0),
            _ => Err(ExprError::TypeMismatch),
        }
    }
}

proof fn lemma_lex_step(a: Seq<u8>, b: Seq<u8>, i: int)
    requires
        0 <= i < a.len(),
        i < b.len(),
        a[i] == b[i],
    ensures
        lex_cmp(a.subrange(i, a.len() as int), b.subrange(i, b.len() as int)) == lex_cmp(
            a.subrange(i + 1, a.len() as int),
            b.subrange(i + 1, b.len() as int),
        ),
{
    let sa = a.subrange(i, a.len() as int);
    let sb = b.subrange(i, b.len() as int);
    assert(sa.drop_first() =~= a.subrange(i + 1, a.len() as int));
    assert(sb.drop_first() =~= b.subrange(i + 1, b.len() as int));
}

/// Lexicographic comparison of two byte slices.
fn compare_bytes(a: &[u8], b: &[u8]) -> (r: Ordering)
    ensures
        r == lex_cmp(a@, b@),
{
    let mut i: usize = 0;
    assert(a@.subrange(0, a@.len() as int) =~= a@);
    assert(b@.subrange(0, b@.len() as int) =~= b@);
    while i < a.len() && i < b.len()
        invariant
            i <= a@.len(),
            i <= b@.len(),
            lex_cmp(a@, b@) == lex_cmp(
                a@.subrange(i as int, a@.len() as int),
                b@.subrange(i as int, b@.len() as int),
            ),
        decreases a@.len() - i,
    {
        if a[i] < b[i] {
            return Ordering::Less;
        } else if a[i] > b[i] {
            return Ordering::Greater;
        }
        proof {
            lemma_lex_step(a@, b@, i as int);
        }
        i = i + 1;
    }
    if i < a.len() {
        Ordering::Greater
    } else if i < b.len() {
        Ordering::Less
    } else {
        Ordering::Equal
    }
}

fn compare_ints(x: i64, y: i64) -> (r: Ordering)
    ensures
        r == int_cmp(x as int, y as int),
{
    if x < y {
        Ordering::Less
    } else if x == y {
        Ordering::Equal
    } else {
        Ordering::Greater
    }
}

/// Compares two values of one shape; values of two shapes give `TypeMismatch`.
pub fn compare(a: &Value, b: &Value) -> (r: Result<Ordering, ExprError>)
    ensures
        match r {
            Ok(o) => compare_spec(a@, b@) == Ok::<Ordering, Fault>(o),
            Err(e) => compare_spec(a@, b@) == Err::<Ordering, Fault>(e@),
        },
{
    match (a, b) {
        (Value::Null, Value::Null) => Ok(Ordering::Equal),
        (Value::Bool(x), Value::Bool(y)) => Ok(
            if *x == *y {
                Ordering::Equal
            } else if !*x {
                Ordering::Less
            } else {
                Ordering::Greater
            },
        ),
        (Value::Int(x), Value::Int(y)) => Ok(compare_ints(*x, *y)),
        (Value::Str(x), Value::Str(y)) => {
            let xs = x.as_str();
            let ys = y.as_str();
            Ok(compare_bytes(xs.as_bytes(), ys.as_bytes()))
        },
        (Value::Blob(x), Value::Blob(y)) => Ok(compare_bytes(x.as_slice(), y.as_slice())),
        _ => Err(ExprError::TypeMismatch),
    }
}

} // verus!
