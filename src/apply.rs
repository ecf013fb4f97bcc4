use vstd::prelude::*;
use core::cmp::Ordering;
use crate::error::{ExprError, Fault};
use crate::operator::{Arithmetic, InnerOpr, Logical, arith_name, describe, logical_name};
use crate::value::{
    Val, Value, abs, compare, compare_spec, in_i64, int_result, strict_bool, trunc_div, trunc_rem,
    truth_spec,
};

verus! {

/// `x` raised to the natural power `e`.
pub open spec fn power(x: int, e: nat) -> int
    decreases e,
{
    if e == 0 {
        1
    } else {
        x * power(x, (e - 1) as nat)
    }
}

/// The result of an arithmetic operator on two values.
pub open spec fn arith_spec(op: Arithmetic, a: Val, b: Val) -> Result<Val, Fault> {
    match (a, b) {
        (Val::Int(x), Val::Int(y)) => match op {
            Arithmetic::Add => int_result(x + y),
            Arithmetic::Sub => int_result(x - y),
            Arithmetic::Mul => int_result(x * y),
            Arithmetic::Div => if y == 0 {
                Err(Fault::DivisionByZero)
            } else {
                int_result(trunc_div(x, y))
            },
            Arithmetic::Mod => if y == 0 {
                Err(Fault::DivisionByZero)
            } else {
                int_result(trunc_rem(x, y))
            },
            Arithmetic::Exp => if y < 0 {
                Err(Fault::NegativeExponent)
            } else {
                int_result(power(x, y as nat))
            },
        },
        _ => Err(Fault::TypeMismatch),
    }
}

/// The result of unary negation.
pub open spec fn not_spec(a: Val) -> Result<Val, Fault> {
    match truth_spec(a) {
        Ok(b) => Ok(Val::Bool(!b)),
        Err(e) => Err(e),
    }
}

/// The result of a binary logical or comparison operator on two values.
pub open spec fn binary_logical_spec(l: Logical, a: Val, b: Val) -> Result<Val, Fault> {
    match l {
        Logical::And | Logical::Or => match (strict_bool(a), strict_bool(b)) {
            (Ok(x), Ok(y)) => Ok(Val::Bool(if l is And { x && y } else { x || y })),
            (Err(e), _) => Err(e),
            (_, Err(e)) => Err(e),
        },
        Logical::Within | Logical::Without | Logical::Not => Err(
            Fault::Unimplemented(logical_name(l)),
        ),
        _ => match compare_spec(a, b) {
            Ok(o) => Ok(
                Val::Bool(
                    match l {
                        Logical::Eq => o == Ordering::Equal,
                        Logical::Ne => o != Ordering::Equal,
                        Logical::Lt => o == Ordering::Less,
                        Logical::Le => o != Ordering::Greater,
                        Logical::Gt => o == Ordering::Greater,
                        _ => o != Ordering::Less,
                    },
                ),
            ),
            Err(e) => Err(e),
        },
    }
}

/// A logical operator applied to the operands at hand; a missing one gives `MissingOperands`.
pub open spec fn apply_logical_spec(l: Logical, first: Option<Val>, second: Option<Val>) -> Result<
    Val,
    Fault,
> {
    if l is Not {
        match first {
            Some(a) => not_spec(a),
            None => Err(Fault::MissingOperands(logical_name(l))),
        }
    } else {
        match (first, second) {
            (Some(a), Some(b)) => binary_logical_spec(l, a, b),
            _ => Err(Fault::MissingOperands(logical_name(l))),
        }
    }
}

/// An arithmetic operator applied to the operands at hand; a missing one gives `MissingOperands`.
pub open spec fn apply_arith_spec(op: Arithmetic, first: Option<Val>, second: Option<Val>) -> Result<
    Val,
    Fault,
> {
    match (first, second) {
        (Some(a), Some(b)) => arith_spec(op, a, b),
        _ => Err(Fault::MissingOperands(arith_name(op))),
    }
}

pub open spec fn opt_view(v: Option<Value>) -> Option<Val> {
    match v {
        Some(x) => Some(x@),
        None => None,
    }
}

pub open spec fn matches_result(r: Result<Value, ExprError>, s: Result<Val, Fault>) -> bool {
    match r {
        Ok(v) => s == Ok::<Val, Fault>(v@),
        Err(e) => s == Err::<Val, Fault>(e@),
    }
}

proof fn lemma_power_one(e: nat)
    ensures
        power(1, e) == 1,
    decreases e,
{
    if e > 0 {
        lemma_power_one((e - 1) as nat);
    }
}

proof fn lemma_power_minus_one(e: nat)
    ensures
        power(-1, e) == if e % 2 == 0 {
            1int
        } else {
            -1int
        },
    decreases e,
{
    if e > 0 {
        lemma_power_minus_one((e - 1) as nat);
    }
}

proof fn lemma_power_grows(x: int, k: nat, e: nat)
    requires
        abs(x) >= 2,
        k < e,
    ensures
        abs(power(x, e)) >= 2 * abs(power(x, k)),
    decreases e,
{
    let p = power(x, (e - 1) as nat);
    assert(power(x, e) == x * p);
    assert(abs(x * p) == abs(x) * abs(p)) by (nonlinear_arith);
    assert(abs(x) * abs(p) >= 2 * abs(p)) by (nonlinear_arith)
        requires
            abs(x) >= 2,
    ;
    if k + 1 < e {
        lemma_power_grows(x, k, (e - 1) as nat);
    }
}

fn int_power(x: i64, y: i64) -> (r: Result<i64, ExprError>)
    requires
        y >= 0,
    ensures
        match r {
            Ok(v) => int_result(power(x as int, y as nat)) == Ok::<Val, Fault>(Val::Int(v as int)),
            Err(e) => int_result(power(x as int, y as nat)) == Err::<Val, Fault>(e@),
        },
{
    if x == 0 {
        if y == 0 {
            return Ok(1);
        } else {
            assert(power(0, y as nat) == 0 * power(0, (y - 1) as nat));
            return Ok(0);
        }
    } else if x == 1 {
        proof {
            lemma_power_one(y as nat);
        }
        return Ok(1);
    } else if x == -1 {
        proof {
            lemma_power_minus_one(y as nat);
        }
        return Ok(if y % 2 == 0 { 1 } else { -1 });
    }
    let mut acc: i64 = 1;
    let mut i: i64 = 0;
    while i < y
        invariant
            0 <= i <= y,
            acc == power(x as int, i as nat),
            abs(x as int) >= 2,
        decreases y - i,
    {
        match acc.checked_mul(x) {
            Some(v) => {
                acc = v;
            },
            None => {
                proof {
                    let n = (i + 1) as nat;
                    assert(power(x as int, n) == x * power(x as int, i as nat));
                    assert(!in_i64(power(x as int, n)));
                    if n < y {
                        lemma_power_grows(x as int, n, y as nat);
                    }
                }
                return Err(ExprError::Overflow);
            },
        }
        i = i + 1;
    }
    Ok(acc)
}

/// Applies an arithmetic operator to two values.
pub fn arith(op: Arithmetic, a: &Value, b: &Value) -> (r: Result<Value, ExprError>)
    ensures
        matches_result(r, arith_spec(op, a@, b@)),
{
    match (a, b) {
        (Value::Int(x), Value::Int(y)) => {
            let x = *x;
            let y = *y;
            match op {
                Arithmetic::Add => match x.checked_add(y) {
                    Some(v) => Ok(Value::Int(v)),
                    None => Err(ExprError::Overflow),
                },
                Arithmetic::Sub => match x.checked_sub(y) {
                    Some(v) => Ok(Value::Int(v)),
                    None => Err(ExprError::Overflow),
                },
                Arithmetic::Mul => match x.checked_mul(y) {
                    Some(v) => Ok(Value::Int(v)),
                    None => Err(ExprError::Overflow),
                },
                Arithmetic::Div => {
                    if y == 0 {
                        return Err(ExprError::DivisionByZero);
                    }
                    proof {
                        lemma_checked_div(x as int, y as int);
                    }
                    match x.checked_div(y) {
                        Some(v) => Ok(Value::Int(v)),
                        None => Err(ExprError::Overflow),
                    }
                },
                Arithmetic::Mod => {
                    if y == 0 {
                        return Err(ExprError::DivisionByZero);
                    }
                    if y == -1 {
                        proof {
                            assert(trunc_div(x as int, -1) == -x) by (nonlinear_arith);
                        }
                        return Ok(Value::Int(0));
                    }
                    proof {
                        lemma_checked_rem(x as int, y as int);
                    }
                    match x.checked_rem(y) {
                        Some(v) => Ok(Value::Int(v)),
                        None => Err(ExprError::Overflow),
                    }
                },
                Arithmetic::Exp => {
                    if y < 0 {
                        return Err(ExprError::NegativeExponent);
                    }
                    match int_power(x, y) {
                        Ok(v) => Ok(Value::Int(v)),
                        Err(e) => Err(e),
                    }
                },
            }
        },
        _ => Err(ExprError::TypeMismatch),
    }
}

proof fn lemma_checked_div(x: int, y: int)
    requires
        y != 0,
    ensures
        trunc_div(x, y) == (if x == 0 {
            0
        } else if x > 0 && y > 0 {
            x / y
        } else if x < 0 && y < 0 {
            (x * -1) / (y * -1)
        } else if x < 0 {
            ((x * -1) / y) * -1
        } else {
            (x / (y * -1)) * -1
        }),
{
}

proof fn lemma_checked_rem(x: int, y: int)
    requires
        y != 0,
    ensures
        trunc_rem(x, y) == (if x == 0 {
            0
        } else if x > 0 && y > 0 {
            x % y
        } else if x < 0 && y < 0 {
            ((x * -1) % (y * -1)) * -1
        } else if x < 0 {
            ((x * -1) % y) * -1
        } else {
            x % (y * -1)
        }),
{
    let ax = abs(x) as int;
    let ay = abs(y) as int;
    assert(ax == (ax / ay) * ay + ax % ay) by (nonlinear_arith)
        requires
            ay > 0,
    ;
    lemma_checked_div(x, y);
    assert(trunc_rem(x, y) == x - trunc_div(x, y) * y);
    if x == 0 {
        assert(0int / ay == 0) by (nonlinear_arith)
            requires
                ay > 0,
        ;
    } else if x > 0 && y > 0 {
    } else if x < 0 && y < 0 {
        assert(trunc_div(x, y) * y == -((ax / ay) * ay)) by (nonlinear_arith)
            requires
                trunc_div(x, y) == ax / ay,
                y == -ay,
        ;
    } else if x < 0 {
        assert(trunc_div(x, y) * y == -((ax / ay) * ay)) by (nonlinear_arith)
            requires
                trunc_div(x, y) == -(ax / ay),
                y == ay,
        ;
    } else {
        assert(trunc_div(x, y) * y == (ax / ay) * ay) by (nonlinear_arith)
            requires
                trunc_div(x, y) == -(ax / ay),
                y == -ay,
        ;
    }
}

fn compare_op(l: Logical, a: &Value, b: &Value) -> (r: Result<Value, ExprError>)
    requires
        l is Eq || l is Ne || l is Lt || l is Le || l is Gt || l is Ge,
    ensures
        matches_result(r, binary_logical_spec(l, a@, b@)),
{
    match compare(a, b) {
        Ok(o) => {
            let less = matches!(o, Ordering::Less);
            let equal = matches!(o, Ordering::Equal);
            let greater = matches!(o, Ordering::Greater);
            let v = match l {
                Logical::Eq => equal,
                Logical::Ne => !equal,
                Logical::Lt => less,
                Logical::Le => !greater,
                Logical::Gt => greater,
                _ => !less,
            };
            Ok(Value::Bool(v))
        },
        Err(e) => Err(e),
    }
}

fn strict(a: &Value) -> (r: Result<bool, ExprError>)
    ensures
        match r {
            Ok(b) => strict_bool(a@) == Ok::<bool, Fault>(b),
            Err(e) => strict_bool(a@) == Err::<bool, Fault>(e@),
        },
{
    match a {
        Value::Bool(b) => Ok(*b),
        _ => Err(ExprError::TypeMismatch),
    }
}

/// Applies a logical operator to the operands at hand.
pub fn apply_logical(l: Logical, first: Option<Value>, second: Option<Value>) -> (r: Result<
    Value,
    ExprError,
>)
    ensures
        matches_result(r, apply_logical_spec(l, opt_view(first), opt_view(second))),
{
    if l == Logical::Not {
        match first {
            Some(a) => match a.as_bool() {
                Ok(b) => Ok(Value::Bool(!b)),
                Err(e) => Err(e),
            },
            None => Err(ExprError::MissingOperands(describe(&InnerOpr::Logical(l)))),
        }
    } else {
        match (first, second) {
            (Some(a), Some(b)) => match l {
                Logical::And | Logical::Or => {
                    let x = match strict(&a) {
                        Ok(x) => x,
                        Err(e) => return Err(e),
                    };
                    let y = match strict(&b) {
                        Ok(y) => y,
                        Err(e) => return Err(e),
                    };
                    Ok(Value::Bool(if l == Logical::And { x && y } else { x || y }))
                },
                Logical::Within | Logical::Without | Logical::Not => Err(
                    ExprError::Unimplemented(describe(&InnerOpr::Logical(l))),
                ),
                _ => compare_op(l, &a, &b),
            },
            _ => Err(ExprError::MissingOperands(describe(&InnerOpr::Logical(l)))),
        }
    }
}

/// Applies an arithmetic operator to the operands at hand.
pub fn apply_arith(op: Arithmetic, first: Option<Value>, second: Option<Value>) -> (r: Result<
    Value,
    ExprError,
>)
    ensures
        matches_result(r, apply_arith_spec(op, opt_view(first), opt_view(second))),
{
    match (first, second) {
        (Some(a), Some(b)) => arith(op, &a, &b),
        _ => Err(ExprError::MissingOperands(describe(&InnerOpr::Arith(op)))),
    }
}

} // verus!
