use vstd::prelude::*;
use crate::apply::{arith_spec, binary_logical_spec, not_spec, matches_result};
use crate::context::Context;
use crate::error::{ExprError, Fault};
use crate::eval::{eval_spec, operand_spec, resolve_spec, run_spec, stack_eval_spec};
use crate::operator::{Arithmetic, InnerOpr, Logical, desc_spec};
use crate::value::{Val, Value, abs, in_i64, result_view, strict_bool, trunc_div, trunc_rem};

verus! {

/// Sequences of one to three instructions whose operands resolve to values evaluate to
/// what the postfix stack machine gives for them: a single operand to its value, an operand
/// followed by `Not` to its negation, two operands followed by a binary operator to that
/// operator applied with the first as left and the second as right operand.
pub proof fn lemma_short_sequences<C: Context>(
    x: InnerOpr,
    y: InnerOpr,
    l: Logical,
    k: Arithmetic,
    ctx: Option<&C>,
)
    requires
        operand_spec(x, ctx) is Ok,
        operand_spec(y, ctx) is Ok,
        !(l is Not),
    ensures
        eval_spec(seq![x], ctx) == operand_spec(x, ctx),
        eval_spec(seq![x], ctx) == stack_eval_spec(seq![x], ctx),
        eval_spec(seq![x, InnerOpr::Logical(Logical::Not)], ctx) == not_spec(
            operand_spec(x, ctx)->Ok_0,
        ),
        eval_spec(seq![x, InnerOpr::Logical(Logical::Not)], ctx) == stack_eval_spec(
            seq![x, InnerOpr::Logical(Logical::Not)],
            ctx,
        ),
        eval_spec(seq![x, y, InnerOpr::Arith(k)], ctx) == arith_spec(
            k,
            operand_spec(x, ctx)->Ok_0,
            operand_spec(y, ctx)->Ok_0,
        ),
        eval_spec(seq![x, y, InnerOpr::Arith(k)], ctx) == stack_eval_spec(
            seq![x, y, InnerOpr::Arith(k)],
            ctx,
        ),
        eval_spec(seq![x, y, InnerOpr::Logical(l)], ctx) == binary_logical_spec(
            l,
            operand_spec(x, ctx)->Ok_0,
            operand_spec(y, ctx)->Ok_0,
        ),
        eval_spec(seq![x, y, InnerOpr::Logical(l)], ctx) == stack_eval_spec(
            seq![x, y, InnerOpr::Logical(l)],
            ctx,
        ),
{
    assert(x is Const || x is Var);
    assert(y is Const || y is Var);
    reveal_with_fuel(run_spec, 4);
    let va = operand_spec(x, ctx)->Ok_0;
    let vb = operand_spec(y, ctx)->Ok_0;
    assert(seq![va].push(vb).drop_last() =~= seq![va]);
    assert(seq![va].drop_last() =~= Seq::<Val>::empty());
    assert(Seq::<Val>::empty().push(va) =~= seq![va]);
    let s1 = seq![x];
    let s2 = seq![x, InnerOpr::Logical(Logical::Not)];
    let s3 = seq![x, y, InnerOpr::Arith(k)];
    let s4 = seq![x, y, InnerOpr::Logical(l)];
    assert(run_spec(s1, ctx, 1) == Ok::<Seq<Val>, Fault>(seq![va]));
    assert(run_spec(s2, ctx, 1) == Ok::<Seq<Val>, Fault>(seq![va]));
    assert(run_spec(s3, ctx, 2) == Ok::<Seq<Val>, Fault>(seq![va].push(vb)));
    assert(run_spec(s4, ctx, 2) == Ok::<Seq<Val>, Fault>(seq![va].push(vb)));
}

/// Evaluating the same sequence against the same context twice gives the same result.
pub proof fn lemma_eval_deterministic<C: Context>(
    ops: Seq<InnerOpr>,
    ctx: Option<&C>,
    r1: Result<Value, ExprError>,
    r2: Result<Value, ExprError>,
)
    requires
        matches_result(r1, eval_spec(ops, ctx)),
        matches_result(r2, eval_spec(ops, ctx)),
    ensures
        result_view(r1) == result_view(r2),
{
}

/// Addition and multiplication are commutative.
pub proof fn lemma_add_mul_commute(a: Val, b: Val)
    ensures
        arith_spec(Arithmetic::Add, a, b) == arith_spec(Arithmetic::Add, b, a),
        arith_spec(Arithmetic::Mul, a, b) == arith_spec(Arithmetic::Mul, b, a),
{
    if let (Val::Int(x), Val::Int(y)) = (a, b) {
        assert(x * y == y * x) by (nonlinear_arith);
    }
}

/// Integer division truncates toward zero: the quotient's magnitude is the floor of the
/// magnitudes' quotient, and a non-zero quotient has the sign of the operands' product.
pub proof fn lemma_div_truncates(x: int, y: int)
    requires
        y != 0,
        in_i64(x),
        in_i64(y),
        !(x == i64::MIN && y == -1),
    ensures
        arith_spec(Arithmetic::Div, Val::Int(x), Val::Int(y)) == Ok::<Val, Fault>(
            Val::Int(trunc_div(x, y)),
        ),
        abs(trunc_div(x, y)) == abs(x) / abs(y),
        trunc_div(x, y) > 0 ==> ((x > 0) == (y > 0)),
        trunc_div(x, y) < 0 ==> ((x > 0) != (y > 0)),
{
    let ax = abs(x) as int;
    let ay = abs(y) as int;
    assert(ax / ay <= ax) by (nonlinear_arith)
        requires
            ax >= 0,
            ay >= 1,
    ;
    if ay >= 2 {
        assert(ax / ay <= ax / 2) by (nonlinear_arith)
            requires
                ax >= 0,
                ay >= 2,
        ;
    }
}

/// The integer remainder is `a - (a / b) * b`, with `/` the evaluator's division.
pub proof fn lemma_mod_matches_div(x: int, y: int, q: int)
    requires
        in_i64(x),
        in_i64(y),
        arith_spec(Arithmetic::Div, Val::Int(x), Val::Int(y)) == Ok::<Val, Fault>(Val::Int(q)),
    ensures
        arith_spec(Arithmetic::Mod, Val::Int(x), Val::Int(y)) == Ok::<Val, Fault>(
            Val::Int(x - q * y),
        ),
{
    let ax = abs(x) as int;
    let ay = abs(y) as int;
    assert(ax == (ax / ay) * ay + ax % ay && 0 <= ax % ay < ay) by (nonlinear_arith)
        requires
            ay > 0,
    ;
    assert(abs(trunc_rem(x, y)) < ay) by (nonlinear_arith)
        requires
            ax == (ax / ay) * ay + ax % ay,
            0 <= ax % ay < ay,
            ax == abs(x),
            ay == abs(y),
            trunc_rem(x, y) == x - trunc_div(x, y) * y,
            trunc_div(x, y) == if (x < 0) == (y < 0) {
                ax / ay
            } else {
                -(ax / ay)
            },
    ;
}

/// Negation flips a boolean.
pub proof fn lemma_not_bool()
    ensures
        not_spec(Val::Bool(true)) == Ok::<Val, Fault>(Val::Bool(false)),
        not_spec(Val::Bool(false)) == Ok::<Val, Fault>(Val::Bool(true)),
{
}

/// Conjunction and disjunction read both operands: a decided left operand does not excuse
/// a right one that is no boolean.
pub proof fn lemma_no_short_circuit(b: Val)
    requires
        strict_bool(b) is Err,
    ensures
        binary_logical_spec(Logical::And, Val::Bool(false), b) is Err,
        binary_logical_spec(Logical::Or, Val::Bool(true), b) is Err,
{
}

/// Both operands are resolved before a binary operator applies: `false && v` fails when
/// `v` cannot be resolved.
pub proof fn lemma_operands_resolved_first<C: Context>(v: InnerOpr, ctx: Option<&C>)
    requires
        resolve_spec(v, ctx) is Err,
    ensures
        eval_spec(
            seq![InnerOpr::Const(Some(Value::Bool(false))), v, InnerOpr::Logical(Logical::And)],
            ctx,
        ) == Err::<Val, Fault>(resolve_spec(v, ctx)->Err_0),
{
}

/// A variable whose tag the context lacks fails with `NoneOperand`; without any context it
/// fails with `MissingContext`; both name the variable. This holds alone, before `Not`, and as
/// the first operand of a binary operator or as the second after a resolvable first.
pub proof fn lemma_missing_tag<C: Context>(v: InnerOpr, w: InnerOpr, op: InnerOpr, ctx: &C)
    requires
        v is Var,
        ctx.element(v->tag) is None,
        op is Logical || op is Arith,
    ensures
        eval_spec(seq![v], Some(ctx)) == Err::<Val, Fault>(Fault::NoneOperand(desc_spec(v))),
        eval_spec(seq![v], None::<&C>) == Err::<Val, Fault>(Fault::MissingContext(desc_spec(v))),
        eval_spec(seq![v, InnerOpr::Logical(Logical::Not)], Some(ctx)) == Err::<Val, Fault>(
            Fault::NoneOperand(desc_spec(v)),
        ),
        eval_spec(seq![v, InnerOpr::Logical(Logical::Not)], None::<&C>) == Err::<Val, Fault>(
            Fault::MissingContext(desc_spec(v)),
        ),
        eval_spec(seq![v, w, op], Some(ctx)) == Err::<Val, Fault>(Fault::NoneOperand(desc_spec(v))),
        eval_spec(seq![v, w, op], None::<&C>) == Err::<Val, Fault>(
            Fault::MissingContext(desc_spec(v)),
        ),
        operand_spec(w, Some(ctx)) is Ok ==> eval_spec(seq![w, v, op], Some(ctx)) == Err::<
            Val,
            Fault,
        >(Fault::NoneOperand(desc_spec(v))),
{
}

proof fn lemma_run_prefix<C: Context>(s1: Seq<InnerOpr>, s2: Seq<InnerOpr>, ctx: Option<&C>, n: nat)
    requires
        n <= s1.len(),
        n <= s2.len(),
        forall|i: int| 0 <= i < n ==> s1[i] == s2[i],
    ensures
        run_spec(s1, ctx, n) == run_spec(s2, ctx, n),
    decreases n,
{
    if n > 0 {
        lemma_run_prefix(s1, s2, ctx, (n - 1) as nat);
    }
}

/// `&&` and `||` never decide on their left side alone: in `A B op`, with `A` evaluating to
/// one value, a failure while `B` is evaluated on top of it fails the whole expression, with
/// that very error once the sequence is longer than three instructions.
pub proof fn lemma_no_short_circuit_sequences<C: Context>(
    a: Seq<InnerOpr>,
    b: Seq<InnerOpr>,
    l: Logical,
    ctx: Option<&C>,
)
    requires
        l is And || l is Or,
        a.len() >= 1,
        b.len() >= 1,
        run_spec(a, ctx, a.len()) matches Ok(st) && st.len() == 1,
        run_spec(a + b, ctx, (a + b).len()) is Err,
    ensures
        eval_spec((a + b).push(InnerOpr::Logical(l)), ctx) is Err,
        (a + b).len() > 2 ==> eval_spec((a + b).push(InnerOpr::Logical(l)), ctx) == Err::<
            Val,
            Fault,
        >(run_spec(a + b, ctx, (a + b).len())->Err_0),
{
    let ab = a + b;
    let ops = ab.push(InnerOpr::Logical(l));
    lemma_run_prefix(ops, ab, ctx, ab.len());
    if ab.len() > 2 {
        assert(run_spec(ops, ctx, ops.len()) == run_spec(ops, ctx, ab.len()));
    } else {
        assert(ab.len() == 2);
        assert(a.len() == 1 && b.len() == 1);
        assert(ab[0] == a[0] && ab[1] == b[0]);
        reveal_with_fuel(run_spec, 3);
        lemma_run_prefix(a, ab, ctx, 1);
        if operand_spec(ab[1], ctx) is Ok && (ab[1] is Const || ab[1] is Var) {
            assert(run_spec(ab, ctx, 2) is Ok);
        }
    }
}

} // verus!
