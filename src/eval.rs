use vstd::prelude::*;
use crate::apply::{
    apply_arith, apply_arith_spec, apply_logical, apply_logical_spec, matches_result, opt_view,
};
use crate::context::{Context, read_spec};
use crate::error::{ExprError, Fault};
use crate::operator::{InnerOpr, Logical, desc_spec, describe};
use crate::value::{Val, Value, truth_spec};

verus! {

/// What resolving an instruction as an operand gives: a value, no value, or an error.
pub open spec fn resolve_spec<C: Context>(op: InnerOpr, ctx: Option<&C>) -> Result<
    Option<Val>,
    Fault,
> {
    match op {
        InnerOpr::Const(c) => Ok(opt_view(c)),
        InnerOpr::Var { tag, prop_key } => match ctx {
            None => Err(Fault::MissingContext(desc_spec(op))),
            Some(c) => match c.element(tag) {
                None => Ok(None),
                Some(e) => Ok(read_spec(e, prop_key)),
            },
        },
        _ => Err(Fault::UnmatchedOperator(desc_spec(op))),
    }
}

/// An operand's value: an operand that resolves to no value gives `NoneOperand` naming it.
pub open spec fn operand_spec<C: Context>(op: InnerOpr, ctx: Option<&C>) -> Result<Val, Fault> {
    match resolve_spec(op, ctx) {
        Err(e) => Err(e),
        Ok(None) => Err(Fault::NoneOperand(desc_spec(op))),
        Ok(Some(v)) => Ok(v),
    }
}

pub open spec fn stack_view(s: Seq<Value>) -> Seq<Val> {
    s.map_values(|v: Value| v@)
}

pub open spec fn top(st: Seq<Val>) -> Option<Val> {
    if st.len() > 0 {
        Some(st.last())
    } else {
        None
    }
}

pub open spec fn popped(st: Seq<Val>) -> Seq<Val> {
    if st.len() > 0 {
        st.drop_last()
    } else {
        st
    }
}

pub open spec fn push_result(st: Seq<Val>, r: Result<Val, Fault>) -> Result<Seq<Val>, Fault> {
    match r {
        Ok(v) => Ok(st.push(v)),
        Err(e) => Err(e),
    }
}

/// One instruction of the stack machine: an operand is pushed; an operator pops its
/// operands (the right one first) and pushes its result.
pub open spec fn step_spec<C: Context>(op: InnerOpr, st: Seq<Val>, ctx: Option<&C>) -> Result<
    Seq<Val>,
    Fault,
> {
    match op {
        InnerOpr::Logical(l) => if l is Not {
            push_result(popped(st), apply_logical_spec(l, top(st), None))
        } else {
            push_result(
                popped(popped(st)),
                apply_logical_spec(l, top(popped(st)), top(st)),
            )
        },
        InnerOpr::Arith(a) => push_result(
            popped(popped(st)),
            apply_arith_spec(a, top(popped(st)), top(st)),
        ),
        _ => match operand_spec(op, ctx) {
            Err(e) => Err(e),
            Ok(v) => Ok(st.push(v)),
        },
    }
}

/// The stack after the first `n` instructions, or the first error.
pub open spec fn run_spec<C: Context>(ops: Seq<InnerOpr>, ctx: Option<&C>, n: nat) -> Result<
    Seq<Val>,
    Fault,
>
    decreases n,
{
    if n == 0 {
        Ok(Seq::empty())
    } else {
        match run_spec(ops, ctx, (n - 1) as nat) {
            Err(e) => Err(e),
            Ok(st) => step_spec(ops[n - 1], st, ctx),
        }
    }
}

/// The stack machine: it must end with exactly one value.
pub open spec fn stack_eval_spec<C: Context>(ops: Seq<InnerOpr>, ctx: Option<&C>) -> Result<
    Val,
    Fault,
> {
    match run_spec(ops, ctx, ops.len()) {
        Err(e) => Err(e),
        Ok(st) => if st.len() == 1 {
            Ok(st[0])
        } else {
            Err(Fault::InvalidExpression)
        },
    }
}

/// The direct evaluation of a sequence of at most three instructions.
pub open spec fn direct_spec<C: Context>(ops: Seq<InnerOpr>, ctx: Option<&C>) -> Result<
    Val,
    Fault,
> {
    if ops.len() == 0 {
        Err(Fault::EmptyExpression)
    } else if ops.len() == 1 {
        operand_spec(ops[0], ctx)
    } else if ops.len() == 2 {
        match ops[1] {
            InnerOpr::Logical(l) => match operand_spec(ops[0], ctx) {
                Err(e) => Err(e),
                Ok(a) => apply_logical_spec(l, Some(a), None),
            },
            InnerOpr::Arith(_) => Err(Fault::MissingOperands(desc_spec(ops[1]))),
            _ => Err(Fault::InvalidExpression),
        }
    } else {
        match ops[2] {
            InnerOpr::Logical(l) => match (operand_spec(ops[0], ctx), operand_spec(ops[1], ctx)) {
                (Err(e), _) => Err(e),
                (_, Err(e)) => Err(e),
                (Ok(a), Ok(b)) => apply_logical_spec(l, Some(a), Some(b)),
            },
            InnerOpr::Arith(x) => match (operand_spec(ops[0], ctx), operand_spec(ops[1], ctx)) {
                (Err(e), _) => Err(e),
                (_, Err(e)) => Err(e),
                (Ok(a), Ok(b)) => apply_arith_spec(x, Some(a), Some(b)),
            },
            _ => Err(Fault::InvalidExpression),
        }
    }
}

/// What evaluating a postfix sequence gives: the direct path up to three instructions,
/// the stack machine beyond.
pub open spec fn eval_spec<C: Context>(ops: Seq<InnerOpr>, ctx: Option<&C>) -> Result<Val, Fault> {
    if ops.len() <= 3 {
        direct_spec(ops, ctx)
    } else {
        stack_eval_spec(ops, ctx)
    }
}

/// What `eval_bool` gives: the value's truthiness.
pub open spec fn eval_bool_spec<C: Context>(ops: Seq<InnerOpr>, ctx: Option<&C>) -> Result<
    bool,
    Fault,
> {
    match eval_spec(ops, ctx) {
        Ok(v) => truth_spec(v),
        Err(e) => Err(e),
    }
}

proof fn lemma_run_error_sticks<C: Context>(ops: Seq<InnerOpr>, ctx: Option<&C>, k: nat, m: nat)
    requires
        k <= m,
        run_spec(ops, ctx, k) is Err,
    ensures
        run_spec(ops, ctx, m) == run_spec(ops, ctx, k),
    decreases m - k,
{
    if k < m {
        lemma_run_error_sticks(ops, ctx, k, (m - 1) as nat);
    }
}

impl InnerOpr {
    /// Resolves the instruction as an operand: a constant gives its value, a variable what
    /// the context's element holds under its selector.
    pub fn eval_as_borrow_object<C: Context>(&self, context: Option<&C>) -> (r: Result<
        Option<Value>,
        ExprError,
    >)
        ensures
            match r {
                Ok(v) => resolve_spec(*self, context) == Ok::<Option<Val>, Fault>(opt_view(v)),
                Err(e) => resolve_spec(*self, context) == Err::<Option<Val>, Fault>(e@),
            },
    {
        match self {
            InnerOpr::Const(c) => match c {
                Some(v) => Ok(Some(v.copied())),
                None => Ok(None),
            },
            InnerOpr::Var { tag, prop_key } => match context {
                None => Err(ExprError::MissingContext(describe(self))),
                Some(ctxt) => match ctxt.get(tag) {
                    None => Ok(None),
                    Some(element) => Ok(element.read(prop_key)),
                },
            },
            _ => Err(ExprError::UnmatchedOperator(describe(self))),
        }
    }
}

impl InnerOpr {
    /// The operand's value; one that resolves to no value gives `NoneOperand` naming it.
    pub fn operand_value<C: Context>(&self, context: Option<&C>) -> (r: Result<Value, ExprError>)
        ensures
            matches_result(r, operand_spec(*self, context)),
    {
        match self.eval_as_borrow_object(context) {
            Err(e) => Err(e),
            Ok(None) => Err(ExprError::NoneOperand(describe(self))),
            Ok(Some(v)) => Ok(v),
        }
    }
}

/// Evaluates a postfix expression, holding a scratch stack for reuse between calls.
pub struct Evaluator {
    suffix_tree: Vec<InnerOpr>,
    stack: Vec<Value>,
}

impl Evaluator {
    /// The instruction sequence, which evaluation never changes.
    pub closed spec fn ops(&self) -> Seq<InnerOpr> {
        self.suffix_tree@
    }

    /// Whether the scratch stack holds nothing.
    pub closed spec fn is_idle(&self) -> bool {
        self.stack@.len() == 0
    }

    /// An evaluator for the given postfix sequence.
    pub fn new(suffix_tree: Vec<InnerOpr>) -> (r: Evaluator)
        ensures
            r.ops() == suffix_tree@,
            r.is_idle(),
    {
        Evaluator { suffix_tree, stack: Vec::new() }
    }

    /// Empties the scratch stack.
    pub fn reset(&mut self)
        ensures
            final(self).ops() == old(self).ops(),
            final(self).is_idle(),
    {
        self.stack.clear();
    }

    /// Evaluates sequences of at most three instructions without the stack.
    fn eval_without_stack<C: Context>(&self, context: Option<&C>) -> (r: Result<Value, ExprError>)
        requires
            self.ops().len() <= 3,
        ensures
            matches_result(r, direct_spec(self.ops(), context)),
    {
        let n = self.suffix_tree.len();
        if n == 0 {
            return Err(ExprError::EmptyExpression);
        }
        let first = &self.suffix_tree[0];
        if n == 1 {
            first.operand_value(context)
        } else if n == 2 {
            let second = &self.suffix_tree[1];
            match second {
                InnerOpr::Logical(l) => match first.operand_value(context) {
                    Err(e) => Err(e),
                    Ok(a) => apply_logical(*l, Some(a), None),
                },
                InnerOpr::Arith(_) => Err(ExprError::MissingOperands(describe(second))),
                _ => Err(ExprError::InvalidExpression),
            }
        } else {
            let second = &self.suffix_tree[1];
            let third = &self.suffix_tree[2];
            match third {
                InnerOpr::Logical(_) | InnerOpr::Arith(_) => {
                    let a = match first.operand_value(context) {
                        Err(e) => return Err(e),
                        Ok(a) => a,
                    };
                    let b = match second.operand_value(context) {
                        Err(e) => return Err(e),
                        Ok(b) => b,
                    };
                    match third {
                        InnerOpr::Logical(l) => apply_logical(*l, Some(a), Some(b)),
                        InnerOpr::Arith(x) => apply_arith(*x, Some(a), Some(b)),
                        _ => Err(ExprError::InvalidExpression),
                    }
                },
                _ => Err(ExprError::InvalidExpression),
            }
        }
    }

    /// Evaluates the expression against an optional context.
    pub fn eval<C: Context>(&mut self, context: Option<&C>) -> (r: Result<Value, ExprError>)
        ensures
            final(self).ops() == old(self).ops(),
            matches_result(r, eval_spec(old(self).ops(), context)),
    {
        if self.suffix_tree.len() <= 3 {
            return self.eval_without_stack(context);
        }
        self.stack.clear();
        let n = self.suffix_tree.len();
        let mut i: usize = 0;
        assert(stack_view(self.stack@) =~= Seq::<Val>::empty());
        while i < n
            invariant
                n == self.suffix_tree@.len(),
                n > 3,
                self.suffix_tree == old(self).suffix_tree,
                i <= n,
                run_spec(self.suffix_tree@, context, i as nat) == Ok::<Seq<Val>, Fault>(
                    stack_view(self.stack@),
                ),
            decreases n - i,
        {
            let ghost st = stack_view(self.stack@);
            let opr = &self.suffix_tree[i];
            match opr {
                InnerOpr::Logical(l) => {
                    let first = self.stack.pop();
                    proof {
                        if st.len() > 0 {
                            assert(stack_view(self.stack@) =~= st.drop_last());
                        }
                    }
                    let rst = if *l == Logical::Not {
                        apply_logical(*l, first, None)
                    } else {
                        let second = self.stack.pop();
                        proof {
                            if popped(st).len() > 0 {
                                assert(stack_view(self.stack@) =~= popped(st).drop_last());
                            }
                        }
                        apply_logical(*l, second, first)
                    };
                    match rst {
                        Ok(v) => self.stack.push(v),
                        Err(e) => {
                        proof {
                            assert(run_spec(self.suffix_tree@, context, (i + 1) as nat) == Err::<Seq<Val>, Fault>(e@));
                            lemma_run_error_sticks(self.suffix_tree@, context, (i + 1) as nat, n as nat);
                        }
                        return Err(e)
                    },
                    }
                },
                InnerOpr::Arith(a) => {
                    let first = self.stack.pop();
                    proof {
                        if st.len() > 0 {
                            assert(stack_view(self.stack@) =~= st.drop_last());
                        }
                    }
                    let second = self.stack.pop();
                    proof {
                        if popped(st).len() > 0 {
                            assert(stack_view(self.stack@) =~= popped(st).drop_last());
                        }
                    }
                    match apply_arith(*a, second, first) {
                        Ok(v) => self.stack.push(v),
                        Err(e) => {
                        proof {
                            assert(run_spec(self.suffix_tree@, context, (i + 1) as nat) == Err::<Seq<Val>, Fault>(e@));
                            lemma_run_error_sticks(self.suffix_tree@, context, (i + 1) as nat, n as nat);
                        }
                        return Err(e)
                    },
                    }
                },
                _ => match opr.operand_value(context) {
                    Err(e) => {
                        proof {
                            assert(run_spec(self.suffix_tree@, context, (i + 1) as nat) == Err::<Seq<Val>, Fault>(e@));
                            lemma_run_error_sticks(self.suffix_tree@, context, (i + 1) as nat, n as nat);
                        }
                        return Err(e)
                    },
                    Ok(v) => self.stack.push(v),
                },
            }
            assert(stack_view(self.stack@) =~= step_spec(self.suffix_tree@[i as int], st, context)->Ok_0);
            i = i + 1;
        }
        if self.stack.len() == 1 {
            match self.stack.pop() {
                Some(v) => Ok(v),
                None => Err(ExprError::InvalidExpression),
            }
        } else {
            Err(ExprError::InvalidExpression)
        }
    }

    /// Evaluates the expression and reads the result as a boolean.
    pub fn eval_bool<C: Context>(&mut self, context: Option<&C>) -> (r: Result<bool, ExprError>)
        ensures
            final(self).ops() == old(self).ops(),
            match r {
                Ok(b) => eval_bool_spec(old(self).ops(), context) == Ok::<bool, Fault>(b),
                Err(e) => eval_bool_spec(old(self).ops(), context) == Err::<bool, Fault>(e@),
            },
    {
        match self.eval(context) {
            Ok(v) => v.as_bool(),
            Err(e) => Err(e),
        }
    }
}

} // verus!
