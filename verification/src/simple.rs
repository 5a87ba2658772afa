//! Expressions without calls, effects and bindings of their own, and what
//! the machine makes of them.
//!
//! Such an expression has a value that depends on the scope alone. The
//! machine finds it in a number of steps that depends on the expression
//! alone, whatever else it holds at the time, and is left as it was but for
//! that value.

use crate::ast::{Expression, Handle};
use crate::equality::{has_identity, value_eq};
use crate::effects::{arm_symbols, handle_schedule, name};
use crate::eval::{
    custom, expression, CheckIntMin, CheckTypeInt, Combiner, CreateHandler, Eval, EvalView,
    HandlerView, WrapperFunction,
};
use crate::fatal::Fatal;
use crate::interpreter::InterpreterView;
use crate::laws::lemma_run_splits;
use crate::machine::{eval_step, run, settle, tick, unwind, Progress};
use crate::operators::{arithmetic, compare, connect};
use crate::value::{FunctionContextView, ScopeView, SubContextView, ValueView};
use std::rc::Rc;
use vstd::prelude::*;

verus! {

/// Whether an expression is built from literals and names by negation,
/// arithmetic, comparison and the boolean operators alone.
pub open spec fn is_simple(e: &Expression) -> bool
    decreases *e,
{
    match *e {
        Expression::Null(_) => true,
        Expression::Bool(_) => true,
        Expression::Int(_) => true,
        Expression::Ident(_) => true,
        Expression::Negative(n) => is_simple(&*n.expr),
        Expression::Not(n) => is_simple(&*n.expr),
        Expression::Boolean(n) => is_simple(&*n.left) && is_simple(&*n.right),
        Expression::Comparison(n) => is_simple(&*n.left) && is_simple(&*n.right),
        Expression::Numeric(n) => is_simple(&*n.left) && is_simple(&*n.right),
        _ => false,
    }
}

/// The value of a simple expression in a scope. There is none where a name
/// is not bound or stands for an effect, an operand has the wrong kind, a
/// comparison has no answer, or an operation has no result.
pub open spec fn simple_value(e: &Expression, scope: ScopeView) -> Option<ValueView>
    decreases *e,
{
    match *e {
        Expression::Null(_) => Some(ValueView::Null),
        Expression::Bool(b) => Some(ValueView::Bool(b.0)),
        Expression::Int(i) => Some(ValueView::Int(i.0)),
        Expression::Ident(n) => match scope.resolve(n@) {
            Some(v) => if v is Effect {
                None
            } else {
                Some(v)
            },
            None => None,
        },
        Expression::Negative(n) => match simple_value(&*n.expr, scope) {
            Some(ValueView::Int(i)) => if i != i64::MIN {
                Some(ValueView::Int((-i) as i64))
            } else {
                None
            },
            _ => None,
        },
        Expression::Not(n) => match simple_value(&*n.expr, scope) {
            Some(ValueView::Bool(b)) => Some(ValueView::Bool(!b)),
            _ => None,
        },
        Expression::Boolean(n) => match (
            simple_value(&*n.left, scope),
            simple_value(&*n.right, scope),
        ) {
            (Some(ValueView::Bool(l)), Some(ValueView::Bool(r))) => Some(
                ValueView::Bool(connect(n.operator, l, r)),
            ),
            _ => None,
        },
        Expression::Comparison(n) => match (
            simple_value(&*n.left, scope),
            simple_value(&*n.right, scope),
        ) {
            (Some(l), Some(r)) => match compare(n.operator, l, r) {
                Ok(b) => Some(ValueView::Bool(b)),
                Err(_) => None,
            },
            _ => None,
        },
        Expression::Numeric(n) => match (
            simple_value(&*n.left, scope),
            simple_value(&*n.right, scope),
        ) {
            (Some(ValueView::Int(l)), Some(ValueView::Int(r))) => match arithmetic(
                n.operator,
                l,
                r,
            ) {
                Ok(i) => Some(ValueView::Int(i)),
                Err(_) => None,
            },
            _ => None,
        },
        _ => None,
    }
}

/// The number of steps that the machine takes over a simple expression.
pub open spec fn simple_steps(e: &Expression) -> nat
    decreases *e,
{
    match *e {
        Expression::Negative(n) => 4 + simple_steps(&*n.expr),
        Expression::Not(n) => 2 + simple_steps(&*n.expr),
        Expression::Boolean(n) => 2 + simple_steps(&*n.left) + simple_steps(&*n.right),
        Expression::Comparison(n) => 2 + simple_steps(&*n.left) + simple_steps(&*n.right),
        Expression::Numeric(n) => 4 + simple_steps(&*n.left) + simple_steps(&*n.right),
        _ => 1,
    }
}

impl InterpreterView {
    /// The machine with `es` on top of the current instruction stack and `vs`
    /// on top of the current value stack.
    pub open spec fn plus(self, es: Seq<EvalView>, vs: Seq<ValueView>) -> InterpreterView {
        self.with_sub(
            SubContextView {
                evals: self.sub().evals + es,
                values: self.sub().values + vs,
                ..self.sub()
            },
        )
    }
}

/// The model of the instruction that evaluates `e`.
pub open spec fn eval_of(e: &Expression) -> EvalView {
    expression(Rc::new(*e))
}

/// The model of the check that a value is an integer.
pub open spec fn check_int() -> EvalView {
    EvalView::Step(Eval::CheckTypeInt(CheckTypeInt { first: true }))
}

/// The model of the check that an integer is not the least one.
pub open spec fn check_min() -> EvalView {
    EvalView::Step(Eval::CheckIntMin(CheckIntMin { first: true }))
}

/// Scheduling an instruction puts it on top of what was added.
pub proof fn lemma_plus_push_eval(s: InterpreterView, es: Seq<EvalView>, vs: Seq<ValueView>, e: EvalView)
    requires
        s.has_sub(),
    ensures
        s.plus(es, vs).push_eval(e) == Ok::<InterpreterView, Fatal>(s.plus(es.push(e), vs)),
{
    let a = s.plus(es, vs);
    assert(a.sub().evals.push(e) =~= s.sub().evals + es.push(e));
    assert(a.push_eval(e)->Ok_0.ctx().sub_contexts =~= s.plus(es.push(e), vs).ctx().sub_contexts);
    assert(a.push_eval(e)->Ok_0.contexts =~= s.plus(es.push(e), vs).contexts);
}

/// The instruction that was added last is the next to run.
pub proof fn lemma_plus_pop_eval(s: InterpreterView, es: Seq<EvalView>, vs: Seq<ValueView>, e: EvalView)
    requires
        s.has_sub(),
    ensures
        s.plus(es.push(e), vs).pop_eval() == Ok::<(EvalView, InterpreterView), Fatal>(
            (e, s.plus(es, vs)),
        ),
{
    let a = s.plus(es.push(e), vs);
    assert(a.sub().evals.drop_last() =~= s.sub().evals + es);
    assert(a.sub().evals.last() == e);
    assert(a.pop_eval()->Ok_0.1.ctx().sub_contexts =~= s.plus(es, vs).ctx().sub_contexts);
    assert(a.pop_eval()->Ok_0.1.contexts =~= s.plus(es, vs).contexts);
}

/// Pushing a value puts it on top of what was added.
pub proof fn lemma_plus_push_value(
    s: InterpreterView,
    es: Seq<EvalView>,
    vs: Seq<ValueView>,
    v: ValueView,
)
    requires
        s.has_sub(),
    ensures
        s.plus(es, vs).push_value(v) == Ok::<InterpreterView, Fatal>(s.plus(es, vs.push(v))),
{
    let a = s.plus(es, vs);
    assert(a.sub().values.push(v) =~= s.sub().values + vs.push(v));
    assert(a.push_value(v)->Ok_0.ctx().sub_contexts =~= s.plus(es, vs.push(v)).ctx().sub_contexts);
    assert(a.push_value(v)->Ok_0.contexts =~= s.plus(es, vs.push(v)).contexts);
}

/// The value that was added last is the first to come off.
pub proof fn lemma_plus_pop_value(
    s: InterpreterView,
    es: Seq<EvalView>,
    vs: Seq<ValueView>,
    v: ValueView,
)
    requires
        s.has_sub(),
    ensures
        s.plus(es, vs.push(v)).pop_value() == Ok::<(ValueView, InterpreterView), Fatal>(
            (v, s.plus(es, vs)),
        ),
{
    let a = s.plus(es, vs.push(v));
    assert(a.sub().values.drop_last() =~= s.sub().values + vs);
    assert(a.sub().values.last() == v);
    assert(a.pop_value()->Ok_0.1.ctx().sub_contexts =~= s.plus(es, vs).ctx().sub_contexts);
    assert(a.pop_value()->Ok_0.1.contexts =~= s.plus(es, vs).contexts);
}

/// A step that runs `e` on top of `es` settles what `e` made of the machine.
proof fn lemma_tick_plus(
    s: InterpreterView,
    es: Seq<EvalView>,
    vs: Seq<ValueView>,
    e: EvalView,
    es2: Seq<EvalView>,
    vs2: Seq<ValueView>,
)
    requires
        s.has_sub(),
        eval_step(e, s.plus(es, vs)) == Ok::<InterpreterView, Fatal>(s.plus(es2, vs2)),
    ensures
        tick(s.plus(es.push(e), vs)) == settle(s.plus(es2, vs2)),
        s.sub().evals.len() + es2.len() > 0 ==> settle(s.plus(es2, vs2)) == Ok::<Progress, Fatal>(
            Progress::Running(s.plus(es2, vs2)),
        ),
{
    reveal(tick);
    lemma_plus_pop_eval(s, es, vs, e);
}

/// One step over a literal.
proof fn lemma_literal(e: &Expression, s: InterpreterView, es: Seq<EvalView>, vs: Seq<ValueView>)
    requires
        s.has_sub(),
        e is Null || e is Bool || e is Int || e is Ident,
        simple_value(e, s.ctx().scope) is Some,
    ensures
        tick(s.plus(es.push(eval_of(e)), vs)) == settle(s.plus(es, vs.push(simple_value(e, s.ctx().scope)->0))),
{
    lemma_plus_push_value(s, es, vs, simple_value(e, s.ctx().scope)->0);
    lemma_tick_plus(s, es, vs, eval_of(e), es, vs.push(simple_value(e, s.ctx().scope)->0));
}

/// The machine takes `simple_steps(e)` steps over a simple expression that
/// has a value. With the last of them it has the value of the expression on
/// the value stack in place of the expression on the instruction stack, and
/// settles what follows.
#[verifier::rlimit(60)]
pub proof fn lemma_simple_plus(
    e: &Expression,
    s: InterpreterView,
    es: Seq<EvalView>,
    vs: Seq<ValueView>,
)
    requires
        is_simple(e),
        simple_value(e, s.ctx().scope) is Some,
        s.has_sub(),
    ensures
        run(s.plus(es.push(eval_of(e)), vs), simple_steps(e)) == settle(
            s.plus(es, vs.push(simple_value(e, s.ctx().scope)->0)),
        ),
        s.sub().evals.len() + es.len() > 0 ==> settle(s.plus(es, vs.push(simple_value(e, s.ctx().scope)->0)))
            == Ok::<Progress, Fatal>(Progress::Running(s.plus(es, vs.push(simple_value(e, s.ctx().scope)->0)))),
    decreases *e,
{
    let start = s.plus(es.push(eval_of(e)), vs);
    let value = simple_value(e, s.ctx().scope)->0;
    lemma_settle_plus(s, es, vs.push(value));
    match e {
        Expression::Not(n) => {
            let inner = custom("NotInner", Combiner::NotInner);
            let b = simple_value(&*n.expr, s.ctx().scope)->0;
            // scheduling
            lemma_plus_push_eval(s, es, vs, inner);
            lemma_plus_push_eval(s, es.push(inner), vs, eval_of(&*n.expr));
            lemma_tick_plus(
                s,
                es,
                vs,
                eval_of(e),
                es.push(inner).push(eval_of(&*n.expr)),
                vs,
            );
            // the operand
            lemma_simple_plus(&*n.expr, s, es.push(inner), vs);
            // the combining step
            lemma_plus_pop_value(s, es, vs, b);
            lemma_plus_push_value(s, es, vs, value);
            lemma_tick_plus(s, es, vs.push(b), inner, es, vs.push(value));
            lemma_run_splits(start, 1, simple_steps(&*n.expr) + 1);
            lemma_run_splits(
                s.plus(es.push(inner).push(eval_of(&*n.expr)), vs),
                simple_steps(&*n.expr),
                1,
            );
            lemma_run_one(s.plus(es.push(inner), vs.push(b)));
            lemma_run_one(start);
            assert(1 + (simple_steps(&*n.expr) + 1) == simple_steps(e));
        },
        Expression::Negative(n) => {
            let inner = custom("NegativeInner", Combiner::NegativeInner);
            let v = simple_value(&*n.expr, s.ctx().scope)->0;
            let e1 = es.push(inner);
            let e2 = e1.push(check_min());
            let e3 = e2.push(check_int());
            lemma_plus_push_eval(s, es, vs, inner);
            lemma_plus_push_eval(s, e1, vs, check_min());
            lemma_plus_push_eval(s, e2, vs, check_int());
            lemma_plus_push_eval(s, e3, vs, eval_of(&*n.expr));
            lemma_tick_plus(s, es, vs, eval_of(e), e3.push(eval_of(&*n.expr)), vs);
            lemma_simple_plus(&*n.expr, s, e3, vs);
            // the check for an integer
            lemma_plus_pop_value(s, e2, vs, v);
            lemma_plus_push_value(s, e2, vs, v);
            lemma_tick_plus(s, e2, vs.push(v), check_int(), e2, vs.push(v));
            // the check for the least integer
            lemma_plus_pop_value(s, e1, vs, v);
            lemma_plus_push_value(s, e1, vs, v);
            lemma_tick_plus(s, e1, vs.push(v), check_min(), e1, vs.push(v));
            // the negation
            lemma_plus_pop_value(s, es, vs, v);
            lemma_plus_push_value(s, es, vs, value);
            lemma_tick_plus(s, es, vs.push(v), inner, es, vs.push(value));
            let k = simple_steps(&*n.expr);
            lemma_run_one(start);
            lemma_run_one(s.plus(e3, vs.push(v)));
            lemma_run_one(s.plus(e2, vs.push(v)));
            lemma_run_one(s.plus(e1, vs.push(v)));
            lemma_run_splits(start, 1, k + 3);
            lemma_run_splits(s.plus(e3.push(eval_of(&*n.expr)), vs), k, 3);
            lemma_run_splits(s.plus(e3, vs.push(v)), 1, 2);
            lemma_run_splits(s.plus(e2, vs.push(v)), 1, 1);
            assert(1 + (k + 3) == simple_steps(e));
        },
        Expression::Boolean(n) => {
            let inner = custom("BooleanInner", Combiner::BooleanInner(n.operator));
            lemma_binary(e, &*n.left, &*n.right, inner, s, es, vs);
        },
        Expression::Comparison(n) => {
            let inner = custom("ComparisonInner", Combiner::ComparisonInner(n.operator));
            lemma_binary(e, &*n.left, &*n.right, inner, s, es, vs);
        },
        Expression::Numeric(n) => {
            let inner = custom("NumericInner", Combiner::NumericInner(n.operator));
            let l = simple_value(&*n.left, s.ctx().scope)->0;
            let r = simple_value(&*n.right, s.ctx().scope)->0;
            let e1 = es.push(inner);
            let e2 = e1.push(check_int());
            let e3 = e2.push(eval_of(&*n.right));
            let e4 = e3.push(check_int());
            lemma_plus_push_eval(s, es, vs, inner);
            lemma_plus_push_eval(s, e1, vs, check_int());
            lemma_plus_push_eval(s, e2, vs, eval_of(&*n.right));
            lemma_plus_push_eval(s, e3, vs, check_int());
            lemma_plus_push_eval(s, e4, vs, eval_of(&*n.left));
            lemma_tick_plus(s, es, vs, eval_of(e), e4.push(eval_of(&*n.left)), vs);
            // the left operand and its check
            lemma_simple_plus(&*n.left, s, e4, vs);
            lemma_plus_pop_value(s, e3, vs, l);
            lemma_plus_push_value(s, e3, vs, l);
            lemma_tick_plus(s, e3, vs.push(l), check_int(), e3, vs.push(l));
            // the right operand and its check
            lemma_simple_plus(&*n.right, s, e2, vs.push(l));
            lemma_plus_pop_value(s, e1, vs.push(l), r);
            lemma_plus_push_value(s, e1, vs.push(l), r);
            lemma_tick_plus(s, e1, vs.push(l).push(r), check_int(), e1, vs.push(l).push(r));
            // the operation
            lemma_plus_pop_value(s, es, vs.push(l), r);
            lemma_plus_pop_value(s, es, vs, l);
            lemma_plus_push_value(s, es, vs, value);
            lemma_tick_plus(s, es, vs.push(l).push(r), inner, es, vs.push(value));
            let kl = simple_steps(&*n.left);
            let kr = simple_steps(&*n.right);
            lemma_run_one(start);
            lemma_run_one(s.plus(e4, vs.push(l)));
            lemma_run_one(s.plus(e2, vs.push(l).push(r)));
            lemma_run_one(s.plus(e1, vs.push(l).push(r)));
            lemma_run_splits(start, 1, kl + kr + 3);
            lemma_run_splits(s.plus(e4.push(eval_of(&*n.left)), vs), kl, kr + 3);
            lemma_run_splits(s.plus(e4, vs.push(l)), 1, kr + 2);
            lemma_run_splits(s.plus(e3, vs.push(l)), kr, 2);
            lemma_run_splits(s.plus(e2, vs.push(l).push(r)), 1, 1);
            assert(1 + (kl + kr + 3) == simple_steps(e));
        },
        _ => {
            lemma_literal(e, s, es, vs);
            lemma_run_one(start);
        },
    }
}

/// A run of one step is that step.
pub proof fn lemma_run_one(s: InterpreterView)
    ensures
        run(s, 1) == tick(s),
{
    if let Ok(Progress::Running(s1)) = tick(s) {
        assert(run(s1, 0) == Ok::<Progress, Fatal>(Progress::Running(s1)));
    }
}

/// As long as instructions are left, nothing follows a step.
pub proof fn lemma_settle_plus(s: InterpreterView, es: Seq<EvalView>, vs: Seq<ValueView>)
    requires
        s.has_sub(),
    ensures
        s.sub().evals.len() + es.len() > 0 ==> settle(s.plus(es, vs)) == Ok::<Progress, Fatal>(
            Progress::Running(s.plus(es, vs)),
        ),
{
}

/// The steps over a comparison or a boolean operation: scheduling, the left
/// operand, the right operand, the combining step.
#[verifier::rlimit(60)]
proof fn lemma_binary(
    e: &Expression,
    left: &Expression,
    right: &Expression,
    inner: EvalView,
    s: InterpreterView,
    es: Seq<EvalView>,
    vs: Seq<ValueView>,
)
    requires
        is_simple(e),
        simple_value(e, s.ctx().scope) is Some,
        s.has_sub(),
        match *e {
            Expression::Boolean(n) => *n.left == *left && *n.right == *right && inner == custom(
                "BooleanInner",
                Combiner::BooleanInner(n.operator),
            ),
            Expression::Comparison(n) => *n.left == *left && *n.right == *right && inner
                == custom("ComparisonInner", Combiner::ComparisonInner(n.operator)),
            _ => false,
        },
    ensures
        run(s.plus(es.push(eval_of(e)), vs), simple_steps(e)) == settle(
            s.plus(es, vs.push(simple_value(e, s.ctx().scope)->0)),
        ),
    decreases *e, 0nat,
{
    let start = s.plus(es.push(eval_of(e)), vs);
    let value = simple_value(e, s.ctx().scope)->0;
    let l = simple_value(left, s.ctx().scope)->0;
    let r = simple_value(right, s.ctx().scope)->0;
    let e1 = es.push(inner);
    let e2 = e1.push(eval_of(right));
    lemma_plus_push_eval(s, es, vs, inner);
    lemma_plus_push_eval(s, e1, vs, eval_of(right));
    lemma_plus_push_eval(s, e2, vs, eval_of(left));
    lemma_tick_plus(s, es, vs, eval_of(e), e2.push(eval_of(left)), vs);
    lemma_simple_plus(left, s, e2, vs);
    lemma_simple_plus(right, s, e1, vs.push(l));
    lemma_plus_pop_value(s, es, vs.push(l), r);
    lemma_plus_pop_value(s, es, vs, l);
    lemma_plus_push_value(s, es, vs, value);
    lemma_tick_plus(s, es, vs.push(l).push(r), inner, es, vs.push(value));
    let kl = simple_steps(left);
    let kr = simple_steps(right);
    lemma_run_one(start);
    lemma_run_one(s.plus(e1, vs.push(l).push(r)));
    lemma_run_splits(start, 1, kl + kr + 1);
    lemma_run_splits(s.plus(e2.push(eval_of(left)), vs), kl, kr + 1);
    lemma_run_splits(s.plus(e2, vs.push(l)), kr, 1);
    assert(1 + (kl + kr + 1) == simple_steps(e));
}

/// Nothing on top of the stacks is the machine itself.
pub proof fn lemma_plus_nothing(s: InterpreterView)
    requires
        s.has_sub(),
    ensures
        s.plus(Seq::empty(), Seq::empty()) == s,
{
    let a = s.plus(Seq::empty(), Seq::empty());
    assert(s.sub().evals + Seq::<EvalView>::empty() =~= s.sub().evals);
    assert(s.sub().values + Seq::<ValueView>::empty() =~= s.sub().values);
    assert(a.ctx().sub_contexts =~= s.ctx().sub_contexts);
    assert(a.contexts =~= s.contexts);
}

/// The value of a simple expression does not depend on the machine: from
/// every state in which more is left to do after it, the machine takes the
/// same number of steps over it and is left as it was, with the same value
/// on top of the value stack.
pub proof fn lemma_simple_expression(e: &Expression, s: InterpreterView)
    requires
        is_simple(e),
        simple_value(e, s.ctx().scope) is Some,
        s.has_sub(),
        s.sub().evals.len() > 0,
    ensures
        s.push_eval(eval_of(e)) is Ok,
        s.push_value(simple_value(e, s.ctx().scope)->0) is Ok,
        run(s.push_eval(eval_of(e))->Ok_0, simple_steps(e)) == Ok::<Progress, Fatal>(
            Progress::Running(s.push_value(simple_value(e, s.ctx().scope)->0)->Ok_0),
        ),
{
    lemma_plus_nothing(s);
    lemma_plus_push_eval(s, Seq::empty(), Seq::empty(), eval_of(e));
    lemma_plus_push_value(s, Seq::empty(), Seq::empty(), simple_value(e, s.ctx().scope)->0);
    lemma_simple_plus(e, s, Seq::empty(), Seq::empty());
}

/// Evaluating a simple expression twice in the same scope gives the same
/// value: after the two evaluations the two values on top of the value stack
/// are one and the same, and they are equal in the language's sense unless
/// they hold a closure.
pub proof fn lemma_simple_twice(e: &Expression, s: InterpreterView)
    requires
        is_simple(e),
        simple_value(e, s.ctx().scope) is Some,
        s.has_sub(),
        s.sub().evals.len() > 0,
    ensures
        run(
            s.plus(seq![eval_of(e), eval_of(e)], Seq::empty()),
            simple_steps(e) + simple_steps(e),
        ) == Ok::<Progress, Fatal>(
            Progress::Running(
                s.plus(Seq::empty(), seq![simple_value(e, s.ctx().scope)->0, simple_value(e, s.ctx().scope)->0]),
            ),
        ),
        !has_identity(simple_value(e, s.ctx().scope)->0) ==> value_eq(
            simple_value(e, s.ctx().scope)->0,
            simple_value(e, s.ctx().scope)->0,
        ),
{
    let v = simple_value(e, s.ctx().scope)->0;
    let k = simple_steps(e);
    assert(seq![eval_of(e)].push(eval_of(e)) =~= seq![eval_of(e), eval_of(e)]);
    assert(Seq::<EvalView>::empty().push(eval_of(e)) =~= seq![eval_of(e)]);
    assert(Seq::<ValueView>::empty().push(v).push(v) =~= seq![v, v]);
    lemma_simple_plus(e, s, seq![eval_of(e)], Seq::empty());
    lemma_simple_plus(e, s, Seq::empty(), Seq::<ValueView>::empty().push(v));
    lemma_run_splits(s.plus(seq![eval_of(e), eval_of(e)], Seq::empty()), k, k);
    if !has_identity(v) {
        crate::equality::lemma_value_eq_reflexive(v);
    }
}

/// The value of a simple expression is no effect.
pub proof fn lemma_simple_value_plain(e: &Expression, scope: ScopeView)
    requires
        simple_value(e, scope) is Some,
    ensures
        !(simple_value(e, scope)->0 is Effect),
{
}

/// A fresh scope inside a scope gives every simple expression the value it
/// has in that scope.
pub proof fn lemma_simple_value_child(e: &Expression, scope: ScopeView)
    ensures
        simple_value(e, ScopeView::child_of(scope)) == simple_value(e, scope),
    decreases *e,
{
    match e {
        Expression::Ident(n) => {
            let child = ScopeView::child_of(scope);
            assert(!child.bindings.dom().contains(crate::value::KeyView::Str(n@)));
            assert(child.resolve(n@) == scope.resolve(n@));
        },
        Expression::Negative(n) => {
            lemma_simple_value_child(&*n.expr, scope);
        },
        Expression::Not(n) => {
            lemma_simple_value_child(&*n.expr, scope);
        },
        Expression::Boolean(n) => {
            lemma_simple_value_child(&*n.left, scope);
            lemma_simple_value_child(&*n.right, scope);
        },
        Expression::Comparison(n) => {
            lemma_simple_value_child(&*n.left, scope);
            lemma_simple_value_child(&*n.right, scope);
        },
        Expression::Numeric(n) => {
            lemma_simple_value_child(&*n.left, scope);
            lemma_simple_value_child(&*n.right, scope);
        },
        _ => {},
    }
}

/// The model of the instruction that evaluates the `handle` expression
/// `node`.
pub open spec fn handle_of(node: &Handle) -> EvalView {
    expression(Rc::new(Expression::Handle(Rc::new(*node))))
}

/// Scheduling a batch puts it on top of what was added.
pub proof fn lemma_plus_push_evals(
    s: InterpreterView,
    es: Seq<EvalView>,
    vs: Seq<ValueView>,
    xs: Seq<EvalView>,
)
    requires
        s.has_sub(),
    ensures
        s.plus(es, vs).push_evals(xs) == Ok::<InterpreterView, Fatal>(s.plus(es + xs, vs)),
{
    let a = s.plus(es, vs);
    assert(a.sub().evals + xs =~= s.sub().evals + (es + xs));
    assert(a.push_evals(xs)->Ok_0.ctx().sub_contexts =~= s.plus(es + xs, vs).ctx().sub_contexts);
    assert(a.push_evals(xs)->Ok_0.contexts =~= s.plus(es + xs, vs).contexts);
}

/// A function context that has done its only instruction yields the value
/// it is left with to the context below.
proof fn lemma_settle_returns(s: InterpreterView, v: ValueView)
    requires
        s.has_sub(),
        s.sub().evals.len() > 0,
    ensures
        settle(
            s.push_fn_context(FunctionContextView::fresh(ScopeView::child_of(s.ctx().scope))).plus(
                Seq::empty(),
                seq![v],
            ),
        ) == Ok::<Progress, Fatal>(Progress::Running(s.plus(Seq::empty(), seq![v]))),
{
    let inner = FunctionContextView::fresh(ScopeView::child_of(s.ctx().scope));
    let z = s.push_fn_context(inner);
    assert(z.has_sub());
    lemma_plus_nothing(z);
    assert(Seq::<ValueView>::empty().push(v) =~= seq![v]);
    lemma_plus_pop_value(z, Seq::empty(), Seq::empty(), v);
    assert(z.plus(Seq::empty(), seq![v]).sub().evals =~= Seq::empty());
    let (sub, z2) = z.pop_sub_context()->Ok_0;
    assert(z2.ctx().sub_contexts =~= Seq::empty());
    let z3 = z2.pop_fn_context()->Ok_0.1;
    assert(z3.contexts =~= s.contexts);
    lemma_plus_nothing(s);
    lemma_plus_push_value(s, Seq::empty(), Seq::empty(), v);
    assert(unwind(z.plus(Seq::empty(), seq![v])) == Ok::<Progress, Fatal>(
        Progress::Running(s.plus(Seq::empty(), seq![v])),
    ));
    lemma_settle_plus(s, Seq::empty(), seq![v]);
}

/// The handler that `handle` installs for `node` once the symbol of its one
/// arm has been looked up.
pub open spec fn handler_of(node: &Handle, symbol: u64) -> EvalView {
    EvalView::Handler(HandlerView { symbols: seq![symbol], node: *node })
}

/// The step that passes the operand's value on to the handler.
pub open spec fn pass() -> EvalView {
    custom("WrapperFunctionInner", Combiner::WrapperFunctionInner)
}

/// The machine at the moment when the operand of `handle` starts: the
/// handler is installed, and the operand is scheduled in a function context
/// of its own.
pub open spec fn operand_start(node: &Handle, s: InterpreterView, symbol: u64) -> InterpreterView {
    let below = s.plus(seq![handler_of(node, symbol), pass()], Seq::empty());
    below.push_fn_context(FunctionContextView::fresh(ScopeView::child_of(below.ctx().scope))).plus(
        seq![eval_of(&*node.expr)],
        Seq::empty(),
    )
}

/// A handler does nothing to an operand that yields a value: where the
/// operand's function context ends after `k` steps and leaves a value that is
/// no effect, `handle e { s: x => .. }` yields that value, and leaves the
/// machine as it was but for the value. The arm is never entered, whatever it
/// holds.
#[verifier::rlimit(60)]
pub proof fn lemma_handle_returns(
    node: &Handle,
    s: InterpreterView,
    symbol: u64,
    k: nat,
    v: ValueView,
)
    requires
        s.has_sub(),
        s.sub().evals.len() > 0,
        node.match_arms@.len() == 1,
        s.resolve(node.match_arms@[0].symbol@) == Ok::<ValueView, Fatal>(ValueView::Symbol(symbol)),
        !(v is Effect),
        run(operand_start(node, s, symbol), k) == Ok::<Progress, Fatal>(
            Progress::Running(s.plus(seq![handler_of(node, symbol), pass()], seq![v])),
        ),
    ensures
        run(s.plus(seq![handle_of(node)], Seq::empty()), k + 6) == Ok::<Progress, Fatal>(
            Progress::Running(s.plus(Seq::empty(), seq![v])),
        ),
{
    let e = &*node.expr;
    let none = Seq::<EvalView>::empty();
    let nothing = Seq::<ValueView>::empty();
    assert(nothing.push(v) =~= seq![v]);
    assert(none.push(eval_of(e)) =~= seq![eval_of(e)]);
    assert(none.push(handle_of(node)) =~= seq![handle_of(node)]);

    // the handle: its instructions are scheduled
    let whole = Rc::new(*node);
    let create = EvalView::Step(Eval::CreateHandler(CreateHandler { node: whole }));
    let look = name(node.match_arms@[0].symbol);
    assert(handle_schedule(whole) =~= seq![create, look]);
    lemma_plus_nothing(s);
    lemma_plus_push_evals(s, none, nothing, seq![create, look]);
    assert(none + seq![create, look] =~= none.push(create).push(look));
    lemma_tick_plus(s, none, nothing, handle_of(node), none.push(create).push(look), nothing);
    let s1 = s.plus(none.push(create).push(look), nothing);

    // the symbol of the arm is looked up
    let sym = ValueView::Symbol(symbol);
    assert(s.plus(none.push(create), nothing).resolve(node.match_arms@[0].symbol@) == Ok::<
        ValueView,
        Fatal,
    >(sym));
    lemma_plus_push_value(s, none.push(create), nothing, sym);
    lemma_tick_plus(s, none.push(create), nothing, look, none.push(create), nothing.push(sym));
    let s2 = s.plus(none.push(create), nothing.push(sym));

    // the handler is installed
    let handler = handler_of(node, symbol);
    let wrapper = EvalView::Step(Eval::WrapperFunction(WrapperFunction { body: node.expr }));
    let taken = s.plus(none, nothing.push(sym)).take_values(1);
    assert(taken == Ok::<(Seq<ValueView>, InterpreterView), Fatal>((seq![sym], s))) by {
        let a = s.plus(none, nothing.push(sym));
        assert(a.sub().values.subrange(a.sub().values.len() - 1, a.sub().values.len() as int)
            =~= seq![sym]);
        assert(a.sub().values.subrange(0, a.sub().values.len() - 1) =~= s.sub().values);
        assert(a.sub().evals =~= s.sub().evals);
        assert(taken->Ok_0.1.ctx().sub_contexts =~= s.ctx().sub_contexts);
        assert(taken->Ok_0.1.contexts =~= s.contexts);
    }
    assert(arm_symbols(seq![sym]) =~= seq![symbol]);
    lemma_plus_push_eval(s, none, nothing, handler);
    lemma_plus_push_eval(s, none.push(handler), nothing, wrapper);
    lemma_tick_plus(
        s,
        none,
        nothing.push(sym),
        create,
        none.push(handler).push(wrapper),
        nothing,
    );
    let s3 = s.plus(none.push(handler).push(wrapper), nothing);

    // the operand gets a function context of its own
    assert(none.push(handler).push(pass()) =~= seq![handler, pass()]);
    let below = s.plus(none.push(handler).push(pass()), nothing);
    lemma_plus_push_eval(s, none.push(handler), nothing, pass());
    let z = below.push_fn_context(FunctionContextView::fresh(ScopeView::child_of(below.ctx().scope)));
    assert(z.has_sub());
    lemma_plus_nothing(z);
    lemma_plus_push_eval(z, none, nothing, eval_of(e));
    assert(eval_step(wrapper, s.plus(none.push(handler), nothing)) == Ok::<InterpreterView, Fatal>(
        z.plus(none.push(eval_of(e)), nothing),
    ));
    assert(tick(s3) == Ok::<Progress, Fatal>(
        Progress::Running(z.plus(none.push(eval_of(e)), nothing)),
    )) by {
        reveal(tick);
        lemma_plus_pop_eval(s, none.push(handler), nothing, wrapper);
    }
    assert(z.plus(none.push(eval_of(e)), nothing) == operand_start(node, s, symbol));

    // the operand runs there and yields its value to the context below
    let s5 = s.plus(none.push(handler).push(pass()), nothing.push(v));

    // the value passes the identity step and the handler
    lemma_plus_pop_value(s, none.push(handler), nothing, v);
    lemma_plus_push_value(s, none.push(handler), nothing, v);
    lemma_tick_plus(
        s,
        none.push(handler),
        nothing.push(v),
        pass(),
        none.push(handler),
        nothing.push(v),
    );
    let s6 = s.plus(none.push(handler), nothing.push(v));
    lemma_plus_pop_value(s, none, nothing, v);
    lemma_plus_push_value(s, none, nothing, v);
    lemma_tick_plus(s, none, nothing.push(v), handler, none, nothing.push(v));

    let start = s.plus(none.push(handle_of(node)), nothing);
    lemma_run_one(start);
    lemma_run_one(s1);
    lemma_run_one(s2);
    lemma_run_one(s3);
    lemma_run_one(s5);
    lemma_run_one(s6);
    lemma_run_splits(start, 1, k + 5);
    lemma_run_splits(s1, 1, k + 4);
    lemma_run_splits(s2, 1, k + 3);
    lemma_run_splits(s3, 1, k + 2);
    lemma_run_splits(operand_start(node, s, symbol), k, 2);
    lemma_run_splits(s5, 1, 1);
    assert(1 + (k + 5) == k + 6);
}

/// A handler does nothing to an operand that is a simple expression:
/// `handle e { s: x => .. }` and `e` alone leave the machine in the same
/// state, with the value of `e` on the value stack. The arm is never
/// entered, whatever it holds.
pub proof fn lemma_handle_simple(node: &Handle, s: InterpreterView, symbol: u64)
    requires
        s.has_sub(),
        s.sub().evals.len() > 0,
        node.match_arms@.len() == 1,
        s.resolve(node.match_arms@[0].symbol@) == Ok::<ValueView, Fatal>(ValueView::Symbol(symbol)),
        is_simple(&*node.expr),
        simple_value(&*node.expr, s.ctx().scope) is Some,
    ensures
        run(s.plus(seq![handle_of(node)], Seq::empty()), simple_steps(&*node.expr) + 6) == Ok::<
            Progress,
            Fatal,
        >(Progress::Running(s.plus(Seq::empty(), seq![simple_value(&*node.expr, s.ctx().scope)->0]))),
        run(s.plus(seq![eval_of(&*node.expr)], Seq::empty()), simple_steps(&*node.expr)) == Ok::<
            Progress,
            Fatal,
        >(Progress::Running(s.plus(Seq::empty(), seq![simple_value(&*node.expr, s.ctx().scope)->0]))),
{
    let e = &*node.expr;
    let v = simple_value(e, s.ctx().scope)->0;
    let none = Seq::<EvalView>::empty();
    let nothing = Seq::<ValueView>::empty();
    assert(nothing.push(v) =~= seq![v]);
    assert(none.push(eval_of(e)) =~= seq![eval_of(e)]);
    // the operand alone
    lemma_simple_plus(e, s, none, nothing);
    // the operand in the function context that the handler gives it
    let handler = handler_of(node, symbol);
    assert(none.push(handler).push(pass()) =~= seq![handler, pass()]);
    let below = s.plus(seq![handler, pass()], nothing);
    let z = below.push_fn_context(FunctionContextView::fresh(ScopeView::child_of(below.ctx().scope)));
    assert(z.has_sub());
    lemma_simple_value_child(e, s.ctx().scope);
    assert(z.ctx().scope == ScopeView::child_of(s.ctx().scope));
    lemma_simple_plus(e, z, none, nothing);
    assert(below.sub().evals.len() > 0);
    lemma_settle_returns(below, v);
    assert(below.plus(none, nothing.push(v)) == s.plus(seq![handler, pass()], nothing.push(v))) by {
        lemma_plus_nothing(below);
        lemma_plus_push_value(below, none, nothing, v);
        lemma_plus_push_value(s, seq![handler, pass()], nothing, v);
    }
    lemma_simple_value_plain(e, s.ctx().scope);
    lemma_handle_returns(node, s, symbol, simple_steps(e), v);
}

} // verus!
