//! Expressions that end.
//!
//! An expression without a loop, a call, a handler, a `send`, a `continue`
//! and a `break` has nothing in it that could go round. Every instruction
//! gets a weight here, such that a step of the machine takes one instruction
//! off a stack and schedules instructions that together weigh less. An error
//! that is raised on the way schedules more than it took, but two steps later
//! the function context that raised it has left the machine. So the run of
//! such an expression stops within a number of steps that the expression
//! alone decides: with a value, with an effect that nothing handled, or with
//! a fatal condition.
//!
//! A call is left out because what it runs is decided by a value: a function
//! that is handed itself and calls what it is handed has no loop in it and
//! does not end.

use crate::aggregates::{list_schedule, object_schedule};
use crate::ast::{
    Assignment, Block, List, Object, Expression, IfExpression, ListElem, Location, LocationChain, LocationChainBase, ObjectElem, Statement,
};
use crate::control::{block_schedule, block_tail};
use crate::eval::{
    block, custom, expression, CheckTypeObject, Combiner, Custom, Eval, EvalView, IfInner, PopScope, PushScope,
    WrapperFunction,
};
use crate::interpreter::InterpreterView;
use crate::location::{index_count, index_schedule};
use crate::machine::{eval_step, program, run, settle, tick, unwind, Progress};
use crate::value::FunctionContextView;
use std::rc::Rc;
use vstd::prelude::*;

verus! {

/// Whether an expression is built without a loop, a call, a handler, a
/// `send`, a `continue` and a `break`.
pub open spec fn is_finite(e: &Expression) -> bool
    decreases *e, 0nat,
{
    match *e {
        Expression::Null(_) => true,
        Expression::Bool(_) => true,
        Expression::Int(_) => true,
        Expression::Symbol => true,
        Expression::Ident(_) => true,
        Expression::Function(_) => true,
        Expression::Negative(n) => is_finite(&*n.expr),
        Expression::Not(n) => is_finite(&*n.expr),
        Expression::Boolean(n) => is_finite(&*n.left) && is_finite(&*n.right),
        Expression::Comparison(n) => is_finite(&*n.left) && is_finite(&*n.right),
        Expression::Numeric(n) => is_finite(&*n.left) && is_finite(&*n.right),
        Expression::Dot(n) => is_finite(&*n.base),
        Expression::Index(n) => is_finite(&*n.base) && is_finite(&*n.index),
        Expression::Block(b) => is_finite_block(&*b),
        Expression::If(n) => is_finite_if(&*n, 0),
        Expression::List(n) => are_finite_elems(n.elems@),
        Expression::Object(n) => are_finite_fields(n.elems@, 0),
        Expression::Location(n) => are_finite_parts(n.parts@, 0) && match n.base {
            LocationChainBase::Ident(_) => true,
            LocationChainBase::Expression(b) => is_finite(&*b),
        },
        _ => false,
    }
}

/// Whether every element of a list literal is an expression that ends.
pub open spec fn are_finite_elems(elems: Seq<ListElem>) -> bool
    decreases elems, 0nat,
{
    elems.len() == 0 || (are_finite_elems(elems.drop_last()) && match elems.last() {
        ListElem::Spread(e) => is_finite(&*e),
        ListElem::Elem(e) => is_finite(&*e),
    })
}

/// Whether every element of an object literal from the one at `i` on is an
/// expression that ends.
pub open spec fn are_finite_fields(elems: Seq<ObjectElem>, i: nat) -> bool
    decreases elems, elems.len() - i,
{
    i >= elems.len() || (are_finite_fields(elems, i + 1) && match elems[i as int] {
        ObjectElem::Kv(_, e) => is_finite(&*e),
        ObjectElem::Spread(e) => is_finite(&*e),
    })
}

/// Whether every index expression of a chain from the part at `i` on is an
/// expression that ends.
pub open spec fn are_finite_parts(parts: Seq<Location>, i: nat) -> bool
    decreases parts, parts.len() - i,
{
    i >= parts.len() || (are_finite_parts(parts, i + 1) && match parts[i as int] {
        Location::Dot(_) => true,
        Location::Index(x) => is_finite(&*x.index),
    })
}

/// Whether a block is built without a loop, a call, a handler, a `send`, a
/// `continue` and a `break`.
pub open spec fn is_finite_block(b: &Block) -> bool
    decreases *b, 0nat,
{
    &&& match b.expression {
        Some(e) => is_finite(&*e),
        None => true,
    }
    &&& are_finite(b.statements@)
}

/// Whether every one of `sts` is built of expressions that end.
pub open spec fn are_finite(sts: Seq<Rc<Statement>>) -> bool
    decreases sts, 0nat,
{
    sts.len() == 0 || (are_finite(sts.drop_last()) && is_finite_statement(&*sts.last()))
}

/// Whether a statement is built of expressions that end.
pub open spec fn is_finite_statement(st: &Statement) -> bool
    decreases *st, 0nat,
{
    match *st {
        Statement::Expression(x) => is_finite(&*x.expr),
        Statement::Let(l) => is_finite(&*l.expr),
        Statement::Assignment(a) => is_finite(&*a.expr) && are_finite_parts(a.location.parts@, 0),
    }
}

/// Whether the branches of an `if` from the one at `i` on, and its `else`,
/// are built of expressions that end.
pub open spec fn is_finite_if(n: &IfExpression, i: nat) -> bool
    decreases *n, n.ifs@.len() - i,
{
    if i >= n.ifs@.len() {
        match n.else_body {
            Some(b) => is_finite_block(&*b),
            None => true,
        }
    } else {
        &&& is_finite(&*n.ifs@[i as int].cond)
        &&& is_finite_block(&*n.ifs@[i as int].body)
        &&& is_finite_if(n, i + 1)
    }
}

/// The weight of an expression: one more than the weights of all that its
/// instruction schedules.
pub open spec fn weight(e: &Expression) -> nat
    decreases *e, 0nat,
{
    match *e {
        Expression::Negative(n) => 8 + weight(&*n.expr),
        Expression::Not(n) => 2 + weight(&*n.expr),
        Expression::Boolean(n) => 2 + weight(&*n.left) + weight(&*n.right),
        Expression::Comparison(n) => 2 + weight(&*n.left) + weight(&*n.right),
        Expression::Numeric(n) => 8 + weight(&*n.left) + weight(&*n.right),
        Expression::Dot(n) => 2 + weight(&*n.base),
        Expression::Index(n) => 2 + weight(&*n.base) + weight(&*n.index),
        Expression::Block(b) => block_weight(&*b),
        Expression::List(n) => 2 + elems_weight(n.elems@),
        Expression::Object(n) => 2 + fields_weight(n.elems@, 0),
        Expression::Location(n) => 2 + parts_weight(n.parts@, 0) + match n.base {
            LocationChainBase::Ident(_) => 0,
            LocationChainBase::Expression(b) => weight(&*b),
        },
        Expression::If(n) => if n.ifs@.len() == 0 {
            1
        } else {
            1 + weight(&*n.ifs@[0].cond) + if_weight(&*n, 0)
        },
        _ => 1,
    }
}

/// The weight of the elements of a list literal.
pub open spec fn elems_weight(elems: Seq<ListElem>) -> nat
    decreases elems, 0nat,
{
    if elems.len() == 0 {
        0
    } else {
        elems_weight(elems.drop_last()) + match elems.last() {
            ListElem::Spread(e) => weight(&*e),
            ListElem::Elem(e) => weight(&*e),
        }
    }
}

/// The weight of the elements of an object literal from the one at `i` on. A
/// `...` element has its check with it.
pub open spec fn fields_weight(elems: Seq<ObjectElem>, i: nat) -> nat
    decreases elems, elems.len() - i,
{
    if i >= elems.len() {
        0
    } else {
        fields_weight(elems, i + 1) + match elems[i as int] {
            ObjectElem::Kv(_, e) => weight(&*e),
            ObjectElem::Spread(e) => 3 + weight(&*e),
        }
    }
}

/// The weight of the index expressions of a chain from the part at `i` on.
pub open spec fn parts_weight(parts: Seq<Location>, i: nat) -> nat
    decreases parts, parts.len() - i,
{
    if i >= parts.len() {
        0
    } else {
        parts_weight(parts, i + 1) + match parts[i as int] {
            Location::Dot(_) => 0,
            Location::Index(x) => weight(&*x.index),
        }
    }
}

/// The weight of a block: of the opening and closing of its scope, of its
/// statements and of what yields its value.
pub open spec fn block_weight(b: &Block) -> nat
    decreases *b, 0nat,
{
    3 + statements_weight(b.statements@) + match b.expression {
        Some(e) => weight(&*e),
        None => 1,
    }
}

/// The weight of statements.
pub open spec fn statements_weight(sts: Seq<Rc<Statement>>) -> nat
    decreases sts, 0nat,
{
    if sts.len() == 0 {
        0
    } else {
        statements_weight(sts.drop_last()) + statement_weight(&*sts.last())
    }
}

/// The weight of a statement.
pub open spec fn statement_weight(st: &Statement) -> nat
    decreases *st, 0nat,
{
    match *st {
        Statement::Expression(x) => 2 + weight(&*x.expr),
        Statement::Let(l) => 2 + weight(&*l.expr),
        Statement::Assignment(a) => 2 + weight(&*a.expr) + parts_weight(a.location.parts@, 0),
    }
}

/// The weight of the step that tests the conditions of an `if` from the one
/// at `i` on: the block that the condition guards, and either the next
/// condition with its step or the `else`.
pub open spec fn if_weight(n: &IfExpression, i: nat) -> nat
    decreases *n, n.ifs@.len() - i,
{
    if i >= n.ifs@.len() {
        1
    } else {
        1 + block_weight(&*n.ifs@[i as int].body) + if i + 1 < n.ifs@.len() {
            weight(&*n.ifs@[i as int + 1].cond) + if_weight(n, i + 1)
        } else {
            match n.else_body {
                Some(b) => block_weight(&*b),
                None => 0,
            }
        }
    }
}

/// Whether a combining step belongs to an expression that ends.
pub open spec fn is_calm_combiner(c: Combiner) -> bool {
    match c {
        Combiner::ComparisonInner(_) => true,
        Combiner::NotInner => true,
        Combiner::NumericInner(_) => true,
        Combiner::BooleanInner(_) => true,
        Combiner::NegativeInner => true,
        Combiner::WrapperFunctionInner => true,
        Combiner::IntrinsicSymbol => true,
        Combiner::IgnoreValue => true,
        Combiner::ListInner(_) => true,
        Combiner::ObjectInner(_) => true,
        Combiner::LocationChainInner(_) => true,
        Combiner::AssignmentInner(_) => true,
        Combiner::DotInner(_) => true,
        Combiner::IndexInner => true,
        _ => false,
    }
}

/// Whether an instruction belongs to an expression that ends.
pub open spec fn is_calm(e: EvalView) -> bool {
    match e {
        EvalView::Handler(_) => false,
        EvalView::Step(i) => match i {
            Eval::Expression(x) => is_finite(&*x),
            Eval::Statement(st) => is_finite_statement(&*st),
            Eval::Block(b) => is_finite_block(&*b),
            Eval::IfInner(n) => is_finite_if(&*n.node, n.index as nat),
            Eval::PushScope(_) => true,
            Eval::PopScope(_) => true,
            Eval::LetInner(_) => true,
            Eval::Custom(c) => is_calm_combiner(c.function),
            Eval::Error(_) => true,
            Eval::SendInner(_) => true,
            Eval::WrapperFunction(w) => is_finite(&*w.body),
            Eval::CheckTypeInt(_) => true,
            Eval::CheckIntMin(_) => true,
            Eval::CheckTypeObject(_) => true,
            _ => false,
        },
    }
}

/// The weight of an instruction.
pub open spec fn span(e: EvalView) -> nat {
    match e {
        EvalView::Handler(_) => 1,
        EvalView::Step(i) => match i {
            Eval::Expression(x) => weight(&*x),
            Eval::Statement(st) => statement_weight(&*st),
            Eval::Block(b) => block_weight(&*b),
            Eval::IfInner(n) => if_weight(&*n.node, n.index as nat),
            Eval::Error(_) => 2,
            Eval::WrapperFunction(w) => 2 + weight(&*w.body),
            Eval::CheckTypeInt(_) => 3,
            Eval::CheckIntMin(_) => 3,
            Eval::CheckTypeObject(_) => 3,
            _ => 1,
        },
    }
}

/// The weight of a stack of instructions.
pub open spec fn spans(es: Seq<EvalView>) -> nat
    decreases es.len(),
{
    if es.len() == 0 {
        0
    } else {
        spans(es.drop_last()) + span(es.last())
    }
}

/// Whether every instruction of a stack belongs to an expression that ends.
pub open spec fn all_calm(es: Seq<EvalView>) -> bool {
    forall|i: int| 0 <= i < es.len() ==> is_calm(#[trigger] es[i])
}

/// Whether an instruction raises an error.
pub open spec fn is_error(e: EvalView) -> bool {
    e matches EvalView::Step(Eval::Error(_))
}

/// Whether an instruction sends an effect.
pub open spec fn is_send(e: EvalView) -> bool {
    e matches EvalView::Step(Eval::SendInner(_))
}

/// The number of steps that a stack of instructions can still take in its
/// function context. Where an error is about to be sent, the function
/// context leaves the machine with whatever else it holds.
pub open spec fn pending(es: Seq<EvalView>) -> nat {
    if es.len() > 0 && is_send(es.last()) {
        1
    } else if es.len() > 0 && is_error(es.last()) {
        2
    } else {
        spans(es)
    }
}

/// Whether a function context has one sub-context and only instructions of
/// expressions that end.
pub open spec fn is_calm_context(c: FunctionContextView) -> bool {
    c.sub_contexts.len() == 1 && all_calm(c.sub_contexts[0].evals)
}

/// Whether the machine holds only what expressions that end leave in it.
pub open spec fn calm(s: InterpreterView) -> bool {
    s.contexts.len() > 0 && forall|i: int|
        0 <= i < s.contexts.len() ==> is_calm_context(#[trigger] s.contexts[i])
}

/// The weight of all instructions in a stack of function contexts.
pub open spec fn load(cs: Seq<FunctionContextView>) -> nat
    decreases cs.len(),
{
    if cs.len() == 0 {
        0
    } else {
        load(cs.drop_last()) + spans(cs.last().sub_contexts[0].evals)
    }
}

/// A bound on the number of steps that the machine can still take.
pub open spec fn steps_left(s: InterpreterView) -> nat {
    if s.contexts.len() == 0 {
        0
    } else {
        load(s.contexts.drop_last()) + pending(s.sub().evals)
    }
}

/// Every expression weighs something.
pub proof fn lemma_weight_positive(e: &Expression)
    ensures
        weight(e) >= 1,
{
    match *e {
        Expression::Block(b) => {
            assert(block_weight(&*b) >= 3);
        },
        _ => {},
    }
}

/// Every instruction weighs something.
pub proof fn lemma_span_positive(e: EvalView)
    ensures
        span(e) >= 1,
{
    match e {
        EvalView::Step(Eval::Expression(x)) => {
            lemma_weight_positive(&*x);
        },
        EvalView::Step(Eval::Statement(st)) => {
            assert(statement_weight(&*st) >= 1);
        },
        EvalView::Step(Eval::Block(b)) => {
            assert(block_weight(&*b) >= 3);
        },
        EvalView::Step(Eval::IfInner(n)) => {
            assert(if_weight(&*n.node, n.index as nat) >= 1);
        },
        _ => {},
    }
}

/// A stack with one more instruction weighs that much more.
pub proof fn lemma_spans_push(es: Seq<EvalView>, e: EvalView)
    ensures
        spans(es.push(e)) == spans(es) + span(e),
{
    assert(es.push(e).drop_last() =~= es);
}

/// A stack can take no more steps than it weighs, and at least one where it
/// holds an instruction.
pub proof fn lemma_pending_bounds(es: Seq<EvalView>)
    ensures
        pending(es) <= spans(es),
        es.len() > 0 ==> pending(es) >= 1,
{
    if es.len() > 0 {
        lemma_span_positive(es.last());
    }
}

/// Whether `s2` has the function contexts of `s` below its current one, and
/// one sub-context in that.
pub open spec fn stays(s: InterpreterView, s2: InterpreterView) -> bool {
    &&& s2.contexts.len() == s.contexts.len()
    &&& s2.contexts.drop_last() =~= s.contexts.drop_last()
    &&& s2.ctx().sub_contexts.len() == 1
}

/// A step that leaves the current stack lighter, or with an error to raise,
/// brings the machine nearer to its end.
pub proof fn lemma_lighter(s: InterpreterView, s2: InterpreterView)
    requires
        calm(s),
        s.sub().evals.len() > 0,
        stays(s, s2),
        all_calm(s2.sub().evals),
        if is_error(s.sub().evals.last()) {
            s2.sub().evals.len() > 0 && is_send(s2.sub().evals.last())
        } else {
            &&& !is_send(s.sub().evals.last())
            &&& spans(s2.sub().evals) < spans(s.sub().evals) || (s2.sub().evals.len() > 0
                && is_error(s2.sub().evals.last()) && span(s.sub().evals.last()) >= 3)
        },
    ensures
        calm(s2),
        steps_left(s2) < steps_left(s),
{
    lemma_pending_bounds(s2.sub().evals);
    assert(s.contexts.last().sub_contexts.len() == 1);
    assert(s.sub() == s.contexts.last().sub_contexts[0]);
    assert(s2.sub() == s2.contexts.last().sub_contexts[0]);
    assert forall|i: int| 0 <= i < s2.contexts.len() implies is_calm_context(
        #[trigger] s2.contexts[i],
    ) by {
        if i < s2.contexts.len() - 1 {
            assert(s2.contexts[i] == s2.contexts.drop_last()[i]);
            assert(s.contexts[i] == s.contexts.drop_last()[i]);
        }
    }
}

/// Whether the next instruction of `s`, where it does not stop the machine,
/// leaves it calm and nearer to its end.
pub open spec fn goes_down(s: InterpreterView) -> bool {
    s.pop_eval() matches Ok((e, s1)) && (eval_step(e, s1) matches Ok(s2) ==> calm(s2)
        && steps_left(s2) < steps_left(s))
}

/// What a calm machine that has an instruction to run holds on top.
pub proof fn lemma_calm_top(s: InterpreterView)
    requires
        calm(s),
        s.sub().evals.len() > 0,
    ensures
        s.has_sub(),
        s.ctx().sub_contexts.len() == 1,
        all_calm(s.sub().evals),
        is_calm(s.sub().evals.last()),
        s.pop_eval() matches Ok((e, s1)) && e == s.sub().evals.last() && stays(s, s1)
            && s1.sub().evals == s.sub().evals.drop_last() && all_calm(s1.sub().evals),
        spans(s.sub().evals) == spans(s.sub().evals.drop_last()) + span(s.sub().evals.last()),
{
    assert(is_calm_context(s.contexts[s.contexts.len() - 1]));
    assert(s.sub() == s.contexts.last().sub_contexts[0]);
}

/// Scheduling an instruction adds its weight, whatever the stack.
pub proof fn lemma_spans_pushes()
    ensures
        forall|es: Seq<EvalView>, e: EvalView| #[trigger]
            spans(es.push(e)) == spans(es) + span(e),
{
    assert forall|es: Seq<EvalView>, e: EvalView| #[trigger]
        spans(es.push(e)) == spans(es) + span(e) by {
        lemma_spans_push(es, e);
    }
}

/// Two stacks, one on the other, weigh what they weigh apart.
pub proof fn lemma_spans_concat(a: Seq<EvalView>, b: Seq<EvalView>)
    ensures
        spans(a + b) == spans(a) + spans(b),
    decreases b.len(),
{
    if b.len() == 0 {
        assert(a + b =~= a);
    } else {
        assert((a + b).drop_last() =~= a + b.drop_last());
        lemma_spans_concat(a, b.drop_last());
    }
}

/// The instructions of statements in the order in which a block schedules
/// them: the last statement's first.
pub open spec fn statements_schedule(sts: Seq<Rc<Statement>>) -> Seq<EvalView> {
    Seq::new(sts.len(), |j: int| EvalView::Step(Eval::Statement(sts[sts.len() - 1 - j])))
}

/// The schedule of statements weighs what the statements weigh.
pub proof fn lemma_statements_schedule(sts: Seq<Rc<Statement>>)
    requires
        are_finite(sts),
    ensures
        spans(statements_schedule(sts)) == statements_weight(sts),
        all_calm(statements_schedule(sts)),
    decreases sts.len(),
{
    if sts.len() == 0 {
        assert(statements_schedule(sts) =~= Seq::<EvalView>::empty());
    } else {
        let first = seq![EvalView::Step(Eval::Statement(sts.last()))];
        let rest = statements_schedule(sts.drop_last());
        assert(statements_schedule(sts) =~= first + rest);
        lemma_statements_schedule(sts.drop_last());
        lemma_spans_concat(first, rest);
        assert(first =~= Seq::<EvalView>::empty().push(first[0]));
        lemma_spans_push(Seq::<EvalView>::empty(), first[0]);
        assert(spans(Seq::<EvalView>::empty()) == 0);
        assert forall|i: int| 0 <= i < statements_schedule(sts).len() implies is_calm(
            #[trigger] statements_schedule(sts)[i],
        ) by {
            if i > 0 {
                assert(statements_schedule(sts)[i] == rest[i - 1]);
            }
        }
    }
}

/// The schedule of a block weighs one less than the block, and all of it
/// ends.
pub proof fn lemma_block_schedule(b: &Block)
    requires
        is_finite_block(b),
    ensures
        spans(block_schedule(b)) + 1 == block_weight(b),
        all_calm(block_schedule(b)),
{
    let head = seq![EvalView::Step(Eval::PopScope(PopScope)), block_tail(b)];
    let mid = statements_schedule(b.statements@);
    let last = seq![EvalView::Step(Eval::PushScope(PushScope))];
    assert(block_schedule(b) =~= head + mid + last);
    lemma_statements_schedule(b.statements@);
    lemma_spans_concat(head + mid, last);
    lemma_spans_concat(head, mid);
    lemma_spans_pushes();
    assert(spans(Seq::<EvalView>::empty()) == 0);
    assert(head =~= Seq::<EvalView>::empty().push(head[0]).push(head[1]));
    assert(last =~= Seq::<EvalView>::empty().push(last[0]));
    assert(is_calm(block_tail(b)));
    assert forall|i: int| 0 <= i < block_schedule(b).len() implies is_calm(
        #[trigger] block_schedule(b)[i],
    ) by {
        if 2 <= i < 2 + mid.len() {
            assert(block_schedule(b)[i] == mid[i - 2]);
        }
    }
}

/// The schedule of the elements of a list literal weighs what they weigh.
pub proof fn lemma_list_schedule(elems: Seq<ListElem>)
    requires
        are_finite_elems(elems),
    ensures
        spans(list_schedule(elems)) == elems_weight(elems),
        all_calm(list_schedule(elems)),
    decreases elems.len(),
{
    if elems.len() == 0 {
        assert(list_schedule(elems) =~= Seq::<EvalView>::empty());
    } else {
        let first = seq![list_schedule(elems)[0]];
        let rest = list_schedule(elems.drop_last());
        assert(list_schedule(elems) =~= first + rest);
        lemma_list_schedule(elems.drop_last());
        lemma_spans_concat(first, rest);
        assert(first =~= Seq::<EvalView>::empty().push(first[0]));
        lemma_spans_push(Seq::<EvalView>::empty(), first[0]);
        assert(spans(Seq::<EvalView>::empty()) == 0);
        assert forall|i: int| 0 <= i < list_schedule(elems).len() implies is_calm(
            #[trigger] list_schedule(elems)[i],
        ) by {
            if i > 0 {
                assert(list_schedule(elems)[i] == rest[i - 1]);
            }
        }
    }
}

/// The schedule of the elements of an object literal from the one at `i` on
/// weighs what they weigh.
pub proof fn lemma_object_schedule(elems: Seq<ObjectElem>, i: nat)
    requires
        are_finite_fields(elems, i),
        i <= elems.len(),
    ensures
        spans(object_schedule(elems.skip(i as int))) == fields_weight(elems, i),
        all_calm(object_schedule(elems.skip(i as int))),
    decreases elems.len() - i,
{
    let here = elems.skip(i as int);
    if i < elems.len() {
        let rest = object_schedule(elems.skip(i as int + 1));
        assert(here.skip(1) =~= elems.skip(i as int + 1));
        assert(here[0] == elems[i as int]);
        lemma_object_schedule(elems, i + 1);
        lemma_spans_pushes();
        assert(spans(Seq::<EvalView>::empty()) == 0);
        match elems[i as int] {
            ObjectElem::Kv(_, e) => {
                let piece = seq![expression(e)];
                assert(object_schedule(here) == rest + piece);
                assert(piece =~= Seq::<EvalView>::empty().push(piece[0]));
                lemma_spans_concat(rest, piece);
            },
            ObjectElem::Spread(e) => {
                let piece = seq![
                    EvalView::Step(Eval::CheckTypeObject(CheckTypeObject { first: true })),
                    expression(e),
                ];
                assert(object_schedule(here) == rest + piece);
                assert(piece =~= Seq::<EvalView>::empty().push(piece[0]).push(piece[1]));
                lemma_spans_concat(rest, piece);
            },
        }
    }
}

/// The schedule of the index expressions of a chain from the part at `i` on
/// weighs what they weigh.
pub proof fn lemma_index_schedule(parts: Seq<Location>, i: nat)
    requires
        are_finite_parts(parts, i),
        i <= parts.len(),
    ensures
        spans(index_schedule(parts.skip(i as int))) == parts_weight(parts, i),
        all_calm(index_schedule(parts.skip(i as int))),
    decreases parts.len() - i,
{
    let here = parts.skip(i as int);
    if i < parts.len() {
        let rest = index_schedule(parts.skip(i as int + 1));
        assert(here.skip(1) =~= parts.skip(i as int + 1));
        assert(here[0] == parts[i as int]);
        lemma_index_schedule(parts, i + 1);
        lemma_spans_pushes();
        assert(spans(Seq::<EvalView>::empty()) == 0);
        match parts[i as int] {
            Location::Dot(_) => {
                assert(index_schedule(here) == rest + Seq::<EvalView>::empty());
                assert(rest + Seq::<EvalView>::empty() =~= rest);
            },
            Location::Index(x) => {
                let piece = seq![expression(x.index)];
                assert(index_schedule(here) == rest + piece);
                assert(piece =~= Seq::<EvalView>::empty().push(piece[0]));
                lemma_spans_concat(rest, piece);
            },
        }
    }
}

/// The instruction that evaluates the right-hand side of an assignment.
pub open spec fn assigned(a: &Assignment) -> Option<EvalView> {
    Some(expression(a.expr))
}

/// The instruction that evaluates the base of a chain, where the base is an
/// expression.
pub open spec fn chain_base(n: &LocationChain) -> Option<EvalView> {
    match n.base {
        LocationChainBase::Ident(_) => None,
        LocationChainBase::Expression(b) => Some(expression(b)),
    }
}

/// A step that schedules an instruction of its own, then a batch, and then
/// perhaps one more, all lighter together than the instruction that
/// schedules them, brings the machine nearer to its end.
pub proof fn lemma_framed_batch_goes_down(
    s: InterpreterView,
    s2: InterpreterView,
    under: EvalView,
    es: Seq<EvalView>,
    over: Option<EvalView>,
)
    requires
        calm(s),
        s.sub().evals.len() > 0,
        !is_send(s.sub().evals.last()),
        !is_error(s.sub().evals.last()),
        is_calm(under),
        all_calm(es),
        over matches Some(e) ==> is_calm(e),
        span(under) + spans(es) + (match over {
            Some(e) => span(e),
            None => 0,
        }) < span(s.sub().evals.last()),
        stays(s, s2),
        s2.sub().evals == match over {
            Some(e) => (s.sub().evals.drop_last().push(under) + es).push(e),
            None => s.sub().evals.drop_last().push(under) + es,
        },
    ensures
        calm(s2),
        steps_left(s2) < steps_left(s),
{
    lemma_calm_top(s);
    lemma_spans_pushes();
    lemma_spans_concat(s.sub().evals.drop_last().push(under), es);
    assert(all_calm(s2.sub().evals));
    lemma_lighter(s, s2);
}

/// Scheduling a batch of instructions that end, lighter than the instruction
/// that schedules them, brings the machine nearer to its end.
pub proof fn lemma_batch_goes_down(s: InterpreterView, es: Seq<EvalView>)
    requires
        calm(s),
        s.sub().evals.len() > 0,
        !is_send(s.sub().evals.last()),
        !is_error(s.sub().evals.last()),
        all_calm(es),
        spans(es) < span(s.sub().evals.last()),
    ensures
        s.pop_eval() matches Ok((_, s1)) && s1.push_evals(es) matches Ok(s2) && calm(s2)
            && steps_left(s2) < steps_left(s),
{
    lemma_calm_top(s);
    let (_, s1) = s.pop_eval()->Ok_0;
    let s2 = s1.push_evals(es)->Ok_0;
    lemma_spans_concat(s1.sub().evals, es);
    assert(stays(s, s2));
    assert(s2.sub().evals == s1.sub().evals + es);
    assert(all_calm(s2.sub().evals));
    lemma_lighter(s, s2);
}

/// An expression that ends schedules less than it weighs.
pub proof fn lemma_expression_goes_down(s: InterpreterView, x: Rc<Expression>)
    requires
        calm(s),
        s.sub().evals.len() > 0,
        s.sub().evals.last() == expression(x),
    ensures
        goes_down(s),
{
    lemma_calm_top(s);
    match *x {
        Expression::Block(b) => {
            lemma_block_schedule(&*b);
            lemma_batch_goes_down(s, block_schedule(&*b));
        },
        Expression::If(n) => {
            lemma_if_goes_down(s, n);
        },
        Expression::List(n) => {
            lemma_list_goes_down(s, n);
        },
        Expression::Object(n) => {
            lemma_object_goes_down(s, n);
        },
        Expression::Location(n) => {
            lemma_chain_goes_down(s, n);
        },
        _ => {
            lemma_operator_goes_down(s, x);
        },
    }
}

/// A list literal schedules its elements and the step that collects them.
pub proof fn lemma_list_goes_down(s: InterpreterView, n: Rc<List>)
    requires
        calm(s),
        s.sub().evals.len() > 0,
        s.sub().evals.last() == expression(Rc::new(Expression::List(n))),
    ensures
        goes_down(s),
{
    lemma_calm_top(s);
    let (e, s1) = s.pop_eval()->Ok_0;
    if let Ok(s2) = eval_step(e, s1) {
        let under = custom("ListInner", Combiner::ListInner(n));
        let s1a = s1.push_eval(under)->Ok_0;
        assert(s2 == s1a.push_evals(list_schedule(n.elems@))->Ok_0);
        assert(stays(s, s2));
        lemma_list_schedule(n.elems@);
        lemma_framed_batch_goes_down(s, s2, under, list_schedule(n.elems@), None);
    }
}

/// An object literal schedules its elements and the step that collects them.
pub proof fn lemma_object_goes_down(s: InterpreterView, n: Rc<Object>)
    requires
        calm(s),
        s.sub().evals.len() > 0,
        s.sub().evals.last() == expression(Rc::new(Expression::Object(n))),
    ensures
        goes_down(s),
{
    lemma_calm_top(s);
    let (e, s1) = s.pop_eval()->Ok_0;
    if let Ok(s2) = eval_step(e, s1) {
        let under = custom("ObjectInner", Combiner::ObjectInner(n));
        let s1a = s1.push_eval(under)->Ok_0;
        assert(s2 == s1a.push_evals(object_schedule(n.elems@))->Ok_0);
        assert(stays(s, s2));
        assert(n.elems@.skip(0) =~= n.elems@);
        lemma_object_schedule(n.elems@, 0);
        lemma_framed_batch_goes_down(s, s2, under, object_schedule(n.elems@), None);
    }
}

/// A chain schedules its base, where that is an expression, its index
/// expressions and the step that reads.
pub proof fn lemma_chain_goes_down(s: InterpreterView, n: Rc<LocationChain>)
    requires
        calm(s),
        s.sub().evals.len() > 0,
        s.sub().evals.last() == expression(Rc::new(Expression::Location(n))),
    ensures
        goes_down(s),
{
    lemma_calm_top(s);
    let (e, s1) = s.pop_eval()->Ok_0;
    if let Ok(s2) = eval_step(e, s1) {
        let under = custom("LocationChainInner", Combiner::LocationChainInner(n));
        let s1a = s1.push_eval(under)->Ok_0;
        let s1b = s1a.push_evals(index_schedule(n.parts@))->Ok_0;
        assert(stays(s, s1b));
        assert(stays(s, s2));
        assert(n.parts@.skip(0) =~= n.parts@);
        lemma_index_schedule(n.parts@, 0);
        lemma_framed_batch_goes_down(s, s2, under, index_schedule(n.parts@), chain_base(&*n));
    }
}

/// An assignment schedules its right-hand side, the index expressions of its
/// location and the step that assigns.
pub proof fn lemma_assignment_goes_down(s: InterpreterView, a: Rc<Assignment>)
    requires
        calm(s),
        s.sub().evals.len() > 0,
        s.sub().evals.last() == EvalView::Step(
            Eval::Statement(Rc::new(Statement::Assignment(a))),
        ),
    ensures
        goes_down(s),
{
    lemma_calm_top(s);
    let (e, s1) = s.pop_eval()->Ok_0;
    if let Ok(s2) = eval_step(e, s1) {
        let under = custom("AssignmentInner", Combiner::AssignmentInner(a));
        let s1a = s1.push_eval(under)->Ok_0;
        let s1b = s1a.push_evals(index_schedule(a.location.parts@))->Ok_0;
        assert(stays(s, s1b));
        assert(stays(s, s2));
        assert(a.location.parts@.skip(0) =~= a.location.parts@);
        lemma_index_schedule(a.location.parts@, 0);
        lemma_framed_batch_goes_down(
            s,
            s2,
            under,
            index_schedule(a.location.parts@),
            assigned(&*a),
        );
    }
}

/// An `if` schedules its first condition and the step that tests it.
pub proof fn lemma_if_goes_down(s: InterpreterView, n: Rc<IfExpression>)
    requires
        calm(s),
        s.sub().evals.len() > 0,
        s.sub().evals.last() == expression(Rc::new(Expression::If(n))),
    ensures
        goes_down(s),
{
    lemma_calm_top(s);
    lemma_spans_pushes();
    let (e, s1) = s.pop_eval()->Ok_0;
    if let Ok(s2) = eval_step(e, s1) {
        assert(is_finite_if(&*n, 0));
        assert(stays(s, s2));
        assert(all_calm(s2.sub().evals));
        lemma_lighter(s, s2);
    }
}

/// A literal, a name and an operator schedule less than they weigh.
pub proof fn lemma_operator_goes_down(s: InterpreterView, x: Rc<Expression>)
    requires
        calm(s),
        s.sub().evals.len() > 0,
        s.sub().evals.last() == expression(x),
        !(*x is Block),
        !(*x is If),
        !(*x is List),
        !(*x is Object),
        !(*x is Location),
    ensures
        goes_down(s),
{
    lemma_calm_top(s);
    lemma_spans_pushes();
    let (e, s1) = s.pop_eval()->Ok_0;
    if let Ok(s2) = eval_step(e, s1) {
        match *x {
            Expression::Negative(n) => {
                lemma_weight_positive(&*n.expr);
            },
            Expression::Not(n) => {
                lemma_weight_positive(&*n.expr);
            },
            Expression::Boolean(n) => {
                lemma_weight_positive(&*n.left);
            },
            Expression::Comparison(n) => {
                lemma_weight_positive(&*n.left);
            },
            Expression::Numeric(n) => {
                lemma_weight_positive(&*n.left);
            },
            _ => {},
        }
        assert(stays(s, s2));
        assert(all_calm(s2.sub().evals));
        lemma_lighter(s, s2);
    }
}

/// A statement schedules its expression and the step that takes the value.
pub proof fn lemma_statement_goes_down(s: InterpreterView, st: Rc<Statement>)
    requires
        calm(s),
        s.sub().evals.len() > 0,
        s.sub().evals.last() == EvalView::Step(Eval::Statement(st)),
    ensures
        goes_down(s),
{
    lemma_calm_top(s);
    match *st {
        Statement::Assignment(a) => {
            lemma_assignment_goes_down(s, a);
        },
        _ => {
            lemma_spans_pushes();
            let (e, s1) = s.pop_eval()->Ok_0;
            if let Ok(s2) = eval_step(e, s1) {
                assert(stays(s, s2));
                assert(all_calm(s2.sub().evals));
                lemma_lighter(s, s2);
            }
        },
    }
}

/// The step that tests a condition of an `if` schedules the block that the
/// condition guards, the next condition with its step, or the `else`.
pub proof fn lemma_if_inner_goes_down(s: InterpreterView, n: IfInner)
    requires
        calm(s),
        s.sub().evals.len() > 0,
        s.sub().evals.last() == EvalView::Step(Eval::IfInner(n)),
    ensures
        goes_down(s),
{
    lemma_calm_top(s);
    lemma_spans_pushes();
    let (e, s1) = s.pop_eval()->Ok_0;
    if let Ok(s2) = eval_step(e, s1) {
        let i = n.index as nat;
        let rest = s1.sub().evals;
        let (v, s1v) = s1.pop_value()->Ok_0;
        assert(s1v.sub().evals == rest);
        assert(stays(s, s1v));
        assert(is_finite_if(&*n.node, i));
        assert(i < n.node.ifs@.len());
        assert(is_finite_if(&*n.node, i + 1));
        assert(n.node.ifs@.len() == n.node.ifs.len());
        let holds = v->Bool_0;
        if holds {
            let b = block(n.node.ifs@[i as int].body);
            assert(s2.sub().evals == rest.push(b));
            assert(is_calm(b));
        } else if i + 1 < n.node.ifs@.len() {
            let next = IfInner { index: (n.index + 1) as usize, node: n.node };
            let a = EvalView::Step(Eval::IfInner(next));
            let c = expression(n.node.ifs@[i as int + 1].cond);
            assert(next.index as nat == i + 1);
            assert(s2.sub().evals == rest.push(a).push(c));
            assert(is_calm(a));
            assert(is_calm(c));
            assert(span(a) == if_weight(&*n.node, i + 1));
        } else {
            match n.node.else_body {
                Some(b) => {
                    assert(s2.sub().evals == rest.push(block(b)));
                    assert(is_calm(block(b)));
                },
                None => {
                    assert(s2.sub().evals == rest);
                },
            }
        }
        assert(stays(s, s2));
        assert(all_calm(s2.sub().evals));
        lemma_lighter(s, s2);
    }
}

/// Opening a scope, closing one and binding schedule nothing.
pub proof fn lemma_scope_goes_down(s: InterpreterView)
    requires
        calm(s),
        s.sub().evals.len() > 0,
        s.sub().evals.last() matches EvalView::Step(i) && (i is PushScope || i is PopScope
            || i is LetInner),
    ensures
        goes_down(s),
{
    lemma_calm_top(s);
    let (e, s1) = s.pop_eval()->Ok_0;
    if let Ok(s2) = eval_step(e, s1) {
        assert(stays(s, s2));
        assert(s2.sub().evals == s1.sub().evals);
        lemma_lighter(s, s2);
    }
}

/// A step that leaves the instructions of the current stack as they are
/// brings the machine nearer to its end.
pub proof fn lemma_quiet_goes_down(s: InterpreterView, s2: InterpreterView)
    requires
        calm(s),
        s.sub().evals.len() > 0,
        !is_send(s.sub().evals.last()),
        !is_error(s.sub().evals.last()),
        stays(s, s2),
        s2.sub().evals == s.sub().evals.drop_last(),
    ensures
        calm(s2),
        steps_left(s2) < steps_left(s),
{
    lemma_calm_top(s);
    lemma_span_positive(s.sub().evals.last());
    lemma_lighter(s, s2);
}

/// Taking values off the value stack leaves everything else as it is.
pub proof fn lemma_take_values_stays(s: InterpreterView, n: nat)
    requires
        s.has_sub(),
    ensures
        s.take_values(n) matches Ok((_, s1)) ==> s1.contexts.len() == s.contexts.len()
            && s1.contexts.drop_last() =~= s.contexts.drop_last() && s1.sub().evals
            == s.sub().evals && s1.ctx().sub_contexts.len() == s.ctx().sub_contexts.len(),
{
}

/// The steps that collect a list or an object, read a chain and assign
/// schedule nothing.
pub proof fn lemma_collector_goes_down(s: InterpreterView, c: Custom)
    requires
        calm(s),
        s.sub().evals.len() > 0,
        s.sub().evals.last() == EvalView::Step(Eval::Custom(c)),
        c.function is ListInner || c.function is ObjectInner || c.function is LocationChainInner
            || c.function is AssignmentInner,
    ensures
        goes_down(s),
{
    lemma_calm_top(s);
    let (e, s1) = s.pop_eval()->Ok_0;
    if let Ok(s2) = eval_step(e, s1) {
        match c.function {
            Combiner::ListInner(n) => {
                lemma_take_values_stays(s1, n.elems@.len());
            },
            Combiner::ObjectInner(n) => {
                lemma_take_values_stays(s1, n.elems@.len());
            },
            Combiner::LocationChainInner(n) => {
                lemma_take_values_stays(s1, index_count(n.parts@));
            },
            Combiner::AssignmentInner(n) => {
                lemma_take_values_stays(s1, index_count(n.location.parts@));
            },
            _ => {},
        }
        assert(stays(s, s2));
        assert(s2.sub().evals == s1.sub().evals);
        lemma_quiet_goes_down(s, s2);
    }
}

/// A combining step schedules nothing.
pub proof fn lemma_combiner_goes_down(s: InterpreterView, c: Custom)
    requires
        calm(s),
        s.sub().evals.len() > 0,
        s.sub().evals.last() == EvalView::Step(Eval::Custom(c)),
    ensures
        goes_down(s),
{
    lemma_calm_top(s);
    if c.function is ListInner || c.function is ObjectInner || c.function is LocationChainInner
        || c.function is AssignmentInner {
        lemma_collector_goes_down(s, c);
    } else {
        let (e, s1) = s.pop_eval()->Ok_0;
        if let Ok(s2) = eval_step(e, s1) {
            assert(stays(s, s2));
            assert(s2.sub().evals == s1.sub().evals);
            lemma_quiet_goes_down(s, s2);
        }
    }
}

/// A check lets its value pass, or schedules the raising of an error.
pub proof fn lemma_check_goes_down(s: InterpreterView)
    requires
        calm(s),
        s.sub().evals.len() > 0,
        s.sub().evals.last() matches EvalView::Step(i) && (i is CheckTypeInt || i is CheckIntMin
            || i is CheckTypeObject),
    ensures
        goes_down(s),
{
    lemma_calm_top(s);
    lemma_spans_pushes();
    let (e, s1) = s.pop_eval()->Ok_0;
    if let Ok(s2) = eval_step(e, s1) {
        assert(stays(s, s2));
        assert(all_calm(s2.sub().evals));
        lemma_lighter(s, s2);
    }
}

/// Raising an error schedules its sending.
pub proof fn lemma_error_goes_down(s: InterpreterView)
    requires
        calm(s),
        s.sub().evals.len() > 0,
        is_error(s.sub().evals.last()),
    ensures
        goes_down(s),
{
    lemma_calm_top(s);
    let (e, s1) = s.pop_eval()->Ok_0;
    if let Ok(s2) = eval_step(e, s1) {
        assert(stays(s, s2));
        assert(all_calm(s2.sub().evals));
        lemma_lighter(s, s2);
    }
}

/// Sending takes the current function context, and all it had to do, out of
/// the machine.
pub proof fn lemma_send_goes_down(s: InterpreterView)
    requires
        calm(s),
        s.sub().evals.len() > 0,
        is_send(s.sub().evals.last()),
    ensures
        goes_down(s),
{
    lemma_calm_top(s);
    let (e, s1) = s.pop_eval()->Ok_0;
    if let Ok(s2) = eval_step(e, s1) {
        let below = s.contexts.drop_last();
        assert(s2.contexts.len() == below.len());
        assert(below.len() > 0);
        assert(s2.contexts.drop_last() =~= below.drop_last());
        assert(is_calm_context(s.contexts[below.len() - 1]));
        assert(s2.sub().evals == below.last().sub_contexts[0].evals);
        lemma_pending_bounds(s2.sub().evals);
        assert forall|i: int| 0 <= i < s2.contexts.len() implies is_calm_context(
            #[trigger] s2.contexts[i],
        ) by {
            assert(is_calm_context(s.contexts[i]));
        }
    }
}

/// Entering a function context for an expression schedules the expression
/// there and a step that passes its value on here.
pub proof fn lemma_wrapper_goes_down(s: InterpreterView, w: WrapperFunction)
    requires
        calm(s),
        s.sub().evals.len() > 0,
        s.sub().evals.last() == EvalView::Step(Eval::WrapperFunction(w)),
    ensures
        goes_down(s),
{
    lemma_calm_top(s);
    lemma_spans_pushes();
    let (e, s1) = s.pop_eval()->Ok_0;
    if let Ok(s2) = eval_step(e, s1) {
        let here = s2.contexts.drop_last();
        assert(here.len() == s.contexts.len());
        assert(here.drop_last() =~= s.contexts.drop_last());
        assert(here.last().sub_contexts.len() == 1);
        assert(here.last().sub_contexts[0].evals == s1.sub().evals.push(
            custom("WrapperFunctionInner", Combiner::WrapperFunctionInner),
        ));
        assert(s2.sub().evals =~= seq![expression(w.body)]);
        assert(seq![expression(w.body)] =~= Seq::<EvalView>::empty().push(expression(w.body)));
        assert(spans(Seq::<EvalView>::empty()) == 0);
        lemma_pending_bounds(s2.sub().evals);
        assert forall|i: int| 0 <= i < s2.contexts.len() implies is_calm_context(
            #[trigger] s2.contexts[i],
        ) by {
            if i < here.len() - 1 {
                assert(s2.contexts[i] == s.contexts.drop_last()[i]);
                assert(is_calm_context(s.contexts[i]));
            }
        }
    }
}

/// The next instruction of a calm machine, where it does not stop the
/// machine, leaves it calm and nearer to its end.
pub proof fn lemma_step_goes_down(s: InterpreterView)
    requires
        calm(s),
        s.sub().evals.len() > 0,
    ensures
        goes_down(s),
{
    lemma_calm_top(s);
    match s.sub().evals.last() {
        EvalView::Handler(_) => {},
        EvalView::Step(i) => match i {
            Eval::Expression(x) => {
                lemma_expression_goes_down(s, x);
            },
            Eval::Statement(st) => {
                lemma_statement_goes_down(s, st);
            },
            Eval::Block(b) => {
                lemma_block_schedule(&*b);
                lemma_batch_goes_down(s, block_schedule(&*b));
            },
            Eval::IfInner(n) => {
                lemma_if_inner_goes_down(s, n);
            },
            Eval::PushScope(_) => {
                lemma_scope_goes_down(s);
            },
            Eval::PopScope(_) => {
                lemma_scope_goes_down(s);
            },
            Eval::LetInner(_) => {
                lemma_scope_goes_down(s);
            },
            Eval::Custom(c) => {
                lemma_combiner_goes_down(s, c);
            },
            Eval::Error(_) => {
                lemma_error_goes_down(s);
            },
            Eval::SendInner(_) => {
                lemma_send_goes_down(s);
            },
            Eval::WrapperFunction(w) => {
                lemma_wrapper_goes_down(s, w);
            },
            Eval::CheckTypeInt(_) => {
                lemma_check_goes_down(s);
            },
            Eval::CheckIntMin(_) => {
                lemma_check_goes_down(s);
            },
            Eval::CheckTypeObject(_) => {
                lemma_check_goes_down(s);
            },
            _ => {},
        },
    }
}

/// Leaving the contexts that have nothing more to do brings a calm machine
/// no further from its end, and leaves it with an instruction to run.
pub proof fn lemma_settle_goes_down(s: InterpreterView)
    requires
        calm(s),
    ensures
        settle(s) matches Ok(Progress::Running(s1)) ==> calm(s1) && s1.sub().evals.len() > 0
            && steps_left(s1) <= steps_left(s),
    decreases s.contexts.len(),
{
    assert(is_calm_context(s.contexts[s.contexts.len() - 1]));
    if s.sub().evals.len() == 0 {
        if let Ok(Progress::Running(s1)) = unwind(s) {
            let below = s.contexts.drop_last();
            assert(s1.contexts.len() == below.len());
            assert(s1.contexts.drop_last() =~= below.drop_last());
            assert(is_calm_context(s.contexts[below.len() - 1]));
            assert(s1.sub().evals == below.last().sub_contexts[0].evals);
            lemma_pending_bounds(s1.sub().evals);
            assert forall|i: int| 0 <= i < s1.contexts.len() implies is_calm_context(
                #[trigger] s1.contexts[i],
            ) by {
                assert(is_calm_context(s.contexts[i]));
            }
            lemma_settle_goes_down(s1);
        }
    }
}

/// A step of a calm machine, where it goes on, leaves it calm and nearer to
/// its end.
pub proof fn lemma_tick_goes_down(s: InterpreterView)
    requires
        calm(s),
        s.sub().evals.len() > 0,
    ensures
        tick(s) matches Ok(Progress::Running(s1)) ==> calm(s1) && s1.sub().evals.len() > 0
            && steps_left(s1) < steps_left(s),
{
    reveal(tick);
    lemma_calm_top(s);
    lemma_step_goes_down(s);
    let (e, s1) = s.pop_eval()->Ok_0;
    if let Ok(s2) = eval_step(e, s1) {
        lemma_settle_goes_down(s2);
    }
}

/// A calm machine stops within the steps that it has left.
pub proof fn lemma_calm_run_ends(s: InterpreterView, fuel: nat)
    requires
        calm(s),
        s.sub().evals.len() > 0,
        fuel >= steps_left(s),
    ensures
        !(run(s, fuel) matches Ok(Progress::Running(_))),
    decreases fuel,
{
    lemma_calm_top(s);
    lemma_pending_bounds(s.sub().evals);
    lemma_tick_goes_down(s);
    if let Ok(Progress::Running(s1)) = tick(s) {
        lemma_calm_run_ends(s1, (fuel - 1) as nat);
    }
}

/// An expression without a loop, a call, a handler, a `send`, a `continue`
/// and a `break` ends: run as a program in a calm machine, it stops within
/// two steps more than it and all that the machine had to do weigh, with a
/// value, with an effect that nothing handled, or with a fatal condition.
pub proof fn lemma_finite_expression_ends(s: InterpreterView, e: Rc<Expression>, fuel: nat)
    requires
        calm(s),
        is_finite(&*e),
        fuel >= load(s.contexts) + weight(&*e) + 2,
    ensures
        !(program(s, e, fuel) matches Ok(Progress::Running(_))),
{
    let w = EvalView::Step(Eval::WrapperFunction(WrapperFunction { body: e }));
    assert(is_calm_context(s.contexts[s.contexts.len() - 1]));
    let s1 = s.push_eval(w)->Ok_0;
    assert(s.sub() == s.contexts.last().sub_contexts[0]);
    assert(s1.sub().evals == s.sub().evals.push(w));
    lemma_spans_push(s.sub().evals, w);
    lemma_pending_bounds(s1.sub().evals);
    assert(s1.contexts.drop_last() =~= s.contexts.drop_last());
    assert forall|i: int| 0 <= i < s1.contexts.len() implies is_calm_context(
        #[trigger] s1.contexts[i],
    ) by {
        assert(is_calm_context(s.contexts[i]));
    }
    lemma_calm_run_ends(s1, fuel);
}

/// In a machine that has done nothing yet, an expression without a loop, a
/// call, a handler, a `send`, a `continue` and a `break` ends within two
/// steps more than it weighs.
pub proof fn lemma_fresh_program_ends(e: Rc<Expression>, fuel: nat)
    requires
        is_finite(&*e),
        fuel >= weight(&*e) + 2,
    ensures
        !(program(InterpreterView::initial(), e, fuel) matches Ok(Progress::Running(_))),
{
    let s = InterpreterView::initial();
    assert(s.contexts.len() == 1);
    assert(s.contexts[0].sub_contexts[0].evals =~= Seq::<EvalView>::empty());
    assert(spans(Seq::<EvalView>::empty()) == 0);
    assert(s.contexts.drop_last() =~= Seq::<FunctionContextView>::empty());
    assert(load(Seq::<FunctionContextView>::empty()) == 0);
    assert(is_calm_context(s.contexts[0]));
    lemma_finite_expression_ends(s, e, fuel);
}

} // verus!
