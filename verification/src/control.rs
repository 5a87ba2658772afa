//! Blocks, statements, `if` and `loop`.

use crate::ast::{
    Block, Expression, ExpressionStatement, IfExpression, LetStatement, LoopExpression, Null,
    Statement,
};
use crate::eval::{
    block, custom, expression, Combiner, Custom, Eval, EvalView, IfInner, LetInner, LoopBody,
    LoopContext, PopScope, PushScope,
};
use crate::fatal::Fatal;
use crate::interpreter::{
    done, lemma_push_evals_empty, lemma_push_evals_push, then_eval, Interpreter, InterpreterView,
};
use crate::value::{SubContext, SubContextType, SubContextTypeView, SubContextView, Value, ValueView};
use std::rc::Rc;
use vstd::prelude::*;

verus! {

/// The instruction that yields the value of a block: its trailing
/// expression, or `null` where it has none.
pub open spec fn block_tail(b: &Block) -> EvalView {
    match b.expression {
        Some(e) => expression(e),
        None => expression(Rc::new(Expression::Null(Null))),
    }
}

/// The instructions of a block in the order in which they are pushed: the
/// closing of its scope, its value, its statements from the last to the
/// first, and the opening of its scope. They run in the opposite order.
pub open spec fn block_schedule(b: &Block) -> Seq<EvalView> {
    seq![EvalView::Step(Eval::PopScope(PopScope)), block_tail(b)] + Seq::new(
        b.statements@.len(),
        |j: int| EvalView::Step(Eval::Statement(b.statements@[b.statements@.len() - 1 - j])),
    ) + seq![EvalView::Step(Eval::PushScope(PushScope))]
}

impl Block {
    /// Schedules the block in a scope of its own.
    pub fn eval(node: &Rc<Block>, machine: &mut Interpreter) -> (r: Result<(), Fatal>)
        ensures
            done(r, final(machine)@, old(machine)@.push_evals(block_schedule(&**node))),
    {
        if !machine.is_live() {
            return Err(Fatal::NoContext);
        }
        let ghost start = machine@;
        let ghost all = block_schedule(&**node);
        proof {
            lemma_push_evals_empty(start);
            lemma_push_evals_push(start, Seq::empty(), all[0]);
            lemma_push_evals_push(start, seq![all[0]], all[1]);
            assert(Seq::<EvalView>::empty().push(all[0]) =~= all.take(1));
            assert(seq![all[0]].push(all[1]) =~= all.take(2));
        }
        machine.push_eval(Eval::PopScope(PopScope))?;
        match &node.expression {
            Some(e) => {
                machine.push_eval(Eval::Expression(e.clone()))?;
            },
            None => {
                machine.push_eval(Eval::Expression(Rc::new(Expression::Null(Null))))?;
            },
        }
        let n = node.statements.len();
        let mut k: usize = 0;
        while k < n
            invariant
                n == node.statements@.len(),
                0 <= k <= n,
                start.has_sub(),
                all == block_schedule(&**node),
                start.push_evals(all.take(2 + k)) == Ok::<InterpreterView, Fatal>(machine@),
            decreases n - k,
        {
            let st = node.statements[n - 1 - k].clone();
            proof {
                lemma_push_evals_push(start, all.take(2 + k), EvalView::Step(Eval::Statement(st)));
                assert(all.take(2 + k).push(EvalView::Step(Eval::Statement(st))) =~= all.take(
                    3 + k,
                ));
            }
            machine.push_eval(Eval::Statement(st))?;
            k += 1;
        }
        proof {
            lemma_push_evals_push(
                start,
                all.take(2 + n),
                EvalView::Step(Eval::PushScope(PushScope)),
            );
            assert(all.take(2 + n).push(EvalView::Step(Eval::PushScope(PushScope))) =~= all);
        }
        machine.push_eval(Eval::PushScope(PushScope))
    }

    pub fn short_name(&self) -> (r: &'static str)
        ensures
            r == "Block",
    {
        "Block"
    }
}

impl PushScope {
    /// Opens a scope.
    pub fn eval(&self, machine: &mut Interpreter) -> (r: Result<(), Fatal>)
        ensures
            done(r, final(machine)@, old(machine)@.push_scope()),
    {
        machine.push_scope()
    }

    pub fn short_name(&self) -> (r: &'static str)
        ensures
            r == "PushScope",
    {
        "PushScope"
    }
}

impl PopScope {
    /// Closes the current scope.
    pub fn eval(&self, machine: &mut Interpreter) -> (r: Result<(), Fatal>)
        ensures
            done(r, final(machine)@, old(machine)@.pop_scope()),
    {
        machine.pop_scope()
    }

    pub fn short_name(&self) -> (r: &'static str)
        ensures
            r == "PopScope",
    {
        "PopScope"
    }
}

/// The value on top of the value stack is dropped.
pub open spec fn ignore_value_step(s: InterpreterView) -> Result<InterpreterView, Fatal> {
    match s.pop_value() {
        Err(e) => Err(e),
        Ok((_, s1)) => Ok(s1),
    }
}

/// Drops the value on top of the value stack.
pub fn ignore_value(machine: &mut Interpreter) -> (r: Result<(), Fatal>)
    ensures
        done(r, final(machine)@, ignore_value_step(old(machine)@)),
{
    let _ = machine.pop_value()?;
    Ok(())
}

/// The expression is scheduled on top of the step that drops its value.
pub open spec fn expression_statement_step(node: ExpressionStatement, s: InterpreterView) -> Result<
    InterpreterView,
    Fatal,
> {
    then_eval(s.push_eval(custom("IgnoreValue", Combiner::IgnoreValue)), expression(node.expr))
}

impl ExpressionStatement {
    /// Schedules the expression and the dropping of its value.
    pub fn eval(&self, machine: &mut Interpreter) -> (r: Result<(), Fatal>)
        ensures
            done(r, final(machine)@, expression_statement_step(*self, old(machine)@)),
    {
        machine.push_eval(Eval::Custom(Custom::new("IgnoreValue", Combiner::IgnoreValue)))?;
        machine.push_eval(Eval::Expression(self.expr.clone()))
    }

    pub fn short_name(&self) -> (r: &'static str)
        ensures
            r == "ExpressionStatement",
    {
        "ExpressionStatement"
    }
}

/// The right-hand side is scheduled on top of the step that binds its value.
pub open spec fn let_step(node: LetStatement, s: InterpreterView) -> Result<InterpreterView, Fatal> {
    then_eval(
        s.push_eval(EvalView::Step(Eval::LetInner(LetInner { pattern: node.pattern }))),
        expression(node.expr),
    )
}

/// The value on top of the value stack is bound by the pattern in the frame
/// of the current scope.
pub open spec fn let_inner_step(node: LetInner, s: InterpreterView) -> Result<
    InterpreterView,
    Fatal,
> {
    match s.pop_value() {
        Err(e) => Err(e),
        Ok((v, s1)) => s1.bind(*node.pattern, v),
    }
}

impl LetStatement {
    /// Schedules the right-hand side and the binding of its value.
    pub fn eval(&self, machine: &mut Interpreter) -> (r: Result<(), Fatal>)
        ensures
            done(r, final(machine)@, let_step(*self, old(machine)@)),
    {
        machine.push_eval(Eval::LetInner(LetInner { pattern: self.pattern.clone() }))?;
        machine.push_eval(Eval::Expression(self.expr.clone()))
    }

    pub fn short_name(&self) -> (r: &'static str)
        ensures
            r == "Let",
    {
        "Let"
    }
}

impl LetInner {
    /// Takes a value and binds it by the pattern.
    pub fn eval(&self, machine: &mut Interpreter) -> (r: Result<(), Fatal>)
        ensures
            r == Err::<(), Fatal>(Fatal::Aliased) || done(
                r,
                final(machine)@,
                let_inner_step(*self, old(machine)@),
            ),
            r == Err::<(), Fatal>(Fatal::Aliased) ==> old(machine)@.pop_value() is Ok,
            !old(machine)@.has_sub() <==> r == Err::<(), Fatal>(Fatal::NoContext),
            old(machine)@.has_sub() && old(machine)@.sub().values.len() == 0 <==> r == Err::<
                (),
                Fatal,
            >(Fatal::NoValue),
    {
        let v = machine.pop_value()?;
        machine.bind(&*self.pattern, v)
    }

    pub fn short_name(&self) -> (r: &'static str)
        ensures
            r == "LetInner",
    {
        "LetInner"
    }
}

/// The first condition is scheduled on top of the step that acts on it. An
/// `if` has one condition at least.
pub open spec fn if_step(node: Rc<IfExpression>, s: InterpreterView) -> Result<
    InterpreterView,
    Fatal,
> {
    if node.ifs@.len() == 0 {
        Err(Fatal::Malformed)
    } else {
        then_eval(
            s.push_eval(EvalView::Step(Eval::IfInner(IfInner { index: 0, node }))),
            expression(node.ifs@[0].cond),
        )
    }
}

/// An `if` after the condition at `index` has been evaluated. Where it
/// holds, the block it guards runs. Where it does not, the next condition is
/// tried; after the last one the `else` block runs, and without one the `if`
/// yields `null`.
pub open spec fn if_inner_step(node: IfInner, s: InterpreterView) -> Result<InterpreterView, Fatal> {
    match s.pop_value() {
        Err(e) => Err(e),
        Ok((v, s1)) => match v {
            ValueView::Bool(holds) => if node.index >= node.node.ifs@.len() {
                Err(Fatal::Malformed)
            } else if holds {
                s1.push_eval(block(node.node.ifs@[node.index as int].body))
            } else if node.index + 1 < node.node.ifs@.len() {
                then_eval(
                    s1.push_eval(
                        EvalView::Step(
                            Eval::IfInner(
                                IfInner { index: (node.index + 1) as usize, node: node.node },
                            ),
                        ),
                    ),
                    expression(node.node.ifs@[node.index + 1].cond),
                )
            } else {
                match node.node.else_body {
                    Some(b) => s1.push_eval(block(b)),
                    None => s1.push_value(ValueView::Null),
                }
            },
            _ => Err(Fatal::NotBool),
        },
    }
}

impl IfExpression {
    /// Schedules the first condition and the step that acts on it.
    pub fn eval(node: &Rc<IfExpression>, machine: &mut Interpreter) -> (r: Result<(), Fatal>)
        ensures
            done(r, final(machine)@, if_step(*node, old(machine)@)),
    {
        if node.ifs.len() == 0 {
            return Err(Fatal::Malformed);
        }
        machine.push_eval(Eval::IfInner(IfInner { index: 0, node: node.clone() }))?;
        machine.push_eval(Eval::Expression(node.ifs[0].cond.clone()))
    }

    pub fn short_name(&self) -> (r: &'static str)
        ensures
            r == "If",
    {
        "If"
    }
}

impl IfInner {
    /// Takes the value of a condition and goes on with the branch it selects.
    pub fn eval(&self, machine: &mut Interpreter) -> (r: Result<(), Fatal>)
        ensures
            done(r, final(machine)@, if_inner_step(*self, old(machine)@)),
    {
        let v = machine.pop_value()?;
        let holds = match v {
            Value::Bool(b) => b,
            _ => {
                return Err(Fatal::NotBool);
            },
        };
        let n = self.node.ifs.len();
        if self.index >= n {
            return Err(Fatal::Malformed);
        }
        if holds {
            machine.push_eval(Eval::Block(self.node.ifs[self.index].body.clone()))
        } else if self.index + 1 < n {
            machine.push_eval(
                Eval::IfInner(IfInner { index: self.index + 1, node: self.node.clone() }),
            )?;
            machine.push_eval(Eval::Expression(self.node.ifs[self.index + 1].cond.clone()))
        } else {
            match &self.node.else_body {
                Some(b) => machine.push_eval(Eval::Block(b.clone())),
                None => machine.push_value(Value::Null),
            }
        }
    }

    pub fn short_name(&self) -> (r: &'static str)
        ensures
            r == "IfInner",
    {
        "IfInner"
    }
}

/// The opening of the loop's sub-context is scheduled.
pub open spec fn loop_step(node: LoopExpression, s: InterpreterView) -> Result<
    InterpreterView,
    Fatal,
> {
    s.push_eval(EvalView::Step(Eval::LoopContext(Rc::new(LoopContext { body: node.body }))))
}

/// A sub-context for the loop is opened and the loop's round is scheduled in
/// it.
pub open spec fn loop_context_step(node: Rc<LoopContext>, s: InterpreterView) -> Result<
    InterpreterView,
    Fatal,
> {
    then_eval(
        s.push_sub_context(SubContextView::fresh(SubContextTypeView::Loop(*node))),
        EvalView::Step(Eval::LoopBody(LoopBody { body: node.body })),
    )
}

/// One round: the body runs, its value is dropped, and the round is
/// scheduled again.
pub open spec fn loop_body_step(node: LoopBody, s: InterpreterView) -> Result<
    InterpreterView,
    Fatal,
> {
    then_eval(
        then_eval(
            s.push_eval(EvalView::Step(Eval::LoopBody(LoopBody { body: node.body }))),
            custom("IgnoreValue", Combiner::IgnoreValue),
        ),
        block(node.body),
    )
}

impl LoopExpression {
    /// Schedules the opening of the loop's sub-context.
    pub fn eval(&self, machine: &mut Interpreter) -> (r: Result<(), Fatal>)
        ensures
            done(r, final(machine)@, loop_step(*self, old(machine)@)),
    {
        machine.push_eval(Eval::LoopContext(Rc::new(LoopContext { body: self.body.clone() })))
    }

    pub fn short_name(&self) -> (r: &'static str)
        ensures
            r == "Loop",
    {
        "Loop"
    }
}

impl LoopContext {
    /// Opens the loop's sub-context and schedules the first round in it.
    pub fn eval(node: &Rc<LoopContext>, machine: &mut Interpreter) -> (r: Result<(), Fatal>)
        ensures
            done(r, final(machine)@, loop_context_step(*node, old(machine)@)),
    {
        machine.push_sub_context(SubContext::new(SubContextType::Loop(node.clone())))?;
        machine.push_eval(Eval::LoopBody(LoopBody { body: node.body.clone() }))
    }

    pub fn short_name(&self) -> (r: &'static str)
        ensures
            r == "LoopContext",
    {
        "LoopContext"
    }
}

impl LoopBody {
    /// Schedules one round and the next.
    pub fn eval(&self, machine: &mut Interpreter) -> (r: Result<(), Fatal>)
        ensures
            done(r, final(machine)@, loop_body_step(*self, old(machine)@)),
    {
        machine.push_eval(Eval::LoopBody(LoopBody { body: self.body.clone() }))?;
        machine.push_eval(Eval::Custom(Custom::new("IgnoreValue", Combiner::IgnoreValue)))?;
        machine.push_eval(Eval::Block(self.body.clone()))
    }

    pub fn short_name(&self) -> (r: &'static str)
        ensures
            r == "LoopBody",
    {
        "LoopBody"
    }
}

} // verus!
