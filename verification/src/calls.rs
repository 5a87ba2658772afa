//! Functions: making a closure, calling one, and running an expression in a
//! function context of its own.

use crate::aggregates::{list_schedule, schedule_elems, spread, spread_values};
use crate::ast::{Function, FunctionInvocation};
use crate::eval::{block, custom, expression, Combiner, Custom, Eval, WrapperFunction};
use crate::fatal::Fatal;
use crate::frame::lemma_combiner_step_sound;
use crate::interpreter::{done, then_eval, Interpreter, InterpreterView};
use crate::intrinsics::Intrinsic;
use crate::pattern::{bind_items, bind_list, list_opens};
use crate::value::{
    Closure, ClosureView, FunctionContext, FunctionContextView, Scope, ScopeView, Table, Value,
    ValueView,
};
use std::rc::Rc;
use vstd::prelude::*;

verus! {

/// The scope chain is split, and a closure over the handed-out branch is
/// left on the value stack.
pub open spec fn function_step(node: Rc<Function>, s: InterpreterView) -> Result<
    InterpreterView,
    Fatal,
> {
    match s.branch_scope() {
        Err(e) => Err(e),
        Ok((scope, s1)) => s1.push_value(
            ValueView::Closure(ClosureView { code: *node, parent_scope: scope }),
        ),
    }
}

impl Function {
    /// Captures the current scope and leaves the closure.
    pub fn eval(node: &Rc<Function>, machine: &mut Interpreter) -> (r: Result<(), Fatal>)
        ensures
            done(r, final(machine)@, function_step(*node, old(machine)@)),
    {
        let scope = machine.branch_scope()?;
        machine.push_value(Value::Closure(Rc::new(Closure::new(node.clone(), scope))))
    }

    pub fn short_name(&self) -> (r: &'static str)
        ensures
            r == "Function",
    {
        "Function"
    }
}

/// The machine after `body` has been set up to run in a function context of
/// its own, inside the current scope. Its value will pass through an identity
/// step of the current context.
pub open spec fn wrapper_step(body: Rc<crate::ast::Expression>, s: InterpreterView) -> Result<
    InterpreterView,
    Fatal,
> {
    match s.push_eval(custom("WrapperFunctionInner", Combiner::WrapperFunctionInner)) {
        Err(e) => Err(e),
        Ok(s1) => s1.push_fn_context(
            FunctionContextView::fresh(ScopeView::child_of(s1.ctx().scope)),
        ).push_eval(expression(body)),
    }
}

/// The value on top of the value stack stays where it is.
pub open spec fn wrapper_inner_step(s: InterpreterView) -> Result<InterpreterView, Fatal> {
    match s.pop_value() {
        Err(e) => Err(e),
        Ok((v, s1)) => s1.push_value(v),
    }
}

impl WrapperFunction {
    /// Enters a function context for the body and schedules the body in it.
    pub fn eval(&self, machine: &mut Interpreter) -> (r: Result<(), Fatal>)
        ensures
            done(r, final(machine)@, wrapper_step(self.body, old(machine)@)),
    {
        machine.push_eval(
            Eval::Custom(Custom::new("WrapperFunctionInner", Combiner::WrapperFunctionInner)),
        )?;
        let n = machine.fn_context_stack.len();
        let scope = Scope::extend(machine.fn_context_stack[n - 1].scope.clone());
        machine.push_fn_context(FunctionContext::new(scope));
        machine.push_eval(Eval::Expression(self.body.clone()))
    }

    pub fn short_name(&self) -> (r: &'static str)
        ensures
            r == "WrapperFunction",
    {
        "WrapperFunction"
    }
}

/// Takes a value and leaves it.
pub fn wrapper_inner(machine: &mut Interpreter) -> (r: Result<(), Fatal>)
    ensures
        done(r, final(machine)@, wrapper_inner_step(old(machine)@)),
{
    let v = machine.pop_value()?;
    machine.push_value(v)
}

impl Intrinsic {
    /// The step that does the intrinsic's work.
    pub fn code(self) -> (e: Eval)
        ensures
            e@ == self.body(),
    {
        match self {
            Intrinsic::Symbol => Eval::Custom(
                Custom::new("IntrinsicSymbol", Combiner::IntrinsicSymbol),
            ),
        }
    }
}

/// The arguments are scheduled, first to last, then the callee, on top of the
/// step that makes the call.
pub open spec fn invocation_step(node: Rc<FunctionInvocation>, s: InterpreterView) -> Result<
    InterpreterView,
    Fatal,
> {
    match then_eval(
        s.push_eval(custom("FunctionInvocationInner", Combiner::FunctionInvocationInner(node))),
        expression(node.base),
    ) {
        Err(e) => Err(e),
        Ok(s1) => s1.push_evals(list_schedule(node.elems@)),
    }
}

/// `vs` put on the value stack, first to last.
pub open spec fn push_values(s: InterpreterView, vs: Seq<ValueView>) -> Result<
    InterpreterView,
    Fatal,
>
    decreases vs.len(),
{
    if vs.len() == 0 {
        Ok(s)
    } else {
        match push_values(s, vs.drop_last()) {
            Err(e) => Err(e),
            Ok(s1) => s1.push_value(vs.last()),
        }
    }
}

/// A call. The callee is on top of the value stack, the values of the
/// argument elements lie below it. An intrinsic finds its arguments on the
/// value stack when its step runs. A closure gets a function context whose
/// scope lies inside the scope it captured, with the arguments bound by its
/// parameter pattern, and its body is scheduled there.
pub open spec fn invocation_inner_step(node: Rc<FunctionInvocation>, s: InterpreterView) -> Result<
    InterpreterView,
    Fatal,
> {
    match s.pop_value() {
        Err(e) => Err(e),
        Ok((callee, s1)) => if !(callee is Intrinsic || callee is Closure) {
            Err(Fatal::NotCallable)
        } else {
            match s1.take_values(node.elems@.len()) {
                Err(e) => Err(e),
                Ok((values, s2)) => match spread_values(node.elems@, values) {
                    Err(e) => Err(e),
                    Ok(args) => match callee {
                        ValueView::Intrinsic(i) => if args.len() != i.arity() {
                            Err(Fatal::Arity)
                        } else {
                            then_eval(push_values(s2, args), i.body())
                        },
                        ValueView::Closure(c) => if !c.code.pattern.accepts(args.len()) {
                            Err(Fatal::Arity)
                        } else {
                            match bind_list(*c.code.pattern, args, Map::empty()) {
                                Err(e) => Err(e),
                                Ok(frame) => s2.push_fn_context(
                                    FunctionContextView::fresh(
                                        ScopeView {
                                            parent: Some(Box::new(c.parent_scope)),
                                            bindings: frame,
                                        },
                                    ),
                                ).push_eval(block(c.code.body)),
                            }
                        },
                        _ => Err(Fatal::NotCallable),
                    },
                },
            }
        },
    }
}

/// Whether a call comes to bind the arguments of a closure whose parameter
/// pattern asks for an argument to be held by nobody else: the callee is a
/// closure, the arguments are there and make a list that the pattern
/// accepts, and one of the parameters is a list pattern that meets a list,
/// or an object pattern that meets an object. The call of an intrinsic, and
/// of a closure whose parameters are names, asks nothing.
pub open spec fn call_takes_apart(node: Rc<FunctionInvocation>, s: InterpreterView) -> bool {
    match s.pop_value() {
        Err(_) => false,
        Ok((callee, s1)) => match callee {
            ValueView::Closure(c) => match s1.take_values(node.elems@.len()) {
                Err(_) => false,
                Ok((values, _)) => match spread_values(node.elems@, values) {
                    Err(_) => false,
                    Ok(args) => list_opens(*c.code.pattern, args),
                },
            },
            _ => false,
        },
    }
}

impl FunctionInvocation {
    /// Schedules the arguments, first to last, then the callee, then the
    /// call.
    pub fn eval(node: &Rc<FunctionInvocation>, machine: &mut Interpreter) -> (r: Result<(), Fatal>)
        ensures
            done(r, final(machine)@, invocation_step(*node, old(machine)@)),
    {
        machine.push_eval(
            Eval::Custom(
                Custom::new(
                    "FunctionInvocationInner",
                    Combiner::FunctionInvocationInner(node.clone()),
                ),
            ),
        )?;
        machine.push_eval(Eval::Expression(node.base.clone()))?;
        schedule_elems(&node.elems, machine)
    }

    pub fn short_name(&self) -> (r: &'static str)
        ensures
            r == "FunctionInvocation",
    {
        "FunctionInvocation"
    }
}

/// Puts `values` on the value stack, first to last.
fn push_all(machine: &mut Interpreter, values: Vec<Value>) -> (r: Result<(), Fatal>)
    ensures
        done(r, final(machine)@, push_values(old(machine)@, crate::value::values_view(values@))),
{
    let mut rest = values;
    let ghost given = crate::value::values_view(values@);
    let n = rest.len();
    let mut i: usize = 0;
    proof {
        assert(given.take(0) =~= Seq::empty());
    }
    while i < n
        invariant
            n == values@.len(),
            rest@.len() == n,
            given == crate::value::values_view(values@),
            0 <= i <= n,
            forall|j: int| i <= j < n ==> rest@[j] == values@[j],
            push_values(old(machine)@, given.take(i as int)) == Ok::<InterpreterView, Fatal>(
                machine@,
            ),
        decreases n - i,
    {
        proof {
            assert(given.take(i + 1).drop_last() =~= given.take(i as int));
            assert(given.take(i + 1).last() == values@[i as int]@);
        }
        let mut v = Value::Null;
        std::mem::swap(&mut v, &mut rest[i]);
        match machine.push_value(v) {
            Ok(()) => {},
            Err(e) => {
                proof {
                    lemma_push_values_error(old(machine)@, given, i + 1, e);
                }
                return Err(e);
            },
        }
        i += 1;
    }
    proof {
        assert(given.take(n as int) =~= given);
    }
    Ok(())
}

/// The first value that cannot be pushed decides the outcome.
pub proof fn lemma_push_values_error(s: InterpreterView, vs: Seq<ValueView>, k: int, e: Fatal)
    requires
        0 <= k <= vs.len(),
        push_values(s, vs.take(k)) == Err::<InterpreterView, Fatal>(e),
    ensures
        push_values(s, vs) == Err::<InterpreterView, Fatal>(e),
    decreases vs.len() - k,
{
    if k < vs.len() {
        assert(vs.take(k + 1).drop_last() =~= vs.take(k));
        lemma_push_values_error(s, vs, k + 1, e);
    } else {
        assert(vs.take(k) =~= vs);
    }
}

/// Calls the value on top of the value stack with the arguments below it.
pub fn invocation_inner(node: &Rc<FunctionInvocation>, machine: &mut Interpreter) -> (r: Result<
    (),
    Fatal,
>)
    ensures
        r == Err::<(), Fatal>(Fatal::Aliased) || done(
            r,
            final(machine)@,
            invocation_inner_step(*node, old(machine)@),
        ),
        r == Err::<(), Fatal>(Fatal::Aliased) ==> call_takes_apart(*node, old(machine)@),
{
    proof {
        lemma_combiner_step_sound(Combiner::FunctionInvocationInner(*node), machine@);
    }
    let callee = machine.pop_value()?;
    match callee {
        Value::Intrinsic(i) => {
            let values = machine.take_values(node.elems.len())?;
            let args = spread(&node.elems, values)?;
            if args.len() != i.num_parameters() {
                return Err(Fatal::Arity);
            }
            push_all(machine, args)?;
            machine.push_eval(i.code())
        },
        Value::Closure(c) => {
            let values = machine.take_values(node.elems.len())?;
            let args = spread(&node.elems, values)?;
            if !c.code.pattern.takes(args.len()) {
                return Err(Fatal::Arity);
            }
            let mut frame = Table::new();
            bind_items(&mut frame, &*c.code.pattern, args)?;
            let scope = Scope::with_bindings(Some(c.parent_scope.clone()), frame);
            machine.push_fn_context(FunctionContext::new(Rc::new(scope)));
            machine.push_eval(Eval::Block(c.code.body.clone()))
        },
        _ => Err(Fatal::NotCallable),
    }
}

} // verus!
