//! The drive loop: what each instruction does, one step of the machine, and
//! a run to the end of the program.

use crate::aggregates::{
    dot_inner, dot_inner_step, dot_step, index_inner, index_inner_step, index_step, list_inner,
    list_inner_step, list_step, object_inner, object_inner_step, object_step,
};
use crate::ast::{
    Assignment, Block, Expression, Function, FunctionInvocation, Handle, IfExpression, List,
    LocationChain, Object, Statement,
};
use crate::builtins::core_bindings;
use crate::calls::{
    call_takes_apart,
    function_step, invocation_inner, invocation_inner_step, invocation_step, wrapper_inner,
    wrapper_inner_step, wrapper_step,
};
use crate::control::{
    block_schedule, expression_statement_step, if_inner_step, if_step, ignore_value,
    ignore_value_step, let_inner_step, let_step, loop_body_step, loop_context_step, loop_step,
};
use crate::effects::{
    break_inner_step, break_step, check_int_min_step, check_type_int_step,
    check_type_object_step, continue_inner_step, continue_step, create_handler_step, error_step,
    handle_schedule, handler_step, send_inner_step, send_step,
};
use crate::eval::{Combiner, Custom, Eval, EvalView, Handler, LoopContext, WrapperFunction};
use crate::fatal::Fatal;
use crate::frame::lemma_tick_sound;
use crate::interpreter::{done, Interpreter, InterpreterView, SymbolGenerator};
use crate::intrinsics::intrinsic_bindings;
use crate::literals::{ident, ident_step, symbol, symbol_step};
use crate::location::{
    assignment_opens,
    assignment_inner, assignment_inner_step, assignment_step, location_chain_inner,
    location_chain_inner_step, location_chain_step,
};
use crate::operators::{
    boolean_inner, boolean_inner_step, boolean_step, comparison_inner, comparison_inner_step,
    comparison_step, negative_inner, negative_inner_step, negative_step, not_inner, not_inner_step,
    not_step, numeric_inner, numeric_inner_step, numeric_step,
};
use crate::value::{FunctionContext, FunctionContextView, ScopeView, Value, ValueView};
use std::rc::Rc;
use vstd::prelude::*;

verus! {

/// What evaluating an expression does to the machine at once: a literal or a
/// name leaves its value, every other expression schedules its parts.
pub open spec fn expression_step(e: Expression, s: InterpreterView) -> Result<
    InterpreterView,
    Fatal,
> {
    match e {
        Expression::Null(_) => s.push_value(ValueView::Null),
        Expression::Bool(b) => s.push_value(ValueView::Bool(b.0)),
        Expression::Int(i) => s.push_value(ValueView::Int(i.0)),
        Expression::Symbol => symbol_step(s),
        Expression::Ident(n) => ident_step(n@, s),
        Expression::Negative(n) => negative_step(n, s),
        Expression::Not(n) => not_step(n, s),
        Expression::Boolean(n) => boolean_step(n, s),
        Expression::Dot(n) => dot_step(n, s),
        Expression::Index(n) => index_step(n, s),
        Expression::Comparison(n) => comparison_step(n, s),
        Expression::Numeric(n) => numeric_step(n, s),
        Expression::If(n) => if_step(n, s),
        Expression::Loop(n) => loop_step(n, s),
        Expression::Function(n) => function_step(n, s),
        Expression::Block(b) => s.push_evals(block_schedule(&*b)),
        Expression::Invocation(n) => invocation_step(n, s),
        Expression::Object(n) => object_step(n, s),
        Expression::List(n) => list_step(n, s),
        Expression::Handle(n) => s.push_evals(handle_schedule(n)),
        Expression::Send(n) => send_step(n, s),
        Expression::Continue(n) => continue_step(n, s),
        Expression::Break(n) => break_step(n, s),
        Expression::Location(n) => location_chain_step(n, s),
    }
}

/// What running a statement does to the machine at once: it schedules its
/// parts.
pub open spec fn statement_step(st: Statement, s: InterpreterView) -> Result<
    InterpreterView,
    Fatal,
> {
    match st {
        Statement::Expression(e) => expression_statement_step(e, s),
        Statement::Let(l) => let_step(l, s),
        Statement::Assignment(a) => assignment_step(a, s),
    }
}

/// What a combining step does to the machine.
pub open spec fn combiner_step(c: Combiner, s: InterpreterView) -> Result<InterpreterView, Fatal> {
    match c {
        Combiner::ObjectInner(n) => object_inner_step(n, s),
        Combiner::ComparisonInner(op) => comparison_inner_step(op, s),
        Combiner::ListInner(n) => list_inner_step(n, s),
        Combiner::AssignmentInner(n) => assignment_inner_step(n, s),
        Combiner::NotInner => not_inner_step(s),
        Combiner::IgnoreValue => ignore_value_step(s),
        Combiner::NumericInner(op) => numeric_inner_step(op, s),
        Combiner::BooleanInner(op) => boolean_inner_step(op, s),
        Combiner::NegativeInner => negative_inner_step(s),
        Combiner::DotInner(prop) => dot_inner_step(prop, s),
        Combiner::IndexInner => index_inner_step(s),
        Combiner::FunctionInvocationInner(n) => invocation_inner_step(n, s),
        Combiner::WrapperFunctionInner => wrapper_inner_step(s),
        Combiner::LocationChainInner(n) => location_chain_inner_step(n, s),
        Combiner::IntrinsicSymbol => symbol_step(s),
    }
}

/// What an instruction does to the machine.
pub open spec fn eval_step(e: EvalView, s: InterpreterView) -> Result<InterpreterView, Fatal> {
    match e {
        EvalView::Handler(h) => handler_step(h, s),
        EvalView::Step(i) => match i {
            Eval::Expression(e) => expression_step(*e, s),
            Eval::Statement(st) => statement_step(*st, s),
            Eval::Block(b) => s.push_evals(block_schedule(&*b)),
            Eval::Custom(c) => combiner_step(c.function, s),
            Eval::IfInner(n) => if_inner_step(n, s),
            Eval::LoopBody(n) => loop_body_step(n, s),
            Eval::LoopContext(n) => loop_context_step(n, s),
            Eval::PopScope(_) => s.pop_scope(),
            Eval::PushScope(_) => s.push_scope(),
            Eval::LetInner(n) => let_inner_step(n, s),
            Eval::Error(n) => error_step(n.code, s),
            Eval::CreateHandler(n) => create_handler_step(n.node, s),
            Eval::Handler(h) => handler_step(h@, s),
            Eval::SendInner(_) => send_inner_step(s),
            Eval::ContinueInner(_) => continue_inner_step(s),
            Eval::BreakInner(_) => break_inner_step(s),
            Eval::WrapperFunction(n) => wrapper_step(n.body, s),
            Eval::CheckTypeInt(n) => check_type_int_step(n.first, s),
            Eval::CheckIntMin(n) => check_int_min_step(n.first, s),
            Eval::CheckTypeObject(n) => check_type_object_step(n.first, s),
        },
    }
}

/// Whether a combining step comes to change something in place, and so
/// asks for it to be held by one owner only: an assignment that has its
/// operands and starts from a name, and the call of a closure one of whose
/// parameters is a list pattern that is given a list, or an object pattern
/// that is given an object.
pub open spec fn combiner_needs_unique(c: Combiner, s: InterpreterView) -> bool {
    match c {
        Combiner::AssignmentInner(n) => assignment_opens(n, s),
        Combiner::FunctionInvocationInner(n) => call_takes_apart(n, s),
        _ => false,
    }
}

/// Whether an instruction, run on the machine `s`, comes to change a frame,
/// a list or an object in place, and so asks for it to be held by one owner
/// only: a binding that has its value, an assignment, and the call of a
/// closure one of whose parameters is a list pattern that is given a list,
/// or an object pattern that is given an object. The call of an intrinsic,
/// and of a closure whose parameters are names, asks nothing.
pub open spec fn needs_unique(e: EvalView, s: InterpreterView) -> bool {
    match e {
        EvalView::Step(Eval::LetInner(_)) => s.pop_value() is Ok,
        EvalView::Step(Eval::Custom(c)) => combiner_needs_unique(c.function, s),
        _ => false,
    }
}

/// Whether an instruction did what its model says, or stopped because
/// something it had to change in place was shared.
pub open spec fn stepped(
    r: Result<(), Fatal>,
    post: InterpreterView,
    e: EvalView,
    pre: InterpreterView,
) -> bool {
    (needs_unique(e, pre) && r == Err::<(), Fatal>(Fatal::Aliased)) || done(
        r,
        post,
        eval_step(e, pre),
    )
}

impl Expression {
    /// Does what evaluating the expression takes at once.
    pub fn eval(node: &Rc<Expression>, machine: &mut Interpreter) -> (r: Result<(), Fatal>)
        ensures
            done(r, final(machine)@, expression_step(**node, old(machine)@)),
    {
        match &**node {
            Expression::Null(n) => n.eval(machine),
            Expression::Bool(n) => n.eval(machine),
            Expression::Int(n) => n.eval(machine),
            Expression::Symbol => symbol(machine),
            Expression::Ident(n) => ident(n, machine),
            Expression::Negative(n) => n.eval(machine),
            Expression::Not(n) => n.eval(machine),
            Expression::Boolean(n) => n.eval(machine),
            Expression::Dot(n) => n.eval(machine),
            Expression::Index(n) => n.eval(machine),
            Expression::Comparison(n) => n.eval(machine),
            Expression::Numeric(n) => n.eval(machine),
            Expression::If(n) => IfExpression::eval(n, machine),
            Expression::Loop(n) => n.eval(machine),
            Expression::Function(n) => Function::eval(n, machine),
            Expression::Block(n) => Block::eval(n, machine),
            Expression::Invocation(n) => FunctionInvocation::eval(n, machine),
            Expression::Object(n) => Object::eval(n, machine),
            Expression::List(n) => List::eval(n, machine),
            Expression::Handle(n) => Handle::eval(n, machine),
            Expression::Send(n) => n.eval(machine),
            Expression::Continue(n) => n.eval(machine),
            Expression::Break(n) => n.eval(machine),
            Expression::Location(n) => LocationChain::eval(n, machine),
        }
    }
}

impl Statement {
    /// Schedules the statement.
    pub fn eval(node: &Rc<Statement>, machine: &mut Interpreter) -> (r: Result<(), Fatal>)
        ensures
            done(r, final(machine)@, statement_step(**node, old(machine)@)),
    {
        match &**node {
            Statement::Expression(n) => n.eval(machine),
            Statement::Let(n) => n.eval(machine),
            Statement::Assignment(n) => Assignment::eval(n, machine),
        }
    }
}

impl Custom {
    /// Runs the combining step.
    pub fn eval(&self, machine: &mut Interpreter) -> (r: Result<(), Fatal>)
        ensures
            (combiner_needs_unique(self.function, old(machine)@) && r == Err::<(), Fatal>(
                Fatal::Aliased,
            )) || done(r, final(machine)@, combiner_step(self.function, old(machine)@)),
    {
        match &self.function {
            Combiner::ObjectInner(n) => object_inner(n, machine),
            Combiner::ComparisonInner(op) => comparison_inner(*op, machine),
            Combiner::ListInner(n) => list_inner(n, machine),
            Combiner::AssignmentInner(n) => assignment_inner(n, machine),
            Combiner::NotInner => not_inner(machine),
            Combiner::IgnoreValue => ignore_value(machine),
            Combiner::NumericInner(op) => numeric_inner(*op, machine),
            Combiner::BooleanInner(op) => boolean_inner(*op, machine),
            Combiner::NegativeInner => negative_inner(machine),
            Combiner::DotInner(prop) => dot_inner(prop, machine),
            Combiner::IndexInner => index_inner(machine),
            Combiner::FunctionInvocationInner(n) => invocation_inner(n, machine),
            Combiner::WrapperFunctionInner => wrapper_inner(machine),
            Combiner::LocationChainInner(n) => location_chain_inner(n, machine),
            Combiner::IntrinsicSymbol => symbol(machine),
        }
    }
}

impl Eval {
    /// Runs the instruction.
    pub fn eval(self, machine: &mut Interpreter) -> (r: Result<(), Fatal>)
        ensures
            stepped(r, final(machine)@, self@, old(machine)@),
    {
        match self {
            Eval::Expression(n) => Expression::eval(&n, machine),
            Eval::Statement(n) => Statement::eval(&n, machine),
            Eval::Block(n) => Block::eval(&n, machine),
            Eval::Custom(n) => n.eval(machine),
            Eval::IfInner(n) => n.eval(machine),
            Eval::LoopBody(n) => n.eval(machine),
            Eval::LoopContext(n) => LoopContext::eval(&n, machine),
            Eval::PopScope(n) => n.eval(machine),
            Eval::PushScope(n) => n.eval(machine),
            Eval::LetInner(n) => n.eval(machine),
            Eval::Error(n) => n.eval(machine),
            Eval::CreateHandler(n) => n.eval(machine),
            Eval::Handler(n) => Handler::eval(&n, machine),
            Eval::SendInner(n) => n.eval(machine),
            Eval::ContinueInner(n) => n.eval(machine),
            Eval::BreakInner(n) => n.eval(machine),
            Eval::WrapperFunction(n) => n.eval(machine),
            Eval::CheckTypeInt(n) => n.eval(machine),
            Eval::CheckIntMin(n) => n.eval(machine),
            Eval::CheckTypeObject(n) => n.eval(machine),
        }
    }

    /// The name that traces show for the instruction.
    pub fn short_name(&self) -> (r: &'static str)
        ensures
            r == short_name_of(*self),
    {
        match self {
            Eval::Expression(_) => "Expression",
            Eval::Statement(_) => "Statement",
            Eval::Block(n) => n.short_name(),
            Eval::Custom(n) => n.short_name(),
            Eval::IfInner(n) => n.short_name(),
            Eval::LoopBody(n) => n.short_name(),
            Eval::LoopContext(n) => n.short_name(),
            Eval::PopScope(n) => n.short_name(),
            Eval::PushScope(n) => n.short_name(),
            Eval::LetInner(n) => n.short_name(),
            Eval::Error(n) => n.short_name(),
            Eval::CreateHandler(n) => n.short_name(),
            Eval::Handler(n) => n.short_name(),
            Eval::SendInner(n) => n.short_name(),
            Eval::ContinueInner(n) => n.short_name(),
            Eval::BreakInner(n) => n.short_name(),
            Eval::WrapperFunction(n) => n.short_name(),
            Eval::CheckTypeInt(n) => n.short_name(),
            Eval::CheckIntMin(n) => n.short_name(),
            Eval::CheckTypeObject(n) => n.short_name(),
        }
    }
}

/// The name that traces show for an instruction.
pub open spec fn short_name_of(e: Eval) -> &'static str {
    match e {
        Eval::Expression(_) => "Expression",
        Eval::Statement(_) => "Statement",
        Eval::Block(_) => "Block",
        Eval::Custom(c) => c.name,
        Eval::IfInner(_) => "IfInner",
        Eval::LoopBody(_) => "LoopBody",
        Eval::LoopContext(_) => "LoopContext",
        Eval::PopScope(_) => "PopScope",
        Eval::PushScope(_) => "PushScope",
        Eval::LetInner(_) => "LetInner",
        Eval::Error(_) => "Error",
        Eval::CreateHandler(_) => "CreateHandler",
        Eval::Handler(_) => "Handler",
        Eval::SendInner(_) => "SendInner",
        Eval::ContinueInner(_) => "ContinueInner",
        Eval::BreakInner(_) => "BreakInner",
        Eval::WrapperFunction(_) => "WrapperFunction",
        Eval::CheckTypeInt(_) => "CheckTypeInt",
        Eval::CheckIntMin(_) => "CheckIntMin",
        Eval::CheckTypeObject(_) => "CheckTypeObject",
    }
}

/// Where the machine stands after a step.
pub ghost enum Progress {
    /// There is more to do.
    Running(InterpreterView),
    /// The program has ended with this value, and the machine is left
    /// without any context.
    Finished(ValueView, InterpreterView),
}

/// A sub-context that has done all its instructions is left. It holds one
/// value, which is its result and goes to the sub-context below it; a
/// sub-context that ends with more than its result stops the machine. Where the function context has no sub-context left, it is left too,
/// and the result goes to the function context below. Where no function
/// context is left, the result is the program's.
pub open spec fn unwind(s: InterpreterView) -> Result<Progress, Fatal> {
    match s.pop_value() {
        Err(e) => Err(e),
        Ok((v, s1)) => if s1.sub().values.len() > 0 {
            Err(Fatal::Unbalanced)
        } else {
            unwind_with(v, s1)
        },
    }
}

/// A sub-context that yields `v` and holds nothing else is left.
pub open spec fn unwind_with(v: ValueView, s1: InterpreterView) -> Result<Progress, Fatal> {
    match s1.pop_sub_context() {
        Err(e) => Err(e),
        Ok((_, s2)) => if s2.ctx().sub_contexts.len() > 0 {
            match s2.push_value(v) {
                Err(e) => Err(e),
                Ok(s3) => Ok(Progress::Running(s3)),
            }
        } else {
            match s2.pop_fn_context() {
                Err(e) => Err(e),
                Ok((_, s3)) => if s3.contexts.len() == 0 {
                    Ok(Progress::Finished(v, s3))
                } else {
                    match s3.push_value(v) {
                        Err(e) => Err(e),
                        Ok(s4) => Ok(Progress::Running(s4)),
                    }
                },
            }
        },
    }
}

/// The number of sub-contexts of the current function context.
pub open spec fn open_sub_contexts(s: InterpreterView) -> nat {
    if s.contexts.len() > 0 {
        s.ctx().sub_contexts.len()
    } else {
        0
    }
}

/// What follows an instruction. As long as the current sub-context has
/// instructions, nothing. Once it has none it is left, and so is every
/// sub-context and function context that is left without instructions in
/// turn, each yielding its result to the one below.
pub open spec fn settle(s: InterpreterView) -> Result<Progress, Fatal>
    decreases s.contexts.len(), open_sub_contexts(s),
{
    if !s.has_sub() {
        Err(Fatal::NoContext)
    } else if s.sub().evals.len() > 0 {
        Ok(Progress::Running(s))
    } else {
        match unwind(s) {
            Ok(Progress::Running(s1)) => settle(s1),
            other => other,
        }
    }
}

/// One step of the machine: the next instruction of the current sub-context
/// runs, and what follows it is settled. Where the current sub-context has no
/// instruction, the step settles that.
#[verifier::opaque]
pub open spec fn tick(s: InterpreterView) -> Result<Progress, Fatal> {
    if s.has_sub() && s.sub().evals.len() == 0 {
        settle(s)
    } else {
        match s.pop_eval() {
            Err(e) => Err(e),
            Ok((e, s1)) => match eval_step(e, s1) {
                Err(x) => Err(x),
                Ok(s2) => settle(s2),
            },
        }
    }
}

/// The machine after at most `fuel` steps.
pub open spec fn run(s: InterpreterView, fuel: nat) -> Result<Progress, Fatal>
    decreases fuel,
{
    if fuel == 0 {
        Ok(Progress::Running(s))
    } else {
        match tick(s) {
            Err(e) => Err(e),
            Ok(Progress::Finished(v, s1)) => Ok(Progress::Finished(v, s1)),
            Ok(Progress::Running(s1)) => run(s1, (fuel - 1) as nat),
        }
    }
}

/// Whether one of the next `fuel` steps is an instruction that needs
/// something to be held by one owner only.
pub open spec fn reaches_unique(s: InterpreterView, fuel: nat) -> bool
    decreases fuel,
{
    fuel > 0 && ((s.pop_eval() matches Ok((e, s1)) && needs_unique(e, s1)) || match tick(s) {
        Ok(Progress::Running(s1)) => reaches_unique(s1, (fuel - 1) as nat),
        _ => false,
    })
}

/// Settling ends the program only by leaving the last context.
pub proof fn lemma_settle_facts(s: InterpreterView)
    ensures
        settle(s) matches Ok(Progress::Finished(_, s1)) ==> s1.contexts.len() == 0,
    decreases s.contexts.len(), open_sub_contexts(s),
{
    if s.has_sub() && s.sub().evals.len() == 0 {
        if let Ok(Progress::Running(s1)) = unwind(s) {
            lemma_settle_facts(s1);
        }
    }
}

/// A step ends the program only by leaving the last context.
pub proof fn lemma_tick_facts(s: InterpreterView)
    ensures
        tick(s) matches Ok(Progress::Finished(_, s1)) ==> s1.contexts.len() == 0,
{
    reveal(tick);
    lemma_settle_facts(s);
    if let Ok((e, s1)) = s.pop_eval() {
        if let Ok(s2) = eval_step(e, s1) {
            lemma_settle_facts(s2);
        }
    }
}

/// An instruction that needs something unshared and is next is also among
/// the next `fuel` instructions, for every `fuel` above zero.
pub proof fn lemma_reaches_unique_grows(s: InterpreterView, fuel: nat)
    requires
        reaches_unique(s, 1),
        fuel > 0,
    ensures
        reaches_unique(s, fuel),
{
    if let Ok(Progress::Running(s1)) = tick(s) {
        assert(!reaches_unique(s1, 0));
    }
}

/// The evaluation of `expression` as a program: it runs in a function
/// context of its own inside the machine's current scope.
pub open spec fn program(s: InterpreterView, expression: Rc<Expression>, fuel: nat) -> Result<
    Progress,
    Fatal,
> {
    match s.push_eval(EvalView::Step(Eval::WrapperFunction(WrapperFunction { body: expression }))) {
        Err(e) => Err(e),
        Ok(s1) => run(s1, fuel),
    }
}

/// Whether a step or a run ended as its model says.
pub open spec fn advanced(
    r: Result<Option<Value>, Fatal>,
    post: InterpreterView,
    want: Result<Progress, Fatal>,
) -> bool {
    match want {
        Ok(Progress::Running(s)) => r == Ok::<Option<Value>, Fatal>(None) && post == s,
        Ok(Progress::Finished(v, s)) => r is Ok && r->Ok_0 is Some && r->Ok_0->0@ == v && post == s,
        Err(e) => r == Err::<Option<Value>, Fatal>(e),
    }
}

impl InterpreterView {
    /// The scope that a program starts in: the core bindings inside the
    /// intrinsics.
    pub open spec fn root_scope() -> ScopeView {
        ScopeView {
            parent: Some(Box::new(ScopeView { parent: None, bindings: intrinsic_bindings() })),
            bindings: core_bindings(),
        }
    }

    /// The machine before anything has run.
    pub open spec fn initial() -> InterpreterView {
        InterpreterView {
            counter: 0,
            contexts: seq![FunctionContextView::fresh(InterpreterView::root_scope())],
        }
    }
}

impl Interpreter {
    /// A machine with one function context, whose scope holds the core
    /// bindings inside the intrinsics.
    pub fn new() -> (machine: Interpreter)
        ensures
            machine@ == InterpreterView::initial(),
    {
        let scope = crate::intrinsics::scope(None);
        let scope = crate::builtins::scope(Some(scope));
        let mut stack = Vec::new();
        stack.push(FunctionContext::new(scope));
        let machine = Interpreter { sym_gen: SymbolGenerator::new(), fn_context_stack: stack };
        assert(machine@.contexts =~= InterpreterView::initial().contexts);
        machine
    }

    /// Settles what follows an instruction.
    fn settle(&mut self) -> (r: Result<Option<Value>, Fatal>)
        ensures
            advanced(r, final(self)@, settle(old(self)@)),
    {
        loop
            invariant
                settle(self@) == settle(old(self)@),
            decreases self@.contexts.len(), open_sub_contexts(self@),
        {
            if !self.is_live() {
                return Err(Fatal::NoContext);
            }
            let n = self.fn_context_stack.len();
            let m = self.fn_context_stack[n - 1].sub_context_stack.len();
            if self.fn_context_stack[n - 1].sub_context_stack[m - 1].eval_stack.len() > 0 {
                return Ok(None);
            }
            let v = self.pop_value()?;
            let n = self.fn_context_stack.len();
            let m = self.fn_context_stack[n - 1].sub_context_stack.len();
            if self.fn_context_stack[n - 1].sub_context_stack[m - 1].value_stack.len() > 0 {
                return Err(Fatal::Unbalanced);
            }
            let _ = self.pop_sub_context()?;
            let n = self.fn_context_stack.len();
            if self.fn_context_stack[n - 1].sub_context_stack.len() > 0 {
                self.push_value(v)?;
            } else {
                let _ = self.pop_fn_context()?;
                if self.fn_context_stack.len() == 0 {
                    return Ok(Some(v));
                }
                self.push_value(v)?;
            }
        }
    }

    /// Runs one instruction. Yields the program's value once the last
    /// context has been left.
    pub fn step(&mut self) -> (r: Result<Option<Value>, Fatal>)
        ensures
            r == Err::<Option<Value>, Fatal>(Fatal::Aliased) || advanced(
                r,
                final(self)@,
                tick(old(self)@),
            ),
            r == Err::<Option<Value>, Fatal>(Fatal::Aliased) ==> reaches_unique(old(self)@, 1),
            r is Ok ==> final(self)@.counter >= old(self)@.counter,
    {
        reveal(tick);
        proof {
            lemma_tick_sound(self@);
        }
        if self.is_live() {
            let n = self.fn_context_stack.len();
            let m = self.fn_context_stack[n - 1].sub_context_stack.len();
            if self.fn_context_stack[n - 1].sub_context_stack[m - 1].eval_stack.len() == 0 {
                return self.settle();
            }
        }
        let e = self.pop_eval()?;
        e.eval(self)?;
        self.settle()
    }

    /// Runs at most `fuel` instructions. Yields the program's value if the
    /// program ended within them, and nothing if there is more to do.
    pub fn run(&mut self, fuel: u64) -> (r: Result<Option<Value>, Fatal>)
        ensures
            r == Err::<Option<Value>, Fatal>(Fatal::Aliased) || advanced(
                r,
                final(self)@,
                run(old(self)@, fuel as nat),
            ),
            r == Err::<Option<Value>, Fatal>(Fatal::Aliased) ==> reaches_unique(
                old(self)@,
                fuel as nat,
            ),
            r is Ok ==> final(self)@.counter >= old(self)@.counter,
            r is Ok && r->Ok_0 is Some ==> final(self)@.contexts.len() == 0,
    {
        let mut left = fuel;
        while left > 0
            invariant
                run(self@, left as nat) == run(old(self)@, fuel as nat),
                reaches_unique(self@, left as nat) ==> reaches_unique(old(self)@, fuel as nat),
                self@.counter >= old(self)@.counter,
            decreases left,
        {
            let ghost before = self@;
            proof {
                lemma_tick_facts(before);
            }
            match self.step() {
                Err(e) => {
                    proof {
                        if e == Fatal::Aliased {
                            lemma_reaches_unique_grows(before, left as nat);
                        }
                    }
                    return Err(e);
                },
                Ok(Some(v)) => {
                    return Ok(Some(v));
                },
                Ok(None) => {},
            }
            left -= 1;
        }
        Ok(None)
    }

    /// Evaluates `expression` as a program within `fuel` steps and yields its
    /// value. An effect that no handler took is the program's value like any
    /// other. A program that has not ended after `fuel` steps is given up,
    /// with the machine left where it stood.
    pub fn eval_within(&mut self, expression: Rc<Expression>, fuel: u64) -> (r: Result<
        Value,
        Fatal,
    >)
        ensures
            r == Err::<Value, Fatal>(Fatal::Aliased) ==> reaches_unique(
                old(self)@.push_eval(
                    EvalView::Step(Eval::WrapperFunction(WrapperFunction { body: expression })),
                )->Ok_0,
                fuel as nat,
            ),
            r is Ok ==> final(self)@.counter >= old(self)@.counter,
            r == Err::<Value, Fatal>(Fatal::Aliased) || match program(
                old(self)@,
                expression,
                fuel as nat,
            ) {
                Ok(Progress::Finished(v, s)) => r is Ok && r->Ok_0@ == v && final(self)@ == s
                    && s.contexts.len() == 0,
                Ok(Progress::Running(s)) => r == Err::<Value, Fatal>(Fatal::Exhausted)
                    && final(self)@ == s,
                Err(e) => r == Err::<Value, Fatal>(e),
            },
    {
        self.push_eval(Eval::WrapperFunction(WrapperFunction { body: expression }))?;
        match self.run(fuel)? {
            Some(v) => Ok(v),
            None => Err(Fatal::Exhausted),
        }
    }

    /// Evaluates `expression` as a program and yields its value. An effect
    /// that no handler took is the program's value like any other. A
    /// program that has not ended after `u64::MAX` steps is given up.
    pub fn eval(&mut self, expression: Rc<Expression>) -> (r: Result<Value, Fatal>)
        ensures
            r == Err::<Value, Fatal>(Fatal::Aliased) ==> reaches_unique(
                old(self)@.push_eval(
                    EvalView::Step(Eval::WrapperFunction(WrapperFunction { body: expression })),
                )->Ok_0,
                u64::MAX as nat,
            ),
            r is Ok ==> final(self)@.counter >= old(self)@.counter,
            r == Err::<Value, Fatal>(Fatal::Aliased) || match program(
                old(self)@,
                expression,
                u64::MAX as nat,
            ) {
                Ok(Progress::Finished(v, s)) => r is Ok && r->Ok_0@ == v && final(self)@ == s
                    && s.contexts.len() == 0,
                Ok(Progress::Running(s)) => r == Err::<Value, Fatal>(Fatal::Exhausted)
                    && final(self)@ == s,
                Err(e) => r == Err::<Value, Fatal>(e),
            },
    {
        self.eval_within(expression, u64::MAX)
    }
}

} // verus!
