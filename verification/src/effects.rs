//! Effects: `handle`, `send`, `continue`, `break`, and the errors that are
//! raised as effects.
//!
//! `send` takes the current function context off the machine and wraps it,
//! with the symbol and the payload, into an effect value. That value is what
//! the function yields to its caller. A handler that receives it opens a
//! sub-context for the matching arm. `continue` abandons that sub-context
//! and puts the captured function context back; `break` abandons it and
//! yields a value in its place.

use crate::ast::{Break, Continue, Expression, Handle, LetPattern, SendExpr};
use crate::eval::{
    block, expression, BreakInner, CheckIntMin, CheckTypeInt, CheckTypeObject, ContinueInner,
    CreateHandler, Error, Eval, EvalView, Handler, HandlerView, LetInner, PopScope, PushScope,
    SendInner, WrapperFunction,
};
use crate::fatal::Fatal;
use crate::interpreter::{
    done, lemma_push_evals_empty, lemma_push_evals_push, then_eval, then_value, Interpreter,
    InterpreterView,
};
use crate::symbols::error_codes::{
    ERROR_LOOP, INT_MIN_NEGATION, TYPE_ERROR_INT, TYPE_ERROR_OBJECT,
};
use crate::symbols::ERROR;
use crate::value::{
    values_view, Effect, EffectView, KeyView, SubContext, SubContextType, SubContextTypeView,
    SubContextView, Table, Value, ValueView,
};
use std::rc::Rc;
use vstd::prelude::*;

verus! {

/// The instruction that looks `name` up.
pub open spec fn name(name: String) -> EvalView {
    expression(Rc::new(Expression::Ident(name)))
}

/// The instructions of a `handle` in the order in which they are pushed: the
/// step that installs the handler, then the names of the arms' symbols. The
/// names are looked up before anything of the operand runs.
pub open spec fn handle_schedule(node: Rc<Handle>) -> Seq<EvalView> {
    seq![EvalView::Step(Eval::CreateHandler(CreateHandler { node }))] + Seq::new(
        node.match_arms@.len(),
        |j: int| name(node.match_arms@[j].symbol),
    )
}

impl Handle {
    /// Schedules the lookup of the arms' symbols and the installing of the
    /// handler.
    pub fn eval(node: &Rc<Handle>, machine: &mut Interpreter) -> (r: Result<(), Fatal>)
        ensures
            done(r, final(machine)@, old(machine)@.push_evals(handle_schedule(*node))),
    {
        if !machine.is_live() {
            return Err(Fatal::NoContext);
        }
        let ghost start = machine@;
        let ghost all = handle_schedule(*node);
        proof {
            lemma_push_evals_empty(start);
            lemma_push_evals_push(start, Seq::empty(), all[0]);
            assert(Seq::<EvalView>::empty().push(all[0]) =~= all.take(1));
        }
        machine.push_eval(Eval::CreateHandler(CreateHandler { node: node.clone() }))?;
        let n = node.match_arms.len();
        let mut j: usize = 0;
        while j < n
            invariant
                n == node.match_arms@.len(),
                0 <= j <= n,
                start.has_sub(),
                all == handle_schedule(*node),
                start.push_evals(all.take(1 + j)) == Ok::<InterpreterView, Fatal>(machine@),
            decreases n - j,
        {
            let symbol = node.match_arms[j].symbol.clone();
            proof {
                lemma_push_evals_push(start, all.take(1 + j), name(symbol));
                assert(all.take(1 + j).push(name(symbol)) =~= all.take(2 + j));
            }
            machine.push_eval(Eval::Expression(Rc::new(Expression::Ident(symbol))))?;
            j += 1;
        }
        proof {
            assert(all.take(1 + n) =~= all);
        }
        Ok(())
    }

    pub fn short_name(&self) -> (r: &'static str)
        ensures
            r == "Handle",
    {
        "Handle"
    }
}

/// The symbols of the arms, first arm first, from the values that their
/// lookups left: the first arm's name was looked up last.
pub open spec fn arm_symbols(values: Seq<ValueView>) -> Seq<u64> {
    Seq::new(values.len(), |j: int| values[values.len() - 1 - j]->Symbol_0)
}

/// The handler is installed with the symbols that the arms' names stand for,
/// and the operand is set up to run in a function context of its own, so
/// that a `send` in it yields to this handler.
pub open spec fn create_handler_step(node: Rc<Handle>, s: InterpreterView) -> Result<
    InterpreterView,
    Fatal,
> {
    match s.take_values(node.match_arms@.len()) {
        Err(e) => Err(e),
        Ok((values, s1)) => if exists|j: int|
            0 <= j < values.len() && !((#[trigger] values[j]) is Symbol) {
            Err(Fatal::NotSymbol)
        } else {
            then_eval(
                s1.push_eval(
                    EvalView::Handler(HandlerView { symbols: arm_symbols(values), node: *node }),
                ),
                EvalView::Step(Eval::WrapperFunction(WrapperFunction { body: node.expr })),
            )
        },
    }
}

/// The symbols of the arms from the values that their lookups left.
fn symbols_of(values: &Vec<Value>) -> (r: Result<Vec<u64>, Fatal>)
    ensures
        match r {
            Ok(symbols) => {
                &&& forall|j: int|
                    0 <= j < values@.len() ==> (#[trigger] values_view(values@)[j]) is Symbol
                &&& symbols@ == arm_symbols(values_view(values@))
            },
            Err(e) => {
                &&& e == Fatal::NotSymbol
                &&& exists|j: int|
                    0 <= j < values_view(values@).len() && !((#[trigger] values_view(
                        values@,
                    )[j]) is Symbol)
            },
        },
{
    let n = values.len();
    let mut symbols: Vec<u64> = Vec::new();
    let mut j: usize = 0;
    while j < n
        invariant
            n == values@.len(),
            0 <= j <= n,
            symbols@.len() == j,
            forall|k: int| 0 <= k < j ==> (#[trigger] values@[n - 1 - k]) is Symbol,
            forall|k: int| 0 <= k < j ==> #[trigger] symbols@[k] == values@[n - 1 - k]->Symbol_0,
        decreases n - j,
    {
        match &values[n - 1 - j] {
            Value::Symbol(s) => {
                symbols.push(*s);
            },
            _ => {
                assert(!(values_view(values@)[n - 1 - j] is Symbol));
                return Err(Fatal::NotSymbol);
            },
        }
        j += 1;
    }
    proof {
        assert forall|k: int| 0 <= k < n implies (#[trigger] values_view(values@)[k]) is Symbol by {
            assert(values@[n - 1 - (n - 1 - k)] is Symbol);
        }
        assert(symbols@ =~= arm_symbols(values_view(values@)));
    }
    Ok(symbols)
}

impl CreateHandler {
    /// Takes the arms' symbols, installs the handler and schedules the
    /// operand.
    pub fn eval(&self, machine: &mut Interpreter) -> (r: Result<(), Fatal>)
        ensures
            done(r, final(machine)@, create_handler_step(self.node, old(machine)@)),
    {
        let n = self.node.match_arms.len();
        let values = machine.take_values(n)?;
        let symbols = symbols_of(&values)?;
        machine.push_eval(Eval::Handler(Rc::new(Handler { symbols, node: self.node.clone() })))?;
        machine.push_eval(Eval::WrapperFunction(WrapperFunction { body: self.node.expr.clone() }))
    }

    pub fn short_name(&self) -> (r: &'static str)
        ensures
            r == "CreateHandler",
    {
        "CreateHandler"
    }
}

/// The first arm from position `from` on whose symbol is `symbol`.
pub open spec fn find_arm(symbols: Seq<u64>, arms: nat, symbol: u64, from: nat) -> Option<nat>
    decreases symbols.len() - from,
{
    if from >= symbols.len() || from >= arms {
        None
    } else if symbols[from as int] == symbol {
        Some(from)
    } else {
        find_arm(symbols, arms, symbol, from + 1)
    }
}

/// A handler meets the value of its operand. A value that is no effect is
/// the handler's value. For an effect a sub-context is opened that keeps the
/// handler and the captured function context. Where an arm has the effect's
/// symbol, that arm runs in a scope of its own with the payload bound to its
/// parameter. Where none has, the effect is sent on from here, and
/// whatever comes back resumes the captured context.
pub open spec fn handler_step(h: HandlerView, s: InterpreterView) -> Result<InterpreterView, Fatal> {
    match s.pop_value() {
        Err(e) => Err(e),
        Ok((v, s1)) => match v {
            ValueView::Effect(e) => match s1.push_sub_context(
                SubContextView::fresh(SubContextTypeView::Handle(h, Box::new(e.ctx))),
            ) {
                Err(x) => Err(x),
                Ok(s2) => match find_arm(h.symbols, h.node.match_arms@.len(), e.symbol, 0) {
                    Some(j) => then_eval(
                        then_value(
                            then_eval(
                                then_eval(
                                    s2.push_eval(EvalView::Step(Eval::PopScope(PopScope))),
                                    block(h.node.match_arms@[j as int].block),
                                ),
                                EvalView::Step(
                                    Eval::LetInner(
                                        LetInner {
                                            pattern: Rc::new(
                                                LetPattern::Ident(
                                                    h.node.match_arms@[j as int].param,
                                                ),
                                            ),
                                        },
                                    ),
                                ),
                            ),
                            e.value,
                        ),
                        EvalView::Step(Eval::PushScope(PushScope)),
                    ),
                    None => then_value(
                        then_value(
                            then_eval(
                                s2.push_eval(EvalView::Step(Eval::ContinueInner(ContinueInner))),
                                EvalView::Step(Eval::SendInner(SendInner)),
                            ),
                            e.value,
                        ),
                        ValueView::Symbol(e.symbol),
                    ),
                },
            },
            _ => s1.push_value(v),
        },
    }
}

impl Handler {
    /// The position of the first arm for `symbol`.
    pub fn arm_for(&self, symbol: u64) -> (r: Option<usize>)
        ensures
            match r {
                Some(j) => j < self.node.match_arms@.len() && find_arm(
                    self.symbols@,
                    self.node.match_arms@.len(),
                    symbol,
                    0,
                ) == Some(j as nat),
                None => find_arm(self.symbols@, self.node.match_arms@.len(), symbol, 0) is None,
            },
    {
        let arms = self.node.match_arms.len();
        let mut j: usize = 0;
        while j < self.symbols.len() && j < arms
            invariant
                arms == self.node.match_arms@.len(),
                find_arm(self.symbols@, arms as nat, symbol, j as nat) == find_arm(
                    self.symbols@,
                    arms as nat,
                    symbol,
                    0,
                ),
            decreases self.symbols@.len() - j,
        {
            if self.symbols[j] == symbol {
                return Some(j);
            }
            j += 1;
        }
        None
    }

    /// Takes the value of the operand and handles it.
    pub fn eval(handler: &Rc<Handler>, machine: &mut Interpreter) -> (r: Result<(), Fatal>)
        ensures
            done(r, final(machine)@, handler_step(handler@, old(machine)@)),
    {
        let v = machine.pop_value()?;
        let effect = match v {
            Value::Effect(e) => e,
            other => {
                return machine.push_value(other);
            },
        };
        let Effect { symbol, value, ctx } = *effect;
        machine.push_sub_context(
            SubContext::new(SubContextType::Handle(handler.clone(), Box::new(ctx))),
        )?;
        match handler.arm_for(symbol) {
            Some(j) => {
                let arm = &handler.node.match_arms[j];
                machine.push_eval(Eval::PopScope(PopScope))?;
                machine.push_eval(Eval::Block(arm.block.clone()))?;
                machine.push_eval(
                    Eval::LetInner(
                        LetInner { pattern: Rc::new(LetPattern::Ident(arm.param.clone())) },
                    ),
                )?;
                machine.push_value(value)?;
                return machine.push_eval(Eval::PushScope(PushScope));
            },
            None => {},
        }
        machine.push_eval(Eval::ContinueInner(ContinueInner))?;
        machine.push_eval(Eval::SendInner(SendInner))?;
        machine.push_value(value)?;
        machine.push_value(Value::Symbol(symbol))
    }

    pub fn short_name(&self) -> (r: &'static str)
        ensures
            r == "Handler",
    {
        "Handler"
    }
}

/// The payload is scheduled, or `null` put in its place, then the lookup of the
/// symbol, on top of the step that sends.
pub open spec fn send_step(node: SendExpr, s: InterpreterView) -> Result<InterpreterView, Fatal> {
    let r = then_eval(s.push_eval(EvalView::Step(Eval::SendInner(SendInner))), name(node.symbol));
    match node.expr {
        Some(e) => then_eval(r, expression(e)),
        None => then_value(r, ValueView::Null),
    }
}

/// The symbol and the payload are taken off the value stack, the current
/// function context leaves the machine, and the effect that holds all three
/// is left on the value stack of the context below.
pub open spec fn send_inner_step(s: InterpreterView) -> Result<InterpreterView, Fatal> {
    match s.pop_value() {
        Err(e) => Err(e),
        Ok((symbol, s1)) => match symbol {
            ValueView::Symbol(n) => match s1.pop_value() {
                Err(e) => Err(e),
                Ok((v, s2)) => match s2.pop_fn_context() {
                    Err(e) => Err(e),
                    Ok((ctx, s3)) => s3.push_value(
                        ValueView::Effect(Box::new(EffectView { symbol: n, value: v, ctx })),
                    ),
                },
            },
            _ => Err(Fatal::NotSymbol),
        },
    }
}

impl SendExpr {
    /// Schedules the payload, the lookup of the symbol, and the sending.
    /// Without a payload expression the payload is `null`.
    pub fn eval(&self, machine: &mut Interpreter) -> (r: Result<(), Fatal>)
        ensures
            done(r, final(machine)@, send_step(*self, old(machine)@)),
    {
        machine.push_eval(Eval::SendInner(SendInner))?;
        machine.push_eval(Eval::Expression(Rc::new(Expression::Ident(self.symbol.clone()))))?;
        match &self.expr {
            Some(e) => machine.push_eval(Eval::Expression(e.clone())),
            None => machine.push_value(Value::Null),
        }
    }

    pub fn short_name(&self) -> (r: &'static str)
        ensures
            r == "Send",
    {
        "Send"
    }
}

impl SendInner {
    /// Captures the current function context in an effect.
    pub fn eval(&self, machine: &mut Interpreter) -> (r: Result<(), Fatal>)
        ensures
            done(r, final(machine)@, send_inner_step(old(machine)@)),
    {
        let symbol = match machine.pop_value()? {
            Value::Symbol(n) => n,
            _ => {
                return Err(Fatal::NotSymbol);
            },
        };
        let value = machine.pop_value()?;
        let ctx = machine.pop_fn_context()?;
        machine.push_value(Value::Effect(Box::new(Effect { symbol, value, ctx })))
    }

    pub fn short_name(&self) -> (r: &'static str)
        ensures
            r == "SendInner",
    {
        "SendInner"
    }
}

/// The value is scheduled, or `null` put in its place, on top of the jump.
pub open spec fn continue_step(node: Continue, s: InterpreterView) -> Result<
    InterpreterView,
    Fatal,
> {
    let r = s.push_eval(EvalView::Step(Eval::ContinueInner(ContinueInner)));
    match node.expr {
        Some(e) => then_eval(r, expression(e)),
        None => then_value(r, ValueView::Null),
    }
}

/// The current sub-context is abandoned. After a handler's arm the handler
/// is installed again, the captured function context comes back on the
/// machine, and the value is what its `send` yields. In a loop the next
/// round starts and the value is dropped.
pub open spec fn continue_inner_step(s: InterpreterView) -> Result<InterpreterView, Fatal> {
    match s.pop_value() {
        Err(e) => Err(e),
        Ok((v, s1)) => match s1.pop_sub_context() {
            Err(e) => Err(e),
            Ok((sub, s2)) => match sub.typ {
                SubContextTypeView::Plain => Err(Fatal::BadJump),
                SubContextTypeView::Handle(h, ctx) => match s2.push_eval(EvalView::Handler(h)) {
                    Err(e) => Err(e),
                    Ok(s3) => s3.push_fn_context(*ctx).push_value(v),
                },
                SubContextTypeView::Loop(l) => s2.push_eval(
                    EvalView::Step(Eval::LoopContext(Rc::new(l))),
                ),
            },
        },
    }
}

impl Continue {
    /// Schedules the value and the jump. Without an expression the value is
    /// `null`.
    pub fn eval(&self, machine: &mut Interpreter) -> (r: Result<(), Fatal>)
        ensures
            done(r, final(machine)@, continue_step(*self, old(machine)@)),
    {
        machine.push_eval(Eval::ContinueInner(ContinueInner))?;
        match &self.expr {
            Some(e) => machine.push_eval(Eval::Expression(e.clone())),
            None => machine.push_value(Value::Null),
        }
    }

    pub fn short_name(&self) -> (r: &'static str)
        ensures
            r == "Continue",
    {
        "Continue"
    }
}

impl ContinueInner {
    /// Abandons the current sub-context and resumes what it interrupted.
    pub fn eval(&self, machine: &mut Interpreter) -> (r: Result<(), Fatal>)
        ensures
            done(r, final(machine)@, continue_inner_step(old(machine)@)),
    {
        let value = machine.pop_value()?;
        let sub = machine.pop_sub_context()?;
        match sub.typ {
            SubContextType::Plain => Err(Fatal::BadJump),
            SubContextType::Handle(handler, ctx) => {
                machine.push_eval(Eval::Handler(handler))?;
                machine.push_fn_context(*ctx);
                machine.push_value(value)
            },
            SubContextType::Loop(l) => machine.push_eval(Eval::LoopContext(l)),
        }
    }

    pub fn short_name(&self) -> (r: &'static str)
        ensures
            r == "ContinueInner",
    {
        "ContinueInner"
    }
}

/// The value is scheduled, or `null` put in its place, on top of the jump.
pub open spec fn break_step(node: Break, s: InterpreterView) -> Result<InterpreterView, Fatal> {
    let r = s.push_eval(EvalView::Step(Eval::BreakInner(BreakInner)));
    match node.expr {
        Some(e) => then_eval(r, expression(e)),
        None => then_value(r, ValueView::Null),
    }
}

/// The current sub-context is abandoned and the value becomes the value of
/// the loop or of the `handle`.
pub open spec fn break_inner_step(s: InterpreterView) -> Result<InterpreterView, Fatal> {
    match s.pop_value() {
        Err(e) => Err(e),
        Ok((v, s1)) => match s1.pop_sub_context() {
            Err(e) => Err(e),
            Ok((sub, s2)) => match sub.typ {
                SubContextTypeView::Plain => Err(Fatal::BadJump),
                _ => s2.push_value(v),
            },
        },
    }
}

impl Break {
    /// Schedules the value and the jump. Without an expression the value is
    /// `null`.
    pub fn eval(&self, machine: &mut Interpreter) -> (r: Result<(), Fatal>)
        ensures
            done(r, final(machine)@, break_step(*self, old(machine)@)),
    {
        machine.push_eval(Eval::BreakInner(BreakInner))?;
        match &self.expr {
            Some(e) => machine.push_eval(Eval::Expression(e.clone())),
            None => machine.push_value(Value::Null),
        }
    }

    pub fn short_name(&self) -> (r: &'static str)
        ensures
            r == "Break",
    {
        "Break"
    }
}

impl BreakInner {
    /// Abandons the current sub-context with a value.
    pub fn eval(&self, machine: &mut Interpreter) -> (r: Result<(), Fatal>)
        ensures
            done(r, final(machine)@, break_inner_step(old(machine)@)),
    {
        let value = machine.pop_value()?;
        let sub = machine.pop_sub_context()?;
        match sub.typ {
            SubContextType::Plain => Err(Fatal::BadJump),
            _ => machine.push_value(value),
        }
    }

    pub fn short_name(&self) -> (r: &'static str)
        ensures
            r == "BreakInner",
    {
        "BreakInner"
    }
}

/// The payload of an error effect: an object with the code under `code`.
pub open spec fn error_payload(code: u64) -> ValueView {
    ValueView::Object(
        Map::<KeyView, ValueView>::empty().insert(KeyView::Str("code"@), ValueView::Symbol(code)),
    )
}

/// The error is sent as an effect with the symbol `ERROR`.
pub open spec fn error_step(code: u64, s: InterpreterView) -> Result<InterpreterView, Fatal> {
    then_eval(
        then_value(s.push_value(error_payload(code)), ValueView::Symbol(ERROR)),
        EvalView::Step(Eval::SendInner(SendInner)),
    )
}

impl Error {
    /// Schedules the sending of the error.
    pub fn eval(&self, machine: &mut Interpreter) -> (r: Result<(), Fatal>)
        ensures
            done(r, final(machine)@, error_step(self.code, old(machine)@)),
    {
        let mut payload = Table::new();
        payload.insert_name("code".to_owned(), Value::Symbol(self.code));
        machine.push_value(Value::Object(Rc::new(payload)))?;
        machine.push_value(Value::Symbol(ERROR))?;
        machine.push_eval(Eval::SendInner(SendInner))
    }

    pub fn short_name(&self) -> (r: &'static str)
        ensures
            r == "Error",
    {
        "Error"
    }
}

/// A check that did not pass: the check is scheduled again for the value
/// that a handler may answer with, and the error is raised. The first
/// failure raises the check's own code, a repeated one `ERROR_LOOP`.
pub open spec fn check_failed(again: Eval, first: bool, code: u64, s: InterpreterView) -> Result<
    InterpreterView,
    Fatal,
> {
    then_eval(
        s.push_eval(EvalView::Step(again)),
        EvalView::Step(
            Eval::Error(
                Error {
                    code: if first {
                        code
                    } else {
                        ERROR_LOOP
                    },
                },
            ),
        ),
    )
}

/// An integer on top of the value stack stays there. For anything else the
/// check is scheduled again and `TYPE_ERROR_INT` is raised.
pub open spec fn check_type_int_step(first: bool, s: InterpreterView) -> Result<
    InterpreterView,
    Fatal,
> {
    match s.pop_value() {
        Err(e) => Err(e),
        Ok((v, s1)) => if v is Int {
            s1.push_value(v)
        } else {
            check_failed(
                Eval::CheckTypeInt(CheckTypeInt { first: false }),
                first,
                TYPE_ERROR_INT,
                s1,
            )
        },
    }
}

/// An integer that is not the least one stays on top of the value stack. For
/// the least one the check is scheduled again and `INT_MIN_NEGATION` is raised.
/// What is no integer at this point stops the machine.
pub open spec fn check_int_min_step(first: bool, s: InterpreterView) -> Result<
    InterpreterView,
    Fatal,
> {
    match s.pop_value() {
        Err(e) => Err(e),
        Ok((v, s1)) => match v {
            ValueView::Int(i) => if i != i64::MIN {
                s1.push_value(v)
            } else {
                check_failed(
                    Eval::CheckIntMin(CheckIntMin { first: false }),
                    first,
                    INT_MIN_NEGATION,
                    s1,
                )
            },
            _ => Err(Fatal::NotInt),
        },
    }
}

/// An object on top of the value stack stays there. For anything else the
/// check is scheduled again and `TYPE_ERROR_OBJECT` is raised.
pub open spec fn check_type_object_step(first: bool, s: InterpreterView) -> Result<
    InterpreterView,
    Fatal,
> {
    match s.pop_value() {
        Err(e) => Err(e),
        Ok((v, s1)) => if v is Object {
            s1.push_value(v)
        } else {
            check_failed(
                Eval::CheckTypeObject(CheckTypeObject { first: false }),
                first,
                TYPE_ERROR_OBJECT,
                s1,
            )
        },
    }
}

/// Schedules `again` and the raising of the error.
fn raise(again: Eval, first: bool, code: u64, machine: &mut Interpreter) -> (r: Result<(), Fatal>)
    requires
        !(again is Handler),
    ensures
        done(r, final(machine)@, check_failed(again, first, code, old(machine)@)),
{
    machine.push_eval(again)?;
    machine.push_eval(
        Eval::Error(
            Error::new(
                if first {
                    code
                } else {
                    ERROR_LOOP
                },
            ),
        ),
    )
}

impl CheckTypeInt {
    pub fn new() -> (c: CheckTypeInt)
        ensures
            c.first,
    {
        CheckTypeInt { first: true }
    }

    /// Lets an integer pass and raises an error for anything else.
    pub fn eval(&self, machine: &mut Interpreter) -> (r: Result<(), Fatal>)
        ensures
            done(r, final(machine)@, check_type_int_step(self.first, old(machine)@)),
    {
        let v = machine.pop_value()?;
        match v {
            Value::Int(_) => machine.push_value(v),
            _ => raise(
                Eval::CheckTypeInt(CheckTypeInt { first: false }),
                self.first,
                TYPE_ERROR_INT,
                machine,
            ),
        }
    }

    pub fn short_name(&self) -> (r: &'static str)
        ensures
            r == "CheckTypeInt",
    {
        "CheckTypeInt"
    }
}

impl CheckIntMin {
    pub fn new() -> (c: CheckIntMin)
        ensures
            c.first,
    {
        CheckIntMin { first: true }
    }

    /// Lets every integer but the least one pass and raises an error for
    /// that.
    pub fn eval(&self, machine: &mut Interpreter) -> (r: Result<(), Fatal>)
        ensures
            done(r, final(machine)@, check_int_min_step(self.first, old(machine)@)),
    {
        let v = machine.pop_value()?;
        match v {
            Value::Int(i) => {
                if i != i64::MIN {
                    machine.push_value(v)
                } else {
                    raise(
                        Eval::CheckIntMin(CheckIntMin { first: false }),
                        self.first,
                        INT_MIN_NEGATION,
                        machine,
                    )
                }
            },
            _ => Err(Fatal::NotInt),
        }
    }

    pub fn short_name(&self) -> (r: &'static str)
        ensures
            r == "CheckIntMin",
    {
        "CheckIntMin"
    }
}

impl CheckTypeObject {
    pub fn new() -> (c: CheckTypeObject)
        ensures
            c.first,
    {
        CheckTypeObject { first: true }
    }

    /// Lets an object pass and raises an error for anything else.
    pub fn eval(&self, machine: &mut Interpreter) -> (r: Result<(), Fatal>)
        ensures
            done(r, final(machine)@, check_type_object_step(self.first, old(machine)@)),
    {
        let v = machine.pop_value()?;
        match v {
            Value::Object(_) => machine.push_value(v),
            _ => raise(
                Eval::CheckTypeObject(CheckTypeObject { first: false }),
                self.first,
                TYPE_ERROR_OBJECT,
                machine,
            ),
        }
    }

    pub fn short_name(&self) -> (r: &'static str)
        ensures
            r == "CheckTypeObject",
    {
        "CheckTypeObject"
    }
}

} // verus!
