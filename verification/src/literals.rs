//! Literals and names: the expressions that yield a value in one step.

use crate::aggregates::cloned;
use crate::ast::{Bool, Int, Null};
use crate::fatal::Fatal;
use crate::interpreter::{done, Interpreter, InterpreterView};
use crate::value::{Value, ValueView};
use vstd::prelude::*;

verus! {

impl Null {
    /// Leaves `null`.
    pub fn eval(&self, machine: &mut Interpreter) -> (r: Result<(), Fatal>)
        ensures
            done(r, final(machine)@, old(machine)@.push_value(ValueView::Null)),
    {
        machine.push_value(Value::Null)
    }

    pub fn short_name(&self) -> (r: &'static str)
        ensures
            r == "LiteralNull",
    {
        "LiteralNull"
    }
}

impl Bool {
    /// Leaves the boolean.
    pub fn eval(&self, machine: &mut Interpreter) -> (r: Result<(), Fatal>)
        ensures
            done(r, final(machine)@, old(machine)@.push_value(ValueView::Bool(self.0))),
    {
        machine.push_value(Value::Bool(self.0))
    }

    pub fn short_name(&self) -> (r: &'static str)
        ensures
            r == "Bool",
    {
        "Bool"
    }
}

impl Int {
    /// Leaves the integer.
    pub fn eval(&self, machine: &mut Interpreter) -> (r: Result<(), Fatal>)
        ensures
            done(r, final(machine)@, old(machine)@.push_value(ValueView::Int(self.0))),
    {
        machine.push_value(Value::Int(self.0))
    }

    pub fn short_name(&self) -> (r: &'static str)
        ensures
            r == "Int",
    {
        "Int"
    }
}

/// A fresh symbol is minted and left on the value stack.
pub open spec fn symbol_step(s: InterpreterView) -> Result<InterpreterView, Fatal> {
    match s.gen_symbol() {
        Err(e) => Err(e),
        Ok((v, s1)) => s1.push_value(v),
    }
}

/// Mints a fresh symbol and leaves it.
pub fn symbol(machine: &mut Interpreter) -> (r: Result<(), Fatal>)
    ensures
        done(r, final(machine)@, symbol_step(old(machine)@)),
{
    let v = machine.gen_symbol()?;
    machine.push_value(v)
}

/// The value that `name` stands for is left on the value stack.
pub open spec fn ident_step(name: Seq<char>, s: InterpreterView) -> Result<InterpreterView, Fatal> {
    match s.resolve(name) {
        Err(e) => Err(e),
        Ok(v) => match cloned(v) {
            Err(e) => Err(e),
            Ok(v) => s.push_value(v),
        },
    }
}

/// Resolves `name` along the scope chain and leaves a handle on its value.
pub fn ident(name: &String, machine: &mut Interpreter) -> (r: Result<(), Fatal>)
    ensures
        done(r, final(machine)@, ident_step(name@, old(machine)@)),
{
    let v = machine.lookup(name)?;
    machine.push_value(v)
}

} // verus!
