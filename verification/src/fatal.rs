//! The conditions that end an evaluation for good.

use vstd::prelude::*;

verus! {

/// A condition that no handler can catch. Evaluation stops with it and the
/// interpreter is not to be used afterwards.
#[derive(Debug, Clone, Copy, PartialEq, Eq, Structural)]
pub enum Fatal {
    /// The function-context stack or a sub-context stack ran empty.
    NoContext,
    /// An instruction was due and the instruction stack was empty.
    NoInstruction,
    /// A value was due and the value stack was empty.
    NoValue,
    /// A sub-context ended with more than its result on its value stack.
    Unbalanced,
    /// A scope was closed that had no parent.
    NoScope,
    /// A name has no binding along the scope chain.
    Unresolved,
    /// A frame, list or object had to be held by one owner only and was shared.
    Aliased,
    /// A call passed a number of arguments that the callee does not take.
    Arity,
    /// A pattern met a value of the wrong kind.
    PatternKind,
    /// A list pattern met too few or too many items.
    PatternLength,
    /// An object pattern named a field that the object lacks.
    PatternField,
    /// An ordering was asked of values that have none.
    Comparison,
    /// A condition or a boolean operand was not a boolean.
    NotBool,
    /// An operand that had to be an integer at this point was not.
    NotInt,
    /// A list was needed: for `...` in a list or call, or to be indexed.
    NotList,
    /// An object was needed: for `...` in an object, or before a `.`
    NotObject,
    /// `continue` or `break` outside a loop and outside a handler.
    BadJump,
    /// An effect type that is not a symbol.
    NotSymbol,
    /// A call of something that is neither closure nor intrinsic.
    NotCallable,
    /// An object has no such key.
    MissingKey,
    /// A list index outside the list.
    OutOfRange,
    /// Division by zero.
    DivisionByZero,
    /// A quotient or a negation that no 64-bit integer holds.
    Overflow,
    /// An effect value was read from a place that keeps it.
    EffectCloned,
    /// The generator reached the reserved symbols.
    SymbolsExhausted,
    /// An assignment whose base is not a name.
    NotAssignable,
    /// An `if` without a condition.
    Malformed,
    /// The step budget ran out before the program ended.
    Exhausted,
}

} // verus!
