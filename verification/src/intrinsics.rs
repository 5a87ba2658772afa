//! The built-in callables.

use crate::eval::{custom, Combiner, EvalView};
use crate::value::{KeyView, Scope, Table, Value, ValueView};
use std::rc::Rc;
use vstd::prelude::*;

verus! {

/// A built-in callable, identified by its tag.
#[derive(Debug, Clone, Copy, PartialEq, Eq, Structural)]
pub enum Intrinsic {
    /// `symbol()`: a fresh symbol.
    Symbol,
}

impl Intrinsic {
    /// The number of arguments that the intrinsic takes.
    pub open spec fn arity(self) -> nat {
        match self {
            Intrinsic::Symbol => 0,
        }
    }

    /// The model of the step that does the intrinsic's work.
    pub open spec fn body(self) -> EvalView {
        match self {
            Intrinsic::Symbol => custom("IntrinsicSymbol", Combiner::IntrinsicSymbol),
        }
    }

    /// The number of arguments that the intrinsic takes.
    pub fn num_parameters(self) -> (n: usize)
        ensures
            n == self.arity(),
    {
        match self {
            Intrinsic::Symbol => 0,
        }
    }
}

/// The frame that names the intrinsics.
pub open spec fn intrinsic_bindings() -> Map<KeyView, ValueView> {
    Map::<KeyView, ValueView>::empty().insert(
        KeyView::Str("symbol"@),
        ValueView::Intrinsic(Intrinsic::Symbol),
    )
}

/// A scope inside `parent` that names the intrinsics.
pub fn scope(parent: Option<Rc<Scope>>) -> (s: Rc<Scope>)
    ensures
        s.parent == parent,
        s@.bindings == intrinsic_bindings(),
{
    let mut bindings = Table::new();
    bindings.insert_name("symbol".to_owned(), Value::Intrinsic(Intrinsic::Symbol));
    Rc::new(Scope::with_bindings(parent, bindings))
}

} // verus!
