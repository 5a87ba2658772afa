//! The bindings that every program starts with, besides the intrinsics.

use crate::symbols::error_codes::{
    ERROR_LOOP, INT_MIN_NEGATION, TYPE_ERROR_INT, TYPE_ERROR_OBJECT,
};
use crate::symbols::ERROR;
use crate::value::{KeyView, Scope, Table, Value, ValueView};
use std::rc::Rc;
use vstd::prelude::*;

verus! {

/// The object that names the error codes.
pub open spec fn error_codes() -> Map<KeyView, ValueView> {
    Map::<KeyView, ValueView>::empty().insert(
        KeyView::Str("type_error_int"@),
        ValueView::Symbol(TYPE_ERROR_INT),
    ).insert(KeyView::Str("error_loop"@), ValueView::Symbol(ERROR_LOOP)).insert(
        KeyView::Str("int_min_negation"@),
        ValueView::Symbol(INT_MIN_NEGATION),
    ).insert(KeyView::Str("type_error_object"@), ValueView::Symbol(TYPE_ERROR_OBJECT))
}

/// The frame of core bindings: `error` is the symbol of the error effect,
/// `errors` the object that names the error codes.
pub open spec fn core_bindings() -> Map<KeyView, ValueView> {
    Map::<KeyView, ValueView>::empty().insert(
        KeyView::Str("error"@),
        ValueView::Symbol(ERROR),
    ).insert(KeyView::Str("errors"@), ValueView::Object(error_codes()))
}

/// A scope inside `parent` with the core bindings.
pub fn scope(parent: Option<Rc<Scope>>) -> (s: Rc<Scope>)
    ensures
        s.parent == parent,
        s@.bindings == core_bindings(),
{
    let mut codes = Table::new();
    codes.insert_name("type_error_int".to_owned(), Value::Symbol(TYPE_ERROR_INT));
    codes.insert_name("error_loop".to_owned(), Value::Symbol(ERROR_LOOP));
    codes.insert_name("int_min_negation".to_owned(), Value::Symbol(INT_MIN_NEGATION));
    codes.insert_name("type_error_object".to_owned(), Value::Symbol(TYPE_ERROR_OBJECT));
    let mut bindings = Table::new();
    bindings.insert_name("error".to_owned(), Value::Symbol(ERROR));
    bindings.insert_name("errors".to_owned(), Value::Object(Rc::new(codes)));
    Rc::new(Scope::with_bindings(parent, bindings))
}

} // verus!
