//! Equality of values.
//!
//! Two values are equal when they are of the same kind and hold equal
//! payloads. Lists are compared item by item and objects key by key. A
//! closure and an effect are equal to nothing, themselves included.

use crate::table::lemma_entries_dom;
use crate::value::{values_view, KeyView, Table, Value, ValueView};
use vstd::prelude::*;

verus! {

/// Whether two values are equal in the language's sense.
pub open spec fn value_eq(a: ValueView, b: ValueView) -> bool
    decreases a,
{
    match (a, b) {
        (ValueView::Null, ValueView::Null) => true,
        (ValueView::Bool(x), ValueView::Bool(y)) => x == y,
        (ValueView::Int(x), ValueView::Int(y)) => x == y,
        (ValueView::Symbol(x), ValueView::Symbol(y)) => x == y,
        (ValueView::Intrinsic(x), ValueView::Intrinsic(y)) => x == y,
        (ValueView::List(x), ValueView::List(y)) => {
            &&& x.len() == y.len()
            &&& forall|i: int| 0 <= i < x.len() ==> value_eq(#[trigger] x[i], y[i])
        },
        (ValueView::Object(x), ValueView::Object(y)) => {
            &&& x.dom() =~= y.dom()
            &&& forall|k: KeyView| #[trigger] x.dom().contains(k) ==> value_eq(x[k], y[k])
        },
        _ => false,
    }
}

/// Whether a value holds a closure or an effect, at any depth.
pub open spec fn has_identity(v: ValueView) -> bool
    decreases v,
{
    match v {
        ValueView::Closure(_) => true,
        ValueView::Effect(_) => true,
        ValueView::List(x) => exists|i: int| 0 <= i < x.len() && has_identity(#[trigger] x[i]),
        ValueView::Object(x) => exists|k: KeyView| #[trigger] x.dom().contains(k) && has_identity(x[k]),
        _ => false,
    }
}

/// Every value that holds no closure and no effect is equal to itself.
pub proof fn lemma_value_eq_reflexive(v: ValueView)
    requires
        !has_identity(v),
    ensures
        value_eq(v, v),
    decreases v,
{
    match v {
        ValueView::List(x) => {
            assert forall|i: int| 0 <= i < x.len() implies value_eq(#[trigger] x[i], x[i]) by {
                lemma_value_eq_reflexive(x[i]);
            }
        },
        ValueView::Object(x) => {
            assert forall|k: KeyView| #[trigger] x.dom().contains(k) implies value_eq(x[k], x[k]) by {
                lemma_value_eq_reflexive(x[k]);
            }
        },
        _ => {},
    }
}

/// A closure and an effect are equal to nothing.
pub proof fn lemma_identity_never_equal(a: ValueView, b: ValueView)
    requires
        a is Closure || a is Effect || b is Closure || b is Effect,
    ensures
        !value_eq(a, b),
{
}

impl Value {
    /// Whether `self` and `other` are equal in the language's sense.
    pub fn equals(&self, other: &Value) -> (r: bool)
        ensures
            r == value_eq(self@, other@),
        decreases *self, 1nat,
    {
        match (self, other) {
            (Value::Null, Value::Null) => true,
            (Value::Bool(a), Value::Bool(b)) => *a == *b,
            (Value::Int(a), Value::Int(b)) => *a == *b,
            (Value::Symbol(a), Value::Symbol(b)) => *a == *b,
            (Value::Intrinsic(a), Value::Intrinsic(b)) => *a == *b,
            (Value::List(a), Value::List(b)) => list_equals(&**a, &**b),
            (Value::Object(a), Value::Object(b)) => table_equals(&**a, &**b),
            _ => false,
        }
    }
}

/// Whether two lists hold equal items in the same order.
fn list_equals(a: &Vec<Value>, b: &Vec<Value>) -> (r: bool)
    ensures
        r == value_eq(ValueView::List(values_view(a@)), ValueView::List(values_view(b@))),
    decreases *a, 0nat,
{
    if a.len() != b.len() {
        return false;
    }
    let mut i: usize = 0;
    while i < a.len()
        invariant
            a@.len() == b@.len(),
            0 <= i <= a@.len(),
            forall|j: int| 0 <= j < i ==> value_eq(#[trigger] values_view(a@)[j], values_view(b@)[j]),
        decreases a@.len() - i,
    {
        if !a[i].equals(&b[i]) {
            assert(!value_eq(values_view(a@)[i as int], values_view(b@)[i as int]));
            return false;
        }
        i += 1;
    }
    true
}

/// Whether two tables hold the same keys with equal values.
fn table_equals(a: &Table, b: &Table) -> (r: bool)
    ensures
        r == value_eq(ValueView::Object(a@), ValueView::Object(b@)),
    decreases *a, 0nat,
{
    let mut i: usize = 0;
    while i < a.entries.len()
        invariant
            0 <= i <= a.entries@.len(),
            forall|j: int|
                0 <= j < i ==> {
                    &&& b@.dom().contains((#[trigger] a.entries@[j]).0@)
                    &&& value_eq(a@[a.entries@[j].0@], b@[a.entries@[j].0@])
                },
        decreases a.entries@.len() - i,
    {
        proof {
            lemma_entries_dom(a.entries@, a.entries@[i as int].0@);
        }
        let at = match a.find(&a.entries[i].0) {
            Some(at) => at,
            None => {
                return false;
            },
        };
        match b.find(&a.entries[i].0) {
            None => {
                return false;
            },
            Some(bt) => {
                if !a.entries[at].1.equals(&b.entries[bt].1) {
                    assert(!value_eq(a@[a.entries@[i as int].0@], b@[a.entries@[i as int].0@]));
                    return false;
                }
            },
        }
        i += 1;
    }
    let mut j: usize = 0;
    while j < b.entries.len()
        invariant
            0 <= j <= b.entries@.len(),
            forall|k: int| 0 <= k < j ==> a@.dom().contains((#[trigger] b.entries@[k]).0@),
        decreases b.entries@.len() - j,
    {
        proof {
            lemma_entries_dom(b.entries@, b.entries@[j as int].0@);
        }
        if a.find(&b.entries[j].0).is_none() {
            return false;
        }
        j += 1;
    }
    proof {
        assert forall|k: KeyView| #[trigger] a@.dom().contains(k) implies b@.dom().contains(k) && value_eq(
            a@[k],
            b@[k],
        ) by {
            lemma_entries_dom(a.entries@, k);
            let at = choose|at: int| 0 <= at < a.entries@.len() && (#[trigger] a.entries@[at]).0@ == k;
            assert(b@.dom().contains(a.entries@[at].0@));
        }
        assert forall|k: KeyView| #[trigger] b@.dom().contains(k) implies a@.dom().contains(k) by {
            lemma_entries_dom(b.entries@, k);
            let bt = choose|bt: int| 0 <= bt < b.entries@.len() && (#[trigger] b.entries@[bt]).0@ == k;
            assert(a@.dom().contains(b.entries@[bt].0@));
        }
    }
    true
}

impl PartialEq for Value {
    fn eq(&self, other: &Value) -> (r: bool) {
        self.equals(other)
    }
}

impl vstd::std_specs::cmp::PartialEqSpecImpl for Value {
    open spec fn obeys_eq_spec() -> bool {
        true
    }

    open spec fn eq_spec(&self, other: &Value) -> bool {
        value_eq(self@, other@)
    }
}

} // verus!
