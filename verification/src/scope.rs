//! The scope chain: frames of bindings linked to the scope around them.

use crate::value::{KeyView, Scope, ScopeView, Table, Value, ValueView};
use std::rc::Rc;
use vstd::prelude::*;

verus! {

impl ScopeView {
    /// What `name` stands for: the binding of the innermost frame that has
    /// one.
    pub open spec fn resolve(self, name: Seq<char>) -> Option<ValueView>
        decreases self,
    {
        if self.bindings.dom().contains(KeyView::Str(name)) {
            Some(self.bindings[KeyView::Str(name)])
        } else {
            match self.parent {
                None => None,
                Some(p) => p.resolve(name),
            }
        }
    }

    /// The scope with `name` bound to `v` in its own frame.
    pub open spec fn bind(self, name: Seq<char>, v: ValueView) -> ScopeView {
        ScopeView { bindings: self.bindings.insert(KeyView::Str(name), v), ..self }
    }
}

impl Scope {
    /// A scope without bindings and without a parent.
    pub fn new() -> (s: Scope)
        ensures
            s.parent is None,
            s@ == (ScopeView { parent: None, bindings: Map::empty() }),
    {
        Scope { parent: None, bindings: Table::new() }
    }

    /// A scope with the given frame.
    pub fn with_bindings(parent: Option<Rc<Scope>>, bindings: Table) -> (s: Scope)
        ensures
            s.parent == parent,
            s.bindings == bindings,
    {
        Scope { parent, bindings }
    }

    /// A fresh scope without bindings inside `parent`.
    pub fn extend(parent: Rc<Scope>) -> (s: Rc<Scope>)
        ensures
            s.parent == Some(parent),
            s@ == ScopeView::child_of(parent@),
    {
        Rc::new(Scope { parent: Some(parent), bindings: Table::new() })
    }

    /// Looks `name` up along the chain, innermost frame first.
    pub fn resolve_binding<'a>(scope: &'a Rc<Scope>, name: &String) -> (r: Option<&'a Value>)
        ensures
            match r {
                Some(v) => scope@.resolve(name@) == Some(v@),
                None => scope@.resolve(name@) is None,
            },
    {
        let mut cur: &'a Scope = &**scope;
        loop
            invariant
                cur@.resolve(name@) == scope@.resolve(name@),
            decreases cur,
        {
            match cur.bindings.get_name(name) {
                Some(v) => {
                    return Some(v);
                },
                None => {},
            }
            match &cur.parent {
                Some(p) => {
                    cur = &**p;
                },
                None => {
                    return None;
                },
            }
        }
    }

    /// Binds `name` in the scope's own frame, replacing what it was bound to
    /// there.
    pub fn bind(&mut self, name: String, value: Value)
        ensures
            final(self)@ == old(self)@.bind(name@, value@),
            final(self).parent == old(self).parent,
    {
        self.bindings.insert_name(name, value);
    }
}

} // verus!
