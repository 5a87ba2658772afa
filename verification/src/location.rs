//! Location chains: reading what a chain of `.field` and `[index]` parts
//! leads to, and assigning to it.
//!
//! Reading goes through shared values freely. Assigning needs every frame on
//! the way to the binding, and every list and object on the way to the slot,
//! to be held by one owner only. Nothing is copied to make it so.

use crate::aggregates::{
    cloned, get_index, get_key, read_index, read_key, share, wrap_list_index, wrapped_index,
};
use crate::ast::{Assignment, DotLocation, IndexLocation, Location, LocationChain, LocationChainBase};
use crate::eval::{custom, expression, Combiner, Custom, Eval, EvalView};
use crate::fatal::Fatal;
use crate::frame::lemma_assign_scope_sound;
use crate::interpreter::{
    done, lemma_push_evals_empty, lemma_push_evals_push, lemma_view_with_ctx, then_eval,
    Interpreter, InterpreterView,
};
use crate::table::lemma_entries_update;
use crate::value::{
    values_view, FunctionContext, KeyView, Scope, ScopeView, Table, Value, ValueView,
};
use std::rc::Rc;
use vstd::prelude::*;

verus! {

/// The instructions that evaluate the index expressions of a chain, in the
/// order in which they are pushed: the first part's index is evaluated first.
pub open spec fn index_schedule(parts: Seq<Location>) -> Seq<EvalView>
    decreases parts.len(),
{
    if parts.len() == 0 {
        Seq::empty()
    } else {
        index_schedule(parts.skip(1)) + match parts[0] {
            Location::Dot(_) => Seq::empty(),
            Location::Index(i) => seq![expression(i.index)],
        }
    }
}

/// The number of `[index]` parts.
pub open spec fn index_count(parts: Seq<Location>) -> nat
    decreases parts.len(),
{
    if parts.len() == 0 {
        0
    } else {
        index_count(parts.skip(1)) + match parts[0] {
            Location::Dot(_) => 0nat,
            Location::Index(_) => 1nat,
        }
    }
}

/// What the parts lead to from `v`. `idxs` holds the values of the index
/// expressions, first part first.
pub open spec fn walk(v: ValueView, parts: Seq<Location>, idxs: Seq<ValueView>) -> Result<
    ValueView,
    Fatal,
>
    decreases parts.len(),
{
    if parts.len() == 0 {
        Ok(v)
    } else {
        match parts[0] {
            Location::Dot(d) => match read_key(v, d.prop@) {
                Err(e) => Err(e),
                Ok(x) => walk(x, parts.skip(1), idxs),
            },
            Location::Index(_) => if idxs.len() == 0 {
                Err(Fatal::NoValue)
            } else {
                match read_index(v, idxs[0]) {
                    Err(e) => Err(e),
                    Ok(x) => walk(x, parts.skip(1), idxs.skip(1)),
                }
            },
        }
    }
}

/// `v` with `new` in the slot that the parts lead to.
pub open spec fn assign_value(
    v: ValueView,
    parts: Seq<Location>,
    idxs: Seq<ValueView>,
    new: ValueView,
) -> Result<ValueView, Fatal>
    decreases parts.len(),
{
    if parts.len() == 0 {
        Ok(new)
    } else {
        match parts[0] {
            Location::Dot(d) => match read_key(v, d.prop@) {
                Err(e) => Err(e),
                Ok(x) => match assign_value(x, parts.skip(1), idxs, new) {
                    Err(e) => Err(e),
                    Ok(y) => Ok(ValueView::Object(v->Object_0.insert(KeyView::Str(d.prop@), y))),
                },
            },
            Location::Index(_) => if idxs.len() == 0 {
                Err(Fatal::NoValue)
            } else {
                match read_index(v, idxs[0]) {
                    Err(e) => Err(e),
                    Ok(x) => match assign_value(x, parts.skip(1), idxs.skip(1), new) {
                        Err(e) => Err(e),
                        Ok(y) => Ok(
                            ValueView::List(
                                v->List_0.update(
                                    wrapped_index(v->List_0.len(), idxs[0]->Int_0)->0 as int,
                                    y,
                                ),
                            ),
                        ),
                    },
                }
            },
        }
    }
}

/// The scope chain with `new` in the slot that the parts lead to from the
/// innermost binding of `name`.
pub open spec fn assign_scope(
    s: ScopeView,
    name: Seq<char>,
    parts: Seq<Location>,
    idxs: Seq<ValueView>,
    new: ValueView,
) -> Result<ScopeView, Fatal>
    decreases s,
{
    if s.bindings.dom().contains(KeyView::Str(name)) {
        match assign_value(s.bindings[KeyView::Str(name)], parts, idxs, new) {
            Err(e) => Err(e),
            Ok(y) => Ok(ScopeView { bindings: s.bindings.insert(KeyView::Str(name), y), ..s }),
        }
    } else {
        match s.parent {
            None => Err(Fatal::Unresolved),
            Some(p) => match assign_scope(*p, name, parts, idxs, new) {
                Err(e) => Err(e),
                Ok(q) => Ok(ScopeView { parent: Some(Box::new(q)), ..s }),
            },
        }
    }
}

impl DotLocation {
    /// A field has no index expression to schedule.
    pub fn push_exprs(&self, machine: &mut Interpreter) -> (r: Result<(), Fatal>)
        ensures
            r is Ok,
            final(machine)@ == old(machine)@,
    {
        Ok(())
    }

    /// The field of `base`.
    pub fn resolve<'a>(&self, base: &'a Value) -> (r: Result<&'a Value, Fatal>)
        ensures
            match read_key(base@, self.prop@) {
                Ok(x) => r is Ok && r->Ok_0@ == x,
                Err(e) => r == Err::<&Value, Fatal>(e),
            },
    {
        get_key(base, &self.prop)
    }

    /// Finds the field's entry in a table that the caller holds alone: the
    /// table as it was, and the position of the entry that counts.
    pub fn locate(&self, table: Table) -> (r: Result<(Table, usize), Fatal>)
        ensures
            match r {
                Ok((t, i)) => {
                    &&& table@.dom().contains(KeyView::Str(self.prop@))
                    &&& t == table
                    &&& i < t.entries@.len()
                    &&& t.entries@[i as int].0@ == KeyView::Str(self.prop@)
                    &&& t.entries@[i as int].1@ == table@[KeyView::Str(self.prop@)]
                    &&& crate::table::absent_after(t.entries@, KeyView::Str(self.prop@), i as int)
                },
                Err(e) => e == Fatal::MissingKey && !table@.dom().contains(
                    KeyView::Str(self.prop@),
                ),
            },
    {
        match table.find_name(&self.prop) {
            Some(i) => Ok((table, i)),
            None => Err(Fatal::MissingKey),
        }
    }

    /// Opens `base` for writing: its table, held by nobody else, and the
    /// position of the field's entry in it. What is no object is refused
    /// before its holders are asked for.
    pub fn resolve_mut(&self, base: Value) -> (r: Result<(Table, usize), Fatal>)
        ensures
            r == Err::<(Table, usize), Fatal>(Fatal::Aliased) || match read_key(
                base@,
                self.prop@,
            ) {
                Ok(x) => {
                    &&& r is Ok
                    &&& base@ == ValueView::Object(r->Ok_0.0@)
                    &&& r->Ok_0.1 < r->Ok_0.0.entries@.len()
                    &&& r->Ok_0.0.entries@[r->Ok_0.1 as int].0@ == KeyView::Str(self.prop@)
                    &&& r->Ok_0.0.entries@[r->Ok_0.1 as int].1@ == x
                    &&& crate::table::absent_after(
                        r->Ok_0.0.entries@,
                        KeyView::Str(self.prop@),
                        r->Ok_0.1 as int,
                    )
                },
                Err(e) => r == Err::<(Table, usize), Fatal>(e),
            },
            r == Err::<(Table, usize), Fatal>(Fatal::Aliased) ==> base is Object,
            !(base is Object) <==> r == Err::<(Table, usize), Fatal>(Fatal::NotObject),
    {
        match base {
            Value::Object(rc) => match Rc::try_unwrap(rc) {
                Err(_) => Err(Fatal::Aliased),
                Ok(table) => self.locate(table),
            },
            _ => Err(Fatal::NotObject),
        }
    }
}

impl IndexLocation {
    /// Schedules the index expression.
    pub fn push_exprs(&self, machine: &mut Interpreter) -> (r: Result<(), Fatal>)
        ensures
            done(r, final(machine)@, old(machine)@.push_eval(expression(self.index))),
    {
        machine.push_eval(Eval::Expression(self.index.clone()))
    }

    /// The item of `base` at `index`.
    pub fn resolve<'a>(&self, index: &Value, base: &'a Value) -> (r: Result<&'a Value, Fatal>)
        ensures
            match read_index(base@, index@) {
                Ok(x) => r is Ok && r->Ok_0@ == x,
                Err(e) => r == Err::<&Value, Fatal>(e),
            },
    {
        get_index(base, index)
    }

    /// Finds the position that `index` stands for in items that the caller
    /// holds alone: the items as they were, and the position.
    pub fn locate(&self, index: i64, items: Vec<Value>) -> (r: Result<(Vec<Value>, usize), Fatal>)
        ensures
            match wrapped_index(items@.len(), index) {
                Some(at) => r is Ok && r->Ok_0.0 == items && r->Ok_0.1 == at,
                None => r == Err::<(Vec<Value>, usize), Fatal>(Fatal::OutOfRange),
            },
    {
        match wrap_list_index(items.len(), index) {
            Some(at) => Ok((items, at)),
            None => Err(Fatal::OutOfRange),
        }
    }

    /// Opens `base` for writing: its items, held by nobody else, and the
    /// position that `index` stands for. What is no list, and an index that
    /// is no integer, are refused before the list's holders are asked for.
    pub fn resolve_mut(&self, index: &Value, base: Value) -> (r: Result<(Vec<Value>, usize), Fatal>)
        ensures
            r == Err::<(Vec<Value>, usize), Fatal>(Fatal::Aliased) || match read_index(
                base@,
                index@,
            ) {
                Ok(x) => {
                    &&& r is Ok
                    &&& base@ == ValueView::List(values_view(r->Ok_0.0@))
                    &&& r->Ok_0.1 < r->Ok_0.0@.len()
                    &&& wrapped_index(r->Ok_0.0@.len(), index@->Int_0) == Some(r->Ok_0.1 as nat)
                    &&& r->Ok_0.0@[r->Ok_0.1 as int]@ == x
                },
                Err(e) => r == Err::<(Vec<Value>, usize), Fatal>(e),
            },
            r == Err::<(Vec<Value>, usize), Fatal>(Fatal::Aliased) ==> base is List && index is Int,
            !(base is List) <==> r == Err::<(Vec<Value>, usize), Fatal>(Fatal::NotList),
            base is List && !(index is Int) <==> r == Err::<(Vec<Value>, usize), Fatal>(
                Fatal::NotInt,
            ),
    {
        match base {
            Value::List(rc) => match index {
                Value::Int(i) => match Rc::try_unwrap(rc) {
                    Err(_) => Err(Fatal::Aliased),
                    Ok(items) => {
                        assert(values_view(items@).len() == items@.len());
                        proof {
                            if let Some(at) = wrapped_index(items@.len(), *i) {
                                assert(values_view(items@)[at as int] == items@[at as int]@);
                            }
                        }
                        self.locate(*i, items)
                    },
                },
                _ => Err(Fatal::NotInt),
            },
            _ => Err(Fatal::NotList),
        }
    }
}

impl Location {
    /// Schedules the part's index expression, if it has one.
    pub fn push_exprs(&self, machine: &mut Interpreter) -> (r: Result<(), Fatal>)
        ensures
            match self {
                Location::Dot(_) => r is Ok && final(machine)@ == old(machine)@,
                Location::Index(i) => done(
                    r,
                    final(machine)@,
                    old(machine)@.push_eval(expression(i.index)),
                ),
            },
    {
        match self {
            Location::Dot(d) => d.push_exprs(machine),
            Location::Index(i) => i.push_exprs(machine),
        }
    }
}

/// The number of `[index]` parts.
pub fn count_indices(parts: &Vec<Location>) -> (n: usize)
    ensures
        n == index_count(parts@),
{
    let len = parts.len();
    let mut n: usize = 0;
    let mut k: usize = 0;
    proof {
        assert(parts@.skip(len as int) =~= Seq::empty());
    }
    while k < len
        invariant
            len == parts@.len(),
            0 <= k <= len,
            n == index_count(parts@.skip(len - k)),
            n <= k,
        decreases len - k,
    {
        proof {
            assert(parts@.skip(len - k - 1).skip(1) =~= parts@.skip(len - k));
        }
        match &parts[len - 1 - k] {
            Location::Dot(_) => {},
            Location::Index(_) => {
                n += 1;
            },
        }
        k += 1;
    }
    proof {
        assert(parts@.skip(0) =~= parts@);
    }
    n
}

/// Schedules the index expressions of a chain.
pub fn schedule_indices(parts: &Vec<Location>, machine: &mut Interpreter) -> (r: Result<(), Fatal>)
    ensures
        done(r, final(machine)@, old(machine)@.push_evals(index_schedule(parts@))),
{
    if !machine.is_live() {
        return Err(Fatal::NoContext);
    }
    let ghost start = machine@;
    let len = parts.len();
    let mut k: usize = 0;
    proof {
        lemma_push_evals_empty(start);
        assert(parts@.skip(len as int) =~= Seq::empty());
    }
    while k < len
        invariant
            len == parts@.len(),
            0 <= k <= len,
            start.has_sub(),
            start.push_evals(index_schedule(parts@.skip(len - k))) == Ok::<
                InterpreterView,
                Fatal,
            >(machine@),
        decreases len - k,
    {
        let ghost before = index_schedule(parts@.skip(len - k));
        proof {
            assert(parts@.skip(len - k - 1).skip(1) =~= parts@.skip(len - k));
        }
        match &parts[len - 1 - k] {
            Location::Dot(_) => {
                proof {
                    assert(before + Seq::<EvalView>::empty() =~= before);
                }
            },
            Location::Index(i) => {
                proof {
                    lemma_push_evals_push(start, before, expression(i.index));
                    assert(before.push(expression(i.index)) =~= before + seq![
                        expression(i.index),
                    ]);
                }
                machine.push_eval(Eval::Expression(i.index.clone()))?;
            },
        }
        k += 1;
    }
    proof {
        assert(parts@.skip(0) =~= parts@);
    }
    Ok(())
}

/// Follows the parts from `base`.
pub fn follow<'a>(base: &'a Value, parts: &Vec<Location>, idxs: &Vec<Value>) -> (r: Result<
    &'a Value,
    Fatal,
>)
    ensures
        match walk(base@, parts@, values_view(idxs@)) {
            Ok(x) => r is Ok && r->Ok_0@ == x,
            Err(e) => r == Err::<&Value, Fatal>(e),
        },
{
    let mut cur: &'a Value = base;
    let mut k: usize = 0;
    let mut at: usize = 0;
    proof {
        assert(parts@.skip(0) =~= parts@);
        assert(values_view(idxs@).skip(0) =~= values_view(idxs@));
    }
    while k < parts.len()
        invariant
            0 <= k <= parts@.len(),
            0 <= at <= idxs@.len(),
            walk(cur@, parts@.skip(k as int), values_view(idxs@).skip(at as int)) == walk(
                base@,
                parts@,
                values_view(idxs@),
            ),
        decreases parts@.len() - k,
    {
        proof {
            assert(parts@.skip(k as int).skip(1) =~= parts@.skip(k + 1));
            assert(parts@.skip(k as int)[0] == parts@[k as int]);
        }
        match &parts[k] {
            Location::Dot(d) => {
                cur = d.resolve(cur)?;
            },
            Location::Index(i) => {
                if at >= idxs.len() {
                    return Err(Fatal::NoValue);
                }
                proof {
                    assert(values_view(idxs@).skip(at as int).skip(1) =~= values_view(idxs@).skip(
                        at + 1,
                    ));
                    assert(values_view(idxs@).skip(at as int)[0] == idxs@[at as int]@);
                }
                cur = i.resolve(&idxs[at], cur)?;
                at += 1;
            },
        }
        k += 1;
    }
    Ok(cur)
}

/// Whether the first of `parts` opens `v` for writing: `v` is of the kind
/// that the part reads from, and the part has what it needs to name a slot.
/// That is where the holders of `v` are asked for.
pub open spec fn first_part_opens(v: ValueView, parts: Seq<Location>, idxs: Seq<ValueView>) -> bool {
    parts.len() > 0 && match parts[0] {
        Location::Dot(_) => v is Object,
        Location::Index(_) => idxs.len() > 0 && v is List && idxs[0] is Int,
    }
}

/// Puts `value` into the slot of `v` that the parts from `from` on lead to.
/// Without parts `value` takes the place of `v`, whoever holds `v`.
pub(crate) fn assign_in_value(
    v: Value,
    parts: &Vec<Location>,
    from: usize,
    idxs: &Vec<Value>,
    at: usize,
    value: Value,
) -> (r: Result<Value, Fatal>)
    requires
        from <= parts@.len(),
        at <= idxs@.len(),
    ensures
        r == Err::<Value, Fatal>(Fatal::Aliased) || match assign_value(
            v@,
            parts@.skip(from as int),
            values_view(idxs@).skip(at as int),
            value@,
        ) {
            Ok(x) => r is Ok && r->Ok_0@ == x,
            Err(e) => r == Err::<Value, Fatal>(e),
        },
        r == Err::<Value, Fatal>(Fatal::Aliased) ==> first_part_opens(
            v@,
            parts@.skip(from as int),
            values_view(idxs@).skip(at as int),
        ),
    decreases parts@.len() - from,
{
    if from == parts.len() {
        return Ok(value);
    }
    proof {
        assert(parts@.skip(from as int).skip(1) =~= parts@.skip(from + 1));
        assert(parts@.skip(from as int)[0] == parts@[from as int]);
    }
    match &parts[from] {
        Location::Dot(d) => {
            let (table, i) = d.resolve_mut(v)?;
            let mut table = table;
            let ghost before = table.entries@;
            let mut slot = Value::Null;
            std::mem::swap(&mut slot, &mut table.entries[i].1);
            let new = assign_in_value(slot, parts, from + 1, idxs, at, value)?;
            table.entries[i].1 = new;
            proof {
                lemma_entries_update(before, i as int, (before[i as int].0, new));
                assert(table.entries@ =~= before.update(i as int, (before[i as int].0, new)));
            }
            Ok(Value::Object(Rc::new(table)))
        },
        Location::Index(il) => {
            if at >= idxs.len() {
                return Err(Fatal::NoValue);
            }
            proof {
                assert(values_view(idxs@).skip(at as int).skip(1) =~= values_view(idxs@).skip(
                    at + 1,
                ));
                assert(values_view(idxs@).skip(at as int)[0] == idxs@[at as int]@);
            }
            let (items, pos) = il.resolve_mut(&idxs[at], v)?;
            let mut items = items;
            let ghost before = items@;
            let mut slot = Value::Null;
            std::mem::swap(&mut slot, &mut items[pos]);
            let new = assign_in_value(slot, parts, from + 1, idxs, at + 1, value)?;
            items[pos] = new;
            proof {
                assert(values_view(items@) =~= values_view(before).update(pos as int, new@));
            }
            Ok(Value::List(Rc::new(items)))
        },
    }
}

/// Puts `value` into the slot that the parts lead to from the innermost
/// binding of `name`, and hands the chain back. Every frame up to the one
/// that binds `name` must be held by one owner only.
pub fn assign_in_scope(
    scope: Rc<Scope>,
    name: &String,
    parts: &Vec<Location>,
    idxs: &Vec<Value>,
    value: Value,
) -> (r: Result<Rc<Scope>, Fatal>)
    ensures
        r == Err::<Rc<Scope>, Fatal>(Fatal::Aliased) || match assign_scope(
            scope@,
            name@,
            parts@,
            values_view(idxs@),
            value@,
        ) {
            Ok(s) => r is Ok && r->Ok_0@ == s,
            Err(e) => r == Err::<Rc<Scope>, Fatal>(e),
        },
    decreases scope, 1nat,
{
    match Rc::try_unwrap(scope) {
        Err(_) => Err(Fatal::Aliased),
        Ok(frame) => match assign_in_frame(frame, name, parts, idxs, value) {
            Ok(f) => Ok(Rc::new(f)),
            Err(e) => Err(e),
        },
    }
}

/// Puts `value` into the slot that the parts lead to from the innermost
/// binding of `name`, in a frame that the caller holds alone. Where the
/// frame binds `name` and there are no parts, the binding is replaced and
/// nothing else is asked. Where it does not bind `name`, the scope around
/// it is asked next, and has to be held by one owner only.
pub fn assign_in_frame(
    frame: Scope,
    name: &String,
    parts: &Vec<Location>,
    idxs: &Vec<Value>,
    value: Value,
) -> (r: Result<Scope, Fatal>)
    ensures
        r == Err::<Scope, Fatal>(Fatal::Aliased) || match assign_scope(
            frame@,
            name@,
            parts@,
            values_view(idxs@),
            value@,
        ) {
            Ok(s) => r is Ok && r->Ok_0@ == s,
            Err(e) => r == Err::<Scope, Fatal>(e),
        },
        r == Err::<Scope, Fatal>(Fatal::Aliased) ==> if frame@.bindings.dom().contains(
            KeyView::Str(name@),
        ) {
            first_part_opens(frame@.bindings[KeyView::Str(name@)], parts@, values_view(idxs@))
        } else {
            frame.parent is Some
        },
    decreases frame, 0nat,
{
    proof {
        assert(parts@.skip(0) =~= parts@);
        assert(values_view(idxs@).skip(0) =~= values_view(idxs@));
    }
    let Scope { parent, bindings } = frame;
    let mut bindings = bindings;
    match bindings.find_name(name) {
        Some(i) => {
            let ghost before = bindings.entries@;
            let mut slot = Value::Null;
            std::mem::swap(&mut slot, &mut bindings.entries[i].1);
            let new = assign_in_value(slot, parts, 0, idxs, 0, value)?;
            bindings.entries[i].1 = new;
            proof {
                lemma_entries_update(before, i as int, (before[i as int].0, new));
                assert(bindings.entries@ =~= before.update(i as int, (before[i as int].0, new)));
            }
            Ok(Scope { parent, bindings })
        },
        None => match parent {
            None => Err(Fatal::Unresolved),
            Some(p) => {
                let q = assign_in_scope(p, name, parts, idxs, value)?;
                Ok(Scope { parent: Some(q), bindings })
            },
        },
    }
}

impl Scope {
    /// Rebinds `name` in a frame that the caller holds alone. Where the frame
    /// binds `name`, the frame comes back with `value` in place of what the
    /// name stood for. Where it does not, the frame and the value come back
    /// as they were.
    pub fn rebind(frame: Scope, name: &String, value: Value) -> (r: Result<Scope, (Scope, Value)>)
        ensures
            match r {
                Ok(s) => {
                    &&& frame@.bindings.dom().contains(KeyView::Str(name@))
                    &&& s.parent == frame.parent
                    &&& s@ == (ScopeView {
                        bindings: frame@.bindings.insert(KeyView::Str(name@), value@),
                        ..frame@
                    })
                },
                Err((back, v)) => {
                    &&& !frame@.bindings.dom().contains(KeyView::Str(name@))
                    &&& back == frame
                    &&& v == value
                },
            },
    {
        let Scope { parent, bindings } = frame;
        let mut bindings = bindings;
        match bindings.find_name(name) {
            Some(i) => {
                let ghost before = bindings.entries@;
                proof {
                    lemma_entries_update(before, i as int, (before[i as int].0, value));
                }
                bindings.entries[i].1 = value;
                proof {
                    assert(bindings.entries@ =~= before.update(
                        i as int,
                        (before[i as int].0, value),
                    ));
                }
                Ok(Scope { parent, bindings })
            },
            None => Err((Scope { parent, bindings }, value)),
        }
    }

    /// Rebinds `name` in the innermost frame that binds it, and hands the
    /// chain back. Every frame up to that one must be held by one owner
    /// only.
    pub fn resolve_binding_mut(scope: Rc<Scope>, name: &String, value: Value) -> (r: Result<
        Rc<Scope>,
        Fatal,
    >)
        ensures
            r == Err::<Rc<Scope>, Fatal>(Fatal::Aliased) || match assign_scope(
                scope@,
                name@,
                Seq::empty(),
                Seq::empty(),
                value@,
            ) {
                Ok(s) => r is Ok && r->Ok_0@ == s,
                Err(e) => r == Err::<Rc<Scope>, Fatal>(e),
            },
        decreases scope,
    {
        match Rc::try_unwrap(scope) {
            Err(_) => Err(Fatal::Aliased),
            Ok(frame) => match Scope::rebind(frame, name, value) {
                Ok(f) => Ok(Rc::new(f)),
                Err((frame, value)) => {
                    let Scope { parent, bindings } = frame;
                    match parent {
                        None => Err(Fatal::Unresolved),
                        Some(p) => {
                            let q = Scope::resolve_binding_mut(p, name, value)?;
                            Ok(Rc::new(Scope { parent: Some(q), bindings }))
                        },
                    }
                },
            },
        }
    }
}

impl InterpreterView {
    /// What a location chain leads to. The values of its index expressions
    /// are taken off the value stack, and after them the base, where the
    /// base is an expression.
    pub open spec fn read_chain(self, chain: LocationChain) -> Result<
        (ValueView, InterpreterView),
        Fatal,
    > {
        match self.take_values(index_count(chain.parts@)) {
            Err(e) => Err(e),
            Ok((idxs, s1)) => {
                let base = match chain.base {
                    LocationChainBase::Ident(name) => match s1.resolve(name@) {
                        Err(e) => Err(e),
                        Ok(b) => Ok((b, s1)),
                    },
                    LocationChainBase::Expression(_) => s1.pop_value(),
                };
                match base {
                    Err(e) => Err(e),
                    Ok((b, s2)) => match walk(b, chain.parts@, idxs) {
                        Err(e) => Err(e),
                        Ok(v) => match cloned(v) {
                            Err(e) => Err(e),
                            Ok(v) => Ok((v, s2)),
                        },
                    },
                }
            },
        }
    }

    /// The machine after `new` has been put where a location chain leads.
    /// The base of the chain must be a name.
    pub open spec fn assign(self, chain: LocationChain, idxs: Seq<ValueView>, new: ValueView) -> Result<
        InterpreterView,
        Fatal,
    > {
        match chain.base {
            LocationChainBase::Expression(_) => Err(Fatal::NotAssignable),
            LocationChainBase::Ident(name) => if self.contexts.len() == 0 {
                Err(Fatal::NoContext)
            } else {
                match assign_scope(self.ctx().scope, name@, chain.parts@, idxs, new) {
                    Err(e) => Err(e),
                    Ok(scope) => Ok(self.with_scope(scope)),
                }
            },
        }
    }

    /// The machine after `new` has been put where a location chain leads,
    /// with the values of the chain's index expressions taken off the value
    /// stack.
    pub open spec fn write_chain(self, chain: LocationChain, new: ValueView) -> Result<
        InterpreterView,
        Fatal,
    > {
        match self.take_values(index_count(chain.parts@)) {
            Err(e) => Err(e),
            Ok((idxs, s1)) => s1.assign(chain, idxs, new),
        }
    }
}

impl Interpreter {
    /// Reads what a location chain leads to.
    pub fn resolve_location_chain(&mut self, location_chain: &LocationChain) -> (r: Result<
        Value,
        Fatal,
    >)
        ensures
            match old(self)@.read_chain(*location_chain) {
                Ok((v, s)) => r is Ok && r->Ok_0@ == v && final(self)@ == s,
                Err(e) => r == Err::<Value, Fatal>(e),
            },
    {
        let idxs = self.take_values(count_indices(&location_chain.parts))?;
        match &location_chain.base {
            LocationChainBase::Ident(name) => {
                let n = self.fn_context_stack.len();
                if n == 0 {
                    return Err(Fatal::NoContext);
                }
                let base = match Scope::resolve_binding(&self.fn_context_stack[n - 1].scope, name) {
                    Some(b) => b,
                    None => {
                        return Err(Fatal::Unresolved);
                    },
                };
                share(follow(base, &location_chain.parts, &idxs)?)
            },
            LocationChainBase::Expression(_) => {
                let base = self.pop_value()?;
                share(follow(&base, &location_chain.parts, &idxs)?)
            },
        }
    }

    /// Puts `value` where a location chain leads, given the values of its
    /// index expressions.
    pub fn assign(&mut self, location_chain: &LocationChain, idxs: &Vec<Value>, value: Value) -> (r:
        Result<(), Fatal>)
        ensures
            r == Err::<(), Fatal>(Fatal::Aliased) || done(
                r,
                final(self)@,
                old(self)@.assign(*location_chain, values_view(idxs@), value@),
            ),
            r == Err::<(), Fatal>(Fatal::Aliased) ==> location_chain.base is Ident && old(
                self,
            )@.contexts.len() > 0,
            !(location_chain.base is Ident) <==> r == Err::<(), Fatal>(Fatal::NotAssignable),
            location_chain.base is Ident && old(self)@.contexts.len() == 0 <==> r == Err::<
                (),
                Fatal,
            >(Fatal::NoContext),
    {
        proof {
            if let LocationChainBase::Ident(name) = &location_chain.base {
                if self@.contexts.len() > 0 {
                    lemma_assign_scope_sound(
                        self@.ctx().scope,
                        name@,
                        location_chain.parts@,
                        values_view(idxs@),
                        value@,
                    );
                }
            }
        }
        match &location_chain.base {
            LocationChainBase::Expression(_) => Err(Fatal::NotAssignable),
            LocationChainBase::Ident(name) => {
                let ghost pre = *self;
                let top = match self.fn_context_stack.pop() {
                    Some(c) => c,
                    None => {
                        return Err(Fatal::NoContext);
                    },
                };
                let FunctionContext { scope, sub_context_stack } = top;
                let scope = assign_in_scope(scope, name, &location_chain.parts, idxs, value)?;
                let back = FunctionContext { scope, sub_context_stack };
                self.fn_context_stack.push(back);
                proof {
                    assert(self.fn_context_stack@ =~= pre.fn_context_stack@.update(
                        pre.fn_context_stack@.len() - 1,
                        back,
                    ));
                    lemma_view_with_ctx(pre, *self, back);
                }
                Ok(())
            },
        }
    }

    /// Puts `value` where a location chain leads. The values of the chain's
    /// index expressions are taken off the value stack.
    pub fn resolve_location_chain_mut(&mut self, location_chain: &LocationChain, value: Value) -> (r:
        Result<(), Fatal>)
        ensures
            r == Err::<(), Fatal>(Fatal::Aliased) || done(
                r,
                final(self)@,
                old(self)@.write_chain(*location_chain, value@),
            ),
            r == Err::<(), Fatal>(Fatal::Aliased) ==> location_chain.base is Ident && old(
                self,
            )@.take_values(index_count(location_chain.parts@)) is Ok,
            !old(self)@.has_sub() <==> r == Err::<(), Fatal>(Fatal::NoContext),
            old(self)@.take_values(index_count(location_chain.parts@)) is Ok && !(
            location_chain.base is Ident) <==> r == Err::<(), Fatal>(Fatal::NotAssignable),
    {
        let idxs = self.take_values(count_indices(&location_chain.parts))?;
        self.assign(location_chain, &idxs, value)
    }
}

/// The base, where it is an expression, and then the index expressions are
/// scheduled on top of the step that reads.
pub open spec fn location_chain_step(node: Rc<LocationChain>, s: InterpreterView) -> Result<
    InterpreterView,
    Fatal,
> {
    match s.push_eval(custom("LocationChainInner", Combiner::LocationChainInner(node))) {
        Err(e) => Err(e),
        Ok(s1) => {
            let r = s1.push_evals(index_schedule(node.parts@));
            match node.base {
                LocationChainBase::Ident(_) => r,
                LocationChainBase::Expression(e) => then_eval(r, expression(e)),
            }
        },
    }
}

/// What the chain leads to is left on the value stack.
pub open spec fn location_chain_inner_step(node: Rc<LocationChain>, s: InterpreterView) -> Result<
    InterpreterView,
    Fatal,
> {
    match s.read_chain(*node) {
        Err(e) => Err(e),
        Ok((v, s1)) => s1.push_value(v),
    }
}

impl LocationChain {
    /// Schedules the base, where it is an expression, then the index
    /// expressions, then the reading.
    pub fn eval(node: &Rc<LocationChain>, machine: &mut Interpreter) -> (r: Result<(), Fatal>)
        ensures
            done(r, final(machine)@, location_chain_step(*node, old(machine)@)),
    {
        machine.push_eval(
            Eval::Custom(
                Custom::new("LocationChainInner", Combiner::LocationChainInner(node.clone())),
            ),
        )?;
        schedule_indices(&node.parts, machine)?;
        match &node.base {
            LocationChainBase::Ident(_) => Ok(()),
            LocationChainBase::Expression(e) => machine.push_eval(Eval::Expression(e.clone())),
        }
    }

    pub fn short_name(&self) -> (r: &'static str)
        ensures
            r == "LocationChain",
    {
        "LocationChain"
    }
}

/// Reads what a location chain leads to and leaves it.
pub fn location_chain_inner(node: &Rc<LocationChain>, machine: &mut Interpreter) -> (r: Result<
    (),
    Fatal,
>)
    ensures
        done(r, final(machine)@, location_chain_inner_step(*node, old(machine)@)),
{
    let v = machine.resolve_location_chain(&**node)?;
    machine.push_value(v)
}

/// The right-hand side and then the index expressions of the location are
/// scheduled on top of the step that assigns.
pub open spec fn assignment_step(node: Rc<Assignment>, s: InterpreterView) -> Result<
    InterpreterView,
    Fatal,
> {
    match s.push_eval(custom("AssignmentInner", Combiner::AssignmentInner(node))) {
        Err(e) => Err(e),
        Ok(s1) => then_eval(
            s1.push_evals(index_schedule(node.location.parts@)),
            expression(node.expr),
        ),
    }
}

/// The values of the index expressions and, below them, the value of the
/// right-hand side are taken off the value stack, and the value is put where
/// the location leads.
pub open spec fn assignment_inner_step(node: Rc<Assignment>, s: InterpreterView) -> Result<
    InterpreterView,
    Fatal,
> {
    match s.take_values(index_count(node.location.parts@)) {
        Err(e) => Err(e),
        Ok((idxs, s1)) => match s1.pop_value() {
            Err(e) => Err(e),
            Ok((v, s2)) => s2.assign(node.location, idxs, v),
        },
    }
}

impl Assignment {
    /// Schedules the right-hand side, then the index expressions of the
    /// location, then the assignment.
    pub fn eval(node: &Rc<Assignment>, machine: &mut Interpreter) -> (r: Result<(), Fatal>)
        ensures
            done(r, final(machine)@, assignment_step(*node, old(machine)@)),
    {
        machine.push_eval(
            Eval::Custom(Custom::new("AssignmentInner", Combiner::AssignmentInner(node.clone()))),
        )?;
        schedule_indices(&node.location.parts, machine)?;
        machine.push_eval(Eval::Expression(node.expr.clone()))
    }

    pub fn short_name(&self) -> (r: &'static str)
        ensures
            r == "Assignment",
    {
        "Assignment"
    }
}

/// Whether an assignment comes to open the scope chain for writing: the
/// values of the index expressions and of the right-hand side are there, and
/// the location starts from a name.
pub open spec fn assignment_opens(node: Rc<Assignment>, s: InterpreterView) -> bool {
    match s.take_values(index_count(node.location.parts@)) {
        Err(_) => false,
        Ok((_, s1)) => s1.pop_value() is Ok && node.location.base is Ident,
    }
}

/// Assigns the value of the right-hand side to the location.
pub fn assignment_inner(node: &Rc<Assignment>, machine: &mut Interpreter) -> (r: Result<(), Fatal>)
    ensures
        r == Err::<(), Fatal>(Fatal::Aliased) || done(
            r,
            final(machine)@,
            assignment_inner_step(*node, old(machine)@),
        ),
        r == Err::<(), Fatal>(Fatal::Aliased) ==> assignment_opens(*node, old(machine)@),
        !old(machine)@.has_sub() <==> r == Err::<(), Fatal>(Fatal::NoContext),
{
    let idxs = machine.take_values(count_indices(&node.location.parts))?;
    let v = machine.pop_value()?;
    machine.assign(&node.location, &idxs, v)
}

} // verus!
