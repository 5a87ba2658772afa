//! Binding by pattern: how `let`, the parameters of a function and the arms
//! of a handler take a value apart and bind its pieces.
//!
//! An identifier binds whatever it is given. A nested pattern owns what it
//! takes apart: the list or object it is given must be held by nobody else.
//! The pattern of a binding whose sub-patterns are all names binds handles on
//! the items of a list, or on the values of an object, whoever else holds it;
//! with a nested pattern among them it takes the list or object itself, which
//! must then be held by nobody else, so that the nested pattern can own its
//! item.

use crate::ast::{
    LetPattern, ListPattern, ListSubPattern, ObjectFinalPosition, ObjectPattern,
    ObjectSubPattern, SpreadPattern,
};
use crate::aggregates::{extend_cloned, extend_table, holds_effect};
use crate::fatal::Fatal;
use crate::value::{
    entries_view, lemma_values_view_subrange, values_view, Key, KeyView, Table, Value, ValueView,
};
use std::rc::Rc;
use vstd::prelude::*;

verus! {

/// The frame after binding by `pattern`.
pub open spec fn bind_let(
    pattern: LetPattern,
    v: ValueView,
    frame: Map<KeyView, ValueView>,
) -> Result<Map<KeyView, ValueView>, Fatal>
    decreases pattern, 2nat,
{
    match pattern {
        LetPattern::Ident(name) => Ok(frame.insert(KeyView::Str(name@), v)),
        LetPattern::List(lp) => bind_list_value(lp, v, frame),
        LetPattern::Object(op) => bind_object_value(op, v, frame),
    }
}

/// Whether one of `items` is an effect.
pub open spec fn has_effect(items: Seq<ValueView>) -> bool {
    exists|i: int| 0 <= i < items.len() && (#[trigger] items[i]) is Effect
}

/// The frame after the list pattern of a binding has bound the items of `v`.
/// `v` must be a list. A pattern of names binds handles on the items, so
/// none of them may be an effect; a pattern with a nested pattern takes the
/// list itself.
pub open spec fn bind_list_value(
    lp: ListPattern,
    v: ValueView,
    frame: Map<KeyView, ValueView>,
) -> Result<Map<KeyView, ValueView>, Fatal>
    decreases lp, 1nat,
{
    match v {
        ValueView::List(items) => if !lp.takes_apart() && has_effect(items) {
            Err(Fatal::EffectCloned)
        } else {
            bind_list(lp, items, frame)
        },
        _ => Err(Fatal::PatternKind),
    }
}

/// The frame after a nested list pattern has taken `v`, which must be a
/// list, and bound its items.
pub open spec fn take_list(
    lp: ListPattern,
    v: ValueView,
    frame: Map<KeyView, ValueView>,
) -> Result<Map<KeyView, ValueView>, Fatal>
    decreases lp, 1nat,
{
    match v {
        ValueView::List(items) => bind_list(lp, items, frame),
        _ => Err(Fatal::PatternKind),
    }
}

/// Whether a sub-pattern takes the whole of `v` to bind its pieces: it is a
/// list pattern and `v` a list, or an object pattern and `v` an object.
pub open spec fn takes_whole(sub: ListSubPattern, v: ValueView) -> bool {
    (sub is List && v is List) || (sub is Object && v is Object)
}

/// Whether one of `subs` takes the whole of its item.
pub open spec fn one_takes_whole(subs: Seq<ListSubPattern>, items: Seq<ValueView>) -> bool {
    exists|i: int| 0 <= i < subs.len() && i < items.len() && #[trigger] takes_whole(subs[i], items[i])
}

/// Whether binding `items` by `lp` comes to a nested pattern that takes the
/// whole of its item: the pattern accepts as many items, and one of its
/// sub-patterns is a list pattern that meets a list, or an object pattern
/// that meets an object.
pub open spec fn list_opens(lp: ListPattern, items: Seq<ValueView>) -> bool {
    lp.accepts(items.len()) && match lp.spread_and_after_params {
        None => one_takes_whole(lp.before_params@, items),
        Some((_, after)) => one_takes_whole(
            lp.before_params@,
            items.subrange(0, lp.before_params@.len() as int),
        ) || one_takes_whole(after@, items.subrange(items.len() - after@.len(), items.len() as int)),
    }
}

/// The frame after a list pattern has bound `items`. Without a spread the
/// pattern takes as many items as it has sub-patterns. With a spread it binds
/// the first items by the sub-patterns before the spread, the last ones by
/// those after it, and the spread's name, if it has one, to the list of the
/// items between.
pub open spec fn bind_list(
    lp: ListPattern,
    items: Seq<ValueView>,
    frame: Map<KeyView, ValueView>,
) -> Result<Map<KeyView, ValueView>, Fatal>
    decreases lp, 0nat,
{
    if !lp.accepts(items.len()) {
        Err(Fatal::PatternLength)
    } else {
        match lp.spread_and_after_params {
            None => bind_subs(lp.before_params@, items, frame),
            Some((spread, after)) => {
                let nb = lp.before_params@.len() as int;
                let na = after@.len() as int;
                match bind_subs(lp.before_params@, items.subrange(0, nb), frame) {
                    Err(e) => Err(e),
                    Ok(f1) => {
                        let f2 = match spread {
                            SpreadPattern::Unnamed => f1,
                            SpreadPattern::Named(name) => f1.insert(
                                KeyView::Str(name@),
                                ValueView::List(items.subrange(nb, items.len() - na)),
                            ),
                        };
                        bind_subs(after@, items.subrange(items.len() - na, items.len() as int), f2)
                    },
                }
            },
        }
    }
}

/// The frame after each of `subs` has bound the item at its position, first
/// to last.
pub open spec fn bind_subs(
    subs: Seq<ListSubPattern>,
    items: Seq<ValueView>,
    frame: Map<KeyView, ValueView>,
) -> Result<Map<KeyView, ValueView>, Fatal>
    decreases subs, 0nat,
{
    if subs.len() == 0 || items.len() != subs.len() {
        Ok(frame)
    } else {
        match bind_subs(subs.drop_last(), items.drop_last(), frame) {
            Err(e) => Err(e),
            Ok(f) => bind_sub(subs.last(), items.last(), f),
        }
    }
}

/// The frame after one sub-pattern of a list pattern has bound its item.
pub open spec fn bind_sub(
    sub: ListSubPattern,
    v: ValueView,
    frame: Map<KeyView, ValueView>,
) -> Result<Map<KeyView, ValueView>, Fatal>
    decreases sub, 2nat,
{
    match sub {
        ListSubPattern::Ident(name) => Ok(frame.insert(KeyView::Str(name@), v)),
        ListSubPattern::List(lp) => take_list(*lp, v, frame),
        ListSubPattern::Object(op) => take_object(*op, v, frame),
    }
}

/// The frame after the object pattern of a binding has bound the fields of
/// `v`. `v` must be an object. A pattern whose fields are names binds handles
/// on the values, so none of them may be an effect; a pattern with a nested
/// pattern takes the object itself.
pub open spec fn bind_object_value(
    op: ObjectPattern,
    v: ValueView,
    frame: Map<KeyView, ValueView>,
) -> Result<Map<KeyView, ValueView>, Fatal>
    decreases op, 1nat,
{
    match v {
        ValueView::Object(m) => if !op.takes_apart() && holds_effect(m) {
            Err(Fatal::EffectCloned)
        } else {
            bind_object(op, m, frame)
        },
        _ => Err(Fatal::PatternKind),
    }
}

/// The frame after a nested object pattern has taken `v`, which must be an
/// object, and bound its fields.
pub open spec fn take_object(
    op: ObjectPattern,
    v: ValueView,
    frame: Map<KeyView, ValueView>,
) -> Result<Map<KeyView, ValueView>, Fatal>
    decreases op, 1nat,
{
    match v {
        ValueView::Object(m) => bind_object(op, m, frame),
        _ => Err(Fatal::PatternKind),
    }
}

/// The frame with every string key of `rest` bound as a name.
pub open spec fn spill(rest: Map<KeyView, ValueView>, frame: Map<KeyView, ValueView>) -> Map<
    KeyView,
    ValueView,
> {
    Map::new(
        |k: KeyView| frame.dom().contains(k) || (k is Str && rest.dom().contains(k)),
        |k: KeyView|
            if k is Str && rest.dom().contains(k) {
                rest[k]
            } else {
                frame[k]
            },
    )
}

/// The frame after an object pattern has bound the fields of `m`. Every
/// field that the pattern names must be there. What is left of the object
/// goes to the tail: a named spread binds it as an object, a wildcard binds
/// each of its string keys as a name.
pub open spec fn bind_object(
    op: ObjectPattern,
    m: Map<KeyView, ValueView>,
    frame: Map<KeyView, ValueView>,
) -> Result<Map<KeyView, ValueView>, Fatal>
    decreases op, 0nat,
{
    match bind_fields(op.params@, m, frame) {
        Err(e) => Err(e),
        Ok((rest, f)) => match op.final_param {
            ObjectFinalPosition::Absent => Ok(f),
            ObjectFinalPosition::SpreadNameless => Ok(f),
            ObjectFinalPosition::Spread(name) => Ok(
                f.insert(KeyView::Str(name@), ValueView::Object(rest)),
            ),
            ObjectFinalPosition::Wildcard => Ok(spill(rest, f)),
        },
    }
}

/// What is left of the object, and the frame, after each of `params` has
/// taken its field, first to last.
pub open spec fn bind_fields(
    params: Seq<ObjectSubPattern>,
    m: Map<KeyView, ValueView>,
    frame: Map<KeyView, ValueView>,
) -> Result<(Map<KeyView, ValueView>, Map<KeyView, ValueView>), Fatal>
    decreases params, 0nat,
{
    if params.len() == 0 {
        Ok((m, frame))
    } else {
        match bind_fields(params.drop_last(), m, frame) {
            Err(e) => Err(e),
            Ok((rest, f)) => bind_field(params.last(), rest, f),
        }
    }
}

/// The name of the field that a sub-pattern of an object pattern takes.
pub open spec fn field_name(param: ObjectSubPattern) -> Seq<char> {
    match param {
        ObjectSubPattern::Ident(name) => name@,
        ObjectSubPattern::List(name, _) => name@,
        ObjectSubPattern::Object(name, _) => name@,
    }
}

/// Whether a sub-pattern of an object pattern takes the whole of its field
/// in `m`: the field is there, and it is a list for a list pattern, an object
/// for an object pattern.
pub open spec fn field_takes_whole(param: ObjectSubPattern, m: Map<KeyView, ValueView>) -> bool {
    let key = KeyView::Str(field_name(param));
    m.dom().contains(key) && match param {
        ObjectSubPattern::Ident(_) => false,
        ObjectSubPattern::List(_, _) => m[key] is List,
        ObjectSubPattern::Object(_, _) => m[key] is Object,
    }
}

/// Whether one of `params` takes the whole of its field in `m`.
pub open spec fn one_field_takes_whole(
    params: Seq<ObjectSubPattern>,
    m: Map<KeyView, ValueView>,
) -> bool {
    exists|i: int| 0 <= i < params.len() && #[trigger] field_takes_whole(params[i], m)
}

/// What is left of the object, and the frame, after one sub-pattern of an
/// object pattern has taken its field.
pub open spec fn bind_field(
    param: ObjectSubPattern,
    m: Map<KeyView, ValueView>,
    frame: Map<KeyView, ValueView>,
) -> Result<(Map<KeyView, ValueView>, Map<KeyView, ValueView>), Fatal>
    decreases param, 2nat,
{
    let key = KeyView::Str(field_name(param));
    if !m.dom().contains(key) {
        Err(Fatal::PatternField)
    } else {
        let bound = match param {
            ObjectSubPattern::Ident(_) => Ok(frame.insert(key, m[key])),
            ObjectSubPattern::List(_, lp) => take_list(*lp, m[key], frame),
            ObjectSubPattern::Object(_, op) => take_object(*op, m[key], frame),
        };
        match bound {
            Err(e) => Err(e),
            Ok(f) => Ok((m.remove(key), f)),
        }
    }
}

/// Whether a binding did what its model says, or stopped because a value
/// that had to be taken apart was shared.
pub open spec fn bound(
    r: Result<(), Fatal>,
    post: Map<KeyView, ValueView>,
    want: Result<Map<KeyView, ValueView>, Fatal>,
) -> bool {
    r == Err::<(), Fatal>(Fatal::Aliased) || match want {
        Ok(f) => r is Ok && post == f,
        Err(e) => r == Err::<(), Fatal>(e),
    }
}

/// The first sub-pattern that fails decides the outcome.
pub proof fn lemma_bind_subs_error(
    subs: Seq<ListSubPattern>,
    items: Seq<ValueView>,
    frame: Map<KeyView, ValueView>,
    k: int,
    e: Fatal,
)
    requires
        subs.len() == items.len(),
        0 <= k <= subs.len(),
        bind_subs(subs.take(k), items.take(k), frame) == Err::<Map<KeyView, ValueView>, Fatal>(e),
    ensures
        bind_subs(subs, items, frame) == Err::<Map<KeyView, ValueView>, Fatal>(e),
    decreases subs.len() - k,
{
    if k < subs.len() {
        assert(subs.take(k + 1).drop_last() =~= subs.take(k));
        assert(items.take(k + 1).drop_last() =~= items.take(k));
        lemma_bind_subs_error(subs, items, frame, k + 1, e);
    } else {
        assert(subs.take(k) =~= subs);
        assert(items.take(k) =~= items);
    }
}

/// The first field that fails decides the outcome.
pub proof fn lemma_bind_fields_error(
    params: Seq<ObjectSubPattern>,
    m: Map<KeyView, ValueView>,
    frame: Map<KeyView, ValueView>,
    k: int,
    e: Fatal,
)
    requires
        0 <= k <= params.len(),
        bind_fields(params.take(k), m, frame) == Err::<
            (Map<KeyView, ValueView>, Map<KeyView, ValueView>),
            Fatal,
        >(e),
    ensures
        bind_fields(params, m, frame) == Err::<
            (Map<KeyView, ValueView>, Map<KeyView, ValueView>),
            Fatal,
        >(e),
    decreases params.len() - k,
{
    if k < params.len() {
        assert(params.take(k + 1).drop_last() =~= params.take(k));
        lemma_bind_fields_error(params, m, frame, k + 1, e);
    } else {
        assert(params.take(k) =~= params);
    }
}

/// Binds `value` by `pattern` in `frame`.
pub fn bind_pattern(frame: &mut Table, pattern: &LetPattern, value: Value) -> (r: Result<
    (),
    Fatal,
>)
    ensures
        bound(r, final(frame)@, bind_let(*pattern, value@, old(frame)@)),
        pattern is Ident ==> r is Ok,
        r == Err::<(), Fatal>(Fatal::Aliased) ==> (pattern matches LetPattern::List(lp)
            && lp.takes_apart() && value is List) || (pattern matches LetPattern::Object(op)
            && op.takes_apart() && value is Object),
    decreases *pattern, 2nat,
{
    match pattern {
        LetPattern::Ident(name) => {
            frame.insert_name(name.clone(), value);
            Ok(())
        },
        LetPattern::List(lp) => bind_list_of(frame, lp, value),
        LetPattern::Object(op) => bind_object_of(frame, op, value),
    }
}

/// Binds the items of the list `value` by `lp`, the pattern of a binding. A
/// pattern of names binds handles on the items and asks nothing of who holds
/// the list. A pattern with a nested pattern takes the list itself, which
/// must then be held by nobody else. What is no list is refused first.
pub fn bind_list_of(frame: &mut Table, lp: &ListPattern, value: Value) -> (r: Result<(), Fatal>)
    ensures
        bound(r, final(frame)@, bind_list_value(*lp, value@, old(frame)@)),
        r == Err::<(), Fatal>(Fatal::Aliased) ==> value is List && lp.takes_apart(),
    decreases *lp, 1nat,
{
    match value {
        Value::List(rc) => {
            if lp.nests() {
                match Rc::try_unwrap(rc) {
                    Ok(items) => bind_items(frame, lp, items),
                    Err(_) => Err(Fatal::Aliased),
                }
            } else {
                let mut handles: Vec<Value> = Vec::new();
                proof {
                    assert forall|k: int| 0 <= k < rc@.len() implies (values_view(rc@)[k]
                        is Effect) == (rc@[k] is Effect) by {}
                }
                match extend_cloned(&mut handles, &*rc) {
                    Ok(()) => {},
                    Err(e) => {
                        proof {
                            let k = choose|k: int|
                                0 <= k < rc@.len() && (#[trigger] rc@[k]) is Effect;
                            assert(values_view(rc@)[k] is Effect);
                        }
                        return Err(e);
                    },
                }
                proof {
                    assert(handles@ =~= rc@);
                    assert(!has_effect(values_view(rc@))) by {
                        if has_effect(values_view(rc@)) {
                            let k = choose|k: int|
                                0 <= k < values_view(rc@).len() && (#[trigger] values_view(
                                    rc@,
                                )[k]) is Effect;
                            assert(rc@[k] is Effect);
                        }
                    }
                }
                bind_items(frame, lp, handles)
            }
        },
        _ => Err(Fatal::PatternKind),
    }
}

/// Binds the items of a list, or the arguments of a call, by `lp`. The items
/// are the caller's own, so a name binds its item whatever else holds it;
/// only a nested pattern asks for its item to be unshared.
pub fn bind_items(frame: &mut Table, lp: &ListPattern, items: Vec<Value>) -> (r: Result<
    (),
    Fatal,
>)
    ensures
        bound(r, final(frame)@, bind_list(*lp, values_view(items@), old(frame)@)),
        r == Err::<(), Fatal>(Fatal::Aliased) ==> list_opens(*lp, values_view(items@)),
    decreases *lp, 0nat,
{
    let len = items.len();
    if !lp.takes(len) {
        return Err(Fatal::PatternLength);
    }
    match &lp.spread_and_after_params {
        None => bind_each(frame, &lp.before_params, items),
        Some((spread, after)) => {
            let nb = lp.before_params.len();
            let na = after.len();
            let mut before_items = items;
            proof {
                lemma_values_view_subrange(items@, 0, nb as int);
                lemma_values_view_subrange(items@, nb as int, len - na);
                lemma_values_view_subrange(items@, len - na, len as int);
                assert(items@.subrange(0, len - na).subrange(0, nb as int) =~= items@.subrange(
                    0,
                    nb as int,
                ));
                assert(items@.subrange(0, len - na).subrange(nb as int, len - na)
                    =~= items@.subrange(nb as int, len - na));
            }
            let after_items = before_items.split_off(len - na);
            let middle = before_items.split_off(nb);
            bind_each(frame, &lp.before_params, before_items)?;
            match spread {
                SpreadPattern::Unnamed => {},
                SpreadPattern::Named(name) => {
                    frame.insert_name(name.clone(), Value::List(Rc::new(middle)));
                },
            }
            bind_each(frame, after, after_items)
        },
    }
}

/// Binds each item by the sub-pattern at its position.
fn bind_each(frame: &mut Table, subs: &Vec<ListSubPattern>, items: Vec<Value>) -> (r: Result<
    (),
    Fatal,
>)
    requires
        items@.len() == subs@.len(),
    ensures
        bound(r, final(frame)@, bind_subs(subs@, values_view(items@), old(frame)@)),
        r == Err::<(), Fatal>(Fatal::Aliased) ==> one_takes_whole(subs@, values_view(items@)),
    decreases *subs, 0nat,
{
    let mut rest = items;
    let ghost given = values_view(items@);
    let n = subs.len();
    let mut i: usize = 0;
    proof {
        assert(subs@.take(0) =~= Seq::empty());
    }
    while i < n
        invariant
            n == subs@.len(),
            given == values_view(items@),
            rest@.len() == n,
            items@.len() == n,
            0 <= i <= n,
            forall|j: int| i <= j < n ==> rest@[j] == items@[j],
            bind_subs(subs@.take(i as int), given.take(i as int), old(frame)@) == Ok::<
                Map<KeyView, ValueView>,
                Fatal,
            >(frame@),
        decreases n - i,
    {
        proof {
            assert(subs@.take(i + 1).drop_last() =~= subs@.take(i as int));
            assert(given.take(i + 1).drop_last() =~= given.take(i as int));
            assert(given.take(i + 1).last() == items@[i as int]@);
            assert(subs@.take(i + 1).last() == subs@[i as int]);
        }
        let mut v = Value::Null;
        std::mem::swap(&mut v, &mut rest[i]);
        match bind_one(frame, &subs[i], v) {
            Ok(()) => {},
            Err(e) => {
                proof {
                    if e != Fatal::Aliased {
                        lemma_bind_subs_error(subs@, given, old(frame)@, i + 1, e);
                    } else {
                        assert(takes_whole(subs@[i as int], given[i as int]));
                    }
                }
                return Err(e);
            },
        }
        i += 1;
    }
    proof {
        assert(subs@.take(n as int) =~= subs@);
        assert(given.take(n as int) =~= given);
    }
    Ok(())
}

/// Takes the list `value` for a nested pattern and binds its items by `lp`.
/// A nested pattern owns what it takes apart: the list must be held by
/// nobody else. What is no list is refused first.
pub fn own_list(frame: &mut Table, lp: &ListPattern, value: Value) -> (r: Result<(), Fatal>)
    ensures
        bound(r, final(frame)@, take_list(*lp, value@, old(frame)@)),
        r == Err::<(), Fatal>(Fatal::Aliased) ==> value is List,
    decreases *lp, 1nat,
{
    match value {
        Value::List(rc) => match Rc::try_unwrap(rc) {
            Ok(items) => bind_items(frame, lp, items),
            Err(_) => Err(Fatal::Aliased),
        },
        _ => Err(Fatal::PatternKind),
    }
}

/// Takes the object `value` for a nested pattern and binds its fields by
/// `op`. A nested pattern owns what it takes apart: the object must be held
/// by nobody else. What is no object is refused first.
pub fn own_object(frame: &mut Table, op: &ObjectPattern, value: Value) -> (r: Result<(), Fatal>)
    ensures
        bound(r, final(frame)@, take_object(*op, value@, old(frame)@)),
        r == Err::<(), Fatal>(Fatal::Aliased) ==> value is Object,
    decreases *op, 2nat,
{
    match value {
        Value::Object(rc) => match Rc::try_unwrap(rc) {
            Ok(table) => bind_table(frame, op, table),
            Err(_) => Err(Fatal::Aliased),
        },
        _ => Err(Fatal::PatternKind),
    }
}

/// Binds one item of a list.
fn bind_one(frame: &mut Table, sub: &ListSubPattern, value: Value) -> (r: Result<(), Fatal>)
    ensures
        bound(r, final(frame)@, bind_sub(*sub, value@, old(frame)@)),
        sub is Ident ==> r is Ok,
        r == Err::<(), Fatal>(Fatal::Aliased) ==> takes_whole(*sub, value@),
    decreases *sub, 2nat,
{
    match sub {
        ListSubPattern::Ident(name) => {
            frame.insert_name(name.clone(), value);
            Ok(())
        },
        ListSubPattern::List(lp) => own_list(frame, &**lp, value),
        ListSubPattern::Object(op) => own_object(frame, &**op, value),
    }
}

/// Binds every string key among `entries` as a name, first entry to last.
fn spill_entries(entries: &mut Vec<(Key, Value)>, frame: &mut Table)
    ensures
        final(frame)@ == spill(entries_view(old(entries)@), old(frame)@),
    decreases old(entries)@.len(),
{
    let ghost all = entries@;
    match entries.pop() {
        None => {
            assert(frame@ =~= spill(entries_view(all), frame@));
        },
        Some(entry) => {
            assert(entries@ == all.drop_last());
            assert(entry == all.last());
            spill_entries(entries, frame);
            let (key, value) = entry;
            match key {
                Key::Str(name) => {
                    frame.insert_name(name, value);
                    assert(frame@ =~= spill(entries_view(all), old(frame)@));
                },
                _ => {
                    assert(frame@ =~= spill(entries_view(all), old(frame)@));
                },
            }
        },
    }
}

/// Binds the fields of the object `value` by `op`, the pattern of a binding.
/// A pattern whose fields are names binds handles on the values and asks
/// nothing of who holds the object. A pattern with a nested pattern takes the object itself, which
/// must then be held by nobody else. What is no object is refused first.
pub fn bind_object_of(frame: &mut Table, op: &ObjectPattern, value: Value) -> (r: Result<
    (),
    Fatal,
>)
    ensures
        bound(r, final(frame)@, bind_object_value(*op, value@, old(frame)@)),
        r == Err::<(), Fatal>(Fatal::Aliased) ==> value is Object && op.takes_apart(),
    decreases *op, 2nat,
{
    match value {
        Value::Object(rc) => {
            if op.nests() {
                match Rc::try_unwrap(rc) {
                    Ok(table) => bind_table(frame, op, table),
                    Err(_) => Err(Fatal::Aliased),
                }
            } else {
                let mut handles = Table::new();
                extend_table(&mut handles, &*rc)?;
                proof {
                    assert(handles@ =~= rc@);
                }
                bind_table(frame, op, handles)
            }
        },
        _ => Err(Fatal::PatternKind),
    }
}

/// Binds the fields of an object's table by `op`. The table is the caller's
/// own, so a pattern whose fields are names binds them whatever else holds
/// their values; only a nested pattern asks for a field to be unshared.
pub fn bind_table(frame: &mut Table, op: &ObjectPattern, table: Table) -> (r: Result<(), Fatal>)
    ensures
        bound(r, final(frame)@, bind_object(*op, table@, old(frame)@)),
        r == Err::<(), Fatal>(Fatal::Aliased) ==> one_field_takes_whole(op.params@, table@),
    decreases *op, 1nat,
{
    let mut table = table;
    take_fields(frame, &op.params, &mut table)?;
    match &op.final_param {
        ObjectFinalPosition::Absent => {},
        ObjectFinalPosition::SpreadNameless => {},
        ObjectFinalPosition::Spread(name) => {
            frame.insert_name(name.clone(), Value::Object(Rc::new(table)));
        },
        ObjectFinalPosition::Wildcard => {
            spill_entries(&mut table.entries, frame);
        },
    }
    Ok(())
}

/// Takes the fields that `params` name out of `table` and binds them.
fn take_fields(frame: &mut Table, params: &Vec<ObjectSubPattern>, table: &mut Table) -> (r: Result<
    (),
    Fatal,
>)
    ensures
        r == Err::<(), Fatal>(Fatal::Aliased) || match bind_fields(
            params@,
            old(table)@,
            old(frame)@,
        ) {
            Ok((rest, f)) => r is Ok && final(table)@ == rest && final(frame)@ == f,
            Err(e) => r == Err::<(), Fatal>(e),
        },
        r == Err::<(), Fatal>(Fatal::Aliased) ==> one_field_takes_whole(params@, old(table)@),
    decreases *params, 0nat,
{
    let n = params.len();
    let mut i: usize = 0;
    proof {
        assert(params@.take(0) =~= Seq::empty());
    }
    while i < n
        invariant
            n == params@.len(),
            0 <= i <= n,
            bind_fields(params@.take(i as int), old(table)@, old(frame)@) == Ok::<
                (Map<KeyView, ValueView>, Map<KeyView, ValueView>),
                Fatal,
            >((table@, frame@)),
            forall|k: KeyView| #[trigger]
                table@.dom().contains(k) ==> old(table)@.dom().contains(k) && table@[k] == old(
                    table,
                )@[k],
        decreases n - i,
    {
        proof {
            assert(params@.take(i + 1).drop_last() =~= params@.take(i as int));
            assert(params@.take(i + 1).last() == params@[i as int]);
        }
        match take_field(frame, &params[i], table) {
            Ok(()) => {},
            Err(e) => {
                proof {
                    if e != Fatal::Aliased {
                        lemma_bind_fields_error(params@, old(table)@, old(frame)@, i + 1, e);
                    } else {
                        assert(field_takes_whole(params@[i as int], old(table)@));
                    }
                }
                return Err(e);
            },
        }
        i += 1;
    }
    proof {
        assert(params@.take(n as int) =~= params@);
    }
    Ok(())
}

/// Takes one field out of `table` and binds it.
fn take_field(frame: &mut Table, param: &ObjectSubPattern, table: &mut Table) -> (r: Result<
    (),
    Fatal,
>)
    ensures
        r == Err::<(), Fatal>(Fatal::Aliased) || match bind_field(
            *param,
            old(table)@,
            old(frame)@,
        ) {
            Ok((rest, f)) => r is Ok && final(table)@ == rest && final(frame)@ == f,
            Err(e) => r == Err::<(), Fatal>(e),
        },
        r == Err::<(), Fatal>(Fatal::Aliased) ==> field_takes_whole(*param, old(table)@),
    decreases *param, 3nat,
{
    match param {
        ObjectSubPattern::Ident(name) => match table.take_name(name) {
            None => Err(Fatal::PatternField),
            Some(v) => {
                frame.insert_name(name.clone(), v);
                Ok(())
            },
        },
        ObjectSubPattern::List(name, lp) => match table.take_name(name) {
            None => Err(Fatal::PatternField),
            Some(v) => own_list(frame, &**lp, v),
        },
        ObjectSubPattern::Object(name, op) => match table.take_name(name) {
            None => Err(Fatal::PatternField),
            Some(v) => own_object(frame, &**op, v),
        },
    }
}

} // verus!
