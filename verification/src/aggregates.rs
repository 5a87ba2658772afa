//! List and object literals, and reading from lists and objects.

use crate::ast::{DotExpression, IndexExpression, List, ListElem, Object, ObjectElem};
use crate::eval::{custom, expression, CheckTypeObject, Combiner, Custom, Eval, EvalView};
use crate::fatal::Fatal;
use crate::interpreter::{
    done, lemma_push_evals_empty, lemma_push_evals_push, pop_pair, then_eval, Interpreter,
    InterpreterView,
};
use crate::table::{absent_after, lemma_entries_last};
use crate::value::{
    entries_view, lemma_values_view_add, lemma_values_view_push, values_view, Key, KeyView, Table,
    Value, ValueView,
};
use std::rc::Rc;
use vstd::prelude::*;

verus! {

/// The instructions that evaluate the elements of a list literal or the
/// arguments of a call, in the order in which they are pushed: the last
/// element's first, so that the first element is evaluated first.
pub open spec fn list_schedule(elems: Seq<ListElem>) -> Seq<EvalView> {
    Seq::new(
        elems.len(),
        |j: int|
            match elems[elems.len() - 1 - j] {
                ListElem::Spread(e) => expression(e),
                ListElem::Elem(e) => expression(e),
            },
    )
}

/// The items that the values of a literal's elements make: the value of a
/// plain element is one item, the value of a `...` element must be a list and
/// gives all its items. An item taken from such a list must not be an effect.
pub open spec fn spread_values(elems: Seq<ListElem>, values: Seq<ValueView>) -> Result<
    Seq<ValueView>,
    Fatal,
>
    decreases elems.len(),
{
    if elems.len() == 0 || values.len() != elems.len() {
        Ok(Seq::empty())
    } else {
        match spread_values(elems.drop_last(), values.drop_last()) {
            Err(e) => Err(e),
            Ok(acc) => match elems.last() {
                ListElem::Elem(_) => Ok(acc.push(values.last())),
                ListElem::Spread(_) => match values.last() {
                    ValueView::List(items) => if exists|i: int|
                        0 <= i < items.len() && (#[trigger] items[i]) is Effect {
                        Err(Fatal::EffectCloned)
                    } else {
                        Ok(acc + items)
                    },
                    _ => Err(Fatal::NotList),
                },
            },
        }
    }
}

/// The elements are scheduled, first to last, on top of the step that collects
/// their values.
pub open spec fn list_step(node: Rc<List>, s: InterpreterView) -> Result<InterpreterView, Fatal> {
    match s.push_eval(custom("ListInner", Combiner::ListInner(node))) {
        Err(e) => Err(e),
        Ok(s1) => s1.push_evals(list_schedule(node.elems@)),
    }
}

/// The values of the elements are taken off the value stack and the list that
/// they make is left in their place.
pub open spec fn list_inner_step(node: Rc<List>, s: InterpreterView) -> Result<
    InterpreterView,
    Fatal,
> {
    match s.take_values(node.elems@.len()) {
        Err(e) => Err(e),
        Ok((values, s1)) => match spread_values(node.elems@, values) {
            Err(e) => Err(e),
            Ok(items) => s1.push_value(ValueView::List(items)),
        },
    }
}

/// Schedules the elements of a list literal or the arguments of a call.
pub fn schedule_elems(elems: &Vec<ListElem>, machine: &mut Interpreter) -> (r: Result<(), Fatal>)
    ensures
        done(r, final(machine)@, old(machine)@.push_evals(list_schedule(elems@))),
{
    if !machine.is_live() {
        return Err(Fatal::NoContext);
    }
    let n = elems.len();
    let mut k: usize = 0;
    proof {
        lemma_push_evals_empty(machine@);
        assert(list_schedule(elems@).take(0) =~= Seq::empty());
    }
    while k < n
        invariant
            n == elems@.len(),
            0 <= k <= n,
            old(machine)@.has_sub(),
            old(machine)@.push_evals(list_schedule(elems@).take(k as int)) == Ok::<
                InterpreterView,
                Fatal,
            >(machine@),
        decreases n - k,
    {
        let e = match &elems[n - 1 - k] {
            ListElem::Spread(e) => e.clone(),
            ListElem::Elem(e) => e.clone(),
        };
        proof {
            lemma_push_evals_push(
                old(machine)@,
                list_schedule(elems@).take(k as int),
                expression(e),
            );
            assert(list_schedule(elems@).take(k as int).push(expression(e)) =~= list_schedule(
                elems@,
            ).take(k + 1));
        }
        machine.push_eval(Eval::Expression(e))?;
        k += 1;
    }
    proof {
        assert(list_schedule(elems@).take(n as int) =~= list_schedule(elems@));
    }
    Ok(())
}

/// Appends handles on the items of `from` to `out`.
pub(crate) fn extend_cloned(out: &mut Vec<Value>, from: &Vec<Value>) -> (r: Result<(), Fatal>)
    ensures
        match r {
            Ok(()) => {
                &&& final(out)@ == old(out)@ + from@
                &&& forall|i: int| 0 <= i < from@.len() ==> !((#[trigger] from@[i]) is Effect)
            },
            Err(e) => {
                &&& e == Fatal::EffectCloned
                &&& exists|i: int| 0 <= i < from@.len() && (#[trigger] from@[i]) is Effect
            },
        },
{
    let mut j: usize = 0;
    while j < from.len()
        invariant
            0 <= j <= from@.len(),
            out@ == old(out)@ + from@.take(j as int),
            forall|i: int| 0 <= i < j ==> !((#[trigger] from@[i]) is Effect),
        decreases from@.len() - j,
    {
        match from[j].try_clone() {
            None => {
                assert(from@[j as int] is Effect);
                return Err(Fatal::EffectCloned);
            },
            Some(v) => {
                out.push(v);
                assert(out@ =~= old(out)@ + from@.take(j + 1));
            },
        }
        j += 1;
    }
    assert(from@.take(from@.len() as int) =~= from@);
    Ok(())
}

/// Makes the items of a literal from the values of its elements.
pub(crate) fn spread(elems: &Vec<ListElem>, values: Vec<Value>) -> (r: Result<Vec<Value>, Fatal>)
    requires
        values@.len() == elems@.len(),
    ensures
        match spread_values(elems@, values_view(values@)) {
            Ok(items) => r is Ok && values_view(r->Ok_0@) == items,
            Err(e) => r == Err::<Vec<Value>, Fatal>(e),
        },
{
    let mut rest = values;
    let ghost given = values@;
    let mut out: Vec<Value> = Vec::new();
    let n = elems.len();
    let mut i: usize = 0;
    proof {
        assert(values_view(given).take(0) =~= Seq::empty());
        assert(values_view(out@) =~= Seq::empty());
    }
    while i < n
        invariant
            n == elems@.len(),
            given == values@,
            given.len() == n,
            rest@.len() == n,
            0 <= i <= n,
            forall|j: int| i <= j < n ==> rest@[j] == given[j],
            spread_values(elems@.take(i as int), values_view(given).take(i as int)) == Ok::<
                Seq<ValueView>,
                Fatal,
            >(values_view(out@)),
        decreases n - i,
    {
        proof {
            assert(elems@.take(i + 1).drop_last() =~= elems@.take(i as int));
            assert(values_view(given).take(i + 1).drop_last() =~= values_view(given).take(
                i as int,
            ));
            assert(values_view(given).take(i + 1).last() == given[i as int]@);
            assert(elems@.take(i + 1).last() == elems@[i as int]);
        }
        match &elems[i] {
            ListElem::Elem(_) => {
                let mut v = Value::Null;
                std::mem::swap(&mut v, &mut rest[i]);
                proof {
                    lemma_values_view_push(out@, v);
                }
                out.push(v);
            },
            ListElem::Spread(_) => {
                match &rest[i] {
                    Value::List(items) => {
                        proof {
                            lemma_values_view_add(out@, items@);
                            assert forall|k: int| 0 <= k < items@.len() implies (values_view(
                                items@,
                            )[k] is Effect) == (items@[k] is Effect) by {}
                        }
                        match extend_cloned(&mut out, &**items) {
                            Ok(()) => {},
                            Err(e) => {
                                let ghost k = choose|k: int|
                                    0 <= k < items@.len() && (#[trigger] items@[k]) is Effect;
                                assert(values_view(items@)[k] is Effect);
                                assert(spread_values(
                                    elems@.take(i + 1),
                                    values_view(given).take(i + 1),
                                ) == Err::<Seq<ValueView>, Fatal>(Fatal::EffectCloned));
                                proof {
                                    lemma_spread_values_error(
                                        elems@,
                                        values_view(given),
                                        i + 1,
                                        Fatal::EffectCloned,
                                    );
                                }
                                return Err(e);
                            },
                        }
                    },
                    _ => {
                        assert(spread_values(elems@.take(i + 1), values_view(given).take(i + 1))
                            == Err::<Seq<ValueView>, Fatal>(Fatal::NotList));
                        proof {
                            lemma_spread_values_error(
                                elems@,
                                values_view(given),
                                i + 1,
                                Fatal::NotList,
                            );
                        }
                        return Err(Fatal::NotList);
                    },
                }
            },
        }
        i += 1;
    }
    proof {
        assert(elems@.take(n as int) =~= elems@);
        assert(values_view(given).take(n as int) =~= values_view(given));
    }
    Ok(out)
}

/// The first element at which the items cannot be made decides the outcome.
pub proof fn lemma_spread_values_error(
    elems: Seq<ListElem>,
    values: Seq<ValueView>,
    k: int,
    e: Fatal,
)
    requires
        elems.len() == values.len(),
        0 <= k <= elems.len(),
        spread_values(elems.take(k), values.take(k)) == Err::<Seq<ValueView>, Fatal>(e),
    ensures
        spread_values(elems, values) == Err::<Seq<ValueView>, Fatal>(e),
    decreases elems.len() - k,
{
    if k < elems.len() {
        assert(elems.take(k + 1).drop_last() =~= elems.take(k));
        assert(values.take(k + 1).drop_last() =~= values.take(k));
        lemma_spread_values_error(elems, values, k + 1, e);
    } else {
        assert(elems.take(k) =~= elems);
        assert(values.take(k) =~= values);
    }
}

impl List {
    /// Schedules the elements, first to last, and the step that collects
    /// their values.
    pub fn eval(node: &Rc<List>, machine: &mut Interpreter) -> (r: Result<(), Fatal>)
        ensures
            done(r, final(machine)@, list_step(*node, old(machine)@)),
    {
        machine.push_eval(
            Eval::Custom(Custom::new("ListInner", Combiner::ListInner(node.clone()))),
        )?;
        schedule_elems(&node.elems, machine)
    }

    pub fn short_name(&self) -> (r: &'static str)
        ensures
            r == "List",
    {
        "List"
    }
}

/// Takes the values of a list literal's elements and leaves the list.
pub fn list_inner(node: &Rc<List>, machine: &mut Interpreter) -> (r: Result<(), Fatal>)
    ensures
        done(r, final(machine)@, list_inner_step(*node, old(machine)@)),
{
    let values = machine.take_values(node.elems.len())?;
    let items = spread(&node.elems, values)?;
    machine.push_value(Value::List(Rc::new(items)))
}

/// The position that an index stands for in a list of `len` items: a
/// negative index counts from the end.
pub open spec fn wrapped_index(len: nat, index: i64) -> Option<nat> {
    if index < 0 {
        if len + index >= 0 {
            Some((len + index) as nat)
        } else {
            None
        }
    } else if index < len {
        Some(index as nat)
    } else {
        None
    }
}

/// The position that `index` stands for in a list of `len` items, if it
/// stands for one.
pub fn wrap_list_index(len: usize, index: i64) -> (r: Option<usize>)
    ensures
        match wrapped_index(len as nat, index) {
            Some(i) => r == Some(i as usize) && i < len,
            None => r is None,
        },
{
    let at: i128 = if index < 0 {
        len as i128 + index as i128
    } else {
        index as i128
    };
    if 0 <= at && at < len as i128 {
        Some(at as usize)
    } else {
        None
    }
}

/// What is read from `v` under the string key `name`.
pub open spec fn read_key(v: ValueView, name: Seq<char>) -> Result<ValueView, Fatal> {
    match v {
        ValueView::Object(m) => if m.dom().contains(KeyView::Str(name)) {
            Ok(m[KeyView::Str(name)])
        } else {
            Err(Fatal::MissingKey)
        },
        _ => Err(Fatal::NotObject),
    }
}

/// What is read from `v` at `index`.
pub open spec fn read_index(v: ValueView, index: ValueView) -> Result<ValueView, Fatal> {
    match v {
        ValueView::List(items) => match index {
            ValueView::Int(i) => match wrapped_index(items.len(), i) {
                Some(at) => Ok(items[at as int]),
                None => Err(Fatal::OutOfRange),
            },
            _ => Err(Fatal::NotInt),
        },
        _ => Err(Fatal::NotList),
    }
}

/// A second handle on `v`, which an effect does not give.
pub open spec fn cloned(v: ValueView) -> Result<ValueView, Fatal> {
    if v is Effect {
        Err(Fatal::EffectCloned)
    } else {
        Ok(v)
    }
}

/// Reads the field `name` of an object.
pub fn get_key<'a>(v: &'a Value, name: &String) -> (r: Result<&'a Value, Fatal>)
    ensures
        match read_key(v@, name@) {
            Ok(x) => r is Ok && r->Ok_0@ == x,
            Err(e) => r == Err::<&Value, Fatal>(e),
        },
{
    match v {
        Value::Object(table) => match table.get_name(name) {
            Some(x) => Ok(x),
            None => Err(Fatal::MissingKey),
        },
        _ => Err(Fatal::NotObject),
    }
}

/// Reads the item of a list that `index` stands for.
pub fn get_index<'a>(v: &'a Value, index: &Value) -> (r: Result<&'a Value, Fatal>)
    ensures
        match read_index(v@, index@) {
            Ok(x) => r is Ok && r->Ok_0@ == x,
            Err(e) => r == Err::<&Value, Fatal>(e),
        },
{
    match v {
        Value::List(items) => match index {
            Value::Int(i) => match wrap_list_index(items.len(), *i) {
                Some(at) => {
                    assert(values_view(items@)[at as int] == items@[at as int]@);
                    return Ok(&items[at]);
                },
                None => {
                    assert(values_view(items@).len() == items@.len());
                    return Err(Fatal::OutOfRange);
                },
            },
            _ => {
                return Err(Fatal::NotInt);
            },
        },
        _ => {
            return Err(Fatal::NotList);
        },
    }
}

/// A second handle on `v`.
pub fn share(v: &Value) -> (r: Result<Value, Fatal>)
    ensures
        match cloned(v@) {
            Ok(x) => r is Ok && r->Ok_0 == *v,
            Err(e) => r == Err::<Value, Fatal>(e),
        },
{
    match v.try_clone() {
        Some(x) => Ok(x),
        None => Err(Fatal::EffectCloned),
    }
}

/// The base is scheduled on top of the step that reads the field.
pub open spec fn dot_step(node: DotExpression, s: InterpreterView) -> Result<
    InterpreterView,
    Fatal,
> {
    then_eval(s.push_eval(custom("DotInner", Combiner::DotInner(node.prop))), expression(node.base))
}

/// The object on top of the value stack gives way to its field `prop`.
pub open spec fn dot_inner_step(prop: String, s: InterpreterView) -> Result<InterpreterView, Fatal> {
    match s.pop_value() {
        Err(e) => Err(e),
        Ok((base, s1)) => match read_key(base, prop@) {
            Err(e) => Err(e),
            Ok(v) => match cloned(v) {
                Err(e) => Err(e),
                Ok(v) => s1.push_value(v),
            },
        },
    }
}

/// The base and then the index are scheduled on top of the step that reads
/// the item.
pub open spec fn index_step(node: IndexExpression, s: InterpreterView) -> Result<
    InterpreterView,
    Fatal,
> {
    then_eval(
        then_eval(s.push_eval(custom("IndexInner", Combiner::IndexInner)), expression(node.index)),
        expression(node.base),
    )
}

/// The list and the index on top of the value stack give way to the item.
pub open spec fn index_inner_step(s: InterpreterView) -> Result<InterpreterView, Fatal> {
    match pop_pair(s) {
        Err(e) => Err(e),
        Ok((base, index, s2)) => match read_index(base, index) {
            Err(e) => Err(e),
            Ok(v) => match cloned(v) {
                Err(e) => Err(e),
                Ok(v) => s2.push_value(v),
            },
        },
    }
}

impl DotExpression {
    /// Schedules the base and the step that reads the field.
    pub fn eval(&self, machine: &mut Interpreter) -> (r: Result<(), Fatal>)
        ensures
            done(r, final(machine)@, dot_step(*self, old(machine)@)),
    {
        machine.push_eval(
            Eval::Custom(Custom::new("DotInner", Combiner::DotInner(self.prop.clone()))),
        )?;
        machine.push_eval(Eval::Expression(self.base.clone()))
    }

    pub fn short_name(&self) -> (r: &'static str)
        ensures
            r == "Dot",
    {
        "Dot"
    }
}

/// Takes an object and leaves its field `prop`.
pub fn dot_inner(prop: &String, machine: &mut Interpreter) -> (r: Result<(), Fatal>)
    ensures
        done(r, final(machine)@, dot_inner_step(*prop, old(machine)@)),
{
    let base = machine.pop_value()?;
    let v = share(get_key(&base, prop)?)?;
    machine.push_value(v)
}

impl IndexExpression {
    /// Schedules the base, the index, and the step that reads the item.
    pub fn eval(&self, machine: &mut Interpreter) -> (r: Result<(), Fatal>)
        ensures
            done(r, final(machine)@, index_step(*self, old(machine)@)),
    {
        machine.push_eval(Eval::Custom(Custom::new("IndexInner", Combiner::IndexInner)))?;
        machine.push_eval(Eval::Expression(self.index.clone()))?;
        machine.push_eval(Eval::Expression(self.base.clone()))
    }

    pub fn short_name(&self) -> (r: &'static str)
        ensures
            r == "Index",
    {
        "Index"
    }
}

/// Takes a list and an index and leaves the item.
pub fn index_inner(machine: &mut Interpreter) -> (r: Result<(), Fatal>)
    ensures
        done(r, final(machine)@, index_inner_step(old(machine)@)),
{
    let index = machine.pop_value()?;
    let base = machine.pop_value()?;
    let v = share(get_index(&base, &index)?)?;
    machine.push_value(v)
}

/// The instructions that evaluate the elements of an object literal, in the
/// order in which they are pushed. A `...` element is followed by the check
/// that its value is an object.
pub open spec fn object_schedule(elems: Seq<ObjectElem>) -> Seq<EvalView>
    decreases elems.len(),
{
    if elems.len() == 0 {
        Seq::empty()
    } else {
        object_schedule(elems.skip(1)) + match elems[0] {
            ObjectElem::Kv(_, e) => seq![expression(e)],
            ObjectElem::Spread(e) => seq![
                EvalView::Step(Eval::CheckTypeObject(CheckTypeObject { first: true })),
                expression(e),
            ],
        }
    }
}

/// Whether a map holds an effect.
pub open spec fn holds_effect(m: Map<KeyView, ValueView>) -> bool {
    exists|k: KeyView| #[trigger] m.dom().contains(k) && m[k] is Effect
}

/// The map that the values of an object literal's elements make. A later
/// element replaces what an earlier one set for the same key. The value of a
/// `...` element must be an object that holds no effect.
pub open spec fn object_fill(elems: Seq<ObjectElem>, values: Seq<ValueView>) -> Result<
    Map<KeyView, ValueView>,
    Fatal,
>
    decreases elems.len(),
{
    if elems.len() == 0 || values.len() != elems.len() {
        Ok(Map::empty())
    } else {
        match object_fill(elems.drop_last(), values.drop_last()) {
            Err(e) => Err(e),
            Ok(acc) => match elems.last() {
                ObjectElem::Kv(name, _) => Ok(acc.insert(KeyView::Str(name@), values.last())),
                ObjectElem::Spread(_) => match values.last() {
                    ValueView::Object(m) => if holds_effect(m) {
                        Err(Fatal::EffectCloned)
                    } else {
                        Ok(acc.union_prefer_right(m))
                    },
                    _ => Err(Fatal::NotObject),
                },
            },
        }
    }
}

/// The elements are scheduled, first to last, on top of the step that collects
/// their values.
pub open spec fn object_step(node: Rc<Object>, s: InterpreterView) -> Result<
    InterpreterView,
    Fatal,
> {
    match s.push_eval(custom("ObjectInner", Combiner::ObjectInner(node))) {
        Err(e) => Err(e),
        Ok(s1) => s1.push_evals(object_schedule(node.elems@)),
    }
}

/// The values of the elements are taken off the value stack and the object
/// that they make is left in their place.
pub open spec fn object_inner_step(node: Rc<Object>, s: InterpreterView) -> Result<
    InterpreterView,
    Fatal,
> {
    match s.take_values(node.elems@.len()) {
        Err(e) => Err(e),
        Ok((values, s1)) => match object_fill(node.elems@, values) {
            Err(e) => Err(e),
            Ok(m) => s1.push_value(ValueView::Object(m)),
        },
    }
}

/// The keys whose entry that counts lies before position `j`.
pub open spec fn settled(entries: Seq<(Key, Value)>, j: int) -> Set<KeyView> {
    Set::new(
        |k: KeyView|
            exists|i: int|
                0 <= i < j && i < entries.len() && (#[trigger] entries[i]).0@ == k && absent_after(
                    entries,
                    k,
                    i,
                ),
    )
}

/// Every key of the map has an entry that no later entry shadows.
pub proof fn lemma_entries_settled(entries: Seq<(Key, Value)>)
    ensures
        settled(entries, entries.len() as int) =~= entries_view(entries).dom(),
    decreases entries.len(),
{
    if entries.len() > 0 {
        let t = entries.drop_last();
        let n = entries.len() as int;
        lemma_entries_settled(t);
        assert forall|k: KeyView| settled(entries, n).contains(k) implies entries_view(
            entries,
        ).dom().contains(k) by {
            let i = choose|i: int|
                0 <= i < n && i < entries.len() && (#[trigger] entries[i]).0@ == k && absent_after(
                    entries,
                    k,
                    i,
                );
            lemma_entries_last(entries, i);
        }
        assert forall|k: KeyView| entries_view(entries).dom().contains(k) implies settled(
            entries,
            n,
        ).contains(k) by {
            if entries.last().0@ == k {
                assert(entries[n - 1].0@ == k && absent_after(entries, k, n - 1));
            } else {
                assert(settled(t, n - 1).contains(k));
                let i = choose|i: int|
                    0 <= i < n - 1 && i < t.len() && (#[trigger] t[i]).0@ == k && absent_after(
                        t,
                        k,
                        i,
                    );
                assert(entries[i].0@ == k);
                assert(absent_after(entries, k, i)) by {
                    assert forall|j: int| i < j < entries.len() implies (#[trigger] entries[j]).0@
                        != k by {
                        if j < n - 1 {
                            assert(t[j].0@ != k);
                        }
                    }
                }
            }
        }
    }
}

/// Sets in `out` what `from` holds, with handles on its values.
pub(crate) fn extend_table(out: &mut Table, from: &Table) -> (r: Result<(), Fatal>)
    ensures
        match r {
            Ok(()) => final(out)@ == old(out)@.union_prefer_right(from@) && !holds_effect(from@),
            Err(e) => e == Fatal::EffectCloned && holds_effect(from@),
        },
{
    let n = from.entries.len();
    let mut j: usize = 0;
    proof {
        assert(settled(from.entries@, 0) =~= Set::empty());
        assert(out@ =~= old(out)@.union_prefer_right(from@.restrict(settled(from.entries@, 0))));
    }
    while j < n
        invariant
            n == from.entries@.len(),
            0 <= j <= n,
            out@ == old(out)@.union_prefer_right(from@.restrict(settled(from.entries@, j as int))),
            forall|k: KeyView|
                #[trigger] settled(from.entries@, j as int).contains(k) ==> !(from@[k] is Effect),
        decreases n - j,
    {
        let ghost k = from.entries@[j as int].0@;
        match from.find(&from.entries[j].0) {
            Some(at) => {
                if at == j {
                    let v = match from.entries[j].1.try_clone() {
                        Some(v) => v,
                        None => {
                            assert(from@.dom().contains(k) && from@[k] is Effect);
                            return Err(Fatal::EffectCloned);
                        },
                    };
                    let key = from.entries[j].0.duplicate();
                    out.insert(key, v);
                    proof {
                        assert(settled(from.entries@, j + 1) =~= settled(
                            from.entries@,
                            j as int,
                        ).insert(k)) by {
                            assert(from.entries@[j as int].0@ == k && absent_after(
                                from.entries@,
                                k,
                                j as int,
                            ));
                        }
                        assert(out@ =~= old(out)@.union_prefer_right(
                            from@.restrict(settled(from.entries@, j + 1)),
                        ));
                    }
                } else {
                    proof {
                        assert(from.entries@[at as int].0@ == k);
                        assert(settled(from.entries@, j + 1) =~= settled(from.entries@, j as int));
                    }
                }
            },
            None => {
                proof {
                    assert(from.entries@[j as int].0@ == k);
                    assert(false);
                }
            },
        }
        j += 1;
    }
    proof {
        lemma_entries_settled(from.entries@);
        assert(from@.restrict(settled(from.entries@, n as int)) =~= from@);
        assert(!holds_effect(from@)) by {
            if holds_effect(from@) {
                let k = choose|k: KeyView| #[trigger] from@.dom().contains(k) && from@[k] is Effect;
                assert(settled(from.entries@, n as int).contains(k));
            }
        }
    }
    Ok(())
}

/// Makes the table of an object literal from the values of its elements.
pub(crate) fn fill(elems: &Vec<ObjectElem>, values: Vec<Value>) -> (r: Result<Table, Fatal>)
    requires
        values@.len() == elems@.len(),
    ensures
        match object_fill(elems@, values_view(values@)) {
            Ok(m) => r is Ok && r->Ok_0@ == m,
            Err(e) => r == Err::<Table, Fatal>(e),
        },
{
    let mut rest = values;
    let ghost given = values@;
    let mut out = Table::new();
    let n = elems.len();
    let mut i: usize = 0;
    while i < n
        invariant
            n == elems@.len(),
            given == values@,
            given.len() == n,
            rest@.len() == n,
            0 <= i <= n,
            forall|j: int| i <= j < n ==> rest@[j] == given[j],
            object_fill(elems@.take(i as int), values_view(given).take(i as int)) == Ok::<
                Map<KeyView, ValueView>,
                Fatal,
            >(out@),
        decreases n - i,
    {
        proof {
            assert(elems@.take(i + 1).drop_last() =~= elems@.take(i as int));
            assert(values_view(given).take(i + 1).drop_last() =~= values_view(given).take(
                i as int,
            ));
            assert(values_view(given).take(i + 1).last() == given[i as int]@);
            assert(elems@.take(i + 1).last() == elems@[i as int]);
        }
        match &elems[i] {
            ObjectElem::Kv(name, _) => {
                let mut v = Value::Null;
                std::mem::swap(&mut v, &mut rest[i]);
                out.insert_name(name.clone(), v);
            },
            ObjectElem::Spread(_) => {
                match &rest[i] {
                    Value::Object(table) => {
                        match extend_table(&mut out, &**table) {
                            Ok(()) => {},
                            Err(e) => {
                                proof {
                                    lemma_object_fill_error(
                                        elems@,
                                        values_view(given),
                                        i + 1,
                                        Fatal::EffectCloned,
                                    );
                                }
                                return Err(e);
                            },
                        }
                    },
                    _ => {
                        proof {
                            lemma_object_fill_error(
                                elems@,
                                values_view(given),
                                i + 1,
                                Fatal::NotObject,
                            );
                        }
                        return Err(Fatal::NotObject);
                    },
                }
            },
        }
        i += 1;
    }
    proof {
        assert(elems@.take(n as int) =~= elems@);
        assert(values_view(given).take(n as int) =~= values_view(given));
    }
    Ok(out)
}

/// The first element at which the map cannot be made decides the outcome.
pub proof fn lemma_object_fill_error(
    elems: Seq<ObjectElem>,
    values: Seq<ValueView>,
    k: int,
    e: Fatal,
)
    requires
        elems.len() == values.len(),
        0 <= k <= elems.len(),
        object_fill(elems.take(k), values.take(k)) == Err::<Map<KeyView, ValueView>, Fatal>(e),
    ensures
        object_fill(elems, values) == Err::<Map<KeyView, ValueView>, Fatal>(e),
    decreases elems.len() - k,
{
    if k < elems.len() {
        assert(elems.take(k + 1).drop_last() =~= elems.take(k));
        assert(values.take(k + 1).drop_last() =~= values.take(k));
        lemma_object_fill_error(elems, values, k + 1, e);
    } else {
        assert(elems.take(k) =~= elems);
        assert(values.take(k) =~= values);
    }
}

impl Object {
    /// Schedules the elements, first to last, and the step that collects
    /// their values.
    pub fn eval(node: &Rc<Object>, machine: &mut Interpreter) -> (r: Result<(), Fatal>)
        ensures
            done(r, final(machine)@, object_step(*node, old(machine)@)),
    {
        machine.push_eval(
            Eval::Custom(Custom::new("ObjectInner", Combiner::ObjectInner(node.clone()))),
        )?;
        if !machine.is_live() {
            return Err(Fatal::NoContext);
        }
        let ghost start = machine@;
        let n = node.elems.len();
        let mut k: usize = 0;
        proof {
            lemma_push_evals_empty(machine@);
            assert(node.elems@.skip(n as int) =~= Seq::empty());
        }
        while k < n
            invariant
                n == node.elems@.len(),
                0 <= k <= n,
                start.has_sub(),
                start.push_evals(object_schedule(node.elems@.skip(n - k))) == Ok::<
                    InterpreterView,
                    Fatal,
                >(machine@),
            decreases n - k,
        {
            let ghost before = object_schedule(node.elems@.skip(n - k));
            proof {
                assert(node.elems@.skip(n - k - 1).skip(1) =~= node.elems@.skip(n - k));
            }
            match &node.elems[n - 1 - k] {
                ObjectElem::Kv(_, e) => {
                    proof {
                        lemma_push_evals_push(start, before, expression(*e));
                        assert(before.push(expression(*e)) =~= before + seq![expression(*e)]);
                    }
                    machine.push_eval(Eval::Expression(e.clone()))?;
                },
                ObjectElem::Spread(e) => {
                    let ghost check = EvalView::Step(
                        Eval::CheckTypeObject(CheckTypeObject { first: true }),
                    );
                    proof {
                        lemma_push_evals_push(start, before, check);
                        lemma_push_evals_push(start, before.push(check), expression(*e));
                        assert(before.push(check).push(expression(*e)) =~= before + seq![
                            check,
                            expression(*e),
                        ]);
                    }
                    machine.push_eval(Eval::CheckTypeObject(CheckTypeObject { first: true }))?;
                    machine.push_eval(Eval::Expression(e.clone()))?;
                },
            }
            k += 1;
        }
        proof {
            assert(node.elems@.skip(0) =~= node.elems@);
        }
        Ok(())
    }

    pub fn short_name(&self) -> (r: &'static str)
        ensures
            r == "Object",
    {
        "Object"
    }
}

/// Takes the values of an object literal's elements and leaves the object.
pub fn object_inner(node: &Rc<Object>, machine: &mut Interpreter) -> (r: Result<(), Fatal>)
    ensures
        done(r, final(machine)@, object_inner_step(*node, old(machine)@)),
{
    let values = machine.take_values(node.elems.len())?;
    let table = fill(&node.elems, values)?;
    machine.push_value(Value::Object(Rc::new(table)))
}

} // verus!
