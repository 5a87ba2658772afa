//! Keys, and the operations on a table of entries.

use crate::value::{entries_view, value_view, Key, KeyView, Table, Value, ValueView};
use vstd::prelude::*;

verus! {

impl Key {
    /// Whether two keys are the same key.
    pub fn same(&self, other: &Key) -> (r: bool)
        ensures
            r == (self@ == other@),
    {
        match (self, other) {
            (Key::Null, Key::Null) => true,
            (Key::Bool(a), Key::Bool(b)) => *a == *b,
            (Key::Int(a), Key::Int(b)) => *a == *b,
            (Key::Symbol(a), Key::Symbol(b)) => *a == *b,
            (Key::Str(a), Key::Str(b)) => *a == *b,
            _ => false,
        }
    }

    /// Whether the key is the string `name`.
    pub fn is_name(&self, name: &String) -> (r: bool)
        ensures
            r == (self@ == KeyView::Str(name@)),
    {
        match self {
            Key::Str(s) => *s == *name,
            _ => false,
        }
    }

    /// A copy of the key.
    pub fn duplicate(&self) -> (r: Key)
        ensures
            r@ == self@,
    {
        match self {
            Key::Null => Key::Null,
            Key::Bool(b) => Key::Bool(*b),
            Key::Int(i) => Key::Int(*i),
            Key::Symbol(s) => Key::Symbol(*s),
            Key::Str(s) => Key::Str(s.clone()),
        }
    }
}

/// No entry of `s` after position `i` has the key `k`.
pub open spec fn absent_after(s: Seq<(Key, Value)>, k: KeyView, i: int) -> bool {
    forall|j: int| i < j < s.len() ==> (#[trigger] s[j]).0@ != k
}

/// An entry that no later entry shadows is what the map holds for its key.
pub proof fn lemma_entries_last(s: Seq<(Key, Value)>, i: int)
    requires
        0 <= i < s.len(),
        absent_after(s, s[i].0@, i),
    ensures
        entries_view(s).dom().contains(s[i].0@),
        entries_view(s)[s[i].0@] == value_view(s[i].1),
    decreases s.len(),
{
    if i < s.len() - 1 {
        let t = s.drop_last();
        assert(s[s.len() - 1].0@ != s[i].0@);
        assert(absent_after(t, t[i].0@, i)) by {
            assert forall|j: int| i < j < t.len() implies (#[trigger] t[j]).0@ != t[i].0@ by {
                assert(s[j].0@ != s[i].0@);
            }
        }
        lemma_entries_last(t, i);
    }
}

/// A key that no entry has is not in the map.
pub proof fn lemma_entries_absent(s: Seq<(Key, Value)>, k: KeyView)
    requires
        absent_after(s, k, -1),
    ensures
        !entries_view(s).dom().contains(k),
    decreases s.len(),
{
    if s.len() > 0 {
        let t = s.drop_last();
        assert(s[s.len() - 1].0@ != k);
        assert(absent_after(t, k, -1)) by {
            assert forall|j: int| -1 < j < t.len() implies (#[trigger] t[j]).0@ != k by {
                assert(s[j].0@ != k);
            }
        }
        lemma_entries_absent(t, k);
    }
}

/// Replacing the value of an entry that no later entry shadows is an insert.
pub proof fn lemma_entries_update(s: Seq<(Key, Value)>, i: int, e: (Key, Value))
    requires
        0 <= i < s.len(),
        absent_after(s, s[i].0@, i),
        e.0@ == s[i].0@,
    ensures
        entries_view(s.update(i, e)) == entries_view(s).insert(e.0@, value_view(e.1)),
    decreases s.len(),
{
    let u = s.update(i, e);
    let t = s.drop_last();
    if i == s.len() - 1 {
        assert(u.drop_last() =~= t);
        assert(entries_view(u) =~= entries_view(s).insert(e.0@, value_view(e.1)));
    } else {
        assert(s[s.len() - 1].0@ != s[i].0@);
        assert(absent_after(t, t[i].0@, i)) by {
            assert forall|j: int| i < j < t.len() implies (#[trigger] t[j]).0@ != t[i].0@ by {
                assert(s[j].0@ != s[i].0@);
            }
        }
        lemma_entries_update(t, i, e);
        assert(u.drop_last() =~= t.update(i, e));
        assert(u.last() == s.last());
        assert(entries_view(u) =~= entries_view(s).insert(e.0@, value_view(e.1)));
    }
}

/// Adding an entry at the end is an insert.
pub proof fn lemma_entries_push(s: Seq<(Key, Value)>, e: (Key, Value))
    ensures
        entries_view(s.push(e)) == entries_view(s).insert(e.0@, value_view(e.1)),
{
    assert(s.push(e).drop_last() =~= s);
}

/// The keys of the map are the keys of the entries.
pub proof fn lemma_entries_dom(s: Seq<(Key, Value)>, k: KeyView)
    ensures
        entries_view(s).dom().contains(k) <==> exists|j: int|
            0 <= j < s.len() && (#[trigger] s[j]).0@ == k,
    decreases s.len(),
{
    if s.len() > 0 {
        let t = s.drop_last();
        lemma_entries_dom(t, k);
        if entries_view(s).dom().contains(k) {
            if s.last().0@ == k {
                assert(s[s.len() - 1].0@ == k);
            } else {
                let j = choose|j: int| 0 <= j < t.len() && (#[trigger] t[j]).0@ == k;
                assert(s[j].0@ == k);
            }
        }
        if exists|j: int| 0 <= j < s.len() && (#[trigger] s[j]).0@ == k {
            let j = choose|j: int| 0 <= j < s.len() && (#[trigger] s[j]).0@ == k;
            if j < s.len() - 1 {
                assert(t[j].0@ == k);
            }
        }
    }
}

impl Table {
    /// The empty table.
    pub fn new() -> (t: Table)
        ensures
            t@ == Map::<KeyView, ValueView>::empty(),
            t.entries@.len() == 0,
    {
        Table { entries: Vec::new() }
    }

    /// The number of entries kept, shadowed ones included.
    pub fn len(&self) -> (n: usize)
        ensures
            n == self.entries@.len(),
    {
        self.entries.len()
    }

    /// The position of the entry that counts for `key`.
    pub fn find(&self, key: &Key) -> (r: Option<usize>)
        ensures
            match r {
                Some(i) => {
                    &&& i < self.entries@.len()
                    &&& self.entries@[i as int].0@ == key@
                    &&& absent_after(self.entries@, key@, i as int)
                    &&& self@.dom().contains(key@)
                    &&& self@[key@] == self.entries@[i as int].1@
                },
                None => !self@.dom().contains(key@) && absent_after(self.entries@, key@, -1),
            },
    {
        let mut i: usize = self.entries.len();
        while i > 0
            invariant
                i <= self.entries@.len(),
                absent_after(self.entries@, key@, i as int - 1),
            decreases i,
        {
            i -= 1;
            if self.entries[i].0.same(key) {
                proof {
                    lemma_entries_last(self.entries@, i as int);
                }
                return Some(i);
            }
        }
        proof {
            lemma_entries_absent(self.entries@, key@);
        }
        None
    }

    /// The position of the entry that counts for the string key `name`.
    pub fn find_name(&self, name: &String) -> (r: Option<usize>)
        ensures
            match r {
                Some(i) => {
                    &&& i < self.entries@.len()
                    &&& self.entries@[i as int].0@ == KeyView::Str(name@)
                    &&& absent_after(self.entries@, KeyView::Str(name@), i as int)
                    &&& self@.dom().contains(KeyView::Str(name@))
                    &&& self@[KeyView::Str(name@)] == self.entries@[i as int].1@
                },
                None => !self@.dom().contains(KeyView::Str(name@)) && absent_after(
                    self.entries@,
                    KeyView::Str(name@),
                    -1,
                ),
            },
    {
        let mut i: usize = self.entries.len();
        while i > 0
            invariant
                i <= self.entries@.len(),
                absent_after(self.entries@, KeyView::Str(name@), i as int - 1),
            decreases i,
        {
            i -= 1;
            if self.entries[i].0.is_name(name) {
                proof {
                    lemma_entries_last(self.entries@, i as int);
                }
                return Some(i);
            }
        }
        proof {
            lemma_entries_absent(self.entries@, KeyView::Str(name@));
        }
        None
    }

    /// The value that the table holds for `key`.
    pub fn get(&self, key: &Key) -> (r: Option<&Value>)
        ensures
            match r {
                Some(v) => self@.dom().contains(key@) && v@ == self@[key@],
                None => !self@.dom().contains(key@),
            },
    {
        match self.find(key) {
            Some(i) => Some(&self.entries[i].1),
            None => None,
        }
    }

    /// The value that the table holds for the string key `name`.
    pub fn get_name(&self, name: &String) -> (r: Option<&Value>)
        ensures
            match r {
                Some(v) => self@.dom().contains(KeyView::Str(name@)) && v@ == self@[KeyView::Str(
                    name@,
                )],
                None => !self@.dom().contains(KeyView::Str(name@)),
            },
    {
        match self.find_name(name) {
            Some(i) => Some(&self.entries[i].1),
            None => None,
        }
    }

    /// Sets the value for `key`, replacing the one it had.
    pub fn insert(&mut self, key: Key, value: Value)
        ensures
            final(self)@ == old(self)@.insert(key@, value@),
    {
        match self.find(&key) {
            Some(i) => {
                proof {
                    lemma_entries_update(self.entries@, i as int, (self.entries@[i as int].0, value));
                }
                self.entries[i].1 = value;
                assert(self.entries@ =~= old(self).entries@.update(
                    i as int,
                    (old(self).entries@[i as int].0, value),
                ));
            },
            None => {
                proof {
                    lemma_entries_push(self.entries@, (key, value));
                }
                self.entries.push((key, value));
            },
        }
    }

    /// Sets the value for the string key `name`, replacing the one it had.
    pub fn insert_name(&mut self, name: String, value: Value)
        ensures
            final(self)@ == old(self)@.insert(KeyView::Str(name@), value@),
    {
        self.insert(Key::Str(name), value)
    }

    /// Takes the string key `name` out of the table, with every entry that it
    /// had, and returns the value that counted.
    pub fn take_name(&mut self, name: &String) -> (r: Option<Value>)
        ensures
            final(self)@ == old(self)@.remove(KeyView::Str(name@)),
            match r {
                Some(v) => old(self)@.dom().contains(KeyView::Str(name@)) && v@ == old(self)@[KeyView::Str(
                    name@,
                )],
                None => !old(self)@.dom().contains(KeyView::Str(name@)),
            },
    {
        take_entries(&mut self.entries, name)
    }
}

/// Removes every entry for the string key `name`, last entry first.
fn take_entries(entries: &mut Vec<(Key, Value)>, name: &String) -> (r: Option<Value>)
    ensures
        entries_view(final(entries)@) == entries_view(old(entries)@).remove(KeyView::Str(name@)),
        match r {
            Some(v) => entries_view(old(entries)@).dom().contains(KeyView::Str(name@)) && v@
                == entries_view(old(entries)@)[KeyView::Str(name@)],
            None => !entries_view(old(entries)@).dom().contains(KeyView::Str(name@)),
        },
    decreases old(entries)@.len(),
{
    let ghost all = entries@;
    match entries.pop() {
        None => {
            assert(entries_view(all) =~= entries_view(all).remove(KeyView::Str(name@)));
            None
        },
        Some(entry) => {
            assert(entries@ == all.drop_last());
            assert(entry == all.last());
            let below = take_entries(entries, name);
            if entry.0.is_name(name) {
                assert(entries_view(entries@) =~= entries_view(all).remove(KeyView::Str(name@)));
                Some(entry.1)
            } else {
                proof {
                    lemma_entries_push(entries@, entry);
                }
                entries.push(entry);
                assert(entries_view(entries@) =~= entries_view(all).remove(KeyView::Str(name@)));
                below
            }
        },
    }
}

} // verus!
