//! Counted references with an exclusive mode.
//!
//! A `Heap` owns values in cells. A `Ref` is a counted handle on a cell:
//! every `Ref` that exists is counted in its cell, and a cell whose count
//! falls to zero gives up its value. As long as one handle is the only one on
//! its cell it can turn into a `Mut`, the handle that may change the value.
//! While a `Mut` exists no `Ref` on the cell reads the value or is cloned.
//!
//! Nothing is mutable through a `Ref`; a change needs the `Mut`, and the `Mut`
//! needs the count to be one.

use crate::value::{Table, Value};
use std::marker::PhantomData;
use vstd::prelude::*;

verus! {

/// A cell of a heap: the value, the number of handles on it, and whether one
/// of them is a `Mut`.
pub struct KcInner<T> {
    pub borrowed: bool,
    pub ref_count: usize,
    pub value: Option<T>,
}

/// The cells that handles refer to.
pub struct Heap<T> {
    pub cells: Vec<KcInner<T>>,
}

/// A counted handle on a cell, for reading.
pub struct Ref<T> {
    index: usize,
    of: PhantomData<T>,
}

/// The one handle on a cell that may change its value.
pub struct Mut<T> {
    index: usize,
    of: PhantomData<T>,
}

impl<T> Ref<T> {
    /// The cell that the handle refers to.
    pub closed spec fn cell(self) -> int {
        self.index as int
    }
}

impl<T> Mut<T> {
    /// The cell that the handle refers to.
    pub closed spec fn cell(self) -> int {
        self.index as int
    }
}

impl<T> Heap<T> {
    /// Whether cell `i` holds a value.
    pub open spec fn live(self, i: int) -> bool {
        0 <= i < self.cells@.len() && self.cells@[i].ref_count > 0 && self.cells@[i].value is Some
    }

    /// The number of handles on cell `i`.
    pub open spec fn count(self, i: int) -> nat {
        self.cells@[i].ref_count as nat
    }

    /// Whether a `Mut` exists for cell `i`.
    pub open spec fn borrowed(self, i: int) -> bool {
        self.cells@[i].borrowed
    }

    /// The value in cell `i`.
    pub open spec fn value(self, i: int) -> T {
        self.cells@[i].value->0
    }

    /// Whether `other` is this heap with cell `i` replaced by `cell`.
    pub open spec fn updated(self, other: Heap<T>, i: int, cell: KcInner<T>) -> bool {
        other.cells@ == self.cells@.update(i, cell)
    }

    /// A heap without cells.
    pub fn new() -> (heap: Heap<T>)
        ensures
            heap.cells@.len() == 0,
    {
        Heap { cells: Vec::new() }
    }

    /// The number of handles on the cell of `r`.
    pub fn ref_count(&self, r: &Ref<T>) -> (n: usize)
        ensures
            n == if r.cell() < self.cells@.len() {
                self.count(r.cell())
            } else {
                0
            },
    {
        if r.index < self.cells.len() {
            self.cells[r.index].ref_count
        } else {
            0
        }
    }
}

impl<T> Ref<T> {
    /// Puts `value` into a cell of its own and hands out the first handle on
    /// it.
    pub fn new(heap: &mut Heap<T>, value: T) -> (r: Ref<T>)
        ensures
            r.cell() == old(heap).cells@.len(),
            final(heap).cells@ == old(heap).cells@.push(
                KcInner { borrowed: false, ref_count: 1, value: Some(value) },
            ),
            final(heap).live(r.cell()),
            final(heap).count(r.cell()) == 1,
    {
        let index = heap.cells.len();
        heap.cells.push(KcInner { borrowed: false, ref_count: 1, value: Some(value) });
        Ref { index, of: PhantomData }
    }

    /// A second handle on the same cell. There is none while a `Mut`
    /// exists.
    pub fn try_clone(&self, heap: &mut Heap<T>) -> (r: Option<Ref<T>>)
        ensures
            r is Some <==> old(heap).live(self.cell()) && !old(heap).borrowed(self.cell()) && old(
                heap,
            ).count(self.cell()) < usize::MAX,
            match r {
                Some(c) => c.cell() == self.cell() && old(heap).updated(
                    *final(heap),
                    self.cell(),
                    KcInner {
                        ref_count: (old(heap).count(self.cell()) + 1) as usize,
                        ..old(heap).cells@[self.cell()]
                    },
                ),
                None => *final(heap) == *old(heap),
            },
    {
        let i = self.index;
        if i >= heap.cells.len() {
            return None;
        }
        let n = heap.cells[i].ref_count;
        if n == 0 || n == usize::MAX || heap.cells[i].borrowed || heap.cells[i].value.is_none() {
            return None;
        }
        heap.cells[i].ref_count = n + 1;
        Some(Ref { index: i, of: PhantomData })
    }

    /// The value. It cannot be read while a `Mut` exists.
    pub fn try_get<'a>(&self, heap: &'a Heap<T>) -> (r: Option<&'a T>)
        ensures
            r is Some <==> heap.live(self.cell()) && !heap.borrowed(self.cell()),
            r is Some ==> *r->0 == heap.value(self.cell()),
    {
        let i = self.index;
        if i >= heap.cells.len() {
            return None;
        }
        if heap.cells[i].ref_count == 0 || heap.cells[i].borrowed {
            return None;
        }
        heap.cells[i].value.as_ref()
    }

    /// The value, for changing it in place. That takes the handle to be the
    /// only one.
    pub fn try_get_mut<'a>(&mut self, heap: &'a mut Heap<T>) -> (r: Option<&'a mut T>)
        ensures
            *final(self) == *old(self),
            r is Some <==> old(heap).live(old(self).cell()) && old(heap).count(old(self).cell())
                == 1,
            match r {
                Some(v) => *v == old(heap).value(old(self).cell()) && old(heap).updated(
                    *final(heap),
                    old(self).cell(),
                    KcInner { value: Some(*final(v)), ..old(heap).cells@[old(self).cell()] },
                ),
                None => *final(heap) == *old(heap),
            },
    {
        let i = self.index;
        if i >= heap.cells.len() {
            return None;
        }
        if heap.cells[i].ref_count != 1 || heap.cells[i].value.is_none() {
            return None;
        }
        match &mut heap.cells[i].value {
            Some(v) => Some(v),
            None => None,
        }
    }

    /// Turns the handle into the `Mut` of its cell. That takes the handle to
    /// be the only one: with a count of one it succeeds, with any other
    /// count the handle comes back unchanged.
    pub fn try_into_mut(self, heap: &mut Heap<T>) -> (r: Result<Mut<T>, Ref<T>>)
        ensures
            r is Ok <==> old(heap).live(self.cell()) && old(heap).count(self.cell()) == 1,
            match r {
                Ok(m) => m.cell() == self.cell() && old(heap).updated(
                    *final(heap),
                    self.cell(),
                    KcInner { borrowed: true, ..old(heap).cells@[self.cell()] },
                ),
                Err(back) => back == self && *final(heap) == *old(heap),
            },
    {
        let i = self.index;
        if i >= heap.cells.len() {
            return Err(self);
        }
        if heap.cells[i].ref_count != 1 || heap.cells[i].value.is_none() {
            return Err(self);
        }
        heap.cells[i].borrowed = true;
        Ok(Mut { index: i, of: PhantomData })
    }

    /// Hands out the `Mut` of the cell and keeps the handle. The handle
    /// reads nothing until the `Mut` is turned back or released.
    pub fn try_borrow(&mut self, heap: &mut Heap<T>) -> (r: Option<Mut<T>>)
        ensures
            *final(self) == *old(self),
            r is Some <==> old(heap).live(old(self).cell()) && old(heap).count(old(self).cell())
                == 1,
            match r {
                Some(m) => m.cell() == old(self).cell() && old(heap).updated(
                    *final(heap),
                    old(self).cell(),
                    KcInner {
                        borrowed: true,
                        ref_count: 2,
                        value: old(heap).cells@[old(self).cell()].value,
                    },
                ),
                None => *final(heap) == *old(heap),
            },
    {
        let i = self.index;
        if i >= heap.cells.len() {
            return None;
        }
        if heap.cells[i].ref_count != 1 || heap.cells[i].value.is_none() {
            return None;
        }
        heap.cells[i].borrowed = true;
        heap.cells[i].ref_count = 2;
        assert(heap.cells@ =~= old(heap).cells@.update(
            i as int,
            KcInner { borrowed: true, ref_count: 2, value: old(heap).cells@[i as int].value },
        ));
        Some(Mut { index: i, of: PhantomData })
    }

    /// Takes the value out of the cell. That takes the handle to be the only
    /// one.
    pub fn try_into_inner(self, heap: &mut Heap<T>) -> (r: Result<T, Ref<T>>)
        ensures
            r is Ok <==> old(heap).live(self.cell()) && old(heap).count(self.cell()) == 1,
            match r {
                Ok(v) => v == old(heap).value(self.cell()) && old(heap).updated(
                    *final(heap),
                    self.cell(),
                    KcInner { borrowed: false, ref_count: 0, value: None },
                ),
                Err(back) => back == self && *final(heap) == *old(heap),
            },
    {
        let i = self.index;
        if i >= heap.cells.len() {
            return Err(self);
        }
        if heap.cells[i].ref_count != 1 || heap.cells[i].value.is_none() {
            return Err(self);
        }
        let mut cell = KcInner { borrowed: false, ref_count: 0, value: None };
        std::mem::swap(&mut cell, &mut heap.cells[i]);
        match cell.value {
            Some(v) => Ok(v),
            None => Err(self),
        }
    }

    /// Gives the handle up. The last handle on a cell takes the value with
    /// it.
    pub fn release(self, heap: &mut Heap<T>)
        ensures
            if old(heap).live(self.cell()) {
                old(heap).updated(
                    *final(heap),
                    self.cell(),
                    if old(heap).count(self.cell()) == 1 {
                        KcInner { borrowed: false, ref_count: 0, value: None }
                    } else {
                        KcInner {
                            ref_count: (old(heap).count(self.cell()) - 1) as usize,
                            ..old(heap).cells@[self.cell()]
                        }
                    },
                )
            } else {
                *final(heap) == *old(heap)
            },
    {
        let i = self.index;
        if i >= heap.cells.len() {
            return ;
        }
        let n = heap.cells[i].ref_count;
        if n == 0 || heap.cells[i].value.is_none() {
            return ;
        }
        if n == 1 {
            heap.cells[i] = KcInner { borrowed: false, ref_count: 0, value: None };
        } else {
            heap.cells[i].ref_count = n - 1;
        }
    }
}

impl<T> Mut<T> {
    /// The value.
    pub fn get<'a>(&self, heap: &'a Heap<T>) -> (r: Option<&'a T>)
        ensures
            r is Some <==> heap.live(self.cell()),
            r is Some ==> *r->0 == heap.value(self.cell()),
    {
        let i = self.index;
        if i >= heap.cells.len() {
            return None;
        }
        if heap.cells[i].ref_count == 0 {
            return None;
        }
        heap.cells[i].value.as_ref()
    }

    /// The value, for changing it in place.
    pub fn get_mut<'a>(&mut self, heap: &'a mut Heap<T>) -> (r: Option<&'a mut T>)
        ensures
            *final(self) == *old(self),
            r is Some <==> old(heap).live(old(self).cell()),
            match r {
                Some(v) => *v == old(heap).value(old(self).cell()) && old(heap).updated(
                    *final(heap),
                    old(self).cell(),
                    KcInner { value: Some(*final(v)), ..old(heap).cells@[old(self).cell()] },
                ),
                None => *final(heap) == *old(heap),
            },
    {
        let i = self.index;
        if i >= heap.cells.len() {
            return None;
        }
        if heap.cells[i].ref_count == 0 || heap.cells[i].value.is_none() {
            return None;
        }
        match &mut heap.cells[i].value {
            Some(v) => Some(v),
            None => None,
        }
    }

    /// Puts `value` in place of the value in the cell and hands the old
    /// value out.
    pub fn replace(&mut self, heap: &mut Heap<T>, value: T) -> (r: Result<T, T>)
        ensures
            *final(self) == *old(self),
            r is Ok <==> old(heap).live(old(self).cell()),
            match r {
                Ok(before) => before == old(heap).value(old(self).cell()) && old(heap).updated(
                    *final(heap),
                    old(self).cell(),
                    KcInner { value: Some(value), ..old(heap).cells@[old(self).cell()] },
                ),
                Err(back) => back == value && *final(heap) == *old(heap),
            },
    {
        let i = self.index;
        if i >= heap.cells.len() {
            return Err(value);
        }
        if heap.cells[i].ref_count == 0 || heap.cells[i].value.is_none() {
            return Err(value);
        }
        let mut slot: Option<T> = None;
        std::mem::swap(&mut slot, &mut heap.cells[i].value);
        match slot {
            Some(before) => {
                heap.cells[i].value = Some(value);
                assert(heap.cells@ =~= old(heap).cells@.update(
                    i as int,
                    KcInner { value: Some(value), ..old(heap).cells@[i as int] },
                ));
                Ok(before)
            },
            None => Err(value),
        }
    }

    /// Turns the `Mut` back into a `Ref`. A `Ref` that was kept reads
    /// again.
    pub fn into_ref(self, heap: &mut Heap<T>) -> (r: Ref<T>)
        ensures
            r.cell() == self.cell(),
            if self.cell() < old(heap).cells@.len() {
                old(heap).updated(
                    *final(heap),
                    self.cell(),
                    KcInner { borrowed: false, ..old(heap).cells@[self.cell()] },
                )
            } else {
                *final(heap) == *old(heap)
            },
    {
        let i = self.index;
        if i < heap.cells.len() {
            heap.cells[i].borrowed = false;
        }
        Ref { index: i, of: PhantomData }
    }

    /// Takes the value out of the cell. That takes no `Ref` to be kept.
    pub fn try_into_inner(self, heap: &mut Heap<T>) -> (r: Result<T, Mut<T>>)
        ensures
            r is Ok <==> old(heap).live(self.cell()) && old(heap).count(self.cell()) == 1,
            match r {
                Ok(v) => v == old(heap).value(self.cell()) && old(heap).updated(
                    *final(heap),
                    self.cell(),
                    KcInner { borrowed: false, ref_count: 0, value: None },
                ),
                Err(back) => back == self && *final(heap) == *old(heap),
            },
    {
        let i = self.index;
        if i >= heap.cells.len() {
            return Err(self);
        }
        if heap.cells[i].ref_count != 1 || heap.cells[i].value.is_none() {
            return Err(self);
        }
        let mut cell = KcInner { borrowed: false, ref_count: 0, value: None };
        std::mem::swap(&mut cell, &mut heap.cells[i]);
        match cell.value {
            Some(v) => Ok(v),
            None => Err(self),
        }
    }

    /// Gives the `Mut` up. A `Ref` that was kept reads again.
    pub fn release(self, heap: &mut Heap<T>)
        ensures
            if old(heap).live(self.cell()) {
                old(heap).updated(
                    *final(heap),
                    self.cell(),
                    if old(heap).count(self.cell()) == 1 {
                        KcInner { borrowed: false, ref_count: 0, value: None }
                    } else {
                        KcInner {
                            borrowed: false,
                            ref_count: (old(heap).count(self.cell()) - 1) as usize,
                            value: old(heap).cells@[self.cell()].value,
                        }
                    },
                )
            } else {
                *final(heap) == *old(heap)
            },
    {
        let i = self.index;
        if i >= heap.cells.len() {
            return ;
        }
        let n = heap.cells[i].ref_count;
        if n == 0 || heap.cells[i].value.is_none() {
            return ;
        }
        if n == 1 {
            heap.cells[i] = KcInner { borrowed: false, ref_count: 0, value: None };
        } else {
            heap.cells[i].borrowed = false;
            heap.cells[i].ref_count = n - 1;
            assert(heap.cells@ =~= old(heap).cells@.update(
                i as int,
                KcInner {
                    borrowed: false,
                    ref_count: (n - 1) as usize,
                    value: old(heap).cells@[i as int].value,
                },
            ));
        }
    }
}

/// A counted handle without the exclusive mode: it is cloned, read, and
/// changed in place while it is the only one on its cell, and never lent
/// out.
pub struct KalRef<T> {
    handle: Ref<T>,
}

impl<T> KalRef<T> {
    /// The cell that the handle refers to.
    pub closed spec fn cell(self) -> int {
        self.handle.cell()
    }

    /// Puts `value` into a cell of its own and hands out the first handle on
    /// it.
    pub fn new(heap: &mut Heap<T>, value: T) -> (r: KalRef<T>)
        ensures
            r.cell() == old(heap).cells@.len(),
            final(heap).cells@ == old(heap).cells@.push(
                KcInner { borrowed: false, ref_count: 1, value: Some(value) },
            ),
    {
        KalRef { handle: Ref::new(heap, value) }
    }

    /// A second handle on the same cell.
    pub fn duplicate(&self, heap: &mut Heap<T>) -> (r: Option<KalRef<T>>)
        ensures
            r is Some <==> old(heap).live(self.cell()) && !old(heap).borrowed(self.cell()) && old(
                heap,
            ).count(self.cell()) < usize::MAX,
            match r {
                Some(c) => c.cell() == self.cell() && old(heap).updated(
                    *final(heap),
                    self.cell(),
                    KcInner {
                        ref_count: (old(heap).count(self.cell()) + 1) as usize,
                        ..old(heap).cells@[self.cell()]
                    },
                ),
                None => *final(heap) == *old(heap),
            },
    {
        match self.handle.try_clone(heap) {
            Some(handle) => Some(KalRef { handle }),
            None => None,
        }
    }

    /// The value.
    pub fn get<'a>(&self, heap: &'a Heap<T>) -> (r: Option<&'a T>)
        ensures
            r is Some <==> heap.live(self.cell()) && !heap.borrowed(self.cell()),
            r is Some ==> *r->0 == heap.value(self.cell()),
    {
        self.handle.try_get(heap)
    }

    /// The value, for changing it in place. There is none while another
    /// handle is on the cell.
    pub fn borrow_mut<'a>(&mut self, heap: &'a mut Heap<T>) -> (r: Option<&'a mut T>)
        ensures
            *final(self) == *old(self),
            r is Some <==> old(heap).live(old(self).cell()) && old(heap).count(old(self).cell())
                == 1,
            match r {
                Some(v) => *v == old(heap).value(old(self).cell()) && old(heap).updated(
                    *final(heap),
                    old(self).cell(),
                    KcInner { value: Some(*final(v)), ..old(heap).cells@[old(self).cell()] },
                ),
                None => *final(heap) == *old(heap),
            },
    {
        self.handle.try_get_mut(heap)
    }

    /// Takes the value out of the cell. That takes the handle to be the only
    /// one.
    pub fn try_into_inner(self, heap: &mut Heap<T>) -> (r: Result<T, KalRef<T>>)
        ensures
            r is Ok <==> old(heap).live(self.cell()) && old(heap).count(self.cell()) == 1,
            match r {
                Ok(v) => v == old(heap).value(self.cell()) && old(heap).updated(
                    *final(heap),
                    self.cell(),
                    KcInner { borrowed: false, ref_count: 0, value: None },
                ),
                Err(back) => back == self && *final(heap) == *old(heap),
            },
    {
        match self.handle.try_into_inner(heap) {
            Ok(v) => Ok(v),
            Err(handle) => Err(KalRef { handle }),
        }
    }

    /// Gives the handle up. The last handle on a cell takes the value with
    /// it.
    pub fn release(self, heap: &mut Heap<T>)
        ensures
            if old(heap).live(self.cell()) {
                old(heap).updated(
                    *final(heap),
                    self.cell(),
                    if old(heap).count(self.cell()) == 1 {
                        KcInner { borrowed: false, ref_count: 0, value: None }
                    } else {
                        KcInner {
                            ref_count: (old(heap).count(self.cell()) - 1) as usize,
                            ..old(heap).cells@[self.cell()]
                        }
                    },
                )
            } else {
                *final(heap) == *old(heap)
            },
    {
        self.handle.release(heap)
    }
}

/// A list behind a counted handle.
pub struct List {
    vec_ref: Ref<Vec<Value>>,
}

/// A list opened for change: the one handle that may change it.
pub struct ListMut {
    vec_mut: Mut<Vec<Value>>,
}

impl List {
    /// The cell that holds the list.
    pub closed spec fn cell(self) -> int {
        self.vec_ref.cell()
    }

    /// Puts the list into a cell of its own.
    pub fn new(heap: &mut Heap<Vec<Value>>, value: Vec<Value>) -> (r: List)
        ensures
            r.cell() == old(heap).cells@.len(),
            final(heap).cells@ == old(heap).cells@.push(
                KcInner { borrowed: false, ref_count: 1, value: Some(value) },
            ),
    {
        List { vec_ref: Ref::new(heap, value) }
    }

    /// A second handle on the list. There is none while it is opened for
    /// change.
    pub fn try_clone(&self, heap: &mut Heap<Vec<Value>>) -> (r: Option<List>)
        ensures
            r is Some <==> old(heap).live(self.cell()) && !old(heap).borrowed(self.cell()) && old(
                heap,
            ).count(self.cell()) < usize::MAX,
            match r {
                Some(c) => c.cell() == self.cell() && old(heap).updated(
                    *final(heap),
                    self.cell(),
                    KcInner {
                        ref_count: (old(heap).count(self.cell()) + 1) as usize,
                        ..old(heap).cells@[self.cell()]
                    },
                ),
                None => *final(heap) == *old(heap),
            },
    {
        match self.vec_ref.try_clone(heap) {
            Some(vec_ref) => Some(List { vec_ref }),
            None => None,
        }
    }

    /// Gives the handle up. The last handle takes the list with it.
    pub fn release(self, heap: &mut Heap<Vec<Value>>)
        ensures
            if old(heap).live(self.cell()) {
                old(heap).updated(
                    *final(heap),
                    self.cell(),
                    if old(heap).count(self.cell()) == 1 {
                        KcInner { borrowed: false, ref_count: 0, value: None }
                    } else {
                        KcInner {
                            ref_count: (old(heap).count(self.cell()) - 1) as usize,
                            ..old(heap).cells@[self.cell()]
                        }
                    },
                )
            } else {
                *final(heap) == *old(heap)
            },
    {
        self.vec_ref.release(heap)
    }

    /// Opens the list for change. That takes the handle to be the only one.
    pub fn try_into_mut(self, heap: &mut Heap<Vec<Value>>) -> (r: Result<ListMut, List>)
        ensures
            r is Ok <==> old(heap).live(self.cell()) && old(heap).count(self.cell()) == 1,
            match r {
                Ok(m) => m.cell() == self.cell() && old(heap).updated(
                    *final(heap),
                    self.cell(),
                    KcInner { borrowed: true, ..old(heap).cells@[self.cell()] },
                ),
                Err(back) => back == self && *final(heap) == *old(heap),
            },
    {
        match self.vec_ref.try_into_mut(heap) {
            Ok(vec_mut) => Ok(ListMut { vec_mut }),
            Err(vec_ref) => Err(List { vec_ref }),
        }
    }
}

impl ListMut {
    /// The cell that holds the list.
    pub closed spec fn cell(self) -> int {
        self.vec_mut.cell()
    }

    /// Closes the list for change.
    pub fn into_ref(self, heap: &mut Heap<Vec<Value>>) -> (r: List)
        ensures
            r.cell() == self.cell(),
            if self.cell() < old(heap).cells@.len() {
                old(heap).updated(
                    *final(heap),
                    self.cell(),
                    KcInner { borrowed: false, ..old(heap).cells@[self.cell()] },
                )
            } else {
                *final(heap) == *old(heap)
            },
    {
        List { vec_ref: self.vec_mut.into_ref(heap) }
    }
}

/// An object behind a counted handle.
pub struct Object {
    map_ref: Ref<Table>,
}

/// An object opened for change: the one handle that may change it.
pub struct ObjectMut {
    map_mut: Mut<Table>,
}

impl Object {
    /// The cell that holds the object.
    pub closed spec fn cell(self) -> int {
        self.map_ref.cell()
    }

    /// Puts the object into a cell of its own.
    pub fn new(heap: &mut Heap<Table>, value: Table) -> (r: Object)
        ensures
            r.cell() == old(heap).cells@.len(),
            final(heap).cells@ == old(heap).cells@.push(
                KcInner { borrowed: false, ref_count: 1, value: Some(value) },
            ),
    {
        Object { map_ref: Ref::new(heap, value) }
    }

    /// A second handle on the object. There is none while it is opened for
    /// change.
    pub fn try_clone(&self, heap: &mut Heap<Table>) -> (r: Option<Object>)
        ensures
            r is Some <==> old(heap).live(self.cell()) && !old(heap).borrowed(self.cell()) && old(
                heap,
            ).count(self.cell()) < usize::MAX,
            match r {
                Some(c) => c.cell() == self.cell() && old(heap).updated(
                    *final(heap),
                    self.cell(),
                    KcInner {
                        ref_count: (old(heap).count(self.cell()) + 1) as usize,
                        ..old(heap).cells@[self.cell()]
                    },
                ),
                None => *final(heap) == *old(heap),
            },
    {
        match self.map_ref.try_clone(heap) {
            Some(map_ref) => Some(Object { map_ref }),
            None => None,
        }
    }

    /// Gives the handle up. The last handle takes the object with it.
    pub fn release(self, heap: &mut Heap<Table>)
        ensures
            if old(heap).live(self.cell()) {
                old(heap).updated(
                    *final(heap),
                    self.cell(),
                    if old(heap).count(self.cell()) == 1 {
                        KcInner { borrowed: false, ref_count: 0, value: None }
                    } else {
                        KcInner {
                            ref_count: (old(heap).count(self.cell()) - 1) as usize,
                            ..old(heap).cells@[self.cell()]
                        }
                    },
                )
            } else {
                *final(heap) == *old(heap)
            },
    {
        self.map_ref.release(heap)
    }

    /// Opens the object for change. That takes the handle to be the only one.
    pub fn try_into_mut(self, heap: &mut Heap<Table>) -> (r: Result<ObjectMut, Object>)
        ensures
            r is Ok <==> old(heap).live(self.cell()) && old(heap).count(self.cell()) == 1,
            match r {
                Ok(m) => m.cell() == self.cell() && old(heap).updated(
                    *final(heap),
                    self.cell(),
                    KcInner { borrowed: true, ..old(heap).cells@[self.cell()] },
                ),
                Err(back) => back == self && *final(heap) == *old(heap),
            },
    {
        match self.map_ref.try_into_mut(heap) {
            Ok(map_mut) => Ok(ObjectMut { map_mut }),
            Err(map_ref) => Err(Object { map_ref }),
        }
    }
}

impl ObjectMut {
    /// The cell that holds the object.
    pub closed spec fn cell(self) -> int {
        self.map_mut.cell()
    }

    /// Closes the object for change.
    pub fn into_ref(self, heap: &mut Heap<Table>) -> (r: Object)
        ensures
            r.cell() == self.cell(),
            if self.cell() < old(heap).cells@.len() {
                old(heap).updated(
                    *final(heap),
                    self.cell(),
                    KcInner { borrowed: false, ..old(heap).cells@[self.cell()] },
                )
            } else {
                *final(heap) == *old(heap)
            },
    {
        Object { map_ref: self.map_mut.into_ref(heap) }
    }
}

} // verus!
