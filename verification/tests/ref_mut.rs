use kal::ref_mut::{Heap, KalRef, List, Mut, Object, Ref};
use kal::value::{Table, Value};

// A handle that is the only one on its cell turns into the `Mut`.
#[test]
fn a_sole_handle_becomes_mutable() {
    let mut heap: Heap<Vec<i64>> = Heap::new();
    let r = Ref::new(&mut heap, vec![1, 2]);
    assert_eq!(heap.ref_count(&r), 1);
    let mut m: Mut<Vec<i64>> = match r.try_into_mut(&mut heap) {
        Ok(m) => m,
        Err(_) => panic!("Expected the only handle to become mutable."),
    };
    assert_eq!(m.get(&heap), Some(&vec![1, 2]));
    assert!(m.replace(&mut heap, vec![3]) == Ok(vec![1, 2]));
    let r = m.into_ref(&mut heap);
    assert_eq!(r.try_get(&heap), Some(&vec![3]));
}

// One of two handles does not.
#[test]
fn a_shared_handle_stays_immutable() {
    let mut heap: Heap<i64> = Heap::new();
    let a = Ref::new(&mut heap, 7);
    let b = a.try_clone(&mut heap).unwrap();
    assert_eq!(heap.ref_count(&a), 2);
    let a = match a.try_into_mut(&mut heap) {
        Ok(_) => panic!("Expected a shared handle to stay immutable."),
        Err(a) => a,
    };
    assert_eq!(heap.ref_count(&a), 2);
    b.release(&mut heap);
    assert_eq!(heap.ref_count(&a), 1);
    assert!(a.try_into_mut(&mut heap).is_ok());
}

#[test]
fn a_borrowed_handle_reads_nothing() {
    let mut heap: Heap<i64> = Heap::new();
    let mut a = Ref::new(&mut heap, 7);
    let mut m = a.try_borrow(&mut heap).unwrap();
    assert_eq!(heap.ref_count(&a), 2);
    assert!(a.try_get(&heap).is_none());
    assert!(a.try_clone(&mut heap).is_none());
    assert!(a.try_borrow(&mut heap).is_none());
    assert!(m.replace(&mut heap, 8) == Ok(7));
    m.release(&mut heap);
    assert_eq!(heap.ref_count(&a), 1);
    assert_eq!(a.try_get(&heap), Some(&8));
}

#[test]
fn the_last_handle_takes_the_value_out() {
    let mut heap: Heap<String> = Heap::new();
    let a = Ref::new(&mut heap, "v".to_string());
    let b = a.try_clone(&mut heap).unwrap();
    let a = match a.try_into_inner(&mut heap) {
        Ok(_) => panic!("Expected the value to stay while it is shared."),
        Err(a) => a,
    };
    b.release(&mut heap);
    assert_eq!(a.try_into_inner(&mut heap).ok(), Some("v".to_string()));
    assert!(heap.cells[0].value.is_none());
    assert_eq!(heap.cells[0].ref_count, 0);
}

#[test]
fn a_mut_takes_the_value_out_when_no_ref_is_kept() {
    let mut heap: Heap<i64> = Heap::new();
    let mut a = Ref::new(&mut heap, 1);
    let m = a.try_borrow(&mut heap).unwrap();
    let m = match m.try_into_inner(&mut heap) {
        Ok(_) => panic!("Expected the value to stay while a handle is kept."),
        Err(m) => m,
    };
    a.release(&mut heap);
    assert_eq!(m.try_into_inner(&mut heap).ok(), Some(1));
}

#[test]
fn releasing_the_last_handle_empties_the_cell() {
    let mut heap: Heap<i64> = Heap::new();
    let a = Ref::new(&mut heap, 1);
    let b = Ref::new(&mut heap, 2);
    assert_eq!(heap.cells.len(), 2);
    a.release(&mut heap);
    assert!(heap.cells[0].value.is_none());
    assert_eq!(b.try_get(&heap), Some(&2));
}

#[test]
fn a_sole_handle_changes_the_value_in_place() {
    let mut heap: Heap<Vec<i64>> = Heap::new();
    let mut a = Ref::new(&mut heap, vec![1]);
    a.try_get_mut(&mut heap).unwrap().push(2);
    assert_eq!(a.try_get(&heap), Some(&vec![1, 2]));
    let b = a.try_clone(&mut heap).unwrap();
    assert!(a.try_get_mut(&mut heap).is_none());
    b.release(&mut heap);
    let mut m = a.try_into_mut(&mut heap).ok().unwrap();
    m.get_mut(&mut heap).unwrap().push(3);
    assert_eq!(m.get(&heap), Some(&vec![1, 2, 3]));
}

#[test]
fn a_plain_handle_changes_the_value_while_it_is_alone() {
    let mut heap: Heap<Vec<i64>> = Heap::new();
    let mut a = KalRef::new(&mut heap, vec![1]);
    a.borrow_mut(&mut heap).unwrap().push(2);
    assert_eq!(a.get(&heap), Some(&vec![1, 2]));
    let b = a.duplicate(&mut heap).unwrap();
    assert!(a.borrow_mut(&mut heap).is_none());
    let a = match a.try_into_inner(&mut heap) {
        Ok(_) => panic!("Expected the value to stay while it is shared."),
        Err(a) => a,
    };
    b.release(&mut heap);
    assert_eq!(a.try_into_inner(&mut heap).ok(), Some(vec![1, 2]));
}

#[test]
fn a_list_opens_for_change_while_it_is_alone() {
    let mut heap: Heap<Vec<Value>> = Heap::new();
    let xs = List::new(&mut heap, vec![Value::Int(1)]);
    let ys = xs.try_clone(&mut heap).unwrap();
    let xs = match xs.try_into_mut(&mut heap) {
        Ok(_) => panic!("Expected a shared list to stay closed."),
        Err(xs) => xs,
    };
    ys.release(&mut heap);
    let opened = xs.try_into_mut(&mut heap);
    let opened = match opened {
        Ok(m) => m,
        Err(_) => panic!("Expected the only handle to open the list."),
    };
    let xs = opened.into_ref(&mut heap);
    assert!(xs.try_clone(&mut heap).is_some());
}

#[test]
fn an_object_opens_for_change_while_it_is_alone() {
    let mut heap: Heap<Table> = Heap::new();
    let o = Object::new(&mut heap, Table::new());
    let opened = match o.try_into_mut(&mut heap) {
        Ok(m) => m,
        Err(_) => panic!("Expected the only handle to open the object."),
    };
    assert!(heap.cells[0].borrowed);
    let o = opened.into_ref(&mut heap);
    assert!(!heap.cells[0].borrowed);
    let p = o.try_clone(&mut heap).unwrap();
    assert!(p.try_into_mut(&mut heap).is_err());
}
