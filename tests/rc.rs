use smart_pointers::rc::{Rc, RcHeap};

#[test]
fn rc_test() {
    let mut heap = RcHeap::new();
    let x = Rc::new(&mut heap, 5);
    assert_eq!(*x.value(&heap), 5);

    let y = Rc::clone(&x, &mut heap);
    assert_eq!(*x.value(&heap), 5);
    assert_eq!(*y.value(&heap), 5);

    assert!(Rc::ptr_eq(&x, &y));
}

#[test]
fn test_drop_check() {
    let (y, x, mut heap);
    x = String::from("foo");
    heap = RcHeap::new();
    y = Rc::new(&mut heap, &x);
    assert_eq!(*y.value(&heap), "foo");
}

#[test]
fn rc_count_follows_clones_and_releases() {
    let mut heap = RcHeap::new();
    let a = Rc::new(&mut heap, String::from("shared"));
    assert_eq!(heap.count(&a), 1);
    let mut clones = Vec::new();
    for n in 1..=4usize {
        clones.push(a.clone(&mut heap));
        assert_eq!(heap.count(&a), 1 + n);
    }
    // release in an order unrelated to the order of cloning
    let c2 = clones.remove(2);
    assert!(!c2.release(&mut heap));
    assert_eq!(heap.count(&a), 4);
    assert!(!a.release(&mut heap));
    assert_eq!(heap.count(&clones[0]), 3);
    let c0 = clones.remove(0);
    assert!(!c0.release(&mut heap));
    let last = clones.pop().unwrap();
    assert!(!last.release(&mut heap));
    assert_eq!(heap.count(&clones[0]), 1);
    assert_eq!(clones[0].value(&heap), "shared");
    let only = clones.pop().unwrap();
    assert!(only.release(&mut heap));
}

#[test]
fn rc_single_handle_frees_on_release() {
    let mut heap = RcHeap::new();
    let a = Rc::new(&mut heap, 7u64);
    assert_eq!(heap.count(&a), 1);
    assert!(a.release(&mut heap));
}

#[test]
fn rc_release_leaves_other_blocks() {
    let mut heap = RcHeap::new();
    let a = Rc::new(&mut heap, 1i32);
    let b = Rc::new(&mut heap, 2i32);
    assert!(a.release(&mut heap));
    assert_eq!(*b.value(&heap), 2);
    assert_eq!(heap.count(&b), 1);
    let c = Rc::new(&mut heap, 3i32);
    assert!(!Rc::ptr_eq(&b, &c));
    assert_eq!(*c.value(&heap), 3);
}

#[test]
fn rc_ptr_eq_is_identity() {
    let mut heap = RcHeap::new();
    let a = Rc::new(&mut heap, 42);
    let b = Rc::new(&mut heap, 42);
    assert!(!Rc::ptr_eq(&a, &b));
    assert_eq!(*a.value(&heap), *b.value(&heap));
    let a2 = a.clone(&mut heap);
    assert!(Rc::ptr_eq(&a, &a2));
    assert!(Rc::ptr_eq(&a2, &a));
    assert!(Rc::ptr_eq(&a, &a));
    assert!(!Rc::ptr_eq(&a2, &b));
}
