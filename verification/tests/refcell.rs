use smart_ptrs::refcell::{Ref, RefCell, RefState};

#[test]
fn new_cell_is_unreferenced() {
    let cell = RefCell::new(5);
    assert_eq!(cell.state(), RefState::UnReferenced);
}

#[test]
fn shared_then_exclusive_scenario() {
    let mut cell = RefCell::new(5);
    let a = cell.borrow().expect("first shared borrow");
    assert_eq!(*a.deref(&cell), 5);
    let b = cell.borrow().expect("second shared borrow");
    assert_eq!(*b.deref(&cell), 5);
    assert_eq!(cell.state(), RefState::Referenced(2));
    assert!(cell.borrow_mut().is_none());
    a.drop(&mut cell);
    assert!(cell.borrow_mut().is_none());
    b.drop(&mut cell);
    let mut guard = cell.borrow_mut().expect("exclusive borrow");
    assert_eq!(*guard.deref(&cell), 5);
    *guard.deref_mut(&mut cell) = 10;
    assert_eq!(*guard.deref(&cell), 10);
    guard.drop(&mut cell);
    let c = cell.borrow().expect("shared borrow after release");
    assert_eq!(*c.deref(&cell), 10);
    c.drop(&mut cell);
    assert_eq!(cell.state(), RefState::UnReferenced);
}

#[test]
fn borrow_moves_unreferenced_to_one_reader() {
    let mut cell = RefCell::new("v");
    let guard = cell.borrow();
    assert!(guard.is_some());
    assert_eq!(cell.state(), RefState::Referenced(1));
}

#[test]
fn many_shared_borrows_are_live_together() {
    let mut cell = RefCell::new(3u8);
    let mut guards: Vec<Ref<u8>> = Vec::new();
    for n in 1..=100usize {
        let guard = cell.borrow().expect("shared borrow");
        guards.push(guard);
        assert_eq!(cell.state(), RefState::Referenced(n));
    }
    for guard in guards.iter() {
        assert_eq!(*guard.deref(&cell), 3);
    }
    let mut left = 100usize;
    for guard in guards {
        guard.drop(&mut cell);
        left -= 1;
        if left == 0 {
            assert_eq!(cell.state(), RefState::UnReferenced);
        } else {
            assert_eq!(cell.state(), RefState::Referenced(left));
        }
    }
    assert!(cell.borrow_mut().is_some());
}

#[test]
fn borrow_fails_while_exclusive() {
    let mut cell = RefCell::new(1);
    let guard = cell.borrow_mut().expect("exclusive borrow");
    assert_eq!(cell.state(), RefState::Exclusive);
    assert!(cell.borrow().is_none());
    assert_eq!(cell.state(), RefState::Exclusive);
    guard.drop(&mut cell);
    assert!(cell.borrow().is_some());
}

#[test]
fn borrow_mut_fails_while_exclusive() {
    let mut cell = RefCell::new(1);
    let guard = cell.borrow_mut().expect("exclusive borrow");
    assert!(cell.borrow_mut().is_none());
    assert_eq!(cell.state(), RefState::Exclusive);
    guard.drop(&mut cell);
    assert_eq!(cell.state(), RefState::UnReferenced);
    assert!(cell.borrow_mut().is_some());
}

#[test]
fn borrow_mut_fails_while_shared() {
    let mut cell = RefCell::new(1);
    let a = cell.borrow().expect("shared borrow");
    assert!(cell.borrow_mut().is_none());
    assert_eq!(cell.state(), RefState::Referenced(1));
    a.drop(&mut cell);
    assert!(cell.borrow_mut().is_some());
}

#[test]
fn refused_requests_leave_the_value() {
    let mut cell = RefCell::new(String::from("kept"));
    let guard = cell.borrow_mut().expect("exclusive borrow");
    assert!(cell.borrow().is_none());
    assert!(cell.borrow_mut().is_none());
    assert_eq!(guard.deref(&cell).as_str(), "kept");
}

#[test]
fn write_guard_changes_are_seen_by_later_readers() {
    let mut cell = RefCell::new(vec![1, 2]);
    let mut guard = cell.borrow_mut().expect("exclusive borrow");
    guard.deref_mut(&mut cell).push(3);
    guard.drop(&mut cell);
    let reader = cell.borrow().expect("shared borrow");
    assert_eq!(reader.deref(&cell), &vec![1, 2, 3]);
}

#[test]
fn state_transitions_on_request() {
    assert_eq!(RefState::UnReferenced.borrow(), Some(RefState::Referenced(1)));
    assert_eq!(RefState::Referenced(1).borrow(), Some(RefState::Referenced(2)));
    assert_eq!(RefState::Referenced(41).borrow(), Some(RefState::Referenced(42)));
    assert!(RefState::Exclusive.borrow().is_none());
    assert_eq!(RefState::UnReferenced.borrow_mut(), Some(RefState::Exclusive));
    assert!(RefState::Referenced(1).borrow_mut().is_none());
    assert!(RefState::Referenced(7).borrow_mut().is_none());
    assert!(RefState::Exclusive.borrow_mut().is_none());
}

#[test]
fn state_transitions_on_release() {
    assert_eq!(RefState::Referenced(1).release_shared(), Some(RefState::UnReferenced));
    assert_eq!(RefState::Referenced(2).release_shared(), Some(RefState::Referenced(1)));
    assert_eq!(RefState::Referenced(9).release_shared(), Some(RefState::Referenced(8)));
    assert!(RefState::UnReferenced.release_shared().is_none());
    assert!(RefState::Exclusive.release_shared().is_none());
    assert!(RefState::Referenced(0).release_shared().is_none());
    assert_eq!(RefState::Exclusive.release_exclusive(), Some(RefState::UnReferenced));
    assert!(RefState::UnReferenced.release_exclusive().is_none());
    assert!(RefState::Referenced(1).release_exclusive().is_none());
}

#[test]
fn largest_reader_count_is_reached() {
    let last = RefState::Referenced(usize::MAX - 1).borrow();
    assert_eq!(last, Some(RefState::Referenced(usize::MAX)));
}
