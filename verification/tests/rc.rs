use smart_ptrs::rc::{release, retain, Rc, SOLE_OWNER};

struct Probe {
    drops: std::rc::Rc<std::cell::Cell<u32>>,
}

impl Drop for Probe {
    fn drop(&mut self) {
        self.drops.set(self.drops.get() + 1);
    }
}

fn probe() -> (Probe, std::rc::Rc<std::cell::Cell<u32>>) {
    let drops = std::rc::Rc::new(std::cell::Cell::new(0));
    (Probe { drops: drops.clone() }, drops)
}

#[test]
fn new_handle_is_sole_owner() {
    let (handle, slot) = Rc::new(42);
    assert_eq!(slot.count(), 1);
    assert_eq!(*handle.deref(&slot), 42);
}

#[test]
fn clone_then_drop_both_scenario() {
    let (first, mut slot) = Rc::new(42);
    let second = first.clone(&mut slot);
    assert_eq!(*first.deref(&slot), 42);
    assert_eq!(*second.deref(&slot), 42);
    assert_eq!(slot.count(), 2);
    first.drop(&mut slot);
    assert_eq!(slot.count(), 1);
    assert_eq!(*second.deref(&slot), 42);
    second.drop(&mut slot);
    assert_eq!(slot.count(), 0);
}

#[test]
fn value_is_released_by_the_last_handle() {
    let (value, drops) = probe();
    let (first, mut slot) = Rc::new(value);
    let second = first.clone(&mut slot);
    assert_eq!(drops.get(), 0);
    first.drop(&mut slot);
    assert_eq!(drops.get(), 0);
    assert_eq!(second.deref(&slot).drops.get(), 0);
    second.drop(&mut slot);
    assert_eq!(drops.get(), 1);
    assert_eq!(slot.count(), 0);
    std::mem::drop(slot);
    assert_eq!(drops.get(), 1);
}

#[test]
fn sole_handle_releases_at_once() {
    let (value, drops) = probe();
    let (handle, mut slot) = Rc::new(value);
    handle.drop(&mut slot);
    assert_eq!(drops.get(), 1);
    assert_eq!(slot.count(), 0);
}

#[test]
fn n_clones_release_after_the_last_drop() {
    let n = 25usize;
    let (value, drops) = probe();
    let (first, mut slot) = Rc::new(value);
    let mut handles = vec![first];
    for made in 1..=n {
        let next = handles[0].clone(&mut slot);
        handles.push(next);
        assert_eq!(slot.count(), made + 1);
    }
    let mut left = n + 1;
    for handle in handles {
        assert_eq!(drops.get(), 0);
        handle.drop(&mut slot);
        left -= 1;
        assert_eq!(slot.count(), left);
    }
    assert_eq!(drops.get(), 1);
}

#[test]
fn interleaved_clones_and_drops_release_once() {
    let (value, drops) = probe();
    let (a, mut slot) = Rc::new(value);
    let b = a.clone(&mut slot);
    a.drop(&mut slot);
    let c = b.clone(&mut slot);
    let d = c.clone(&mut slot);
    assert_eq!(slot.count(), 3);
    b.drop(&mut slot);
    d.drop(&mut slot);
    assert_eq!(slot.count(), 1);
    assert_eq!(drops.get(), 0);
    c.drop(&mut slot);
    assert_eq!(slot.count(), 0);
    assert_eq!(drops.get(), 1);
}

#[test]
fn count_moves_by_one() {
    assert_eq!(SOLE_OWNER, 1);
    assert_eq!(retain(1), 2);
    assert_eq!(retain(41), 42);
    assert_eq!(retain(usize::MAX - 1), usize::MAX);
    assert_eq!(release(1), None);
    assert_eq!(release(2), Some(1));
    assert_eq!(release(usize::MAX), Some(usize::MAX - 1));
}

#[test]
fn handle_wraps_any_value() {
    let (first, mut slot) = Rc::new(smart_ptrs::refcell::RefCell::new(1));
    let second = first.clone(&mut slot);
    assert_eq!(
        second.deref(&slot).state(),
        smart_ptrs::refcell::RefState::UnReferenced
    );
    first.drop(&mut slot);
    second.drop(&mut slot);
    assert_eq!(slot.count(), 0);
}
