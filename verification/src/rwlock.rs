//! The interface of a lock for many readers or one writer.
use vstd::prelude::*;

verus! {

/// Access to a value of type `T` for many readers or one writer at a time,
/// from more than one thread. This is the interface alone: nothing here
/// implements it, and it makes no promise on how an implementation waits,
/// in what order it serves its callers, or what it does after a panic.
pub trait RwLock<T> {
    /// Shared access to the value, once no writer holds it.
    fn read(&self) -> &T;

    /// Exclusive access to the value, once nobody else holds it.
    fn write(&self) -> &mut T;
}

} // verus!
