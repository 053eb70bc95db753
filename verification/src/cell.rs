//! A single-owner container of one value with unchecked `get` and `set`.
use vstd::prelude::*;

verus! {

/// Holds one value; reading copies it out, writing replaces it.
pub struct Cell<T> {
    value: T,
}

impl<T> View for Cell<T> {
    type V = T;

    /// The value currently held.
    closed spec fn view(&self) -> T {
        self.value
    }
}

impl<T> Cell<T> {
    /// A cell holding `value`.
    pub fn new(value: T) -> (cell: Self)
        ensures
            cell@ == value,
    {
        Cell { value }
    }

    /// A copy of the value currently held.
    pub fn get(&self) -> (value: T) where T: Copy
        ensures
            value == self@,
    {
        self.value
    }

    /// Replaces the value held with `value`.
    pub fn set(&mut self, value: T)
        ensures
            final(self)@ == value,
        no_unwind
    {
        self.value = value;
    }
}

} // verus!
