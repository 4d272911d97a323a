//! A container that holds exactly one value, replaced wholesale by `set` and
//! copied out by `get`.
use vstd::prelude::*;

verus! {

/// Holds one value. No reference to the value leaves the container: `get`
/// hands out a copy and `set` replaces the value as a whole.
#[derive(Debug)]
pub struct Cell<T> {
    value: T,
}

impl<T> View for Cell<T> {
    type V = T;

    /// The value currently held.
    closed spec fn view(&self) -> T {
        self.value
    }
}

impl<T> Cell<T> {
    /// A cell holding `value`.
    pub fn new(value: T) -> (r: Self)
        ensures
            r@ == value,
    {
        Cell { value }
    }

    /// Replaces the held value by `value`.
    pub fn set(&mut self, value: T)
        ensures
            final(self)@ == value,
    {
        self.value = value;
    }

    /// A copy of the held value.
    pub fn get(&self) -> (r: T)
        where
            T: Copy,
        ensures
            r == self@,
    {
        self.value
    }
}

} // verus!
