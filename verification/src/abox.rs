//! A box that hands out copies of its value, never the value itself.

use vstd::prelude::*;

verus! {

/// A box around one value. The value goes in as a copy and comes out as a
/// copy, so no reference to what the box holds ever leaves it.
pub struct AtomicBox<T> {
    value: T,
}

impl<T> View for AtomicBox<T> {
    type V = T;

    /// The value held.
    closed spec fn view(&self) -> T {
        self.value
    }
}

impl<T: Clone> AtomicBox<T> {
    /// A box that holds a copy of `t`.
    pub fn new(t: &T) -> (b: Self)
        ensures
            cloned(*t, b@),
    {
        AtomicBox { value: t.clone() }
    }

    /// A copy of the value held.
    pub fn get(&self) -> (t: T)
        ensures
            cloned(self@, t),
    {
        self.value.clone()
    }
}

} // verus!
