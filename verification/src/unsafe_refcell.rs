//! A cell whose borrows the caller vouches for.
//!
//! The borrow rules a debug-time counter would enforce are enforced here by
//! the borrow checker: shared borrows go through `&self`, exclusive ones
//! through `&mut self`.

use vstd::prelude::*;

verus! {

pub struct UnsafeRefCell<T> {
    pub value: T,
}

/// A shared borrow of the cell's value.
pub struct UnsafeRef<'a, T> {
    pub value: &'a T,
}

impl<T> UnsafeRefCell<T> {
    /// A cell holding `value`.
    pub fn new(value: T) -> (c: Self)
        ensures
            c.value == value,
    {
        UnsafeRefCell { value }
    }

    /// The value, consuming the cell.
    pub fn into_inner(self) -> (v: T)
        ensures
            v == self.value,
    {
        self.value
    }

    /// A shared borrow of the value.
    pub fn borrow(&self) -> (r: UnsafeRef<'_, T>)
        ensures
            *r.value == self.value,
    {
        UnsafeRef { value: &self.value }
    }

    /// An exclusive borrow of the value.
    pub fn borrow_mut(&mut self) -> (r: &mut T)
        ensures
            *r == old(self).value,
            final(self).value == *final(r),
    {
        &mut self.value
    }

    /// An exclusive borrow of the value when the cell itself is held
    /// exclusively.
    pub fn get_mut(&mut self) -> (r: &mut T)
        ensures
            *r == old(self).value,
            final(self).value == *final(r),
    {
        &mut self.value
    }
}

impl<'a, T> UnsafeRef<'a, T> {
    /// The borrowed value.
    pub fn get(&self) -> (r: &T)
        ensures
            *r == *self.value,
    {
        self.value
    }
}

} // verus!
