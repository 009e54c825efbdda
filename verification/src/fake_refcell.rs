//! A cell without borrow tracking; the borrow checker does the tracking here.

use vstd::prelude::*;

verus! {

#[derive(Debug, Clone)]
pub struct FakeRefCell<T> {
    pub value: T,
}

impl<T> FakeRefCell<T> {
    /// A cell containing `value`.
    pub fn new(value: T) -> (c: Self)
        ensures
            c.value == value,
    {
        FakeRefCell { value }
    }

    /// A shared reference to the value.
    pub fn borrow(&self) -> (r: &T)
        ensures
            *r == self.value,
    {
        &self.value
    }

    /// An exclusive reference to the value.
    pub fn borrow_mut(&mut self) -> (r: &mut T)
        ensures
            *r == old(self).value,
            final(self).value == *final(r),
    {
        &mut self.value
    }
}

} // verus!
