use vstd::prelude::*;

verus! {

/// A plain owner of one value, handing out shared and exclusive borrows of it.
pub struct StateWrapper<T> {
    inner: T,
}

/// Marks a type as a state that its owner registers once, under the
/// type's own name.
pub trait AutoState {}

impl<T> StateWrapper<T> {
    pub closed spec fn value(&self) -> T {
        self.inner
    }

    pub fn new(value: T) -> (r: Self)
        ensures
            r.value() == value,
    {
        StateWrapper { inner: value }
    }

    pub fn get_ref(&self) -> (r: &T)
        ensures
            *r == self.value(),
    {
        &self.inner
    }

    pub fn get_mut(&mut self) -> (r: &mut T)
        ensures
            *r == old(self).value(),
            final(self).value() == *final(r),
    {
        &mut self.inner
    }
}

} // verus!
