//! The guard of the baseline without a pool.

use std::ops::Deref;
use std::ops::DerefMut;
use vstd::prelude::*;

verus! {

/// An object from a [`NoneObjectPool`](crate::NoneObjectPool). It
/// dereferences to the object and takes the object with it when dropped.
pub struct NoneReusable<T> {
    data: T,
}

impl<T> NoneReusable<T> {
    /// The object that the guard holds.
    pub closed spec fn view(&self) -> T {
        self.data
    }

    /// The guard that holds `data`.
    pub fn new(data: T) -> (guard: Self)
        ensures
            guard@ == data,
    {
        NoneReusable { data }
    }
}

impl<T> DerefMut for NoneReusable<T> {
    fn deref_mut(&mut self) -> (object: &mut T)
        ensures
            *object == old(self)@,
            final(self)@ == *final(object),
    {
        &mut self.data
    }
}

impl<T> Deref for NoneReusable<T> {
    type Target = T;

    fn deref(&self) -> (object: &T)
        ensures
            *object == self@,
    {
        &self.data
    }
}

} // verus!
