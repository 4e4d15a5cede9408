//! The guard of the pool behind a spin lock.

use std::ops::Deref;
use std::ops::DerefMut;
use vstd::prelude::*;
use crate::held::held_mut;
use crate::held::held_ref;
use crate::spin_lock_object_pool::SpinLockObjectPool;

verus! {

/// What a guard holds until it is dropped: the object, and the pool it has
/// to go back to.
#[verifier::reject_recursive_types(T)]
struct Loan<'a, T, I, R> where I: Fn() -> T, R: Fn(&mut T) {
    pool: &'a SpinLockObjectPool<T, I, R>,
    data: Option<T>,
}

impl<'a, T, I: Fn() -> T, R: Fn(&mut T)> Loan<'a, T, I, R> {
    /// Whether the object has been handed back to the pool.
    pub closed spec fn has_let_go(&self) -> bool {
        self.data is None
    }
}

impl<'a, T, I: Fn() -> T, R: Fn(&mut T)> Drop for Loan<'a, T, I, R> {
    /// Hands the object back to the pool, which resets and stores it.
    fn drop(&mut self)
        ensures
            final(self).has_let_go(),
        opens_invariants none
        no_unwind
    {
        let mut held: Option<T> = None;
        std::mem::swap(&mut self.data, &mut held);
        match held {
            Some(data) => {
                self.pool.attach(data);
            },
            None => {},
        }
    }
}

/// An object on loan from a [`SpinLockObjectPool`]. It dereferences to the
/// object; dropping it resets the object and returns it to the pool.
#[verifier::reject_recursive_types(T)]
pub struct SpinLockReusable<'a, T, I = fn() -> T, R = fn(&mut T)> where
    I: Fn() -> T,
    R: Fn(&mut T),
{
    loan: Loan<'a, T, I, R>,
}

impl<'a, T, I: Fn() -> T, R: Fn(&mut T)> SpinLockReusable<'a, T, I, R> {
    #[verifier::type_invariant]
    spec fn holds_object(self) -> bool {
        self.loan.data is Some
    }

    /// The object that the guard holds.
    pub closed spec fn view(&self) -> T {
        self.loan.data->0
    }

    /// The pool that the object goes back to.
    pub closed spec fn pool(&self) -> &'a SpinLockObjectPool<T, I, R> {
        self.loan.pool
    }

    /// The guard that holds `data` and returns it to `pool` when dropped.
    pub fn new(pool: &'a SpinLockObjectPool<T, I, R>, data: T) -> (guard: Self)
        ensures
            guard@ == data,
            guard.pool() == pool,
    {
        SpinLockReusable { loan: Loan { pool, data: Some(data) } }
    }
}

impl<'a, T, I: Fn() -> T, R: Fn(&mut T)> DerefMut for SpinLockReusable<'a, T, I, R> {
    fn deref_mut(&mut self) -> (object: &mut T)
        ensures
            *object == old(self)@,
            final(self)@ == *final(object),
            final(self).pool() == old(self).pool(),
    {
        proof {
            use_type_invariant(&*self);
        }
        held_mut(&mut self.loan.data)
    }
}

impl<'a, T, I: Fn() -> T, R: Fn(&mut T)> Deref for SpinLockReusable<'a, T, I, R> {
    type Target = T;

    fn deref(&self) -> (object: &T)
        ensures
            *object == self@,
    {
        proof {
            use_type_invariant(self);
        }
        held_ref(&self.loan.data)
    }
}

} // verus!
