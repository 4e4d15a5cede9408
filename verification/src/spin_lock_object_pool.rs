//! The pool behind a spin lock.

use vstd::prelude::*;
use crate::callback::can_make;
use crate::callback::can_reset;
use crate::callback::makes;
use crate::callback::reset_in_place;
use crate::callback::reuse_or_make;
use crate::held::shelve;
use crate::held::take_last;
use crate::spin_lock::SpinLock;
use crate::spin_lock_reusable::SpinLockReusable;

verus! {

/// A pool that keeps its spare objects in a list behind a [`SpinLock`]: as
/// [`MutexObjectPool`](crate::MutexObjectPool), but a thread that finds the
/// list in use waits actively instead of being descheduled.
///
/// ```
/// use lockfree_object_pool::SpinLockObjectPool;
///
/// let pool = SpinLockObjectPool::<u32>::new(|| Default::default(), |v| { *v = 0; });
/// let mut item = pool.pull();
/// *item = 5;
/// let work = *item * 5;
/// ```
#[verifier::reject_recursive_types(T)]
pub struct SpinLockObjectPool<T, I = fn() -> T, R = fn(&mut T)> where I: Fn() -> T, R: Fn(&mut T) {
    objects: SpinLock<Vec<T>>,
    reset: R,
    init: I,
}

impl<T, I: Fn() -> T, R: Fn(&mut T)> SpinLockObjectPool<T, I, R> {
    #[verifier::type_invariant]
    spec fn callbacks_usable(self) -> bool {
        can_make(self.init) && can_reset(self.reset)
    }

    /// The callback that makes the pool's objects.
    pub closed spec fn init_callback(&self) -> I {
        self.init
    }

    /// The callback that resets an object on its way back into the pool.
    pub closed spec fn reset_callback(&self) -> R {
        self.reset
    }

    /// Creates a pool. `init` makes an object; `reset` brings a used object
    /// back to the state in which the next user is to find it.
    pub fn new(init: I, reset: R) -> (pool: Self)
        requires
            can_make(init),
            can_reset(reset),
        ensures
            pool.init_callback() == init,
            pool.reset_callback() == reset,
    {
        SpinLockObjectPool { objects: SpinLock::new(Vec::new()), reset, init }
    }

    /// Hands out an object. When the guard returned is dropped, the object is
    /// reset and goes back into the pool.
    pub fn pull(&self) -> (guard: SpinLockReusable<'_, T, I, R>)
        ensures
            guard.pool() == self,
    {
        let stored = self.detach();
        self.lend(stored)
    }

    /// The guard for `stored`, the object found on the list; where the list
    /// was empty the guard holds a new object.
    pub fn lend(&self, stored: Option<T>) -> (guard: SpinLockReusable<'_, T, I, R>)
        ensures
            guard.pool() == self,
            match stored {
                Some(object) => guard@ == object,
                None => makes(self.init_callback(), guard@),
            },
    {
        proof {
            use_type_invariant(self);
        }
        SpinLockReusable::new(self, reuse_or_make(stored, &self.init))
    }

    /// Takes the last spare object off the list, if there is one. `None`
    /// also where the lock could not be had.
    pub fn detach(&self) -> Option<T> {
        match self.objects.lock() {
            Some(mut objects) => take_last(objects.data_mut()),
            None => None,
        }
    }

    /// The way back into the pool: `data` is reset and put at the end of
    /// the list of spare objects, as [`shelve`] states it. Where the list
    /// could not be had, the object is reset and dropped.
    pub fn attach(&self, data: T)
        opens_invariants none
        no_unwind
    {
        proof {
            use_type_invariant(self);
        }
        match self.objects.lock() {
            Some(mut objects) => {
                shelve(objects.data_mut(), &self.reset, data);
            },
            None => {
                let mut data = data;
                reset_in_place(&self.reset, &mut data);
            },
        }
    }

    /// Resets `object` in place with the pool's reset callback.
    pub fn restore(&self, object: &mut T)
        ensures
            exists|slot: &mut T|
                *slot == *old(object) && *final(slot) == *final(object) && #[trigger] call_ensures(
                    self.reset_callback(),
                    (slot,),
                    (),
                ),
        opens_invariants none
        no_unwind
    {
        proof {
            use_type_invariant(self);
        }
        reset_in_place(&self.reset, object);
        assert(self.reset_callback() == self.reset);
    }
}

} // verus!
