//! The pool behind a mutex.

use std::sync::Mutex;
use std::sync::MutexGuard;
use vstd::prelude::*;
use crate::callback::can_make;
use crate::callback::can_reset;
use crate::callback::makes;
use crate::callback::reset_in_place;
use crate::callback::reuse_or_make;
use crate::held::shelve;
use crate::held::take_last;
use crate::mutex_reusable::MutexReusable;
use crate::sync::pause;
use crate::held;
use crate::sync::locked_mut;

verus! {

/// The number of attempts after which the wait for the list's mutex gives
/// up.
pub const WAIT_LIMIT: usize = usize::MAX;

/// A pool that keeps its spare objects in a list behind a `std::sync::Mutex`.
/// Pulling pops the last spare object, or makes one where the list is empty.
/// The mutex is entered with `try_lock`, again and again while it is held
/// by another thread.
///
/// ```
/// use lockfree_object_pool::MutexObjectPool;
///
/// let pool = MutexObjectPool::<u32>::new(|| Default::default(), |v| { *v = 0; });
/// let mut item = pool.pull();
/// *item = 5;
/// let work = *item * 5;
/// ```
#[verifier::reject_recursive_types(T)]
pub struct MutexObjectPool<T, I = fn() -> T, R = fn(&mut T)> where I: Fn() -> T, R: Fn(&mut T) {
    objects: Mutex<Vec<T>>,
    reset: R,
    init: I,
}

impl<T, I: Fn() -> T, R: Fn(&mut T)> MutexObjectPool<T, I, R> {
    #[verifier::type_invariant]
    spec fn callbacks_usable(self) -> bool {
        can_make(self.init) && can_reset(self.reset)
    }

    /// The callback that makes the pool's objects.
    pub closed spec fn init_callback(&self) -> I {
        self.init
    }

    /// The callback that resets an object on its way back into the pool.
    pub closed spec fn reset_callback(&self) -> R {
        self.reset
    }

    /// Creates a pool. `init` makes an object; `reset` brings a used object
    /// back to the state in which the next user is to find it.
    pub fn new(init: I, reset: R) -> (pool: Self)
        requires
            can_make(init),
            can_reset(reset),
        ensures
            pool.init_callback() == init,
            pool.reset_callback() == reset,
    {
        MutexObjectPool { objects: Mutex::new(Vec::new()), reset, init }
    }

    /// Hands out an object. When the guard returned is dropped, the object is
    /// reset and goes back into the pool.
    pub fn pull(&self) -> (guard: MutexReusable<'_, T, I, R>)
        ensures
            guard.pool() == self,
    {
        let stored = self.detach();
        self.lend(stored)
    }

    /// The guard for `stored`, the object found on the list; where the list
    /// was empty the guard holds a new object.
    pub fn lend(&self, stored: Option<T>) -> (guard: MutexReusable<'_, T, I, R>)
        ensures
            guard.pool() == self,
            match stored {
                Some(object) => guard@ == object,
                None => makes(self.init_callback(), guard@),
            },
    {
        proof {
            use_type_invariant(self);
        }
        MutexReusable::new(self, reuse_or_make(stored, &self.init))
    }

    /// Enters the mutex of the list: tries to lock it until it is free, at
    /// most `attempts` times, pausing after each refusal. `None` where it
    /// was refused every time.
    fn enter(&self, attempts: usize) -> (entered: Option<MutexGuard<'_, Vec<T>>>)
        ensures
            attempts == 0 ==> entered is None,
        opens_invariants none
        no_unwind
    {
        let mut tried: usize = 0;
        while tried < attempts
            decreases attempts - tried,
        {
            match held::enter(&self.objects) {
                Some(objects) => {
                    return Some(objects);
                },
                None => {
                    pause();
                },
            }
            tried += 1;
        }
        None
    }

    /// Takes the last spare object off the list, if there is one. `None`
    /// also where the mutex could not be had.
    pub fn detach(&self) -> Option<T> {
        match self.enter(WAIT_LIMIT) {
            Some(mut objects) => take_last(locked_mut(&mut objects)),
            None => None,
        }
    }

    /// The way back into the pool: `data` is reset and put at the end of
    /// the list of spare objects, as [`shelve`] states it. Where the list
    /// could not be had, the object is reset and dropped.
    pub fn attach(&self, data: T)
        opens_invariants none
        no_unwind
    {
        proof {
            use_type_invariant(self);
        }
        match self.enter(WAIT_LIMIT) {
            Some(mut objects) => {
                shelve(locked_mut(&mut objects), &self.reset, data);
            },
            None => {
                let mut data = data;
                reset_in_place(&self.reset, &mut data);
            },
        }
    }

    /// Resets `object` in place with the pool's reset callback.
    pub fn restore(&self, object: &mut T)
        ensures
            exists|slot: &mut T|
                *slot == *old(object) && *final(slot) == *final(object) && #[trigger] call_ensures(
                    self.reset_callback(),
                    (slot,),
                    (),
                ),
        opens_invariants none
        no_unwind
    {
        proof {
            use_type_invariant(self);
        }
        reset_in_place(&self.reset, object);
        assert(self.reset_callback() == self.reset);
    }
}

} // verus!
