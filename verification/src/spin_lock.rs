//! A spin lock: mutual exclusion by busy waiting on one atomic flag.

use std::ops::Deref;
use std::ops::DerefMut;
use std::sync::atomic::AtomicBool;
use std::sync::Mutex;
use std::sync::MutexGuard;
use vstd::prelude::*;
use crate::sync::flag_made_with;
use crate::sync::locked;
use crate::sync::locked_mut;
use crate::sync::new_flag;
use crate::sync::pause;
use crate::sync::switch_flag;
use crate::held::enter;

verus! {

/// The number of attempts after which a busy wait gives up.
pub const SPIN_LIMIT: usize = usize::MAX;

/// A lock that is taken by switching a flag from `false` to `true` and given
/// back by switching it from `true` to `false`. A thread that finds the flag
/// taken tries again, up to [`SPIN_LIMIT`] times. There is no fairness, no
/// re-entrance and no poisoning.
///
/// The data sits in a `Mutex`, the cell through which a shared `SpinLock`
/// hands out `&mut T`. Whoever holds the flag finds that mutex free and
/// enters it without waiting.
#[verifier::reject_recursive_types(T)]
pub struct SpinLock<T> {
    data: Mutex<T>,
    lock: AtomicBool,
    made_with: Ghost<T>,
}

/// Whether `answer` can be what an attempt to switch the flag from `from`
/// answers: `Ok` only where the flag read `from`.
pub open spec fn flag_answers(from: bool, answer: Result<bool, bool>) -> bool {
    answer matches Ok(read) ==> read == from
}

/// Whether a busy wait can have gone as `heard` says: it made the attempts
/// of `heard` to switch the flag from `from`, none of more than `attempts`,
/// and every attempt but the last failed.
pub open spec fn spin_hears(heard: Seq<Result<bool, bool>>, from: bool, attempts: usize) -> bool {
    &&& heard.len() <= attempts
    &&& forall|at: int| 0 <= at < heard.len() ==> flag_answers(from, #[trigger] heard[at])
    &&& forall|at: int| 0 <= at < heard.len() - 1 ==> (#[trigger] heard[at]) is Err
}

/// Whether `done` is what a busy wait of at most `attempts` attempts returns
/// that went as `heard` says: `true` where its last attempt switched the
/// flag, `false` where all of the `attempts` attempts failed.
pub open spec fn spin_ends(heard: Seq<Result<bool, bool>>, attempts: usize, done: bool) -> bool {
    if done {
        heard.len() > 0 && heard.last() is Ok
    } else {
        heard.len() == attempts && (attempts > 0 ==> heard.last() is Err)
    }
}

impl<T> SpinLock<T> {
    /// The data that the lock was made around, as put on record beside the
    /// cell when the lock was made.
    pub closed spec fn first_data(&self) -> T {
        self.made_with@
    }

    /// The flag that the lock's atomic flag was made with: `false`, for a
    /// lock that is free.
    pub closed spec fn first_flag(&self) -> bool {
        flag_made_with(self.lock)
    }

    /// Makes the lock around `data`, free.
    pub fn new(data: T) -> (lock: Self)
        ensures
            lock.first_data() == data,
            lock.first_flag() == false,
    {
        SpinLock { made_with: Ghost(data), data: Mutex::new(data), lock: new_flag(false) }
    }

    /// Takes the lock and returns the guard that gives access to the data.
    /// `None` only where the busy wait gave up after [`SPIN_LIMIT`] attempts,
    /// or where the data was in use although the flag was won.
    ///
    /// The second clause says how the wait for the flag went, and that a
    /// guard comes only of a wait that won the flag. Whether an attempt at
    /// the flag succeeds is for the flag to decide.
    pub fn lock(&self) -> (guard: Option<SpinLockGuard<'_, T>>)
        ensures
            guard matches Some(held) ==> held.lock() == self,
            exists|heard: Seq<Result<bool, bool>>, won: bool|
                #![trigger spin_hears(heard, false, SPIN_LIMIT), spin_ends(heard, SPIN_LIMIT, won)]
                spin_hears(heard, false, SPIN_LIMIT) && spin_ends(heard, SPIN_LIMIT, won) && (
                guard is Some ==> won),
        opens_invariants none
        no_unwind
    {
        self.lock_within(SPIN_LIMIT)
    }

    /// As [`lock`](SpinLock::lock), but the busy wait gives up after
    /// `attempts` attempts at the flag.
    pub fn lock_within(&self, attempts: usize) -> (guard: Option<SpinLockGuard<'_, T>>)
        ensures
            guard matches Some(held) ==> held.lock() == self,
            attempts == 0 ==> guard is None,
            exists|heard: Seq<Result<bool, bool>>, won: bool|
                #![trigger spin_hears(heard, false, attempts), spin_ends(heard, attempts, won)]
                spin_hears(heard, false, attempts) && spin_ends(heard, attempts, won) && (guard
                    is Some ==> won),
        opens_invariants none
        no_unwind
    {
        let won = self.exchange(false, true, attempts);
        if !won {
            return None;
        }
        match enter(&self.data) {
            Some(data) => Some(SpinLockGuard::new(self, data)),
            None => {
                self.release();
                None
            },
        }
    }

    /// Busy waits for the flag; `true` where it was won. The wait is made
    /// of attempts to switch the flag from `false` to `true` and ends with
    /// the first that succeeds.
    ///
    /// The clause says of the result only what the attempts allow; whether
    /// an attempt succeeds is for the flag to decide.
    pub fn acquire(&self) -> (won: bool)
        ensures
            exists|heard: Seq<Result<bool, bool>>|
                #![trigger spin_hears(heard, false, SPIN_LIMIT)]
                spin_hears(heard, false, SPIN_LIMIT) && spin_ends(heard, SPIN_LIMIT, won),
        opens_invariants none
        no_unwind
    {
        self.exchange(false, true, SPIN_LIMIT)
    }

    /// Gives the flag back: switches it from `true` to `false`. A flag that
    /// reads `false` is left as it is.
    pub fn release(&self)
        opens_invariants none
        no_unwind
    {
        let mut tried: usize = 0;
        while tried < SPIN_LIMIT
            decreases SPIN_LIMIT - tried,
        {
            match switch_flag(&self.lock, true, false) {
                Ok(_) => {
                    return ;
                },
                Err(read) => {
                    if !read {
                        return ;
                    }
                },
            }
            tried += 1;
        }
    }

    /// Tries to switch the flag from `from` to `to` until it succeeds, at
    /// most `attempts` times, pausing after each failure; `true` where it
    /// succeeded.
    ///
    /// The clause says of the result only what the attempts allow: `true`
    /// after an attempt that succeeded, `false` after `attempts` attempts
    /// that failed. Whether an attempt succeeds is for the flag to decide.
    pub fn exchange(&self, from: bool, to: bool, attempts: usize) -> (done: bool)
        ensures
            attempts == 0 ==> !done,
            exists|heard: Seq<Result<bool, bool>>|
                #![trigger spin_hears(heard, from, attempts)]
                spin_hears(heard, from, attempts) && spin_ends(heard, attempts, done),
        opens_invariants none
        no_unwind
    {
        let ghost mut heard: Seq<Result<bool, bool>> = Seq::empty();
        let mut tried: usize = 0;
        while tried < attempts
            invariant
                tried <= attempts,
                heard.len() == tried,
                forall|at: int| 0 <= at < heard.len() ==> flag_answers(from, #[trigger] heard[at]),
                forall|at: int| 0 <= at < heard.len() ==> (#[trigger] heard[at]) is Err,
            decreases attempts - tried,
        {
            let answer = switch_flag(&self.lock, from, to);
            proof {
                heard = heard.push(answer);
            }
            match answer {
                Ok(_) => {
                    proof {
                        assert(spin_hears(heard, from, attempts));
                        assert(spin_ends(heard, attempts, true));
                    }
                    return true;
                },
                Err(_) => {
                    pause();
                },
            }
            tried += 1;
        }
        proof {
            assert(spin_hears(heard, from, attempts));
            assert(spin_ends(heard, attempts, false));
        }
        false
    }
}

/// The flag of a lock in the hands of a guard: dropping it gives the flag
/// back.
#[verifier::reject_recursive_types(T)]
struct Held<'a, T> {
    lock: &'a SpinLock<T>,
}

impl<'a, T> Drop for Held<'a, T> {
    /// Gives the flag back.
    fn drop(&mut self)
        opens_invariants none
        no_unwind
    {
        self.lock.release();
    }
}

/// Exclusive access to the data of a [`SpinLock`], until dropped. When it is
/// dropped the data is let go first and the flag is given back after it, so
/// that whoever wins the flag next finds the data free.
#[verifier::reject_recursive_types(T)]
pub struct SpinLockGuard<'a, T> {
    data: MutexGuard<'a, T>,
    held: Held<'a, T>,
}

impl<'a, T> SpinLockGuard<'a, T> {
    /// The lock that the guard gives back when dropped.
    pub closed spec fn lock(&self) -> &'a SpinLock<T> {
        self.held.lock
    }

    /// The guard over `data`, the locked cell of `lock`, for a caller that
    /// has won the flag of `lock`.
    pub fn new(lock: &'a SpinLock<T>, data: MutexGuard<'a, T>) -> (guard: Self)
        ensures
            guard.lock() == lock,
        opens_invariants none
        no_unwind
    {
        SpinLockGuard { data, held: Held { lock } }
    }

    /// The data, for reading.
    pub fn data(&self) -> &T
        opens_invariants none
        no_unwind
    {
        locked(&self.data)
    }

    /// The data, for writing. The guard stays the guard of its lock.
    pub fn data_mut(&mut self) -> (data: &mut T)
        ensures
            final(self).lock() == old(self).lock(),
        opens_invariants none
        no_unwind
    {
        locked_mut(&mut self.data)
    }
}

impl<'a, T> DerefMut for SpinLockGuard<'a, T> {
    fn deref_mut(&mut self) -> (data: &mut T)
        ensures
            final(self).lock() == old(self).lock(),
    {
        self.data_mut()
    }
}

impl<'a, T> Deref for SpinLockGuard<'a, T> {
    type Target = T;

    fn deref(&self) -> &T {
        self.data()
    }
}

} // verus!
