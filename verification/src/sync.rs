//! What the pools take from `std::sync` on trust.
//!
//! Verus sees none of these types from the inside. Each item below states
//! what is assumed of one function of the standard library; nothing here is
//! proved. None of the functions wrapped here waits for another thread: a
//! mutex is entered with `try_lock` only, and what to do where it is refused
//! is decided in verified code.

use std::ops::Deref;
use std::ops::DerefMut;
use std::sync::atomic::AtomicBool;
use std::sync::atomic::AtomicU32;
use std::sync::atomic::Ordering;
use std::sync::Mutex;
use std::sync::MutexGuard;
use std::sync::PoisonError;
use std::sync::TryLockError;
use vstd::prelude::*;

verus! {

/// `std::sync::Mutex`, opaque.
#[verifier::external_type_specification]
#[verifier::external_body]
#[verifier::reject_recursive_types(T)]
pub struct ExMutex<T: ?Sized>(Mutex<T>);

/// `std::sync::MutexGuard`, opaque.
#[verifier::external_type_specification]
#[verifier::external_body]
#[verifier::reject_recursive_types(T)]
pub struct ExMutexGuard<'a, T: ?Sized + 'a>(MutexGuard<'a, T>);

/// `std::sync::PoisonError`, opaque.
#[verifier::external_type_specification]
#[verifier::external_body]
#[verifier::reject_recursive_types(T)]
pub struct ExPoisonError<T>(PoisonError<T>);

/// `std::sync::TryLockError`, with its two variants.
#[verifier::external_type_specification]
#[verifier::reject_recursive_types(T)]
pub struct ExTryLockError<T>(TryLockError<T>);

/// The value that `AtomicU32::new` was given when it made `word`.
pub uninterp spec fn word_made_with(word: AtomicU32) -> u32;

/// The value that `AtomicBool::new` was given when it made `flag`.
pub uninterp spec fn flag_made_with(flag: AtomicBool) -> bool;

/// `Mutex::new`: nothing is assumed of the mutex it returns.
pub assume_specification<T>[ Mutex::<T>::new ](value: T) -> Mutex<T>;

/// `AtomicU32::new`: the word is made with `mask`.
#[verifier::external_body]
pub(crate) fn new_word(mask: u32) -> (word: AtomicU32)
    ensures
        word_made_with(word) == mask,
{
    AtomicU32::new(mask)
}

/// `AtomicBool::new`: the flag is made with `held`.
#[verifier::external_body]
pub(crate) fn new_flag(held: bool) -> (flag: AtomicBool)
    ensures
        flag_made_with(flag) == held,
{
    AtomicBool::new(held)
}

/// `Mutex::try_lock`, which neither waits nor panics: the guard where the
/// mutex was free, an error where it is locked, by whichever thread, or
/// where it is poisoned. Nothing is assumed of which of them comes back, nor
/// of what the guard protects.
#[verifier::external_body]
pub(crate) fn try_lock<T>(cell: &Mutex<T>) -> Result<
    MutexGuard<'_, T>,
    TryLockError<MutexGuard<'_, T>>,
>
    opens_invariants none
    no_unwind
{
    cell.try_lock()
}

/// `Mutex::get_mut`, the access that needs no locking because the mutex is
/// borrowed exclusively: an error where the mutex is poisoned. Nothing is
/// assumed of what the mutex protects, before or after.
#[verifier::external_body]
pub(crate) fn exclusive<T>(cell: &mut Mutex<T>) -> Result<&mut T, PoisonError<&mut T>>
    opens_invariants none
    no_unwind
{
    cell.get_mut()
}

/// `PoisonError::into_inner`: the guard or the reference that the error of
/// a poisoned mutex carries. Nothing is assumed of it.
#[verifier::external_body]
pub(crate) fn recovered<G>(poisoned: PoisonError<G>) -> G
    opens_invariants none
    no_unwind
{
    poisoned.into_inner()
}

/// `MutexGuard::deref`: nothing is assumed of what the guard protects.
#[verifier::external_body]
pub(crate) fn locked<'b, T>(guard: &'b MutexGuard<'_, T>) -> &'b T
    opens_invariants none
    no_unwind
{
    guard.deref()
}

/// `MutexGuard::deref_mut`: nothing is assumed of what the guard protects,
/// before or after.
#[verifier::external_body]
pub(crate) fn locked_mut<'b, T>(guard: &'b mut MutexGuard<'_, T>) -> &'b mut T
    opens_invariants none
    no_unwind
{
    guard.deref_mut()
}

/// `Vec::push`, trusted not to unwind: it panics only where the vector
/// would outgrow `isize::MAX` bytes.
#[verifier::external_body]
pub(crate) fn push_back<T>(list: &mut Vec<T>, object: T)
    ensures
        final(list)@ == old(list)@.push(object),
    opens_invariants none
    no_unwind
{
    list.push(object)
}

/// `AtomicU32::load`, relaxed: the mask as the word holds it at this moment.
/// Nothing is assumed of it.
#[verifier::external_body]
pub(crate) fn read_word(word: &AtomicU32) -> u32
    opens_invariants none
    no_unwind
{
    word.load(Ordering::Relaxed)
}

/// `AtomicU32::compare_exchange_weak`, sequentially consistent where it
/// succeeds: `Ok` where the word read `current` and `next` was written in
/// its place, `Err` where the word was left as it was; either way with what
/// the word read. Nothing is assumed of which of the two comes back.
#[verifier::external_body]
pub(crate) fn swap_word(word: &AtomicU32, current: u32, next: u32) -> (seen: Result<u32, u32>)
    ensures
        seen matches Ok(read) ==> read == current,
    opens_invariants none
    no_unwind
{
    word.compare_exchange_weak(current, next, Ordering::SeqCst, Ordering::Relaxed)
}

/// `AtomicBool::compare_exchange_weak`, sequentially consistent where it
/// succeeds: `Ok` where the flag read `from` and was switched to `to`, `Err`
/// where it was left as it was; either way with what the flag read. Nothing
/// is assumed of which of the two comes back.
#[verifier::external_body]
pub(crate) fn switch_flag(flag: &AtomicBool, from: bool, to: bool) -> (seen: Result<bool, bool>)
    ensures
        seen matches Ok(read) ==> read == from,
    opens_invariants none
    no_unwind
{
    flag.compare_exchange_weak(from, to, Ordering::SeqCst, Ordering::Relaxed)
}

/// `std::hint::spin_loop`, the pause between two attempts of a busy wait.
#[verifier::external_body]
pub(crate) fn pause()
    opens_invariants none
    no_unwind
{
    std::hint::spin_loop()
}

} // verus!
