//! Objects held and handed over: what a guard holds until it is dropped,
//! how a cell or a list is entered, what is taken out of it once it is
//! entered, and the way back into it, on which an object is reset before it
//! is stored.
//!
//! A guard keeps its object in an `Option`, which is `Some` for as long as
//! the guard can be used and is emptied only while the guard is dropped.

use std::sync::Mutex;
use std::sync::MutexGuard;
use std::sync::TryLockError;
use vstd::prelude::*;
use crate::callback::can_reset;
use crate::callback::reset_in_place;
use crate::sync::exclusive;
use crate::sync::push_back;
use crate::sync::recovered;
use crate::sync::try_lock;

verus! {

/// The object in `held`, which holds one, for writing.
pub(crate) fn held_mut<T>(held: &mut Option<T>) -> (object: &mut T)
    requires
        *old(held) is Some,
    ensures
        *object == (*old(held))->0,
        *final(held) == Some(*final(object)),
    opens_invariants none
    no_unwind
{
    match held {
        Some(object) => object,
        None => vstd::pervasive::unreached(),
    }
}

/// The object in `held`, which holds one, for reading.
pub(crate) fn held_ref<T>(held: &Option<T>) -> (object: &T)
    requires
        *held is Some,
    ensures
        *object == (*held)->0,
    opens_invariants none
    no_unwind
{
    match held {
        Some(object) => object,
        None => vstd::pervasive::unreached(),
    }
}

/// Enters `cell` if it is free: the guard, or `None` where the mutex is
/// locked. A mutex poisoned by a panic elsewhere is entered all the same.
pub fn enter<T>(cell: &Mutex<T>) -> Option<MutexGuard<'_, T>>
    opens_invariants none
    no_unwind
{
    match try_lock(cell) {
        Ok(guard) => Some(guard),
        Err(TryLockError::Poisoned(poisoned)) => Some(recovered(poisoned)),
        Err(TryLockError::WouldBlock) => None,
    }
}

/// What `cell` protects, for a caller that has the mutex to itself. A mutex
/// poisoned by a panic elsewhere is entered all the same.
pub fn enter_mut<T>(cell: &mut Mutex<T>) -> &mut T
    opens_invariants none
    no_unwind
{
    match exclusive(cell) {
        Ok(inner) => inner,
        Err(poisoned) => recovered(poisoned),
    }
}

/// Takes what `cell` holds and leaves it empty: `None` where it was empty
/// already.
pub fn take_out<T>(cell: &mut Option<T>) -> (held: Option<T>)
    ensures
        held == *old(cell),
        *final(cell) is None,
    opens_invariants none
    no_unwind
{
    let mut held: Option<T> = None;
    std::mem::swap(cell, &mut held);
    held
}

/// Takes the last object off `list`: `None`, and nothing changed, where the
/// list is empty.
pub fn take_last<T>(list: &mut Vec<T>) -> (last: Option<T>)
    ensures
        match last {
            Some(object) => old(list)@.len() > 0 && object == old(list)@.last() && final(list)@
                == old(list)@.drop_last(),
            None => old(list)@.len() == 0 && final(list)@ == old(list)@,
        },
{
    list.pop()
}

/// The way back onto a list: resets `object` and puts it at the end of
/// `list`. What the list gains is the object as `reset` left it.
pub fn shelve<T, R: Fn(&mut T)>(list: &mut Vec<T>, reset: &R, object: T)
    requires
        can_reset(*reset),
    ensures
        exists|slot: &mut T|
            *slot == object && #[trigger] call_ensures(*reset, (slot,), ()) && final(list)@
                == old(list)@.push(*final(slot)),
    opens_invariants none
    no_unwind
{
    let mut object = object;
    reset_in_place(reset, &mut object);
    push_back(list, object);
}

/// The way back into a cell: resets `object` and puts it into `cell`. What
/// the cell holds afterwards is the object as `reset` left it; what it held
/// before is returned.
pub fn park<T, R: Fn(&mut T)>(cell: &mut Option<Box<T>>, reset: &R, object: Box<T>) -> (displaced:
    Option<Box<T>>)
    requires
        can_reset(*reset),
    ensures
        displaced == *old(cell),
        exists|slot: &mut T|
            *slot == *object && #[trigger] call_ensures(*reset, (slot,), ()) && *final(cell)
                == Some(Box::new(*final(slot))),
    opens_invariants none
    no_unwind
{
    let mut object = object;
    reset_in_place(reset, &mut *object);
    let mut parked: Option<Box<T>> = Some(object);
    std::mem::swap(cell, &mut parked);
    parked
}

} // verus!
