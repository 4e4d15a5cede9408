//! The two callbacks of a pool, `init` and `reset`, as contracts.
//!
//! A pool knows nothing of what its callbacks do; what it promises of the
//! objects it hands out is stated through the callbacks' own contracts.

use vstd::prelude::*;

verus! {

/// `init` may return `made`.
pub open spec fn makes<T, I: Fn() -> T>(init: I, made: T) -> bool {
    call_ensures(init, (), made)
}

/// `init` can always be called.
pub open spec fn can_make<T, I: Fn() -> T>(init: I) -> bool {
    call_requires(init, ())
}

/// `reset` can be called on every object.
pub open spec fn can_reset<T, R: Fn(&mut T)>(reset: R) -> bool {
    forall|object: &mut T| call_requires(reset, (object,))
}

/// Calls `reset` on `object`. The callback is the caller's code: it is
/// trusted to return rather than unwind, which the pools ask of every reset
/// callback, and what it does to the object is whatever its contract says.
#[verifier::external_body]
pub(crate) fn run_reset<T, R: Fn(&mut T)>(reset: &R, object: &mut T)
    requires
        can_reset(*reset),
    ensures
        call_ensures(*reset, (object,), ()),
    opens_invariants none
    no_unwind
{
    reset(object)
}

/// Resets `object` in place: afterwards it reads as `reset` may leave an
/// object that read as `object` did before.
pub fn reset_in_place<T, R: Fn(&mut T)>(reset: &R, object: &mut T)
    requires
        can_reset(*reset),
    ensures
        exists|slot: &mut T|
            *slot == *old(object) && *final(slot) == *final(object) && #[trigger] call_ensures(
                *reset,
                (slot,),
                (),
            ),
    opens_invariants none
    no_unwind
{
    run_reset(reset, object);
}

/// The object a pool hands out: the one it had in store, or else a new one.
pub fn reuse_or_make<T, I: Fn() -> T>(stored: Option<T>, init: &I) -> (object: T)
    requires
        can_make(*init),
    ensures
        match stored {
            Some(kept) => object == kept,
            None => makes(*init, object),
        },
{
    match stored {
        Some(kept) => kept,
        None => init(),
    }
}

} // verus!
