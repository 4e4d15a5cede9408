//! The lock-free pool: objects live in pages of a growing chain.

use vstd::prelude::*;
use crate::bitmask::PAGE_SLOTS;
use crate::callback::can_make;
use crate::callback::can_reset;
use crate::callback::makes;
use crate::callback::reset_in_place;
use crate::bitmask::PageId;
use crate::linear_page::LinearPage;
use crate::linear_page::walk_ends;
use crate::linear_page::walk_hears;
use crate::linear_page::WALK_LIMIT;
use crate::linear_reusable::LinearReusable;

verus! {

/// A pool whose objects sit in the slots of a chain of pages. Pulling claims
/// a slot with a compare-and-swap on a page's mask; the chain grows by one
/// page whenever every page in it is full, and never shrinks.
///
/// ```
/// use lockfree_object_pool::LinearObjectPool;
///
/// let pool = LinearObjectPool::<u32>::new(|| Default::default(), |v| { *v = 0; });
/// let mut item = pool.pull();
/// *item = 5;
/// let work = *item * 5;
/// ```
#[verifier::reject_recursive_types(T)]
pub struct LinearObjectPool<T, I = fn() -> T, R = fn(&mut T)> where I: Fn() -> T, R: Fn(&mut T) {
    reset: R,
    init: I,
    head: LinearPage<T>,
}

impl<T, I: Fn() -> T, R: Fn(&mut T)> LinearObjectPool<T, I, R> {
    #[verifier::type_invariant]
    spec fn callbacks_usable(self) -> bool {
        can_make(self.init) && can_reset(self.reset)
    }

    /// The callback that makes the pool's objects.
    pub closed spec fn init_callback(&self) -> I {
        self.init
    }

    /// The callback that resets an object on its way back into the pool.
    pub closed spec fn reset_callback(&self) -> R {
        self.reset
    }

    /// The first page of the pool's chain.
    pub closed spec fn head(&self) -> LinearPage<T> {
        self.head
    }

    /// Creates a pool. `init` makes an object; `reset` brings a used object
    /// back to the state in which the next user is to find it.
    pub fn new(init: I, reset: R) -> (pool: Self)
        requires
            can_make(init),
            can_reset(reset),
        ensures
            pool.init_callback() == init,
            pool.reset_callback() == reset,
            pool.head().page().fresh_from(init),
            pool.head().position() == 0,
    {
        LinearObjectPool { head: LinearPage::new(&init), reset, init }
    }

    /// Hands out an object. When the guard returned is dropped, the object is
    /// reset and its slot is free again. A guard without a slot, which a
    /// walk that gave up leaves, holds an object of its own, made by `init`.
    ///
    /// The last clause says where the guard's slot comes from: it is what a
    /// walk from the head of the pool's chain ended with, as
    /// [`LinearPage::allocate`] states it. Which page gave the slot is for
    /// the masks to decide.
    pub fn pull(&self) -> (guard: LinearReusable<'_, T, I, R>)
        ensures
            guard.pool() == self,
            guard.slot() matches Some(id) ==> id < PAGE_SLOTS,
            guard.slot() is Some <==> guard.page() is Some,
            guard.slot() is None ==> makes(self.init_callback(), guard@),
            exists|seen: Seq<LinearPage<T>>, found: Seq<Option<PageId>>|
                #![trigger walk_hears(self.head(), seen, found, WALK_LIMIT)]
                walk_hears(self.head(), seen, found, WALK_LIMIT) && walk_ends(
                    seen,
                    found,
                    WALK_LIMIT,
                    guard.loan(),
                ),
    {
        proof {
            use_type_invariant(self);
        }
        let got = self.head.allocate(&self.init);
        let ghost (seen, found) = choose|seen: Seq<LinearPage<T>>, found: Seq<Option<PageId>>|
            #![trigger walk_hears(self.head, seen, found, WALK_LIMIT)]
            walk_hears(self.head, seen, found, WALK_LIMIT) && walk_ends(
                seen,
                found,
                WALK_LIMIT,
                got,
            );
        let guard = match got {
            Some((page, page_id)) => LinearReusable::new(self, page_id, page),
            None => LinearReusable::detached(self),
        };
        proof {
            assert(guard.loan() == got);
            assert(walk_hears(self.head(), seen, found, WALK_LIMIT));
        }
        guard
    }

    /// The reset callback, which can be called on every object.
    pub fn get_reset_callback(&self) -> (reset: &R)
        ensures
            *reset == self.reset_callback(),
            can_reset(*reset),
        opens_invariants none
        no_unwind
    {
        proof {
            use_type_invariant(self);
        }
        &self.reset
    }

    /// Makes one object.
    pub fn make(&self) -> (object: T)
        ensures
            makes(self.init_callback(), object),
    {
        proof {
            use_type_invariant(self);
        }
        (self.init)()
    }

    /// Resets `object` in place with the pool's reset callback.
    pub fn restore(&self, object: &mut T)
        ensures
            exists|slot: &mut T|
                *slot == *old(object) && *final(slot) == *final(object) && #[trigger] call_ensures(
                    self.reset_callback(),
                    (slot,),
                    (),
                ),
        opens_invariants none
        no_unwind
    {
        proof {
            use_type_invariant(self);
        }
        reset_in_place(&self.reset, object);
        assert(self.reset_callback() == self.reset);
    }
}

} // verus!
