//! The guard of the lock-free pool.

use std::ops::Deref;
use std::ops::DerefMut;
use vstd::prelude::*;
use crate::bitmask::PAGE_SLOTS;
use crate::bitmask::PageId;
use crate::bitmask::Answer;
use crate::bitmask::answers;
use crate::bitmask::Change;
use crate::bitmask::Swap;
use crate::bitmask::update_ends;
use crate::bitmask::update_hears;
use crate::callback::can_reset;
use crate::callback::makes;
use crate::callback::reset_in_place;
use crate::held::held_mut;
use crate::held::held_ref;
use crate::linear_object_pool::LinearObjectPool;
use crate::page::Page;

verus! {

/// What a guard holds until it is dropped: the object, and the slot it has
/// to go back to.
#[verifier::reject_recursive_types(T)]
struct Lease<'a, T, I, R> where I: Fn() -> T, R: Fn(&mut T) {
    pool: &'a LinearObjectPool<T, I, R>,
    page_id: PageId,
    page: Option<&'a Page<T>>,
    object: Option<Box<T>>,
}

impl<'a, T, I: Fn() -> T, R: Fn(&mut T)> Lease<'a, T, I, R> {
    #[verifier::type_invariant]
    spec fn names_a_slot(self) -> bool {
        self.page_id < PAGE_SLOTS
    }

    /// Whether the object has been sent on its way back.
    pub closed spec fn has_let_go(&self) -> bool {
        self.object is None
    }
}

impl<'a, T, I: Fn() -> T, R: Fn(&mut T)> Drop for Lease<'a, T, I, R> {
    /// Sends the object on its way back: it is reset and parked in its slot,
    /// and then the slot is marked free. An object without a slot is reset
    /// and dropped.
    fn drop(&mut self)
        ensures
            final(self).has_let_go(),
        opens_invariants none
        no_unwind
    {
        proof {
            use_type_invariant(&*self);
        }
        let mut held: Option<Box<T>> = None;
        std::mem::swap(&mut self.object, &mut held);
        match held {
            Some(object) => {
                let _ = way_back(self.pool.get_reset_callback(), self.page, self.page_id, object);
            },
            None => {},
        }
    }
}

/// The way back of a guard's object: it is reset with `reset`; where it has
/// a page to go to, it is parked in slot `id` of that page and the slot is
/// then given back. Returns what the page answered to the giving back, if
/// there was a page.
///
/// The object is reset before the slot is given back: the slot's bit is set
/// by the update that answers here, which is made after the reset returned.
pub fn way_back<'a, T, R: Fn(&mut T)>(
    reset: &R,
    page: Option<&'a Page<T>>,
    id: PageId,
    object: Box<T>,
) -> (given: Option<Answer>)
    requires
        can_reset(*reset),
        id < PAGE_SLOTS,
    ensures
        given is Some <==> page is Some,
        given matches Some(answer) ==> answers(Change::Give(id), answer) && !(answer is Refused),
        given matches Some(answer) ==> exists|tries: Seq<Swap>|
            #![trigger update_hears(tries, Change::Give(id))]
            update_hears(tries, Change::Give(id)) && update_ends(tries, Change::Give(id), answer),
    opens_invariants none
    no_unwind
{
    match page {
        Some(page) => {
            match page.put_back(&id, reset, object) {
                Ok(_) => {},
                Err(mut kept) => {
                    reset_in_place(reset, &mut *kept);
                },
            }
            Some(page.free(&id))
        },
        None => {
            let mut object = object;
            reset_in_place(reset, &mut *object);
            None
        },
    }
}

/// An object on loan from a [`LinearObjectPool`]. It dereferences to the
/// object; dropping it resets the object and gives the slot back.
#[verifier::reject_recursive_types(T)]
pub struct LinearReusable<'a, T, I = fn() -> T, R = fn(&mut T)> where
    I: Fn() -> T,
    R: Fn(&mut T),
{
    lease: Lease<'a, T, I, R>,
}

impl<'a, T, I: Fn() -> T, R: Fn(&mut T)> LinearReusable<'a, T, I, R> {
    #[verifier::type_invariant]
    spec fn holds_object(self) -> bool {
        self.lease.object is Some
    }

    /// The object that the guard holds.
    pub closed spec fn view(&self) -> T {
        *self.lease.object->0
    }

    /// The pool that the object goes back to.
    pub closed spec fn pool(&self) -> &'a LinearObjectPool<T, I, R> {
        self.lease.pool
    }

    /// The page that the object goes back to, if it has one.
    pub closed spec fn page(&self) -> Option<&'a Page<T>> {
        self.lease.page
    }

    /// The slot that the object goes back to, if it has one.
    pub closed spec fn slot(&self) -> Option<PageId> {
        if self.lease.page is Some {
            Some(self.lease.page_id)
        } else {
            None
        }
    }

    /// The page and the slot that the object goes back to, if it has them.
    pub open spec fn loan(&self) -> Option<(&'a Page<T>, PageId)> {
        match (self.page(), self.slot()) {
            (Some(page), Some(id)) => Some((page, id)),
            _ => None,
        }
    }

    /// The guard for slot `page_id` of `page`, which the caller has claimed.
    /// It takes the object parked in the slot.
    pub fn new(pool: &'a LinearObjectPool<T, I, R>, page_id: PageId, page: &'a Page<T>) -> (guard:
        Self)
        requires
            page_id < PAGE_SLOTS,
        ensures
            guard.pool() == pool,
            guard.page() == Some(page),
            guard.slot() == Some(page_id),
    {
        let parked = page.take(&page_id);
        Self::lend(pool, page_id, page, parked)
    }

    /// The guard for slot `page_id` of `page` that holds `parked`, the object
    /// found in the slot; where the slot was empty it holds a new object.
    pub fn lend(
        pool: &'a LinearObjectPool<T, I, R>,
        page_id: PageId,
        page: &'a Page<T>,
        parked: Option<Box<T>>,
    ) -> (guard: Self)
        requires
            page_id < PAGE_SLOTS,
        ensures
            guard.pool() == pool,
            guard.page() == Some(page),
            guard.slot() == Some(page_id),
            match parked {
                Some(object) => guard@ == *object,
                None => makes(pool.init_callback(), guard@),
            },
    {
        let object = match parked {
            Some(object) => object,
            None => Box::new(pool.make()),
        };
        Self::holding(pool, page_id, Some(page), object)
    }

    /// A guard for an object of its own, which is dropped with the guard
    /// after it was reset.
    pub fn detached(pool: &'a LinearObjectPool<T, I, R>) -> (guard: Self)
        ensures
            guard.pool() == pool,
            guard.page() is None,
            guard.slot() is None,
            makes(pool.init_callback(), guard@),
    {
        Self::holding(pool, 0, None, Box::new(pool.make()))
    }

    /// The guard that holds `object` and returns it to slot `page_id` of
    /// `page`, where there is one.
    fn holding(
        pool: &'a LinearObjectPool<T, I, R>,
        page_id: PageId,
        page: Option<&'a Page<T>>,
        object: Box<T>,
    ) -> (guard: Self)
        requires
            page_id < PAGE_SLOTS,
        ensures
            guard@ == *object,
            guard.pool() == pool,
            guard.page() == page,
            guard.slot() == if page is Some {
                Some(page_id)
            } else {
                None
            },
    {
        LinearReusable { lease: Lease { pool, page_id, page, object: Some(object) } }
    }
}

impl<'a, T, I: Fn() -> T, R: Fn(&mut T)> Deref for LinearReusable<'a, T, I, R> {
    type Target = T;

    fn deref(&self) -> (object: &T)
        ensures
            *object == self@,
    {
        proof {
            use_type_invariant(self);
        }
        &**held_ref(&self.lease.object)
    }
}

impl<'a, T, I: Fn() -> T, R: Fn(&mut T)> DerefMut for LinearReusable<'a, T, I, R> {
    fn deref_mut(&mut self) -> (object: &mut T)
        ensures
            *object == old(self)@,
            final(self)@ == *final(object),
            final(self).pool() == old(self).pool(),
            final(self).page() == old(self).page(),
            final(self).slot() == old(self).slot(),
    {
        proof {
            use_type_invariant(&*self);
            use_type_invariant(&self.lease);
        }
        &mut **held_mut(&mut self.lease.object)
    }
}

} // verus!
