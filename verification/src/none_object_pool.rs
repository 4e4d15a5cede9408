//! No pool at all: the baseline that the pools are measured against.

use vstd::prelude::*;
use crate::callback::can_make;
use crate::callback::makes;
use crate::none_reusable::NoneReusable;

verus! {

/// Makes a new object for every pull and lets it go when the guard is
/// dropped. Nothing is shared and nothing is reset.
///
/// ```
/// use lockfree_object_pool::NoneObjectPool;
///
/// let pool = NoneObjectPool::<u32>::new(|| Default::default());
/// let mut item = pool.pull();
/// *item = 5;
/// let work = *item * 5;
/// ```
#[verifier::reject_recursive_types(T)]
pub struct NoneObjectPool<T, I = fn() -> T> where I: Fn() -> T {
    init: I,
}

impl<T, I: Fn() -> T> NoneObjectPool<T, I> {
    #[verifier::type_invariant]
    spec fn callback_usable(self) -> bool {
        can_make(self.init)
    }

    /// The callback that makes the objects.
    pub closed spec fn init_callback(&self) -> I {
        self.init
    }

    /// Creates the pool; `init` makes an object.
    pub fn new(init: I) -> (pool: Self)
        requires
            can_make(init),
        ensures
            pool.init_callback() == init,
    {
        NoneObjectPool { init }
    }

    /// Hands out a new object, which is dropped with its guard.
    pub fn pull(&self) -> (guard: NoneReusable<T>)
        ensures
            makes(self.init_callback(), guard@),
    {
        proof {
            use_type_invariant(self);
        }
        NoneReusable::new((self.init)())
    }
}

} // verus!
