//! Thread-safe object pools that take their objects back by themselves.
//!
//! A pool is made from two callbacks: `init` makes a new object, `reset`
//! brings a used one back to the state in which the next user is to find it.
//! `pull` hands out a guard that dereferences to a pooled object; when the
//! guard goes out of scope the object is reset and returned. Four strategies
//! share that protocol:
//!
//! * [`LinearObjectPool`]: lock-free, pages of 32 slots in a growing chain;
//! * [`SpinLockObjectPool`]: a list of spare objects behind a spin lock;
//! * [`MutexObjectPool`]: a list of spare objects behind a mutex;
//! * [`NoneObjectPool`]: no pooling at all, as a baseline.
//!
//! ```
//! use lockfree_object_pool::LinearObjectPool;
//!
//! let pool = LinearObjectPool::<u32>::new(|| Default::default(), |v| { *v = 0; });
//! let mut item = pool.pull();
//! *item = 5;
//! ```
//!
//! A pool is shared between threads by putting it in an `Arc`; pulls and
//! returns then need no further locking. That is sound provided the objects
//! may be sent between threads and the callbacks may be called from any of
//! them, which the compiler enforces through `Send` and `Sync`.
//!
//! The callbacks are type parameters of a pool. They default to function
//! pointers, so that `LinearObjectPool<u32>` names the pool built from plain
//! functions or from closures that capture nothing.
//!
//! # What is proved
//!
//! The slot allocator of a page is a 32-bit mask whose arithmetic lives in
//! [`bitmask`], with exact contracts. A page applies it to an atomic word, so
//! what a call on a shared page returns depends on the other threads: the
//! contracts of [`Page`] and of the pools say what holds of every outcome,
//! as a function of what the atomic updates answered. What a page, a chain
//! or a lock is made with — the first mask, the stock of objects, the
//! position in the chain — can be read off its value, so that the
//! constructors can say it.
//! What the arithmetic guarantees for every order of pulls and returns — no
//! slot is on loan twice, a slot given back is handed out next, a full page
//! makes the chain grow by one — is proved in [`ledger`]. A guard knows the
//! object it holds exactly.
//!
//! What is taken on trust is marked `external_body` and says so where it
//! stands: the locks and atomics of the standard library in [`sync`], the
//! install-once link of a chain in [`linear_page`], and the call of a reset
//! callback in [`callback`].

pub mod bitmask;
pub mod callback;
pub mod held;
pub mod ledger;
pub mod linear_object_pool;
pub mod linear_page;
pub mod linear_reusable;
pub mod mutex_object_pool;
pub mod mutex_reusable;
pub mod none_object_pool;
pub mod none_reusable;
pub mod page;
pub mod spin_lock;
pub mod spin_lock_object_pool;
pub mod spin_lock_reusable;
pub mod sync;

pub use bitmask::PageId;
pub use linear_object_pool::LinearObjectPool;
pub use linear_page::LinearPage;
pub use linear_reusable::LinearReusable;
pub use mutex_object_pool::MutexObjectPool;
pub use mutex_reusable::MutexReusable;
pub use none_object_pool::NoneObjectPool;
pub use none_reusable::NoneReusable;
pub use page::Page;
pub use spin_lock::SpinLock;
pub use spin_lock::SpinLockGuard;
pub use spin_lock_object_pool::SpinLockObjectPool;
pub use spin_lock_reusable::SpinLockReusable;
