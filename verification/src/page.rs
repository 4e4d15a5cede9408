//! A page: 32 pooled objects and the mask that says which of them are free.
//!
//! The mask is the one source of truth for who owns a slot. It is changed by
//! compare-and-swap only, so that of all the threads that try to take a slot
//! at once exactly one succeeds. The object of a slot sits in a cell of its
//! own, boxed, so that it stays where it is from the day the page is made:
//! whoever has taken the slot takes the box out of the cell, and puts it back
//! before giving the slot up.

use std::sync::atomic::AtomicU32;
use std::sync::Mutex;
use std::sync::MutexGuard;
use vstd::prelude::*;
use crate::bitmask::ALL_FREE;
use crate::bitmask::Answer;
use crate::bitmask::answers;
use crate::bitmask::apply;
use crate::bitmask::Attempt;
use crate::bitmask::attempt_of;
use crate::bitmask::Change;
use crate::bitmask::is_exhausted;
use crate::bitmask::lemma_scan_passes;
use crate::bitmask::PAGE_SLOTS;
use crate::bitmask::PageId;
use crate::bitmask::read_attempt;
use crate::bitmask::RETRY_LIMIT;
use crate::bitmask::Round;
use crate::bitmask::round_ends;
use crate::bitmask::scan_from;
use crate::bitmask::scan_hears;
use crate::bitmask::scans_end;
use crate::bitmask::scans_hear;
use crate::bitmask::Swap;
use crate::bitmask::update_ends;
use crate::bitmask::update_hears;
use crate::callback::can_reset;
use crate::callback::makes;
use crate::held::enter;
use crate::held::enter_mut;
use crate::held::park;
use crate::held::take_out;
use crate::sync::locked_mut;
use crate::sync::new_word;
use crate::sync::pause;
use crate::sync::read_word;
use crate::sync::swap_word;
use crate::sync::word_made_with;

verus! {

/// The storage of one slot: the cell in which the pooled object waits while
/// nobody holds it. What the cell holds changes with every loan, unseen by
/// Verus. The object that the cell was made with is kept on record beside
/// the cell: the record is written where the cell is made and never again.
#[verifier::reject_recursive_types(T)]
pub struct Slot<T> {
    cell: Mutex<Option<Box<T>>>,
    made_with: Ghost<T>,
}

impl<T> Slot<T> {
    /// The object that was put into the slot when it was made.
    pub closed spec fn first_object(&self) -> T {
        self.made_with@
    }
}

/// A fixed block of 32 slots with an atomic mask of the free ones.
///
/// All methods but [`get_mut`](Page::get_mut) work on a shared page and may
/// be called from any number of threads at once. What they return depends on
/// what the other threads do, which is why their contracts speak of what was
/// read rather than of a state of the page.
#[verifier::reject_recursive_types(T)]
pub struct Page<T> {
    data: [Slot<T>; 32],
    free: AtomicU32,
}

/// The number of scans after which an attempt to take a slot gives up.
pub const SCAN_LIMIT: usize = usize::MAX;

/// A slot with a new object in it: the slot's cell is made with one object
/// that `init` returns.
fn slot<T, I: Fn() -> T>(init: &I) -> (made: Slot<T>)
    requires
        call_requires(*init, ()),
    ensures
        makes(*init, made.first_object()),
{
    let object = init();
    Slot { made_with: Ghost(object), cell: Mutex::new(Some(Box::new(object))) }
}

impl<T> Page<T> {
    /// The objects that the slots were stocked with when the page was made,
    /// slot by slot, as the slots have them on record.
    pub closed spec fn stock(&self) -> Seq<T> {
        Seq::new(PAGE_SLOTS as nat, |id: int| self.data[id].first_object())
    }

    /// The mask that the page's atomic word was made with.
    pub closed spec fn first_mask(&self) -> u32 {
        word_made_with(self.free)
    }

    /// The slot storage of the page, slot by slot.
    pub closed spec fn slots(&self) -> Seq<Slot<T>> {
        self.data@
    }

    /// The atomic word that holds the mask.
    pub closed spec fn word(&self) -> AtomicU32 {
        self.free
    }

    /// Whether the page was made as [`new`](Page::new) makes it from `init`:
    /// stocked with 32 objects that `init` returned, and with every slot
    /// marked free.
    pub open spec fn fresh_from<I: Fn() -> T>(&self, init: I) -> bool {
        &&& self.stock().len() == PAGE_SLOTS
        &&& forall|id: int| 0 <= id < PAGE_SLOTS ==> makes(init, #[trigger] self.stock()[id])
        &&& self.first_mask() == ALL_FREE
    }

    /// Makes a page with an object from `init` in each of its 32 slots, all
    /// of them free.
    pub fn new<I>(init: I) -> (page: Self) where I: Fn() -> T,
        requires
            call_requires(init, ()),
        ensures
            page.fresh_from(init),
    {
        Page {
            data: [
                slot(&init),
                slot(&init),
                slot(&init),
                slot(&init),
                slot(&init),
                slot(&init),
                slot(&init),
                slot(&init),
                slot(&init),
                slot(&init),
                slot(&init),
                slot(&init),
                slot(&init),
                slot(&init),
                slot(&init),
                slot(&init),
                slot(&init),
                slot(&init),
                slot(&init),
                slot(&init),
                slot(&init),
                slot(&init),
                slot(&init),
                slot(&init),
                slot(&init),
                slot(&init),
                slot(&init),
                slot(&init),
                slot(&init),
                slot(&init),
                slot(&init),
                slot(&init),
            ],
            free: new_word(ALL_FREE),
        }
    }

    /// Whether the mask, read once, shows no free slot.
    pub fn is_full(&self) -> bool {
        is_exhausted(self.get_mask())
    }

    /// The mask as it reads at this moment.
    pub fn get_mask(&self) -> u32 {
        read_word(&self.free)
    }

    /// Makes `change` to the mask by compare-and-swap: reads the mask, works
    /// out the mask to install with [`apply`] and writes it if the mask is
    /// still as read; where another update came between, it starts again
    /// from what that update left, at most [`RETRY_LIMIT`] times.
    ///
    /// The answer is `Installed` with the mask replaced only where the
    /// change can be made to that mask, and `Refused` with the mask read
    /// only where the change cannot be made to it. The second clause says
    /// how the update went: what it handed to each compare-and-swap is what
    /// [`apply`] made of the mask read, and `Contended` comes only after
    /// [`RETRY_LIMIT`] attempts that failed. Whether an attempt succeeds is
    /// for the mask to decide.
    pub fn update(&self, change: Change) -> (answer: Answer)
        requires
            change.slot() < PAGE_SLOTS,
        ensures
            answers(change, answer),
            exists|tries: Seq<Swap>|
                #![trigger update_hears(tries, change)]
                update_hears(tries, change) && update_ends(tries, change, answer),
        opens_invariants none
        no_unwind
    {
        let ghost mut tries: Seq<Swap> = Seq::empty();
        let mut seen: u32 = read_word(&self.free);
        let mut tried: usize = 0;
        while tried < RETRY_LIMIT
            invariant
                change.slot() < PAGE_SLOTS,
                tried <= RETRY_LIMIT,
                tries.len() == tried,
                update_hears(tries, change),
                forall|at: int| 0 <= at < tries.len() ==> (#[trigger] tries[at]).seen is Err,
                tries.len() > 0 ==> tries.last().seen == Err::<u32, u32>(seen),
            decreases RETRY_LIMIT - tried,
        {
            match apply(seen, change) {
                None => {
                    proof {
                        assert(update_ends(tries, change, Answer::Refused(seen)));
                    }
                    return Answer::Refused(seen);
                },
                Some(next) => {
                    let answer = swap_word(&self.free, seen, next);
                    proof {
                        let before = tries;
                        tries = before.push(Swap { current: seen, next, seen: answer });
                        assert forall|at: int, after: int|
                            0 <= at && after == at + 1 && after < tries.len() implies (
                        #[trigger] tries[at]).seen == Err::<u32, u32>(
                            (#[trigger] tries[after]).current,
                        ) by {
                            if after < before.len() {
                                assert(before[at].seen == Err::<u32, u32>(before[after].current));
                            }
                        }
                        assert(update_hears(tries, change));
                    }
                    match answer {
                        Ok(_) => {
                            proof {
                                assert(update_ends(tries, change, Answer::Installed(seen)));
                            }
                            return Answer::Installed(seen);
                        },
                        Err(read) => {
                            seen = read;
                        },
                    }
                },
            }
            tried += 1;
        }
        proof {
            assert(update_ends(tries, change, Answer::Contended));
        }
        Answer::Contended
    }

    /// Scans the slots once, from 0 upwards: each slot is tried with one
    /// update that takes it if it is free. The scan ends with the first slot
    /// taken, or as soon as it reads a mask of zero, or after all 32.
    ///
    /// The clause says of the result only what the updates' answers allow:
    /// it is [`scan_from`] of some answers that updates can give. Which
    /// answers they gave is for the mask to decide.
    pub fn scan(&self) -> (round: Round)
        ensures
            round matches Round::Claimed(id) ==> id < PAGE_SLOTS,
            round_ends(round),
    {
        let ghost mut heard: Seq<Answer> = Seq::empty();
        let mut id: PageId = 0;
        while id < PAGE_SLOTS
            invariant
                id <= PAGE_SLOTS,
                heard.len() == id,
                scan_hears(heard),
                forall|past: PageId|
                    past < id ==> attempt_of(#[trigger] heard[past as int]) == Attempt::Occupied,
            decreases PAGE_SLOTS - id,
        {
            let answer = self.update(Change::Take(id));
            proof {
                let before = heard;
                heard = before.push(answer);
                assert forall|past: PageId| past <= id implies #[trigger] heard[past as int] == (
                if past < id {
                    before[past as int]
                } else {
                    answer
                }) by {}
                lemma_scan_passes(heard, 0, id);
                assert(scan_hears(heard));
            }
            match read_attempt(answer) {
                Attempt::Claimed => {
                    return Round::Claimed(id);
                },
                Attempt::Exhausted => {
                    return Round::Exhausted;
                },
                Attempt::Occupied => {},
            }
            id += 1;
        }
        proof {
            lemma_scan_passes(heard, 0, PAGE_SLOTS);
        }
        Round::Occupied
    }

    /// Takes a free slot: scans the slots until a scan ends with a slot
    /// taken, which is returned, or on a mask of zero, which gives `None`.
    /// A scan that found every slot occupied, though the mask never read
    /// zero, is followed by another, at most [`SCAN_LIMIT`] of them.
    ///
    /// The clause says of the result only what the scans allow: `Some` of a
    /// slot that a scan claimed, `None` after a scan that read a mask of
    /// zero or after [`SCAN_LIMIT`] scans. Where no other thread touches the
    /// page meanwhile, the first scan ends with the lowest free slot or on
    /// the mask of zero
    /// ([`lemma_scan_alone`](crate::bitmask::lemma_scan_alone)).
    pub fn allocate(&self) -> (got: Option<PageId>)
        ensures
            got matches Some(id) ==> id < PAGE_SLOTS,
            exists|rounds: Seq<Round>|
                #![trigger scans_hear(rounds, SCAN_LIMIT)]
                scans_hear(rounds, SCAN_LIMIT) && scans_end(rounds, SCAN_LIMIT, got),
    {
        let ghost mut rounds: Seq<Round> = Seq::empty();
        let mut scanned: usize = 0;
        while scanned < SCAN_LIMIT
            invariant
                scanned <= SCAN_LIMIT,
                rounds.len() == scanned,
                forall|at: int| 0 <= at < rounds.len() ==> round_ends(#[trigger] rounds[at]),
                forall|at: int| 0 <= at < rounds.len() ==> #[trigger] rounds[at] == Round::Occupied,
            decreases SCAN_LIMIT - scanned,
        {
            let round = self.scan();
            proof {
                rounds = rounds.push(round);
            }
            match round {
                Round::Claimed(id) => {
                    proof {
                        assert(scans_hear(rounds, SCAN_LIMIT));
                        assert(scans_end(rounds, SCAN_LIMIT, Some(id)));
                    }
                    return Some(id);
                },
                Round::Exhausted => {
                    proof {
                        assert(scans_hear(rounds, SCAN_LIMIT));
                        assert(scans_end(rounds, SCAN_LIMIT, None));
                    }
                    return None;
                },
                Round::Occupied => {
                    pause();
                },
            }
            scanned += 1;
        }
        proof {
            assert(scans_hear(rounds, SCAN_LIMIT));
            assert(scans_end(rounds, SCAN_LIMIT, None));
        }
        None
    }

    /// Gives slot `id` back: an [`update`](Page::update) that sets its bit in
    /// the mask, whatever the bit was, and leaves the other bits as they
    /// are. Only the holder of the slot may call this, and once.
    ///
    /// Giving back is never refused. The second clause says how the update
    /// went: what it handed to each compare-and-swap is the mask read with
    /// the bit of `id` set, and `Contended` comes only after
    /// [`RETRY_LIMIT`] attempts that failed.
    pub fn free(&self, id: &PageId) -> (answer: Answer)
        requires
            *id < PAGE_SLOTS,
        ensures
            answers(Change::Give(*id), answer),
            !(answer is Refused),
            exists|tries: Seq<Swap>|
                #![trigger update_hears(tries, Change::Give(*id))]
                update_hears(tries, Change::Give(*id)) && update_ends(
                    tries,
                    Change::Give(*id),
                    answer,
                ),
        opens_invariants none
        no_unwind
    {
        self.update(Change::Give(*id))
    }

    /// The cell of slot `id`, locked for the caller, or `None` where the
    /// cell is locked already. The page does not ask whether the caller
    /// holds the slot.
    pub fn get(&self, id: &PageId) -> Option<MutexGuard<'_, Option<Box<T>>>>
        requires
            *id < PAGE_SLOTS,
        opens_invariants none
        no_unwind
    {
        enter(&self.data[*id as usize].cell)
    }

    /// The cell of slot `id` of a page that the caller has to itself. The
    /// borrow reaches that one cell: the other slots, the mask and what the
    /// page was made with stay as they are.
    pub fn get_mut(&mut self, id: &PageId) -> (cell: &mut Option<Box<T>>)
        requires
            *id < PAGE_SLOTS,
        ensures
            final(self).word() == old(self).word(),
            final(self).first_mask() == old(self).first_mask(),
            final(self).stock() == old(self).stock(),
            final(self).slots().len() == old(self).slots().len(),
            forall|other: int|
                0 <= other < PAGE_SLOTS && other != *id ==> final(self).slots()[other] == old(
                    self,
                ).slots()[other],
    {
        enter_mut(&mut self.data[*id as usize].cell)
    }

    /// Takes the object out of slot `id`, leaving the cell empty: `None`
    /// where it was empty already, and where the cell is locked.
    pub fn take(&self, id: &PageId) -> Option<Box<T>>
        requires
            *id < PAGE_SLOTS,
    {
        match self.get(id) {
            Some(mut cell) => take_out(locked_mut(&mut cell)),
            None => None,
        }
    }

    /// The way back into slot `id`: resets `object` with `reset` and puts it
    /// into the cell, as [`park`] states it, and returns what the cell held
    /// before. Where the cell is locked the object is handed back as `Err`,
    /// as it came.
    pub fn put_back<R: Fn(&mut T)>(&self, id: &PageId, reset: &R, object: Box<T>) -> (back: Result<
        Option<Box<T>>,
        Box<T>,
    >)
        requires
            *id < PAGE_SLOTS,
            can_reset(*reset),
        ensures
            back matches Err(kept) ==> kept == object,
        opens_invariants none
        no_unwind
    {
        match self.get(id) {
            Some(mut cell) => Ok(park(locked_mut(&mut cell), reset, object)),
            None => Err(object),
        }
    }

    /// Puts `object` into the cell of slot `id` and returns what the cell
    /// held before, `Ok(None)` for a cell that was empty. Where the cell is
    /// locked the object is handed back as `Err`.
    pub fn put(&self, id: &PageId, object: Box<T>) -> (back: Result<Option<Box<T>>, Box<T>>)
        requires
            *id < PAGE_SLOTS,
        ensures
            back matches Err(kept) ==> kept == object,
        opens_invariants none
        no_unwind
    {
        match self.get(id) {
            Some(mut cell) => {
                let mut parked: Option<Box<T>> = Some(object);
                std::mem::swap(locked_mut(&mut cell), &mut parked);
                Ok(parked)
            },
            None => Err(object),
        }
    }
}

} // verus!
