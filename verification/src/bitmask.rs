//! The free mask of a page: bit `i` set means slot `i` is free.
//!
//! Everything here is a pure function of 32-bit words. A page applies
//! [`apply`] to its atomic mask, one compare-and-swap at a time, and reads
//! the answers with [`read_attempt`]. The mathematical reading of a mask is
//! the set of its free slots, [`free_slots`]; the lemmas say what the bit
//! operations do to that set.

use vstd::prelude::*;

verus! {

/// Index of a slot inside a page.
pub type PageId = u8;

/// Number of slots in a page.
pub const PAGE_SLOTS: u8 = 32;

/// The mask of a page none of whose slots is taken.
pub const ALL_FREE: u32 = 0xffff_ffff;

/// The mask of a page all of whose slots are taken.
pub const EXHAUSTED: u32 = 0;

/// A change that a page makes to its mask.
#[derive(Clone, Copy, PartialEq, Eq, Structural, Debug)]
pub enum Change {
    /// Take the slot, if it is free.
    Take(PageId),
    /// Give the slot back.
    Give(PageId),
}

impl Change {
    /// The slot that the change is about.
    pub open spec fn slot(self) -> PageId {
        match self {
            Change::Take(id) => id,
            Change::Give(id) => id,
        }
    }
}

/// What an update of a page's mask answers.
#[derive(Clone, Copy, PartialEq, Eq, Structural, Debug)]
pub enum Answer {
    /// The change was made: the mask that it replaced.
    Installed(u32),
    /// The change was not made, because it cannot be made to the mask that
    /// was read: that mask.
    Refused(u32),
    /// The update gave up, after other updates had come between its reading
    /// and its writing [`RETRY_LIMIT`] times.
    Contended,
}

/// What a scan over the slots of a page does after one attempt.
#[derive(Clone, Copy, PartialEq, Eq, Structural, Debug)]
pub enum Attempt {
    /// The slot is taken for the caller: the scan ends with it.
    Claimed,
    /// The page has no free slot at all: the scan ends without one.
    Exhausted,
    /// The slot belongs to someone else, or could not be had for all the
    /// other updates: the scan goes on to the next.
    Occupied,
}

/// How one scan over the 32 slots of a page ends.
#[derive(Clone, Copy, PartialEq, Eq, Structural, Debug)]
pub enum Round {
    /// With this slot, taken for the caller.
    Claimed(PageId),
    /// On a mask that read zero: the page has no free slot.
    Exhausted,
    /// After an attempt at every slot, none of which took its slot and none
    /// of which read a mask of zero.
    Occupied,
}

/// The number of times an update tries again after another update came
/// between its reading and its writing.
pub const RETRY_LIMIT: usize = usize::MAX;

/// The word with only the bit of slot `id` set.
pub open spec fn slot_bit(id: PageId) -> u32 {
    1u32 << id
}

/// Whether `mask` records slot `id` as free.
pub open spec fn is_free(mask: u32, id: PageId) -> bool {
    id < PAGE_SLOTS && mask & slot_bit(id) != 0
}

/// The free slots that `mask` records.
pub open spec fn free_slots(mask: u32) -> Set<PageId> {
    Set::new(|id: PageId| is_free(mask, id))
}

/// `mask` with slot `id` marked as taken.
pub open spec fn mask_without(mask: u32, id: PageId) -> u32 {
    mask & !slot_bit(id)
}

/// `mask` with slot `id` marked as free.
pub open spec fn mask_with(mask: u32, id: PageId) -> u32 {
    mask | slot_bit(id)
}

/// One attempt to take slot `id` from a page whose mask reads `mask`:
/// the mask to install, or `None` where the slot is not there to take.
pub open spec fn claim_of(mask: u32, id: PageId) -> Option<u32> {
    if is_free(mask, id) {
        Some(mask_without(mask, id))
    } else {
        None
    }
}

/// The mask that `change` installs in place of `mask`, or `None` where it
/// leaves the mask alone: a slot that is not free cannot be taken.
pub open spec fn change_of(mask: u32, change: Change) -> Option<u32> {
    match change {
        Change::Take(id) => claim_of(mask, id),
        Change::Give(id) => Some(mask_with(mask, id)),
    }
}

/// The lowest free slot of `mask` at or after `from`.
pub open spec fn first_free_from(mask: u32, from: PageId) -> Option<PageId>
    decreases PAGE_SLOTS - from,
{
    if from >= PAGE_SLOTS {
        None
    } else if is_free(mask, from) {
        Some(from)
    } else {
        first_free_from(mask, (from + 1) as PageId)
    }
}

/// The lowest free slot of `mask`.
pub open spec fn first_free(mask: u32) -> Option<PageId> {
    first_free_from(mask, 0)
}

/// The mask of a page whose `taken` lowest slots are taken and whose other
/// slots are free.
pub open spec fn spare_from(taken: PageId) -> u32 {
    if taken >= PAGE_SLOTS {
        EXHAUSTED
    } else {
        ALL_FREE << taken
    }
}

/// Whether `answer` can be what an update with `change` answers: the change
/// is made only to a mask that it can be made to, and refused only on a
/// mask that it cannot be made to.
pub open spec fn answers(change: Change, answer: Answer) -> bool {
    match answer {
        Answer::Installed(mask) => change_of(mask, change) is Some,
        Answer::Refused(mask) => change_of(mask, change) is None,
        Answer::Contended => true,
    }
}

/// One attempt of an update to write: the mask it had read, the mask it
/// handed over to be written in its place, and what the compare-and-swap
/// answered.
pub struct Swap {
    pub current: u32,
    pub next: u32,
    pub seen: Result<u32, u32>,
}

/// Whether an update with `change` can have gone as `tries` says: it made
/// the attempts of `tries` to write, none of more than [`RETRY_LIMIT`]; to
/// each it handed the mask that `change` makes of the mask read; an attempt
/// succeeded only where the mask was still as read; and after an attempt
/// that failed the next went on from the mask that the failed one read.
pub open spec fn update_hears(tries: Seq<Swap>, change: Change) -> bool {
    &&& tries.len() <= RETRY_LIMIT
    &&& forall|at: int|
        0 <= at < tries.len() ==> change_of((#[trigger] tries[at]).current, change) == Some(
            tries[at].next,
        )
    &&& forall|at: int|
        0 <= at < tries.len() ==> ((#[trigger] tries[at]).seen matches Ok(read) ==> read
            == tries[at].current)
    &&& forall|at: int, after: int|
        0 <= at && after == at + 1 && after < tries.len() ==> (#[trigger] tries[at]).seen
            == Err::<u32, u32>((#[trigger] tries[after]).current)
}

/// Whether `answer` is what an update with `change` answers that went as
/// `tries` says: `Installed` after an attempt that succeeded, with the mask
/// which that attempt replaced; `Refused` with the mask read last, to which
/// the change cannot be made; `Contended` after [`RETRY_LIMIT`] attempts
/// that failed.
pub open spec fn update_ends(tries: Seq<Swap>, change: Change, answer: Answer) -> bool {
    match answer {
        Answer::Installed(mask) => tries.len() > 0 && tries.last().seen is Ok
            && tries.last().current == mask,
        Answer::Refused(mask) => change_of(mask, change) is None && (tries.len() > 0
            ==> tries.last().seen == Err::<u32, u32>(mask)),
        Answer::Contended => tries.len() == RETRY_LIMIT && tries.len() > 0
            && tries.last().seen is Err,
    }
}

/// What an attempt at slot `id` answers where the mask reads `mask` and
/// nobody else changes it.
pub open spec fn answer_alone(mask: u32, id: PageId) -> Answer {
    if claim_of(mask, id) is Some {
        Answer::Installed(mask)
    } else {
        Answer::Refused(mask)
    }
}

/// What a scan does after an attempt that answered `answer`.
pub open spec fn attempt_of(answer: Answer) -> Attempt {
    match answer {
        Answer::Installed(_) => Attempt::Claimed,
        Answer::Refused(mask) => if mask == EXHAUSTED {
            Attempt::Exhausted
        } else {
            Attempt::Occupied
        },
        Answer::Contended => Attempt::Occupied,
    }
}

/// How a scan ends where its attempts at the slots `from`, `from + 1`, ...
/// answer `heard[from]`, `heard[from + 1]`, ...: with the first slot
/// claimed, unless the scan ends earlier on an exhausted page or runs out of
/// slots.
pub open spec fn scan_from(heard: Seq<Answer>, from: PageId) -> Round
    decreases PAGE_SLOTS - from,
{
    if from >= PAGE_SLOTS || from >= heard.len() {
        Round::Occupied
    } else {
        match attempt_of(heard[from as int]) {
            Attempt::Claimed => Round::Claimed(from),
            Attempt::Exhausted => Round::Exhausted,
            Attempt::Occupied => scan_from(heard, (from + 1) as PageId),
        }
    }
}

/// Whether `heard` can be what the attempts of one scan answer: attempt `id`
/// is the attempt to take slot `id`.
pub open spec fn scan_hears(heard: Seq<Answer>) -> bool {
    heard.len() <= PAGE_SLOTS && forall|id: PageId|
        id < heard.len() ==> answers(Change::Take(id), #[trigger] heard[id as int])
}

/// Whether `round` can be how one scan of a page ends. Every end with a
/// slot below 32 can be: which of them it is, the mask decides.
pub open spec fn round_ends(round: Round) -> bool {
    exists|heard: Seq<Answer>| scan_hears(heard) && round == scan_from(heard, 0)
}

/// Whether `rounds` can be how the scans of one attempt to take a slot end,
/// one after the other: none of more than `limit` scans, and every scan but
/// the last found every slot occupied.
pub open spec fn scans_hear(rounds: Seq<Round>, limit: usize) -> bool {
    &&& rounds.len() <= limit
    &&& forall|at: int| 0 <= at < rounds.len() ==> round_ends(#[trigger] rounds[at])
    &&& forall|at: int| 0 <= at < rounds.len() - 1 ==> #[trigger] rounds[at] == Round::Occupied
}

/// Whether `got` is what an attempt to take a slot returns whose scans
/// ended as `rounds` says: the slot that the last scan claimed; `None`
/// where the last scan read a mask of zero, and also where all of the
/// `limit` scans found every slot occupied.
pub open spec fn scans_end(rounds: Seq<Round>, limit: usize, got: Option<PageId>) -> bool {
    match got {
        Some(id) => rounds.len() > 0 && rounds.last() == Round::Claimed(id),
        None => (rounds.len() > 0 && rounds.last() == Round::Exhausted) || (rounds.len() == limit
            && (limit > 0 ==> rounds.last() == Round::Occupied)),
    }
}

/// Computes the mask that `change` installs in place of `mask`, if any.
#[verifier::when_used_as_spec(change_of)]
pub fn apply(mask: u32, change: Change) -> (next: Option<u32>)
    requires
        change.slot() < PAGE_SLOTS,
    ensures
        next == change_of(mask, change),
    opens_invariants none
    no_unwind
{
    match change {
        Change::Take(id) => {
            let bit: u32 = 1u32 << id;
            if mask & bit == 0 {
                None
            } else {
                Some(mask & !bit)
            }
        },
        Change::Give(id) => Some(mask | (1u32 << id)),
    }
}

/// Reads the answer of an attempt.
#[verifier::when_used_as_spec(attempt_of)]
pub fn read_attempt(answer: Answer) -> (attempt: Attempt)
    ensures
        attempt == attempt_of(answer),
{
    match answer {
        Answer::Installed(_) => Attempt::Claimed,
        Answer::Refused(mask) => if mask == EXHAUSTED {
            Attempt::Exhausted
        } else {
            Attempt::Occupied
        },
        Answer::Contended => Attempt::Occupied,
    }
}

/// Whether `mask` records no free slot.
pub fn is_exhausted(mask: u32) -> (full: bool)
    ensures
        full == (mask == EXHAUSTED),
        full == (free_slots(mask) == Set::<PageId>::empty()),
{
    proof {
        lemma_exhausted(mask);
    }
    mask == EXHAUSTED
}

/// Taking a slot removes exactly that slot from the free set.
pub proof fn lemma_claim_removes(mask: u32, id: PageId)
    requires
        id < PAGE_SLOTS,
    ensures
        free_slots(mask_without(mask, id)) == free_slots(mask).remove(id),
{
    assert forall|j: PageId| #[trigger]
        is_free(mask_without(mask, id), j) == (is_free(mask, j) && j != id) by {
        if j < 32 {
            assert(((mask & !(1u32 << id)) & (1u32 << j) != 0) == (mask & (1u32 << j) != 0 && j
                != id)) by (bit_vector)
                requires
                    id < 32,
                    j < 32,
            ;
        }
    }
    assert(free_slots(mask_without(mask, id)) =~= free_slots(mask).remove(id));
}

/// Giving a slot back adds exactly that slot to the free set.
pub proof fn lemma_release_inserts(mask: u32, id: PageId)
    requires
        id < PAGE_SLOTS,
    ensures
        free_slots(mask_with(mask, id)) == free_slots(mask).insert(id),
{
    assert forall|j: PageId| #[trigger]
        is_free(mask_with(mask, id), j) == (is_free(mask, j) || j == id) by {
        if j < 32 {
            assert(((mask | (1u32 << id)) & (1u32 << j) != 0) == (mask & (1u32 << j) != 0 || j
                == id)) by (bit_vector)
                requires
                    id < 32,
                    j < 32,
            ;
        }
    }
    assert(free_slots(mask_with(mask, id)) =~= free_slots(mask).insert(id));
}

/// Giving back a slot that was taken from a mask restores the mask.
pub proof fn lemma_release_undoes_claim(mask: u32, id: PageId)
    requires
        is_free(mask, id),
    ensures
        mask_with(mask_without(mask, id), id) == mask,
{
    assert(((mask & !(1u32 << id)) | (1u32 << id)) == mask) by (bit_vector)
        requires
            id < 32,
            mask & (1u32 << id) != 0,
    ;
}

/// A mask other than zero has a bit set among its 32.
proof fn lemma_some_bit_set(mask: u32)
    requires
        mask != 0,
    ensures
        exists|id: PageId| is_free(mask, id),
{
    let zeros = vstd::std_specs::bits::u32_trailing_zeros(mask);
    vstd::std_specs::bits::axiom_u32_trailing_zeros(mask);
    let id = zeros as PageId;
    assert(mask & (1u32 << id) != 0) by (bit_vector)
        requires
            id < 32,
            (mask >> (id as u32)) & 1u32 == 1u32,
    ;
    assert(is_free(mask, id));
}

/// A mask is exhausted exactly when it records no free slot.
pub proof fn lemma_exhausted(mask: u32)
    ensures
        mask == EXHAUSTED <==> free_slots(mask) == Set::<PageId>::empty(),
        mask == EXHAUSTED <==> first_free(mask) is None,
{
    lemma_first_free_from(mask, 0);
    if mask == 0 {
        assert forall|id: PageId| !is_free(mask, id) by {
            if id < 32 {
                assert(0u32 & (1u32 << id) == 0) by (bit_vector);
            }
        }
        assert(free_slots(mask) =~= Set::<PageId>::empty());
    } else {
        lemma_some_bit_set(mask);
        let id = choose|id: PageId| is_free(mask, id);
        assert(free_slots(mask).contains(id));
    }
}

/// What [`first_free_from`] finds is free, and no slot between `from` and it
/// is; where it finds nothing, no slot at or after `from` is free.
pub proof fn lemma_first_free_from(mask: u32, from: PageId)
    ensures
        match first_free_from(mask, from) {
            Some(id) => from <= id && is_free(mask, id) && forall|j: PageId|
                from <= j < id ==> !is_free(mask, j),
            None => forall|j: PageId| from <= j ==> !is_free(mask, j),
        },
    decreases PAGE_SLOTS - from,
{
    if from < PAGE_SLOTS && !is_free(mask, from) {
        lemma_first_free_from(mask, (from + 1) as PageId);
    }
}

/// The lowest free slot is free and is the least of the free slots.
pub proof fn lemma_first_free(mask: u32)
    ensures
        match first_free(mask) {
            Some(id) => free_slots(mask).contains(id) && forall|j: PageId|
                free_slots(mask).contains(j) ==> id <= j,
            None => free_slots(mask) == Set::<PageId>::empty(),
        },
{
    lemma_first_free_from(mask, 0);
    if first_free(mask) is None {
        assert(free_slots(mask) =~= Set::<PageId>::empty());
    }
}

/// A slot that is free, with none free before it down to `from`, is what
/// [`first_free_from`] finds.
pub proof fn lemma_first_free_is(mask: u32, from: PageId, id: PageId)
    requires
        from <= id,
        is_free(mask, id),
        forall|j: PageId| from <= j < id ==> !is_free(mask, j),
    ensures
        first_free_from(mask, from) == Some(id),
    decreases id - from,
{
    if from < id {
        lemma_first_free_is(mask, (from + 1) as PageId, id);
    }
}

/// In a page filled from the bottom, the lowest free slot is the one above
/// the slots taken, and taking it fills the page one slot further.
pub proof fn lemma_spare_from(taken: PageId)
    requires
        taken < PAGE_SLOTS,
    ensures
        first_free(spare_from(taken)) == Some(taken),
        mask_without(spare_from(taken), taken) == spare_from((taken + 1) as PageId),
        spare_from(0) == ALL_FREE,
{
    let mask = spare_from(taken);
    assert(mask & (1u32 << taken) != 0) by (bit_vector)
        requires
            taken < 32,
            mask == 0xffff_ffffu32 << taken,
    ;
    assert forall|j: PageId| j < taken implies !is_free(mask, j) by {
        assert(mask & (1u32 << j) == 0) by (bit_vector)
            requires
                j < taken,
                taken < 32,
                mask == 0xffff_ffffu32 << taken,
        ;
    }
    lemma_first_free_is(mask, 0, taken);
    let next: PageId = (taken + 1) as PageId;
    assert(mask & !(1u32 << taken) == if taken == 31 {
        0u32
    } else {
        0xffff_ffffu32 << next
    }) by (bit_vector)
        requires
            taken < 32,
            next == taken + 1,
            mask == 0xffff_ffffu32 << taken,
    ;
    assert(0xffff_ffffu32 << 0u8 == 0xffff_ffffu32) by (bit_vector);
}

/// A scan passes over the slots that it hears are occupied.
pub proof fn lemma_scan_passes(heard: Seq<Answer>, from: PageId, to: PageId)
    requires
        from <= to <= heard.len(),
        to <= PAGE_SLOTS,
        forall|id: PageId|
            from <= id < to ==> attempt_of(#[trigger] heard[id as int]) == Attempt::Occupied,
    ensures
        scan_from(heard, from) == scan_from(heard, to),
    decreases to - from,
{
    if from < to {
        lemma_scan_passes(heard, (from + 1) as PageId, to);
    }
}

/// A scan that nobody disturbs ends with the lowest free slot of the mask
/// it reads, or on the mask of zero.
pub proof fn lemma_scan_alone(mask: u32, heard: Seq<Answer>, from: PageId)
    requires
        heard.len() == PAGE_SLOTS,
        forall|id: PageId|
            id < PAGE_SLOTS ==> #[trigger] heard[id as int] == answer_alone(mask, id),
        from < PAGE_SLOTS,
        mask == EXHAUSTED || first_free_from(mask, from) is Some,
    ensures
        scan_hears(heard),
        scan_from(heard, from) == match first_free_from(mask, from) {
            Some(id) => Round::Claimed(id),
            None => Round::Exhausted,
        },
    decreases PAGE_SLOTS - from,
{
    lemma_exhausted(mask);
    lemma_first_free_from(mask, from);
    lemma_first_free_from(mask, 0);
    if from < PAGE_SLOTS {
        assert(heard[from as int] == answer_alone(mask, from));
        if !is_free(mask, from) && mask != EXHAUSTED {
            lemma_scan_alone(mask, heard, (from + 1) as PageId);
        }
    }
}

} // verus!
