//! The account of a pool kept in sequence: which slots are out on loan.
//!
//! A pool applies the steps of [`bitmask`](crate::bitmask) to atomic masks,
//! one compare-and-swap at a time. Verus does not see the masks of a shared
//! pool change, so what the steps add up to is proved here, over the masks of
//! a chain of pages as plain values:
//!
//! * whatever several threads do at once comes down to [`Step`]s in some
//!   order, one for each update that a page answers with `Installed`
//!   ([`law_update_is_a_step`]), and in every such order no slot is on loan
//!   to two guards ([`law_live_guards_never_share`]);
//! * a walk that nobody disturbs ends at [`pulled_slot`]
//!   ([`law_walk_alone`]), which depends on
//!   nothing but the slots on loan ([`law_loans_decide_the_next_pull`]), so
//!   that a slot given back is the next one handed out
//!   ([`law_serial_reuse`], [`law_two_in_flight`]), and finds the object there
//!   as the reset left it ([`law_reset_before_reuse`]);
//! * a page gives out 32 slots and the pull after them makes the chain grow
//!   by one page ([`law_first_page_fills`], [`law_full_page_grows`]).

use vstd::prelude::*;
use crate::bitmask::ALL_FREE;
use crate::bitmask::Answer;
use crate::bitmask::answers;
use crate::bitmask::Change;
use crate::bitmask::change_of;
use crate::bitmask::claim_of;
use crate::bitmask::EXHAUSTED;
use crate::bitmask::first_free;
use crate::bitmask::free_slots;
use crate::bitmask::is_free;
use crate::bitmask::lemma_claim_removes;
use crate::bitmask::lemma_exhausted;
use crate::bitmask::lemma_first_free;
use crate::bitmask::lemma_first_free_is;
use crate::bitmask::lemma_release_inserts;
use crate::bitmask::lemma_release_undoes_claim;
use crate::bitmask::lemma_spare_from;
use crate::bitmask::mask_with;
use crate::bitmask::mask_without;
use crate::bitmask::PAGE_SLOTS;
use crate::bitmask::PageId;
use crate::bitmask::spare_from;

verus! {

/// A slot of a chain: the position of its page, counted from the head, and
/// its index in that page.
pub type ChainSlot = (int, PageId);

/// The chain of a new pool: one page, all of it free.
pub open spec fn new_chain() -> Seq<u32> {
    seq![ALL_FREE]
}

/// Whether `slot` names a slot of `chain`.
pub open spec fn in_chain(chain: Seq<u32>, slot: ChainSlot) -> bool {
    0 <= slot.0 < chain.len() && slot.1 < PAGE_SLOTS
}

/// The slots of `chain` that are on loan.
pub open spec fn on_loan(chain: Seq<u32>) -> Set<ChainSlot> {
    Set::new(|slot: ChainSlot| in_chain(chain, slot) && !is_free(chain[slot.0], slot.1))
}

/// The first page at or after `from` that has a free slot; the length of the
/// chain where there is none.
pub open spec fn open_page_from(chain: Seq<u32>, from: int) -> int
    decreases chain.len() - from,
{
    if from < 0 || from >= chain.len() {
        chain.len() as int
    } else if chain[from] != EXHAUSTED {
        from
    } else {
        open_page_from(chain, from + 1)
    }
}

/// The slot that a pull takes from `chain`: the lowest free slot of the first
/// page that has one, or else the first slot of a page added at the end.
pub open spec fn pulled_slot(chain: Seq<u32>) -> ChainSlot {
    let page = open_page_from(chain, 0);
    if page < chain.len() {
        (page, first_free(chain[page]).unwrap())
    } else {
        (page, 0)
    }
}

/// The chain after a pull.
pub open spec fn after_pull(chain: Seq<u32>) -> Seq<u32> {
    let slot = pulled_slot(chain);
    if slot.0 < chain.len() {
        chain.update(slot.0, mask_without(chain[slot.0], slot.1))
    } else {
        chain.push(mask_without(ALL_FREE, slot.1))
    }
}

/// The chain after `slot` was given back.
pub open spec fn after_return(chain: Seq<u32>, slot: ChainSlot) -> Seq<u32> {
    chain.update(slot.0, mask_with(chain[slot.0], slot.1))
}

/// The chain after `count` pulls in a row.
pub open spec fn after_pulls(chain: Seq<u32>, count: nat) -> Seq<u32>
    decreases count,
{
    if count == 0 {
        chain
    } else {
        after_pull(after_pulls(chain, (count - 1) as nat))
    }
}

/// The slot that pull number `index` takes, counting from 0, in a row of
/// pulls from `chain`.
pub open spec fn nth_pulled(chain: Seq<u32>, index: nat) -> ChainSlot {
    pulled_slot(after_pulls(chain, index))
}

/// Where the walk stops: at a page with a free slot, all pages before it
/// being exhausted, or at the end of a chain all of whose pages from `from`
/// on are exhausted.
pub proof fn lemma_open_page(chain: Seq<u32>, from: int)
    requires
        0 <= from <= chain.len(),
    ensures
        from <= open_page_from(chain, from) <= chain.len(),
        open_page_from(chain, from) < chain.len() ==> chain[open_page_from(chain, from)]
            != EXHAUSTED,
        forall|page: int| from <= page < open_page_from(chain, from) ==> chain[page] == EXHAUSTED,
    decreases chain.len() - from,
{
    if from < chain.len() && chain[from] == EXHAUSTED {
        lemma_open_page(chain, from + 1);
    }
}

/// A pull takes a slot that was not on loan, puts exactly that slot on loan,
/// and adds a page only where every page was exhausted, and then only one.
pub proof fn law_pull_takes_a_free_slot(chain: Seq<u32>)
    ensures
        !on_loan(chain).contains(pulled_slot(chain)),
        in_chain(after_pull(chain), pulled_slot(chain)),
        on_loan(after_pull(chain)) == on_loan(chain).insert(pulled_slot(chain)),
        after_pull(chain).len() == chain.len() || (after_pull(chain).len() == chain.len() + 1
            && forall|page: int| 0 <= page < chain.len() ==> chain[page] == EXHAUSTED),
{
    let slot = pulled_slot(chain);
    let next = after_pull(chain);
    lemma_open_page(chain, 0);
    if slot.0 < chain.len() {
        let mask = chain[slot.0];
        lemma_exhausted(mask);
        lemma_first_free(mask);
        lemma_claim_removes(mask, slot.1);
        assert(free_slots(mask).contains(slot.1));
        assert(!free_slots(mask_without(mask, slot.1)).contains(slot.1));
        assert forall|other: ChainSlot|
            on_loan(next).contains(other) == on_loan(chain).insert(slot).contains(other) by {
            if other.0 == slot.0 && other.1 < PAGE_SLOTS {
                assert(free_slots(mask_without(mask, slot.1)).contains(other.1) == (free_slots(
                    mask,
                ).contains(other.1) && other.1 != slot.1));
            }
        }
    } else {
        lemma_first_free(ALL_FREE);
        lemma_claim_removes(ALL_FREE, 0);
        lemma_all_free();
        assert forall|other: ChainSlot|
            on_loan(next).contains(other) == on_loan(chain).insert(slot).contains(other) by {
            if other.0 == slot.0 && other.1 < PAGE_SLOTS {
                assert(free_slots(mask_without(ALL_FREE, 0)).contains(other.1) == (free_slots(
                    ALL_FREE,
                ).contains(other.1) && other.1 != 0));
                assert(free_slots(ALL_FREE).contains(other.1));
            }
        }
    }
    assert(on_loan(next) =~= on_loan(chain).insert(slot));
}

/// In a new page every slot is free.
pub proof fn lemma_all_free()
    ensures
        forall|id: PageId| id < PAGE_SLOTS ==> is_free(ALL_FREE, id),
        first_free(ALL_FREE) == Some(0u8),
{
    assert forall|id: PageId| id < PAGE_SLOTS implies is_free(ALL_FREE, id) by {
        assert(0xffff_ffffu32 & (1u32 << id) != 0) by (bit_vector)
            requires
                id < 32,
        ;
    }
}

/// Giving a slot back takes exactly that slot off the loans, and leaves the
/// chain as long as it was.
pub proof fn law_return_frees_the_slot(chain: Seq<u32>, slot: ChainSlot)
    requires
        in_chain(chain, slot),
    ensures
        on_loan(after_return(chain, slot)) == on_loan(chain).remove(slot),
        after_return(chain, slot).len() == chain.len(),
{
    let mask = chain[slot.0];
    let next = after_return(chain, slot);
    lemma_release_inserts(mask, slot.1);
    assert forall|other: ChainSlot|
        on_loan(next).contains(other) == on_loan(chain).remove(slot).contains(other) by {
        if other.0 == slot.0 && other.1 < PAGE_SLOTS {
            assert(free_slots(mask_with(mask, slot.1)).contains(other.1) == (free_slots(
                mask,
            ).contains(other.1) || other.1 == slot.1));
        }
    }
    assert(on_loan(next) =~= on_loan(chain).remove(slot));
}

/// Loans only grow while pulls follow one another.
proof fn lemma_loans_grow(chain: Seq<u32>, fewer: nat, more: nat)
    requires
        fewer <= more,
    ensures
        on_loan(after_pulls(chain, fewer)).subset_of(on_loan(after_pulls(chain, more))),
    decreases more,
{
    if fewer < more {
        lemma_loans_grow(chain, fewer, (more - 1) as nat);
        law_pull_takes_a_free_slot(after_pulls(chain, (more - 1) as nat));
    }
}

/// Pulls that follow one another with no return between them take slots
/// that differ from one another, whatever the chain they start from.
pub proof fn law_pulls_are_distinct(chain: Seq<u32>, earlier: nat, later: nat)
    requires
        earlier < later,
    ensures
        nth_pulled(chain, earlier) != nth_pulled(chain, later),
{
    law_pull_takes_a_free_slot(after_pulls(chain, earlier));
    assert(after_pulls(chain, earlier + 1) == after_pull(after_pulls(chain, earlier)));
    assert(on_loan(after_pulls(chain, earlier + 1)).contains(nth_pulled(chain, earlier)));
    lemma_loans_grow(chain, earlier + 1, later);
    law_pull_takes_a_free_slot(after_pulls(chain, later));
}

/// One change to the masks of a chain. Each is a single atomic update, so
/// that whatever several threads do to a chain at once comes down to such
/// steps in some order.
pub enum Step {
    /// A slot is taken: the update of its page's mask found it free.
    Take(ChainSlot),
    /// A slot is given back by the guard that held it.
    Give(ChainSlot),
    /// A new page, all of it free, is installed at the end of the chain.
    Grow,
}

/// The chain after `step`.
pub open spec fn after_step(chain: Seq<u32>, step: Step) -> Seq<u32> {
    match step {
        Step::Take(slot) => chain.update(slot.0, mask_without(chain[slot.0], slot.1)),
        Step::Give(slot) => after_return(chain, slot),
        Step::Grow => chain.push(ALL_FREE),
    }
}

/// The slots of the live guards after `step`, where they were `live` before.
pub open spec fn live_after_step(live: Set<ChainSlot>, step: Step) -> Set<ChainSlot> {
    match step {
        Step::Take(slot) => live.insert(slot),
        Step::Give(slot) => live.remove(slot),
        Step::Grow => live,
    }
}

/// Whether `step` can happen to `chain` while the guards of `live` are
/// alive: a slot is taken only by an update that finds it free, and given
/// back only by its guard, which gives up the slot with it.
pub open spec fn step_allowed(chain: Seq<u32>, live: Set<ChainSlot>, step: Step) -> bool {
    match step {
        Step::Take(slot) => in_chain(chain, slot) && claim_of(chain[slot.0], slot.1) is Some,
        Step::Give(slot) => live.contains(slot),
        Step::Grow => true,
    }
}

/// The step that an update of the mask of page `page` makes which installs
/// `change`.
pub open spec fn step_of(page: int, change: Change) -> Step {
    match change {
        Change::Take(id) => Step::Take((page, id)),
        Change::Give(id) => Step::Give((page, id)),
    }
}

/// An update that a page answers with `Installed` is a step of this
/// account: where the mask it replaced is the mask of page `page`, the step
/// is allowed, for a slot given back by its guard, and leaves the chain
/// with the mask that `change` makes of the mask replaced.
pub proof fn law_update_is_a_step(
    chain: Seq<u32>,
    live: Set<ChainSlot>,
    page: int,
    change: Change,
    answer: Answer,
)
    requires
        0 <= page < chain.len(),
        change.slot() < PAGE_SLOTS,
        answers(change, answer),
        answer == Answer::Installed(chain[page]),
        change is Give ==> live.contains((page, change.slot())),
    ensures
        step_allowed(chain, live, step_of(page, change)),
        change_of(chain[page], change) is Some,
        after_step(chain, step_of(page, change)) == chain.update(
            page,
            change_of(chain[page], change).unwrap(),
        ),
{
}

/// The chain after the steps of `history`, in their order.
pub open spec fn after_history(chain: Seq<u32>, history: Seq<Step>) -> Seq<u32>
    decreases history.len(),
{
    if history.len() == 0 {
        chain
    } else {
        after_step(after_history(chain, history.drop_last()), history.last())
    }
}

/// The slots of the guards that are alive after the steps of `history`:
/// those taken and not yet given back.
pub open spec fn live_after(history: Seq<Step>) -> Set<ChainSlot>
    decreases history.len(),
{
    if history.len() == 0 {
        Set::empty()
    } else {
        live_after_step(live_after(history.drop_last()), history.last())
    }
}

/// Whether each step of `history` can happen when its turn comes.
pub open spec fn history_allowed(chain: Seq<u32>, history: Seq<Step>) -> bool
    decreases history.len(),
{
    history.len() > 0 ==> {
        let earlier = history.drop_last();
        &&& history_allowed(chain, earlier)
        &&& step_allowed(after_history(chain, earlier), live_after(earlier), history.last())
    }
}

/// Every live guard's slot is on loan in the chain, whatever happened.
pub proof fn lemma_live_slots_are_on_loan(chain: Seq<u32>, history: Seq<Step>)
    requires
        history_allowed(chain, history),
    ensures
        live_after(history).subset_of(on_loan(after_history(chain, history))),
    decreases history.len(),
{
    if history.len() > 0 {
        let earlier = history.drop_last();
        let before = after_history(chain, earlier);
        let after = after_history(chain, history);
        lemma_live_slots_are_on_loan(chain, earlier);
        match history.last() {
            Step::Take(slot) => {
                lemma_claim_removes(before[slot.0], slot.1);
                assert forall|other: ChainSlot| on_loan(before).contains(other) implies on_loan(
                    after,
                ).contains(other) by {
                    if other.0 == slot.0 {
                        assert(free_slots(after[slot.0]).contains(other.1) ==> free_slots(
                            before[slot.0],
                        ).contains(other.1));
                    }
                }
                assert(!free_slots(after[slot.0]).contains(slot.1));
            },
            Step::Give(slot) => {
                law_return_frees_the_slot(before, slot);
            },
            Step::Grow => {
                assert forall|other: ChainSlot| on_loan(before).contains(other) implies on_loan(
                    after,
                ).contains(other) by {
                    assert(after[other.0] == before[other.0]);
                }
            },
        }
    }
}

/// However the steps of several threads fall into one another, a slot whose
/// guard is alive is never taken: no two live guards share a slot.
pub proof fn law_live_guards_never_share(chain: Seq<u32>, history: Seq<Step>, slot: ChainSlot)
    requires
        history_allowed(chain, history),
        step_allowed(after_history(chain, history), live_after(history), Step::Take(slot)),
    ensures
        !live_after(history).contains(slot),
{
    lemma_live_slots_are_on_loan(chain, history);
    let now = after_history(chain, history);
    assert(free_slots(now[slot.0]).contains(slot.1));
    assert(!on_loan(now).contains(slot));
}

/// A pull that nobody disturbs is made of such steps: it takes its slot
/// where it finds it free, after a page was added if every page was
/// exhausted.
pub proof fn law_pull_is_made_of_steps(chain: Seq<u32>, live: Set<ChainSlot>)
    ensures
        pulled_slot(chain).0 < chain.len() ==> step_allowed(
            chain,
            live,
            Step::Take(pulled_slot(chain)),
        ) && after_pull(chain) == after_step(chain, Step::Take(pulled_slot(chain))),
        pulled_slot(chain).0 >= chain.len() ==> step_allowed(
            after_step(chain, Step::Grow),
            live,
            Step::Take(pulled_slot(chain)),
        ) && after_pull(chain) == after_step(
            after_step(chain, Step::Grow),
            Step::Take(pulled_slot(chain)),
        ),
{
    let slot = pulled_slot(chain);
    lemma_open_page(chain, 0);
    if slot.0 < chain.len() {
        lemma_exhausted(chain[slot.0]);
        lemma_first_free(chain[slot.0]);
    } else {
        lemma_all_free();
        let grown = after_step(chain, Step::Grow);
        assert(grown[slot.0] == ALL_FREE);
        assert(after_pull(chain) =~= after_step(grown, Step::Take(slot)));
    }
}

/// The page with a free slot before which every page is exhausted is where
/// the walk stops.
proof fn lemma_open_page_is(chain: Seq<u32>, from: int, page: int)
    requires
        0 <= from <= page < chain.len(),
        chain[page] != EXHAUSTED,
        forall|before: int| from <= before < page ==> chain[before] == EXHAUSTED,
    ensures
        open_page_from(chain, from) == page,
    decreases page - from,
{
    if from < page {
        lemma_open_page_is(chain, from + 1, page);
    }
}

/// Whether `found` is what the pages of `chain` answer, one after the
/// other from the head, to a walk that nobody disturbs: each page answers
/// with its lowest free slot, or with `None` where it has none, and a page
/// added at the end of the chain answers with its first slot.
pub open spec fn answers_alone(chain: Seq<u32>, found: Seq<Option<PageId>>) -> bool {
    forall|at: int|
        0 <= at < found.len() ==> #[trigger] found[at] == (if at < chain.len() {
            first_free(chain[at])
        } else {
            Some(0u8)
        })
}

/// A walk that nobody disturbs ends at [`pulled_slot`]: where the pages
/// tried answered as the masks of `chain` answer alone, every page but the
/// last with `None` and the last with slot `id`, the last page tried and
/// `id` are the slot that a pull takes from `chain`, and a page was added
/// only if every page of the chain was exhausted.
pub proof fn law_walk_alone(chain: Seq<u32>, found: Seq<Option<PageId>>, id: PageId)
    requires
        0 < found.len() <= chain.len() + 1,
        answers_alone(chain, found),
        forall|at: int| 0 <= at < found.len() - 1 ==> (#[trigger] found[at]) is None,
        found.last() == Some(id),
    ensures
        pulled_slot(chain) == (found.len() - 1, id),
        found.len() == chain.len() + 1 ==> forall|page: int|
            0 <= page < chain.len() ==> chain[page] == EXHAUSTED,
{
    let last = found.len() - 1;
    assert forall|page: int| 0 <= page < last implies chain[page] == EXHAUSTED by {
        assert(found[page] is None);
        lemma_exhausted(chain[page]);
    }
    lemma_open_page(chain, 0);
    if last < chain.len() {
        assert(found[last] == first_free(chain[last]));
        lemma_exhausted(chain[last]);
        lemma_open_page_is(chain, 0, last);
    } else {
        assert(found[last] == Some(0u8));
    }
}

/// The chain after a pull and the return of the slot pulled.
pub open spec fn after_cycle(chain: Seq<u32>) -> Seq<u32> {
    after_return(after_pull(chain), pulled_slot(chain))
}

/// The chain after `count` such cycles in a row.
pub open spec fn after_cycles(chain: Seq<u32>, count: nat) -> Seq<u32>
    decreases count,
{
    if count == 0 {
        chain
    } else {
        after_cycle(after_cycles(chain, (count - 1) as nat))
    }
}

/// A pull that follows the return of a slot, with nothing between them,
/// takes that slot again.
pub proof fn law_returned_slot_is_pulled_next(chain: Seq<u32>)
    ensures
        pulled_slot(after_cycle(chain)) == pulled_slot(chain),
{
    let slot = pulled_slot(chain);
    lemma_open_page(chain, 0);
    if slot.0 < chain.len() {
        let mask = chain[slot.0];
        lemma_exhausted(mask);
        lemma_first_free(mask);
        lemma_release_undoes_claim(mask, slot.1);
        assert(after_cycle(chain) =~= chain);
    } else {
        lemma_all_free();
        lemma_release_undoes_claim(ALL_FREE, 0);
        let grown = chain.push(ALL_FREE);
        assert(after_cycle(chain) =~= grown);
        lemma_open_page_is(grown, 0, chain.len() as int);
    }
}

/// Pulling and returning any number of times in a row, with nothing else
/// going on, takes the same slot every time.
pub proof fn law_serial_reuse(chain: Seq<u32>, count: nat)
    ensures
        pulled_slot(after_cycles(chain, count)) == pulled_slot(chain),
    decreases count,
{
    if count > 0 {
        law_serial_reuse(chain, (count - 1) as nat);
        law_returned_slot_is_pulled_next(after_cycles(chain, (count - 1) as nat));
    }
}

/// Whether `slot` comes before `other` in the order in which a walk tries
/// the slots of a chain: page by page, and within a page from slot 0 up.
pub open spec fn tried_before(slot: ChainSlot, other: ChainSlot) -> bool {
    slot.0 < other.0 || (slot.0 == other.0 && slot.1 < other.1)
}

/// The slot that a pull takes is not on loan, and every slot that a walk
/// tries before it is.
pub proof fn lemma_pulled_slot_is_first(chain: Seq<u32>)
    ensures
        0 <= pulled_slot(chain).0,
        pulled_slot(chain).1 < PAGE_SLOTS,
        !on_loan(chain).contains(pulled_slot(chain)),
        forall|other: ChainSlot|
            0 <= other.0 && other.1 < PAGE_SLOTS && tried_before(other, pulled_slot(chain))
                ==> on_loan(chain).contains(other),
{
    let slot = pulled_slot(chain);
    lemma_open_page(chain, 0);
    if slot.0 < chain.len() {
        lemma_exhausted(chain[slot.0]);
        lemma_first_free(chain[slot.0]);
    }
    assert forall|other: ChainSlot|
        0 <= other.0 && other.1 < PAGE_SLOTS && tried_before(other, slot) implies on_loan(
        chain,
    ).contains(other) by {
        if other.0 < slot.0 {
            lemma_exhausted(chain[other.0]);
            assert(!free_slots(chain[other.0]).contains(other.1));
        } else {
            assert(!free_slots(chain[slot.0]).contains(other.1));
        }
    }
}

/// Which slot a pull takes depends on nothing but the slots on loan: two
/// chains with the same loans hand out the same slot next, however they
/// came to be.
pub proof fn law_loans_decide_the_next_pull(chain: Seq<u32>, other: Seq<u32>)
    requires
        on_loan(chain) == on_loan(other),
    ensures
        pulled_slot(chain) == pulled_slot(other),
{
    lemma_pulled_slot_is_first(chain);
    lemma_pulled_slot_is_first(other);
    let here = pulled_slot(chain);
    let there = pulled_slot(other);
    if tried_before(here, there) {
        assert(on_loan(other).contains(here));
    }
    if tried_before(there, here) {
        assert(on_loan(chain).contains(there));
    }
}

/// Two guards held at once and then dropped, in either order, leave the pool
/// so that the next two pulls take the same two slots again.
pub proof fn law_two_in_flight(chain: Seq<u32>, first_back: bool)
    ensures
        nth_pulled(chain, 0) != nth_pulled(chain, 1),
        ({
            let one = nth_pulled(chain, 0);
            let two = nth_pulled(chain, 1);
            let held = after_pulls(chain, 2);
            let home = if first_back {
                after_return(after_return(held, one), two)
            } else {
                after_return(after_return(held, two), one)
            };
            nth_pulled(home, 0) == one && nth_pulled(home, 1) == two
        }),
{
    let one = nth_pulled(chain, 0);
    let two = nth_pulled(chain, 1);
    let held = after_pulls(chain, 2);
    law_pulls_are_distinct(chain, 0, 1);
    assert(after_pulls(chain, 1) == after_pull(chain));
    assert(held == after_pull(after_pull(chain)));
    law_pull_takes_a_free_slot(chain);
    law_pull_takes_a_free_slot(after_pull(chain));
    let home = if first_back {
        law_return_frees_the_slot(held, one);
        law_return_frees_the_slot(after_return(held, one), two);
        after_return(after_return(held, one), two)
    } else {
        law_return_frees_the_slot(held, two);
        law_return_frees_the_slot(after_return(held, two), one);
        after_return(after_return(held, two), one)
    };
    assert(on_loan(home) =~= on_loan(chain));
    law_loans_decide_the_next_pull(home, chain);
    assert(after_pulls(home, 0) == home);
    assert(after_pulls(home, 1) == after_pull(home));
    law_pull_takes_a_free_slot(home);
    assert(on_loan(after_pull(home)) =~= on_loan(after_pull(chain)));
    law_loans_decide_the_next_pull(after_pull(home), after_pull(chain));
}

/// What the slots of a chain hold after `object` was put back into `slot`.
pub open spec fn parked_after_return<T>(
    parked: Map<ChainSlot, T>,
    slot: ChainSlot,
    object: T,
) -> Map<ChainSlot, T> {
    parked.insert(slot, object)
}

/// The object that a pull finds in the slot it takes.
pub open spec fn object_pulled<T>(chain: Seq<u32>, parked: Map<ChainSlot, T>) -> T {
    parked[pulled_slot(chain)]
}

/// Reset comes before reuse. A guard that holds `held` resets it when it is
/// dropped and puts back what the reset left, `after_reset`; the pull that
/// takes the slot next hands out that object: one that `reset` may leave of
/// `held`, not `held` as the last user left it.
pub proof fn law_reset_before_reuse<T, R: Fn(&mut T)>(
    chain: Seq<u32>,
    parked: Map<ChainSlot, T>,
    reset: R,
    held: T,
    after_reset: T,
)
    requires
        exists|object: &mut T|
            *object == held && *final(object) == after_reset && #[trigger] call_ensures(
                reset,
                (object,),
                (),
            ),
    ensures
        ({
            let next = object_pulled(
                after_cycle(chain),
                parked_after_return(parked, pulled_slot(chain), after_reset),
            );
            exists|object: &mut T|
                *object == held && *final(object) == next && #[trigger] call_ensures(
                    reset,
                    (object,),
                    (),
                )
        }),
{
    law_returned_slot_is_pulled_next(chain);
}

/// The first 32 pulls from a new pool take the slots of its one page from
/// the bottom up.
pub proof fn law_first_page_fills(count: nat)
    requires
        count <= PAGE_SLOTS,
    ensures
        after_pulls(new_chain(), count) == seq![spare_from(count as PageId)],
        count < PAGE_SLOTS ==> nth_pulled(new_chain(), count) == (0int, count as PageId),
    decreases count,
{
    if count == 0 {
        lemma_spare_from(0);
    } else {
        let taken = (count - 1) as PageId;
        law_first_page_fills((count - 1) as nat);
        lemma_spare_from(taken);
        let before = after_pulls(new_chain(), (count - 1) as nat);
        lemma_exhausted(spare_from(taken));
        lemma_open_page_is(before, 0, 0);
        assert(after_pull(before) =~= seq![spare_from(count as PageId)]);
    }
    if count < PAGE_SLOTS {
        let now = after_pulls(new_chain(), count);
        lemma_spare_from(count as PageId);
        lemma_exhausted(spare_from(count as PageId));
        lemma_open_page_is(now, 0, 0);
    }
}

/// The pull after those 32 finds the page exhausted, adds one page to the
/// chain and takes that page's first slot.
pub proof fn law_full_page_grows()
    ensures
        after_pulls(new_chain(), 32).len() == 1,
        nth_pulled(new_chain(), 32) == (1int, 0u8),
        after_pulls(new_chain(), 33).len() == 2,
{
    law_first_page_fills(32);
    let full = after_pulls(new_chain(), 32);
    assert(full[0] == EXHAUSTED);
    lemma_open_page(full, 0);
    assert(open_page_from(full, 0) == 1);
    assert(after_pulls(new_chain(), 33) == after_pull(full));
}

/// A page filled from the bottom hands out its slots in order, 32 of them,
/// and is then exhausted; the free slot of a page otherwise exhausted is the
/// one slot that has been given back.
pub proof fn law_page_capacity(taken: PageId, returned: PageId)
    requires
        taken < PAGE_SLOTS,
        returned < PAGE_SLOTS,
    ensures
        first_free(spare_from(taken)) == Some(taken),
        first_free(spare_from(PAGE_SLOTS)) is None,
        mask_with(EXHAUSTED, returned) != EXHAUSTED,
        first_free(mask_with(EXHAUSTED, returned)) == Some(returned),
{
    lemma_spare_from(taken);
    lemma_exhausted(EXHAUSTED);
    lemma_release_inserts(EXHAUSTED, returned);
    let mask = mask_with(EXHAUSTED, returned);
    assert(free_slots(mask).contains(returned));
    lemma_exhausted(mask);
    assert forall|j: PageId| j < returned implies !is_free(mask, j) by {
        assert(free_slots(mask).contains(j) == (free_slots(EXHAUSTED).contains(j) || j
            == returned));
    }
    lemma_first_free_is(mask, 0, returned);
}

} // verus!
