//! The chain of pages behind the lock-free pool.
//!
//! A chain is a singly linked list of pages that only grows. A page's link to
//! its successor is installed once, by whichever thread gets there first, and
//! is never changed or removed afterwards, so that a walk from the head is
//! safe at any time. The pages are freed together, when the head is dropped.
//!
//! Every page knows its position in the chain, counted from the head, which
//! is fixed when the page is made; the page behind a link stands one
//! position after the page that has the link.

use std::sync::OnceLock;
use vstd::prelude::*;
use crate::bitmask::PAGE_SLOTS;
use crate::bitmask::PageId;
use crate::bitmask::Round;
use crate::bitmask::scans_end;
use crate::bitmask::scans_hear;
use crate::page::Page;
use crate::page::SCAN_LIMIT;

verus! {

/// The number of pages after which a walk along a chain gives up. No chain
/// gets that long: its pages would not fit into the address space.
pub const WALK_LIMIT: usize = usize::MAX;

/// The link from one page of a chain to the next: empty until a page is
/// installed, and then never changed. It holds a `std::sync::OnceLock` of a
/// boxed [`LinearPage`], which Verus does not look into.
#[verifier::external_body]
#[verifier::reject_recursive_types(T)]
pub struct NextLink<T> {
    cell: OnceLock<Box<LinearPage<T>>>,
}

/// `OnceLock::new`: the link of a page that has no successor yet.
#[verifier::external_body]
fn unlinked<T>() -> NextLink<T> {
    NextLink { cell: OnceLock::new() }
}

/// `OnceLock::get` on the link of `page`: the page that the link leads to,
/// if one is installed. Such a page was installed by [`install`], which
/// takes only pages made for the position after `page`.
#[verifier::external_body]
fn linked<T>(page: &LinearPage<T>) -> (found: Option<&LinearPage<T>>)
    ensures
        found matches Some(next) ==> next.position() == page.position() + 1,
{
    match page.next.cell.get() {
        Some(next) => Some(&**next),
        None => None,
    }
}

/// `OnceLock::get_or_init` on the link of `page`, with `fresh` as the value
/// to install: the page that the link leads to afterwards. Where the link
/// was empty that page is `fresh`; where another page had been installed
/// first, `fresh` is dropped and the page that was there is returned, which
/// an earlier call of this function installed. Either was made for the
/// position after `page`.
#[verifier::external_body]
fn install<T>(page: &LinearPage<T>, fresh: Box<LinearPage<T>>) -> (next: &LinearPage<T>)
    requires
        fresh.position() == page.position() + 1,
    ensures
        next.position() == page.position() + 1,
{
    page.next.cell.get_or_init(move || fresh)
}

/// A page and the link to the page after it.
#[verifier::reject_recursive_types(T)]
pub struct LinearPage<T> {
    page: Page<T>,
    next: NextLink<T>,
    position: Ghost<nat>,
}

/// Whether `found` can be what a page answers to an attempt to take a slot
/// from it. Every answer with a slot below 32 can be: which of them it is,
/// the page's mask decides.
pub open spec fn page_answers(found: Option<PageId>) -> bool {
    exists|rounds: Seq<Round>|
        #![trigger scans_hear(rounds, SCAN_LIMIT)]
        scans_hear(rounds, SCAN_LIMIT) && scans_end(rounds, SCAN_LIMIT, found)
}

/// Whether a walk from `start` can have gone as `seen` and `found` say: it
/// tried the pages `seen` one after the other, none of more than `pages`
/// pages, beginning with `start` and going one position on each time; page
/// `seen[at]` answered `found[at]`, and every page but the last had no slot
/// to give.
pub open spec fn walk_hears<T>(
    start: LinearPage<T>,
    seen: Seq<LinearPage<T>>,
    found: Seq<Option<PageId>>,
    pages: usize,
) -> bool {
    &&& seen.len() == found.len()
    &&& found.len() <= pages
    &&& seen.len() > 0 ==> seen[0] == start
    &&& forall|at: int|
        0 <= at < seen.len() ==> (#[trigger] seen[at]).position() == start.position() + at
    &&& forall|at: int| 0 <= at < found.len() ==> page_answers(#[trigger] found[at])
    &&& forall|at: int| 0 <= at < found.len() - 1 ==> (#[trigger] found[at]) is None
}

/// Whether `got` is what a walk of at most `pages` pages returns that went
/// as `seen` and `found` say: the last page tried and the slot it gave, or
/// `None` where all of the `pages` pages had none to give.
pub open spec fn walk_ends<T>(
    seen: Seq<LinearPage<T>>,
    found: Seq<Option<PageId>>,
    pages: usize,
    got: Option<(&Page<T>, PageId)>,
) -> bool {
    match got {
        Some((page, id)) => found.len() > 0 && found.last() == Some(id) && *page
            == seen.last().page(),
        None => found.len() == pages && (pages > 0 ==> found.last() is None),
    }
}

impl<T> LinearPage<T> {
    /// The page itself, without the link.
    pub closed spec fn page(&self) -> Page<T> {
        self.page
    }

    /// The position of the page in its chain: 0 for the head.
    pub closed spec fn position(&self) -> nat {
        self.position@
    }

    /// Makes the first page of a chain, stocked by `init`.
    pub fn new<I>(init: I) -> (chain: Self) where I: Fn() -> T
        requires
            call_requires(init, ()),
        ensures
            chain.page().fresh_from(init),
            chain.position() == 0,
    {
        LinearPage { page: Page::new(init), next: unlinked(), position: Ghost(0) }
    }

    /// Makes a page for the position after this one, stocked by `init`.
    fn successor<I>(&self, init: I) -> (fresh: Self) where I: Fn() -> T
        requires
            call_requires(init, ()),
        ensures
            fresh.page().fresh_from(init),
            fresh.position() == self.position() + 1,
    {
        LinearPage {
            page: Page::new(init),
            next: unlinked(),
            position: Ghost((self.position@ + 1) as nat),
        }
    }

    /// The page after this one. Where there is none yet, a new page is made
    /// and installed; if another thread installs its page first, the page
    /// made here is dropped and the other one is used. Whichever it is, it
    /// stands one position after this page.
    pub fn get_or_create_next<I>(&self, init: I) -> (next: &Self) where I: Fn() -> T
        requires
            call_requires(init, ()),
        ensures
            next.position() == self.position() + 1,
    {
        match linked(self) {
            Some(next) => next,
            None => install(self, Box::new(self.successor(init))),
        }
    }

    /// Takes a slot from the first page of the chain that has one to give,
    /// walking from this page on and adding a page where the chain ends.
    /// Returns the page and the slot. `None` only after [`WALK_LIMIT`] pages.
    ///
    /// The clause says of the result what the pages' answers allow: the walk
    /// starts at this page and goes one position on while a page has no
    /// slot to give; it returns the first slot that a page gives, with that
    /// page. Which page gives a slot is for the masks to decide. Where no
    /// other thread touches the chain meanwhile, the slot is
    /// [`pulled_slot`](crate::ledger::pulled_slot) of the chain's masks.
    pub fn allocate<I>(&self, init: I) -> (got: Option<(&Page<T>, PageId)>) where I: Fn() -> T
        requires
            call_requires(init, ()),
        ensures
            got matches Some((_, id)) ==> id < PAGE_SLOTS,
            exists|seen: Seq<LinearPage<T>>, found: Seq<Option<PageId>>|
                #![trigger walk_hears(*self, seen, found, WALK_LIMIT)]
                walk_hears(*self, seen, found, WALK_LIMIT) && walk_ends(
                    seen,
                    found,
                    WALK_LIMIT,
                    got,
                ),
    {
        self.allocate_within(init, WALK_LIMIT)
    }

    /// As [`allocate`](LinearPage::allocate), but the walk gives up after
    /// `pages` pages: `None` where none of them had a slot to give.
    pub fn allocate_within<I>(&self, init: I, pages: usize) -> (got: Option<
        (&Page<T>, PageId),
    >) where I: Fn() -> T
        requires
            call_requires(init, ()),
        ensures
            got matches Some((_, id)) ==> id < PAGE_SLOTS,
            pages == 0 ==> got is None,
            exists|seen: Seq<LinearPage<T>>, found: Seq<Option<PageId>>|
                #![trigger walk_hears(*self, seen, found, pages)]
                walk_hears(*self, seen, found, pages) && walk_ends(seen, found, pages, got),
    {
        let ghost mut seen: Seq<LinearPage<T>> = Seq::empty();
        let ghost mut found: Seq<Option<PageId>> = Seq::empty();
        let mut current: &LinearPage<T> = self;
        let mut visited: usize = 0;
        while visited < pages
            invariant
                call_requires(init, ()),
                visited <= pages,
                seen.len() == visited,
                found.len() == visited,
                visited == 0 ==> *current == *self,
                visited > 0 ==> seen[0] == *self,
                current.position() == self.position() + visited,
                forall|at: int|
                    0 <= at < seen.len() ==> (#[trigger] seen[at]).position() == self.position()
                        + at,
                forall|at: int| 0 <= at < found.len() ==> page_answers(#[trigger] found[at]),
                forall|at: int| 0 <= at < found.len() ==> (#[trigger] found[at]) is None,
            decreases pages - visited,
        {
            let answer = current.page.allocate();
            proof {
                assert(page_answers(answer));
                seen = seen.push(*current);
                found = found.push(answer);
            }
            match answer {
                Some(id) => {
                    proof {
                        assert(walk_hears(*self, seen, found, pages));
                        assert(walk_ends(seen, found, pages, Some((&current.page, id))));
                    }
                    return Some((&current.page, id));
                },
                None => {},
            }
            visited += 1;
            if visited < pages {
                current = current.get_or_create_next(&init);
            } else {
                proof {
                    assert(walk_hears(*self, seen, found, pages));
                    assert(walk_ends(seen, found, pages, None));
                }
                return None;
            }
        }
        proof {
            assert(walk_hears(*self, seen, found, pages));
            assert(walk_ends(seen, found, pages, None));
        }
        None
    }
}

} // verus!
