//! Moving between the pages of the welcome window, wrapping around at both
//! ends.

use vstd::prelude::*;

verus! {

/// The page before `current` among `num_pages` pages; the last page comes
/// before the first.
pub open spec fn page_before(current: int, num_pages: int) -> int {
    if current == 0 {
        num_pages - 1
    } else {
        current - 1
    }
}

/// The page after `current` among `num_pages` pages; the first page comes
/// after the last.
pub open spec fn page_after(current: int, num_pages: int) -> int {
    if current == num_pages - 1 {
        0
    } else {
        current + 1
    }
}

/// The page shown after a click on the left edge of the window.
pub fn previous_page(current: i32, num_pages: i32) -> (page: i32)
    requires
        current == 0 ==> num_pages > i32::MIN,
        current != 0 ==> current > i32::MIN,
    ensures
        page == page_before(current as int, num_pages as int),
{
    if current == 0 {
        num_pages - 1
    } else {
        current - 1
    }
}

/// The page shown after a click on the right edge of the window.
pub fn next_page(current: i32, num_pages: i32) -> (page: i32)
    requires
        num_pages > i32::MIN,
        current != num_pages - 1 ==> current < i32::MAX,
    ensures
        page == page_after(current as int, num_pages as int),
{
    if current == num_pages - 1 {
        0
    } else {
        current + 1
    }
}

/// Navigation never leaves the pages: from a page among `num_pages`, the
/// page before and the page after are pages too.
pub proof fn lemma_navigation_stays_on_pages(current: int, num_pages: int)
    requires
        0 <= current < num_pages,
    ensures
        0 <= page_before(current, num_pages) < num_pages,
        0 <= page_after(current, num_pages) < num_pages,
{
}

/// Going back one page undoes going forward one page, and the reverse.
pub proof fn lemma_navigation_round_trip(current: int, num_pages: int)
    requires
        0 <= current < num_pages,
    ensures
        page_before(page_after(current, num_pages), num_pages) == current,
        page_after(page_before(current, num_pages), num_pages) == current,
{
}

/// The page reached from `current` after `steps` steps forward.
pub open spec fn forward(current: int, num_pages: int, steps: nat) -> int
    decreases steps,
{
    if steps == 0 {
        current
    } else {
        page_after(forward(current, num_pages, (steps - 1) as nat), num_pages)
    }
}

proof fn lemma_forward_position(current: int, num_pages: int, steps: nat)
    requires
        0 <= current < num_pages,
    ensures
        forward(current, num_pages, steps) == (current + steps) % num_pages,
    decreases steps,
{
    if steps > 0 {
        lemma_forward_position(current, num_pages, (steps - 1) as nat);
        let prev = (current + steps - 1) % num_pages;
        assert((current + steps) % num_pages == if prev == num_pages - 1 {
            0
        } else {
            prev + 1
        }) by (nonlinear_arith)
            requires
                num_pages > 0,
                prev == (current + steps - 1) % num_pages,
                steps > 0,
                current >= 0,
        ;
    } else {
        assert((current + 0) % num_pages == current) by (nonlinear_arith)
            requires
                0 <= current < num_pages,
        ;
    }
}

/// Going forward one page at a time through all `num_pages` pages returns
/// to the page one started from.
pub proof fn lemma_full_cycle(current: int, num_pages: int)
    requires
        0 <= current < num_pages,
    ensures
        forward(current, num_pages, num_pages as nat) == current,
{
    lemma_forward_position(current, num_pages, num_pages as nat);
    assert((current + num_pages) % num_pages == current) by (nonlinear_arith)
        requires
            0 <= current < num_pages,
    ;
}

} // verus!
