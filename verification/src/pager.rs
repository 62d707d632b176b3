//! Paging of the ledgers: which rows of a filtered list one page shows.
use vstd::prelude::*;

verus! {

/// The page actually shown: the requested one, pulled back into
/// `1..=page_count` when filtering has left fewer pages.
pub open spec fn clamped_page(page: int, page_count: int) -> int {
    if page < 1 {
        1
    } else if page > page_count {
        page_count
    } else {
        page
    }
}

/// First and one-past-last place of the rows a page shows out of `total`.
pub open spec fn window(total: int, page: int, page_count: int, page_size: int) -> (int, int) {
    let start = (clamped_page(page, page_count) - 1) * page_size;
    let lo = if start < total { start } else { total };
    let hi = if start + page_size < total { start + page_size } else { total };
    (lo, hi)
}

/// The rows one page shows, as a range of places in the filtered list:
/// `skip((page.clamp(1, page_count) - 1) * page_size).take(page_size)`.
pub fn page_window(total: usize, page: usize, page_count: usize, page_size: usize) -> (r: (usize, usize))
    requires
        page_count >= 1,
        (clamped_page(page as int, page_count as int) - 1) * page_size <= usize::MAX,
    ensures
        (r.0 as int, r.1 as int) == window(total as int, page as int, page_count as int, page_size as int),
        r.0 <= r.1 <= total,
        r.1 - r.0 <= page_size,
{
    let shown = if page < 1 {
        1
    } else if page > page_count {
        page_count
    } else {
        page
    };
    let start = (shown - 1) * page_size;
    let lo = if start < total { start } else { total };
    let hi = if start < total && page_size < total - start { start + page_size } else { total };
    (lo, hi)
}

/// Consecutive pages tile the list: each page starts where the one before
/// it ended, so no row is skipped or shown twice while paging forward.
pub proof fn lemma_pages_tile(total: int, page: int, page_count: int, page_size: int)
    requires
        1 <= page < page_count,
        page_size >= 0,
    ensures
        window(total, page, page_count, page_size).1 == window(total, page + 1, page_count, page_size).0,
{
    assert((page + 1 - 1) * page_size == (page - 1) * page_size + page_size) by (nonlinear_arith);
}

} // verus!
