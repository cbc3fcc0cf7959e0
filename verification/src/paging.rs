//! Pagination: how a page number and a page size select a window of a
//! listing, and how many pages a listing has.

use vstd::prelude::*;

verus! {

/// The largest page size that is served.
pub const MAX_PAGE_SIZE: usize = 100;

/// The page size used when a request names none.
pub const DEFAULT_PAGE_SIZE: usize = 10;

/// The page served when a request names none.
pub const DEFAULT_PAGE: usize = 1;

/// A page number brought to at least 1.
pub open spec fn clamped_page(page: int) -> int {
    if page < 1 {
        1
    } else {
        page
    }
}

/// A page size brought into the range from 1 to 100.
pub open spec fn clamped_page_size(page_size: int) -> int {
    if page_size < 1 {
        1
    } else if page_size > 100 {
        100
    } else {
        page_size
    }
}

/// The number of items in front of the requested page.
pub open spec fn page_offset(page: int, page_size: int) -> int {
    (clamped_page(page) - 1) * clamped_page_size(page_size)
}

/// Where the window of the requested page starts in a listing of `total`
/// items: at the offset, or at the end of the listing if the offset lies beyond it.
pub open spec fn page_start(page: int, page_size: int, total: int) -> int {
    if page_offset(page, page_size) >= total {
        total
    } else {
        page_offset(page, page_size)
    }
}

/// Where the window of the requested page ends: one page size behind its
/// start, or at the end of the listing if that comes first.
pub open spec fn page_end(page: int, page_size: int, total: int) -> int {
    if page_offset(page, page_size) + clamped_page_size(page_size) >= total {
        total
    } else {
        page_offset(page, page_size) + clamped_page_size(page_size)
    }
}

/// The items of the requested page of `s`.
pub open spec fn page_of<T>(s: Seq<T>, page: int, page_size: int) -> Seq<T> {
    s.subrange(
        page_start(page, page_size, s.len() as int),
        page_end(page, page_size, s.len() as int),
    )
}

/// How many pages a listing of `total` items has: `total / page_size`, rounded up.
pub open spec fn page_count(total: int, page_size: int) -> int {
    (total + clamped_page_size(page_size) - 1) / clamped_page_size(page_size)
}

/// The first `pages` pages of `s`, one after the other.
pub open spec fn pages_joined<T>(s: Seq<T>, page_size: int, pages: nat) -> Seq<T>
    decreases pages,
{
    if pages == 0 {
        Seq::empty()
    } else {
        pages_joined(s, page_size, (pages - 1) as nat) + page_of(s, pages as int, page_size)
    }
}

/// Brings a page number to at least 1.
pub fn clamp_page(page: usize) -> (r: usize)
    ensures
        r == clamped_page(page as int),
{
    if page < 1 {
        1
    } else {
        page
    }
}

/// Brings a page size into the range from 1 to 100.
pub fn clamp_page_size(page_size: usize) -> (r: usize)
    ensures
        r == clamped_page_size(page_size as int),
        1 <= r <= 100,
{
    if page_size < 1 {
        1
    } else if page_size > MAX_PAGE_SIZE {
        MAX_PAGE_SIZE
    } else {
        page_size
    }
}

/// The window of the requested page in a listing of `total` items, as the
/// positions of its first item and of the item behind its last.
pub fn page_window(page: usize, page_size: usize, total: usize) -> (r: (usize, usize))
    ensures
        r.0 == page_start(page as int, page_size as int, total as int),
        r.1 == page_end(page as int, page_size as int, total as int),
        r.0 <= r.1 <= total,
{
    let p = clamp_page(page);
    let size = clamp_page_size(page_size);
    assert(0 <= (p - 1) * size) by (nonlinear_arith)
        requires
            p >= 1,
            size >= 1,
    ;
    match (p - 1).checked_mul(size) {
        None => (total, total),
        Some(offset) => {
            if offset >= total {
                (total, total)
            } else if size >= total - offset {
                (offset, total)
            } else {
                (offset, offset + size)
            }
        },
    }
}

/// The number of pages of a listing of `total_items` items.
pub fn total_pages(total_items: usize, page_size: usize) -> (r: usize)
    ensures
        r == page_count(total_items as int, page_size as int),
{
    let size = clamp_page_size(page_size);
    let full = total_items / size;
    let rest = total_items % size;
    proof {
        let t = total_items as int;
        let d = size as int;
        assert(t == d * (t / d) + t % d) by {
            vstd::arithmetic::div_mod::lemma_fundamental_div_mod(t, d);
        }
        if rest == 0 {
            // t + d - 1 == (t / d) * d + (d - 1)
            vstd::arithmetic::div_mod::lemma_fundamental_div_mod_converse(
                t + d - 1,
                d,
                t / d,
                d - 1,
            );
        } else {
            // t + d - 1 == (t / d + 1) * d + (t % d - 1)
            assert(d * (t / d) >= t / d) by (nonlinear_arith)
                requires
                    d >= 1,
                    t / d >= 0,
            ;
            assert((t / d + 1) * d == d * (t / d) + d) by (nonlinear_arith);
            vstd::arithmetic::div_mod::lemma_fundamental_div_mod_converse(
                t + d - 1,
                d,
                t / d + 1,
                t % d - 1,
            );
        }
    }
    if rest == 0 {
        full
    } else {
        full + 1
    }
}

/// How many items the first `pages` pages of a listing of `total` items hold.
pub open spec fn covered(total: int, page_size: int, pages: nat) -> int {
    if pages * clamped_page_size(page_size) >= total {
        total
    } else {
        pages * clamped_page_size(page_size)
    }
}

/// The first `pages` pages, joined, are the front of the listing: nothing is
/// left out between two pages and nothing is served twice.
pub proof fn lemma_pages_joined_is_prefix<T>(s: Seq<T>, page_size: int, pages: nat)
    ensures
        0 <= covered(s.len() as int, page_size, pages) <= s.len(),
        pages_joined(s, page_size, pages) == s.subrange(
            0,
            covered(s.len() as int, page_size, pages),
        ),
    decreases pages,
{
    let c = clamped_page_size(page_size);
    let n = s.len() as int;
    assert(0 <= pages * c) by (nonlinear_arith)
        requires
            pages >= 0,
            c >= 1,
    ;
    if pages == 0 {
        assert(pages * c == 0) by (nonlinear_arith)
            requires
                pages == 0,
        ;
        assert(pages_joined(s, page_size, pages) =~= s.subrange(0, 0));
    } else {
        let before = (pages - 1) as nat;
        lemma_pages_joined_is_prefix(s, page_size, before);
        assert(pages * c == before * c + c) by (nonlinear_arith)
            requires
                before == pages - 1,
        ;
        assert(0 <= before * c) by (nonlinear_arith)
            requires
                before >= 0,
                c >= 1,
        ;
        assert(page_offset(pages as int, page_size) == before * c);
        assert(page_start(pages as int, page_size, n) == covered(n, page_size, before));
        assert(page_end(pages as int, page_size, n) == covered(n, page_size, pages));
        assert(pages_joined(s, page_size, pages) =~= s.subrange(0, covered(n, page_size, pages)));
    }
}

/// Joining all pages of a listing, whatever the page size, gives the listing
/// back: every item is served exactly once, in listing order.
pub proof fn lemma_pages_cover_listing<T>(s: Seq<T>, page_size: int)
    ensures
        page_count(s.len() as int, page_size) >= 0,
        pages_joined(s, page_size, page_count(s.len() as int, page_size) as nat) == s,
{
    let c = clamped_page_size(page_size);
    let n = s.len() as int;
    let k = page_count(n, page_size);
    vstd::arithmetic::div_mod::lemma_fundamental_div_mod(n + c - 1, c);
    vstd::arithmetic::div_mod::lemma_mod_bound(n + c - 1, c);
    assert(k >= 0 && k * c >= n) by (nonlinear_arith)
        requires
            n + c - 1 == c * k + (n + c - 1) % c,
            0 <= (n + c - 1) % c < c,
            n >= 0,
            c >= 1,
    ;
    lemma_pages_joined_is_prefix(s, page_size, k as nat);
    assert(s.subrange(0, n) =~= s);
}

/// A page behind the last one is empty.
pub proof fn lemma_page_past_end_is_empty<T>(s: Seq<T>, page: int, page_size: int)
    requires
        page > page_count(s.len() as int, page_size),
    ensures
        page_of(s, page, page_size) == Seq::<T>::empty(),
{
    let c = clamped_page_size(page_size);
    let n = s.len() as int;
    let k = page_count(n, page_size);
    vstd::arithmetic::div_mod::lemma_fundamental_div_mod(n + c - 1, c);
    vstd::arithmetic::div_mod::lemma_mod_bound(n + c - 1, c);
    assert(k >= 0 && (clamped_page(page) - 1) * c >= n) by (nonlinear_arith)
        requires
            n + c - 1 == c * k + (n + c - 1) % c,
            0 <= (n + c - 1) % c < c,
            n >= 0,
            c >= 1,
            clamped_page(page) - 1 >= k,
    ;
    assert(page_of(s, page, page_size) =~= Seq::<T>::empty());
}

} // verus!
