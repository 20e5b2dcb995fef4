//! Pagination of an item list: maps (total item count, page size, requested
//! page number) to an inclusive window of zero-based item indices.
use vstd::arithmetic::div_mod::lemma_fundamental_div_mod;
use vstd::arithmetic::mul::{
    lemma_mul_inequality, lemma_mul_is_distributive_add_other_way,
    lemma_mul_is_distributive_sub_other_way,
};
use vstd::prelude::*;

verus! {

/// An inclusive window of item indices, together with the page numbers
/// that locate it: `first_element ..= last_element` is page
/// `current_page` of `last_page` pages in all.
#[derive(Debug, PartialEq, Eq, Structural, Clone, Copy)]
pub struct Page {
    pub first_element: usize,
    pub last_element: usize,
    pub current_page: usize,
    pub last_page: usize,
}

/// Pure pagination rule over a fixed item count and page size.
#[derive(Debug, PartialEq, Eq, Structural, Clone, Copy)]
pub struct Paginator {
    item_number: usize,
    item_per_page: usize,
}

/// Number of the last page: `ceil(total / per)`.
pub open spec fn spec_last_page(total: int, per: int) -> int
    recommends
        per > 0,
{
    if total % per == 0 {
        total / per
    } else {
        total / per + 1
    }
}

/// First index of page `p` (one-based page numbers, zero-based indices).
pub open spec fn spec_first_element(per: int, p: int) -> int
    recommends
        p >= 1,
{
    per * (p - 1)
}

/// Last index of page `p`: a full page everywhere but on a final page of a
/// total that the page size does not divide.
pub open spec fn spec_last_element(total: int, per: int, p: int) -> int
    recommends
        per > 0,
        1 <= p <= spec_last_page(total, per),
{
    if p == spec_last_page(total, per) && total % per != 0 {
        spec_first_element(per, p) + total % per - 1
    } else {
        spec_first_element(per, p) + per - 1
    }
}

/// Whether page `p` exists for this item count and page size.
pub open spec fn spec_page_in_range(total: int, per: int, p: int) -> bool {
    per > 0 && total > 0 && 1 <= p <= spec_last_page(total, per)
}

impl Paginator {
    pub closed spec fn spec_item_number(self) -> int {
        self.item_number as int
    }

    pub closed spec fn spec_item_per_page(self) -> int {
        self.item_per_page as int
    }

    pub fn new(item_number: usize, item_per_page: usize) -> (r: Self)
        ensures
            r.spec_item_number() == item_number,
            r.spec_item_per_page() == item_per_page,
    {
        Self { item_number, item_per_page }
    }

    /// Window of page `current_page`, or `None` when the page size or the
    /// item count is zero or the requested page lies outside `1..=last_page`.
    pub fn page(&self, current_page: usize) -> (r: Option<Page>)
        ensures
            r is Some <==> spec_page_in_range(
                self.spec_item_number(),
                self.spec_item_per_page(),
                current_page as int,
            ),
            r is Some ==> r == Some(
                Page {
                    first_element: spec_first_element(
                        self.spec_item_per_page(),
                        current_page as int,
                    ) as usize,
                    last_element: spec_last_element(
                        self.spec_item_number(),
                        self.spec_item_per_page(),
                        current_page as int,
                    ) as usize,
                    current_page: current_page,
                    last_page: spec_last_page(
                        self.spec_item_number(),
                        self.spec_item_per_page(),
                    ) as usize,
                },
            ),
    {
        if self.item_per_page == 0 || self.item_number == 0 {
            return None;
        }
        proof {
            lemma_fundamental_div_mod(self.item_number as int, self.item_per_page as int);
            lemma_mul_inequality(
                1,
                self.item_per_page as int,
                self.item_number as int / self.item_per_page as int,
            );
        }
        let last_page = if self.item_number % self.item_per_page == 0 {
            self.item_number / self.item_per_page
        } else {
            self.item_number / self.item_per_page + 1
        };
        if current_page == 0 || current_page > last_page {
            return None;
        }
        proof {
            lemma_first_element_in_bounds(
                self.item_number as int,
                self.item_per_page as int,
                current_page as int,
            );
        }
        let first_element = self.item_per_page * (current_page - 1);
        let last_element = if current_page == last_page && self.item_number % self.item_per_page
            != 0 {
            first_element + self.item_number % self.item_per_page - 1
        } else {
            first_element + self.item_per_page - 1
        };
        Some(Page { first_element, last_element, current_page, last_page })
    }
}

/// Every page window lies inside the items: the first index of an existing
/// page is at most `total - per'` (where `per'` is that page's width), so
/// both ends of the window fall in `[0, total - 1]`.
pub proof fn lemma_first_element_in_bounds(total: int, per: int, p: int)
    requires
        spec_page_in_range(total, per, p),
    ensures
        0 <= spec_first_element(per, p),
        spec_last_element(total, per, p) < total,
        spec_first_element(per, p) <= spec_last_element(total, per, p),
{
    lemma_fundamental_div_mod(total, per);
    let d = total / per;
    let r = total % per;
    let lp = spec_last_page(total, per);
    assert(spec_first_element(per, p) >= 0) by {
        lemma_mul_inequality(0, p - 1, per);
    }
    if p == lp {
        lemma_mul_is_distributive_sub_other_way(per, lp, 1);
        assert((lp - 1) * per == lp * per - 1 * per);
        if r == 0 {
            assert(per * lp == per * d == total);
            assert(spec_first_element(per, p) == per * (lp - 1) == (lp - 1) * per);
            assert(spec_first_element(per, p) == total - per);
        } else {
            assert(spec_first_element(per, p) == per * d == total - r);
        }
    } else {
        lemma_mul_inequality(p, lp - 1, per);
        lemma_mul_is_distributive_sub_other_way(per, p, 1);
        lemma_mul_is_distributive_sub_other_way(per, lp, 1);
        assert(spec_last_element(total, per, p) == p * per - 1);
        assert(p * per <= (lp - 1) * per == lp * per - per);
        if r == 0 {
            assert(lp * per == total);
        } else {
            assert((lp - 1) * per == d * per == total - r);
            assert(lp * per == total - r + per);
        }
    }
}

/// Windows of consecutive pages are contiguous: the window of page `p + 1`
/// starts exactly one index after the window of page `p` ends.
pub proof fn lemma_pages_contiguous(total: int, per: int, p: int)
    requires
        spec_page_in_range(total, per, p),
        spec_page_in_range(total, per, p + 1),
    ensures
        spec_last_element(total, per, p) + 1 == spec_first_element(per, p + 1),
{
    assert(per * p == per * (p - 1) + per) by {
        lemma_mul_is_distributive_sub_other_way(per, p, 1);
    }
}

/// Windows of distinct pages never overlap: an earlier page's window ends
/// strictly before a later page's window starts.
pub proof fn lemma_pages_disjoint(total: int, per: int, p: int, q: int)
    requires
        spec_page_in_range(total, per, p),
        spec_page_in_range(total, per, q),
        p < q,
    ensures
        spec_last_element(total, per, p) < spec_first_element(per, q),
    decreases q - p,
{
    if q == p + 1 {
        lemma_pages_contiguous(total, per, p);
    } else {
        lemma_pages_disjoint(total, per, p, q - 1);
        lemma_pages_contiguous(total, per, q - 1);
        lemma_first_element_in_bounds(total, per, q - 1);
    }
}

/// The page windows cover every item: each index `i` in `[0, total - 1]`
/// falls inside the window of page `i / per + 1`, which exists. Together
/// with `lemma_pages_disjoint` and `lemma_first_element_in_bounds` this
/// says that the windows of pages `1 ..= last_page` partition
/// `[0, total - 1]`.
pub proof fn lemma_pages_cover(total: int, per: int, i: int)
    requires
        per > 0,
        total > 0,
        0 <= i < total,
    ensures
        spec_page_in_range(total, per, i / per + 1),
        spec_first_element(per, i / per + 1) <= i,
        i <= spec_last_element(total, per, i / per + 1),
{
    let p = i / per + 1;
    let di = i / per;
    let d = total / per;
    let r = total % per;
    let lp = spec_last_page(total, per);
    lemma_fundamental_div_mod(i, per);
    lemma_fundamental_div_mod(total, per);
    assert(spec_first_element(per, p) == per * di);
    assert(di < lp) by {
        if di >= lp {
            lemma_mul_inequality(lp, di, per);
            assert(lp * per <= di * per);
            if r == 0 {
                assert(per * lp == per * d == total);
            } else {
                lemma_mul_is_distributive_add_other_way(per, d, 1);
                assert((d + 1) * per == d * per + 1 * per);
                assert(per * lp == total - r + per > total);
            }
            assert(i >= per * di >= total);
        }
    }
    if p == lp && r != 0 {
        assert(di == d);
        assert(spec_last_element(total, per, p) == per * di + r - 1 == total - 1);
    } else {
        assert(i % per <= per - 1);
        assert(spec_last_element(total, per, p) == per * di + per - 1 >= i);
    }
}

} // verus!

