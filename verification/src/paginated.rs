//! Pagination arithmetic for listing endpoints: which page links a
//! paginated response carries.

use vstd::prelude::*;

verus! {

/// The ceiling of `a / b` as mathematical integers: the quotient of the
/// magnitudes, rounded up when the signs agree and the division is inexact,
/// and negated when they differ.
pub open spec fn ceil_div_spec(a: int, b: int) -> int {
    let q = vstd::math::abs(a) as int / vstd::math::abs(b) as int;
    let m = vstd::math::abs(a) as int % vstd::math::abs(b) as int;
    if (a >= 0) == (b >= 0) {
        if m == 0 {
            q
        } else {
            q + 1
        }
    } else {
        -q
    }
}

/// The magnitude of `x`.
fn abs_mag(x: i64) -> (r: u64)
    ensures
        r as int == vstd::math::abs(x as int),
{
    if x >= 0 {
        x as u64
    } else if x == i64::MIN {
        9223372036854775808u64
    } else {
        (-x) as u64
    }
}

/// The ceiling of `lhs / rhs`.
pub fn div_ceil(lhs: i64, rhs: i64) -> (r: i64)
    requires
        rhs != 0,
        !(lhs == i64::MIN && rhs == -1),
    ensures
        r as int == ceil_div_spec(lhs as int, rhs as int),
{
    let la = abs_mag(lhs);
    let lb = abs_mag(rhs);
    let q = la / lb;
    let m = la % lb;
    proof {
        assert(lb as int != 0);
        assert(q as int == la as int / lb as int);
        assert(m as int == la as int % lb as int);
        vstd::arithmetic::div_mod::lemma_fundamental_div_mod(la as int, lb as int);
        vstd::arithmetic::div_mod::lemma_mod_bound(la as int, lb as int);
        assert(q as int * lb as int <= la as int);
        assert(q as int <= q as int * lb as int) by (nonlinear_arith)
            requires
                q as int >= 0,
                lb as int >= 1,
        ;
        if lb >= 2 {
            assert(2 * (q as int) <= q as int * lb as int) by (nonlinear_arith)
                requires
                    q as int >= 0,
                    lb as int >= 2,
            ;
        }
    }
    if (lhs >= 0) == (rhs >= 0) {
        if m == 0 {
            q as i64
        } else {
            (q + 1) as i64
        }
    } else {
        if q == 9223372036854775808u64 {
            i64::MIN
        } else {
            -(q as i64)
        }
    }
}

/// Where the previous and next links of a page point: each is the pair of
/// page number and page size, absent at the ends. A request past the last
/// page links back to the last page.
pub open spec fn page_links_spec(limit: i64, page: i64, items: i64) -> (
    Option<(i64, i64)>,
    Option<(i64, i64)>,
) {
    let last = ceil_div_spec(items as int, limit as int);
    let previous = if page > 1 {
        if page > last {
            Some(((last) as i64, limit))
        } else {
            Some(((page - 1) as i64, limit))
        }
    } else {
        None
    };
    let next = if page < last {
        Some(((page + 1) as i64, limit))
    } else {
        None
    };
    (previous, next)
}

/// A page of content together with what is needed to link its neighbours.
pub struct Paginated<T> {
    content: T,
    limit: i64,
    page: i64,
    items: i64,
}

impl<T> Paginated<T> {
    /// The page size this response was computed with.
    pub closed spec fn spec_limit(&self) -> i64 {
        self.limit
    }

    /// The page number this response holds.
    pub closed spec fn spec_page(&self) -> i64 {
        self.page
    }

    /// How many items the whole listing has.
    pub closed spec fn spec_items(&self) -> i64 {
        self.items
    }

    /// The content of this page.
    pub closed spec fn spec_content(&self) -> &T {
        &self.content
    }

    pub fn new(content: T, limit: i64, page: i64, items: i64) -> (r: Paginated<T>)
        ensures
            r.spec_limit() == limit,
            r.spec_page() == page,
            r.spec_items() == items,
            r.spec_content() == content,
    {
        Paginated { content, limit, page, items }
    }

    /// The previous and next links this page carries.
    pub fn links(&self) -> (r: (Option<(i64, i64)>, Option<(i64, i64)>))
        requires
            self.spec_limit() != 0,
            !(self.spec_items() == i64::MIN && self.spec_limit() == -1),
        ensures
            r == page_links_spec(self.spec_limit(), self.spec_page(), self.spec_items()),
    {
        let last_page = div_ceil(self.items, self.limit);
        let has_previous = self.page > 1;
        let has_next = self.page < last_page;
        let previous = if has_previous {
            if self.page > last_page {
                Some((last_page, self.limit))
            } else {
                Some((self.page - 1, self.limit))
            }
        } else {
            None
        };
        let next = if has_next {
            Some((self.page + 1, self.limit))
        } else {
            None
        };
        (previous, next)
    }

    /// Hands the content back, consuming the page.
    pub fn into_content(self) -> (r: T)
        ensures
            r == *self.spec_content(),
    {
        self.content
    }
}

} // verus!
