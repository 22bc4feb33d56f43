//! Page-size arithmetic: the granularity at which the operating system maps
//! and protects memory, and the rounding of a requested byte capacity up to
//! that granularity.

use vstd::prelude::*;

verus! {

/// Granularity of the operating system's mapping and protection calls.
pub const PAGE_SIZE: usize = 4096;

/// The capacity realized for a request of `c` bytes: `c` itself when it is
/// already a multiple of the page size, otherwise the next multiple above it.
pub open spec fn page_round_up(c: int) -> int {
    if c % (PAGE_SIZE as int) == 0 {
        c
    } else {
        c + (PAGE_SIZE as int) - c % (PAGE_SIZE as int)
    }
}

/// For every requested byte capacity `c > 0`, the realized capacity
/// `page_round_up(c)` is the smallest multiple of the page size that is
/// at least `c`.
pub proof fn lemma_page_round_up_smallest(c: int)
    requires
        0 < c,
    ensures
        page_round_up(c) % (PAGE_SIZE as int) == 0,
        c <= page_round_up(c),
        forall|m: int| c <= m && #[trigger] (m % (PAGE_SIZE as int)) == 0 ==> page_round_up(c) <= m,
{
    let p = PAGE_SIZE as int;
    assert(0 <= c % p < p);
    assert(page_round_up(c) % p == 0) by {
        if c % p != 0 {
            assert((c + p - c % p) % p == 0) by (nonlinear_arith)
                requires 0 < p && 0 <= c % p < p && c % p == c - p * (c / p),
            ;
        }
    }
    assert forall|m: int| c <= m && #[trigger] (m % p) == 0 implies page_round_up(c) <= m by {
        if c % p != 0 {
            assert(m - (c - c % p) >= p) by (nonlinear_arith)
                requires
                    0 < p,
                    m % p == 0,
                    0 < c % p < p,
                    m >= c,
                    m % p == m - p * (m / p),
                    c % p == c - p * (c / p),
            ;
        }
    }
}

/// Round a requested byte capacity up to the next multiple of the page size.
pub fn round_up_to_page(c: usize) -> (r: usize)
    requires
        0 < c,
        c <= usize::MAX - PAGE_SIZE,
    ensures
        r == page_round_up(c as int),
{
    let rem = c % PAGE_SIZE;
    if rem == 0 {
        c
    } else {
        c + (PAGE_SIZE - rem)
    }
}

} // verus!
