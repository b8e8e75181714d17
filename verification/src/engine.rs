//! Bulk transform engine: the one place that splits a buffer.
//!
//! A bulk operation walks a buffer in two regions: a main region — the
//! largest prefix whose length is a whole number of lane groups — and a
//! scalar remainder shorter than one group.  The split point is computed
//! here, once per call, and the lemmas below carry the safety contract
//! that the kernels' loops rely on: the regions cover every index below
//! the logical length exactly once and never reach past it, and stepping
//! through the main region a whole group at a time always lands inside it.

use vstd::arithmetic::div_mod::{
    lemma_div_pos_is_pos, lemma_fundamental_div_mod, lemma_mod_add_multiples_vanish,
    lemma_mod_bound, lemma_mod_multiples_basic, lemma_small_mod, lemma_sub_mod_noop,
};
use vstd::arithmetic::mul::{lemma_mul_is_commutative, lemma_mul_nonnegative};
use vstd::prelude::*;

verus! {

/// Length of the main region: the largest prefix of a buffer of length
/// `len` that is a whole number of lane groups of width `w`.
pub open spec fn spec_main_len(len: int, w: int) -> int
    recommends
        0 < w,
        0 <= len,
{
    len - len % w
}

/// Compute the main/remainder split of a buffer of length `len` for lane
/// width `w`.  The main region `[0, m)` is group-aligned and the remainder
/// `[m, len)` is shorter than one group.
pub fn main_region_len(len: usize, w: usize) -> (m: usize)
    requires
        0 < w,
    ensures
        m == spec_main_len(len as int, w as int),
        m <= len,
        m % w == 0,
        len - m < w,
{
    proof {
        let l = len as int;
        let d = w as int;
        lemma_fundamental_div_mod(l, d);
        lemma_mod_bound(l, d);
        lemma_div_pos_is_pos(l, d);
        lemma_mul_nonnegative(l / d, d);
        lemma_mul_is_commutative(l / d, d);
        lemma_mod_multiples_basic(l / d, d);
        assert((l / d) * d == l - l % d);
    }
    let q: usize = len / w;
    q * w
}

/// Stepping by whole lane groups never leaves the main region: when the
/// cursor `i` is group-aligned and strictly below the group-aligned bound
/// `m`, one more whole group still fits below `m`.
pub proof fn lemma_lane_step(i: int, m: int, w: int)
    requires
        0 < w,
        0 <= i < m,
        i % w == 0,
        m % w == 0,
    ensures
        i + w <= m,
{
    lemma_sub_mod_noop(m, i, w);
    lemma_small_mod(0, w as nat);
    assert((m - i) % w == 0);
    if m - i < w {
        lemma_small_mod((m - i) as nat, w as nat);
        assert(false);
    }
}

/// Advancing a group-aligned cursor by one group keeps it group-aligned.
pub proof fn lemma_lane_advance(i: int, w: int)
    requires
        0 < w,
        i % w == 0,
    ensures
        (i + w) % w == 0,
{
    lemma_mod_add_multiples_vanish(i, w);
}

/// The safety contract binding main region and remainder: the split point
/// lies within the buffer, an index below `len` falls in exactly one of
/// the two regions, and neither region holds an index at or past `len`.
pub proof fn lemma_regions_partition(len: int, w: int, i: int)
    requires
        0 < w,
        0 <= len,
    ensures
        0 <= spec_main_len(len, w) <= len,
        0 <= i < len ==> ((0 <= i < spec_main_len(len, w)) <==> !(spec_main_len(len, w) <= i
            < len)),
        i >= len ==> !(0 <= i < spec_main_len(len, w)) && !(spec_main_len(len, w) <= i < len),
{
    lemma_fundamental_div_mod(len, w);
    lemma_mod_bound(len, w);
    lemma_div_pos_is_pos(len, w);
    lemma_mul_nonnegative(len / w, w);
}

} // verus!
