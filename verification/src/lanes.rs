//! Lane model: how many elements one 128-bit vector register holds.
//!
//! Pure policy, no runtime state.  Each bulk operation picks one of these
//! widths; the engine only needs the width to be positive, but the model
//! guarantees the stronger property that it is a small power of two, so a
//! whole number of lane groups always fits a vector register.

use vstd::prelude::*;

verus! {

/// Number of 8-bit lanes in one 128-bit vector register.
pub const BYTE_LANES: usize = 16;

/// Number of 64-bit lanes in one 128-bit vector register.
pub const WIDE_LANES: usize = 2;

/// A lane width this system may use: a small positive power of two.
pub open spec fn valid_lane_width(w: usize) -> bool {
    w == 2 || w == 4 || w == 8 || w == 16
}

/// Both widths of the policy table are valid lane widths.
pub proof fn lemma_lane_widths_valid()
    ensures
        valid_lane_width(BYTE_LANES),
        valid_lane_width(WIDE_LANES),
{
}

} // verus!
