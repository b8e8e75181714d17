//! Image kernel: in-place color inversion over a flat byte buffer.
//!
//! The vectorized kernel of the family: the engine splits the buffer into
//! a 16-byte-lane main region and a scalar remainder, and a lane-group
//! operation inverts sixteen bytes per step.  The contract pins every
//! output byte to `255 -` the input byte, so the split is observably
//! equivalent to the scalar path on the whole buffer.

use crate::engine;
use crate::lanes::BYTE_LANES;
use vstd::prelude::*;

verus! {

/// The scalar operation: one color component inverted.
pub open spec fn invert_byte(b: u8) -> u8 {
    (255 - b) as u8
}

/// A whole buffer inverted, element by element.
pub open spec fn invert_seq(s: Seq<u8>) -> Seq<u8> {
    Seq::new(s.len(), |i: int| invert_byte(s[i]))
}

/// The lane-group operation: one group of [`BYTE_LANES`] bytes starting
/// at the group-aligned offset `base` inverted in place; everything
/// outside the group is untouched.
fn invert_lane_group(bytes: &mut [u8], base: usize)
    requires
        base + BYTE_LANES <= old(bytes)@.len(),
    ensures
        final(bytes)@.len() == old(bytes)@.len(),
        forall|j: int|
            base <= j < base + BYTE_LANES ==> final(bytes)@[j] == invert_byte(old(bytes)@[j]),
        forall|j: int|
            0 <= j < old(bytes)@.len() && !(base <= j < base + BYTE_LANES) ==> final(bytes)@[j]
                == old(bytes)@[j],
{
    let n = bytes.len();
    let mut k: usize = 0;
    while k < BYTE_LANES
        invariant
            k <= BYTE_LANES,
            n == bytes@.len(),
            base + BYTE_LANES <= bytes@.len(),
            bytes@.len() == old(bytes)@.len(),
            forall|j: int| base <= j < base + k ==> bytes@[j] == invert_byte(old(bytes)@[j]),
            forall|j: int|
                0 <= j < bytes@.len() && !(base <= j < base + k) ==> bytes@[j] == old(bytes)@[j],
        decreases BYTE_LANES - k,
    {
        let b = bytes[base + k];
        bytes[base + k] = 255 - b;
        k = k + 1;
    }
}

/// Invert every byte of `bytes` in place: each value `v` becomes
/// `255 - v`.  An empty buffer is a no-op.
pub fn invert_colors(bytes: &mut [u8])
    ensures
        final(bytes)@.len() == old(bytes)@.len(),
        forall|i: int|
            0 <= i < old(bytes)@.len() ==> final(bytes)@[i] == invert_byte(old(bytes)@[i]),
        final(bytes)@ == invert_seq(old(bytes)@),
{
    let len = bytes.len();
    let main_len = engine::main_region_len(len, BYTE_LANES);
    let mut i: usize = 0;
    while i < main_len
        invariant
            i <= main_len,
            i % BYTE_LANES == 0,
            main_len % BYTE_LANES == 0,
            main_len <= len,
            len == bytes@.len(),
            bytes@.len() == old(bytes)@.len(),
            forall|j: int| 0 <= j < i ==> bytes@[j] == invert_byte(old(bytes)@[j]),
            forall|j: int| i <= j < len ==> bytes@[j] == old(bytes)@[j],
        decreases main_len - i,
    {
        proof {
            engine::lemma_lane_step(i as int, main_len as int, BYTE_LANES as int);
            engine::lemma_lane_advance(i as int, BYTE_LANES as int);
        }
        invert_lane_group(bytes, i);
        i = i + BYTE_LANES;
    }
    while i < len
        invariant
            i <= len,
            len == bytes@.len(),
            bytes@.len() == old(bytes)@.len(),
            forall|j: int| 0 <= j < i ==> bytes@[j] == invert_byte(old(bytes)@[j]),
            forall|j: int| i <= j < len ==> bytes@[j] == old(bytes)@[j],
        decreases len - i,
    {
        let b = bytes[i];
        bytes[i] = 255 - b;
        i = i + 1;
    }
    proof {
        assert(bytes@ =~= invert_seq(old(bytes)@));
    }
}

/// Applying the inversion twice restores the original buffer.
pub proof fn lemma_invert_involutive(s: Seq<u8>)
    ensures
        invert_seq(invert_seq(s)) == s,
{
    assert(invert_seq(invert_seq(s)) =~= s);
}

} // verus!
