//! Byte kernels: byte-wise XOR and bit population counts.
//!
//! These kernels are scalar — no lane group pays off for them — but they
//! follow the same buffer discipline as the vectorized kernels: one pass,
//! every index below the logical length touched exactly once.

use vstd::math::min;
use vstd::prelude::*;

verus! {

/// Number of one bits in one byte.
pub open spec fn one_bits_byte(b: u8) -> int {
    ((b >> 0u8) & 1u8) + ((b >> 1u8) & 1u8) + ((b >> 2u8) & 1u8) + ((b >> 3u8) & 1u8) + ((b
        >> 4u8) & 1u8) + ((b >> 5u8) & 1u8) + ((b >> 6u8) & 1u8) + ((b >> 7u8) & 1u8)
}

/// Number of zero bits in one byte: the one bits of its complement.
pub open spec fn zero_bits_byte(b: u8) -> int {
    one_bits_byte(!b)
}

/// Total number of one bits in a buffer.
pub open spec fn one_bits(s: Seq<u8>) -> int
    decreases s.len(),
{
    if s.len() == 0 {
        0
    } else {
        one_bits(s.drop_last()) + one_bits_byte(s.last())
    }
}

/// Total number of zero bits in a buffer.
pub open spec fn zero_bits(s: Seq<u8>) -> int
    decreases s.len(),
{
    if s.len() == 0 {
        0
    } else {
        zero_bits(s.drop_last()) + zero_bits_byte(s.last())
    }
}

/// XOR of two buffers, truncated to the shorter length.
pub open spec fn xor_seq(a: Seq<u8>, b: Seq<u8>) -> Seq<u8> {
    Seq::new(min(a.len() as int, b.len() as int) as nat, |i: int| a[i] ^ b[i])
}

/// Scalar operation of the zero-bit kernel: zero bits of one byte.
fn byte_zero_bits(b: u8) -> (c: u8)
    ensures
        c == zero_bits_byte(b),
        c <= 8,
{
    let nb: u8 = !b;
    proof {
        assert(((nb >> 0u8) & 1u8) + ((nb >> 1u8) & 1u8) + ((nb >> 2u8) & 1u8) + ((nb >> 3u8)
            & 1u8) + ((nb >> 4u8) & 1u8) + ((nb >> 5u8) & 1u8) + ((nb >> 6u8) & 1u8) + ((nb
            >> 7u8) & 1u8) <= 8) by (bit_vector);
    }
    ((nb >> 0u8) & 1u8) + ((nb >> 1u8) & 1u8) + ((nb >> 2u8) & 1u8) + ((nb >> 3u8) & 1u8) + ((nb
        >> 4u8) & 1u8) + ((nb >> 5u8) & 1u8) + ((nb >> 6u8) & 1u8) + ((nb >> 7u8) & 1u8)
}

/// Scalar operation of the one-bit kernel: one bits of one byte.
fn byte_one_bits(b: u8) -> (c: u8)
    ensures
        c == one_bits_byte(b),
        c <= 8,
{
    proof {
        assert(((b >> 0u8) & 1u8) + ((b >> 1u8) & 1u8) + ((b >> 2u8) & 1u8) + ((b >> 3u8)
            & 1u8) + ((b >> 4u8) & 1u8) + ((b >> 5u8) & 1u8) + ((b >> 6u8) & 1u8) + ((b
            >> 7u8) & 1u8) <= 8) by (bit_vector);
    }
    ((b >> 0u8) & 1u8) + ((b >> 1u8) & 1u8) + ((b >> 2u8) & 1u8) + ((b >> 3u8) & 1u8) + ((b
        >> 4u8) & 1u8) + ((b >> 5u8) & 1u8) + ((b >> 6u8) & 1u8) + ((b >> 7u8) & 1u8)
}

/// Count the zero bits of every byte in `data`.
///
/// The `u64` accumulator holds eight bits per byte of any buffer an
/// address space can hold; the one precondition only rules out lengths
/// past an eighth of the `u64` range, which no real buffer reaches.
pub fn count_zero_bits(data: &[u8]) -> (n: u64)
    requires
        8 * data@.len() <= u64::MAX,
    ensures
        n == zero_bits(data@),
{
    let mut n: u64 = 0;
    let mut i: usize = 0;
    while i < data.len()
        invariant
            i <= data@.len(),
            8 * data@.len() <= u64::MAX,
            n == zero_bits(data@.take(i as int)),
            n <= 8 * i,
        decreases data@.len() - i,
    {
        let c = byte_zero_bits(data[i]);
        proof {
            assert(data@.take(i + 1).drop_last() =~= data@.take(i as int));
            assert(data@.take(i + 1).last() == data@[i as int]);
        }
        n = n + c as u64;
        i = i + 1;
    }
    proof {
        assert(data@.take(data@.len() as int) =~= data@);
    }
    n
}

/// Count the one bits of every byte in `data`: the standard population
/// count, the complement of [`count_zero_bits`].
pub fn count_one_bits(data: &[u8]) -> (n: u64)
    requires
        8 * data@.len() <= u64::MAX,
    ensures
        n == one_bits(data@),
{
    let mut n: u64 = 0;
    let mut i: usize = 0;
    while i < data.len()
        invariant
            i <= data@.len(),
            8 * data@.len() <= u64::MAX,
            n == one_bits(data@.take(i as int)),
            n <= 8 * i,
        decreases data@.len() - i,
    {
        let c = byte_one_bits(data[i]);
        proof {
            assert(data@.take(i + 1).drop_last() =~= data@.take(i as int));
            assert(data@.take(i + 1).last() == data@[i as int]);
        }
        n = n + c as u64;
        i = i + 1;
    }
    proof {
        assert(data@.take(data@.len() as int) =~= data@);
    }
    n
}

/// XOR corresponding bytes of the two buffers; the output stops at the
/// shorter input, and bytes past it in the longer input are ignored.
pub fn xor_bytes(data1: &[u8], data2: &[u8]) -> (out: Vec<u8>)
    ensures
        out@ == xor_seq(data1@, data2@),
        out@.len() == min(data1@.len() as int, data2@.len() as int),
        forall|i: int| 0 <= i < out@.len() ==> out@[i] == (data1@[i] ^ data2@[i]),
{
    let n: usize = if data1.len() <= data2.len() {
        data1.len()
    } else {
        data2.len()
    };
    let mut out: Vec<u8> = Vec::new();
    let mut i: usize = 0;
    while i < n
        invariant
            i <= n,
            n == min(data1@.len() as int, data2@.len() as int),
            n <= data1@.len(),
            n <= data2@.len(),
            out@.len() == i,
            forall|j: int| 0 <= j < i ==> out@[j] == (data1@[j] ^ data2@[j]),
        decreases n - i,
    {
        out.push(data1[i] ^ data2[i]);
        i = i + 1;
    }
    proof {
        assert(out@ =~= xor_seq(data1@, data2@));
    }
    out
}

/// Every bit of every byte is a zero bit or a one bit, never both: over
/// any buffer the two counts sum to eight bits per byte.
pub proof fn lemma_bit_counts_complementary(s: Seq<u8>)
    ensures
        zero_bits(s) + one_bits(s) == 8 * s.len(),
    decreases s.len(),
{
    if s.len() > 0 {
        lemma_bit_counts_complementary(s.drop_last());
        let b = s.last();
        assert(zero_bits_byte(b) + one_bits_byte(b) == 8) by (bit_vector);
    }
}

/// XOR-ing a buffer with the same buffer twice restores it: for
/// equal-length buffers, `xor(xor(a, b), b) == a`.
pub proof fn lemma_xor_involutive(a: Seq<u8>, b: Seq<u8>)
    requires
        a.len() == b.len(),
    ensures
        xor_seq(xor_seq(a, b), b) == a,
{
    assert forall|i: int| 0 <= i < a.len() implies xor_seq(xor_seq(a, b), b)[i] == a[i] by {
        let x = a[i];
        let y = b[i];
        assert((x ^ y) ^ y == x) by (bit_vector);
    }
    assert(xor_seq(xor_seq(a, b), b) =~= a);
}

/// XOR of a buffer with itself is all zeros.
pub proof fn lemma_xor_self_zero(a: Seq<u8>)
    ensures
        xor_seq(a, a).len() == a.len(),
        forall|i: int| 0 <= i < a.len() ==> xor_seq(a, a)[i] == 0u8,
{
    assert forall|i: int| 0 <= i < a.len() implies xor_seq(a, a)[i] == 0u8 by {
        let x = a[i];
        assert(x ^ x == 0) by (bit_vector);
    }
}

} // verus!
