//! Little-endian byte encoding shared by the byte-fill operations of both
//! generator widths.

use vstd::prelude::*;

verus! {

/// Byte `k` (counting from the least significant) of `w`.
pub open spec fn le_byte(w: u64, k: int) -> u8 {
    (w >> ((8 * k) as u64)) as u8
}

/// The seed that four little-endian bytes encode.
pub open spec fn le_u32(b: Seq<u8>) -> u32 {
    (b[0] as int + 0x100 * b[1] + 0x1_0000 * b[2] + 0x100_0000 * b[3]) as u32
}

/// The seed that eight little-endian bytes encode.
pub open spec fn le_u64(b: Seq<u8>) -> u64 {
    (le_u32(b) as int + 0x1_0000_0000 * le_u32(b.subrange(4, 8))) as u64
}

/// The bytes of a 64-bit value built from two 32-bit halves are the bytes of
/// the low half followed by those of the high half.
pub proof fn lemma_le_byte_of_halves(lo: u32, hi: u32, k: u64)
    requires
        k < 8,
    ensures
        le_byte(((hi as u64) << 32u64) | (lo as u64), k as int) == if k < 4 {
            le_byte(lo as u64, k as int)
        } else {
            le_byte(hi as u64, (k - 4) as int)
        },
{
    assert((((((hi as u64) << 32u64) | (lo as u64)) >> (8 * k) as u64) as u8) == if k < 4 {
        ((lo as u64) >> (8 * k) as u64) as u8
    } else {
        ((hi as u64) >> (8 * (k - 4)) as u64) as u8
    }) by (bit_vector)
        requires
            k < 8,
    ;
}

/// The low four bytes of a 64-bit value are the bytes of its low 32 bits.
pub proof fn lemma_le_byte_of_low_half(w: u64, k: u64)
    requires
        k < 4,
    ensures
        le_byte((w as u32) as u64, k as int) == le_byte(w, k as int),
{
    assert(((((w as u32) as u64) >> (8 * k) as u64) as u8) == ((w >> (8 * k) as u64) as u8))
        by (bit_vector)
        requires
            k < 4,
    ;
}

/// Writes the `count` low bytes of `v`, least significant first, into
/// `dest[at .. at + count]`, leaving the rest of `dest` as it was.
pub fn write_le(dest: &mut [u8], at: usize, v: u64, count: usize)
    requires
        count <= 8,
        at + count <= old(dest)@.len(),
    ensures
        final(dest)@.len() == old(dest)@.len(),
        forall|i: int|
            0 <= i < old(dest)@.len() && !(at <= i < at + count) ==> final(dest)@[i] == old(
                dest,
            )@[i],
        forall|b: int| 0 <= b < count ==> final(dest)@[at + b] == le_byte(v, b),
{
    let n: usize = dest.len();
    let mut b: usize = 0;
    while b < count
        invariant
            b <= count <= 8,
            n == dest@.len(),
            at + count <= n,
            dest@.len() == old(dest)@.len(),
            forall|i: int|
                0 <= i < old(dest)@.len() && !(at <= i < at + b) ==> dest@[i] == old(dest)@[i],
            forall|j: int| 0 <= j < b ==> dest@[at + j] == le_byte(v, j),
        decreases count - b,
    {
        let shift: u64 = 8 * (b as u64);
        dest[at + b] = (#[verifier::truncate] ((v >> shift) as u8));
        b = b + 1;
    }
}

} // verus!
