//! The 64-bit generator: native draws are 64 bits wide, a 32-bit draw keeps
//! the low half of one.

use vstd::prelude::*;
use crate::entropy::thread_rng_u64;
use crate::fill::{le_byte, le_u64, lemma_le_byte_of_low_half, write_le};
use crate::mix::{mix64, squirrel3_64};

verus! {

/// A counter-based generator: each draw mixes the current position with the
/// seed, then moves the position on by one, wrapping at 2^64.
#[derive(Debug, Copy, Clone, PartialEq, Eq, Structural, Hash)]
pub struct SquirrelRng64 {
    position: u64,
    seed: u64,
}

/// The position after `p`, wrapping from the largest value to 0.
pub open spec fn next_position64(p: u64) -> u64 {
    if p == u64::MAX {
        0
    } else {
        (p + 1) as u64
    }
}

/// How many native draws a byte fill of `n` bytes makes: one for each 8-byte
/// chunk and one for a shorter tail.
pub open spec fn fill_draws64(n: nat) -> nat {
    n / 8 + if n % 8 > 0 {
        1nat
    } else {
        0nat
    }
}

impl SquirrelRng64 {
    /// The generator at `position` with `seed`.
    pub closed spec fn at(position: u64, seed: u64) -> SquirrelRng64 {
        SquirrelRng64 { position, seed }
    }

    pub closed spec fn spec_position(&self) -> u64 {
        self.position
    }

    pub closed spec fn spec_seed(&self) -> u64 {
        self.seed
    }

    /// The value that the next native draw returns.
    pub open spec fn current(&self) -> u64 {
        mix64(self.spec_position(), self.spec_seed())
    }

    /// The state after one native draw.
    pub open spec fn stepped(&self) -> SquirrelRng64 {
        SquirrelRng64::at(next_position64(self.spec_position()), self.spec_seed())
    }

    /// The state after `k` native draws.
    pub open spec fn advanced(&self, k: nat) -> SquirrelRng64
        decreases k,
    {
        if k == 0 {
            *self
        } else {
            self.advanced((k - 1) as nat).stepped()
        }
    }

    /// The native draw number `i` (from 0) made from this state.
    pub open spec fn word(&self, i: nat) -> u64 {
        self.advanced(i).current()
    }

    /// The bytes that a fill of `n` bytes writes from this state: the
    /// little-endian bytes of consecutive native draws.
    pub open spec fn fill_spec(&self, n: nat) -> Seq<u8> {
        Seq::new(n, |i: int| le_byte(self.word((i / 8) as nat), i % 8))
    }

    /// A generator with a seed drawn from the thread-local generator, at
    /// position 0. Panics if the operating system's entropy source fails
    /// while that generator is seeded or reseeded.
    pub fn new() -> (r: Self)
        ensures
            r.spec_position() == 0,
    {
        Self::with_seed(thread_rng_u64())
    }

    /// A generator with the given seed, at position 0.
    pub fn with_seed(seed: u64) -> (r: Self)
        ensures
            r == SquirrelRng64::at(0, seed),
    {
        SquirrelRng64 { position: 0, seed }
    }

    /// A generator at position 0 whose seed is `draw`, a value drawn from
    /// another randomness source.
    pub fn seed_from(draw: u64) -> (r: Self)
        ensures
            r == SquirrelRng64::at(0, draw),
    {
        Self::with_seed(draw)
    }

    /// A generator whose seed is the little-endian reading of `seed`, at
    /// position 0.
    pub fn from_seed(seed: [u8; 8]) -> (r: Self)
        ensures
            r == SquirrelRng64::at(0, le_u64(seed@)),
    {
        let b0 = seed[0];
        let b1 = seed[1];
        let b2 = seed[2];
        let b3 = seed[3];
        let b4 = seed[4];
        let b5 = seed[5];
        let b6 = seed[6];
        let b7 = seed[7];
        let lo: u32 = (b0 as u32) | ((b1 as u32) << 8u32) | ((b2 as u32) << 16u32) | ((
        b3 as u32) << 24u32);
        let hi: u32 = (b4 as u32) | ((b5 as u32) << 8u32) | ((b6 as u32) << 16u32) | ((
        b7 as u32) << 24u32);
        assert(lo == (b0 as int + 0x100 * b1 + 0x1_0000 * b2 + 0x100_0000 * b3) as u32)
            by (bit_vector)
            requires
                lo == (b0 as u32) | ((b1 as u32) << 8u32) | ((b2 as u32) << 16u32) | ((
                b3 as u32) << 24u32),
        ;
        assert(hi == (b4 as int + 0x100 * b5 + 0x1_0000 * b6 + 0x100_0000 * b7) as u32)
            by (bit_vector)
            requires
                hi == (b4 as u32) | ((b5 as u32) << 8u32) | ((b6 as u32) << 16u32) | ((
                b7 as u32) << 24u32),
        ;
        let value: u64 = ((hi as u64) << 32u64) | (lo as u64);
        assert(value == (lo as int + 0x1_0000_0000 * hi) as u64) by (bit_vector)
            requires
                value == ((hi as u64) << 32u64) | (lo as u64),
        ;
        assert(seed@.subrange(4, 8) =~= seq![b4, b5, b6, b7]);
        Self::with_seed(value)
    }

    /// A copy of this generator moved to `position`, with the same seed.
    pub fn with_position(self, position: u64) -> (r: Self)
        ensures
            r == SquirrelRng64::at(position, self.spec_seed()),
    {
        SquirrelRng64 { position, ..self }
    }

    /// The native draw: mixes the position with the seed, then moves the
    /// position on by one.
    pub fn next_u64(&mut self) -> (r: u64)
        ensures
            r == old(self).current(),
            *final(self) == old(self).stepped(),
    {
        let result = squirrel3_64(self.position, self.seed);
        self.position = self.position.wrapping_add(1);
        result
    }

    /// A 32-bit draw: the low half of one native draw.
    pub fn next_u32(&mut self) -> (r: u32)
        ensures
            r == old(self).current() as u32,
            *final(self) == old(self).stepped(),
    {
        let wide = self.next_u64();
        #[verifier::truncate]
        (wide as u32)
    }

    /// Fills `dest` with little-endian bytes of native draws, eight at a
    /// time; a tail of 5 to 7 bytes takes the low bytes of one more native
    /// draw, a tail of 1 to 4 bytes those of one 32-bit draw.
    pub fn fill_bytes(&mut self, dest: &mut [u8])
        ensures
            final(dest)@ == old(self).fill_spec(old(dest)@.len()),
            *final(self) == old(self).advanced(fill_draws64(old(dest)@.len())),
    {
        let n: usize = dest.len();
        let ghost g0 = *self;
        let mut at: usize = 0;
        while n - at >= 8
            invariant
                n == dest@.len(),
                at <= n,
                at % 8 == 0,
                *self == g0.advanced((at / 8) as nat),
                forall|i: int| 0 <= i < at ==> dest@[i] == g0.fill_spec(n as nat)[i],
            decreases n - at,
        {
            let v = self.next_u64();
            write_le(dest, at, v, 8);
            proof {
                let j = (at / 8) as nat;
                assert forall|i: int| 0 <= i < at + 8 implies dest@[i] == g0.fill_spec(
                    n as nat,
                )[i] by {
                    if i >= at {
                        lemma_fill_matches_draws64(g0, n as nat, j, i - at);
                    }
                }
            }
            at = at + 8;
        }
        let rest: usize = n - at;
        let ghost j = (at / 8) as nat;
        if rest > 4 {
            let v = self.next_u64();
            write_le(dest, at, v, rest);
            proof {
                assert forall|i: int| at <= i < n implies dest@[i] == g0.fill_spec(n as nat)[i] by {
                    lemma_fill_matches_draws64(g0, n as nat, j, i - at);
                }
            }
        } else if rest > 0 {
            let v = self.next_u32();
            write_le(dest, at, v as u64, rest);
            proof {
                assert forall|i: int| at <= i < n implies dest@[i] == g0.fill_spec(n as nat)[i] by {
                    lemma_fill_matches_draws64(g0, n as nat, j, i - at);
                    lemma_le_byte_of_low_half(g0.word(j), (i - at) as u64);
                }
            }
        }
        assert(dest@ =~= g0.fill_spec(n as nat));
    }

    /// The fallible form of [`SquirrelRng64::fill_bytes`]; it always succeeds.
    pub fn try_fill_bytes(&mut self, dest: &mut [u8]) -> (r: Result<(), rand::Error>)
        ensures
            r is Ok,
            final(dest)@ == old(self).fill_spec(old(dest)@.len()),
            *final(self) == old(self).advanced(fill_draws64(old(dest)@.len())),
    {
        self.fill_bytes(dest);
        Ok(())
    }
}

impl Default for SquirrelRng64 {
    /// The same as [`SquirrelRng64::new`]: a fresh seed, position 0.
    fn default() -> (r: Self)
        ensures
            r.spec_position() == 0,
    {
        SquirrelRng64::new()
    }
}

/// The generator `at(p, s)` has position `p` and seed `s`.
pub proof fn lemma_at_fields64(p: u64, s: u64)
    ensures
        SquirrelRng64::at(p, s).spec_position() == p,
        SquirrelRng64::at(p, s).spec_seed() == s,
{
}

/// A generator is determined by its position and its seed.
pub proof fn lemma_at_eta64(g: SquirrelRng64)
    ensures
        g == SquirrelRng64::at(g.spec_position(), g.spec_seed()),
{
}

/// Draw number `i` from `g` mixes the position `i` steps on (modulo the
/// width) with the seed; after `i` draws the seed is unchanged.
pub proof fn lemma_word64(g: SquirrelRng64, i: nat)
    ensures
        g.advanced(i).spec_position() == ((g.spec_position() + i) % 0x1_0000_0000_0000_0000) as u64,
        g.advanced(i).spec_seed() == g.spec_seed(),
        g.word(i) == mix64(((g.spec_position() + i) % 0x1_0000_0000_0000_0000) as u64, g.spec_seed()),
{
    lemma_advanced_position64(g, i);
}

/// Counted in native draws, a fill of `n` bytes makes `n / 8` native draws, rounded up.
pub proof fn lemma_fill_draws64(n: nat)
    ensures
        fill_draws64(n) == (n + 7) / 8,
{
}

/// After `k` draws the position has moved on by `k` modulo 2^64 and the
/// seed is unchanged.
pub proof fn lemma_advanced_position64(g: SquirrelRng64, k: nat)
    ensures
        g.advanced(k) == SquirrelRng64::at(
            ((g.spec_position() + k) % 0x1_0000_0000_0000_0000) as u64,
            g.spec_seed(),
        ),
    decreases k,
{
    if k > 0 {
        lemma_advanced_position64(g, (k - 1) as nat);
    }
}

/// Random access: a generator started at position `p` is the generator with
/// the same seed started at 0 and advanced by `p` native draws, so its first
/// draw is that generator's draw number `p`.
pub proof fn lemma_random_access64(seed: u64, p: u64)
    ensures
        SquirrelRng64::at(0, seed).advanced(p as nat) == SquirrelRng64::at(p, seed),
        SquirrelRng64::at(p, seed).current() == SquirrelRng64::at(0, seed).word(p as nat),
{
    lemma_advanced_position64(SquirrelRng64::at(0, seed), p as nat);
}

/// A copy moved to position `k` draws the original's stream shifted by
/// `k - position` (modulo 2^64); the original's own draws are untouched.
pub proof fn lemma_with_position_offset64(a: SquirrelRng64, k: u64, i: nat)
    ensures
        SquirrelRng64::at(k, a.spec_seed()).word(i) == a.word(
            i + ((k - a.spec_position()) % 0x1_0000_0000_0000_0000) as nat,
        ),
{
    let p = a.spec_position();
    let d = ((k - p) % 0x1_0000_0000_0000_0000) as nat;
    lemma_advanced_position64(a, i + d);
    lemma_advanced_position64(SquirrelRng64::at(k, a.spec_seed()), i);
    if k >= p {
        assert(p + (i + d) == k + i);
    } else {
        assert(d == k - p + 0x1_0000_0000_0000_0000);
        assert(p + (i + d) == (k + i) + 0x1_0000_0000_0000_0000);
        vstd::arithmetic::div_mod::lemma_mod_add_multiples_vanish(k + i, 0x1_0000_0000_0000_0000);
    }
}

/// A draw at the largest position wraps the position to 0.
pub proof fn lemma_wraparound64(seed: u64)
    ensures
        SquirrelRng64::at(u64::MAX, seed).stepped() == SquirrelRng64::at(0, seed),
{
}

/// The bytes of a fill are those of successive native draws: byte `b` of the
/// chunk `j` is byte `b` of the draw made after `j` draws. A tail of 5 to 7
/// bytes holds low bytes of one more native draw, a tail of 1 to 4 bytes
/// those of one 32-bit draw.
pub proof fn lemma_fill_matches_draws64(g: SquirrelRng64, n: nat, j: nat, b: int)
    requires
        0 <= b < 8,
        8 * j + b < n,
    ensures
        (8 * j + 8 <= n || n % 8 > 4) ==> g.fill_spec(n)[8 * j + b] == le_byte(
            g.advanced(j).current(),
            b,
        ),
        (8 * j + 8 > n && n % 8 <= 4) ==> g.fill_spec(n)[8 * j + b] == le_byte(
            (g.advanced(j).current() as u32) as u64,
            b,
        ),
{
    let i = 8 * j + b;
    assert(i / 8 == j);
    assert(i % 8 == b);
    if 8 * j + 8 > n && n % 8 <= 4 {
        assert(b < 4);
        lemma_le_byte_of_low_half(g.advanced(j).current(), b as u64);
    }
}

} // verus!
