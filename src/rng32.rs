//! The 32-bit generator: native draws are 32 bits wide, a 64-bit draw joins
//! two of them.

use vstd::prelude::*;
use crate::entropy::thread_rng_u32;
use crate::fill::{le_byte, le_u32, lemma_le_byte_of_halves, write_le};
use crate::mix::{mix32, squirrel3};

verus! {

/// A counter-based generator: each draw mixes the current position with the
/// seed, then moves the position on by one, wrapping at 2^32.
#[derive(Debug, Copy, Clone, PartialEq, Eq, Structural, Hash)]
pub struct SquirrelRng {
    position: u32,
    seed: u32,
}

/// The position after `p`, wrapping from the largest value to 0.
pub open spec fn next_position32(p: u32) -> u32 {
    if p == u32::MAX {
        0
    } else {
        (p + 1) as u32
    }
}

/// How many native draws a byte fill of `n` bytes makes: two for each full
/// 8-byte chunk, two for a tail of 5 to 7 bytes, one for a tail of 1 to 4.
pub open spec fn fill_draws32(n: nat) -> nat {
    2 * (n / 8) + if n % 8 > 4 {
        2nat
    } else if n % 8 > 0 {
        1nat
    } else {
        0nat
    }
}

impl SquirrelRng {
    /// The generator at `position` with `seed`.
    pub closed spec fn at(position: u32, seed: u32) -> SquirrelRng {
        SquirrelRng { position, seed }
    }

    pub closed spec fn spec_position(&self) -> u32 {
        self.position
    }

    pub closed spec fn spec_seed(&self) -> u32 {
        self.seed
    }

    /// The value that the next native draw returns.
    pub open spec fn current(&self) -> u32 {
        mix32(self.spec_position(), self.spec_seed())
    }

    /// The state after one native draw.
    pub open spec fn stepped(&self) -> SquirrelRng {
        SquirrelRng::at(next_position32(self.spec_position()), self.spec_seed())
    }

    /// The state after `k` native draws.
    pub open spec fn advanced(&self, k: nat) -> SquirrelRng
        decreases k,
    {
        if k == 0 {
            *self
        } else {
            self.advanced((k - 1) as nat).stepped()
        }
    }

    /// The native draw number `i` (from 0) made from this state.
    pub open spec fn word(&self, i: nat) -> u32 {
        self.advanced(i).current()
    }

    /// The 64-bit draw from this state: the second native draw above the first.
    pub open spec fn wide(&self) -> u64 {
        ((self.word(1) as u64) << 32u64) | (self.word(0) as u64)
    }

    /// The bytes that a fill of `n` bytes writes from this state: the
    /// little-endian bytes of consecutive native draws.
    pub open spec fn fill_spec(&self, n: nat) -> Seq<u8> {
        Seq::new(n, |i: int| le_byte(self.word((i / 4) as nat) as u64, i % 4))
    }

    /// A generator with a seed drawn from the thread-local generator, at
    /// position 0. Panics if the operating system's entropy source fails
    /// while that generator is seeded or reseeded.
    pub fn new() -> (r: Self)
        ensures
            r.spec_position() == 0,
    {
        Self::with_seed(thread_rng_u32())
    }

    /// A generator with the given seed, at position 0.
    pub fn with_seed(seed: u32) -> (r: Self)
        ensures
            r == SquirrelRng::at(0, seed),
    {
        SquirrelRng { position: 0, seed }
    }

    /// A generator at position 0 whose seed is `draw`, a value drawn from
    /// another randomness source.
    pub fn seed_from(draw: u32) -> (r: Self)
        ensures
            r == SquirrelRng::at(0, draw),
    {
        Self::with_seed(draw)
    }

    /// A generator whose seed is the little-endian reading of `seed`, at
    /// position 0.
    pub fn from_seed(seed: [u8; 4]) -> (r: Self)
        ensures
            r == SquirrelRng::at(0, le_u32(seed@)),
    {
        let b0 = seed[0];
        let b1 = seed[1];
        let b2 = seed[2];
        let b3 = seed[3];
        let value: u32 = (b0 as u32) | ((b1 as u32) << 8u32) | ((b2 as u32) << 16u32) | ((
        b3 as u32) << 24u32);
        assert(value == (b0 as int + 0x100 * b1 + 0x1_0000 * b2 + 0x100_0000 * b3) as u32)
            by (bit_vector)
            requires
                value == (b0 as u32) | ((b1 as u32) << 8u32) | ((b2 as u32) << 16u32) | ((
                b3 as u32) << 24u32),
        ;
        Self::with_seed(value)
    }

    /// A copy of this generator moved to `position`, with the same seed.
    pub fn with_position(self, position: u32) -> (r: Self)
        ensures
            r == SquirrelRng::at(position, self.spec_seed()),
    {
        SquirrelRng { position, ..self }
    }

    /// The native draw: mixes the position with the seed, then moves the
    /// position on by one.
    pub fn next_u32(&mut self) -> (r: u32)
        ensures
            r == old(self).current(),
            *final(self) == old(self).stepped(),
    {
        let result = squirrel3(self.position, self.seed);
        self.position = self.position.wrapping_add(1);
        result
    }

    /// A 64-bit draw made of two native draws, the first in the low half.
    pub fn next_u64(&mut self) -> (r: u64)
        ensures
            r == old(self).wide(),
            *final(self) == old(self).advanced(2),
    {
        next_u64_via_u32(self)
    }

    /// Fills `dest` with little-endian bytes of 64-bit draws, eight at a
    /// time; a tail of 5 to 7 bytes takes the low bytes of one more 64-bit
    /// draw, a tail of 1 to 4 bytes those of one native draw.
    pub fn fill_bytes(&mut self, dest: &mut [u8])
        ensures
            final(dest)@ == old(self).fill_spec(old(dest)@.len()),
            *final(self) == old(self).advanced(fill_draws32(old(dest)@.len())),
    {
        let n: usize = dest.len();
        let ghost g0 = *self;
        let mut at: usize = 0;
        while n - at >= 8
            invariant
                n == dest@.len(),
                at <= n,
                at % 8 == 0,
                *self == g0.advanced(2 * (at / 8) as nat),
                forall|i: int| 0 <= i < at ==> dest@[i] == g0.fill_spec(n as nat)[i],
            decreases n - at,
        {
            let v = self.next_u64();
            write_le(dest, at, v, 8);
            proof {
                let j = (at / 8) as nat;
                lemma_advanced_add(g0, 2 * j, 2);
                assert forall|i: int| 0 <= i < at + 8 implies dest@[i] == g0.fill_spec(
                    n as nat,
                )[i] by {
                    if i >= at {
                        lemma_fill_matches_draws(g0, n as nat, j, i - at);
                    }
                }
            }
            at = at + 8;
        }
        let rest: usize = n - at;
        let ghost j = (at / 8) as nat;
        if rest > 4 {
            let v = self.next_u64();
            write_le(dest, at, v, rest);
            proof {
                lemma_advanced_add(g0, 2 * j, 2);
                assert forall|i: int| at <= i < n implies dest@[i] == g0.fill_spec(n as nat)[i] by {
                    lemma_fill_matches_draws(g0, n as nat, j, i - at);
                }
            }
        } else if rest > 0 {
            let v = self.next_u32();
            write_le(dest, at, v as u64, rest);
            proof {
                assert forall|i: int| at <= i < n implies dest@[i] == g0.fill_spec(n as nat)[i] by {
                    lemma_fill_matches_draws(g0, n as nat, j, i - at);
                }
            }
        }
        assert(dest@ =~= g0.fill_spec(n as nat));
    }

    /// The fallible form of [`SquirrelRng::fill_bytes`]; it always succeeds.
    pub fn try_fill_bytes(&mut self, dest: &mut [u8]) -> (r: Result<(), rand::Error>)
        ensures
            r is Ok,
            final(dest)@ == old(self).fill_spec(old(dest)@.len()),
            *final(self) == old(self).advanced(fill_draws32(old(dest)@.len())),
    {
        self.fill_bytes(dest);
        Ok(())
    }
}

/// Draws two 32-bit values from `rng` and joins them, the first in the low
/// half and the second in the high half.
pub fn next_u64_via_u32(rng: &mut SquirrelRng) -> (r: u64)
    ensures
        r == ((old(rng).stepped().current() as u64) << 32u64) | (old(rng).current() as u64),
        r == old(rng).wide(),
        *final(rng) == old(rng).advanced(2),
{
    let x = rng.next_u32() as u64;
    let y = rng.next_u32() as u64;
    proof {
        reveal_with_fuel(SquirrelRng::advanced, 3);
    }
    (y << 32u64) | x
}

impl Default for SquirrelRng {
    /// The same as [`SquirrelRng::new`]: a fresh seed, position 0.
    fn default() -> (r: Self)
        ensures
            r.spec_position() == 0,
    {
        SquirrelRng::new()
    }
}

/// The generator `at(p, s)` has position `p` and seed `s`.
pub proof fn lemma_at_fields(p: u32, s: u32)
    ensures
        SquirrelRng::at(p, s).spec_position() == p,
        SquirrelRng::at(p, s).spec_seed() == s,
{
}

/// A generator is determined by its position and its seed.
pub proof fn lemma_at_eta(g: SquirrelRng)
    ensures
        g == SquirrelRng::at(g.spec_position(), g.spec_seed()),
{
}

/// Draw number `i` from `g` mixes the position `i` steps on (modulo the
/// width) with the seed; after `i` draws the seed is unchanged.
pub proof fn lemma_word(g: SquirrelRng, i: nat)
    ensures
        g.advanced(i).spec_position() == ((g.spec_position() + i) % 0x1_0000_0000) as u32,
        g.advanced(i).spec_seed() == g.spec_seed(),
        g.word(i) == mix32(((g.spec_position() + i) % 0x1_0000_0000) as u32, g.spec_seed()),
{
    lemma_advanced_position(g, i);
}

/// Counted in native draws, a fill of `n` bytes makes `n / 4` native draws, rounded up.
pub proof fn lemma_fill_draws32(n: nat)
    ensures
        fill_draws32(n) == (n + 3) / 4,
{
}

/// After `k` draws the position has moved on by `k` modulo 2^32 and the
/// seed is unchanged.
pub proof fn lemma_advanced_position(g: SquirrelRng, k: nat)
    ensures
        g.advanced(k) == SquirrelRng::at(
            ((g.spec_position() + k) % 0x1_0000_0000) as u32,
            g.spec_seed(),
        ),
    decreases k,
{
    if k > 0 {
        lemma_advanced_position(g, (k - 1) as nat);
    }
}

/// Draws compose: `a` draws then `b` draws are `a + b` draws.
pub proof fn lemma_advanced_add(g: SquirrelRng, a: nat, b: nat)
    ensures
        g.advanced(a).advanced(b) == g.advanced(a + b),
    decreases b,
{
    if b > 0 {
        lemma_advanced_add(g, a, (b - 1) as nat);
    }
}

/// Random access: a generator started at position `p` is the generator with
/// the same seed started at 0 and advanced by `p` native draws, so its first
/// draw is that generator's draw number `p`.
pub proof fn lemma_random_access(seed: u32, p: u32)
    ensures
        SquirrelRng::at(0, seed).advanced(p as nat) == SquirrelRng::at(p, seed),
        SquirrelRng::at(p, seed).current() == SquirrelRng::at(0, seed).word(p as nat),
{
    lemma_advanced_position(SquirrelRng::at(0, seed), p as nat);
}

/// A copy moved to position `k` draws the original's stream shifted by
/// `k - position` (modulo 2^32); the original's own draws are untouched.
pub proof fn lemma_with_position_offset(a: SquirrelRng, k: u32, i: nat)
    ensures
        SquirrelRng::at(k, a.spec_seed()).word(i) == a.word(
            i + ((k - a.spec_position()) % 0x1_0000_0000) as nat,
        ),
{
    let p = a.spec_position();
    let d = ((k - p) % 0x1_0000_0000) as nat;
    lemma_advanced_position(a, i + d);
    lemma_advanced_position(SquirrelRng::at(k, a.spec_seed()), i);
    if k >= p {
        assert(p + (i + d) == k + i);
    } else {
        assert(d == k - p + 0x1_0000_0000);
        assert(p + (i + d) == (k + i) + 0x1_0000_0000);
        vstd::arithmetic::div_mod::lemma_mod_add_multiples_vanish(k + i, 0x1_0000_0000);
    }
}

/// A draw at the largest position wraps the position to 0.
pub proof fn lemma_wraparound(seed: u32)
    ensures
        SquirrelRng::at(u32::MAX, seed).stepped() == SquirrelRng::at(0, seed),
{
}

/// The bytes of a fill are those of successive 64-bit draws: byte `b` of
/// the 8-byte chunk `j` is byte `b` of the draw made after `j` 64-bit draws.
/// This holds of the tail chunk too when it has 5 to 7 bytes; a tail of 1
/// to 4 bytes holds the low bytes of one native draw.
pub proof fn lemma_fill_matches_draws(g: SquirrelRng, n: nat, j: nat, b: int)
    requires
        0 <= b < 8,
        8 * j + b < n,
    ensures
        (8 * j + 8 <= n || n % 8 > 4) ==> g.fill_spec(n)[8 * j + b] == le_byte(
            g.advanced(2 * j).wide(),
            b,
        ),
        (8 * j + 8 > n && n % 8 <= 4) ==> g.fill_spec(n)[8 * j + b] == le_byte(
            g.advanced(2 * j).current() as u64,
            b,
        ),
{
    let h = g.advanced(2 * j);
    lemma_advanced_add(g, 2 * j, 1);
    lemma_advanced_add(g, 2 * j, 0);
    lemma_le_byte_of_halves(h.word(0), h.word(1), b as u64);
    let i = 8 * j + b;
    assert(i / 4 == 2 * j + b / 4);
    assert(i % 4 == b % 4);
    if 8 * j + 8 > n && n % 8 <= 4 {
        assert(b < 4);
    }
}

} // verus!
