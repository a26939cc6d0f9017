//! The Squirrel3 mixing function, in a 32-bit and a 64-bit width.

use vstd::prelude::*;
use vstd::wrapping::{u32_specs, u64_specs};

verus! {

pub const NOISE1_32: u32 = 0x68E31DA4;
pub const NOISE2_32: u32 = 0xB5297A4D;
pub const NOISE3_32: u32 = 0x1B56C4E9;

pub const NOISE1_64: u64 = 0xb333333333333027;
pub const NOISE2_64: u64 = 0x6666666666666800;
pub const NOISE3_64: u64 = 0x19999999999999eb;

/// The 32-bit mixer: multiply, add the seed, xor-shift right, add, xor-shift
/// left, multiply, xor-shift right, all modulo 2^32.
pub open spec fn mix32(position: u32, seed: u32) -> u32 {
    let m = u32_specs::wrapping_add(u32_specs::wrapping_mul(position, NOISE1_32), seed);
    let m = m ^ (m >> 8u32);
    let m = u32_specs::wrapping_add(m, NOISE2_32);
    let m = m ^ (m << 8u32);
    let m = u32_specs::wrapping_mul(m, NOISE3_32);
    m ^ (m >> 8u32)
}

/// The 64-bit mixer: the same sequence of steps as [`mix32`], modulo 2^64,
/// with the 64-bit constants.
pub open spec fn mix64(position: u64, seed: u64) -> u64 {
    let m = u64_specs::wrapping_add(u64_specs::wrapping_mul(position, NOISE1_64), seed);
    let m = m ^ (m >> 8u64);
    let m = u64_specs::wrapping_add(m, NOISE2_64);
    let m = m ^ (m << 8u64);
    let m = u64_specs::wrapping_mul(m, NOISE3_64);
    m ^ (m >> 8u64)
}

/// Mixes a position with a seed into a well-spread 32-bit value.
pub fn squirrel3(position: u32, seed: u32) -> (r: u32)
    ensures
        r == mix32(position, seed),
{
    let mut mangled: u32 = position;
    mangled = mangled.wrapping_mul(NOISE1_32);
    mangled = mangled.wrapping_add(seed);
    mangled = mangled ^ (mangled >> 8u32);
    mangled = mangled.wrapping_add(NOISE2_32);
    mangled = mangled ^ (mangled << 8u32);
    mangled = mangled.wrapping_mul(NOISE3_32);
    mangled = mangled ^ (mangled >> 8u32);
    mangled
}

/// Mixes a position with a seed into a well-spread 64-bit value.
pub fn squirrel3_64(position: u64, seed: u64) -> (r: u64)
    ensures
        r == mix64(position, seed),
{
    let mut mangled: u64 = position;
    mangled = mangled.wrapping_mul(NOISE1_64);
    mangled = mangled.wrapping_add(seed);
    mangled = mangled ^ (mangled >> 8u64);
    mangled = mangled.wrapping_add(NOISE2_64);
    mangled = mangled ^ (mangled << 8u64);
    mangled = mangled.wrapping_mul(NOISE3_64);
    mangled = mangled ^ (mangled >> 8u64);
    mangled
}

/// The 32-bit mixer is a function of its two arguments alone: equal
/// positions and equal seeds give equal outputs.
pub proof fn lemma_mix32_deterministic(p1: u32, s1: u32, p2: u32, s2: u32)
    requires
        p1 == p2,
        s1 == s2,
    ensures
        mix32(p1, s1) == mix32(p2, s2),
{
}

/// The 64-bit mixer is a function of its two arguments alone: equal
/// positions and equal seeds give equal outputs.
pub proof fn lemma_mix64_deterministic(p1: u64, s1: u64, p2: u64, s2: u64)
    requires
        p1 == p2,
        s1 == s2,
    ensures
        mix64(p1, s1) == mix64(p2, s2),
{
}

} // verus!
