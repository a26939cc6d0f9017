//! Fresh seeds from rand's thread-local generator.

use vstd::prelude::*;

verus! {

#[verifier::external_type_specification]
#[verifier::external_body]
pub struct ExRandError(rand::Error);

/// Relies on rand::thread_rng and its RngCore::next_u32: one value drawn from
/// the thread-local generator. Any value may come back.
#[verifier::external_body]
pub(crate) fn thread_rng_u32() -> u32 {
    rand::RngCore::next_u32(&mut rand::thread_rng())
}

/// Relies on rand::thread_rng and its RngCore::next_u64: one value drawn from
/// the thread-local generator. Any value may come back.
#[verifier::external_body]
pub(crate) fn thread_rng_u64() -> u64 {
    rand::RngCore::next_u64(&mut rand::thread_rng())
}

} // verus!
