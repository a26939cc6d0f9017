//! A counter-based pseudo-random number generator built on the Squirrel3
//! integer noise function.
//!
//! Every output is a pure function of a `(position, seed)` pair, so any
//! offset of a stream can be computed directly, and two generators with the
//! same state produce the same future draws.

mod entropy;
pub mod fill;
pub mod mix;
pub mod rng32;
pub mod rng64;

pub use mix::{squirrel3, squirrel3_64};
pub use rng32::{next_u64_via_u32, SquirrelRng};
pub use rng64::SquirrelRng64;
