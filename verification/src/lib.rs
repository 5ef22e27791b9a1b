//! Balanced-ternary integers packed into pairs of binary words.
//!
//! A balanced-ternary digit, a trit, is one of -1, 0 and +1. [`Ternary64`]
//! holds up to 64 trits in two `u64` masks: one marks the positions that hold
//! +1, the other the positions that hold -1.

pub mod balanced;
pub mod bits;
pub mod encode;
pub mod laws;
pub mod powers;
pub mod render;
pub mod std_traits;
pub mod ternary64;

pub use ternary64::Ternary64;
