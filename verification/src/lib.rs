//! Invertible maps on the 64-bit unsigned integers, for turning sequential
//! identifiers into values that are hard to order or predict while keeping
//! every value recoverable.
//!
//! All arithmetic is that of the ring of integers modulo 2^64.

pub mod affine;
pub mod error;
pub mod feistel;
pub mod multiplicative;
pub mod permutation;
pub mod prime;
pub mod ring;
pub mod shift;
pub mod xor;

pub use affine::AffinePermutation;
pub use error::PermutationError;
pub use feistel::FeistelPermutation;
pub use multiplicative::MultiplicativePermutation;
pub use permutation::Permutation;
pub use shift::ShiftPermutation;
pub use xor::XorPermutation;
