//! The ways in which key material can be refused.

use vstd::prelude::*;

verus! {

/// Why a computation or a construction was refused.
///
/// Only even numbers are ever refused: they are the zero divisors of the ring
/// of integers modulo 2^64, and a map that multiplies by one is not injective.
#[derive(Clone, Copy, Debug, PartialEq, Eq, Structural)]
pub enum PermutationError {
    /// The modular inverse of an even number was asked for.
    InvalidArgument,
    /// A permutation was to be built around an even scalar.
    InvalidScalar,
}

} // verus!
