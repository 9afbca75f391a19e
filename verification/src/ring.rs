//! The ring of integers modulo 2^64, as a model for wrapping `u64` arithmetic.

use vstd::arithmetic::div_mod::{
    lemma_add_mod_noop, lemma_fundamental_div_mod, lemma_fundamental_div_mod_converse,
    lemma_mul_mod_noop_general, lemma_sub_mod_noop,
};
use vstd::prelude::*;

verus! {

/// The number of residues, 2^64.
pub open spec fn modulus() -> int {
    0x1_0000_0000_0000_0000
}

/// The representative in `0 .. 2^64` of the residue class of `n`.
pub open spec fn reduce(n: int) -> u64 {
    (n % modulus()) as u64
}

/// An integer that differs from a `u64` by a multiple of 2^64 reduces to it.
pub proof fn lemma_reduce_witness(n: int, r: u64, k: int)
    requires
        n == r + modulus() * k,
    ensures
        reduce(n) == r,
{
    lemma_fundamental_div_mod_converse(n, modulus(), k, r as int);
}

/// Every integer is its representative plus a multiple of 2^64.
pub proof fn lemma_reduce_quotient(n: int) -> (k: int)
    ensures
        n == reduce(n) + modulus() * k,
{
    lemma_fundamental_div_mod(n, modulus());
    n / modulus()
}

/// Reducing a summand first does not change the reduced sum.
pub proof fn lemma_reduce_add(a: int, b: int)
    ensures
        reduce(reduce(a) + b) == reduce(a + b),
        reduce(a + reduce(b)) == reduce(a + b),
{
    lemma_add_mod_noop(a, b, modulus());
    lemma_add_mod_noop(a % modulus(), b, modulus());
    lemma_add_mod_noop(a, b % modulus(), modulus());
}

/// Reducing either operand first does not change the reduced difference.
pub proof fn lemma_reduce_sub(a: int, b: int)
    ensures
        reduce(reduce(a) - b) == reduce(a - b),
        reduce(a - reduce(b)) == reduce(a - b),
{
    lemma_sub_mod_noop(a, b, modulus());
    lemma_sub_mod_noop(a % modulus(), b, modulus());
    lemma_sub_mod_noop(a, b % modulus(), modulus());
}

/// Reducing a factor first does not change the reduced product.
pub proof fn lemma_reduce_mul(a: int, b: int)
    ensures
        reduce(reduce(a) * b) == reduce(a * b),
        reduce(a * reduce(b)) == reduce(a * b),
{
    lemma_mul_mod_noop_general(a, b, modulus());
}

/// `wrapping_add` is addition in the ring.
pub proof fn lemma_wrapping_add(a: u64, b: u64)
    ensures
        a.wrapping_add(b) == reduce(a + b),
{
}

/// `wrapping_sub` is subtraction in the ring.
pub proof fn lemma_wrapping_sub(a: u64, b: u64)
    ensures
        a.wrapping_sub(b) == reduce(a - b),
{
}

/// `wrapping_mul` is multiplication in the ring.
pub proof fn lemma_wrapping_mul(a: u64, b: u64)
    ensures
        a.wrapping_mul(b) == reduce(a * b),
{
}

} // verus!
