//! Multiplicative inverses in the ring of integers modulo 2^64.
//!
//! The units of this ring are exactly the odd residues. The inverse of an odd
//! number is found by Newton's iteration `x <- x * (2 - a * x)`: an `x` that
//! inverts `a` modulo `p` becomes one that inverts `a` modulo `p * p`, so
//! starting from a single correct bit, six steps settle all sixty-four.

use crate::error::PermutationError;
use crate::ring::{
    lemma_reduce_mul, lemma_reduce_quotient, lemma_reduce_sub, lemma_reduce_witness,
    lemma_wrapping_mul, lemma_wrapping_sub, modulus, reduce,
};
use vstd::arithmetic::div_mod::{lemma_fundamental_div_mod, lemma_mod_multiples_basic};
use vstd::prelude::*;

verus! {

/// `x` is the multiplicative inverse of `a` modulo 2^64.
pub open spec fn is_inverse(a: u64, x: u64) -> bool {
    reduce(a * x) == 1
}

/// One step of Newton's iteration towards the inverse of `a`.
pub open spec fn newton_step(a: u64, x: u64) -> u64 {
    reduce(x * (2 - a * x))
}

/// The approximation after `n` steps, starting from 1.
pub open spec fn newton_iterate(a: u64, n: nat) -> u64
    decreases n,
{
    if n == 0 {
        1
    } else {
        newton_step(a, newton_iterate(a, (n - 1) as nat))
    }
}

/// The modulus up to which `n` steps are exact: 2, 4, 16, 256, ... Each step
/// squares it, which doubles the number of settled bits.
pub open spec fn precision(n: nat) -> int
    decreases n,
{
    if n == 0 {
        2
    } else {
        precision((n - 1) as nat) * precision((n - 1) as nat)
    }
}

/// The number of steps after which every bit is settled.
pub const NEWTON_STEPS: u32 = 6;

/// Six squarings take the precision from 2 to 2^64, through divisors of 2^64.
pub proof fn lemma_precision(n: nat)
    requires
        n <= NEWTON_STEPS,
    ensures
        precision(n) > 0,
        modulus() % precision(n) == 0,
        n == NEWTON_STEPS ==> precision(n) == modulus(),
{
    assert(precision(0) == 0x2);
    assert(precision(1) == 0x4);
    assert(precision(2) == 0x10);
    assert(precision(3) == 0x100);
    assert(precision(4) == 0x1_0000);
    assert(precision(5) == 0x1_0000_0000);
    assert(precision(6) == 0x1_0000_0000_0000_0000);
}

/// A step squares the modulus up to which `x` inverts `a`, as long as that
/// square still divides 2^64.
pub proof fn lemma_newton_step_squares_precision(a: u64, x: u64, p: int)
    requires
        p > 0,
        modulus() % (p * p) == 0,
        (a * x - 1) % p == 0,
    ensures
        (a * newton_step(a, x) - 1) % (p * p) == 0,
{
    let m = modulus();
    let pp = p * p;
    assert(pp > 0) by (nonlinear_arith)
        requires
            p > 0,
            pp == p * p,
    ;
    let c = m / pp;
    let k = (a * x - 1) / p;
    let y = newton_step(a, x);
    let q = lemma_reduce_quotient(x * (2 - a * x));
    lemma_fundamental_div_mod(m, pp);
    lemma_fundamental_div_mod(a * x - 1, p);
    let v = a * x;
    let t = x * (2 - v);
    assert(a * t == v * (2 - v)) by (nonlinear_arith)
        requires
            v == a * x,
            t == x * (2 - v),
    ;
    assert(v * (2 - v) == 1 - (k * k) * pp) by (nonlinear_arith)
        requires
            v == 1 + p * k,
            pp == p * p,
    ;
    assert(a * (m * q) == (a * c * q) * pp) by (nonlinear_arith)
        requires
            m == pp * c,
    ;
    assert(a * y == a * t - a * (m * q)) by (nonlinear_arith)
        requires
            t == y + m * q,
    ;
    let w = -(k * k) - a * c * q;
    assert(a * y - 1 == w * pp) by (nonlinear_arith)
        requires
            a * y == 1 - (k * k) * pp - (a * c * q) * pp,
            w == -(k * k) - a * c * q,
    ;
    lemma_mod_multiples_basic(w, pp);
}

/// After `n` steps the approximation inverts an odd `a` modulo `precision(n)`.
pub proof fn lemma_newton_iterate_precision(a: u64, n: nat)
    requires
        a % 2 == 1,
        n <= NEWTON_STEPS,
    ensures
        (a * newton_iterate(a, n) - 1) % precision(n) == 0,
    decreases n,
{
    if n == 0 {
        assert(a * 1 == a);
    } else {
        let prev = (n - 1) as nat;
        let p = precision(prev);
        let x = newton_iterate(a, prev);
        lemma_newton_iterate_precision(a, prev);
        lemma_precision(prev);
        lemma_precision(n);
        lemma_newton_step_squares_precision(a, x, p);
    }
}

/// Six steps of Newton's iteration give the inverse of any odd number.
pub proof fn lemma_newton_converges(a: u64)
    requires
        a % 2 == 1,
    ensures
        is_inverse(a, newton_iterate(a, NEWTON_STEPS as nat)),
{
    lemma_newton_iterate_precision(a, NEWTON_STEPS as nat);
    lemma_precision(NEWTON_STEPS as nat);
}

/// A number has at most one inverse.
pub proof fn lemma_inverse_unique(a: u64, x: u64, y: u64)
    requires
        is_inverse(a, x),
        is_inverse(a, y),
    ensures
        x == y,
{
    let m = modulus();
    let j = lemma_reduce_quotient(a * x);
    let k = lemma_reduce_quotient(a * y);
    assert(x * (a * y) == y * (a * x)) by (nonlinear_arith);
    assert(x * (a * y) == x + m * (k * x)) by (nonlinear_arith)
        requires
            a * y == 1 + m * k,
    ;
    assert(y * (a * x) == y + m * (j * y)) by (nonlinear_arith)
        requires
            a * x == 1 + m * j,
    ;
    lemma_reduce_witness(x as int, y, j * y - k * x);
}

/// Multiplying by `a` and then by its inverse `b` changes nothing.
pub proof fn lemma_inverse_cancels(a: u64, b: u64, x: u64)
    requires
        is_inverse(a, b),
    ensures
        reduce(b * reduce(a * x)) == x,
        reduce(a * reduce(b * x)) == x,
{
    let m = modulus();
    let k = lemma_reduce_quotient(a * b);
    lemma_reduce_mul(b as int, a * x);
    lemma_reduce_mul(a as int, b * x);
    assert(b * (a * x) == x + m * (k * x)) by (nonlinear_arith)
        requires
            a * b == 1 + m * k,
    ;
    assert(a * (b * x) == x + m * (k * x)) by (nonlinear_arith)
        requires
            a * b == 1 + m * k,
    ;
    lemma_reduce_witness(b * (a * x), x, k * x);
    lemma_reduce_witness(a * (b * x), x, k * x);
}

/// Only odd numbers have an inverse.
pub proof fn lemma_unit_is_odd(a: u64, x: u64)
    requires
        is_inverse(a, x),
    ensures
        a % 2 == 1,
{
    let k = lemma_reduce_quotient(a * x);
    if a % 2 == 0 {
        let h = a / 2;
        assert(a * x == 2 * (h * x)) by (nonlinear_arith)
            requires
                a == 2 * h,
        ;
        assert(modulus() * k == 2 * (0x8000_0000_0000_0000 * k));
    }
}

/// The units of the ring are exactly the odd residues.
pub proof fn lemma_units_are_the_odd_residues(a: u64)
    ensures
        (exists|x: u64| is_inverse(a, x)) <==> a % 2 == 1,
{
    if a % 2 == 1 {
        lemma_newton_converges(a);
    }
    if exists|x: u64| is_inverse(a, x) {
        let x = choose|x: u64| is_inverse(a, x);
        lemma_unit_is_odd(a, x);
    }
}

/// Computes the multiplicative inverse of `a` modulo 2^64.
///
/// Odd numbers have exactly one inverse, and it is returned; even numbers
/// have none and are refused.
pub fn multiplicative_inverse(a: u64) -> (result: Result<u64, PermutationError>)
    ensures
        match result {
            Ok(x) => a % 2 == 1 && is_inverse(a, x),
            Err(e) => a % 2 == 0 && e == PermutationError::InvalidArgument,
        },
{
    if a % 2 == 0 {
        return Err(PermutationError::InvalidArgument);
    }
    let mut x: u64 = 1;
    let mut i: u32 = 0;
    while i < NEWTON_STEPS
        invariant
            i <= NEWTON_STEPS,
            x == newton_iterate(a, i as nat),
        decreases NEWTON_STEPS - i,
    {
        proof {
            lemma_wrapping_mul(a, x);
            lemma_wrapping_sub(2, a.wrapping_mul(x));
            lemma_reduce_sub(2, a * x);
            lemma_wrapping_mul(x, 2u64.wrapping_sub(a.wrapping_mul(x)));
            lemma_reduce_mul(x as int, 2 - a * x);
        }
        x = x.wrapping_mul(2u64.wrapping_sub(a.wrapping_mul(x)));
        i += 1;
    }
    proof {
        lemma_newton_converges(a);
    }
    Ok(x)
}

} // verus!
