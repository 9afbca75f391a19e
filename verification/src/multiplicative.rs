//! Permutation by multiplying with a unit of the ring.

use crate::error::PermutationError;
use crate::permutation::Permutation;
use crate::prime::{
    is_inverse, lemma_inverse_cancels, lemma_inverse_unique, multiplicative_inverse,
};
use crate::ring::{lemma_wrapping_mul, reduce};
use vstd::prelude::*;

verus! {

/// `x -> x * scalar` modulo 2^64, for an odd `scalar`.
///
/// 2^64 is not prime, so only the odd residues can be divided by: an even
/// scalar would send two inputs to one output. The inverse of the scalar is
/// found once, when the value is built.
///
/// It is a weak permutation still: whatever the scalar, 0 goes to 0 and 1 goes
/// to the scalar itself.
pub struct MultiplicativePermutation {
    scalar: u64,
    inverse: u64,
}

impl MultiplicativePermutation {
    /// The factor of the forward map.
    pub closed spec fn scalar(&self) -> u64 {
        self.scalar
    }

    /// The factor of the inverse map.
    pub closed spec fn inverse(&self) -> u64 {
        self.inverse
    }

    /// What holds of every value that exists at run time: the scalar is odd,
    /// and the inverse map's factor is its inverse.
    #[verifier::type_invariant]
    pub open spec fn valid(self) -> bool {
        self.scalar() % 2 == 1 && is_inverse(self.scalar(), self.inverse())
    }

    /// The multiplication by `scalar`, if `scalar` is odd.
    pub fn new(scalar: u64) -> (result: Result<Self, PermutationError>)
        ensures
            match result {
                Ok(perm) => scalar % 2 == 1 && perm.scalar() == scalar && perm.wf(),
                Err(e) => scalar % 2 == 0 && e == PermutationError::InvalidScalar,
            },
    {
        match multiplicative_inverse(scalar) {
            Ok(inverse) => Ok(MultiplicativePermutation { scalar, inverse }),
            Err(_) => Err(PermutationError::InvalidScalar),
        }
    }

    /// Zero and one give the key away: 0 goes to 0, and 1 to the scalar.
    pub proof fn lemma_zero_and_one(&self)
        ensures
            self.spec_apply(0) == 0,
            self.spec_apply(1) == self.scalar(),
    {
        let s = self.scalar();
        assert(s * 0 == 0 && s * 1 == s) by (nonlinear_arith);
    }

    /// The multiplication by one maps every value to itself.
    pub proof fn lemma_one_is_identity(&self, x: u64)
        requires
            self.wf(),
            self.scalar() == 1,
        ensures
            self.spec_apply(x) == x,
            self.spec_unapply(x) == x,
    {
        assert(is_inverse(1, 1));
        lemma_inverse_unique(1, self.inverse(), 1);
        assert(1 * x == x) by (nonlinear_arith);
    }
}

impl Permutation for MultiplicativePermutation {
    open spec fn wf(&self) -> bool {
        self.valid()
    }

    open spec fn spec_apply(&self, input: u64) -> u64 {
        reduce(self.scalar() * input)
    }

    open spec fn spec_unapply(&self, output: u64) -> u64 {
        reduce(self.inverse() * output)
    }

    fn apply(&self, input: u64) -> (output: u64) {
        proof {
            use_type_invariant(self);
            lemma_wrapping_mul(self.scalar, input);
            self.lemma_unapply_apply(input);
        }
        self.scalar.wrapping_mul(input)
    }

    fn unapply(&self, output: u64) -> (input: u64) {
        proof {
            use_type_invariant(self);
            lemma_wrapping_mul(self.inverse, output);
            self.lemma_apply_unapply(output);
        }
        self.inverse.wrapping_mul(output)
    }

    proof fn lemma_unapply_apply(&self, input: u64) {
        lemma_inverse_cancels(self.scalar(), self.inverse(), input);
    }

    proof fn lemma_apply_unapply(&self, output: u64) {
        lemma_inverse_cancels(self.scalar(), self.inverse(), output);
    }
}

} // verus!
