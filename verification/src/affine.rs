//! Permutation by multiplying with a unit of the ring and adding a constant.

use crate::error::PermutationError;
use crate::multiplicative::MultiplicativePermutation;
use crate::permutation::Permutation;
use crate::prime::{is_inverse, lemma_inverse_cancels, multiplicative_inverse};
use crate::ring::{
    lemma_reduce_add, lemma_reduce_mul, lemma_reduce_sub, lemma_wrapping_add, lemma_wrapping_mul,
    lemma_wrapping_sub, reduce,
};
use crate::shift::ShiftPermutation;
use vstd::prelude::*;

verus! {

/// `x -> x * scalar + offset` modulo 2^64, for an odd `scalar`: a
/// multiplication followed by a shift.
///
/// The offset hides what the multiplication alone gives away at 0 and 1. What
/// remains is that the outputs of consecutive inputs lie exactly `scalar`
/// apart: two of them are enough to tell every later one.
pub struct AffinePermutation {
    scalar: u64,
    inverse: u64,
    offset: u64,
}

impl AffinePermutation {
    /// The factor of the forward map.
    pub closed spec fn scalar(&self) -> u64 {
        self.scalar
    }

    /// The factor of the inverse map.
    pub closed spec fn inverse(&self) -> u64 {
        self.inverse
    }

    /// What holds of every value that exists at run time: the scalar is odd,
    /// and the inverse map's factor is its inverse.
    #[verifier::type_invariant]
    pub open spec fn valid(self) -> bool {
        self.scalar() % 2 == 1 && is_inverse(self.scalar(), self.inverse())
    }

    /// The constant that the forward map adds.
    pub closed spec fn offset(&self) -> u64 {
        self.offset
    }

    /// The map `x -> x * scalar + offset`, if `scalar` is odd.
    pub fn new(scalar: u64, offset: u64) -> (result: Result<Self, PermutationError>)
        ensures
            match result {
                Ok(perm) => {
                    &&& scalar % 2 == 1
                    &&& perm.scalar() == scalar
                    &&& perm.offset() == offset
                    &&& perm.wf()
                },
                Err(e) => scalar % 2 == 0 && e == PermutationError::InvalidScalar,
            },
    {
        match multiplicative_inverse(scalar) {
            Ok(inverse) => Ok(AffinePermutation { scalar, inverse, offset }),
            Err(_) => Err(PermutationError::InvalidScalar),
        }
    }

    /// The forward map reads its input modulo 2^64 only.
    pub proof fn lemma_apply_reduced(&self, n: int)
        ensures
            self.spec_apply(reduce(n)) == reduce(self.scalar() * n + self.offset()),
    {
        let s = self.scalar();
        let o = self.offset();
        lemma_reduce_mul(s as int, n);
        lemma_reduce_add(s * reduce(n), o as int);
        lemma_reduce_add(s * n, o as int);
    }

    /// 0 goes to the offset, and 1 to the scalar plus the offset.
    pub proof fn lemma_zero_and_one(&self)
        ensures
            self.spec_apply(0) == self.offset(),
            self.spec_apply(1) == reduce(self.scalar() + self.offset()),
    {
        let s = self.scalar();
        assert(s * 0 == 0 && s * 1 == s) by (nonlinear_arith);
    }

    /// The outputs of two consecutive inputs lie exactly `scalar` apart.
    pub proof fn lemma_constant_step(&self, n: u64)
        ensures
            reduce(self.spec_apply(reduce(n + 1)) - self.spec_apply(n)) == self.scalar(),
            self.spec_apply(reduce(n + 1)) == reduce(self.spec_apply(n) + self.scalar()),
    {
        let s = self.scalar();
        let o = self.offset();
        self.lemma_apply_reduced(n + 1);
        assert(s * (n + 1) + o == (s * n + o) + s) by (nonlinear_arith);
        lemma_reduce_add(s * n + o, s as int);
        lemma_reduce_sub((s * n + o) + s, s * n + o);
        lemma_reduce_sub(((s * n + o) + s) as int, self.spec_apply(n) as int);
    }

    /// Whoever has seen the outputs of `n` and `n + 1` knows the output of
    /// `n + 2`: it is the second plus the difference of the two.
    pub proof fn lemma_next_is_predictable(&self, n: u64)
        ensures
            ({
                let first = self.spec_apply(n);
                let second = self.spec_apply(reduce(n + 1));
                self.spec_apply(reduce(n + 2)) == reduce(second + reduce(second - first))
            }),
    {
        let next = reduce(n + 1);
        self.lemma_constant_step(n);
        self.lemma_constant_step(next);
        lemma_reduce_add(n + 1, 1);
    }

    /// The forward map is a multiplication by the scalar followed by a shift
    /// by the offset, and the inverse map undoes the two in reverse order.
    pub proof fn lemma_multiply_then_shift(
        &self,
        multiply: MultiplicativePermutation,
        shift: ShiftPermutation,
        x: u64,
    )
        requires
            multiply.scalar() == self.scalar(),
            multiply.inverse() == self.inverse(),
            shift.amount() == self.offset(),
        ensures
            self.spec_apply(x) == shift.spec_apply(multiply.spec_apply(x)),
            self.spec_unapply(x) == multiply.spec_unapply(shift.spec_unapply(x)),
    {
        lemma_reduce_add(self.scalar() * x, self.offset() as int);
        lemma_reduce_mul(self.inverse() as int, x - self.offset());
    }
}

impl Permutation for AffinePermutation {
    open spec fn wf(&self) -> bool {
        self.valid()
    }

    open spec fn spec_apply(&self, input: u64) -> u64 {
        reduce(self.scalar() * input + self.offset())
    }

    open spec fn spec_unapply(&self, output: u64) -> u64 {
        reduce(self.inverse() * (output - self.offset()))
    }

    fn apply(&self, input: u64) -> (output: u64) {
        proof {
            use_type_invariant(self);
            lemma_wrapping_mul(self.scalar, input);
            lemma_wrapping_add(self.scalar.wrapping_mul(input), self.offset);
            lemma_reduce_add(self.scalar * input, self.offset as int);
            self.lemma_unapply_apply(input);
        }
        self.scalar.wrapping_mul(input).wrapping_add(self.offset)
    }

    fn unapply(&self, output: u64) -> (input: u64) {
        proof {
            use_type_invariant(self);
            lemma_wrapping_sub(output, self.offset);
            lemma_wrapping_mul(self.inverse, output.wrapping_sub(self.offset));
            lemma_reduce_mul(self.inverse as int, output - self.offset);
            self.lemma_apply_unapply(output);
        }
        self.inverse.wrapping_mul(output.wrapping_sub(self.offset))
    }

    proof fn lemma_unapply_apply(&self, input: u64) {
        let s = self.scalar();
        let o = self.offset();
        let output = self.spec_apply(input);
        lemma_reduce_mul(self.inverse() as int, output - o);
        lemma_reduce_sub(s * input + o, o as int);
        lemma_inverse_cancels(s, self.inverse(), input);
    }

    proof fn lemma_apply_unapply(&self, output: u64) {
        let s = self.scalar();
        let o = self.offset();
        let shifted = reduce(output - o);
        lemma_reduce_mul(self.inverse() as int, output - o);
        lemma_reduce_add(s * self.spec_unapply(output), o as int);
        lemma_inverse_cancels(s, self.inverse(), shifted);
        lemma_reduce_add(output - o, o as int);
    }
}

} // verus!
