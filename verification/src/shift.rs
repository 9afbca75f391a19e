//! Permutation by adding a constant.

use crate::permutation::Permutation;
use crate::ring::{
    lemma_reduce_add, lemma_reduce_sub, lemma_wrapping_add, lemma_wrapping_sub, reduce,
};
use vstd::prelude::*;

verus! {

/// `x -> x + amount` modulo 2^64.
///
/// Every amount gives a permutation. It is a weak one: neighbours stay
/// neighbours, so sequential inputs give sequential outputs.
pub struct ShiftPermutation {
    amount: u64,
}

impl ShiftPermutation {
    /// The constant that is added.
    pub closed spec fn amount(&self) -> u64 {
        self.amount
    }

    /// The shift by `amount`.
    pub fn new(amount: u64) -> (perm: Self)
        ensures
            perm.amount() == amount,
    {
        ShiftPermutation { amount }
    }

    /// The successor of an input is mapped to the successor of its output.
    pub proof fn lemma_keeps_neighbours(&self, input: u64)
        ensures
            self.spec_apply(reduce(input + 1)) == reduce(self.spec_apply(input) + 1),
    {
        lemma_reduce_add(input + 1, self.amount() as int);
        lemma_reduce_add(input + self.amount(), 1);
    }

    /// The shift by zero maps every value to itself.
    pub proof fn lemma_zero_is_identity(&self, x: u64)
        requires
            self.amount() == 0,
        ensures
            self.spec_apply(x) == x,
            self.spec_unapply(x) == x,
    {
    }
}

impl Permutation for ShiftPermutation {
    open spec fn wf(&self) -> bool {
        true
    }

    open spec fn spec_apply(&self, input: u64) -> u64 {
        reduce(input + self.amount())
    }

    open spec fn spec_unapply(&self, output: u64) -> u64 {
        reduce(output - self.amount())
    }

    fn apply(&self, input: u64) -> (output: u64) {
        proof {
            lemma_wrapping_add(input, self.amount);
            self.lemma_unapply_apply(input);
        }
        input.wrapping_add(self.amount)
    }

    fn unapply(&self, output: u64) -> (input: u64) {
        proof {
            lemma_wrapping_sub(output, self.amount);
            self.lemma_apply_unapply(output);
        }
        output.wrapping_sub(self.amount)
    }

    proof fn lemma_unapply_apply(&self, input: u64) {
        lemma_reduce_sub(input + self.amount(), self.amount() as int);
    }

    proof fn lemma_apply_unapply(&self, output: u64) {
        lemma_reduce_add(output - self.amount(), self.amount() as int);
    }
}

} // verus!
