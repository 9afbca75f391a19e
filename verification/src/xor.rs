//! Permutation by flipping a fixed set of bits.

use crate::permutation::Permutation;
use vstd::prelude::*;

verus! {

/// `x -> x ^ key`.
///
/// Every key gives a permutation, and each is its own inverse. It is a weak
/// one: each input bit decides the output bit in the same place and no other.
pub struct XorPermutation {
    key: u64,
}

impl XorPermutation {
    /// The bits that are flipped.
    pub closed spec fn key(&self) -> u64 {
        self.key
    }

    /// The permutation that flips the bits set in `key`.
    pub fn new(key: u64) -> (perm: Self)
        ensures
            perm.key() == key,
    {
        XorPermutation { key }
    }

    /// Undoing is the same map as doing.
    pub proof fn lemma_self_inverse(&self, x: u64)
        ensures
            self.spec_unapply(x) == self.spec_apply(x),
    {
    }

    /// Inputs that differ in the bits of `mask` have outputs that differ in
    /// exactly those bits. With `mask == 1`: flipping the lowest bit of the
    /// input flips the lowest bit of the output and nothing else.
    pub proof fn lemma_keeps_bit_positions(&self, input: u64, mask: u64)
        ensures
            self.spec_apply(input ^ mask) == self.spec_apply(input) ^ mask,
    {
        let key = self.key();
        assert((input ^ mask) ^ key == (input ^ key) ^ mask) by (bit_vector);
    }
}

impl Permutation for XorPermutation {
    open spec fn wf(&self) -> bool {
        true
    }

    open spec fn spec_apply(&self, input: u64) -> u64 {
        input ^ self.key()
    }

    open spec fn spec_unapply(&self, output: u64) -> u64 {
        output ^ self.key()
    }

    fn apply(&self, input: u64) -> (output: u64) {
        proof {
            self.lemma_unapply_apply(input);
        }
        input ^ self.key
    }

    fn unapply(&self, output: u64) -> (input: u64) {
        proof {
            self.lemma_apply_unapply(output);
        }
        output ^ self.key
    }

    proof fn lemma_unapply_apply(&self, input: u64) {
        let key = self.key();
        assert((input ^ key) ^ key == input) by (bit_vector);
    }

    proof fn lemma_apply_unapply(&self, output: u64) {
        let key = self.key();
        assert((output ^ key) ^ key == output) by (bit_vector);
    }
}

} // verus!
