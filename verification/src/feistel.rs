//! Permutation by a keyed round network.
//!
//! The 64-bit block is split into two halves. Each round replaces the pair
//! `(left, right)` by `(right, left ^ f(right, k))`, where `f` scrambles a
//! half under the round's key `k`. Such a round can be undone whatever `f`
//! is, so `f` is free to be a map that cannot itself be inverted or written as
//! a sum of its input bits: that is where the diffusion comes from.

use crate::permutation::Permutation;
use vstd::prelude::*;

verus! {

/// The number of rounds.
pub const ROUNDS: u32 = 8;

/// The upper 32 bits of a block.
pub open spec fn spec_high(block: u64) -> u32 {
    (block >> 32) as u32
}

/// The lower 32 bits of a block.
pub open spec fn spec_low(block: u64) -> u32 {
    (block & 0xffff_ffff) as u32
}

/// The block with the given upper and lower halves.
pub open spec fn spec_join(left: u32, right: u32) -> u64 {
    ((left as u64) << 32) | (right as u64)
}

/// The round function: scrambles `half` under `key` by two multiplications
/// modulo 2^32, each followed by folding the upper bits into the lower ones.
pub open spec fn spec_mix(half: u32, key: u32) -> u32 {
    let a = (half ^ key).wrapping_mul(0x9E37_79B1);
    let b = a ^ (a >> 15);
    let c = b.wrapping_mul(0x85EB_CA77);
    c ^ (c >> 13)
}

/// The key of a round: the halves of the key take turns, scrambled under the
/// round's number so that no two rounds share a key by construction.
pub open spec fn spec_round_key(key: u64, round: u32) -> u32 {
    if round % 2 == 0 {
        spec_mix(spec_low(key), round)
    } else {
        spec_mix(spec_high(key), round)
    }
}

/// One round forward.
pub open spec fn spec_round(state: (u32, u32), round_key: u32) -> (u32, u32) {
    (state.1, state.0 ^ spec_mix(state.1, round_key))
}

/// One round backward.
pub open spec fn spec_unround(state: (u32, u32), round_key: u32) -> (u32, u32) {
    (state.1 ^ spec_mix(state.0, round_key), state.0)
}

/// The rounds `0 .. n` forward, in rising order.
pub open spec fn spec_rounds(state: (u32, u32), key: u64, n: nat) -> (u32, u32)
    decreases n,
{
    if n == 0 {
        state
    } else {
        spec_round(spec_rounds(state, key, (n - 1) as nat), spec_round_key(key, (n - 1) as u32))
    }
}

/// The rounds `0 .. n` backward, in falling order.
pub open spec fn spec_unrounds(state: (u32, u32), key: u64, n: nat) -> (u32, u32)
    decreases n,
{
    if n == 0 {
        state
    } else {
        spec_unrounds(
            spec_unround(state, spec_round_key(key, (n - 1) as u32)),
            key,
            (n - 1) as nat,
        )
    }
}

/// Splitting a block and joining the halves gives the block back.
pub proof fn lemma_join_split(block: u64)
    ensures
        spec_join(spec_high(block), spec_low(block)) == block,
{
    assert((((block >> 32) as u32 as u64) << 32) | ((block & 0xffff_ffff) as u32 as u64) == block)
        by (bit_vector);
}

/// Joining two halves and splitting the block gives the halves back.
pub proof fn lemma_split_join(left: u32, right: u32)
    ensures
        spec_high(spec_join(left, right)) == left,
        spec_low(spec_join(left, right)) == right,
{
    assert(((((left as u64) << 32) | (right as u64)) >> 32) as u32 == left) by (bit_vector);
    assert(((((left as u64) << 32) | (right as u64)) & 0xffff_ffff) as u32 == right)
        by (bit_vector);
}

/// A round backward undoes a round forward and the other way round, whatever
/// the round function does.
pub proof fn lemma_round_unround(state: (u32, u32), round_key: u32)
    ensures
        spec_unround(spec_round(state, round_key), round_key) == state,
        spec_round(spec_unround(state, round_key), round_key) == state,
{
    let (left, right) = state;
    let forward = spec_mix(right, round_key);
    let backward = spec_mix(left, round_key);
    assert((left ^ forward) ^ forward == left) by (bit_vector);
    assert((right ^ backward) ^ backward == right) by (bit_vector);
}

/// The rounds backward undo the rounds forward.
pub proof fn lemma_unrounds_rounds(state: (u32, u32), key: u64, n: nat)
    ensures
        spec_unrounds(spec_rounds(state, key, n), key, n) == state,
    decreases n,
{
    if n > 0 {
        let before = spec_rounds(state, key, (n - 1) as nat);
        lemma_round_unround(before, spec_round_key(key, (n - 1) as u32));
        lemma_unrounds_rounds(state, key, (n - 1) as nat);
    }
}

/// The rounds forward redo the rounds backward.
pub proof fn lemma_rounds_unrounds(state: (u32, u32), key: u64, n: nat)
    ensures
        spec_rounds(spec_unrounds(state, key, n), key, n) == state,
    decreases n,
{
    if n > 0 {
        let round_key = spec_round_key(key, (n - 1) as u32);
        lemma_rounds_unrounds(spec_unround(state, round_key), key, (n - 1) as nat);
        lemma_round_unround(state, round_key);
    }
}

/// The upper 32 bits of a block.
fn high(block: u64) -> (half: u32)
    ensures
        half == spec_high(block),
{
    assert(block >> 32 <= 0xffff_ffff) by (bit_vector);
    (block >> 32) as u32
}

/// The lower 32 bits of a block.
fn low(block: u64) -> (half: u32)
    ensures
        half == spec_low(block),
{
    assert(block & 0xffff_ffff <= 0xffff_ffff) by (bit_vector);
    (block & 0xffff_ffff) as u32
}

/// The block with the given upper and lower halves.
fn join(left: u32, right: u32) -> (block: u64)
    ensures
        block == spec_join(left, right),
{
    ((left as u64) << 32) | (right as u64)
}

/// The round function.
fn mix(half: u32, key: u32) -> (out: u32)
    ensures
        out == spec_mix(half, key),
{
    let a = (half ^ key).wrapping_mul(0x9E37_79B1);
    let b = a ^ (a >> 15);
    let c = b.wrapping_mul(0x85EB_CA77);
    c ^ (c >> 13)
}

/// The key of a round.
fn round_key(key: u64, round: u32) -> (out: u32)
    ensures
        out == spec_round_key(key, round),
{
    if round % 2 == 0 {
        mix(low(key), round)
    } else {
        mix(high(key), round)
    }
}

/// A keyed round network of `ROUNDS` rounds on the two halves of the block.
///
/// Every key gives a permutation.
pub struct FeistelPermutation {
    key: u64,
}

impl FeistelPermutation {
    /// The key that the round keys are drawn from.
    pub closed spec fn key(&self) -> u64 {
        self.key
    }

    /// The round network under `key`.
    pub fn new(key: u64) -> (perm: Self)
        ensures
            perm.key() == key,
    {
        FeistelPermutation { key }
    }
}

impl Permutation for FeistelPermutation {
    open spec fn wf(&self) -> bool {
        true
    }

    open spec fn spec_apply(&self, input: u64) -> u64 {
        let state = spec_rounds((spec_high(input), spec_low(input)), self.key(), ROUNDS as nat);
        spec_join(state.0, state.1)
    }

    open spec fn spec_unapply(&self, output: u64) -> u64 {
        let state = spec_unrounds((spec_high(output), spec_low(output)), self.key(), ROUNDS as nat);
        spec_join(state.0, state.1)
    }

    fn apply(&self, input: u64) -> (output: u64) {
        let mut left = high(input);
        let mut right = low(input);
        let mut round: u32 = 0;
        while round < ROUNDS
            invariant
                round <= ROUNDS,
                (left, right) == spec_rounds(
                    (spec_high(input), spec_low(input)),
                    self.key(),
                    round as nat,
                ),
            decreases ROUNDS - round,
        {
            let mixed = left ^ mix(right, round_key(self.key, round));
            left = right;
            right = mixed;
            round += 1;
        }
        proof {
            self.lemma_unapply_apply(input);
        }
        join(left, right)
    }

    fn unapply(&self, output: u64) -> (input: u64) {
        let mut left = high(output);
        let mut right = low(output);
        let mut round: u32 = ROUNDS;
        while round > 0
            invariant
                round <= ROUNDS,
                spec_unrounds((left, right), self.key(), round as nat) == spec_unrounds(
                    (spec_high(output), spec_low(output)),
                    self.key(),
                    ROUNDS as nat,
                ),
            decreases round,
        {
            round -= 1;
            let mixed = right ^ mix(left, round_key(self.key, round));
            right = left;
            left = mixed;
        }
        proof {
            self.lemma_apply_unapply(output);
        }
        join(left, right)
    }

    proof fn lemma_unapply_apply(&self, input: u64) {
        let start = (spec_high(input), spec_low(input));
        let end = spec_rounds(start, self.key(), ROUNDS as nat);
        lemma_split_join(end.0, end.1);
        lemma_unrounds_rounds(start, self.key(), ROUNDS as nat);
        lemma_join_split(input);
    }

    proof fn lemma_apply_unapply(&self, output: u64) {
        let start = (spec_high(output), spec_low(output));
        let end = spec_unrounds(start, self.key(), ROUNDS as nat);
        lemma_split_join(end.0, end.1);
        lemma_rounds_unrounds(start, self.key(), ROUNDS as nat);
        lemma_join_split(output);
    }
}

} // verus!
