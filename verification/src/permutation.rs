//! What every permutation offers.

use vstd::prelude::*;

verus! {

/// A bijection of the 64-bit unsigned integers onto themselves, given by a
/// forward map and the map that undoes it.
///
/// Both maps are total: no input is refused and every `u64` is an output.
/// The key material is bound when the value is built and never changes.
pub trait Permutation {
    /// The key material is one from which a value can be built.
    spec fn wf(&self) -> bool;

    /// The forward map.
    spec fn spec_apply(&self, input: u64) -> u64;

    /// The inverse map.
    spec fn spec_unapply(&self, output: u64) -> u64;

    /// Maps `input` forward. The result is one that `unapply` takes back to
    /// `input`.
    fn apply(&self, input: u64) -> (output: u64)
        ensures
            output == self.spec_apply(input),
            self.spec_unapply(output) == input,
    ;

    /// Maps `output` back. The result is the one value that `apply` takes to
    /// `output`.
    fn unapply(&self, output: u64) -> (input: u64)
        ensures
            input == self.spec_unapply(output),
            self.spec_apply(input) == output,
    ;

    /// Undoing a forward step gives back where it started.
    proof fn lemma_unapply_apply(&self, input: u64)
        requires
            self.wf(),
        ensures
            self.spec_unapply(self.spec_apply(input)) == input,
    ;

    /// Every value is reached: redoing an undone step gives it back.
    proof fn lemma_apply_unapply(&self, output: u64)
        requires
            self.wf(),
        ensures
            self.spec_apply(self.spec_unapply(output)) == output,
    ;
}

} // verus!
