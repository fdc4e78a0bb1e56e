//! The decisions of the stages; running the target stays with the caller.
use vstd::prelude::*;
use crate::inputs::BytesInput;
use crate::mutations::only_rand_changed;
use crate::observers::CmpValuesMetadata;
use crate::state::StdState;

verus! {

/// A stage that mutates the selected input a random number of times and
/// has each mutant executed and evaluated.
#[derive(Debug)]
pub struct StdMutationalStage {}

impl StdMutationalStage {
    /// Creates a new [`StdMutationalStage`].
    pub fn new() -> (r: StdMutationalStage) {
        StdMutationalStage {}
    }

    /// How many mutants to try: `1 + below(128)`.
    pub fn iterations(&self, state: &mut StdState) -> (r: u64)
        ensures
            1 <= r <= 128,
            r == 1 + old(state).rand.x_state % 128,
            only_rand_changed(*old(state), *final(state)),
    {
        1 + state.rand.below(128)
    }
}

/// Stores the comparisons of a tracing run, replacing those of earlier runs.
pub fn record_cmp_values(state: &mut StdState, cmps: CmpValuesMetadata)
    ensures
        final(state).metadata.cmp_values == Some(cmps),
        final(state).metadata.tokens == old(state).metadata.tokens,
        final(state).corpus == old(state).corpus,
        final(state).solutions == old(state).solutions,
        final(state).rand == old(state).rand,
        final(state).max_size == old(state).max_size,
{
    state.metadata.cmp_values = Some(cmps);
}

/// `s` with each substitution `(index, value)` applied in order; indices
/// past the end are ignored.
pub open spec fn substituted(s: Seq<u8>, subs: Seq<(usize, u8)>) -> Seq<u8>
    decreases subs.len(),
{
    if subs.len() == 0 {
        s
    } else {
        let t = substituted(s, subs.drop_last());
        let (i, v) = subs.last();
        if i < t.len() {
            t.update(i as int, v)
        } else {
            t
        }
    }
}

/// A copy of `input` with a solver's byte substitutions applied.
pub fn apply_substitutions(input: &BytesInput, subs: &Vec<(usize, u8)>) -> (r: BytesInput)
    ensures
        r@ == substituted(input@, subs@),
{
    let mut bytes = input.bytes.clone();
    assert(bytes@ =~= input@);
    let mut k: usize = 0;
    while k < subs.len()
        invariant
            k <= subs@.len(),
            bytes@ == substituted(input@, subs@.subrange(0, k as int)),
        decreases subs@.len() - k,
    {
        let (i, v) = subs[k];
        proof {
            assert(subs@.subrange(0, k + 1).drop_last() =~= subs@.subrange(0, k as int));
        }
        if i < bytes.len() {
            bytes.set(i, v);
        }
        k = k + 1;
    }
    assert(subs@.subrange(0, k as int) =~= subs@);
    BytesInput { bytes }
}

} // verus!
