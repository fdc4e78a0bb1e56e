//! The scheduled (havoc) mutator: stacks randomly chosen mutations.
use vstd::prelude::*;
use crate::error::Error;
use crate::inputs::BytesInput;
use crate::mutations::{
    BitFlipMutator,
    ByteFlipMutator,
    ByteIncMutator,
    ByteDecMutator,
    ByteNegMutator,
    ByteRandMutator,
    ByteAddMutator,
    WordAddMutator,
    DwordAddMutator,
    QwordAddMutator,
    ByteInterestingMutator,
    WordInterestingMutator,
    DwordInterestingMutator,
    BytesDeleteMutator,
    BytesExpandMutator,
    BytesInsertMutator,
    BytesRandInsertMutator,
    BytesSetMutator,
    BytesRandSetMutator,
    BytesCopyMutator,
    BytesInsertCopyMutator,
    BytesSwapMutator,
    CrossoverInsertMutator,
    CrossoverReplaceMutator,
    SpliceMutator,
    MutationResult, Mutator, only_rand_changed,
};
use crate::mutations::{
    apply_op, arith_window, clamp_growth, delete_at, differs_at, drawn, entry_input, filled, insert_at,
    interesting_for, interesting_window, other_entry, overwrite, two_diffs, ByteOp, ARITH_MAX,
};
use crate::rands::{after_pick, pick};
use crate::token_mutations::{
    cmps, dict, i2s_cmp, i2s_offset, no_replacement_between, replacement, token_room,
};
use crate::state::StdState;
use crate::token_mutations::{I2SRandReplace, TokenInsert, TokenReplace};

verus! {

/// One of the mutations of this library.
#[derive(Debug)]
pub enum AnyMutator {
    BitFlip(BitFlipMutator),
    ByteFlip(ByteFlipMutator),
    ByteInc(ByteIncMutator),
    ByteDec(ByteDecMutator),
    ByteNeg(ByteNegMutator),
    ByteRand(ByteRandMutator),
    ByteAdd(ByteAddMutator),
    WordAdd(WordAddMutator),
    DwordAdd(DwordAddMutator),
    QwordAdd(QwordAddMutator),
    ByteInteresting(ByteInterestingMutator),
    WordInteresting(WordInterestingMutator),
    DwordInteresting(DwordInterestingMutator),
    BytesDelete(BytesDeleteMutator),
    BytesExpand(BytesExpandMutator),
    BytesInsert(BytesInsertMutator),
    BytesRandInsert(BytesRandInsertMutator),
    BytesSet(BytesSetMutator),
    BytesRandSet(BytesRandSetMutator),
    BytesCopy(BytesCopyMutator),
    BytesInsertCopy(BytesInsertCopyMutator),
    BytesSwap(BytesSwapMutator),
    CrossoverInsert(CrossoverInsertMutator),
    CrossoverReplace(CrossoverReplaceMutator),
    Splice(SpliceMutator),
    TokenInsert(TokenInsert),
    TokenReplace(TokenReplace),
    I2SRandReplace(I2SRandReplace),
}

/// Whether the mutation reads other corpus entries, and so may report a
/// removed one.
pub open spec fn may_fail(m: AnyMutator) -> bool {
    m is CrossoverInsert || m is CrossoverReplace || m is Splice
}

impl Mutator for AnyMutator {
    /// Mutates as the wrapped mutation does.
    fn mutate(&mut self, state: &mut StdState, input: &mut BytesInput, stage_idx: i32) -> (r:
        Result<MutationResult, Error>)
        ensures
            may_fail(*final(self)) == may_fail(*old(self)),
            !may_fail(*old(self)) ==> r is Ok,
            *old(self) is BitFlip ==> r is Ok,
            *old(self) is ByteFlip ==> r is Ok,
            *old(self) is ByteInc ==> r is Ok,
            *old(self) is ByteDec ==> r is Ok,
            *old(self) is ByteNeg ==> r is Ok,
            *old(self) is ByteRand ==> r is Ok,
            *old(self) is ByteAdd ==> r is Ok,
            *old(self) is WordAdd ==> r is Ok,
            *old(self) is DwordAdd ==> r is Ok,
            *old(self) is QwordAdd ==> r is Ok,
            *old(self) is ByteInteresting ==> r is Ok,
            *old(self) is WordInteresting ==> r is Ok,
            *old(self) is DwordInteresting ==> r is Ok,
            *old(self) is BytesDelete ==> r is Ok,
            *old(self) is BytesExpand ==> r is Ok,
            *old(self) is BytesInsert ==> r is Ok,
            *old(self) is BytesRandInsert ==> r is Ok,
            *old(self) is BytesSet ==> r is Ok,
            *old(self) is BytesRandSet ==> r is Ok,
            *old(self) is BytesCopy ==> r is Ok,
            *old(self) is BytesInsertCopy ==> r is Ok,
            *old(self) is BytesSwap ==> r is Ok,
            *old(self) is TokenInsert ==> r is Ok,
            *old(self) is TokenReplace ==> r is Ok,
            *old(self) is I2SRandReplace ==> r is Ok,
            *old(self) is CrossoverInsert ==> (old(state).corpus.entries@.len() > 0 && old(state).corpus.current
                == Some(drawn(old(state).rand, old(state).corpus) as usize) ==> r matches Ok(
                MutationResult::Skipped,
            )),
            *old(self) is CrossoverReplace ==> (old(state).corpus.entries@.len() > 0 && old(state).corpus.current
                == Some(drawn(old(state).rand, old(state).corpus) as usize) ==> r matches Ok(
                MutationResult::Skipped,
            )),
            *old(self) is Splice ==> (old(state).corpus.entries@.len() > 0 && old(state).corpus.current
                == Some(drawn(old(state).rand, old(state).corpus) as usize) ==> r matches Ok(
                MutationResult::Skipped,
            )),
            *old(self) is BitFlip ==> ((old(input).bytes@.len() == 0) <==> r == Ok::<MutationResult, Error>(MutationResult::Skipped)),
            *old(self) is BitFlip ==> (r == Ok::<MutationResult, Error>(MutationResult::Skipped) ==> final(input).bytes@ == old(input).bytes@),
            *old(self) is BitFlip ==> (r == Ok::<MutationResult, Error>(MutationResult::Mutated) ==> exists|i: int, b: u8| 0 <= i < old(input).bytes@.len() && b < 8 && final(input).bytes@ == old(input).bytes@.update( i, old(input).bytes@[i] ^ (1u8 << b), )),
            *old(self) is ByteFlip ==> ((old(input).bytes@.len() == 0) <==> r == Ok::<MutationResult, Error>(MutationResult::Skipped)),
            *old(self) is ByteFlip ==> (r == Ok::<MutationResult, Error>(MutationResult::Skipped) ==> final(input).bytes@ == old(input).bytes@),
            *old(self) is ByteFlip ==> (r == Ok::<MutationResult, Error>(MutationResult::Mutated) ==> exists|i: int| 0 <= i < old(input).bytes@.len() && final(input).bytes@ == old(input).bytes@.update( i, apply_op(ByteOp::Flip, old(input).bytes@[i]), )),
            *old(self) is ByteInc ==> ((old(input).bytes@.len() == 0) <==> r == Ok::<MutationResult, Error>(MutationResult::Skipped)),
            *old(self) is ByteInc ==> (r == Ok::<MutationResult, Error>(MutationResult::Skipped) ==> final(input).bytes@ == old(input).bytes@),
            *old(self) is ByteInc ==> (r == Ok::<MutationResult, Error>(MutationResult::Mutated) ==> exists|i: int| 0 <= i < old(input).bytes@.len() && final(input).bytes@ == old(input).bytes@.update( i, apply_op(ByteOp::Inc, old(input).bytes@[i]), )),
            *old(self) is ByteDec ==> ((old(input).bytes@.len() == 0) <==> r == Ok::<MutationResult, Error>(MutationResult::Skipped)),
            *old(self) is ByteDec ==> (r == Ok::<MutationResult, Error>(MutationResult::Skipped) ==> final(input).bytes@ == old(input).bytes@),
            *old(self) is ByteDec ==> (r == Ok::<MutationResult, Error>(MutationResult::Mutated) ==> exists|i: int| 0 <= i < old(input).bytes@.len() && final(input).bytes@ == old(input).bytes@.update( i, apply_op(ByteOp::Dec, old(input).bytes@[i]), )),
            *old(self) is ByteNeg ==> ((old(input).bytes@.len() == 0) <==> r == Ok::<MutationResult, Error>(MutationResult::Skipped)),
            *old(self) is ByteNeg ==> (r == Ok::<MutationResult, Error>(MutationResult::Skipped) ==> final(input).bytes@ == old(input).bytes@),
            *old(self) is ByteNeg ==> (r == Ok::<MutationResult, Error>(MutationResult::Mutated) ==> exists|i: int| 0 <= i < old(input).bytes@.len() && final(input).bytes@ == old(input).bytes@.update( i, apply_op(ByteOp::Neg, old(input).bytes@[i]), )),
            *old(self) is ByteRand ==> ((old(input).bytes@.len() == 0) <==> r == Ok::<MutationResult, Error>(MutationResult::Skipped)),
            *old(self) is ByteRand ==> (r == Ok::<MutationResult, Error>(MutationResult::Skipped) ==> final(input).bytes@ == old(input).bytes@),
            *old(self) is ByteRand ==> (r == Ok::<MutationResult, Error>(MutationResult::Mutated) ==> exists|i: int, v: u8| 0 <= i < old(input).bytes@.len() && final(input).bytes@ == old(input).bytes@.update(i, v)),
            *old(self) is ByteAdd ==> ((old(input).bytes@.len() < 1) <==> r == Ok::<MutationResult, Error>(MutationResult::Skipped)),
            *old(self) is ByteAdd ==> (r == Ok::<MutationResult, Error>(MutationResult::Skipped) ==> final(input).bytes@ == old(input).bytes@),
            *old(self) is ByteAdd ==> (r == Ok::<MutationResult, Error>(MutationResult::Mutated) ==> exists|idx: int, n: u64, op: u64| #![trigger arith_window(old(input).bytes@, idx, 1 as nat, n, op)] 0 <= idx && idx + 1 <= old(input).bytes@.len() && 1 <= n <= ARITH_MAX && op < 4 && final(input).bytes@ == overwrite(old(input).bytes@, idx, arith_window(old(input).bytes@, idx, 1 as nat, n, op))),
            *old(self) is WordAdd ==> ((old(input).bytes@.len() < 2) <==> r == Ok::<MutationResult, Error>(MutationResult::Skipped)),
            *old(self) is WordAdd ==> (r == Ok::<MutationResult, Error>(MutationResult::Skipped) ==> final(input).bytes@ == old(input).bytes@),
            *old(self) is WordAdd ==> (r == Ok::<MutationResult, Error>(MutationResult::Mutated) ==> exists|idx: int, n: u64, op: u64| #![trigger arith_window(old(input).bytes@, idx, 2 as nat, n, op)] 0 <= idx && idx + 2 <= old(input).bytes@.len() && 1 <= n <= ARITH_MAX && op < 4 && final(input).bytes@ == overwrite(old(input).bytes@, idx, arith_window(old(input).bytes@, idx, 2 as nat, n, op))),
            *old(self) is DwordAdd ==> ((old(input).bytes@.len() < 4) <==> r == Ok::<MutationResult, Error>(MutationResult::Skipped)),
            *old(self) is DwordAdd ==> (r == Ok::<MutationResult, Error>(MutationResult::Skipped) ==> final(input).bytes@ == old(input).bytes@),
            *old(self) is DwordAdd ==> (r == Ok::<MutationResult, Error>(MutationResult::Mutated) ==> exists|idx: int, n: u64, op: u64| #![trigger arith_window(old(input).bytes@, idx, 4 as nat, n, op)] 0 <= idx && idx + 4 <= old(input).bytes@.len() && 1 <= n <= ARITH_MAX && op < 4 && final(input).bytes@ == overwrite(old(input).bytes@, idx, arith_window(old(input).bytes@, idx, 4 as nat, n, op))),
            *old(self) is QwordAdd ==> ((old(input).bytes@.len() < 8) <==> r == Ok::<MutationResult, Error>(MutationResult::Skipped)),
            *old(self) is QwordAdd ==> (r == Ok::<MutationResult, Error>(MutationResult::Skipped) ==> final(input).bytes@ == old(input).bytes@),
            *old(self) is QwordAdd ==> (r == Ok::<MutationResult, Error>(MutationResult::Mutated) ==> exists|idx: int, n: u64, op: u64| #![trigger arith_window(old(input).bytes@, idx, 8 as nat, n, op)] 0 <= idx && idx + 8 <= old(input).bytes@.len() && 1 <= n <= ARITH_MAX && op < 4 && final(input).bytes@ == overwrite(old(input).bytes@, idx, arith_window(old(input).bytes@, idx, 8 as nat, n, op))),
            *old(self) is ByteInteresting ==> ((old(input).bytes@.len() < 1) <==> r == Ok::<MutationResult, Error>(MutationResult::Skipped)),
            *old(self) is ByteInteresting ==> (r == Ok::<MutationResult, Error>(MutationResult::Skipped) ==> final(input).bytes@ == old(input).bytes@),
            *old(self) is ByteInteresting ==> (r == Ok::<MutationResult, Error>(MutationResult::Mutated) ==> exists|idx: int, k: int, big: bool| #![trigger overwrite(old(input).bytes@, idx, interesting_window(1 as nat, k, big))] 0 <= idx && idx + 1 <= old(input).bytes@.len() && 0 <= k < interesting_for(1 as nat).len() && final(input).bytes@ == overwrite(old(input).bytes@, idx, interesting_window(1 as nat, k, big))),
            *old(self) is WordInteresting ==> ((old(input).bytes@.len() < 2) <==> r == Ok::<MutationResult, Error>(MutationResult::Skipped)),
            *old(self) is WordInteresting ==> (r == Ok::<MutationResult, Error>(MutationResult::Skipped) ==> final(input).bytes@ == old(input).bytes@),
            *old(self) is WordInteresting ==> (r == Ok::<MutationResult, Error>(MutationResult::Mutated) ==> exists|idx: int, k: int, big: bool| #![trigger overwrite(old(input).bytes@, idx, interesting_window(2 as nat, k, big))] 0 <= idx && idx + 2 <= old(input).bytes@.len() && 0 <= k < interesting_for(2 as nat).len() && final(input).bytes@ == overwrite(old(input).bytes@, idx, interesting_window(2 as nat, k, big))),
            *old(self) is DwordInteresting ==> ((old(input).bytes@.len() < 4) <==> r == Ok::<MutationResult, Error>(MutationResult::Skipped)),
            *old(self) is DwordInteresting ==> (r == Ok::<MutationResult, Error>(MutationResult::Skipped) ==> final(input).bytes@ == old(input).bytes@),
            *old(self) is DwordInteresting ==> (r == Ok::<MutationResult, Error>(MutationResult::Mutated) ==> exists|idx: int, k: int, big: bool| #![trigger overwrite(old(input).bytes@, idx, interesting_window(4 as nat, k, big))] 0 <= idx && idx + 4 <= old(input).bytes@.len() && 0 <= k < interesting_for(4 as nat).len() && final(input).bytes@ == overwrite(old(input).bytes@, idx, interesting_window(4 as nat, k, big))),
            *old(self) is BytesDelete ==> ((old(input).bytes@.len() <= 2) <==> r == Ok::<MutationResult, Error>(MutationResult::Skipped)),
            *old(self) is BytesDelete ==> (r == Ok::<MutationResult, Error>(MutationResult::Skipped) ==> final(input).bytes@ == old(input).bytes@),
            *old(self) is BytesDelete ==> (r == Ok::<MutationResult, Error>(MutationResult::Mutated) ==> exists|off: int, len: int| 0 <= off < old(input).bytes@.len() && 0 <= len && off + len < old(input).bytes@.len() && final(input).bytes@ == delete_at(old(input).bytes@, off, len)),
            *old(self) is BytesExpand ==> ((old(input).bytes@.len() >= old(state).max_size) <==> r == Ok::<MutationResult, Error>(MutationResult::Skipped)),
            *old(self) is BytesExpand ==> (r == Ok::<MutationResult, Error>(MutationResult::Skipped) ==> final(input).bytes@ == old(input).bytes@),
            *old(self) is BytesExpand ==> (r == Ok::<MutationResult, Error>(MutationResult::Mutated) ==> final(input).bytes@.len() <= old(state).max_size && exists|off: int, len: nat| 0 <= off <= old(input).bytes@.len() && 1 <= len <= 16 && final(input).bytes@ == insert_at( old(input).bytes@, off, filled(len, 0u8), )),
            *old(self) is BytesInsert ==> ((old(input).bytes@.len() == 0 || old(input).bytes@.len() >= old(state).max_size) <==> r == Ok::<MutationResult, Error>(MutationResult::Skipped)),
            *old(self) is BytesInsert ==> (r == Ok::<MutationResult, Error>(MutationResult::Skipped) ==> final(input).bytes@ == old(input).bytes@),
            *old(self) is BytesInsert ==> (r == Ok::<MutationResult, Error>(MutationResult::Mutated) ==> final(input).bytes@.len() <= old(state).max_size && exists| off: int, len: nat, src: int, | #![trigger insert_at(old(input).bytes@, off, filled(len, old(input).bytes@[src]))] 0 <= off <= old(input).bytes@.len() && 1 <= len <= 16 && 0 <= src < old(input).bytes@.len() && final(input).bytes@ == insert_at(old(input).bytes@, off, filled(len, old(input).bytes@[src]))),
            *old(self) is BytesRandInsert ==> ((old(input).bytes@.len() >= old(state).max_size) <==> r == Ok::<MutationResult, Error>(MutationResult::Skipped)),
            *old(self) is BytesRandInsert ==> (r == Ok::<MutationResult, Error>(MutationResult::Skipped) ==> final(input).bytes@ == old(input).bytes@),
            *old(self) is BytesRandInsert ==> (r == Ok::<MutationResult, Error>(MutationResult::Mutated) ==> final(input).bytes@.len() <= old(state).max_size && exists|off: int, len: nat, val: u8| 0 <= off <= old(input).bytes@.len() && 1 <= len <= 16 && final(input).bytes@ == insert_at( old(input).bytes@, off, filled(len, val), )),
            *old(self) is BytesSet ==> ((old(input).bytes@.len() == 0) <==> r == Ok::<MutationResult, Error>(MutationResult::Skipped)),
            *old(self) is BytesSet ==> (r == Ok::<MutationResult, Error>(MutationResult::Skipped) ==> final(input).bytes@ == old(input).bytes@),
            *old(self) is BytesSet ==> (r == Ok::<MutationResult, Error>(MutationResult::Mutated) ==> exists|off: int, len: nat, src: int| #![trigger overwrite(old(input).bytes@, off, filled(len, old(input).bytes@[src]))] 0 <= off && 1 <= len <= 16 && off + len <= old(input).bytes@.len() && 0 <= src < old(input).bytes@.len() && final(input).bytes@ == overwrite( old(input).bytes@, off, filled(len, old(input).bytes@[src]), )),
            *old(self) is BytesRandSet ==> ((old(input).bytes@.len() == 0) <==> r == Ok::<MutationResult, Error>(MutationResult::Skipped)),
            *old(self) is BytesRandSet ==> (r == Ok::<MutationResult, Error>(MutationResult::Skipped) ==> final(input).bytes@ == old(input).bytes@),
            *old(self) is BytesRandSet ==> (r == Ok::<MutationResult, Error>(MutationResult::Mutated) ==> exists|off: int, len: nat, val: u8| 0 <= off && 1 <= len <= 16 && off + len <= old(input).bytes@.len() && final(input).bytes@ == overwrite(old(input).bytes@, off, filled(len, val))),
            *old(self) is BytesCopy ==> ((old(input).bytes@.len() <= 1) <==> r == Ok::<MutationResult, Error>(MutationResult::Skipped)),
            *old(self) is BytesCopy ==> (r == Ok::<MutationResult, Error>(MutationResult::Skipped) ==> final(input).bytes@ == old(input).bytes@),
            *old(self) is BytesCopy ==> (r == Ok::<MutationResult, Error>(MutationResult::Mutated) ==> exists|from: int, to: int, len: int| #![trigger overwrite(old(input).bytes@, to, old(input).bytes@.subrange(from, from + len))] 0 <= from && 0 <= to && 1 <= len && from + len <= old(input).bytes@.len() && to + len <= old(input).bytes@.len() && final(input).bytes@ == overwrite( old(input).bytes@, to, old(input).bytes@.subrange(from, from + len), )),
            *old(self) is BytesInsertCopy ==> ((old(input).bytes@.len() == 0 || old(input).bytes@.len() >= old(state).max_size) <==> r == Ok::<MutationResult, Error>(MutationResult::Skipped)),
            *old(self) is BytesInsertCopy ==> (r == Ok::<MutationResult, Error>(MutationResult::Skipped) ==> final(input).bytes@ == old(input).bytes@),
            *old(self) is BytesInsertCopy ==> (r == Ok::<MutationResult, Error>(MutationResult::Mutated) ==> exists|off: int, from: int, len: int| #![trigger insert_at(old(input).bytes@, off, old(input).bytes@.subrange(from, from + len))] 0 <= off <= old(input).bytes@.len() && 0 <= from && 1 <= len <= 16 && from + len <= old(input).bytes@.len() && final(input).bytes@ == insert_at( old(input).bytes@, off, old(input).bytes@.subrange(from, from + len), )),
            *old(self) is BytesInsertCopy ==> (r == Ok::<MutationResult, Error>(MutationResult::Mutated) ==> final(input).bytes@.len() <= old(state).max_size),
            *old(self) is BytesSwap ==> ((old(input).bytes@.len() <= 1) <==> r == Ok::<MutationResult, Error>(MutationResult::Skipped)),
            *old(self) is BytesSwap ==> (r == Ok::<MutationResult, Error>(MutationResult::Skipped) ==> final(input).bytes@ == old(input).bytes@),
            *old(self) is BytesSwap ==> (r == Ok::<MutationResult, Error>(MutationResult::Mutated) ==> exists|first: int, second: int, len: int| #![trigger overwrite(overwrite(old(input).bytes@, first, old(input).bytes@.subrange(second, second + len)), second, old(input).bytes@.subrange(first, first + len))] 0 <= first && 0 <= second && 1 <= len && first + len <= old(input).bytes@.len() && second + len <= old(input).bytes@.len() && final(input).bytes@ == overwrite( overwrite(old(input).bytes@, first, old(input).bytes@.subrange(second, second + len)), second, old(input).bytes@.subrange(first, first + len), )),
            *old(self) is CrossoverInsert ==> (old(state).corpus.entries@.len() > 0 && old(state).corpus.current != Some(drawn(old(state).rand, old(state).corpus) as usize) ==> (r is Err <==> !old(state).corpus.has(drawn(old(state).rand, old(state).corpus)))),
            *old(self) is CrossoverInsert ==> (old(state).corpus.entries@.len() > 0 && other_entry(old(state).corpus, drawn(old(state).rand, old(state).corpus)) && entry_input(old(state).corpus, drawn(old(state).rand, old(state).corpus)).len() >= 2 && old(input).bytes@.len() < old(state).max_size ==> r matches Ok(MutationResult::Mutated)),
            *old(self) is CrossoverInsert ==> (old(state).corpus.entries@.len() == 0 ==> r matches Ok(MutationResult::Skipped)),
            *old(self) is CrossoverInsert ==> (old(state).corpus.entries@.len() == 1 && old(state).corpus.current == Some(0usize) ==> r matches Ok( MutationResult::Skipped, )),
            *old(self) is CrossoverInsert ==> (!(r matches Ok(MutationResult::Mutated)) ==> final(input).bytes@ == old(input).bytes@),
            *old(self) is CrossoverInsert ==> (r is Err ==> r->Err_0 is KeyNotFound),
            *old(self) is CrossoverInsert ==> (r matches Ok(MutationResult::Mutated) ==> final(input).bytes@.len() <= old(state).max_size && exists| idx: int, from: int, len: int, to: int, | #![trigger insert_at(old(input).bytes@, to, entry_input(old(state).corpus, idx).subrange(from, from + len))] old(state).corpus.has(idx) && old(state).corpus.current != Some(idx as usize) && 0 <= from && 1 <= len && from + len <= entry_input(old(state).corpus, idx).len() && 0 <= to <= old(input).bytes@.len() && final(input).bytes@ == insert_at( old(input).bytes@, to, entry_input(old(state).corpus, idx).subrange(from, from + len), )),
            *old(self) is CrossoverReplace ==> (old(input).bytes@.len() > 0 && old(state).corpus.entries@.len() > 0 && old(state).corpus.current != Some(drawn(old(state).rand, old(state).corpus) as usize) ==> (r is Err <==> !old(state).corpus.has(drawn(old(state).rand, old(state).corpus)))),
            *old(self) is CrossoverReplace ==> (old(input).bytes@.len() > 0 && old(state).corpus.entries@.len() > 0 && other_entry(old(state).corpus, drawn(old(state).rand, old(state).corpus)) && entry_input(old(state).corpus, drawn(old(state).rand, old(state).corpus)).len() >= 2 ==> r matches Ok( MutationResult::Mutated, )),
            *old(self) is CrossoverReplace ==> (final(input).bytes@.len() == old(input).bytes@.len()),
            *old(self) is CrossoverReplace ==> (old(input).bytes@.len() == 0 ==> r matches Ok(MutationResult::Skipped)),
            *old(self) is CrossoverReplace ==> (old(state).corpus.entries@.len() == 0 ==> r matches Ok(MutationResult::Skipped)),
            *old(self) is CrossoverReplace ==> (old(state).corpus.entries@.len() == 1 && old(state).corpus.current == Some(0usize) ==> r matches Ok( MutationResult::Skipped, )),
            *old(self) is CrossoverReplace ==> (!(r matches Ok(MutationResult::Mutated)) ==> final(input).bytes@ == old(input).bytes@),
            *old(self) is CrossoverReplace ==> (r is Err ==> r->Err_0 is KeyNotFound),
            *old(self) is CrossoverReplace ==> (r matches Ok(MutationResult::Mutated) ==> exists|idx: int, from: int, len: int, to: int| #![trigger overwrite(old(input).bytes@, to, entry_input(old(state).corpus, idx).subrange(from, from + len))] old(state).corpus.has(idx) && old(state).corpus.current != Some(idx as usize) && 0 <= from && 0 <= len && from + len <= entry_input(old(state).corpus, idx).len() && 0 <= to && to + len <= old(input).bytes@.len() && final(input).bytes@ == overwrite( old(input).bytes@, to, entry_input(old(state).corpus, idx).subrange(from, from + len), )),
            *old(self) is Splice ==> (old(state).corpus.entries@.len() > 0 && old(state).corpus.current != Some(drawn(old(state).rand, old(state).corpus) as usize) ==> (r is Err <==> !old(state).corpus.has(drawn(old(state).rand, old(state).corpus)))),
            *old(self) is Splice ==> (old(state).corpus.entries@.len() > 0 && other_entry(old(state).corpus, drawn(old(state).rand, old(state).corpus)) && entry_input(old(state).corpus, drawn(old(state).rand, old(state).corpus)).len() <= old(state).max_size && old(input).bytes@.len() < 0x7fff_ffff_ffff_ffff && two_diffs(old(input).bytes@, entry_input(old(state).corpus, drawn(old(state).rand, old(state).corpus))) ==> r matches Ok(MutationResult::Mutated)),
            *old(self) is Splice ==> (r matches Ok(MutationResult::Mutated) ==> final(input).bytes@.len() <= old(state).max_size),
            *old(self) is Splice ==> (old(state).corpus.entries@.len() == 0 ==> r matches Ok(MutationResult::Skipped)),
            *old(self) is Splice ==> (old(state).corpus.entries@.len() == 1 && old(state).corpus.current == Some(0usize) ==> r matches Ok( MutationResult::Skipped, )),
            *old(self) is Splice ==> (!(r matches Ok(MutationResult::Mutated)) ==> final(input).bytes@ == old(input).bytes@),
            *old(self) is Splice ==> (r is Err ==> r->Err_0 is KeyNotFound),
            *old(self) is Splice ==> (r matches Ok(MutationResult::Mutated) ==> exists|idx: int, split: int| #![trigger entry_input(old(state).corpus, idx).subrange(split, entry_input(old(state).corpus, idx).len() as int)] old(state).corpus.has(idx) && old(state).corpus.current != Some(idx as usize) && 0 < split && (exists|j: int| j < split && #[trigger] differs_at(old(input).bytes@, entry_input(old(state).corpus, idx), j)) && (exists|j: int| split <= j && #[trigger] differs_at(old(input).bytes@, entry_input(old(state).corpus, idx), j)) && final(input).bytes@ == old(input).bytes@.subrange(0, split) + entry_input(old(state).corpus, idx).subrange( split, entry_input(old(state).corpus, idx).len() as int, )),
            *old(self) is TokenInsert ==> (dict(old(state).metadata.tokens).len() == 0 || old(input).bytes@.len() >= old(state).max_size ==> r == Ok::<MutationResult, Error>(MutationResult::Skipped)),
            *old(self) is TokenInsert ==> (dict(old(state).metadata.tokens).len() > 0 && old(input).bytes@.len() < old(state).max_size ==> (r == Ok::<MutationResult, Error>(MutationResult::Mutated) <==> dict(old(state).metadata.tokens)[pick(old(state).rand, dict(old(state).metadata.tokens).len() as u64) as int].len() > 0)),
            *old(self) is TokenInsert ==> (dict(old(state).metadata.tokens).len() > 0 && old(input).bytes@.len() < old(state).max_size && (forall|t: int| 0 <= t < dict(old(state).metadata.tokens).len() ==> (#[trigger] dict(old(state).metadata.tokens)[t]).len() > 0) ==> r == Ok::<MutationResult, Error>(MutationResult::Mutated)),
            *old(self) is TokenInsert ==> (r == Ok::<MutationResult, Error>(MutationResult::Mutated) ==> final(input).bytes@ == insert_at( old(input).bytes@, pick(after_pick(old(state).rand, dict(old(state).metadata.tokens).len() as u64), (old(input).bytes@.len() as u64 + 1) as u64) as int, dict(old(state).metadata.tokens)[pick(old(state).rand, dict(old(state).metadata.tokens).len() as u64) as int].subrange( 0, clamp_growth( old(input).bytes@.len() as int, dict(old(state).metadata.tokens)[pick(old(state).rand, dict(old(state).metadata.tokens).len() as u64) as int].len() as int, old(state).max_size as int, ).unwrap(), ), )),
            *old(self) is TokenInsert ==> (r == Ok::<MutationResult, Error>(MutationResult::Skipped) ==> final(input).bytes@ == old(input).bytes@),
            *old(self) is TokenInsert ==> (r == Ok::<MutationResult, Error>(MutationResult::Mutated) ==> final(input).bytes@.len() <= old(state).max_size && exists| t: int, off: int, len: int, | #![trigger insert_at(old(input).bytes@, off, dict(old(state).metadata.tokens)[t].subrange(0, len))] 0 <= t < dict(old(state).metadata.tokens).len() && 0 <= off <= old(input).bytes@.len() && 1 <= len <= dict(old(state).metadata.tokens)[t].len() && final(input).bytes@ == insert_at( old(input).bytes@, off, dict(old(state).metadata.tokens)[t].subrange(0, len), )),
            *old(self) is TokenReplace ==> (dict(old(state).metadata.tokens).len() == 0 || old(input).bytes@.len() == 0 ==> r == Ok::<MutationResult, Error>(MutationResult::Skipped)),
            *old(self) is TokenReplace ==> (dict(old(state).metadata.tokens).len() > 0 && old(input).bytes@.len() > 0 ==> r == Ok::<MutationResult, Error>(MutationResult::Mutated)),
            *old(self) is TokenReplace ==> (final(input).bytes@.len() == old(input).bytes@.len()),
            *old(self) is TokenReplace ==> (r == Ok::<MutationResult, Error>(MutationResult::Skipped) ==> final(input).bytes@ == old(input).bytes@),
            *old(self) is TokenReplace ==> (r == Ok::<MutationResult, Error>(MutationResult::Mutated) ==> exists|t: int, off: int| #![trigger overwrite(old(input).bytes@, off, dict(old(state).metadata.tokens)[t].subrange(0, token_room(dict(old(state).metadata.tokens)[t].len() as int, old(input).bytes@.len() - off)))] 0 <= t < dict(old(state).metadata.tokens).len() && 0 <= off < old(input).bytes@.len() && final(input).bytes@ == overwrite( old(input).bytes@, off, dict(old(state).metadata.tokens)[t].subrange(0, token_room(dict(old(state).metadata.tokens)[t].len() as int, old(input).bytes@.len() - off)), )),
            *old(self) is I2SRandReplace ==> (final(input).bytes@.len() == old(input).bytes@.len()),
            *old(self) is I2SRandReplace ==> (old(input).bytes@.len() == 0 || cmps(old(state).metadata.cmp_values).len() == 0 ==> r == Ok::<MutationResult, Error>(MutationResult::Skipped) && final(state).rand == old(state).rand),
            *old(self) is I2SRandReplace ==> (old(input).bytes@.len() > 0 && cmps(old(state).metadata.cmp_values).len() > 0 ==> final(state).rand == after_pick( after_pick(old(state).rand, cmps(old(state).metadata.cmp_values).len() as u64), old(input).bytes@.len() as u64, )),
            *old(self) is I2SRandReplace ==> (old(input).bytes@.len() > 0 && cmps(old(state).metadata.cmp_values).len() > 0 && r == Ok::<MutationResult, Error>(MutationResult::Skipped) ==> no_replacement_between( old(input).bytes@, cmps(old(state).metadata.cmp_values)[i2s_cmp(old(state).rand, old(state).metadata.cmp_values)], i2s_offset(old(state).rand, old(state).metadata.cmp_values, old(input).bytes@.len()), old(input).bytes@.len() as int, )),
            *old(self) is I2SRandReplace ==> (old(input).bytes@.len() > 0 && cmps(old(state).metadata.cmp_values).len() > 0 && r == Ok::<MutationResult, Error>(MutationResult::Mutated) ==> exists|i: int| #![trigger replacement(old(input).bytes@, i, cmps(old(state).metadata.cmp_values)[i2s_cmp(old(state).rand, old(state).metadata.cmp_values)])] i2s_offset(old(state).rand, old(state).metadata.cmp_values, old(input).bytes@.len()) <= i < old(input).bytes@.len() && replacement(old(input).bytes@, i, cmps(old(state).metadata.cmp_values)[i2s_cmp(old(state).rand, old(state).metadata.cmp_values)]) is Some && no_replacement_between( old(input).bytes@, cmps(old(state).metadata.cmp_values)[i2s_cmp(old(state).rand, old(state).metadata.cmp_values)], i2s_offset(old(state).rand, old(state).metadata.cmp_values, old(input).bytes@.len()), i, ) && final(input).bytes@ == overwrite( old(input).bytes@, i, replacement(old(input).bytes@, i, cmps(old(state).metadata.cmp_values)[i2s_cmp(old(state).rand, old(state).metadata.cmp_values)]).unwrap(), )),
            *old(self) is I2SRandReplace ==> (r == Ok::<MutationResult, Error>(MutationResult::Skipped) ==> final(input).bytes@ == old(input).bytes@),
    {
        match self {
            AnyMutator::BitFlip(m) => m.mutate(state, input, stage_idx),
            AnyMutator::ByteFlip(m) => m.mutate(state, input, stage_idx),
            AnyMutator::ByteInc(m) => m.mutate(state, input, stage_idx),
            AnyMutator::ByteDec(m) => m.mutate(state, input, stage_idx),
            AnyMutator::ByteNeg(m) => m.mutate(state, input, stage_idx),
            AnyMutator::ByteRand(m) => m.mutate(state, input, stage_idx),
            AnyMutator::ByteAdd(m) => m.mutate(state, input, stage_idx),
            AnyMutator::WordAdd(m) => m.mutate(state, input, stage_idx),
            AnyMutator::DwordAdd(m) => m.mutate(state, input, stage_idx),
            AnyMutator::QwordAdd(m) => m.mutate(state, input, stage_idx),
            AnyMutator::ByteInteresting(m) => m.mutate(state, input, stage_idx),
            AnyMutator::WordInteresting(m) => m.mutate(state, input, stage_idx),
            AnyMutator::DwordInteresting(m) => m.mutate(state, input, stage_idx),
            AnyMutator::BytesDelete(m) => m.mutate(state, input, stage_idx),
            AnyMutator::BytesExpand(m) => m.mutate(state, input, stage_idx),
            AnyMutator::BytesInsert(m) => m.mutate(state, input, stage_idx),
            AnyMutator::BytesRandInsert(m) => m.mutate(state, input, stage_idx),
            AnyMutator::BytesSet(m) => m.mutate(state, input, stage_idx),
            AnyMutator::BytesRandSet(m) => m.mutate(state, input, stage_idx),
            AnyMutator::BytesCopy(m) => m.mutate(state, input, stage_idx),
            AnyMutator::BytesInsertCopy(m) => m.mutate(state, input, stage_idx),
            AnyMutator::BytesSwap(m) => m.mutate(state, input, stage_idx),
            AnyMutator::CrossoverInsert(m) => m.mutate(state, input, stage_idx),
            AnyMutator::CrossoverReplace(m) => m.mutate(state, input, stage_idx),
            AnyMutator::Splice(m) => m.mutate(state, input, stage_idx),
            AnyMutator::TokenInsert(m) => m.mutate(state, input, stage_idx),
            AnyMutator::TokenReplace(m) => m.mutate(state, input, stage_idx),
            AnyMutator::I2SRandReplace(m) => m.mutate(state, input, stage_idx),
        }
    }
}

/// The havoc mutations: byte-level, arithmetic, interesting-value,
/// size-changing and crossover mutations.
pub fn havoc_mutations() -> (r: Vec<AnyMutator>)
    ensures
        r@.len() == 27,
{
    let mut v: Vec<AnyMutator> = Vec::new();
    v.push(AnyMutator::BitFlip(BitFlipMutator::new()));
    v.push(AnyMutator::ByteFlip(ByteFlipMutator::new()));
    v.push(AnyMutator::ByteInc(ByteIncMutator::new()));
    v.push(AnyMutator::ByteDec(ByteDecMutator::new()));
    v.push(AnyMutator::ByteNeg(ByteNegMutator::new()));
    v.push(AnyMutator::ByteRand(ByteRandMutator::new()));
    v.push(AnyMutator::ByteAdd(ByteAddMutator::new()));
    v.push(AnyMutator::WordAdd(WordAddMutator::new()));
    v.push(AnyMutator::DwordAdd(DwordAddMutator::new()));
    v.push(AnyMutator::QwordAdd(QwordAddMutator::new()));
    v.push(AnyMutator::ByteInteresting(ByteInterestingMutator::new()));
    v.push(AnyMutator::WordInteresting(WordInterestingMutator::new()));
    v.push(AnyMutator::DwordInteresting(DwordInterestingMutator::new()));
    v.push(AnyMutator::BytesDelete(BytesDeleteMutator::new()));
    v.push(AnyMutator::BytesDelete(BytesDeleteMutator::new()));
    v.push(AnyMutator::BytesDelete(BytesDeleteMutator::new()));
    v.push(AnyMutator::BytesDelete(BytesDeleteMutator::new()));
    v.push(AnyMutator::BytesExpand(BytesExpandMutator::new()));
    v.push(AnyMutator::BytesInsert(BytesInsertMutator::new()));
    v.push(AnyMutator::BytesRandInsert(BytesRandInsertMutator::new()));
    v.push(AnyMutator::BytesSet(BytesSetMutator::new()));
    v.push(AnyMutator::BytesRandSet(BytesRandSetMutator::new()));
    v.push(AnyMutator::BytesCopy(BytesCopyMutator::new()));
    v.push(AnyMutator::BytesInsertCopy(BytesInsertCopyMutator::new()));
    v.push(AnyMutator::BytesSwap(BytesSwapMutator::new()));
    v.push(AnyMutator::CrossoverInsert(CrossoverInsertMutator::new()));
    v.push(AnyMutator::CrossoverReplace(CrossoverReplaceMutator::new()));
    v
}

/// The dictionary mutations.
pub fn tokens_mutations() -> (r: Vec<AnyMutator>)
    ensures
        r@.len() == 2,
{
    let mut v: Vec<AnyMutator> = Vec::new();
    v.push(AnyMutator::TokenInsert(TokenInsert::new()));
    v.push(AnyMutator::TokenReplace(TokenReplace::new()));
    v
}

/// Applies a random number (2 to 64) of mutations, each picked uniformly
/// from its list, to the same input.
#[derive(Debug)]
pub struct StdScheduledMutator {
    pub mutations: Vec<AnyMutator>,
    /// What each mutation stacked by the last call returned, in order.
    pub last_results: Vec<MutationResult>,
}

impl StdScheduledMutator {
    /// A scheduled mutator over `mutations`.
    pub fn new(mutations: Vec<AnyMutator>) -> (r: StdScheduledMutator)
        ensures
            r.mutations@.len() == mutations@.len(),
    {
        StdScheduledMutator { mutations, last_results: Vec::new() }
    }

    /// How many mutations to stack: `2^(1 + below(6))`.
    pub fn iterations(&self, state: &mut StdState) -> (r: u64)
        ensures
            2 <= r <= 64,
            r == 1u64 << (1 + pick(old(state).rand, 6)) as u64,
            only_rand_changed(*old(state), *final(state)),
    {
        let e = state.rand.below(6);
        assert(e < 6 ==> 2 <= (1u64 << ((1 + e) as u64)) <= 64) by (bit_vector);
        1u64 << (1 + e)
    }
}

impl Mutator for StdScheduledMutator {
    /// Stacks the mutations; the result is `Mutated` exactly when one of
    /// them returned `Mutated`.
    fn mutate(&mut self, state: &mut StdState, input: &mut BytesInput, stage_idx: i32) -> (r:
        Result<MutationResult, Error>)
        ensures
            old(self).mutations@.len() == 0 ==> r == Ok::<MutationResult, Error>(MutationResult::Skipped),
            r matches Ok(m) ==> (m == MutationResult::Mutated <==> final(self).last_results@.contains(
                MutationResult::Mutated,
            )),
            old(self).mutations@.len() > 0 && r is Ok ==> final(self).last_results@.len() == (1u64
                << (1 + pick(old(state).rand, 6)) as u64),
            (forall|j: int| 0 <= j < old(self).mutations@.len() ==> !may_fail(
                #[trigger] old(self).mutations@[j],
            )) ==> r is Ok,
    {
        self.last_results.clear();
        let n = self.mutations.len();
        if n == 0 {
            return Ok(MutationResult::Skipped);
        }
        let iters = self.iterations(state);
        let mut result = MutationResult::Skipped;
        let mut i: u64 = 0;
        while i < iters
            invariant
                n == self.mutations@.len(),
                n > 0,
                only_rand_changed(*old(state), *state),
                input@.len() <= state.max_size,
                old(state).metadata.wf(),
                result == MutationResult::Skipped ==> input@ == old(input)@,
                result == MutationResult::Mutated <==> self.last_results@.contains(MutationResult::Mutated),
                n == old(self).mutations@.len(),
                self.last_results@.len() == i,
                i <= iters,
                iters == 1u64 << (1 + pick(old(state).rand, 6)) as u64,
                forall|j: int| 0 <= j < n ==> may_fail(#[trigger] self.mutations@[j]) == may_fail(
                    old(self).mutations@[j],
                ),
            decreases iters - i,
        {
            let idx = state.rand.below(n as u64) as usize;
            let r = self.mutations[idx].mutate(state, input, stage_idx)?;
            let ghost before = self.last_results@;
            self.last_results.push(r);
            proof {
                assert(self.last_results@[self.last_results@.len() - 1] == r);
                if before.contains(MutationResult::Mutated) {
                    let w = choose|w: int| 0 <= w < before.len() && before[w] == MutationResult::Mutated;
                    assert(self.last_results@[w] == before[w]);
                }
                if r == MutationResult::Skipped && self.last_results@.contains(MutationResult::Mutated) {
                    let w = choose|w: int| 0 <= w < self.last_results@.len() && self.last_results@[w] == MutationResult::Mutated;
                    assert(w < before.len());
                    assert(before[w] == self.last_results@[w]);
                }
            }
            if r == MutationResult::Mutated {
                result = MutationResult::Mutated;
            }
            i = i + 1;
        }
        Ok(result)
    }
}

} // verus!
