//! Byte-level and structural mutations of byte-vector inputs.
use vstd::prelude::*;
use crate::corpus::InMemoryCorpus;
use crate::error::Error;
use crate::inputs::BytesInput;
use crate::rands::{after_pick, pick, StdRand};
use crate::state::StdState;
use crate::token_mutations::{be_bytes, le_bytes, le_bytes_exec, be_bytes_exec};

verus! {

/// `s` with the elements from `at` on overwritten by `piece`.
pub open spec fn overwrite<T>(s: Seq<T>, at: int, piece: Seq<T>) -> Seq<T> {
    s.subrange(0, at) + piece + s.subrange(at + piece.len(), s.len() as int)
}

/// `s` with `piece` inserted before position `at`.
pub open spec fn insert_at<T>(s: Seq<T>, at: int, piece: Seq<T>) -> Seq<T> {
    s.subrange(0, at) + piece + s.subrange(at, s.len() as int)
}

/// `s` without the `len` elements that start at `at`.
pub open spec fn delete_at<T>(s: Seq<T>, at: int, len: int) -> Seq<T> {
    s.subrange(0, at) + s.subrange(at + len, s.len() as int)
}

/// `len` copies of `v`.
pub open spec fn filled<T>(len: nat, v: T) -> Seq<T> {
    Seq::new(len, |i: int| v)
}

/// Copies `len` elements of `data` from `from` to `to`, as `memmove` does:
/// overlapping ranges are copied as if through a scratch buffer.
pub fn buffer_self_copy<T: Copy>(data: &mut Vec<T>, from: usize, to: usize, len: usize)
    requires
        from + len <= old(data)@.len(),
        to + len <= old(data)@.len(),
    ensures
        final(data)@ == overwrite(old(data)@, to as int, old(data)@.subrange(
            from as int,
            from + len,
        )),
{
    let ghost o = data@;
    let n = data.len();
    if len == 0 || from == to {
        assert(data@ =~= overwrite(o, to as int, o.subrange(from as int, from + len)));
        return;
    }
    if from < to {
        let mut k = len;
        while k > 0
            invariant
                k <= len,
                from < to,
                to + len <= n,
                data@.len() == n,
                o.len() == n,
                forall|p: int|
                    0 <= p < n ==> data@[p] == if to + k <= p < to + len {
                        o[p - to + from]
                    } else {
                        o[p]
                    },
            decreases k,
        {
            k = k - 1;
            let v = data[from + k];
            data.set(to + k, v);
        }
    } else {
        let mut k: usize = 0;
        while k < len
            invariant
                k <= len,
                from > to,
                from + len <= n,
                data@.len() == n,
                o.len() == n,
                forall|p: int|
                    0 <= p < n ==> data@[p] == if to <= p < to + k {
                        o[p - to + from]
                    } else {
                        o[p]
                    },
            decreases len - k,
        {
            let v = data[from + k];
            data.set(to + k, v);
            k = k + 1;
        }
    }
    assert(data@ =~= overwrite(o, to as int, o.subrange(from as int, from + len)));
}

/// Copies `len` elements of `src` from `from` into `dst` at `to`.
pub fn buffer_copy<T: Copy>(dst: &mut Vec<T>, src: &[T], from: usize, to: usize, len: usize)
    requires
        from + len <= src@.len(),
        to + len <= old(dst)@.len(),
    ensures
        final(dst)@ == overwrite(old(dst)@, to as int, src@.subrange(from as int, from + len)),
{
    let ghost o = dst@;
    let n = dst.len();
    let m = src.len();
    let mut k: usize = 0;
    while k < len
        invariant
            k <= len,
            n == o.len(),
            m == src@.len(),
            from + len <= src@.len(),
            to + len <= o.len(),
            dst@.len() == o.len(),
            forall|p: int|
                0 <= p < o.len() ==> dst@[p] == if to <= p < to + k {
                    src@[p - to + from]
                } else {
                    o[p]
                },
        decreases len - k,
    {
        dst.set(to + k, src[from + k]);
        k = k + 1;
    }
    assert(dst@ =~= overwrite(o, to as int, src@.subrange(from as int, from + len)));
}

/// Sets `len` elements of `data` from `from` on to `val`.
pub fn buffer_set<T: Copy>(data: &mut Vec<T>, from: usize, len: usize, val: T)
    requires
        from + len <= old(data)@.len(),
    ensures
        final(data)@ == overwrite(old(data)@, from as int, filled(len as nat, val)),
{
    let ghost o = data@;
    let n = data.len();
    let mut k: usize = 0;
    while k < len
        invariant
            k <= len,
            n == o.len(),
            from + len <= o.len(),
            data@.len() == o.len(),
            forall|p: int|
                0 <= p < o.len() ==> data@[p] == if from <= p < from + k {
                    val
                } else {
                    o[p]
                },
        decreases len - k,
    {
        data.set(from + k, val);
        k = k + 1;
    }
    assert(data@ =~= overwrite(o, from as int, filled(len as nat, val)));
}

/// What a mutation did to its input.
#[derive(Debug, Clone, Copy, PartialEq, Eq, Structural)]
pub enum MutationResult {
    /// The input was changed.
    Mutated,
    /// The input was left as it was.
    Skipped,
}

/// The state after a mutation: only the random source may have moved.
pub open spec fn only_rand_changed(before: StdState, after: StdState) -> bool {
    &&& after.corpus == before.corpus
    &&& after.solutions == before.solutions
    &&& after.metadata == before.metadata
    &&& after.feedback_states == before.feedback_states
    &&& after.max_size == before.max_size
    &&& after.executions == before.executions
    &&& after.start_time_ns == before.start_time_ns
}

/// A mutation of an input, driven by the state's random source.
pub trait Mutator {
    /// Mutates `input`. An input within the state's size bound stays within
    /// it, and an input reported `Skipped` is left unchanged.
    fn mutate(&mut self, state: &mut StdState, input: &mut BytesInput, stage_idx: i32) -> (r:
        Result<MutationResult, Error>)
        requires
            old(input)@.len() <= old(state).max_size,
            old(state).metadata.wf(),
        ensures
            only_rand_changed(*old(state), *final(state)),
            final(input)@.len() <= final(state).max_size,
            r matches Ok(MutationResult::Skipped) ==> final(input)@ == old(input)@,
    ;
}

/// Flips one random bit of one random byte.
pub fn bit_flip(rand: &mut StdRand, bytes: &mut Vec<u8>) -> (r: MutationResult)
    ensures
        (old(bytes)@.len() == 0) <==> r == MutationResult::Skipped,
        r == MutationResult::Skipped ==> final(bytes)@ == old(bytes)@,
        r == MutationResult::Mutated ==> exists|i: int, b: u8|
            0 <= i < old(bytes)@.len() && b < 8 && final(bytes)@ == old(bytes)@.update(
                i,
                old(bytes)@[i] ^ (1u8 << b),
            ),
{
    if bytes.len() == 0 {
        return MutationResult::Skipped;
    }
    let b = rand.below(8) as u8;
    let i = rand.below(bytes.len() as u64) as usize;
    let v = bytes[i] ^ (1u8 << b);
    bytes.set(i, v);
    assert(bytes@ == old(bytes)@.update(i as int, old(bytes)@[i as int] ^ (1u8 << b)));
    MutationResult::Mutated
}

/// Which single-byte change a byte mutation makes.
pub enum ByteOp {
    /// XOR with `0xff`.
    Flip,
    /// Add one, wrapping.
    Inc,
    /// Subtract one, wrapping.
    Dec,
    /// Bitwise negation.
    Neg,
}

/// The byte `v` after `op`.
pub open spec fn apply_op(op: ByteOp, v: u8) -> u8 {
    match op {
        ByteOp::Flip => v ^ 0xffu8,
        ByteOp::Inc => v.wrapping_add(1),
        ByteOp::Dec => v.wrapping_sub(1),
        ByteOp::Neg => !v,
    }
}

/// Applies `op` to one random byte.
pub fn byte_op(rand: &mut StdRand, bytes: &mut Vec<u8>, op: ByteOp) -> (r: MutationResult)
    ensures
        (old(bytes)@.len() == 0) <==> r == MutationResult::Skipped,
        r == MutationResult::Skipped ==> final(bytes)@ == old(bytes)@,
        r == MutationResult::Mutated ==> exists|i: int|
            0 <= i < old(bytes)@.len() && final(bytes)@ == old(bytes)@.update(
                i,
                apply_op(op, old(bytes)@[i]),
            ),
{
    if bytes.len() == 0 {
        return MutationResult::Skipped;
    }
    let i = rand.below(bytes.len() as u64) as usize;
    let o = bytes[i];
    let v = match op {
        ByteOp::Flip => o ^ 0xffu8,
        ByteOp::Inc => o.wrapping_add(1),
        ByteOp::Dec => o.wrapping_sub(1),
        ByteOp::Neg => !o,
    };
    bytes.set(i, v);
    assert(bytes@ == old(bytes)@.update(i as int, apply_op(op, old(bytes)@[i as int])));
    MutationResult::Mutated
}

/// Replaces one random byte with a random value.
pub fn byte_rand(rand: &mut StdRand, bytes: &mut Vec<u8>) -> (r: MutationResult)
    ensures
        (old(bytes)@.len() == 0) <==> r == MutationResult::Skipped,
        r == MutationResult::Skipped ==> final(bytes)@ == old(bytes)@,
        r == MutationResult::Mutated ==> exists|i: int, v: u8|
            0 <= i < old(bytes)@.len() && final(bytes)@ == old(bytes)@.update(i, v),
{
    if bytes.len() == 0 {
        return MutationResult::Skipped;
    }
    let i = rand.below(bytes.len() as u64) as usize;
    let v = rand.next() as u8;
    bytes.set(i, v);
    assert(bytes@ == old(bytes)@.update(i as int, v));
    MutationResult::Mutated
}

/// Appends `n` zero bytes.
fn grow_zeroed(bytes: &mut Vec<u8>, n: usize)
    requires
        old(bytes)@.len() + n <= usize::MAX,
    ensures
        final(bytes)@ == old(bytes)@ + filled(n as nat, 0u8),
{
    let size = bytes.len();
    bytes.resize(size + n, 0u8);
    assert(bytes@ =~= old(bytes)@ + filled(n as nat, 0u8)) by {
        if n > 0 {
            assert forall|i: int| 0 <= i < size implies bytes@[i] == old(bytes)@[i] by {
                assert(bytes@.subrange(0, size as int)[i] == bytes@[i]);
            }
        }
    }
}

/// Inserts `len` copies of `val` before position `off`.
fn insert_filled(bytes: &mut Vec<u8>, off: usize, len: usize, val: u8)
    requires
        off <= old(bytes)@.len(),
        old(bytes)@.len() + len <= usize::MAX,
    ensures
        final(bytes)@ == insert_at(old(bytes)@, off as int, filled(len as nat, val)),
{
    let size = bytes.len();
    grow_zeroed(bytes, len);
    buffer_self_copy(bytes, off, off + len, size - off);
    buffer_set(bytes, off, len, val);
    assert(bytes@ =~= insert_at(old(bytes)@, off as int, filled(len as nat, val)));
}

/// Inserts the first `len` elements of `piece` before position `off`.
pub(crate) fn insert_slice(bytes: &mut Vec<u8>, off: usize, piece: &[u8], len: usize)
    requires
        off <= old(bytes)@.len(),
        len <= piece@.len(),
        old(bytes)@.len() + len <= usize::MAX,
    ensures
        final(bytes)@ == insert_at(old(bytes)@, off as int, piece@.subrange(0, len as int)),
{
    let size = bytes.len();
    grow_zeroed(bytes, len);
    buffer_self_copy(bytes, off, off + len, size - off);
    buffer_copy(bytes, piece, 0, off, len);
    assert(bytes@ =~= insert_at(old(bytes)@, off as int, piece@.subrange(0, len as int)));
}

/// The length of a growing mutation once clamped so that the input stays
/// within `max_size`; `None` if there is no room at all.
pub open spec fn clamp_growth(size: int, len: int, max_size: int) -> Option<int> {
    if size + len <= max_size {
        Some(len)
    } else if max_size > size {
        Some(max_size - size)
    } else {
        None
    }
}

fn clamp_len(size: usize, len: usize, max_size: usize) -> (r: Option<usize>)
    ensures
        r matches Some(l) ==> clamp_growth(size as int, len as int, max_size as int) == Some(
            l as int,
        ),
        r is None ==> clamp_growth(size as int, len as int, max_size as int) is None,
{
    if max_size < size {
        None
    } else if len <= max_size - size {
        Some(len)
    } else if max_size > size {
        Some(max_size - size)
    } else {
        None
    }
}

/// Deletes a random range of an input of more than two bytes.
pub fn bytes_delete(rand: &mut StdRand, bytes: &mut Vec<u8>) -> (r: MutationResult)
    ensures
        (old(bytes)@.len() <= 2) <==> r == MutationResult::Skipped,
        r == MutationResult::Skipped ==> final(bytes)@ == old(bytes)@,
        r == MutationResult::Mutated ==> exists|off: int, len: int|
            0 <= off < old(bytes)@.len() && 0 <= len && off + len < old(bytes)@.len()
                && final(bytes)@ == delete_at(old(bytes)@, off, len),
{
    let size = bytes.len();
    if size <= 2 {
        return MutationResult::Skipped;
    }
    let off = rand.below(size as u64) as usize;
    let len = rand.below((size - off) as u64) as usize;
    let tail = bytes.split_off(off + len);
    bytes.truncate(off);
    let mut k: usize = 0;
    let ghost head = bytes@;
    while k < tail.len()
        invariant
            k <= tail@.len(),
            head.len() == off,
            bytes@ == head + tail@.subrange(0, k as int),
        decreases tail@.len() - k,
    {
        bytes.push(tail[k]);
        k = k + 1;
        assert(bytes@ =~= head + tail@.subrange(0, k as int));
    }
    assert(bytes@ =~= delete_at(old(bytes)@, off as int, len as int));
    MutationResult::Mutated
}

/// Inserts a zeroed range of 1 to 16 bytes at a random offset; the range
/// is cut short where the input would outgrow `max_size`.
pub fn bytes_expand(rand: &mut StdRand, bytes: &mut Vec<u8>, max_size: usize) -> (r: MutationResult)
    ensures
        (old(bytes)@.len() >= max_size) <==> r == MutationResult::Skipped,
        r == MutationResult::Skipped ==> final(bytes)@ == old(bytes)@,
        r == MutationResult::Mutated ==> final(bytes)@.len() <= max_size && exists|off: int, len: nat|
            0 <= off <= old(bytes)@.len() && 1 <= len <= 16 && final(bytes)@ == insert_at(
                old(bytes)@,
                off,
                filled(len, 0u8),
            ),
{
    let size = bytes.len();
    if size >= max_size {
        return MutationResult::Skipped;
    }
    let off = rand.below(size as u64 + 1) as usize;
    let len = 1 + rand.below(16) as usize;
    match clamp_len(size, len, max_size) {
        None => MutationResult::Skipped,
        Some(l) => {
            insert_filled(bytes, off, l, 0u8);
            assert(bytes@ == insert_at(old(bytes)@, off as int, filled(l as nat, 0u8)));
            MutationResult::Mutated
        },
    }
}

/// Inserts 1 to 16 copies of a byte taken from the input at a random
/// offset, cut short where the input would outgrow `max_size`.
pub fn bytes_insert(rand: &mut StdRand, bytes: &mut Vec<u8>, max_size: usize) -> (r: MutationResult)
    ensures
        (old(bytes)@.len() == 0 || old(bytes)@.len() >= max_size) <==> r == MutationResult::Skipped,
        r == MutationResult::Skipped ==> final(bytes)@ == old(bytes)@,
        r == MutationResult::Mutated ==> final(bytes)@.len() <= max_size && exists|
            off: int,
            len: nat,
            src: int,
        |
            #![trigger insert_at(old(bytes)@, off, filled(len, old(bytes)@[src]))]
            0 <= off <= old(bytes)@.len() && 1 <= len <= 16 && 0 <= src < old(bytes)@.len()
                && final(bytes)@ == insert_at(old(bytes)@, off, filled(len, old(bytes)@[src])),
{
    let size = bytes.len();
    if size == 0 {
        return MutationResult::Skipped;
    }
    if size >= max_size {
        return MutationResult::Skipped;
    }
    let off = rand.below(size as u64 + 1) as usize;
    let len = 1 + rand.below(16) as usize;
    match clamp_len(size, len, max_size) {
        None => MutationResult::Skipped,
        Some(l) => {
            let src = rand.below(size as u64) as usize;
            let val = bytes[src];
            insert_filled(bytes, off, l, val);
            assert(bytes@ == insert_at(old(bytes)@, off as int, filled(l as nat, val)));
            MutationResult::Mutated
        },
    }
}

/// Inserts 1 to 16 copies of a random byte at a random offset, cut short
/// where the input would outgrow `max_size`.
pub fn bytes_rand_insert(rand: &mut StdRand, bytes: &mut Vec<u8>, max_size: usize) -> (r:
    MutationResult)
    ensures
        (old(bytes)@.len() >= max_size) <==> r == MutationResult::Skipped,
        r == MutationResult::Skipped ==> final(bytes)@ == old(bytes)@,
        r == MutationResult::Mutated ==> final(bytes)@.len() <= max_size && exists|off: int, len: nat, val: u8|
            0 <= off <= old(bytes)@.len() && 1 <= len <= 16 && final(bytes)@ == insert_at(
                old(bytes)@,
                off,
                filled(len, val),
            ),
{
    let size = bytes.len();
    if size >= max_size {
        return MutationResult::Skipped;
    }
    let off = rand.below(size as u64 + 1) as usize;
    let len = 1 + rand.below(16) as usize;
    match clamp_len(size, len, max_size) {
        None => MutationResult::Skipped,
        Some(l) => {
            let val = rand.next() as u8;
            insert_filled(bytes, off, l, val);
            assert(bytes@ == insert_at(old(bytes)@, off as int, filled(l as nat, val)));
            MutationResult::Mutated
        },
    }
}

/// Sets 1 to 16 bytes at a random offset to a byte taken from the input.
pub fn bytes_set(rand: &mut StdRand, bytes: &mut Vec<u8>) -> (r: MutationResult)
    ensures
        (old(bytes)@.len() == 0) <==> r == MutationResult::Skipped,
        r == MutationResult::Skipped ==> final(bytes)@ == old(bytes)@,
        r == MutationResult::Mutated ==> exists|off: int, len: nat, src: int|
            #![trigger overwrite(old(bytes)@, off, filled(len, old(bytes)@[src]))]
            0 <= off && 1 <= len <= 16 && off + len <= old(bytes)@.len() && 0 <= src
                < old(bytes)@.len() && final(bytes)@ == overwrite(
                old(bytes)@,
                off,
                filled(len, old(bytes)@[src]),
            ),
{
    let size = bytes.len();
    if size == 0 {
        return MutationResult::Skipped;
    }
    let off = rand.below(size as u64) as usize;
    let room: usize = if size - off < 16 { size - off } else { 16 };
    let len = 1 + rand.below(room as u64) as usize;
    let src = rand.below(size as u64) as usize;
    let val = bytes[src];
    buffer_set(bytes, off, len, val);
    MutationResult::Mutated
}

/// Sets 1 to 16 bytes at a random offset to a random byte.
pub fn bytes_rand_set(rand: &mut StdRand, bytes: &mut Vec<u8>) -> (r: MutationResult)
    ensures
        (old(bytes)@.len() == 0) <==> r == MutationResult::Skipped,
        r == MutationResult::Skipped ==> final(bytes)@ == old(bytes)@,
        r == MutationResult::Mutated ==> exists|off: int, len: nat, val: u8|
            0 <= off && 1 <= len <= 16 && off + len <= old(bytes)@.len() && final(bytes)@
                == overwrite(old(bytes)@, off, filled(len, val)),
{
    let size = bytes.len();
    if size == 0 {
        return MutationResult::Skipped;
    }
    let off = rand.below(size as u64) as usize;
    let room: usize = if size - off < 16 { size - off } else { 16 };
    let len = 1 + rand.below(room as u64) as usize;
    let val = rand.next() as u8;
    buffer_set(bytes, off, len, val);
    MutationResult::Mutated
}

/// Copies a random range of the input over another place of it.
pub fn bytes_copy(rand: &mut StdRand, bytes: &mut Vec<u8>) -> (r: MutationResult)
    ensures
        (old(bytes)@.len() <= 1) <==> r == MutationResult::Skipped,
        r == MutationResult::Skipped ==> final(bytes)@ == old(bytes)@,
        r == MutationResult::Mutated ==> exists|from: int, to: int, len: int|
            #![trigger overwrite(old(bytes)@, to, old(bytes)@.subrange(from, from + len))]
            0 <= from && 0 <= to && 1 <= len && from + len <= old(bytes)@.len() && to + len
                <= old(bytes)@.len() && final(bytes)@ == overwrite(
                old(bytes)@,
                to,
                old(bytes)@.subrange(from, from + len),
            ),
{
    let size = bytes.len();
    if size <= 1 {
        return MutationResult::Skipped;
    }
    let from = rand.below(size as u64) as usize;
    let to = rand.below(size as u64) as usize;
    let hi = if from > to { from } else { to };
    let len = 1 + rand.below((size - hi) as u64) as usize;
    buffer_self_copy(bytes, from, to, len);
    MutationResult::Mutated
}

/// Inserts a copy of a random range of the input (1 to 16 bytes) at a random offset.
pub fn bytes_insert_copy(rand: &mut StdRand, bytes: &mut Vec<u8>, tmp_buf: &mut Vec<u8>, max_size: usize) -> (r:
    MutationResult)
    ensures
        (old(bytes)@.len() == 0 || old(bytes)@.len() >= max_size) <==> r == MutationResult::Skipped,
        r == MutationResult::Skipped ==> final(bytes)@ == old(bytes)@,
        r == MutationResult::Mutated ==> exists|off: int, from: int, len: int|
            #![trigger insert_at(old(bytes)@, off, old(bytes)@.subrange(from, from + len))]
            0 <= off <= old(bytes)@.len() && 0 <= from && 1 <= len <= 16 && from + len <= old(bytes)@.len() && final(bytes)@ == insert_at(
                old(bytes)@,
                off,
                old(bytes)@.subrange(from, from + len),
            ),
        r == MutationResult::Mutated ==> final(bytes)@.len() <= max_size,
{
    let size = bytes.len();
    if size == 0 {
        return MutationResult::Skipped;
    }
    if size >= max_size {
        return MutationResult::Skipped;
    }
    let off = rand.below(size as u64 + 1) as usize;
    let cap: usize = if size < 16 { size } else { 16 };
    let len0 = 1 + rand.below(cap as u64) as usize;
    let len = match clamp_len(size, len0, max_size) {
        None => { return MutationResult::Skipped; },
        Some(l) => l,
    };
    let from = if size == len { 0 } else { rand.below((size - len) as u64) as usize };
    tmp_buf.clear();
    grow_zeroed(tmp_buf, len);
    buffer_copy(tmp_buf, bytes.as_slice(), from, 0, len);
    let ghost piece = old(bytes)@.subrange(from as int, from + len);
    assert(tmp_buf@ =~= piece);
    assert(tmp_buf@.subrange(0, len as int) =~= piece);
    insert_slice(bytes, off, tmp_buf.as_slice(), len);
    assert(bytes@ =~= insert_at(old(bytes)@, off as int, piece));
    MutationResult::Mutated
}

/// Swaps two random ranges of equal length through a scratch buffer.
pub fn bytes_swap(rand: &mut StdRand, bytes: &mut Vec<u8>) -> (r: MutationResult)
    ensures
        (old(bytes)@.len() <= 1) <==> r == MutationResult::Skipped,
        r == MutationResult::Skipped ==> final(bytes)@ == old(bytes)@,
        r == MutationResult::Mutated ==> exists|first: int, second: int, len: int|
            #![trigger overwrite(overwrite(old(bytes)@, first, old(bytes)@.subrange(second, second + len)), second, old(bytes)@.subrange(first, first + len))]
            0 <= first && 0 <= second && 1 <= len && first + len <= old(bytes)@.len() && second
                + len <= old(bytes)@.len() && final(bytes)@ == overwrite(
                overwrite(old(bytes)@, first, old(bytes)@.subrange(second, second + len)),
                second,
                old(bytes)@.subrange(first, first + len),
            ),
{
    let size = bytes.len();
    if size <= 1 {
        return MutationResult::Skipped;
    }
    let first = rand.below(size as u64) as usize;
    let second = rand.below(size as u64) as usize;
    let hi = if first > second { first } else { second };
    let len = 1 + rand.below((size - hi) as u64) as usize;
    let mut tmp: Vec<u8> = Vec::new();
    grow_zeroed(&mut tmp, len);
    buffer_copy(&mut tmp, bytes.as_slice(), first, 0, len);
    let ghost a = old(bytes)@.subrange(first as int, first + len);
    assert(tmp@ =~= a);
    assert(tmp@.subrange(0, len as int) =~= a);
    buffer_self_copy(bytes, second, first, len);
    let ghost h = bytes@;
    assert(h == overwrite(old(bytes)@, first as int, old(bytes)@.subrange(second as int, second + len)));
    buffer_copy(bytes, tmp.as_slice(), 0, second, len);
    assert(bytes@ == overwrite(h, second as int, a));
    MutationResult::Mutated
}

/// The input of the corpus entry `idx`, which must be present.
pub open spec fn entry_input(corpus: InMemoryCorpus, idx: int) -> Seq<u8> {
    corpus.entries@[idx].unwrap().input@
}

/// The corpus index that a crossover draws from `rand`.
pub open spec fn drawn(rand: StdRand, corpus: InMemoryCorpus) -> int {
    pick(rand, corpus.entries@.len() as u64) as int
}

/// Entry `i` of the corpus may be crossed with: it is present and not current.
pub open spec fn other_entry(corpus: InMemoryCorpus, i: int) -> bool {
    corpus.has(i) && corpus.current != Some(i as usize)
}

/// Picks a random corpus entry other than the current one: `Ok(None)` when
/// the corpus is empty or the pick is the current entry, `KeyNotFound` when
/// the pick was removed.
fn pick_other(rand: &mut StdRand, corpus: &InMemoryCorpus) -> (r: Result<Option<usize>, Error>)
    ensures
        corpus.entries@.len() == 0 ==> (r matches Ok(None)) && *final(rand) == *old(rand),
        corpus.entries@.len() > 0 ==> *final(rand) == after_pick(*old(rand), corpus.entries@.len() as u64),
        corpus.entries@.len() > 0 ==> (r matches Ok(None) <==> corpus.current == Some(drawn(*old(rand), *corpus) as usize)),
        corpus.entries@.len() > 0 && corpus.current != Some(drawn(*old(rand), *corpus) as usize) ==> (
            r is Err <==> !corpus.has(drawn(*old(rand), *corpus))),
        r matches Ok(Some(idx)) ==> idx == drawn(*old(rand), *corpus),
        corpus.entries@.len() == 1 && corpus.current == Some(0usize) ==> r matches Ok(None),
        r matches Ok(Some(idx)) ==> corpus.has(idx as int) && corpus.current != Some(idx),
        r is Err ==> r->Err_0 is KeyNotFound,
{
    let count = corpus.count();
    if count == 0 {
        return Ok(None);
    }
    let idx = rand.below(count as u64) as usize;
    if let Some(cur) = corpus.current() {
        if idx == cur {
            return Ok(None);
        }
    }
    let _ = corpus.get(idx)?;
    Ok(Some(idx))
}

/// Inserts a random range (at least one byte) of another corpus entry at a
/// random offset of the input, cut short where the input would outgrow
/// `max_size`. Skips when the corpus is empty, when the entry picked is the
/// current one, or when it holds fewer than two bytes.
pub fn crossover_insert(
    rand: &mut StdRand,
    bytes: &mut Vec<u8>,
    corpus: &InMemoryCorpus,
    max_size: usize,
) -> (r: Result<MutationResult, Error>)
    ensures
        corpus.entries@.len() > 0 && corpus.current == Some(drawn(*old(rand), *corpus) as usize)
            ==> r matches Ok(MutationResult::Skipped),
        corpus.entries@.len() > 0 && corpus.current != Some(drawn(*old(rand), *corpus) as usize)
            ==> (r is Err <==> !corpus.has(drawn(*old(rand), *corpus))),
        corpus.entries@.len() > 0 && other_entry(*corpus, drawn(*old(rand), *corpus))
            && entry_input(*corpus, drawn(*old(rand), *corpus)).len() >= 2 && old(bytes)@.len()
            < max_size ==> r matches Ok(MutationResult::Mutated),
        corpus.entries@.len() == 0 ==> r matches Ok(MutationResult::Skipped),
        corpus.entries@.len() == 1 && corpus.current == Some(0usize) ==> r matches Ok(
            MutationResult::Skipped,
        ),
        !(r matches Ok(MutationResult::Mutated)) ==> final(bytes)@ == old(bytes)@,
        r is Err ==> r->Err_0 is KeyNotFound,
        r matches Ok(MutationResult::Mutated) ==> final(bytes)@.len() <= max_size && exists|
            idx: int,
            from: int,
            len: int,
            to: int,
        |
            #![trigger insert_at(old(bytes)@, to, entry_input(*corpus, idx).subrange(from, from + len))]
            corpus.has(idx) && corpus.current != Some(idx as usize) && 0 <= from && 1 <= len
                && from + len <= entry_input(*corpus, idx).len() && 0 <= to <= old(bytes)@.len()
                && final(bytes)@ == insert_at(
                old(bytes)@,
                to,
                entry_input(*corpus, idx).subrange(from, from + len),
            ),
{
    let size = bytes.len();
    let idx = match pick_other(rand, corpus)? {
        None => { return Ok(MutationResult::Skipped); },
        Some(i) => i,
    };
    let other = corpus.entries[idx].as_ref().unwrap().input.bytes.as_slice();
    let other_size = other.len();
    if other_size < 2 || size >= max_size {
        return Ok(MutationResult::Skipped);
    }
    let from = rand.below(other_size as u64) as usize;
    let to = rand.below(size as u64) as usize;
    let len0 = 1 + rand.below((other_size - from) as u64) as usize;
    let len = match clamp_len(size, len0, max_size) {
        None => { return Ok(MutationResult::Skipped); },
        Some(l) => l,
    };
    let ghost piece = other@.subrange(from as int, from + len);
    insert_slice(bytes, to, &other[from..from + len], len);
    assert(other@.subrange(from as int, from + len).subrange(0, len as int) =~= piece);
    assert(bytes@ == insert_at(old(bytes)@, to as int, entry_input(*corpus, idx as int).subrange(from as int, from + len)));
    Ok(MutationResult::Mutated)
}

/// Overwrites a random range of the input with a random range of another
/// corpus entry. Skips on an empty input, an empty corpus, the current
/// entry, or an entry of fewer than two bytes.
pub fn crossover_replace(rand: &mut StdRand, bytes: &mut Vec<u8>, corpus: &InMemoryCorpus) -> (r:
    Result<MutationResult, Error>)
    ensures
        corpus.entries@.len() > 0 && corpus.current == Some(drawn(*old(rand), *corpus) as usize)
            ==> r matches Ok(MutationResult::Skipped),
        old(bytes)@.len() > 0 && corpus.entries@.len() > 0 && corpus.current != Some(drawn(*old(rand), *corpus) as usize)
            ==> (r is Err <==> !corpus.has(drawn(*old(rand), *corpus))),
        old(bytes)@.len() > 0 && corpus.entries@.len() > 0 && other_entry(*corpus, drawn(*old(rand), *corpus))
            && entry_input(*corpus, drawn(*old(rand), *corpus)).len() >= 2 ==> r matches Ok(
            MutationResult::Mutated,
        ),
        final(bytes)@.len() == old(bytes)@.len(),
        old(bytes)@.len() == 0 ==> r matches Ok(MutationResult::Skipped),
        corpus.entries@.len() == 0 ==> r matches Ok(MutationResult::Skipped),
        corpus.entries@.len() == 1 && corpus.current == Some(0usize) ==> r matches Ok(
            MutationResult::Skipped,
        ),
        !(r matches Ok(MutationResult::Mutated)) ==> final(bytes)@ == old(bytes)@,
        r is Err ==> r->Err_0 is KeyNotFound,
        r matches Ok(MutationResult::Mutated) ==> exists|idx: int, from: int, len: int, to: int|
            #![trigger overwrite(old(bytes)@, to, entry_input(*corpus, idx).subrange(from, from + len))]
            corpus.has(idx) && corpus.current != Some(idx as usize) && 0 <= from && 0 <= len
                && from + len <= entry_input(*corpus, idx).len() && 0 <= to && to + len <= old(bytes)@.len() && final(bytes)@ == overwrite(
                old(bytes)@,
                to,
                entry_input(*corpus, idx).subrange(from, from + len),
            ),
{
    let size = bytes.len();
    if size == 0 {
        return Ok(MutationResult::Skipped);
    }
    let idx = match pick_other(rand, corpus)? {
        None => { return Ok(MutationResult::Skipped); },
        Some(i) => i,
    };
    let other = corpus.entries[idx].as_ref().unwrap().input.bytes.as_slice();
    let other_size = other.len();
    if other_size < 2 {
        return Ok(MutationResult::Skipped);
    }
    let from = rand.below(other_size as u64) as usize;
    let room = if other_size - from < size { other_size - from } else { size };
    let len = rand.below(room as u64) as usize;
    let to = rand.below((size - len) as u64) as usize;
    buffer_copy(bytes, other, from, to, len);
    assert(other@ == entry_input(*corpus, idx as int));
    assert(bytes@ == overwrite(old(bytes)@, to as int, entry_input(*corpus, idx as int).subrange(from as int, from + len)));
    Ok(MutationResult::Mutated)
}

/// Both sequences reach position `j` and differ there.
pub open spec fn differs_at(a: Seq<u8>, b: Seq<u8>, j: int) -> bool {
    0 <= j < a.len() && j < b.len() && a[j] != b[j]
}

/// The sequences differ at two distinct positions within their common length.
pub open spec fn two_diffs(a: Seq<u8>, b: Seq<u8>) -> bool {
    exists|j: int, k: int| j < k && #[trigger] differs_at(a, b, j) && #[trigger] differs_at(a, b, k)
}

/// The first and the last position, within the common length, at which
/// the two sequences differ, or `(-1, -1)` if they do not differ there.
pub fn locate_diffs(this: &[u8], other: &[u8]) -> (r: (i64, i64))
    requires
        this@.len() < i64::MAX,
    ensures
        r.0 == -1 <==> r.1 == -1,
        r.0 == -1 ==> forall|k: int|
            0 <= k < this@.len() && k < other@.len() ==> this@[k] == other@[k],
        r.0 != -1 ==> {
            &&& 0 <= r.0 <= r.1 < this@.len()
            &&& r.1 < other@.len()
            &&& this@[r.0 as int] != other@[r.0 as int]
            &&& this@[r.1 as int] != other@[r.1 as int]
            &&& forall|k: int| 0 <= k < r.0 ==> this@[k] == other@[k]
            &&& forall|k: int|
                r.1 < k < this@.len() && k < other@.len() ==> this@[k] == other@[k]
        },
{
    let mut first_diff: i64 = -1;
    let mut last_diff: i64 = -1;
    let n = if this.len() < other.len() { this.len() } else { other.len() };
    let mut i: usize = 0;
    while i < n
        invariant
            n <= this@.len(),
            n <= other@.len(),
            n == this@.len() || n == other@.len(),
            this@.len() < i64::MAX,
            i <= n,
            first_diff == -1 <==> last_diff == -1,
            first_diff == -1 ==> forall|k: int| 0 <= k < i ==> this@[k] == other@[k],
            first_diff != -1 ==> {
                &&& 0 <= first_diff <= last_diff < i
                &&& this@[first_diff as int] != other@[first_diff as int]
                &&& this@[last_diff as int] != other@[last_diff as int]
                &&& forall|k: int| 0 <= k < first_diff ==> this@[k] == other@[k]
                &&& forall|k: int| last_diff < k < i ==> this@[k] == other@[k]
            },
        decreases n - i,
    {
        if this[i] != other[i] {
            if first_diff < 0 {
                first_diff = i as i64;
            }
            last_diff = i as i64;
        }
        i = i + 1;
    }
    (first_diff, last_diff)
}

/// Replaces the tail of the input, from a split point, with the tail of
/// another corpus entry. The split point lies after the first and at or
/// before the last position where the two differ within their common
/// length; without two such distinct positions the mutation skips. It
/// also skips where the result would be longer than `max_size`.
pub fn splice(rand: &mut StdRand, bytes: &mut Vec<u8>, corpus: &InMemoryCorpus, max_size: usize) -> (r: Result<
    MutationResult,
    Error,
>)
    ensures
        corpus.entries@.len() > 0 && corpus.current == Some(drawn(*old(rand), *corpus) as usize)
            ==> r matches Ok(MutationResult::Skipped),
        corpus.entries@.len() > 0 && corpus.current != Some(drawn(*old(rand), *corpus) as usize)
            ==> (r is Err <==> !corpus.has(drawn(*old(rand), *corpus))),
        corpus.entries@.len() > 0 && other_entry(*corpus, drawn(*old(rand), *corpus))
            && entry_input(*corpus, drawn(*old(rand), *corpus)).len() <= max_size && old(bytes)@.len()
            < 0x7fff_ffff_ffff_ffff && two_diffs(old(bytes)@, entry_input(*corpus, drawn(*old(rand), *corpus)))
            ==> r matches Ok(MutationResult::Mutated),
        r matches Ok(MutationResult::Mutated) ==> final(bytes)@.len() <= max_size,
        corpus.entries@.len() == 0 ==> r matches Ok(MutationResult::Skipped),
        corpus.entries@.len() == 1 && corpus.current == Some(0usize) ==> r matches Ok(
            MutationResult::Skipped,
        ),
        !(r matches Ok(MutationResult::Mutated)) ==> final(bytes)@ == old(bytes)@,
        r is Err ==> r->Err_0 is KeyNotFound,
        r matches Ok(MutationResult::Mutated) ==> exists|idx: int, split: int|
            #![trigger entry_input(*corpus, idx).subrange(split, entry_input(*corpus, idx).len() as int)]
            corpus.has(idx) && corpus.current != Some(idx as usize) && 0 < split
                && (exists|j: int| j < split && #[trigger] differs_at(old(bytes)@, entry_input(*corpus, idx), j))
                && (exists|j: int| split <= j && #[trigger] differs_at(old(bytes)@, entry_input(*corpus, idx), j))
                && final(bytes)@ == old(bytes)@.subrange(0, split) + entry_input(*corpus, idx).subrange(
                split,
                entry_input(*corpus, idx).len() as int,
            ),
{
    let idx = match pick_other(rand, corpus)? {
        None => { return Ok(MutationResult::Skipped); },
        Some(i) => i,
    };
    let other = corpus.entries[idx].as_ref().unwrap().input.bytes.as_slice();
    if bytes.len() as u64 >= 0x7fff_ffff_ffff_ffffu64 || other.len() > max_size {
        return Ok(MutationResult::Skipped);
    }
    let (f, l) = locate_diffs(bytes.as_slice(), other);
    if f < 0 || f == l {
        proof {
            if two_diffs(old(bytes)@, other@) {
                let (j, k) = choose|j: int, k: int| j < k && #[trigger] differs_at(old(bytes)@, other@, j) && #[trigger] differs_at(old(bytes)@, other@, k);
                assert(old(bytes)@[j] != other@[j]);
                assert(old(bytes)@[k] != other@[k]);
            }
            assert(other@ == entry_input(*corpus, idx as int));
        }
        return Ok(MutationResult::Skipped);
    }
    let split_at = rand.between((f + 1) as u64, l as u64) as usize;
    bytes.truncate(split_at);
    let ghost head = bytes@;
    let mut k: usize = split_at;
    while k < other.len()
        invariant
            split_at <= k <= other@.len(),
            head.len() == split_at,
            bytes@ == head + other@.subrange(split_at as int, k as int),
        decreases other@.len() - k,
    {
        bytes.push(other[k]);
        k = k + 1;
        assert(bytes@ =~= head + other@.subrange(split_at as int, k as int));
    }
    assert(differs_at(old(bytes)@, other@, f as int));
    assert(differs_at(old(bytes)@, other@, l as int));
    assert(other@ == entry_input(*corpus, idx as int));
    Ok(MutationResult::Mutated)
}

/// The largest value that arithmetic mutations add or subtract.
pub const ARITH_MAX: u64 = 35;

/// The value of the `k` bytes of `s` from `idx` read in little-endian order.
pub open spec fn le_read(s: Seq<u8>, idx: int, k: nat) -> u64
    decreases k,
{
    if k == 0 {
        0
    } else {
        le_read(s, idx, (k - 1) as nat) | ((s[idx + k - 1] as u64) << (8 * (k - 1)) as u64)
    }
}

/// The value of the `k` bytes of `s` from `idx` read in big-endian order.
pub open spec fn be_read(s: Seq<u8>, idx: int, k: nat) -> u64
    decreases k,
{
    if k == 0 {
        0
    } else {
        (be_read(s, idx, (k - 1) as nat) << 8u64) | (s[idx + k - 1] as u64)
    }
}

/// The mask of the low `w` bytes of a 64-bit word.
pub open spec fn width_mask(w: nat) -> u64 {
    if w >= 8 {
        u64::MAX
    } else {
        ((1u64 << (8 * w) as u64) - 1) as u64
    }
}

/// The window of `w` bytes at `idx` after an arithmetic mutation by `n`:
/// `op` 0 adds and 1 subtracts in little-endian order, 2 adds and 3
/// subtracts in big-endian order, all modulo `2^(8w)`.
pub open spec fn arith_window(s: Seq<u8>, idx: int, w: nat, n: u64, op: u64) -> Seq<u8> {
    if op == 0 {
        le_bytes(le_read(s, idx, w).wrapping_add(n) & width_mask(w), w)
    } else if op == 1 {
        le_bytes(le_read(s, idx, w).wrapping_sub(n) & width_mask(w), w)
    } else if op == 2 {
        be_bytes(be_read(s, idx, w).wrapping_add(n) & width_mask(w), w)
    } else {
        be_bytes(be_read(s, idx, w).wrapping_sub(n) & width_mask(w), w)
    }
}

fn le_read_exec(s: &[u8], idx: usize, w: usize) -> (r: u64)
    requires
        idx + w <= s@.len(),
        w <= 8,
    ensures
        r == le_read(s@, idx as int, w as nat),
{
    let sl = s.len();
    let mut v: u64 = 0;
    let mut k: usize = 0;
    while k < w
        invariant
            sl == s@.len(),
            k <= w <= 8,
            idx + w <= s@.len(),
            v == le_read(s@, idx as int, k as nat),
        decreases w - k,
    {
        let sh: u64 = 8 * (k as u64);
        v = v | ((s[idx + k] as u64) << sh);
        k = k + 1;
    }
    v
}

fn be_read_exec(s: &[u8], idx: usize, w: usize) -> (r: u64)
    requires
        idx + w <= s@.len(),
        w <= 8,
    ensures
        r == be_read(s@, idx as int, w as nat),
{
    let sl = s.len();
    let mut v: u64 = 0;
    let mut k: usize = 0;
    while k < w
        invariant
            sl == s@.len(),
            k <= w <= 8,
            idx + w <= s@.len(),
            v == be_read(s@, idx as int, k as nat),
        decreases w - k,
    {
        v = (v << 8u64) | (s[idx + k] as u64);
        k = k + 1;
    }
    v
}

fn width_mask_exec(w: usize) -> (r: u64)
    requires
        1 <= w <= 8,
    ensures
        r == width_mask(w as nat),
{
    if w >= 8 {
        u64::MAX
    } else {
        assert(1 <= w < 8 ==> (1u64 << (8 * w) as u64) >= 1) by (bit_vector);
        (1u64 << (8 * (w as u64))) - 1
    }
}

/// Adds or subtracts a random value in `[1, ARITH_MAX]` to a random window
/// of `w` bytes, read in a random byte order.
pub fn arith_mutate(rand: &mut StdRand, bytes: &mut Vec<u8>, w: usize) -> (r: MutationResult)
    requires
        1 <= w <= 8,
    ensures
        (old(bytes)@.len() < w) <==> r == MutationResult::Skipped,
        r == MutationResult::Skipped ==> final(bytes)@ == old(bytes)@,
        r == MutationResult::Mutated ==> exists|idx: int, n: u64, op: u64|
            #![trigger arith_window(old(bytes)@, idx, w as nat, n, op)]
            0 <= idx && idx + w <= old(bytes)@.len() && 1 <= n <= ARITH_MAX && op < 4
                && final(bytes)@ == overwrite(old(bytes)@, idx, arith_window(old(bytes)@, idx, w as nat, n, op)),
{
    let size = bytes.len();
    if size < w {
        return MutationResult::Skipped;
    }
    let idx = rand.below((size - w + 1) as u64) as usize;
    let n = 1 + rand.below(ARITH_MAX);
    let op = rand.below(4);
    let mask = width_mask_exec(w);
    let window = if op == 0 {
        le_bytes_exec(le_read_exec(bytes.as_slice(), idx, w).wrapping_add(n) & mask, w)
    } else if op == 1 {
        le_bytes_exec(le_read_exec(bytes.as_slice(), idx, w).wrapping_sub(n) & mask, w)
    } else if op == 2 {
        be_bytes_exec(be_read_exec(bytes.as_slice(), idx, w).wrapping_add(n) & mask, w)
    } else {
        be_bytes_exec(be_read_exec(bytes.as_slice(), idx, w).wrapping_sub(n) & mask, w)
    };
    assert(window@ == arith_window(old(bytes)@, idx as int, w as nat, n, op));
    buffer_copy(bytes, window.as_slice(), 0, idx, w);
    assert(window@.subrange(0, w as int) =~= window@);
    MutationResult::Mutated
}

/// Interesting 8-bit values from AFL.
pub open spec fn interesting_8() -> Seq<i64> {
    seq![-128i64, -1i64, 0i64, 1i64, 16i64, 32i64, 64i64, 100i64, 127i64]
}

/// Interesting 16-bit values from AFL.
pub open spec fn interesting_16() -> Seq<i64> {
    interesting_8() + seq![-32768i64, -129i64, 128i64, 255i64, 256i64, 512i64, 1000i64, 1024i64, 4096i64, 32767i64]
}

/// Interesting 32-bit values from AFL.
pub open spec fn interesting_32() -> Seq<i64> {
    interesting_16() + seq![
        -2147483648i64,
        -100663046i64,
        -32769i64,
        32768i64,
        65535i64,
        65536i64,
        100663045i64,
        2147483647i64,
    ]
}

/// The interesting values for windows of `w` bytes.
pub open spec fn interesting_for(w: nat) -> Seq<i64> {
    if w == 1 {
        interesting_8()
    } else if w == 2 {
        interesting_16()
    } else {
        interesting_32()
    }
}

/// The bytes of the `k`-th interesting value of width `w`, big-endian if `big`.
pub open spec fn interesting_window(w: nat, k: int, big: bool) -> Seq<u8> {
    if big {
        be_bytes(#[verifier::truncate] (interesting_for(w)[k] as u64), w)
    } else {
        le_bytes(#[verifier::truncate] (interesting_for(w)[k] as u64), w)
    }
}

fn interesting_values(w: usize) -> (r: Vec<i64>)
    ensures
        r@ == interesting_for(w as nat),
{
    let mut v: Vec<i64> = vec![-128, -1, 0, 1, 16, 32, 64, 100, 127];
    assert(v@ =~= interesting_8());
    if w == 1 {
        return v;
    }
    let extra16: Vec<i64> = vec![-32768, -129, 128, 255, 256, 512, 1000, 1024, 4096, 32767];
    let mut k: usize = 0;
    let ghost v0 = v@;
    while k < extra16.len()
        invariant
            k <= extra16@.len(),
            v@ == v0 + extra16@.subrange(0, k as int),
        decreases extra16@.len() - k,
    {
        v.push(extra16[k]);
        k = k + 1;
        assert(v@ =~= v0 + extra16@.subrange(0, k as int));
    }
    assert(extra16@.subrange(0, k as int) =~= seq![-32768i64, -129i64, 128i64, 255i64, 256i64, 512i64, 1000i64, 1024i64, 4096i64, 32767i64]);
    assert(v@ =~= interesting_16());
    if w == 2 {
        return v;
    }
    let extra32: Vec<i64> = vec![-2147483648, -100663046, -32769, 32768, 65535, 65536, 100663045, 2147483647];
    let ghost v1 = v@;
    let mut j: usize = 0;
    while j < extra32.len()
        invariant
            j <= extra32@.len(),
            v@ == v1 + extra32@.subrange(0, j as int),
        decreases extra32@.len() - j,
    {
        v.push(extra32[j]);
        j = j + 1;
        assert(v@ =~= v1 + extra32@.subrange(0, j as int));
    }
    assert(extra32@.subrange(0, j as int) =~= seq![-2147483648i64, -100663046i64, -32769i64, 32768i64, 65535i64, 65536i64, 100663045i64, 2147483647i64]);
    assert(v@ =~= interesting_32());
    v
}

/// Writes an interesting value of width `w` (1, 2 or 4 bytes), in a random
/// byte order, over a random window of the input.
pub fn interesting_mutate(rand: &mut StdRand, bytes: &mut Vec<u8>, w: usize) -> (r: MutationResult)
    requires
        w == 1 || w == 2 || w == 4,
    ensures
        (old(bytes)@.len() < w) <==> r == MutationResult::Skipped,
        r == MutationResult::Skipped ==> final(bytes)@ == old(bytes)@,
        r == MutationResult::Mutated ==> exists|idx: int, k: int, big: bool|
            #![trigger overwrite(old(bytes)@, idx, interesting_window(w as nat, k, big))]
            0 <= idx && idx + w <= old(bytes)@.len() && 0 <= k < interesting_for(w as nat).len()
                && final(bytes)@ == overwrite(old(bytes)@, idx, interesting_window(w as nat, k, big)),
{
    let size = bytes.len();
    if size < w {
        return MutationResult::Skipped;
    }
    let idx = rand.below((size - w + 1) as u64) as usize;
    let table = interesting_values(w);
    let k = rand.below(table.len() as u64) as usize;
    let val = #[verifier::truncate] (table[k] as u64);
    let big = rand.below(2) == 0;
    let window = if big { be_bytes_exec(val, w) } else { le_bytes_exec(val, w) };
    buffer_copy(bytes, window.as_slice(), 0, idx, w);
    assert(window@.subrange(0, w as int) =~= window@);
    assert(interesting_for(w as nat)[k as int] == table@[k as int]);
    assert(window@ == interesting_window(w as nat, k as int, big));
    MutationResult::Mutated
}

/// Flips a random bit of a random byte.
#[derive(Debug)]
pub struct BitFlipMutator {}

impl BitFlipMutator {
    /// Creates a new [`BitFlipMutator`].
    pub fn new() -> (r: BitFlipMutator) {
        BitFlipMutator {}
    }

    /// The name of this mutator.
    pub fn name(&self) -> (r: &'static str)
        ensures
            r@ == "BitFlipMutator"@,
    {
        "BitFlipMutator"
    }
}

impl Mutator for BitFlipMutator {
    fn mutate(&mut self, state: &mut StdState, input: &mut BytesInput, stage_idx: i32) -> (r:
        Result<MutationResult, Error>)
        ensures
            r is Ok,
        (old(input).bytes@.len() == 0) <==> r == Ok::<MutationResult, Error>(MutationResult::Skipped),
        r == Ok::<MutationResult, Error>(MutationResult::Skipped) ==> final(input).bytes@ == old(input).bytes@,
        r == Ok::<MutationResult, Error>(MutationResult::Mutated) ==> exists|i: int, b: u8|
            0 <= i < old(input).bytes@.len() && b < 8 && final(input).bytes@ == old(input).bytes@.update(
                i,
                old(input).bytes@[i] ^ (1u8 << b),
            ),    {
        Ok(bit_flip(&mut state.rand, &mut input.bytes))
    }
}

/// Flips all bits of a random byte.
#[derive(Debug)]
pub struct ByteFlipMutator {}

impl ByteFlipMutator {
    /// Creates a new [`ByteFlipMutator`].
    pub fn new() -> (r: ByteFlipMutator) {
        ByteFlipMutator {}
    }

    /// The name of this mutator.
    pub fn name(&self) -> (r: &'static str)
        ensures
            r@ == "ByteFlipMutator"@,
    {
        "ByteFlipMutator"
    }
}

impl Mutator for ByteFlipMutator {
    fn mutate(&mut self, state: &mut StdState, input: &mut BytesInput, stage_idx: i32) -> (r:
        Result<MutationResult, Error>)
        ensures
            r is Ok,
        (old(input).bytes@.len() == 0) <==> r == Ok::<MutationResult, Error>(MutationResult::Skipped),
        r == Ok::<MutationResult, Error>(MutationResult::Skipped) ==> final(input).bytes@ == old(input).bytes@,
        r == Ok::<MutationResult, Error>(MutationResult::Mutated) ==> exists|i: int|
            0 <= i < old(input).bytes@.len() && final(input).bytes@ == old(input).bytes@.update(
                i,
                apply_op(ByteOp::Flip, old(input).bytes@[i]),
            ),    {
        Ok(byte_op(&mut state.rand, &mut input.bytes, ByteOp::Flip))
    }
}

/// Increments a random byte, wrapping.
#[derive(Debug)]
pub struct ByteIncMutator {}

impl ByteIncMutator {
    /// Creates a new [`ByteIncMutator`].
    pub fn new() -> (r: ByteIncMutator) {
        ByteIncMutator {}
    }

    /// The name of this mutator.
    pub fn name(&self) -> (r: &'static str)
        ensures
            r@ == "ByteIncMutator"@,
    {
        "ByteIncMutator"
    }
}

impl Mutator for ByteIncMutator {
    fn mutate(&mut self, state: &mut StdState, input: &mut BytesInput, stage_idx: i32) -> (r:
        Result<MutationResult, Error>)
        ensures
            r is Ok,
        (old(input).bytes@.len() == 0) <==> r == Ok::<MutationResult, Error>(MutationResult::Skipped),
        r == Ok::<MutationResult, Error>(MutationResult::Skipped) ==> final(input).bytes@ == old(input).bytes@,
        r == Ok::<MutationResult, Error>(MutationResult::Mutated) ==> exists|i: int|
            0 <= i < old(input).bytes@.len() && final(input).bytes@ == old(input).bytes@.update(
                i,
                apply_op(ByteOp::Inc, old(input).bytes@[i]),
            ),    {
        Ok(byte_op(&mut state.rand, &mut input.bytes, ByteOp::Inc))
    }
}

/// Decrements a random byte, wrapping.
#[derive(Debug)]
pub struct ByteDecMutator {}

impl ByteDecMutator {
    /// Creates a new [`ByteDecMutator`].
    pub fn new() -> (r: ByteDecMutator) {
        ByteDecMutator {}
    }

    /// The name of this mutator.
    pub fn name(&self) -> (r: &'static str)
        ensures
            r@ == "ByteDecMutator"@,
    {
        "ByteDecMutator"
    }
}

impl Mutator for ByteDecMutator {
    fn mutate(&mut self, state: &mut StdState, input: &mut BytesInput, stage_idx: i32) -> (r:
        Result<MutationResult, Error>)
        ensures
            r is Ok,
        (old(input).bytes@.len() == 0) <==> r == Ok::<MutationResult, Error>(MutationResult::Skipped),
        r == Ok::<MutationResult, Error>(MutationResult::Skipped) ==> final(input).bytes@ == old(input).bytes@,
        r == Ok::<MutationResult, Error>(MutationResult::Mutated) ==> exists|i: int|
            0 <= i < old(input).bytes@.len() && final(input).bytes@ == old(input).bytes@.update(
                i,
                apply_op(ByteOp::Dec, old(input).bytes@[i]),
            ),    {
        Ok(byte_op(&mut state.rand, &mut input.bytes, ByteOp::Dec))
    }
}

/// Negates a random byte bitwise.
#[derive(Debug)]
pub struct ByteNegMutator {}

impl ByteNegMutator {
    /// Creates a new [`ByteNegMutator`].
    pub fn new() -> (r: ByteNegMutator) {
        ByteNegMutator {}
    }

    /// The name of this mutator.
    pub fn name(&self) -> (r: &'static str)
        ensures
            r@ == "ByteNegMutator"@,
    {
        "ByteNegMutator"
    }
}

impl Mutator for ByteNegMutator {
    fn mutate(&mut self, state: &mut StdState, input: &mut BytesInput, stage_idx: i32) -> (r:
        Result<MutationResult, Error>)
        ensures
            r is Ok,
        (old(input).bytes@.len() == 0) <==> r == Ok::<MutationResult, Error>(MutationResult::Skipped),
        r == Ok::<MutationResult, Error>(MutationResult::Skipped) ==> final(input).bytes@ == old(input).bytes@,
        r == Ok::<MutationResult, Error>(MutationResult::Mutated) ==> exists|i: int|
            0 <= i < old(input).bytes@.len() && final(input).bytes@ == old(input).bytes@.update(
                i,
                apply_op(ByteOp::Neg, old(input).bytes@[i]),
            ),    {
        Ok(byte_op(&mut state.rand, &mut input.bytes, ByteOp::Neg))
    }
}

/// Replaces a random byte with a random value.
#[derive(Debug)]
pub struct ByteRandMutator {}

impl ByteRandMutator {
    /// Creates a new [`ByteRandMutator`].
    pub fn new() -> (r: ByteRandMutator) {
        ByteRandMutator {}
    }

    /// The name of this mutator.
    pub fn name(&self) -> (r: &'static str)
        ensures
            r@ == "ByteRandMutator"@,
    {
        "ByteRandMutator"
    }
}

impl Mutator for ByteRandMutator {
    fn mutate(&mut self, state: &mut StdState, input: &mut BytesInput, stage_idx: i32) -> (r:
        Result<MutationResult, Error>)
        ensures
            r is Ok,
        (old(input).bytes@.len() == 0) <==> r == Ok::<MutationResult, Error>(MutationResult::Skipped),
        r == Ok::<MutationResult, Error>(MutationResult::Skipped) ==> final(input).bytes@ == old(input).bytes@,
        r == Ok::<MutationResult, Error>(MutationResult::Mutated) ==> exists|i: int, v: u8|
            0 <= i < old(input).bytes@.len() && final(input).bytes@ == old(input).bytes@.update(i, v),    {
        Ok(byte_rand(&mut state.rand, &mut input.bytes))
    }
}

/// Deletes a random range of the input.
#[derive(Debug)]
pub struct BytesDeleteMutator {}

impl BytesDeleteMutator {
    /// Creates a new [`BytesDeleteMutator`].
    pub fn new() -> (r: BytesDeleteMutator) {
        BytesDeleteMutator {}
    }

    /// The name of this mutator.
    pub fn name(&self) -> (r: &'static str)
        ensures
            r@ == "BytesDeleteMutator"@,
    {
        "BytesDeleteMutator"
    }
}

impl Mutator for BytesDeleteMutator {
    fn mutate(&mut self, state: &mut StdState, input: &mut BytesInput, stage_idx: i32) -> (r:
        Result<MutationResult, Error>)
        ensures
            r is Ok,
        (old(input).bytes@.len() <= 2) <==> r == Ok::<MutationResult, Error>(MutationResult::Skipped),
        r == Ok::<MutationResult, Error>(MutationResult::Skipped) ==> final(input).bytes@ == old(input).bytes@,
        r == Ok::<MutationResult, Error>(MutationResult::Mutated) ==> exists|off: int, len: int|
            0 <= off < old(input).bytes@.len() && 0 <= len && off + len < old(input).bytes@.len()
                && final(input).bytes@ == delete_at(old(input).bytes@, off, len),    {
        Ok(bytes_delete(&mut state.rand, &mut input.bytes))
    }
}

/// Inserts a zeroed range at a random offset.
#[derive(Debug)]
pub struct BytesExpandMutator {}

impl BytesExpandMutator {
    /// Creates a new [`BytesExpandMutator`].
    pub fn new() -> (r: BytesExpandMutator) {
        BytesExpandMutator {}
    }

    /// The name of this mutator.
    pub fn name(&self) -> (r: &'static str)
        ensures
            r@ == "BytesExpandMutator"@,
    {
        "BytesExpandMutator"
    }
}

impl Mutator for BytesExpandMutator {
    fn mutate(&mut self, state: &mut StdState, input: &mut BytesInput, stage_idx: i32) -> (r:
        Result<MutationResult, Error>)
        ensures
            r is Ok,
        (old(input).bytes@.len() >= old(state).max_size) <==> r == Ok::<MutationResult, Error>(MutationResult::Skipped),
        r == Ok::<MutationResult, Error>(MutationResult::Skipped) ==> final(input).bytes@ == old(input).bytes@,
        r == Ok::<MutationResult, Error>(MutationResult::Mutated) ==> final(input).bytes@.len() <= old(state).max_size && exists|off: int, len: nat|
            0 <= off <= old(input).bytes@.len() && 1 <= len <= 16 && final(input).bytes@ == insert_at(
                old(input).bytes@,
                off,
                filled(len, 0u8),
            ),    {
        Ok(bytes_expand(&mut state.rand, &mut input.bytes, state.max_size))
    }
}

/// Inserts copies of a byte of the input at a random offset.
#[derive(Debug)]
pub struct BytesInsertMutator {}

impl BytesInsertMutator {
    /// Creates a new [`BytesInsertMutator`].
    pub fn new() -> (r: BytesInsertMutator) {
        BytesInsertMutator {}
    }

    /// The name of this mutator.
    pub fn name(&self) -> (r: &'static str)
        ensures
            r@ == "BytesInsertMutator"@,
    {
        "BytesInsertMutator"
    }
}

impl Mutator for BytesInsertMutator {
    fn mutate(&mut self, state: &mut StdState, input: &mut BytesInput, stage_idx: i32) -> (r:
        Result<MutationResult, Error>)
        ensures
            r is Ok,
        (old(input).bytes@.len() == 0 || old(input).bytes@.len() >= old(state).max_size) <==> r == Ok::<MutationResult, Error>(MutationResult::Skipped),
        r == Ok::<MutationResult, Error>(MutationResult::Skipped) ==> final(input).bytes@ == old(input).bytes@,
        r == Ok::<MutationResult, Error>(MutationResult::Mutated) ==> final(input).bytes@.len() <= old(state).max_size && exists|
            off: int,
            len: nat,
            src: int,
        |
            #![trigger insert_at(old(input).bytes@, off, filled(len, old(input).bytes@[src]))]
            0 <= off <= old(input).bytes@.len() && 1 <= len <= 16 && 0 <= src < old(input).bytes@.len()
                && final(input).bytes@ == insert_at(old(input).bytes@, off, filled(len, old(input).bytes@[src])),    {
        Ok(bytes_insert(&mut state.rand, &mut input.bytes, state.max_size))
    }
}

/// Inserts copies of a random byte at a random offset.
#[derive(Debug)]
pub struct BytesRandInsertMutator {}

impl BytesRandInsertMutator {
    /// Creates a new [`BytesRandInsertMutator`].
    pub fn new() -> (r: BytesRandInsertMutator) {
        BytesRandInsertMutator {}
    }

    /// The name of this mutator.
    pub fn name(&self) -> (r: &'static str)
        ensures
            r@ == "BytesRandInsertMutator"@,
    {
        "BytesRandInsertMutator"
    }
}

impl Mutator for BytesRandInsertMutator {
    fn mutate(&mut self, state: &mut StdState, input: &mut BytesInput, stage_idx: i32) -> (r:
        Result<MutationResult, Error>)
        ensures
            r is Ok,
        (old(input).bytes@.len() >= old(state).max_size) <==> r == Ok::<MutationResult, Error>(MutationResult::Skipped),
        r == Ok::<MutationResult, Error>(MutationResult::Skipped) ==> final(input).bytes@ == old(input).bytes@,
        r == Ok::<MutationResult, Error>(MutationResult::Mutated) ==> final(input).bytes@.len() <= old(state).max_size && exists|off: int, len: nat, val: u8|
            0 <= off <= old(input).bytes@.len() && 1 <= len <= 16 && final(input).bytes@ == insert_at(
                old(input).bytes@,
                off,
                filled(len, val),
            ),    {
        Ok(bytes_rand_insert(&mut state.rand, &mut input.bytes, state.max_size))
    }
}

/// Sets a random range to a byte of the input.
#[derive(Debug)]
pub struct BytesSetMutator {}

impl BytesSetMutator {
    /// Creates a new [`BytesSetMutator`].
    pub fn new() -> (r: BytesSetMutator) {
        BytesSetMutator {}
    }

    /// The name of this mutator.
    pub fn name(&self) -> (r: &'static str)
        ensures
            r@ == "BytesSetMutator"@,
    {
        "BytesSetMutator"
    }
}

impl Mutator for BytesSetMutator {
    fn mutate(&mut self, state: &mut StdState, input: &mut BytesInput, stage_idx: i32) -> (r:
        Result<MutationResult, Error>)
        ensures
            r is Ok,
        (old(input).bytes@.len() == 0) <==> r == Ok::<MutationResult, Error>(MutationResult::Skipped),
        r == Ok::<MutationResult, Error>(MutationResult::Skipped) ==> final(input).bytes@ == old(input).bytes@,
        r == Ok::<MutationResult, Error>(MutationResult::Mutated) ==> exists|off: int, len: nat, src: int|
            #![trigger overwrite(old(input).bytes@, off, filled(len, old(input).bytes@[src]))]
            0 <= off && 1 <= len <= 16 && off + len <= old(input).bytes@.len() && 0 <= src
                < old(input).bytes@.len() && final(input).bytes@ == overwrite(
                old(input).bytes@,
                off,
                filled(len, old(input).bytes@[src]),
            ),    {
        Ok(bytes_set(&mut state.rand, &mut input.bytes))
    }
}

/// Sets a random range to a random byte.
#[derive(Debug)]
pub struct BytesRandSetMutator {}

impl BytesRandSetMutator {
    /// Creates a new [`BytesRandSetMutator`].
    pub fn new() -> (r: BytesRandSetMutator) {
        BytesRandSetMutator {}
    }

    /// The name of this mutator.
    pub fn name(&self) -> (r: &'static str)
        ensures
            r@ == "BytesRandSetMutator"@,
    {
        "BytesRandSetMutator"
    }
}

impl Mutator for BytesRandSetMutator {
    fn mutate(&mut self, state: &mut StdState, input: &mut BytesInput, stage_idx: i32) -> (r:
        Result<MutationResult, Error>)
        ensures
            r is Ok,
        (old(input).bytes@.len() == 0) <==> r == Ok::<MutationResult, Error>(MutationResult::Skipped),
        r == Ok::<MutationResult, Error>(MutationResult::Skipped) ==> final(input).bytes@ == old(input).bytes@,
        r == Ok::<MutationResult, Error>(MutationResult::Mutated) ==> exists|off: int, len: nat, val: u8|
            0 <= off && 1 <= len <= 16 && off + len <= old(input).bytes@.len() && final(input).bytes@
                == overwrite(old(input).bytes@, off, filled(len, val)),    {
        Ok(bytes_rand_set(&mut state.rand, &mut input.bytes))
    }
}

/// Copies a random range of the input over another.
#[derive(Debug)]
pub struct BytesCopyMutator {}

impl BytesCopyMutator {
    /// Creates a new [`BytesCopyMutator`].
    pub fn new() -> (r: BytesCopyMutator) {
        BytesCopyMutator {}
    }

    /// The name of this mutator.
    pub fn name(&self) -> (r: &'static str)
        ensures
            r@ == "BytesCopyMutator"@,
    {
        "BytesCopyMutator"
    }
}

impl Mutator for BytesCopyMutator {
    fn mutate(&mut self, state: &mut StdState, input: &mut BytesInput, stage_idx: i32) -> (r:
        Result<MutationResult, Error>)
        ensures
            r is Ok,
        (old(input).bytes@.len() <= 1) <==> r == Ok::<MutationResult, Error>(MutationResult::Skipped),
        r == Ok::<MutationResult, Error>(MutationResult::Skipped) ==> final(input).bytes@ == old(input).bytes@,
        r == Ok::<MutationResult, Error>(MutationResult::Mutated) ==> exists|from: int, to: int, len: int|
            #![trigger overwrite(old(input).bytes@, to, old(input).bytes@.subrange(from, from + len))]
            0 <= from && 0 <= to && 1 <= len && from + len <= old(input).bytes@.len() && to + len
                <= old(input).bytes@.len() && final(input).bytes@ == overwrite(
                old(input).bytes@,
                to,
                old(input).bytes@.subrange(from, from + len),
            ),    {
        Ok(bytes_copy(&mut state.rand, &mut input.bytes))
    }
}

/// Swaps two random ranges of the input.
#[derive(Debug)]
pub struct BytesSwapMutator {}

impl BytesSwapMutator {
    /// Creates a new [`BytesSwapMutator`].
    pub fn new() -> (r: BytesSwapMutator) {
        BytesSwapMutator {}
    }

    /// The name of this mutator.
    pub fn name(&self) -> (r: &'static str)
        ensures
            r@ == "BytesSwapMutator"@,
    {
        "BytesSwapMutator"
    }
}

impl Mutator for BytesSwapMutator {
    fn mutate(&mut self, state: &mut StdState, input: &mut BytesInput, stage_idx: i32) -> (r:
        Result<MutationResult, Error>)
        ensures
            r is Ok,
        (old(input).bytes@.len() <= 1) <==> r == Ok::<MutationResult, Error>(MutationResult::Skipped),
        r == Ok::<MutationResult, Error>(MutationResult::Skipped) ==> final(input).bytes@ == old(input).bytes@,
        r == Ok::<MutationResult, Error>(MutationResult::Mutated) ==> exists|first: int, second: int, len: int|
            #![trigger overwrite(overwrite(old(input).bytes@, first, old(input).bytes@.subrange(second, second + len)), second, old(input).bytes@.subrange(first, first + len))]
            0 <= first && 0 <= second && 1 <= len && first + len <= old(input).bytes@.len() && second
                + len <= old(input).bytes@.len() && final(input).bytes@ == overwrite(
                overwrite(old(input).bytes@, first, old(input).bytes@.subrange(second, second + len)),
                second,
                old(input).bytes@.subrange(first, first + len),
            ),    {
        Ok(bytes_swap(&mut state.rand, &mut input.bytes))
    }
}

/// Inserts a copy of a random range of the input at a random offset.
#[derive(Debug)]
pub struct BytesInsertCopyMutator {
    tmp_buf: Vec<u8>,
}

impl BytesInsertCopyMutator {
    /// Creates a new [`BytesInsertCopyMutator`].
    pub fn new() -> (r: BytesInsertCopyMutator) {
        BytesInsertCopyMutator { tmp_buf: Vec::new() }
    }

    /// The name of this mutator.
    pub fn name(&self) -> (r: &'static str)
        ensures
            r@ == "BytesInsertCopyMutator"@,
    {
        "BytesInsertCopyMutator"
    }
}

impl Mutator for BytesInsertCopyMutator {
    fn mutate(&mut self, state: &mut StdState, input: &mut BytesInput, stage_idx: i32) -> (r:
        Result<MutationResult, Error>)
        ensures
            r is Ok,
        (old(input).bytes@.len() == 0 || old(input).bytes@.len() >= old(state).max_size) <==> r == Ok::<MutationResult, Error>(MutationResult::Skipped),
        r == Ok::<MutationResult, Error>(MutationResult::Skipped) ==> final(input).bytes@ == old(input).bytes@,
        r == Ok::<MutationResult, Error>(MutationResult::Mutated) ==> exists|off: int, from: int, len: int|
            #![trigger insert_at(old(input).bytes@, off, old(input).bytes@.subrange(from, from + len))]
            0 <= off <= old(input).bytes@.len() && 0 <= from && 1 <= len <= 16 && from + len <= old(input).bytes@.len() && final(input).bytes@ == insert_at(
                old(input).bytes@,
                off,
                old(input).bytes@.subrange(from, from + len),
            ),
        r == Ok::<MutationResult, Error>(MutationResult::Mutated) ==> final(input).bytes@.len() <= old(state).max_size,    {
        Ok(bytes_insert_copy(&mut state.rand, &mut input.bytes, &mut self.tmp_buf, state.max_size))
    }
}

/// Inserts a range of another corpus entry into the input.
#[derive(Debug)]
pub struct CrossoverInsertMutator {}

impl CrossoverInsertMutator {
    /// Creates a new [`CrossoverInsertMutator`].
    pub fn new() -> (r: CrossoverInsertMutator) {
        CrossoverInsertMutator {}
    }

    /// The name of this mutator.
    pub fn name(&self) -> (r: &'static str)
        ensures
            r@ == "CrossoverInsertMutator"@,
    {
        "CrossoverInsertMutator"
    }
}

impl Mutator for CrossoverInsertMutator {
    fn mutate(&mut self, state: &mut StdState, input: &mut BytesInput, stage_idx: i32) -> (r:
        Result<MutationResult, Error>)
        ensures
            old(state).corpus.entries@.len() > 0 && old(state).corpus.current == Some(drawn(old(state).rand, old(state).corpus) as usize)
                ==> r matches Ok(MutationResult::Skipped),
        old(state).corpus.entries@.len() > 0 && old(state).corpus.current != Some(drawn(old(state).rand, old(state).corpus) as usize)
            ==> (r is Err <==> !old(state).corpus.has(drawn(old(state).rand, old(state).corpus))),
        old(state).corpus.entries@.len() > 0 && other_entry(old(state).corpus, drawn(old(state).rand, old(state).corpus))
            && entry_input(old(state).corpus, drawn(old(state).rand, old(state).corpus)).len() >= 2 && old(input).bytes@.len()
            < old(state).max_size ==> r matches Ok(MutationResult::Mutated),
        old(state).corpus.entries@.len() == 0 ==> r matches Ok(MutationResult::Skipped),
        old(state).corpus.entries@.len() == 1 && old(state).corpus.current == Some(0usize) ==> r matches Ok(
            MutationResult::Skipped,
        ),
        !(r matches Ok(MutationResult::Mutated)) ==> final(input).bytes@ == old(input).bytes@,
        r is Err ==> r->Err_0 is KeyNotFound,
        r matches Ok(MutationResult::Mutated) ==> final(input).bytes@.len() <= old(state).max_size && exists|
            idx: int,
            from: int,
            len: int,
            to: int,
        |
            #![trigger insert_at(old(input).bytes@, to, entry_input(old(state).corpus, idx).subrange(from, from + len))]
            old(state).corpus.has(idx) && old(state).corpus.current != Some(idx as usize) && 0 <= from && 1 <= len
                && from + len <= entry_input(old(state).corpus, idx).len() && 0 <= to <= old(input).bytes@.len()
                && final(input).bytes@ == insert_at(
                old(input).bytes@,
                to,
                entry_input(old(state).corpus, idx).subrange(from, from + len),
            ),    {
        crossover_insert(&mut state.rand, &mut input.bytes, &state.corpus, state.max_size)
    }
}

/// Overwrites a range of the input with a range of another corpus entry.
#[derive(Debug)]
pub struct CrossoverReplaceMutator {}

impl CrossoverReplaceMutator {
    /// Creates a new [`CrossoverReplaceMutator`].
    pub fn new() -> (r: CrossoverReplaceMutator) {
        CrossoverReplaceMutator {}
    }

    /// The name of this mutator.
    pub fn name(&self) -> (r: &'static str)
        ensures
            r@ == "CrossoverReplaceMutator"@,
    {
        "CrossoverReplaceMutator"
    }
}

impl Mutator for CrossoverReplaceMutator {
    fn mutate(&mut self, state: &mut StdState, input: &mut BytesInput, stage_idx: i32) -> (r:
        Result<MutationResult, Error>)
        ensures
            old(state).corpus.entries@.len() > 0 && old(state).corpus.current == Some(drawn(old(state).rand, old(state).corpus) as usize)
                ==> r matches Ok(MutationResult::Skipped),
        old(input).bytes@.len() > 0 && old(state).corpus.entries@.len() > 0 && old(state).corpus.current != Some(drawn(old(state).rand, old(state).corpus) as usize)
            ==> (r is Err <==> !old(state).corpus.has(drawn(old(state).rand, old(state).corpus))),
        old(input).bytes@.len() > 0 && old(state).corpus.entries@.len() > 0 && other_entry(old(state).corpus, drawn(old(state).rand, old(state).corpus))
            && entry_input(old(state).corpus, drawn(old(state).rand, old(state).corpus)).len() >= 2 ==> r matches Ok(
            MutationResult::Mutated,
        ),
        final(input).bytes@.len() == old(input).bytes@.len(),
        old(input).bytes@.len() == 0 ==> r matches Ok(MutationResult::Skipped),
        old(state).corpus.entries@.len() == 0 ==> r matches Ok(MutationResult::Skipped),
        old(state).corpus.entries@.len() == 1 && old(state).corpus.current == Some(0usize) ==> r matches Ok(
            MutationResult::Skipped,
        ),
        !(r matches Ok(MutationResult::Mutated)) ==> final(input).bytes@ == old(input).bytes@,
        r is Err ==> r->Err_0 is KeyNotFound,
        r matches Ok(MutationResult::Mutated) ==> exists|idx: int, from: int, len: int, to: int|
            #![trigger overwrite(old(input).bytes@, to, entry_input(old(state).corpus, idx).subrange(from, from + len))]
            old(state).corpus.has(idx) && old(state).corpus.current != Some(idx as usize) && 0 <= from && 0 <= len
                && from + len <= entry_input(old(state).corpus, idx).len() && 0 <= to && to + len <= old(input).bytes@.len() && final(input).bytes@ == overwrite(
                old(input).bytes@,
                to,
                entry_input(old(state).corpus, idx).subrange(from, from + len),
            ),    {
        crossover_replace(&mut state.rand, &mut input.bytes, &state.corpus)
    }
}

/// Replaces the tail of the input with the tail of another corpus entry.
#[derive(Debug)]
pub struct SpliceMutator {}

impl SpliceMutator {
    /// Creates a new [`SpliceMutator`].
    pub fn new() -> (r: SpliceMutator) {
        SpliceMutator {}
    }

    /// The name of this mutator.
    pub fn name(&self) -> (r: &'static str)
        ensures
            r@ == "SpliceMutator"@,
    {
        "SpliceMutator"
    }
}

impl Mutator for SpliceMutator {
    fn mutate(&mut self, state: &mut StdState, input: &mut BytesInput, stage_idx: i32) -> (r:
        Result<MutationResult, Error>)
        ensures
            old(state).corpus.entries@.len() > 0 && old(state).corpus.current == Some(drawn(old(state).rand, old(state).corpus) as usize)
                ==> r matches Ok(MutationResult::Skipped),
        old(state).corpus.entries@.len() > 0 && old(state).corpus.current != Some(drawn(old(state).rand, old(state).corpus) as usize)
            ==> (r is Err <==> !old(state).corpus.has(drawn(old(state).rand, old(state).corpus))),
        old(state).corpus.entries@.len() > 0 && other_entry(old(state).corpus, drawn(old(state).rand, old(state).corpus))
            && entry_input(old(state).corpus, drawn(old(state).rand, old(state).corpus)).len() <= old(state).max_size && old(input).bytes@.len()
            < 0x7fff_ffff_ffff_ffff && two_diffs(old(input).bytes@, entry_input(old(state).corpus, drawn(old(state).rand, old(state).corpus)))
            ==> r matches Ok(MutationResult::Mutated),
        r matches Ok(MutationResult::Mutated) ==> final(input).bytes@.len() <= old(state).max_size,
        old(state).corpus.entries@.len() == 0 ==> r matches Ok(MutationResult::Skipped),
        old(state).corpus.entries@.len() == 1 && old(state).corpus.current == Some(0usize) ==> r matches Ok(
            MutationResult::Skipped,
        ),
        !(r matches Ok(MutationResult::Mutated)) ==> final(input).bytes@ == old(input).bytes@,
        r is Err ==> r->Err_0 is KeyNotFound,
        r matches Ok(MutationResult::Mutated) ==> exists|idx: int, split: int|
            #![trigger entry_input(old(state).corpus, idx).subrange(split, entry_input(old(state).corpus, idx).len() as int)]
            old(state).corpus.has(idx) && old(state).corpus.current != Some(idx as usize) && 0 < split
                && (exists|j: int| j < split && #[trigger] differs_at(old(input).bytes@, entry_input(old(state).corpus, idx), j))
                && (exists|j: int| split <= j && #[trigger] differs_at(old(input).bytes@, entry_input(old(state).corpus, idx), j))
                && final(input).bytes@ == old(input).bytes@.subrange(0, split) + entry_input(old(state).corpus, idx).subrange(
                split,
                entry_input(old(state).corpus, idx).len() as int,
            ),    {
        splice(&mut state.rand, &mut input.bytes, &state.corpus, state.max_size)
    }
}

/// Adds or subtracts a small value to a random byte.
#[derive(Debug)]
pub struct ByteAddMutator {}

impl ByteAddMutator {
    /// Creates a new [`ByteAddMutator`].
    pub fn new() -> (r: ByteAddMutator) {
        ByteAddMutator {}
    }

    /// The name of this mutator.
    pub fn name(&self) -> (r: &'static str)
        ensures
            r@ == "ByteAddMutator"@,
    {
        "ByteAddMutator"
    }
}

impl Mutator for ByteAddMutator {
    fn mutate(&mut self, state: &mut StdState, input: &mut BytesInput, stage_idx: i32) -> (r:
        Result<MutationResult, Error>)
        ensures
            r is Ok,
        (old(input).bytes@.len() < 1) <==> r == Ok::<MutationResult, Error>(MutationResult::Skipped),
        r == Ok::<MutationResult, Error>(MutationResult::Skipped) ==> final(input).bytes@ == old(input).bytes@,
        r == Ok::<MutationResult, Error>(MutationResult::Mutated) ==> exists|idx: int, n: u64, op: u64|
            #![trigger arith_window(old(input).bytes@, idx, 1 as nat, n, op)]
            0 <= idx && idx + 1 <= old(input).bytes@.len() && 1 <= n <= ARITH_MAX && op < 4
                && final(input).bytes@ == overwrite(old(input).bytes@, idx, arith_window(old(input).bytes@, idx, 1 as nat, n, op)),    {
        Ok(arith_mutate(&mut state.rand, &mut input.bytes, 1))
    }
}

/// Adds or subtracts a small value to a random 16-bit word, in random byte order.
#[derive(Debug)]
pub struct WordAddMutator {}

impl WordAddMutator {
    /// Creates a new [`WordAddMutator`].
    pub fn new() -> (r: WordAddMutator) {
        WordAddMutator {}
    }

    /// The name of this mutator.
    pub fn name(&self) -> (r: &'static str)
        ensures
            r@ == "WordAddMutator"@,
    {
        "WordAddMutator"
    }
}

impl Mutator for WordAddMutator {
    fn mutate(&mut self, state: &mut StdState, input: &mut BytesInput, stage_idx: i32) -> (r:
        Result<MutationResult, Error>)
        ensures
            r is Ok,
        (old(input).bytes@.len() < 2) <==> r == Ok::<MutationResult, Error>(MutationResult::Skipped),
        r == Ok::<MutationResult, Error>(MutationResult::Skipped) ==> final(input).bytes@ == old(input).bytes@,
        r == Ok::<MutationResult, Error>(MutationResult::Mutated) ==> exists|idx: int, n: u64, op: u64|
            #![trigger arith_window(old(input).bytes@, idx, 2 as nat, n, op)]
            0 <= idx && idx + 2 <= old(input).bytes@.len() && 1 <= n <= ARITH_MAX && op < 4
                && final(input).bytes@ == overwrite(old(input).bytes@, idx, arith_window(old(input).bytes@, idx, 2 as nat, n, op)),    {
        Ok(arith_mutate(&mut state.rand, &mut input.bytes, 2))
    }
}

/// Adds or subtracts a small value to a random 32-bit word, in random byte order.
#[derive(Debug)]
pub struct DwordAddMutator {}

impl DwordAddMutator {
    /// Creates a new [`DwordAddMutator`].
    pub fn new() -> (r: DwordAddMutator) {
        DwordAddMutator {}
    }

    /// The name of this mutator.
    pub fn name(&self) -> (r: &'static str)
        ensures
            r@ == "DwordAddMutator"@,
    {
        "DwordAddMutator"
    }
}

impl Mutator for DwordAddMutator {
    fn mutate(&mut self, state: &mut StdState, input: &mut BytesInput, stage_idx: i32) -> (r:
        Result<MutationResult, Error>)
        ensures
            r is Ok,
        (old(input).bytes@.len() < 4) <==> r == Ok::<MutationResult, Error>(MutationResult::Skipped),
        r == Ok::<MutationResult, Error>(MutationResult::Skipped) ==> final(input).bytes@ == old(input).bytes@,
        r == Ok::<MutationResult, Error>(MutationResult::Mutated) ==> exists|idx: int, n: u64, op: u64|
            #![trigger arith_window(old(input).bytes@, idx, 4 as nat, n, op)]
            0 <= idx && idx + 4 <= old(input).bytes@.len() && 1 <= n <= ARITH_MAX && op < 4
                && final(input).bytes@ == overwrite(old(input).bytes@, idx, arith_window(old(input).bytes@, idx, 4 as nat, n, op)),    {
        Ok(arith_mutate(&mut state.rand, &mut input.bytes, 4))
    }
}

/// Adds or subtracts a small value to a random 64-bit word, in random byte order.
#[derive(Debug)]
pub struct QwordAddMutator {}

impl QwordAddMutator {
    /// Creates a new [`QwordAddMutator`].
    pub fn new() -> (r: QwordAddMutator) {
        QwordAddMutator {}
    }

    /// The name of this mutator.
    pub fn name(&self) -> (r: &'static str)
        ensures
            r@ == "QwordAddMutator"@,
    {
        "QwordAddMutator"
    }
}

impl Mutator for QwordAddMutator {
    fn mutate(&mut self, state: &mut StdState, input: &mut BytesInput, stage_idx: i32) -> (r:
        Result<MutationResult, Error>)
        ensures
            r is Ok,
        (old(input).bytes@.len() < 8) <==> r == Ok::<MutationResult, Error>(MutationResult::Skipped),
        r == Ok::<MutationResult, Error>(MutationResult::Skipped) ==> final(input).bytes@ == old(input).bytes@,
        r == Ok::<MutationResult, Error>(MutationResult::Mutated) ==> exists|idx: int, n: u64, op: u64|
            #![trigger arith_window(old(input).bytes@, idx, 8 as nat, n, op)]
            0 <= idx && idx + 8 <= old(input).bytes@.len() && 1 <= n <= ARITH_MAX && op < 4
                && final(input).bytes@ == overwrite(old(input).bytes@, idx, arith_window(old(input).bytes@, idx, 8 as nat, n, op)),    {
        Ok(arith_mutate(&mut state.rand, &mut input.bytes, 8))
    }
}

/// Writes an interesting 8-bit value at a random place.
#[derive(Debug)]
pub struct ByteInterestingMutator {}

impl ByteInterestingMutator {
    /// Creates a new [`ByteInterestingMutator`].
    pub fn new() -> (r: ByteInterestingMutator) {
        ByteInterestingMutator {}
    }

    /// The name of this mutator.
    pub fn name(&self) -> (r: &'static str)
        ensures
            r@ == "ByteInterestingMutator"@,
    {
        "ByteInterestingMutator"
    }
}

impl Mutator for ByteInterestingMutator {
    fn mutate(&mut self, state: &mut StdState, input: &mut BytesInput, stage_idx: i32) -> (r:
        Result<MutationResult, Error>)
        ensures
            r is Ok,
        (old(input).bytes@.len() < 1) <==> r == Ok::<MutationResult, Error>(MutationResult::Skipped),
        r == Ok::<MutationResult, Error>(MutationResult::Skipped) ==> final(input).bytes@ == old(input).bytes@,
        r == Ok::<MutationResult, Error>(MutationResult::Mutated) ==> exists|idx: int, k: int, big: bool|
            #![trigger overwrite(old(input).bytes@, idx, interesting_window(1 as nat, k, big))]
            0 <= idx && idx + 1 <= old(input).bytes@.len() && 0 <= k < interesting_for(1 as nat).len()
                && final(input).bytes@ == overwrite(old(input).bytes@, idx, interesting_window(1 as nat, k, big)),    {
        Ok(interesting_mutate(&mut state.rand, &mut input.bytes, 1))
    }
}

/// Writes an interesting 16-bit value at a random place, in random byte order.
#[derive(Debug)]
pub struct WordInterestingMutator {}

impl WordInterestingMutator {
    /// Creates a new [`WordInterestingMutator`].
    pub fn new() -> (r: WordInterestingMutator) {
        WordInterestingMutator {}
    }

    /// The name of this mutator.
    pub fn name(&self) -> (r: &'static str)
        ensures
            r@ == "WordInterestingMutator"@,
    {
        "WordInterestingMutator"
    }
}

impl Mutator for WordInterestingMutator {
    fn mutate(&mut self, state: &mut StdState, input: &mut BytesInput, stage_idx: i32) -> (r:
        Result<MutationResult, Error>)
        ensures
            r is Ok,
        (old(input).bytes@.len() < 2) <==> r == Ok::<MutationResult, Error>(MutationResult::Skipped),
        r == Ok::<MutationResult, Error>(MutationResult::Skipped) ==> final(input).bytes@ == old(input).bytes@,
        r == Ok::<MutationResult, Error>(MutationResult::Mutated) ==> exists|idx: int, k: int, big: bool|
            #![trigger overwrite(old(input).bytes@, idx, interesting_window(2 as nat, k, big))]
            0 <= idx && idx + 2 <= old(input).bytes@.len() && 0 <= k < interesting_for(2 as nat).len()
                && final(input).bytes@ == overwrite(old(input).bytes@, idx, interesting_window(2 as nat, k, big)),    {
        Ok(interesting_mutate(&mut state.rand, &mut input.bytes, 2))
    }
}

/// Writes an interesting 32-bit value at a random place, in random byte order.
#[derive(Debug)]
pub struct DwordInterestingMutator {}

impl DwordInterestingMutator {
    /// Creates a new [`DwordInterestingMutator`].
    pub fn new() -> (r: DwordInterestingMutator) {
        DwordInterestingMutator {}
    }

    /// The name of this mutator.
    pub fn name(&self) -> (r: &'static str)
        ensures
            r@ == "DwordInterestingMutator"@,
    {
        "DwordInterestingMutator"
    }
}

impl Mutator for DwordInterestingMutator {
    fn mutate(&mut self, state: &mut StdState, input: &mut BytesInput, stage_idx: i32) -> (r:
        Result<MutationResult, Error>)
        ensures
            r is Ok,
        (old(input).bytes@.len() < 4) <==> r == Ok::<MutationResult, Error>(MutationResult::Skipped),
        r == Ok::<MutationResult, Error>(MutationResult::Skipped) ==> final(input).bytes@ == old(input).bytes@,
        r == Ok::<MutationResult, Error>(MutationResult::Mutated) ==> exists|idx: int, k: int, big: bool|
            #![trigger overwrite(old(input).bytes@, idx, interesting_window(4 as nat, k, big))]
            0 <= idx && idx + 4 <= old(input).bytes@.len() && 0 <= k < interesting_for(4 as nat).len()
                && final(input).bytes@ == overwrite(old(input).bytes@, idx, interesting_window(4 as nat, k, big)),    {
        Ok(interesting_mutate(&mut state.rand, &mut input.bytes, 4))
    }
}

} // verus!
