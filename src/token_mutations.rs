//! Mutations driven by state metadata: dictionary tokens and the operands
//! of comparisons captured while tracing (input-to-state replacement).
use vstd::prelude::*;
use crate::error::Error;
use crate::inputs::BytesInput;
use crate::mutations::{
    buffer_copy, clamp_growth, insert_at, overwrite, only_rand_changed, MutationResult, Mutator,
};
use crate::observers::{CmpValues, CmpValuesMetadata};
use crate::rands::{after_pick, pick, StdRand};
use crate::state::StdState;
use crate::tokens::Tokens;

verus! {

/// The tokens of an optional dictionary; none if it is absent.
pub open spec fn dict(tokens: Option<Tokens>) -> Seq<Seq<u8>> {
    match tokens {
        Some(t) => t@,
        None => Seq::empty(),
    }
}

/// Inserts a random dictionary token at a random offset, cut short where
/// the input would outgrow `max_size`. Skips without tokens, or where no
/// byte of the token fits.
pub fn token_insert(
    rand: &mut StdRand,
    bytes: &mut Vec<u8>,
    tokens: &Option<Tokens>,
    max_size: usize,
) -> (r: MutationResult)
    ensures
        dict(*tokens).len() == 0 || old(bytes)@.len() >= max_size ==> r
            == MutationResult::Skipped,
        dict(*tokens).len() > 0 && old(bytes)@.len() < max_size ==> (r == MutationResult::Mutated
            <==> dict(*tokens)[pick(*old(rand), dict(*tokens).len() as u64) as int].len() > 0),
        dict(*tokens).len() > 0 && old(bytes)@.len() < max_size && (forall|t: int|
            0 <= t < dict(*tokens).len() ==> (#[trigger] dict(*tokens)[t]).len() > 0) ==> r
            == MutationResult::Mutated,
        r == MutationResult::Mutated ==> final(bytes)@ == insert_at(
            old(bytes)@,
            pick(after_pick(*old(rand), dict(*tokens).len() as u64), (old(bytes)@.len() as u64 + 1) as u64) as int,
            dict(*tokens)[pick(*old(rand), dict(*tokens).len() as u64) as int].subrange(
                0,
                clamp_growth(
                    old(bytes)@.len() as int,
                    dict(*tokens)[pick(*old(rand), dict(*tokens).len() as u64) as int].len() as int,
                    max_size as int,
                ).unwrap(),
            ),
        ),
        r == MutationResult::Skipped ==> final(bytes)@ == old(bytes)@,
        r == MutationResult::Mutated ==> final(bytes)@.len() <= max_size && exists|
            t: int,
            off: int,
            len: int,
        |
            #![trigger insert_at(old(bytes)@, off, dict(*tokens)[t].subrange(0, len))]
            0 <= t < dict(*tokens).len() && 0 <= off <= old(bytes)@.len() && 1 <= len
                <= dict(*tokens)[t].len() && final(bytes)@ == insert_at(
                old(bytes)@,
                off,
                dict(*tokens)[t].subrange(0, len),
            ),
{
    let toks = match tokens {
        None => { return MutationResult::Skipped; },
        Some(t) => t,
    };
    let n = toks.token_vec.len();
    if n == 0 {
        return MutationResult::Skipped;
    }
    let size = bytes.len();
    if size >= max_size {
        return MutationResult::Skipped;
    }
    let t = rand.below(n as u64) as usize;
    let off = rand.below(size as u64 + 1) as usize;
    let token = toks.token_vec[t].as_slice();
    let len = if token.len() <= max_size - size { token.len() } else { max_size - size };
    assert(clamp_growth(size as int, token@.len() as int, max_size as int) == Some(len as int));
    if len == 0 {
        return MutationResult::Skipped;
    }
    assert(token@ == dict(*tokens)[t as int]);
    let ghost o = bytes@;
    crate::mutations::insert_slice(bytes, off, token, len);
    assert(bytes@ == insert_at(o, off as int, dict(*tokens)[t as int].subrange(0, len as int)));
    MutationResult::Mutated
}

/// Overwrites the input at a random offset with a random dictionary token,
/// cut at the end of the input. Skips on an empty input or without tokens.
pub fn token_replace(rand: &mut StdRand, bytes: &mut Vec<u8>, tokens: &Option<Tokens>) -> (r:
    MutationResult)
    ensures
        dict(*tokens).len() == 0 || old(bytes)@.len() == 0 ==> r == MutationResult::Skipped,
        dict(*tokens).len() > 0 && old(bytes)@.len() > 0 ==> r == MutationResult::Mutated,
        final(bytes)@.len() == old(bytes)@.len(),
        r == MutationResult::Skipped ==> final(bytes)@ == old(bytes)@,
        r == MutationResult::Mutated ==> exists|t: int, off: int|
            #![trigger overwrite(old(bytes)@, off, dict(*tokens)[t].subrange(0, token_room(dict(*tokens)[t].len() as int, old(bytes)@.len() - off)))]
            0 <= t < dict(*tokens).len() && 0 <= off < old(bytes)@.len() && final(bytes)@
                == overwrite(
                old(bytes)@,
                off,
                dict(*tokens)[t].subrange(0, token_room(dict(*tokens)[t].len() as int, old(bytes)@.len() - off)),
            ),
{
    let size = bytes.len();
    if size == 0 {
        return MutationResult::Skipped;
    }
    let toks = match tokens {
        None => { return MutationResult::Skipped; },
        Some(t) => t,
    };
    let n = toks.token_vec.len();
    if n == 0 {
        return MutationResult::Skipped;
    }
    let t = rand.below(n as u64) as usize;
    let off = rand.below(size as u64) as usize;
    let token = toks.token_vec[t].as_slice();
    let len = if token.len() <= size - off { token.len() } else { size - off };
    assert(token@ == dict(*tokens)[t as int]);
    let ghost o = bytes@;
    buffer_copy(bytes, token, 0, off, len);
    assert(len as int == token_room(dict(*tokens)[t as int].len() as int, o.len() - off));
    assert(bytes@ == overwrite(o, off as int, dict(*tokens)[t as int].subrange(0, token_room(dict(*tokens)[t as int].len() as int, o.len() - off))));
    MutationResult::Mutated
}

/// How many bytes of a token of length `tlen` fit into `room` bytes.
pub open spec fn token_room(tlen: int, room: int) -> int {
    if tlen <= room {
        tlen
    } else {
        room
    }
}

/// The `w` bytes of `v` in little-endian order.
pub open spec fn le_bytes(v: u64, w: nat) -> Seq<u8> {
    Seq::new(w, |k: int| ((v >> (8 * k) as u64) & 0xffu64) as u8)
}

/// The `w` bytes of `v` in big-endian order.
pub open spec fn be_bytes(v: u64, w: nat) -> Seq<u8> {
    Seq::new(w, |k: int| le_bytes(v, w)[w - 1 - k])
}

/// What replaces the `w`-byte window of `s` at `i` for the compared
/// integers `a` and `b`: a window holding one operand, in either byte
/// order, is replaced by the other operand in the same byte order.
pub open spec fn int_replacement(s: Seq<u8>, i: int, w: nat, a: u64, b: u64) -> Option<Seq<u8>> {
    if i < 0 || i + w > s.len() {
        None
    } else if s.subrange(i, i + w) == le_bytes(a, w) {
        Some(le_bytes(b, w))
    } else if s.subrange(i, i + w) == be_bytes(a, w) {
        Some(be_bytes(b, w))
    } else if s.subrange(i, i + w) == le_bytes(b, w) {
        Some(le_bytes(a, w))
    } else if s.subrange(i, i + w) == be_bytes(b, w) {
        Some(be_bytes(a, w))
    } else {
        None
    }
}

/// Whether the first `size` bytes of `p` occur in `s` at `i`.
pub open spec fn prefix_at(s: Seq<u8>, i: int, p: Seq<u8>, size: int) -> bool {
    0 <= i && 0 <= size <= p.len() && i + size <= s.len() && p.subrange(0, size) == s.subrange(
        i,
        i + size,
    )
}

/// The longest prefix of `p`, of at most `n` bytes, that occurs in `s` at
/// `i`; 0 if there is none.
pub open spec fn longest_prefix_at(s: Seq<u8>, i: int, p: Seq<u8>, n: int) -> int
    decreases n,
{
    if n <= 0 {
        0
    } else if prefix_at(s, i, p, n) {
        n
    } else {
        longest_prefix_at(s, i, p, n - 1)
    }
}

/// The most bytes that a byte-string replacement at `i` can cover.
pub open spec fn bytes_cap(s: Seq<u8>, i: int, a: Seq<u8>, b: Seq<u8>) -> int {
    let m = if a.len() <= b.len() { a.len() as int } else { b.len() as int };
    if m <= s.len() - i { m } else { s.len() - i }
}

/// What replaces the bytes of `s` at `i` for compared byte strings `a` and
/// `b`: the longest prefix of `a` found there is replaced by as many bytes
/// of `b`; failing that, the same with `a` and `b` exchanged.
pub open spec fn bytes_replacement(s: Seq<u8>, i: int, a: Seq<u8>, b: Seq<u8>) -> Option<Seq<u8>> {
    if i < 0 || i >= s.len() {
        None
    } else if longest_prefix_at(s, i, a, bytes_cap(s, i, a, b)) > 0 {
        Some(b.subrange(0, longest_prefix_at(s, i, a, bytes_cap(s, i, a, b))))
    } else if longest_prefix_at(s, i, b, bytes_cap(s, i, a, b)) > 0 {
        Some(a.subrange(0, longest_prefix_at(s, i, b, bytes_cap(s, i, a, b))))
    } else {
        None
    }
}

/// What replaces the bytes of `s` at `i` for one captured comparison.
pub open spec fn replacement(s: Seq<u8>, i: int, cmp: CmpValues) -> Option<Seq<u8>> {
    match cmp {
        CmpValues::U8((a, b)) => int_replacement(s, i, 1, a as u64, b as u64),
        CmpValues::U16((a, b)) => int_replacement(s, i, 2, a as u64, b as u64),
        CmpValues::U32((a, b)) => int_replacement(s, i, 4, a as u64, b as u64),
        CmpValues::U64((a, b)) => int_replacement(s, i, 8, a, b),
        CmpValues::Bytes((a, b)) => bytes_replacement(s, i, a@, b@),
    }
}

pub(crate) fn le_bytes_exec(v: u64, w: usize) -> (r: Vec<u8>)
    requires
        w <= 8,
    ensures
        r@ == le_bytes(v, w as nat),
{
    let mut r: Vec<u8> = Vec::new();
    let mut k: usize = 0;
    while k < w
        invariant
            k <= w <= 8,
            r@ =~= le_bytes(v, k as nat),
        decreases w - k,
    {
        let sh: u64 = 8 * (k as u64);
        r.push(((v >> sh) & 0xffu64) as u8);
        k = k + 1;
        assert(r@ =~= le_bytes(v, k as nat));
    }
    r
}

pub(crate) fn be_bytes_exec(v: u64, w: usize) -> (r: Vec<u8>)
    requires
        w <= 8,
    ensures
        r@ == be_bytes(v, w as nat),
{
    let le = le_bytes_exec(v, w);
    let mut r: Vec<u8> = Vec::new();
    let mut k: usize = 0;
    while k < w
        invariant
            k <= w <= 8,
            le@ == le_bytes(v, w as nat),
            r@.len() == k,
            forall|j: int| 0 <= j < k ==> r@[j] == le@[w - 1 - j],
        decreases w - k,
    {
        r.push(le[w - 1 - k]);
        k = k + 1;
    }
    assert(r@ =~= be_bytes(v, w as nat));
    r
}

fn int_replacement_exec(s: &[u8], i: usize, w: usize, a: u64, b: u64) -> (r: Option<Vec<u8>>)
    requires
        1 <= w <= 8,
    ensures
        r matches Some(v) ==> int_replacement(s@, i as int, w as nat, a, b) == Some(v@),
        r is None ==> int_replacement(s@, i as int, w as nat, a, b) is None,
{
    if i > s.len() || w > s.len() - i {
        return None;
    }
    let win = &s[i..i + w];
    let la = le_bytes_exec(a, w);
    let ba = be_bytes_exec(a, w);
    let lb = le_bytes_exec(b, w);
    let bb = be_bytes_exec(b, w);
    if crate::tokens::bytes_equal(win, la.as_slice()) {
        Some(lb)
    } else if crate::tokens::bytes_equal(win, ba.as_slice()) {
        Some(bb)
    } else if crate::tokens::bytes_equal(win, lb.as_slice()) {
        Some(la)
    } else if crate::tokens::bytes_equal(win, bb.as_slice()) {
        Some(ba)
    } else {
        None
    }
}

fn longest_prefix_exec(s: &[u8], i: usize, p: &[u8], n: usize) -> (r: usize)
    requires
        i + n <= s@.len(),
        n <= p@.len(),
    ensures
        r as int == longest_prefix_at(s@, i as int, p@, n as int),
        r <= n,
{
    let sl = s.len();
    let mut size = n;
    while size > 0
        invariant
            sl == s@.len(),
            size <= n,
            i + n <= s@.len(),
            n <= p@.len(),
            longest_prefix_at(s@, i as int, p@, n as int) == longest_prefix_at(
                s@,
                i as int,
                p@,
                size as int,
            ),
        decreases size,
    {
        if crate::tokens::bytes_equal(&p[0..size], &s[i..i + size]) {
            return size;
        }
        size = size - 1;
    }
    0
}

/// The first `n` bytes of `v`, copied.
fn prefix_vec(v: &[u8], n: usize) -> (r: Vec<u8>)
    requires
        n <= v@.len(),
    ensures
        r@ == v@.subrange(0, n as int),
{
    let mut r: Vec<u8> = Vec::new();
    let mut k: usize = 0;
    while k < n
        invariant
            k <= n <= v@.len(),
            r@ =~= v@.subrange(0, k as int),
        decreases n - k,
    {
        r.push(v[k]);
        k = k + 1;
        assert(r@ =~= v@.subrange(0, k as int));
    }
    r
}

fn replacement_exec(s: &[u8], i: usize, cmp: &CmpValues) -> (r: Option<Vec<u8>>)
    ensures
        r matches Some(v) ==> replacement(s@, i as int, *cmp) == Some(v@),
        r is None ==> replacement(s@, i as int, *cmp) is None,
{
    match cmp {
        CmpValues::U8((a, b)) => int_replacement_exec(s, i, 1, *a as u64, *b as u64),
        CmpValues::U16((a, b)) => int_replacement_exec(s, i, 2, *a as u64, *b as u64),
        CmpValues::U32((a, b)) => int_replacement_exec(s, i, 4, *a as u64, *b as u64),
        CmpValues::U64((a, b)) => int_replacement_exec(s, i, 8, *a, *b),
        CmpValues::Bytes((a, b)) => {
            if i >= s.len() {
                return None;
            }
            let m = if a.len() <= b.len() { a.len() } else { b.len() };
            let cap = if m <= s.len() - i { m } else { s.len() - i };
            let sa = longest_prefix_exec(s, i, a.as_slice(), cap);
            if sa > 0 {
                return Some(prefix_vec(b.as_slice(), sa));
            }
            let sb = longest_prefix_exec(s, i, b.as_slice(), cap);
            if sb > 0 {
                return Some(prefix_vec(a.as_slice(), sb));
            }
            None
        },
    }
}

/// No replacement applies at any position in `[from, to)`.
pub open spec fn no_replacement_between(s: Seq<u8>, cmp: CmpValues, from: int, to: int) -> bool {
    forall|j: int| from <= j < to ==> #[trigger] replacement(s, j, cmp) is None
}

/// Replaces, at the first position from `off` on where it applies, the
/// operand of `cmp` found in the input by the other operand.
fn replace_first(bytes: &mut Vec<u8>, off: usize, cmp: &CmpValues) -> (r: MutationResult)
    ensures
        final(bytes)@.len() == old(bytes)@.len(),
        r == MutationResult::Skipped ==> final(bytes)@ == old(bytes)@ && no_replacement_between(
            old(bytes)@,
            *cmp,
            off as int,
            old(bytes)@.len() as int,
        ),
        r == MutationResult::Mutated ==> exists|i: int|
            #![trigger replacement(old(bytes)@, i, *cmp)]
            off <= i < old(bytes)@.len() && replacement(old(bytes)@, i, *cmp) is Some
                && no_replacement_between(old(bytes)@, *cmp, off as int, i) && final(bytes)@ == overwrite(
                old(bytes)@,
                i,
                replacement(old(bytes)@, i, *cmp).unwrap(),
            ),
{
    let len = bytes.len();
    let mut i = off;
    while i < len
        invariant
            len == bytes@.len(),
            bytes@ == old(bytes)@,
            off <= i || len <= i,
            forall|j: int| off <= j < i ==> #[trigger] replacement(old(bytes)@, j, *cmp) is None,
        decreases len - i,
    {
        match replacement_exec(bytes.as_slice(), i, cmp) {
            Some(rep) => {
                proof {
                    reveal_replacement_fits(old(bytes)@, i as int, *cmp);
                }
                let n = rep.len();
                buffer_copy(bytes, rep.as_slice(), 0, i, n);
                assert(rep@.subrange(0, n as int) =~= rep@);
                return MutationResult::Mutated;
            },
            None => {},
        }
        i = i + 1;
    }
    MutationResult::Skipped
}

/// A replacement fits into the input where it starts.
proof fn reveal_replacement_fits(s: Seq<u8>, i: int, cmp: CmpValues)
    requires
        replacement(s, i, cmp) is Some,
    ensures
        0 <= i && i + replacement(s, i, cmp).unwrap().len() <= s.len(),
{
    match cmp {
        CmpValues::Bytes((a, b)) => {
            lemma_longest_prefix_bounds(s, i, a@, bytes_cap(s, i, a@, b@));
            lemma_longest_prefix_bounds(s, i, b@, bytes_cap(s, i, a@, b@));
        },
        _ => {},
    }
}

proof fn lemma_longest_prefix_bounds(s: Seq<u8>, i: int, p: Seq<u8>, n: int)
    ensures
        0 <= longest_prefix_at(s, i, p, n),
        n >= 0 ==> longest_prefix_at(s, i, p, n) <= n,
    decreases n,
{
    if n > 0 && !prefix_at(s, i, p, n) {
        lemma_longest_prefix_bounds(s, i, p, n - 1);
    }
}

/// The comparison that input-to-state replacement draws from `rand`.
pub open spec fn i2s_cmp(rand: StdRand, meta: Option<CmpValuesMetadata>) -> int {
    pick(rand, cmps(meta).len() as u64) as int
}

/// The offset that input-to-state replacement draws from `rand`, for an input of `size` bytes.
pub open spec fn i2s_offset(rand: StdRand, meta: Option<CmpValuesMetadata>, size: nat) -> int {
    pick(after_pick(rand, cmps(meta).len() as u64), size as u64) as int
}

/// The comparisons of an optional record; none if it is absent.
pub open spec fn cmps(meta: Option<CmpValuesMetadata>) -> Seq<CmpValues> {
    match meta {
        Some(m) => m.list@,
        None => Seq::empty(),
    }
}

/// Input-to-state replacement: picks a random captured comparison and a
/// random offset, and from there on replaces the first occurrence of one
/// operand by the other. Skips on an empty input, without comparisons, or
/// when no operand occurs from the offset on.
pub fn i2s_rand_replace(rand: &mut StdRand, bytes: &mut Vec<u8>, meta: &Option<CmpValuesMetadata>) -> (r:
    MutationResult)
    ensures
        final(bytes)@.len() == old(bytes)@.len(),
        old(bytes)@.len() == 0 || cmps(*meta).len() == 0 ==> r == MutationResult::Skipped
            && *final(rand) == *old(rand),
        old(bytes)@.len() > 0 && cmps(*meta).len() > 0 ==> *final(rand) == after_pick(
            after_pick(*old(rand), cmps(*meta).len() as u64),
            old(bytes)@.len() as u64,
        ),
        old(bytes)@.len() > 0 && cmps(*meta).len() > 0 && r == MutationResult::Skipped
            ==> no_replacement_between(
            old(bytes)@,
            cmps(*meta)[i2s_cmp(*old(rand), *meta)],
            i2s_offset(*old(rand), *meta, old(bytes)@.len()),
            old(bytes)@.len() as int,
        ),
        old(bytes)@.len() > 0 && cmps(*meta).len() > 0 && r == MutationResult::Mutated ==> exists|i: int|
            #![trigger replacement(old(bytes)@, i, cmps(*meta)[i2s_cmp(*old(rand), *meta)])]
            i2s_offset(*old(rand), *meta, old(bytes)@.len()) <= i < old(bytes)@.len()
                && replacement(old(bytes)@, i, cmps(*meta)[i2s_cmp(*old(rand), *meta)]) is Some
                && no_replacement_between(
                old(bytes)@,
                cmps(*meta)[i2s_cmp(*old(rand), *meta)],
                i2s_offset(*old(rand), *meta, old(bytes)@.len()),
                i,
            ) && final(bytes)@ == overwrite(
                old(bytes)@,
                i,
                replacement(old(bytes)@, i, cmps(*meta)[i2s_cmp(*old(rand), *meta)]).unwrap(),
            ),
        r == MutationResult::Skipped ==> final(bytes)@ == old(bytes)@,
{
    let size = bytes.len();
    if size == 0 {
        return MutationResult::Skipped;
    }
    let m = match meta {
        None => { return MutationResult::Skipped; },
        Some(m) => m,
    };
    let n = m.list.len();
    if n == 0 {
        return MutationResult::Skipped;
    }
    let c = rand.below(n as u64) as usize;
    let off = rand.below(size as u64) as usize;
    let cmp = &m.list[c];
    assert(*cmp == cmps(*meta)[i2s_cmp(*old(rand), *meta)]);
    assert(off as int == i2s_offset(*old(rand), *meta, old(bytes)@.len()));
    replace_first(bytes, off, cmp)
}

/// Inserts a random dictionary token at a random offset.
#[derive(Debug)]
pub struct TokenInsert {}

impl TokenInsert {
    /// Creates a new [`TokenInsert`].
    pub fn new() -> (r: TokenInsert) {
        TokenInsert {}
    }

    /// The name of this mutator.
    pub fn name(&self) -> (r: &'static str)
        ensures
            r@ == "TokenInsert"@,
    {
        "TokenInsert"
    }
}

impl Mutator for TokenInsert {
    fn mutate(&mut self, state: &mut StdState, input: &mut BytesInput, stage_idx: i32) -> (r:
        Result<MutationResult, Error>)
        ensures
            r is Ok,
        dict(old(state).metadata.tokens).len() == 0 || old(input).bytes@.len() >= old(state).max_size ==> r == Ok::<MutationResult, Error>(MutationResult::Skipped),
        dict(old(state).metadata.tokens).len() > 0 && old(input).bytes@.len() < old(state).max_size ==> (r == Ok::<MutationResult, Error>(MutationResult::Mutated)
            <==> dict(old(state).metadata.tokens)[pick(old(state).rand, dict(old(state).metadata.tokens).len() as u64) as int].len() > 0),
        dict(old(state).metadata.tokens).len() > 0 && old(input).bytes@.len() < old(state).max_size && (forall|t: int|
            0 <= t < dict(old(state).metadata.tokens).len() ==> (#[trigger] dict(old(state).metadata.tokens)[t]).len() > 0) ==> r == Ok::<MutationResult, Error>(MutationResult::Mutated),
        r == Ok::<MutationResult, Error>(MutationResult::Mutated) ==> final(input).bytes@ == insert_at(
            old(input).bytes@,
            pick(after_pick(old(state).rand, dict(old(state).metadata.tokens).len() as u64), (old(input).bytes@.len() as u64 + 1) as u64) as int,
            dict(old(state).metadata.tokens)[pick(old(state).rand, dict(old(state).metadata.tokens).len() as u64) as int].subrange(
                0,
                clamp_growth(
                    old(input).bytes@.len() as int,
                    dict(old(state).metadata.tokens)[pick(old(state).rand, dict(old(state).metadata.tokens).len() as u64) as int].len() as int,
                    old(state).max_size as int,
                ).unwrap(),
            ),
        ),
        r == Ok::<MutationResult, Error>(MutationResult::Skipped) ==> final(input).bytes@ == old(input).bytes@,
        r == Ok::<MutationResult, Error>(MutationResult::Mutated) ==> final(input).bytes@.len() <= old(state).max_size && exists|
            t: int,
            off: int,
            len: int,
        |
            #![trigger insert_at(old(input).bytes@, off, dict(old(state).metadata.tokens)[t].subrange(0, len))]
            0 <= t < dict(old(state).metadata.tokens).len() && 0 <= off <= old(input).bytes@.len() && 1 <= len
                <= dict(old(state).metadata.tokens)[t].len() && final(input).bytes@ == insert_at(
                old(input).bytes@,
                off,
                dict(old(state).metadata.tokens)[t].subrange(0, len),
            ),    {
        Ok(token_insert(&mut state.rand, &mut input.bytes, &state.metadata.tokens, state.max_size))
    }
}

/// Overwrites a random part of the input with a random dictionary token.
#[derive(Debug)]
pub struct TokenReplace {}

impl TokenReplace {
    /// Creates a new [`TokenReplace`].
    pub fn new() -> (r: TokenReplace) {
        TokenReplace {}
    }

    /// The name of this mutator.
    pub fn name(&self) -> (r: &'static str)
        ensures
            r@ == "TokenReplace"@,
    {
        "TokenReplace"
    }
}

impl Mutator for TokenReplace {
    fn mutate(&mut self, state: &mut StdState, input: &mut BytesInput, stage_idx: i32) -> (r:
        Result<MutationResult, Error>)
        ensures
            r is Ok,
        dict(old(state).metadata.tokens).len() == 0 || old(input).bytes@.len() == 0 ==> r == Ok::<MutationResult, Error>(MutationResult::Skipped),
        dict(old(state).metadata.tokens).len() > 0 && old(input).bytes@.len() > 0 ==> r == Ok::<MutationResult, Error>(MutationResult::Mutated),
        final(input).bytes@.len() == old(input).bytes@.len(),
        r == Ok::<MutationResult, Error>(MutationResult::Skipped) ==> final(input).bytes@ == old(input).bytes@,
        r == Ok::<MutationResult, Error>(MutationResult::Mutated) ==> exists|t: int, off: int|
            #![trigger overwrite(old(input).bytes@, off, dict(old(state).metadata.tokens)[t].subrange(0, token_room(dict(old(state).metadata.tokens)[t].len() as int, old(input).bytes@.len() - off)))]
            0 <= t < dict(old(state).metadata.tokens).len() && 0 <= off < old(input).bytes@.len() && final(input).bytes@
                == overwrite(
                old(input).bytes@,
                off,
                dict(old(state).metadata.tokens)[t].subrange(0, token_room(dict(old(state).metadata.tokens)[t].len() as int, old(input).bytes@.len() - off)),
            ),    {
        Ok(token_replace(&mut state.rand, &mut input.bytes, &state.metadata.tokens))
    }
}

/// Replaces an operand of a captured comparison found in the input by the other operand.
#[derive(Debug)]
pub struct I2SRandReplace {}

impl I2SRandReplace {
    /// Creates a new [`I2SRandReplace`].
    pub fn new() -> (r: I2SRandReplace) {
        I2SRandReplace {}
    }

    /// The name of this mutator.
    pub fn name(&self) -> (r: &'static str)
        ensures
            r@ == "I2SRandReplace"@,
    {
        "I2SRandReplace"
    }
}

impl Mutator for I2SRandReplace {
    fn mutate(&mut self, state: &mut StdState, input: &mut BytesInput, stage_idx: i32) -> (r:
        Result<MutationResult, Error>)
        ensures
            r is Ok,
        final(input).bytes@.len() == old(input).bytes@.len(),
        old(input).bytes@.len() == 0 || cmps(old(state).metadata.cmp_values).len() == 0 ==> r == Ok::<MutationResult, Error>(MutationResult::Skipped)
            && final(state).rand == old(state).rand,
        old(input).bytes@.len() > 0 && cmps(old(state).metadata.cmp_values).len() > 0 ==> final(state).rand == after_pick(
            after_pick(old(state).rand, cmps(old(state).metadata.cmp_values).len() as u64),
            old(input).bytes@.len() as u64,
        ),
        old(input).bytes@.len() > 0 && cmps(old(state).metadata.cmp_values).len() > 0 && r == Ok::<MutationResult, Error>(MutationResult::Skipped)
            ==> no_replacement_between(
            old(input).bytes@,
            cmps(old(state).metadata.cmp_values)[i2s_cmp(old(state).rand, old(state).metadata.cmp_values)],
            i2s_offset(old(state).rand, old(state).metadata.cmp_values, old(input).bytes@.len()),
            old(input).bytes@.len() as int,
        ),
        old(input).bytes@.len() > 0 && cmps(old(state).metadata.cmp_values).len() > 0 && r == Ok::<MutationResult, Error>(MutationResult::Mutated) ==> exists|i: int|
            #![trigger replacement(old(input).bytes@, i, cmps(old(state).metadata.cmp_values)[i2s_cmp(old(state).rand, old(state).metadata.cmp_values)])]
            i2s_offset(old(state).rand, old(state).metadata.cmp_values, old(input).bytes@.len()) <= i < old(input).bytes@.len()
                && replacement(old(input).bytes@, i, cmps(old(state).metadata.cmp_values)[i2s_cmp(old(state).rand, old(state).metadata.cmp_values)]) is Some
                && no_replacement_between(
                old(input).bytes@,
                cmps(old(state).metadata.cmp_values)[i2s_cmp(old(state).rand, old(state).metadata.cmp_values)],
                i2s_offset(old(state).rand, old(state).metadata.cmp_values, old(input).bytes@.len()),
                i,
            ) && final(input).bytes@ == overwrite(
                old(input).bytes@,
                i,
                replacement(old(input).bytes@, i, cmps(old(state).metadata.cmp_values)[i2s_cmp(old(state).rand, old(state).metadata.cmp_values)]).unwrap(),
            ),
        r == Ok::<MutationResult, Error>(MutationResult::Skipped) ==> final(input).bytes@ == old(input).bytes@,    {
        Ok(i2s_rand_replace(&mut state.rand, &mut input.bytes, &state.metadata.cmp_values))
    }
}

} // verus!
