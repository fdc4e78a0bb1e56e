//! Writing a dictionary in the token-file format, and the proof that
//! reading such a file gives the dictionary back.
use vstd::prelude::*;
use crate::decode::{decode_from, decode_token, hex_value, prepend};
use crate::tokens::{
    add_unique, cut_space, find_quote, is_space, line_end, line_entry, no_duplicates,
    read_tokens_from, skip_space, trimmed_entry, LineEntry, Tokens,
};

verus! {

/// The uppercase hex digit of a value below 16.
pub open spec fn hex_digit(v: u8) -> u8 {
    if v < 10 {
        (48 + v) as u8
    } else {
        (55 + v) as u8
    }
}

/// A byte written as a `\xNN` escape.
pub open spec fn escape_byte(b: u8) -> Seq<u8> {
    seq![92u8, 120u8, hex_digit(b / 16), hex_digit(b % 16)]
}

/// Every byte of `t` written as a `\xNN` escape.
pub open spec fn escaped(t: Seq<u8>) -> Seq<u8>
    decreases t.len(),
{
    if t.len() == 0 {
        Seq::empty()
    } else {
        escape_byte(t[0]) + escaped(t.drop_first())
    }
}

/// The line of a token file that holds `t`.
pub open spec fn token_line(t: Seq<u8>) -> Seq<u8> {
    seq![34u8] + escaped(t) + seq![34u8, 10u8]
}

/// A token file holding `toks`, one per line, in order.
pub open spec fn token_file(toks: Seq<Seq<u8>>) -> Seq<u8>
    decreases toks.len(),
{
    if toks.len() == 0 {
        Seq::empty()
    } else {
        token_line(toks[0]) + token_file(toks.drop_first())
    }
}

proof fn lemma_hex_digit(v: u8)
    requires
        v < 16,
    ensures
        hex_value(hex_digit(v)) == Some(v),
        hex_digit(v) != 10 && hex_digit(v) != 34 && !is_space(hex_digit(v)),
{
}

proof fn lemma_escaped(t: Seq<u8>)
    ensures
        escaped(t).len() == 4 * t.len(),
        forall|j: int|
            0 <= j < escaped(t).len() ==> #[trigger] escaped(t)[j] != 10 && escaped(t)[j] != 34
                && !is_space(escaped(t)[j]),
    decreases t.len(),
{
    if t.len() > 0 {
        lemma_escaped(t.drop_first());
        lemma_hex_digit(t[0] / 16);
        lemma_hex_digit(t[0] % 16);
        let e = escape_byte(t[0]);
        let r = escaped(t.drop_first());
        assert forall|j: int| 0 <= j < escaped(t).len() implies #[trigger] escaped(t)[j] != 10
            && escaped(t)[j] != 34 && !is_space(escaped(t)[j]) by {
            if j >= 4 {
                assert(escaped(t)[j] == r[j - 4]);
            }
        }
    }
}

proof fn lemma_decode_shift(a: Seq<u8>, b: Seq<u8>, i: int)
    requires
        0 <= i,
    ensures
        decode_from(a + b, a.len() + i) == decode_from(b, i),
    decreases b.len() + 4 - i,
{
    let s = a + b;
    let k = a.len() + i;
    if i < b.len() {
        assert(s[k] == b[i]);
        if i + 1 < b.len() {
            assert(s[k + 1] == b[i + 1]);
        }
        if i + 2 < b.len() {
            assert(s[k + 2] == b[i + 2]);
        }
        if i + 3 < b.len() {
            assert(s[k + 3] == b[i + 3]);
        }
        lemma_decode_shift(a, b, i + 1);
        lemma_decode_shift(a, b, i + 2);
        lemma_decode_shift(a, b, i + 4);
    }
}

proof fn lemma_decode_escaped(t: Seq<u8>)
    ensures
        decode_from(escaped(t), 0) == Some(t),
    decreases t.len(),
{
    if t.len() == 0 {
    } else {
        let e = escape_byte(t[0]);
        let r = escaped(t.drop_first());
        lemma_hex_digit(t[0] / 16);
        lemma_hex_digit(t[0] % 16);
        lemma_decode_escaped(t.drop_first());
        lemma_decode_shift(e, r, 0);
        lemma_escaped(t.drop_first());
        let s = e + r;
        assert(s[0] == 92u8 && s[1] == 120u8 && s[2] == hex_digit(t[0] / 16) && s[3] == hex_digit(
            t[0] % 16,
        ));
        assert(((t[0] / 16) * 16 + t[0] % 16) as u8 == t[0]);
        assert(decode_from(s, 4) == Some(t.drop_first()));
        assert(seq![t[0]] + t.drop_first() =~= t);
    }
}

proof fn lemma_line_end_shift(a: Seq<u8>, b: Seq<u8>, i: int)
    requires
        0 <= i,
    ensures
        line_end(a + b, a.len() + i) == a.len() + line_end(b, i),
    decreases b.len() - i,
{
    if i < b.len() {
        assert((a + b)[a.len() + i] == b[i]);
        lemma_line_end_shift(a, b, i + 1);
    }
}

proof fn lemma_skip_space_shift(a: Seq<u8>, b: Seq<u8>, i: int, e: int)
    requires
        0 <= i,
        e <= b.len(),
    ensures
        skip_space(a + b, a.len() + i, a.len() + e) == a.len() + skip_space(b, i, e),
    decreases e - i,
{
    if i < e {
        assert((a + b)[a.len() + i] == b[i]);
        lemma_skip_space_shift(a, b, i + 1, e);
    }
}

proof fn lemma_cut_space_shift(a: Seq<u8>, b: Seq<u8>, x: int, e: int)
    requires
        0 <= x,
        e <= b.len(),
    ensures
        cut_space(a + b, a.len() + x, a.len() + e) == a.len() + cut_space(b, x, e),
    decreases e - x,
{
    if e > x {
        assert((a + b)[a.len() + e - 1] == b[e - 1]);
        lemma_cut_space_shift(a, b, x, e - 1);
    }
}

proof fn lemma_find_quote_shift(a: Seq<u8>, b: Seq<u8>, x: int, e: int)
    requires
        0 <= x,
        e <= b.len(),
    ensures
        find_quote(a + b, a.len() + x, a.len() + e) == a.len() + find_quote(b, x, e),
    decreases e - x,
{
    if x < e {
        assert((a + b)[a.len() + x] == b[x]);
        lemma_find_quote_shift(a, b, x + 1, e);
    }
}

proof fn lemma_entry_shift(a: Seq<u8>, b: Seq<u8>, i: int, e: int)
    requires
        0 <= i <= e <= b.len(),
    ensures
        trimmed_entry(a + b, a.len() + i, a.len() + e) == trimmed_entry(b, i, e),
{
    let s = a + b;
    let n = a.len() as int;
    lemma_skip_space_shift(a, b, i, e);
    crate::tokens::lemma_skip_space_bounds(b, i, e);
    let x = skip_space(b, i, e);
    lemma_cut_space_shift(a, b, x, e);
    crate::tokens::lemma_cut_space_bounds(b, x, e);
    let y = cut_space(b, x, e);
    lemma_find_quote_shift(a, b, x, y);
    crate::tokens::lemma_find_quote_bounds(b, x, y);
    let q = find_quote(b, x, y);
    if x < y {
        assert(s[n + x] == b[x]);
        assert(s[n + y - 1] == b[y - 1]);
    }
    if q + 1 <= y - 1 {
        assert(s.subrange(n + q + 1, n + y - 1) =~= b.subrange(q + 1, y - 1));
    }
}

proof fn lemma_read_shift(acc: Seq<Seq<u8>>, a: Seq<u8>, b: Seq<u8>, i: int)
    requires
        0 <= i,
    ensures
        read_tokens_from(acc, a + b, a.len() + i) == read_tokens_from(acc, b, i),
    decreases b.len() + 1 - i,
{
    if i < b.len() {
        lemma_line_end_shift(a, b, i);
        crate::tokens::lemma_line_end_bounds(b, i);
        let e = line_end(b, i);
        lemma_entry_shift(a, b, i, e);
        match trimmed_entry(b, i, e) {
            LineEntry::Skip => {
                lemma_read_shift(acc, a, b, e + 1);
            },
            LineEntry::Token(t) => {
                lemma_read_shift(add_unique(acc, t), a, b, e + 1);
            },
            LineEntry::Illegal => {},
        }
    }
}

proof fn lemma_line_end_at(s: Seq<u8>, i: int, j: int)
    requires
        0 <= i <= j < s.len(),
        s[j] == 10,
        forall|k: int| i <= k < j ==> s[k] != 10,
    ensures
        line_end(s, i) == j,
    decreases j - i,
{
    if i < j {
        lemma_line_end_at(s, i + 1, j);
    }
}

proof fn lemma_read_line(acc: Seq<Seq<u8>>, t: Seq<u8>, rest: Seq<u8>)
    requires
        t.len() > 0,
    ensures
        read_tokens_from(acc, token_line(t) + rest, 0) == read_tokens_from(
            add_unique(acc, t),
            rest,
            0,
        ),
{
    let l = token_line(t);
    let s = l + rest;
    let ln = l.len() as int;
    lemma_escaped(t);
    let et = escaped(t);
    assert(ln == 4 * t.len() + 3);
    assert forall|k: int| 0 <= k < ln - 1 implies s[k] != 10 by {
        if 1 <= k < ln - 2 {
            assert(s[k] == et[k - 1]);
        }
    }
    assert(s[ln - 1] == 10);
    lemma_line_end_at(s, 0, ln - 1);
    let e = ln - 1;
    assert(s[0] == 34);
    assert(!is_space(s[0]));
    assert(skip_space(s, 0, e) == 0);
    assert(s[e - 1] == 34);
    assert(cut_space(s, 0, e) == e);
    assert(find_quote(s, 0, e) == 0);
    assert(s.subrange(1, e - 1) =~= et);
    lemma_decode_escaped(t);
    assert(decode_token(s.subrange(1, e - 1)) == Some(t));
    assert(trimmed_entry(s, 0, e) == LineEntry::Token(t));
    lemma_read_shift(add_unique(acc, t), l, rest, 0);
}

proof fn lemma_read_file(acc: Seq<Seq<u8>>, toks: Seq<Seq<u8>>)
    requires
        no_duplicates(acc + toks),
        forall|i: int| 0 <= i < toks.len() ==> (#[trigger] toks[i]).len() > 0,
    ensures
        read_tokens_from(acc, token_file(toks), 0) == Some(acc + toks),
    decreases toks.len(),
{
    if toks.len() == 0 {
        assert(acc + toks =~= acc);
    } else {
        let t = toks[0];
        let rest = toks.drop_first();
        lemma_read_line(acc, t, token_file(rest));
        assert(!acc.contains(t)) by {
            if acc.contains(t) {
                let j = choose|j: int| 0 <= j < acc.len() && acc[j] == t;
                assert((acc + toks)[j] == (acc + toks)[acc.len() as int]);
            }
        }
        assert(add_unique(acc, t) == acc.push(t));
        assert(acc.push(t) + rest =~= acc + toks);
        assert forall|i: int| 0 <= i < rest.len() implies (#[trigger] rest[i]).len() > 0 by {
            assert(rest[i] == toks[i + 1]);
        }
        lemma_read_file(acc.push(t), rest);
    }
}

proof fn lemma_escaped_push(t: Seq<u8>, b: u8)
    ensures
        escaped(t.push(b)) == escaped(t) + escape_byte(b),
    decreases t.len(),
{
    if t.len() == 0 {
        assert(t.push(b).drop_first() =~= Seq::<u8>::empty());
        assert(t.push(b)[0] == b);
        assert(escaped(t.push(b)) =~= escape_byte(b) + escaped(Seq::<u8>::empty()));
        assert(escape_byte(b) + Seq::<u8>::empty() =~= escape_byte(b));
        assert(Seq::<u8>::empty() + escape_byte(b) =~= escape_byte(b));
    } else {
        lemma_escaped_push(t.drop_first(), b);
        assert(t.push(b).drop_first() =~= t.drop_first().push(b));
        assert(t.push(b)[0] == t[0]);
        assert(escape_byte(t[0]) + (escaped(t.drop_first()) + escape_byte(b)) =~= (escape_byte(
            t[0],
        ) + escaped(t.drop_first())) + escape_byte(b));
    }
}

proof fn lemma_token_file_push(toks: Seq<Seq<u8>>, t: Seq<u8>)
    ensures
        token_file(toks.push(t)) == token_file(toks) + token_line(t),
    decreases toks.len(),
{
    if toks.len() == 0 {
        assert(toks.push(t).drop_first() =~= Seq::<Seq<u8>>::empty());
        assert(toks.push(t)[0] == t);
        assert(token_file(toks.push(t).drop_first()) == Seq::<u8>::empty());
        assert(token_file(toks) == Seq::<u8>::empty());
        assert(token_line(t) + Seq::<u8>::empty() =~= token_line(t));
        assert(Seq::<u8>::empty() + token_line(t) =~= token_line(t));
    } else {
        lemma_token_file_push(toks.drop_first(), t);
        assert(toks.push(t).drop_first() =~= toks.drop_first().push(t));
        assert(toks.push(t)[0] == toks[0]);
        assert(token_line(toks[0]) + (token_file(toks.drop_first()) + token_line(t)) =~= (
        token_line(toks[0]) + token_file(toks.drop_first())) + token_line(t));
    }
}

fn hex_digit_exec(v: u8) -> (r: u8)
    requires
        v < 16,
    ensures
        r == hex_digit(v),
{
    if v < 10 {
        48 + v
    } else {
        55 + v
    }
}

impl Tokens {
    /// Writes the dictionary as a token file: one line per token, each
    /// byte as a `\xNN` escape between double quotes.
    pub fn to_tokens_file(&self) -> (r: Vec<u8>)
        ensures
            r@ == token_file(self@),
    {
        let mut out: Vec<u8> = Vec::new();
        let n = self.token_vec.len();
        let mut i: usize = 0;
        assert(self@.subrange(0, 0) =~= Seq::<Seq<u8>>::empty());
        while i < n
            invariant
                n == self@.len(),
                i <= n,
                out@ == token_file(self@.subrange(0, i as int)),
            decreases n - i,
        {
            let t = &self.token_vec[i];
            let ghost before = out@;
            out.push(34u8);
            let mut k: usize = 0;
            assert(t@.subrange(0, 0) =~= Seq::<u8>::empty());
            while k < t.len()
                invariant
                    k <= t@.len(),
                    out@ == before + seq![34u8] + escaped(t@.subrange(0, k as int)),
                decreases t@.len() - k,
            {
                let b = t[k];
                out.push(92u8);
                out.push(120u8);
                out.push(hex_digit_exec(b / 16));
                out.push(hex_digit_exec(b % 16));
                proof {
                    lemma_escaped_push(t@.subrange(0, k as int), b);
                    assert(t@.subrange(0, k + 1) =~= t@.subrange(0, k as int).push(b));
                }
                k = k + 1;
                assert(out@ =~= before + seq![34u8] + escaped(t@.subrange(0, k as int)));
            }
            out.push(34u8);
            out.push(10u8);
            proof {
                assert(t@.subrange(0, k as int) =~= t@);
                assert(self@[i as int] == t@);
                lemma_token_file_push(self@.subrange(0, i as int), t@);
                assert(self@.subrange(0, i + 1) =~= self@.subrange(0, i as int).push(t@));
            }
            i = i + 1;
            assert(out@ =~= token_file(self@.subrange(0, i as int)));
        }
        assert(self@.subrange(0, n as int) =~= self@);
        out
    }
}

/// Writing distinct non-empty tokens as a token file, one `\xNN`-escaped
/// token per line, and reading the file back yields exactly those tokens,
/// in order.
pub proof fn lemma_token_file_round_trip(toks: Seq<Seq<u8>>)
    requires
        no_duplicates(toks),
        forall|i: int| 0 <= i < toks.len() ==> (#[trigger] toks[i]).len() > 0,
    ensures
        read_tokens_from(Seq::empty(), token_file(toks), 0) == Some(toks),
{
    assert(Seq::<Seq<u8>>::empty() + toks =~= toks);
    lemma_read_file(Seq::empty(), toks);
}

} // verus!
