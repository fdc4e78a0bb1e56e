//! The token dictionary (AFL's "extras") and the token-file grammar.
use vstd::prelude::*;
use crate::decode::{decode_bytes, decode_token};
use crate::error::Error;
use vstd::string::StringSliceAdditionalSpecFns;

verus! {

/// `toks` with `t` appended unless it is already there.
pub open spec fn add_unique(toks: Seq<Seq<u8>>, t: Seq<u8>) -> Seq<Seq<u8>> {
    if toks.contains(t) {
        toks
    } else {
        toks.push(t)
    }
}

/// The tokens of `s` in order, each kept at its first occurrence.
pub open spec fn dedup(s: Seq<Seq<u8>>) -> Seq<Seq<u8>>
    decreases s.len(),
{
    if s.len() == 0 {
        Seq::empty()
    } else {
        add_unique(dedup(s.drop_last()), s.last())
    }
}

/// No token occurs twice.
pub open spec fn no_duplicates(toks: Seq<Seq<u8>>) -> bool {
    forall|i: int, j: int| 0 <= i < j < toks.len() ==> toks[i] != toks[j]
}

/// Space, tab, line feed, vertical tab, form feed and carriage return.
pub open spec fn is_space(c: u8) -> bool {
    c == 32 || (9 <= c <= 13)
}

/// The end of the line that starts at `i`: the first line feed at or after `i`, or the end.
pub open spec fn line_end(s: Seq<u8>, i: int) -> int
    decreases s.len() - i,
{
    if i < 0 || i >= s.len() || s[i] == 10 {
        i
    } else {
        line_end(s, i + 1)
    }
}

/// The first index in `[i, e)` that holds no space, or `e`.
pub open spec fn skip_space(s: Seq<u8>, i: int, e: int) -> int
    decreases e - i,
{
    if i >= e || !is_space(s[i]) {
        i
    } else {
        skip_space(s, i + 1, e)
    }
}

/// The end of `[a, e)` once trailing spaces are cut off.
pub open spec fn cut_space(s: Seq<u8>, a: int, e: int) -> int
    decreases e - a,
{
    if e <= a || !is_space(s[e - 1]) {
        e
    } else {
        cut_space(s, a, e - 1)
    }
}

/// The first double quote in `[a, b)`, or `b`.
pub open spec fn find_quote(s: Seq<u8>, a: int, b: int) -> int
    decreases b - a,
{
    if a >= b || s[a] == 34 {
        a
    } else {
        find_quote(s, a + 1, b)
    }
}

/// What one line of a token file holds.
pub enum LineEntry {
    /// A blank line, a comment, or an empty quoted string.
    Skip,
    /// A decoded token.
    Token(Seq<u8>),
    /// A line that breaks the grammar.
    Illegal,
}

/// Reads the trimmed line `[a, b)` of `s`: blank lines and lines starting
/// with `#` are skipped; otherwise the text between the first double quote
/// and a double quote that ends the line is decoded as a token.
pub open spec fn line_entry(s: Seq<u8>, a: int, b: int) -> LineEntry {
    if a >= b || s[a] == 35 {
        LineEntry::Skip
    } else if find_quote(s, a, b) >= b || s[b - 1] != 34 || find_quote(s, a, b) >= b - 1 {
        LineEntry::Illegal
    } else if find_quote(s, a, b) + 1 == b - 1 {
        LineEntry::Skip
    } else {
        match decode_token(s.subrange(find_quote(s, a, b) + 1, b - 1)) {
            Some(t) => LineEntry::Token(t),
            None => LineEntry::Illegal,
        }
    }
}

/// The entry of the line `[i, e)` once its spaces are trimmed.
pub open spec fn trimmed_entry(s: Seq<u8>, i: int, e: int) -> LineEntry {
    line_entry(s, skip_space(s, i, e), cut_space(s, skip_space(s, i, e), e))
}

/// The dictionary `toks` after reading the token file `s` from position
/// `i`, or `None` if a line breaks the grammar.
pub open spec fn read_tokens_from(toks: Seq<Seq<u8>>, s: Seq<u8>, i: int) -> Option<Seq<Seq<u8>>>
    decreases s.len() + 1 - i,
{
    if i < 0 || i >= s.len() {
        Some(toks)
    } else {
        proof {
            lemma_line_end_bounds(s, i);
        }
        match trimmed_entry(s, i, line_end(s, i)) {
            LineEntry::Skip => read_tokens_from(toks, s, line_end(s, i) + 1),
            LineEntry::Token(t) => read_tokens_from(add_unique(toks, t), s, line_end(s, i) + 1),
            LineEntry::Illegal => None,
        }
    }
}

pub proof fn lemma_line_end_bounds(s: Seq<u8>, i: int)
    requires
        0 <= i <= s.len(),
    ensures
        i <= line_end(s, i) <= s.len(),
        line_end(s, i) < s.len() ==> s[line_end(s, i)] == 10,
    decreases s.len() - i,
{
    if i < s.len() && s[i] != 10 {
        lemma_line_end_bounds(s, i + 1);
    }
}

pub proof fn lemma_skip_space_bounds(s: Seq<u8>, i: int, e: int)
    requires
        0 <= i <= e <= s.len(),
    ensures
        i <= skip_space(s, i, e) <= e,
    decreases e - i,
{
    if i < e && is_space(s[i]) {
        lemma_skip_space_bounds(s, i + 1, e);
    }
}

pub proof fn lemma_cut_space_bounds(s: Seq<u8>, a: int, e: int)
    requires
        0 <= a <= e <= s.len(),
    ensures
        a <= cut_space(s, a, e) <= e,
    decreases e - a,
{
    if e > a && is_space(s[e - 1]) {
        lemma_cut_space_bounds(s, a, e - 1);
    }
}

pub proof fn lemma_find_quote_bounds(s: Seq<u8>, a: int, b: int)
    requires
        0 <= a <= b <= s.len(),
    ensures
        a <= find_quote(s, a, b) <= b,
    decreases b - a,
{
    if a < b && s[a] != 34 {
        lemma_find_quote_bounds(s, a + 1, b);
    }
}

proof fn lemma_add_unique_keeps(toks: Seq<Seq<u8>>, t: Seq<u8>)
    requires
        no_duplicates(toks),
    ensures
        no_duplicates(add_unique(toks, t)),
        add_unique(toks, t).len() == toks.len() || add_unique(toks, t).len() == toks.len() + 1,
{
    if !toks.contains(t) {
        let r = toks.push(t);
        assert forall|i: int, j: int| 0 <= i < j < r.len() implies r[i] != r[j] by {
            if j == toks.len() {
                assert(toks[i] == r[i]);
            }
        }
    }
}

proof fn lemma_dedup_no_duplicates(s: Seq<Seq<u8>>)
    ensures
        no_duplicates(dedup(s)),
    decreases s.len(),
{
    if s.len() > 0 {
        lemma_dedup_no_duplicates(s.drop_last());
        lemma_add_unique_keeps(dedup(s.drop_last()), s.last());
    }
}

/// Whether two byte strings are equal.
pub(crate) fn bytes_equal(a: &[u8], b: &[u8]) -> (r: bool)
    ensures
        r == (a@ == b@),
{
    if a.len() != b.len() {
        return false;
    }
    let mut i: usize = 0;
    while i < a.len()
        invariant
            a@.len() == b@.len(),
            i <= a@.len(),
            forall|k: int| 0 <= k < i ==> a@[k] == b@[k],
        decreases a@.len() - i,
    {
        if a[i] != b[i] {
            return false;
        }
        i = i + 1;
    }
    assert(a@ =~= b@);
    true
}

fn exec_line_end(s: &[u8], i: usize) -> (r: usize)
    requires
        i <= s@.len(),
    ensures
        r == line_end(s@, i as int),
{
    let mut j = i;
    while j < s.len() && s[j] != 10
        invariant
            i <= j <= s@.len(),
            line_end(s@, i as int) == line_end(s@, j as int),
        decreases s@.len() - j,
    {
        j = j + 1;
    }
    j
}

fn exec_skip_space(s: &[u8], i: usize, e: usize) -> (r: usize)
    requires
        i <= e <= s@.len(),
    ensures
        r == skip_space(s@, i as int, e as int),
{
    let mut j = i;
    while j < e && (s[j] == 32 || (9 <= s[j] && s[j] <= 13))
        invariant
            i <= j <= e <= s@.len(),
            skip_space(s@, i as int, e as int) == skip_space(s@, j as int, e as int),
        decreases e - j,
    {
        j = j + 1;
    }
    j
}

fn exec_cut_space(s: &[u8], a: usize, e: usize) -> (r: usize)
    requires
        a <= e <= s@.len(),
    ensures
        r == cut_space(s@, a as int, e as int),
{
    let mut j = e;
    while j > a && (s[j - 1] == 32 || (9 <= s[j - 1] && s[j - 1] <= 13))
        invariant
            a <= j <= e <= s@.len(),
            cut_space(s@, a as int, e as int) == cut_space(s@, a as int, j as int),
        decreases j - a,
    {
        j = j - 1;
    }
    j
}

fn exec_find_quote(s: &[u8], a: usize, b: usize) -> (r: usize)
    requires
        a <= b <= s@.len(),
    ensures
        r == find_quote(s@, a as int, b as int),
{
    let mut j = a;
    while j < b && s[j] != 34
        invariant
            a <= j <= b <= s@.len(),
            find_quote(s@, a as int, b as int) == find_quote(s@, j as int, b as int),
        decreases b - j,
    {
        j = j + 1;
    }
    j
}

/// Reads the line `[i, e)` of a token file.
fn read_line(s: &[u8], i: usize, e: usize) -> (r: Result<Option<Vec<u8>>, Error>)
    requires
        i <= e <= s@.len(),
    ensures
        trimmed_entry(s@, i as int, e as int) is Skip <==> r matches Ok(None),
        trimmed_entry(s@, i as int, e as int) is Illegal <==> r is Err,
        r is Err ==> r->Err_0 is IllegalArgument,
        r matches Ok(Some(t)) ==> trimmed_entry(s@, i as int, e as int) == LineEntry::Token(t@),
{
    let a = exec_skip_space(s, i, e);
    proof {
        lemma_skip_space_bounds(s@, i as int, e as int);
    }
    let b = exec_cut_space(s, a, e);
    proof {
        lemma_cut_space_bounds(s@, a as int, e as int);
    }
    if a >= b || s[a] == 35 {
        return Ok(None);
    }
    let q = exec_find_quote(s, a, b);
    proof {
        lemma_find_quote_bounds(s@, a as int, b as int);
    }
    if q >= b || s[b - 1] != 34 || q >= b - 1 {
        return Err(Error::IllegalArgument(String::from_str("Illegal line")));
    }
    if q + 1 == b - 1 {
        return Ok(None);
    }
    let item = &s[q + 1..b - 1];
    match decode_bytes(item) {
        Ok(t) => Ok(Some(t)),
        Err(_) => Err(Error::IllegalArgument(String::from_str("Illegal line (hex decoding)"))),
    }
}

/// A dictionary of byte-string tokens, in insertion order, without duplicates.
#[derive(Debug)]
pub struct Tokens {
    pub token_vec: Vec<Vec<u8>>,
}

impl View for Tokens {
    type V = Seq<Seq<u8>>;

    open spec fn view(&self) -> Seq<Seq<u8>> {
        self.token_vec@.map_values(|t: Vec<u8>| t@)
    }
}

impl Tokens {
    /// The dictionary holds no token twice.
    pub open spec fn wf(&self) -> bool {
        no_duplicates(self@)
    }

    /// Creates a dictionary from a list of tokens; repeated tokens are kept once.
    pub fn new(token_vec: Vec<Vec<u8>>) -> (r: Tokens)
        ensures
            r.wf(),
            r@ == dedup(token_vec@.map_values(|t: Vec<u8>| t@)),
    {
        let ghost src = token_vec@.map_values(|t: Vec<u8>| t@);
        let mut r = Tokens { token_vec: Vec::new() };
        let mut i: usize = 0;
        proof {
            assert(src.subrange(0, 0) =~= Seq::<Seq<u8>>::empty());
            assert(r@ =~= Seq::<Seq<u8>>::empty());
        }
        while i < token_vec.len()
            invariant
                i <= token_vec@.len(),
                src == token_vec@.map_values(|t: Vec<u8>| t@),
                r.wf(),
                r@ == dedup(src.subrange(0, i as int)),
            decreases token_vec@.len() - i,
        {
            r.add_token(&token_vec[i]);
            proof {
                assert(src.subrange(0, i + 1).drop_last() =~= src.subrange(0, i as int));
            }
            i = i + 1;
        }
        proof {
            assert(src.subrange(0, i as int) =~= src);
        }
        r
    }

    /// Adds a token unless it is already present; returns whether it was added.
    pub fn add_token(&mut self, token: &Vec<u8>) -> (r: bool)
        requires
            old(self).wf(),
        ensures
            final(self).wf(),
            r == !old(self)@.contains(token@),
            final(self)@ == add_unique(old(self)@, token@),
    {
        let mut i: usize = 0;
        while i < self.token_vec.len()
            invariant
                i <= self.token_vec@.len(),
                self.token_vec@ == old(self).token_vec@,
                old(self).wf(),
                forall|k: int| 0 <= k < i ==> self@[k] != token@,
            decreases self.token_vec@.len() - i,
        {
            if bytes_equal(self.token_vec[i].as_slice(), token.as_slice()) {
                assert(self@[i as int] == token@);
                return false;
            }
            i = i + 1;
        }
        proof {
            lemma_add_unique_keeps(self@, token@);
        }
        self.token_vec.push(token.clone());
        assert(self@ =~= old(self)@.push(token@));
        true
    }

    /// Creates a dictionary from the text of a token file.
    pub fn from_tokens_file(contents: &str) -> (r: Result<Tokens, Error>)
        ensures
            read_tokens_from(Seq::empty(), contents.spec_bytes(), 0) is Some <==> r is Ok,
            r is Ok ==> r->Ok_0.wf() && r->Ok_0@ == read_tokens_from(
                Seq::empty(),
                contents.spec_bytes(),
                0,
            ).unwrap(),
            r is Err ==> r->Err_0 is IllegalArgument,
    {
        let mut ret = Tokens { token_vec: Vec::new() };
        assert(ret@ =~= Seq::<Seq<u8>>::empty());
        ret.add_tokens_from_file(contents)?;
        Ok(ret)
    }

    /// Reads the text of a token file into the dictionary and returns how
    /// many new tokens it added (at most `u32::MAX` is reported). One token
    /// per line: blank lines and lines starting with `#` are skipped; other
    /// lines hold a double-quoted token, optionally after a `name =` prefix.
    /// On an illegal line the error is returned and the dictionary is left
    /// with the tokens of the lines before it.
    pub fn add_tokens_from_file(&mut self, contents: &str) -> (r: Result<u32, Error>)
        requires
            old(self).wf(),
        ensures
            final(self).wf(),
            read_tokens_from(old(self)@, contents.spec_bytes(), 0) is Some <==> r is Ok,
            r is Ok ==> final(self)@ == read_tokens_from(old(self)@, contents.spec_bytes(), 0).unwrap(),
            old(self)@.len() <= final(self)@.len(),
            final(self)@.subrange(0, old(self)@.len() as int) == old(self)@,
            r is Ok ==> r->Ok_0 as int == if final(self)@.len() - old(self)@.len() < u32::MAX {
                final(self)@.len() - old(self)@.len()
            } else {
                u32::MAX as int
            },
            r is Err ==> r->Err_0 is IllegalArgument,
    {
        let s = contents.as_bytes();
        let n = s.len();
        let mut i: usize = 0;
        let mut entries: u32 = 0;
        while i < n
            invariant
                n == s@.len(),
                s@ == contents.spec_bytes(),
                i <= n,
                self.wf(),
                old(self)@.len() <= self@.len(),
                self@.subrange(0, old(self)@.len() as int) == old(self)@,
                read_tokens_from(old(self)@, s@, 0) == read_tokens_from(self@, s@, i as int),
                entries as int == if self@.len() - old(self)@.len() < u32::MAX {
                    self@.len() - old(self)@.len()
                } else {
                    u32::MAX as int
                },
            decreases n - i,
        {
            let e = exec_line_end(s, i);
            proof {
                lemma_line_end_bounds(s@, i as int);
            }
            let ghost prev = self@;
            let line = read_line(s, i, e)?;
            assert(read_tokens_from(prev, s@, i as int) == match trimmed_entry(s@, i as int, e as int) {
                LineEntry::Skip => read_tokens_from(prev, s@, e + 1),
                LineEntry::Token(t) => read_tokens_from(add_unique(prev, t), s@, e + 1),
                LineEntry::Illegal => None,
            });
            match line {
                Some(t) => {
                    let ghost before = self@;
                    let added = self.add_token(&t);
                    assert(self@.subrange(0, old(self)@.len() as int) =~= before.subrange(0, old(self)@.len() as int));
                    if added && entries < u32::MAX {
                        entries = entries + 1;
                    }
                },
                None => {},
            }
            assert(read_tokens_from(old(self)@, s@, 0) == read_tokens_from(self@, s@, e + 1));
            if e < n {
                i = e + 1;
            } else {
                assert(read_tokens_from(self@, s@, e + 1) == read_tokens_from(self@, s@, n as int));
                i = n;
            }
        }
        Ok(entries)
    }

    /// The tokens, in the order they were added.
    pub fn tokens(&self) -> (r: &[Vec<u8>])
        ensures
            r@ == self.token_vec@,
    {
        self.token_vec.as_slice()
    }

    /// The number of tokens.
    pub fn len(&self) -> (r: usize)
        ensures
            r == self@.len(),
    {
        self.token_vec.len()
    }
}

} // verus!
