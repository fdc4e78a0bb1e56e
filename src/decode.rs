//! Decoding of dictionary tokens: `\xNN` hex escapes and escaped characters.
use vstd::prelude::*;
use crate::error::Error;
use vstd::string::StringSliceAdditionalSpecFns;

verus! {

/// The value of an ASCII hex digit (`0-9`, `A-F`, `a-f`).
pub open spec fn hex_value(c: u8) -> Option<u8> {
    if 48 <= c <= 57 {
        Some((c - 48) as u8)
    } else if 65 <= c <= 70 {
        Some((c - 55) as u8)
    } else if 97 <= c <= 102 {
        Some((c - 87) as u8)
    } else {
        None
    }
}

/// Prepends `p` to a decoded remainder, if there is one.
pub open spec fn prepend(p: Seq<u8>, rest: Option<Seq<u8>>) -> Option<Seq<u8>> {
    match rest {
        Some(t) => Some(p + t),
        None => None,
    }
}

/// Decodes `s` from position `i`: a backslash followed by `x` or `X` takes
/// two hex digits and yields their byte; a backslash followed by any other
/// byte yields that byte; other bytes stand for themselves. A bad hex digit
/// and an escape cut short by the end of the text are errors.
pub open spec fn decode_from(s: Seq<u8>, i: int) -> Option<Seq<u8>>
    decreases s.len() - i,
{
    if i < 0 || i >= s.len() {
        Some(Seq::empty())
    } else if s[i] != 92 {
        prepend(seq![s[i]], decode_from(s, i + 1))
    } else if i + 1 >= s.len() {
        None
    } else if s[i + 1] == 120 || s[i + 1] == 88 {
        if i + 3 >= s.len() {
            None
        } else if hex_value(s[i + 2]) is None {
            None
        } else if hex_value(s[i + 3]) is None {
            None
        } else {
            prepend(
                seq![(hex_value(s[i + 2]).unwrap() * 16 + hex_value(s[i + 3]).unwrap()) as u8],
                decode_from(s, i + 4),
            )
        }
    } else {
        prepend(seq![s[i + 1]], decode_from(s, i + 2))
    }
}

/// The decoding of a whole token.
pub open spec fn decode_token(s: Seq<u8>) -> Option<Seq<u8>> {
    decode_from(s, 0)
}

/// Converts a hex digit to its value: `'A'` gives 10.
pub fn from_hex(hex: u8) -> (r: Result<u8, Error>)
    ensures
        hex_value(hex) is Some <==> r is Ok,
        r is Ok ==> r->Ok_0 == hex_value(hex).unwrap(),
        r is Err ==> r->Err_0 is IllegalArgument,
{
    if 48 <= hex && hex <= 57 {
        Ok(hex - 48)
    } else if 65 <= hex && hex <= 70 {
        Ok(hex - 55)
    } else if 97 <= hex && hex <= 102 {
        Ok(hex - 87)
    } else {
        Err(Error::IllegalArgument(String::from_str("Invalid hex character")))
    }
}

proof fn lemma_prepend_push(token: Seq<u8>, b: u8, rest: Option<Seq<u8>>)
    ensures
        prepend(token, prepend(seq![b], rest)) == prepend(token.push(b), rest),
{
    if let Some(t) = rest {
        assert(token + (seq![b] + t) =~= token.push(b) + t);
    }
}

/// Decodes the bytes of a token, see `decode_token`.
pub fn decode_bytes(item: &[u8]) -> (r: Result<Vec<u8>, Error>)
    ensures
        decode_token(item@) is Some <==> r is Ok,
        r is Ok ==> r->Ok_0@ == decode_token(item@).unwrap(),
        r is Err ==> r->Err_0 is IllegalArgument,
{
    let s = Ghost(item@);
    let mut token: Vec<u8> = Vec::new();
    let n = item.len();
    let mut i: usize = 0;
    while i < n
        invariant
            n == item@.len(),
            s@ == item@,
            i <= n,
            decode_token(s@) == prepend(token@, decode_from(s@, i as int)),
        decreases n - i,
    {
        let c = item[i];
        if c != 92 {
            proof {
                lemma_prepend_push(token@, c, decode_from(s@, i + 1));
            }
            token.push(c);
            i = i + 1;
        } else if i + 1 >= n {
            return Err(Error::IllegalArgument(String::from_str("Unterminated escape")));
        } else {
            let d = item[i + 1];
            if d == 120 || d == 88 {
                if n - i <= 3 {
                    return Err(Error::IllegalArgument(String::from_str("Unterminated hex escape")));
                }
                let hi = from_hex(item[i + 2])?;
                let lo = from_hex(item[i + 3])?;
                let b: u8 = hi * 16 + lo;
                proof {
                    lemma_prepend_push(token@, b, decode_from(s@, i + 4));
                }
                token.push(b);
                i = i + 4;
            } else {
                proof {
                    lemma_prepend_push(token@, d, decode_from(s@, i + 2));
                }
                token.push(d);
                i = i + 2;
            }
        }
    }
    assert(token@ + Seq::<u8>::empty() =~= token@);
    Ok(token)
}

/// Decodes a dictionary token: `foo\x41\\and\"bar` gives `fooA\and"bar`.
pub fn str_decode(item: &str) -> (r: Result<Vec<u8>, Error>)
    ensures
        decode_token(item.spec_bytes()) is Some <==> r is Ok,
        r is Ok ==> r->Ok_0@ == decode_token(item.spec_bytes()).unwrap(),
        r is Err ==> r->Err_0 is IllegalArgument,
{
    decode_bytes(item.as_bytes())
}

} // verus!
