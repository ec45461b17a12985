use vstd::prelude::*;

use crate::text::{byte_strings, digit_value, split_words, words};

verus! {

/// The byte that a two-digit hexadecimal token writes.
pub open spec fn hex_pair(tok: Seq<u8>) -> Option<u8> {
    if tok.len() == 2 && digit_value(tok[0], true) is Some && digit_value(tok[1], true) is Some {
        Some((digit_value(tok[0], true)->0 * 16 + digit_value(tok[1], true)->0) as u8)
    } else {
        None
    }
}

/// The bytes that the tokens write, one each, or `None` when a token is not
/// two hexadecimal digits.
pub open spec fn hex_tokens(toks: Seq<Seq<u8>>) -> Option<Seq<u8>>
    decreases toks.len(),
{
    if toks.len() == 0 {
        Some(seq![])
    } else {
        match (hex_tokens(toks.drop_last()), hex_pair(toks.last())) {
            (Some(bytes), Some(b)) => Some(bytes.push(b)),
            _ => None,
        }
    }
}

/// The program that a hex text writes: whitespace-separated two-digit
/// hexadecimal tokens, one byte each, in order.
pub open spec fn hex_text(text: Seq<u8>) -> Option<Seq<u8>> {
    hex_tokens(words(text))
}

fn hex_digit(b: u8) -> (r: Option<u8>)
    ensures
        match r {
            Some(d) => digit_value(b, true) == Some(d as nat),
            None => digit_value(b, true) is None,
        },
{
    if 48 <= b && b <= 57 {
        Some(b - 48)
    } else if 97 <= b && b <= 102 {
        Some(b - 87)
    } else if 65 <= b && b <= 70 {
        Some(b - 55)
    } else {
        None
    }
}

proof fn lemma_hex_tokens_fail(toks: Seq<Seq<u8>>, i: int)
    requires
        0 <= i <= toks.len(),
        hex_tokens(toks.take(i)) is None,
    ensures
        hex_tokens(toks) is None,
    decreases toks.len() - i,
{
    if i < toks.len() {
        assert(toks.take(i + 1).drop_last() =~= toks.take(i));
        lemma_hex_tokens_fail(toks, i + 1);
    } else {
        assert(toks.take(i) =~= toks);
    }
}

/// Reads a program written as hex text.
pub fn load_hex_text(text: &[u8]) -> (r: Option<Vec<u8>>)
    ensures
        match r {
            Some(bytes) => hex_text(text@) == Some(bytes@),
            None => hex_text(text@) is None,
        },
{
    let toks = split_words(text);
    let ghost ts = byte_strings(toks@);
    let mut bytes: Vec<u8> = Vec::new();
    let mut i: usize = 0;
    proof {
        assert(ts.take(0) =~= seq![]);
    }
    while i < toks.len()
        invariant
            ts == byte_strings(toks@),
            ts == words(text@),
            i <= toks.len(),
            hex_tokens(ts.take(i as int)) == Some(bytes@),
        decreases toks.len() - i,
    {
        let tok = toks[i].as_slice();
        proof {
            assert(ts.take(i + 1).drop_last() =~= ts.take(i as int));
            assert(ts.take(i + 1).last() == tok@);
        }
        if tok.len() != 2 {
            proof {
                lemma_hex_tokens_fail(ts, i + 1);
            }
            return None;
        }
        let hi = match hex_digit(tok[0]) {
            Some(d) => d,
            None => {
                proof {
                    lemma_hex_tokens_fail(ts, i + 1);
                }
                return None;
            },
        };
        let lo = match hex_digit(tok[1]) {
            Some(d) => d,
            None => {
                proof {
                    lemma_hex_tokens_fail(ts, i + 1);
                }
                return None;
            },
        };
        bytes.push(hi * 16 + lo);
        i += 1;
    }
    proof {
        assert(ts.take(i as int) =~= ts);
    }
    Some(bytes)
}

} // verus!
