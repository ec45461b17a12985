use vstd::prelude::*;

verus! {

/// ASCII whitespace as the assembler understands it: space, tab, line feed,
/// vertical tab, form feed and carriage return.
pub open spec fn is_space(b: u8) -> bool {
    b == 32 || (9 <= b && b <= 13)
}

/// `tok` holds exactly the ASCII characters of `name`.
pub open spec fn spells(tok: Seq<u8>, name: Seq<char>) -> bool {
    &&& tok.len() == name.len()
    &&& forall|i: int| 0 <= i < tok.len() ==> tok[i] == name[i] as u8
}

pub fn is_space_byte(b: u8) -> (r: bool)
    ensures
        r == is_space(b),
{
    b == 32 || (9 <= b && b <= 13)
}

/// Byte-wise equality of two slices.
pub fn bytes_equal(a: &[u8], b: &[u8]) -> (r: bool)
    ensures
        r == (a@ == b@),
{
    if a.len() != b.len() {
        return false;
    }
    let mut i: usize = 0;
    while i < a.len()
        invariant
            a.len() == b.len(),
            i <= a.len(),
            forall|k: int| 0 <= k < i ==> a@[k] == b@[k],
        decreases a.len() - i,
    {
        if a[i] != b[i] {
            return false;
        }
        i += 1;
    }
    proof {
        assert(a@ =~= b@);
    }
    true
}

/// Whether the bytes of `tok` spell the ASCII word `name`.
pub fn spells_word(tok: &[u8], name: &str) -> (r: bool)
    requires
        name.is_ascii(),
    ensures
        r == spells(tok@, name@),
{
    proof {
        broadcast use vstd::string::is_ascii_spec_bytes;
    }
    let b = name.as_bytes();
    let r = bytes_equal(tok, b);
    proof {
        if !r && spells(tok@, name@) {
            assert(tok@ =~= b@);
        }
    }
    r
}

/// A copy of `s[start..end]`.
pub fn copy_range(s: &[u8], start: usize, end: usize) -> (r: Vec<u8>)
    requires
        start <= end <= s.len(),
    ensures
        r@ == s@.subrange(start as int, end as int),
{
    let mut r: Vec<u8> = Vec::new();
    let mut i: usize = start;
    while i < end
        invariant
            start <= i <= end <= s.len(),
            r@ == s@.subrange(start as int, i as int),
        decreases end - i,
    {
        r.push(s[i]);
        i += 1;
        proof {
            assert(r@ =~= s@.subrange(start as int, i as int));
        }
    }
    r
}

/// A copy of the whole of `v`.
pub fn copy_bytes(v: &Vec<u8>) -> (r: Vec<u8>)
    ensures
        r@ == v@,
{
    let r = copy_range(v.as_slice(), 0, v.len());
    proof {
        assert(v@.subrange(0, v@.len() as int) =~= v@);
    }
    r
}

/// The byte sequences of a `Vec` of byte vectors.
pub open spec fn byte_strings(v: Seq<Vec<u8>>) -> Seq<Seq<u8>> {
    v.map_values(|t: Vec<u8>| t@)
}

pub open spec fn trim_start(s: Seq<u8>) -> Seq<u8>
    decreases s.len(),
{
    if s.len() > 0 && is_space(s[0]) {
        trim_start(s.drop_first())
    } else {
        s
    }
}

pub open spec fn trim_end(s: Seq<u8>) -> Seq<u8>
    decreases s.len(),
{
    if s.len() > 0 && is_space(s.last()) {
        trim_end(s.drop_last())
    } else {
        s
    }
}

/// `s` without whitespace at either end.
pub open spec fn trim(s: Seq<u8>) -> Seq<u8> {
    trim_end(trim_start(s))
}

/// The whitespace-separated words of `s`, where `cur` is the part of a
/// word read before `s`.
pub open spec fn words_from(s: Seq<u8>, cur: Seq<u8>) -> Seq<Seq<u8>>
    decreases s.len(),
{
    if s.len() == 0 {
        if cur.len() > 0 {
            seq![cur]
        } else {
            seq![]
        }
    } else if is_space(s[0]) {
        if cur.len() > 0 {
            seq![cur] + words_from(s.drop_first(), seq![])
        } else {
            words_from(s.drop_first(), seq![])
        }
    } else {
        words_from(s.drop_first(), cur.push(s[0]))
    }
}

/// The whitespace-separated words of `s`, none of them empty.
pub open spec fn words(s: Seq<u8>) -> Seq<Seq<u8>> {
    words_from(s, seq![])
}

/// The lines of `s`, where `cur` is the part of a line read before `s`. A
/// line feed ends a line; a last line without one still counts when it is
/// not empty.
pub open spec fn lines_from(s: Seq<u8>, cur: Seq<u8>) -> Seq<Seq<u8>>
    decreases s.len(),
{
    if s.len() == 0 {
        if cur.len() > 0 {
            seq![cur]
        } else {
            seq![]
        }
    } else if s[0] == 10 {
        seq![cur] + lines_from(s.drop_first(), seq![])
    } else {
        lines_from(s.drop_first(), cur.push(s[0]))
    }
}

/// The lines of `s`, without their line feeds.
pub open spec fn lines(s: Seq<u8>) -> Seq<Seq<u8>> {
    lines_from(s, seq![])
}

/// Start and end of `s` without whitespace at either end.
pub fn trim_bounds(s: &[u8]) -> (r: (usize, usize))
    ensures
        r.0 <= r.1 <= s@.len(),
        s@.subrange(r.0 as int, r.1 as int) == trim(s@),
        r.0 < r.1 ==> !is_space(s@[r.0 as int]),
{
    let mut a: usize = 0;
    proof {
        assert(s@.skip(0) =~= s@);
    }
    while a < s.len() && is_space_byte(s[a])
        invariant
            a <= s@.len(),
            trim_start(s@) == trim_start(s@.skip(a as int)),
        decreases s.len() - a,
    {
        proof {
            assert(s@.skip(a as int).drop_first() =~= s@.skip(a + 1));
        }
        a += 1;
    }
    proof {
        assert(trim_start(s@.skip(a as int)) == s@.skip(a as int));
        assert(s@.skip(a as int) =~= s@.subrange(a as int, s@.len() as int));
    }
    let ghost stop = a == s@.len() || !is_space(s@[a as int]);
    let mut b: usize = s.len();
    while b > a && is_space_byte(s[b - 1])
        invariant
            stop == (a == s@.len() || !is_space(s@[a as int])),
            stop,
            a <= b <= s@.len(),
            trim(s@) == trim_end(s@.subrange(a as int, b as int)),
        decreases b - a,
    {
        proof {
            assert(s@.subrange(a as int, b as int).drop_last() =~= s@.subrange(a as int, b - 1));
        }
        b -= 1;
    }
    (a, b)
}

/// The whitespace-separated words of `s`.
pub fn split_words(s: &[u8]) -> (r: Vec<Vec<u8>>)
    ensures
        byte_strings(r@) == words(s@),
{
    let mut r: Vec<Vec<u8>> = Vec::new();
    let mut cur: Vec<u8> = Vec::new();
    let mut i: usize = 0;
    proof {
        assert(s@.skip(0) =~= s@);
        assert(byte_strings(r@) =~= seq![]);
    }
    while i < s.len()
        invariant
            i <= s@.len(),
            words(s@) == byte_strings(r@) + words_from(s@.skip(i as int), cur@),
        decreases s.len() - i,
    {
        let ghost rest = s@.skip(i as int);
        proof {
            assert(rest.drop_first() =~= s@.skip(i + 1));
        }
        if is_space_byte(s[i]) {
            if cur.len() > 0 {
                let ghost before = byte_strings(r@);
                let ghost word = cur@;
                r.push(cur);
                cur = Vec::new();
                proof {
                    assert(byte_strings(r@) =~= before.push(word));
                    assert(before + (seq![word] + words_from(rest.drop_first(), seq![])) =~= before.push(
                        word,
                    ) + words_from(rest.drop_first(), seq![]));
                }
            } else {
                proof {
                    assert(cur@ =~= seq![]);
                }
            }
        } else {
            cur.push(s[i]);
        }
        i += 1;
    }
    proof {
        assert(s@.skip(i as int).len() == 0);
    }
    if cur.len() > 0 {
        let ghost before = byte_strings(r@);
        let ghost word = cur@;
        r.push(cur);
        proof {
            assert(byte_strings(r@) =~= before.push(word));
            assert(before + seq![word] =~= before.push(word));
        }
    } else {
        proof {
            assert(byte_strings(r@) + seq![] =~= byte_strings(r@));
        }
    }
    r
}

/// The lines of `s`, without their line feeds.
pub fn split_lines(s: &[u8]) -> (r: Vec<Vec<u8>>)
    ensures
        byte_strings(r@) == lines(s@),
{
    let mut r: Vec<Vec<u8>> = Vec::new();
    let mut cur: Vec<u8> = Vec::new();
    let mut i: usize = 0;
    proof {
        assert(s@.skip(0) =~= s@);
        assert(byte_strings(r@) =~= seq![]);
    }
    while i < s.len()
        invariant
            i <= s@.len(),
            lines(s@) == byte_strings(r@) + lines_from(s@.skip(i as int), cur@),
        decreases s.len() - i,
    {
        let ghost rest = s@.skip(i as int);
        proof {
            assert(rest.drop_first() =~= s@.skip(i + 1));
        }
        if s[i] == 10 {
            let ghost before = byte_strings(r@);
            let ghost line = cur@;
            r.push(cur);
            cur = Vec::new();
            proof {
                assert(byte_strings(r@) =~= before.push(line));
                assert(before + (seq![line] + lines_from(rest.drop_first(), seq![])) =~= before.push(line)
                    + lines_from(rest.drop_first(), seq![]));
            }
        } else {
            cur.push(s[i]);
        }
        i += 1;
    }
    proof {
        assert(s@.skip(i as int).len() == 0);
    }
    if cur.len() > 0 {
        let ghost before = byte_strings(r@);
        let ghost line = cur@;
        r.push(cur);
        proof {
            assert(byte_strings(r@) =~= before.push(line));
            assert(before + seq![line] =~= before.push(line));
        }
    } else {
        proof {
            assert(byte_strings(r@) + seq![] =~= byte_strings(r@));
        }
    }
    r
}

/// The value of one digit: decimal, or hexadecimal in either case.
pub open spec fn digit_value(b: u8, hex: bool) -> Option<nat> {
    if 48 <= b <= 57 {
        Some((b - 48) as nat)
    } else if hex && 97 <= b <= 102 {
        Some((b - 87) as nat)
    } else if hex && 65 <= b <= 70 {
        Some((b - 55) as nat)
    } else {
        None
    }
}

pub open spec fn radix(hex: bool) -> nat {
    if hex {
        16
    } else {
        10
    }
}

pub open spec fn all_digits(s: Seq<u8>, hex: bool) -> bool {
    forall|i: int| 0 <= i < s.len() ==> (#[trigger] digit_value(s[i], hex)) is Some
}

/// The number that the digits `s` write, most significant first.
pub open spec fn digits_value(s: Seq<u8>, hex: bool) -> nat
    decreases s.len(),
{
    if s.len() == 0 {
        0
    } else {
        let last = match digit_value(s.last(), hex) {
            Some(d) => d,
            None => 0,
        };
        digits_value(s.drop_last(), hex) * radix(hex) + last
    }
}

/// The literal starts with `0x` and is read in hexadecimal.
pub open spec fn is_hex_literal(tok: Seq<u8>) -> bool {
    tok.len() >= 2 && tok[0] == 48 && tok[1] == 120
}

pub open spec fn literal_digits(tok: Seq<u8>) -> Seq<u8> {
    if is_hex_literal(tok) {
        tok.skip(2)
    } else {
        tok
    }
}

/// The value of a numeric literal: decimal digits, or `0x` and hexadecimal
/// digits; at least one digit.
pub open spec fn literal_value(tok: Seq<u8>) -> Option<nat> {
    let hex = is_hex_literal(tok);
    let digits = literal_digits(tok);
    if digits.len() > 0 && all_digits(digits, hex) {
        Some(digits_value(digits, hex))
    } else {
        None
    }
}

/// The value of a numeric literal that is at most `max`.
pub open spec fn numeral(tok: Seq<u8>, max: nat) -> Option<nat> {
    match literal_value(tok) {
        Some(v) => if v <= max {
            Some(v)
        } else {
            None
        },
        None => None,
    }
}

/// More digits never write a smaller number.
pub proof fn lemma_digits_value_prefix(s: Seq<u8>, k: int, hex: bool)
    requires
        0 <= k <= s.len(),
    ensures
        digits_value(s.take(k), hex) <= digits_value(s, hex),
    decreases s.len(),
{
    if k < s.len() {
        assert(s.drop_last().take(k) =~= s.take(k));
        lemma_digits_value_prefix(s.drop_last(), k, hex);
        let v = digits_value(s.drop_last(), hex);
        assert(v * radix(hex) >= v) by (nonlinear_arith)
            requires
                radix(hex) >= 1,
        ;
    } else {
        assert(s.take(k) =~= s);
    }
}

fn digit(b: u8, hex: bool) -> (r: Option<u32>)
    ensures
        match r {
            Some(d) => digit_value(b, hex) == Some(d as nat),
            None => digit_value(b, hex) is None,
        },
{
    if 48 <= b && b <= 57 {
        Some((b - 48) as u32)
    } else if hex && 97 <= b && b <= 102 {
        Some((b - 87) as u32)
    } else if hex && 65 <= b && b <= 70 {
        Some((b - 55) as u32)
    } else {
        None
    }
}

/// Reads a numeric literal whose value is at most `max`.
pub fn parse_numeral(tok: &[u8], max: u16) -> (r: Option<u16>)
    ensures
        match r {
            Some(v) => numeral(tok@, max as nat) == Some(v as nat),
            None => numeral(tok@, max as nat) is None,
        },
{
    let hex = tok.len() >= 2 && tok[0] == 48 && tok[1] == 120;
    let start: usize = if hex {
        2
    } else {
        0
    };
    let ghost digits = literal_digits(tok@);
    proof {
        assert(digits =~= tok@.skip(start as int));
    }
    if tok.len() <= start {
        return None;
    }
    let base: u32 = if hex {
        16
    } else {
        10
    };
    let mut acc: u32 = 0;
    let mut i: usize = start;
    proof {
        assert(digits.take(0) =~= seq![]);
    }
    while i < tok.len()
        invariant
            hex == is_hex_literal(tok@),
            base == radix(hex),
            digits == tok@.skip(start as int),
            digits == literal_digits(tok@),
            start <= i <= tok@.len(),
            acc <= max,
            acc == digits_value(digits.take(i - start), hex),
            all_digits(digits.take(i - start), hex),
        decreases tok.len() - i,
    {
        let k: usize = i - start;
        let d = match digit(tok[i], hex) {
            Some(d) => d,
            None => {
                proof {
                    assert(digits[k as int] == tok@[i as int]);
                    assert(!all_digits(digits, hex));
                }
                return None;
            },
        };
        proof {
            assert(digits.take(k + 1).drop_last() =~= digits.take(k as int));
            assert(digits.take(k + 1).last() == tok@[i as int]);
            assert(all_digits(digits.take(k + 1), hex)) by {
                assert forall|j: int| 0 <= j < k + 1 implies (#[trigger] digit_value(
                    digits.take(k + 1)[j],
                    hex,
                )) is Some by {
                    if j < k {
                        assert(digits.take(k + 1)[j] == digits.take(k as int)[j]);
                    }
                }
            }
        }
        acc = acc * base + d;
        if acc > max as u32 {
            proof {
                if all_digits(digits, hex) {
                    lemma_digits_value_prefix(digits, k + 1, hex);
                }
            }
            return None;
        }
        i += 1;
    }
    proof {
        assert(digits.take(i - start) =~= digits);
    }
    Some(acc as u16)
}

} // verus!
