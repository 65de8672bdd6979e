//! Byte strings written as text: `\xHH` stands for the byte with hexadecimal
//! value `HH`, and in a delimiter pattern `\x**` stands for any byte. Every
//! other byte stands for itself (so non-ASCII text keeps its UTF-8 bytes).
use vstd::prelude::*;
use vstd::string::StringSliceAdditionalSpecFns;

verus! {

/// Whether `b` is an ASCII hexadecimal digit.
pub open spec fn is_hex(b: u8) -> bool {
    (48 <= b <= 57) || (65 <= b <= 70) || (97 <= b <= 102)
}

/// The value of the hexadecimal digit `b`.
pub open spec fn hex_val(b: u8) -> int {
    if 48 <= b <= 57 {
        b - 48
    } else if 65 <= b <= 70 {
        b - 55
    } else {
        b - 87
    }
}

/// `s` starts with a `\xHH` escape.
pub open spec fn starts_with_hex_escape(s: Seq<u8>) -> bool {
    s.len() >= 4 && s[0] == 92u8 && s[1] == 120u8 && is_hex(s[2]) && is_hex(s[3])
}

/// `s` starts with a `\x**` wildcard.
pub open spec fn starts_with_wildcard(s: Seq<u8>) -> bool {
    s.len() >= 4 && s[0] == 92u8 && s[1] == 120u8 && s[2] == 42u8 && s[3] == 42u8
}

/// The byte written by the escape `\xHH` at the front of `s`.
pub open spec fn escaped_byte(s: Seq<u8>) -> u8 {
    (16 * hex_val(s[2]) + hex_val(s[3])) as u8
}

/// The bytes written by the text `s`: `\xHH` escapes are decoded, other bytes
/// stand for themselves.
pub open spec fn unescape(s: Seq<u8>) -> Seq<u8>
    decreases s.len(),
{
    if s.len() == 0 {
        Seq::empty()
    } else if starts_with_hex_escape(s) {
        seq![escaped_byte(s)] + unescape(s.skip(4))
    } else {
        seq![s[0]] + unescape(s.skip(1))
    }
}

/// The byte pattern written by the text `s`: like [`unescape`], and `\x**`
/// stands for any byte (`None`).
pub open spec fn unescape_pattern(s: Seq<u8>) -> Seq<Option<u8>>
    decreases s.len(),
{
    if s.len() == 0 {
        Seq::empty()
    } else if starts_with_hex_escape(s) {
        seq![Some(escaped_byte(s))] + unescape_pattern(s.skip(4))
    } else if starts_with_wildcard(s) {
        seq![None] + unescape_pattern(s.skip(4))
    } else {
        seq![Some(s[0])] + unescape_pattern(s.skip(1))
    }
}

/// The hexadecimal digit of `v` (below 16), its letters in upper or lower case.
pub open spec fn hex_digit(v: int, upper: bool) -> u8 {
    if v < 10 {
        (48 + v) as u8
    } else if upper {
        (55 + v) as u8
    } else {
        (87 + v) as u8
    }
}

/// A byte written as `\x` and its two hexadecimal digits, in either case,
/// stands for that byte, in plain text and in a delimiter pattern alike.
pub proof fn lemma_unescape_hex(b: u8, upper: bool, rest: Seq<u8>)
    ensures
        unescape(seq![92u8, 120u8, hex_digit(b as int / 16, upper), hex_digit(b as int % 16, upper)] + rest) == seq![b] + unescape(rest),
        unescape_pattern(seq![92u8, 120u8, hex_digit(b as int / 16, upper), hex_digit(b as int % 16, upper)] + rest) == seq![Some(b)]
            + unescape_pattern(rest),
{
    let s = seq![92u8, 120u8, hex_digit(b as int / 16, upper), hex_digit(b as int % 16, upper)] + rest;
    assert(s.skip(4) =~= rest);
    assert(starts_with_hex_escape(s));
    assert(escaped_byte(s) == b);
}

/// Text without a backslash stands for its own bytes.
pub proof fn lemma_unescape_plain(s: Seq<u8>)
    requires
        forall|i: int| 0 <= i < s.len() ==> s[i] != 92u8,
    ensures
        unescape(s) == s,
        unescape_pattern(s) == s.map_values(|b: u8| Some(b)),
    decreases s.len(),
{
    if s.len() > 0 {
        lemma_unescape_plain(s.skip(1));
        assert(seq![s[0]] + s.skip(1) =~= s);
        assert(seq![Some(s[0])] + s.skip(1).map_values(|b: u8| Some(b)) =~= s.map_values(|b: u8| Some(b)));
    }
}

fn is_hex_digit(b: u8) -> (r: bool)
    ensures
        r == is_hex(b),
{
    (48 <= b && b <= 57) || (65 <= b && b <= 70) || (97 <= b && b <= 102)
}

fn hex_digit_value(b: u8) -> (r: u8)
    requires
        is_hex(b),
    ensures
        r == hex_val(b),
        r < 16,
{
    if 48 <= b && b <= 57 {
        b - 48
    } else if 65 <= b && b <= 70 {
        b - 55
    } else {
        b - 87
    }
}

/// The bytes written by `s`, with `\xHH` escapes decoded.
pub fn parse_string_to_bytes(s: &str) -> (r: Vec<u8>)
    ensures
        r@ == unescape(s.spec_bytes()),
{
    let b = s.as_bytes();
    let n = b.len();
    let mut out: Vec<u8> = Vec::new();
    let mut i: usize = 0;
    assert(b@.skip(0) =~= b@);
    assert(out@ + unescape(b@) =~= unescape(b@));
    while i < n
        invariant
            n == b@.len(),
            0 <= i <= n,
            out@ + unescape(b@.skip(i as int)) == unescape(b@),
        decreases n - i,
    {
        let ghost rest = b@.skip(i as int);
        if 4 <= n - i && b[i] == 92u8 && b[i + 1] == 120u8 && is_hex_digit(b[i + 2]) && is_hex_digit(b[i + 3]) {
            let hi = hex_digit_value(b[i + 2]);
            let lo = hex_digit_value(b[i + 3]);
            out.push(16 * hi + lo);
            assert(rest.skip(4) =~= b@.skip(i + 4));
            i = i + 4;
        } else {
            out.push(b[i]);
            assert(rest.skip(1) =~= b@.skip(i + 1));
            i = i + 1;
        }
        assert(out@ + unescape(b@.skip(i as int)) =~= unescape(b@));
    }
    assert(b@.skip(n as int) =~= Seq::<u8>::empty());
    assert(out@ + Seq::<u8>::empty() =~= out@);
    out
}

/// The byte pattern written by `s`: `\xHH` escapes are decoded and `\x**`
/// matches any byte (`None`).
pub fn parse_string_to_read_delimiter(s: &str) -> (r: Vec<Option<u8>>)
    ensures
        r@ == unescape_pattern(s.spec_bytes()),
{
    let b = s.as_bytes();
    let n = b.len();
    let mut out: Vec<Option<u8>> = Vec::new();
    let mut i: usize = 0;
    assert(b@.skip(0) =~= b@);
    assert(out@ + unescape_pattern(b@) =~= unescape_pattern(b@));
    while i < n
        invariant
            n == b@.len(),
            0 <= i <= n,
            out@ + unescape_pattern(b@.skip(i as int)) == unescape_pattern(b@),
        decreases n - i,
    {
        let ghost rest = b@.skip(i as int);
        if 4 <= n - i && b[i] == 92u8 && b[i + 1] == 120u8 && is_hex_digit(b[i + 2]) && is_hex_digit(b[i + 3]) {
            let hi = hex_digit_value(b[i + 2]);
            let lo = hex_digit_value(b[i + 3]);
            out.push(Some(16 * hi + lo));
            assert(rest.skip(4) =~= b@.skip(i + 4));
            i = i + 4;
        } else if 4 <= n - i && b[i] == 92u8 && b[i + 1] == 120u8 && b[i + 2] == 42u8 && b[i + 3] == 42u8 {
            out.push(None);
            assert(rest.skip(4) =~= b@.skip(i + 4));
            i = i + 4;
        } else {
            out.push(Some(b[i]));
            assert(rest.skip(1) =~= b@.skip(i + 1));
            i = i + 1;
        }
        assert(out@ + unescape_pattern(b@.skip(i as int)) =~= unescape_pattern(b@));
    }
    assert(b@.skip(n as int) =~= Seq::<u8>::empty());
    assert(out@ + Seq::<Option<u8>>::empty() =~= out@);
    out
}

} // verus!
