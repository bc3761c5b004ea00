//! ASCII plumbing shared by the preamble codec: conversions between byte
//! sequences and character strings, ASCII case folding, and decimal
//! rendering and parsing of unsigned integers.

use vstd::prelude::*;
use vstd::string::StringSliceAdditionalSpecFns;

verus! {

broadcast use vstd::string::group_string_axioms;

/// The characters denoted by a sequence of ASCII bytes.
pub open spec fn chars_of_ascii(b: Seq<u8>) -> Seq<char> {
    Seq::new(b.len(), |i: int| b[i] as char)
}

/// True when every byte is ASCII (below 0x80).
pub open spec fn all_ascii_bytes(b: Seq<u8>) -> bool {
    forall|i: int| 0 <= i < b.len() ==> b[i] < 0x80
}

/// Relies on `String::push`: appends one character to the string.
#[verifier::external_body]
pub fn push_char(s: &mut String, c: char)
    ensures
        final(s)@ == old(s)@.push(c),
{
    s.push(c);
}

/// Append the UTF-8 bytes of a string slice to a byte buffer.
pub fn push_str_bytes(out: &mut Vec<u8>, s: &str)
    ensures
        final(out)@ == old(out)@ + s.spec_bytes(),
{
    out.extend_from_slice(s.as_bytes());
    assert(final(out)@ =~= old(out)@ + s.spec_bytes());
}

/// Build the string spelled by a sequence of ASCII bytes.
pub fn ascii_bytes_to_string(b: &[u8]) -> (r: String)
    requires
        all_ascii_bytes(b@),
    ensures
        r@ == chars_of_ascii(b@),
        r@.len() == b@.len(),
{
    let mut r = String::new();
    let mut i: usize = 0;
    while i < b.len()
        invariant
            all_ascii_bytes(b@),
            i <= b@.len(),
            r@ == chars_of_ascii(b@.take(i as int)),
        decreases b@.len() - i,
    {
        let c = b[i] as char;
        push_char(&mut r, c);
        assert(r@ =~= chars_of_ascii(b@.take(i as int + 1)));
        i = i + 1;
    }
    assert(b@.take(b@.len() as int) =~= b@);
    r
}

/// ASCII case folding of one character: `A`..`Z` map to `a`..`z`, all other
/// characters are unchanged.
pub open spec fn lower_char(c: char) -> char {
    if 'A' <= c && c <= 'Z' {
        ((c as u8) + 32) as char
    } else {
        c
    }
}

/// ASCII case folding of a character sequence.
pub open spec fn lower_seq(s: Seq<char>) -> Seq<char> {
    Seq::new(s.len(), |i: int| lower_char(s[i]))
}

/// ASCII-lowercase a string: uppercase ASCII letters are folded, every other
/// character (including any non-ASCII one) is kept as it is.
pub fn to_ascii_lowercase(s: &str) -> (r: String)
    ensures
        r@ == lower_seq(s@),
{
    let n = s.unicode_len();
    let mut r = String::new();
    let mut i: usize = 0;
    while i < n
        invariant
            n == s@.len(),
            i <= n,
            r@ == lower_seq(s@).take(i as int),
        decreases n - i,
    {
        let c = s.get_char(i);
        let lc: char = if 'A' <= c && c <= 'Z' {
            ((c as u8) + 32) as char
        } else {
            c
        };
        push_char(&mut r, lc);
        assert(r@ =~= lower_seq(s@).take(i as int + 1));
        i = i + 1;
    }
    assert(lower_seq(s@).take(n as int) =~= lower_seq(s@));
    r
}

/// Compare two string slices character by character.
pub fn str_eq(a: &str, b: &str) -> (r: bool)
    ensures
        r == (a@ == b@),
{
    let na = a.unicode_len();
    let nb = b.unicode_len();
    if na != nb {
        return false;
    }
    let mut i: usize = 0;
    while i < na
        invariant
            na == a@.len(),
            na == b@.len(),
            i <= na,
            forall|j: int| 0 <= j < i ==> a@[j] == b@[j],
        decreases na - i,
    {
        if a.get_char(i) != b.get_char(i) {
            return false;
        }
        i = i + 1;
    }
    proof {
        assert(a@ =~= b@);
    }
    true
}

/// True when `b` is the code of an ASCII decimal digit.
pub open spec fn is_dec_digit(b: u8) -> bool {
    0x30 <= b <= 0x39
}

/// True when every byte of `s` is a decimal digit.
pub open spec fn all_dec_digits(s: Seq<u8>) -> bool {
    forall|i: int| 0 <= i < s.len() ==> is_dec_digit(#[trigger] s[i])
}

/// The value denoted by a sequence of decimal digit bytes, most significant
/// digit first.
pub open spec fn dec_value(s: Seq<u8>) -> nat
    decreases s.len(),
{
    if s.len() == 0 {
        0
    } else {
        (dec_value(s.drop_last()) * 10 + (s.last() - 0x30)) as nat
    }
}

/// The shortest decimal rendering of `n`, as ASCII digit bytes.
pub open spec fn dec_rep(n: nat) -> Seq<u8>
    decreases n,
{
    if n < 10 {
        seq![(n + 0x30) as u8]
    } else {
        dec_rep(n / 10).push((n % 10 + 0x30) as u8)
    }
}

/// The decimal rendering of `n` denotes `n` and is made of digits.
pub proof fn lemma_dec_rep_value(n: nat)
    ensures
        dec_value(dec_rep(n)) == n,
        all_dec_digits(dec_rep(n)),
        dec_rep(n).len() >= 1,
    decreases n,
{
    if n < 10 {
        assert(dec_rep(n).drop_last() =~= Seq::<u8>::empty());
        assert(dec_value(Seq::<u8>::empty()) == 0);
        assert(dec_value(dec_rep(n)) == n);
    } else {
        lemma_dec_rep_value(n / 10);
        assert(dec_rep(n).drop_last() =~= dec_rep(n / 10));
    }
}

/// Render `n` in decimal, most significant digit first.
pub fn u64_to_dec_bytes(n: u64) -> (r: Vec<u8>)
    ensures
        r@ == dec_rep(n as nat),
        r@.len() >= 1,
    decreases n,
{
    if n < 10 {
        let mut r: Vec<u8> = Vec::new();
        r.push((n as u8) + 0x30);
        assert(r@ =~= dec_rep(n as nat));
        r
    } else {
        let mut r = u64_to_dec_bytes(n / 10);
        r.push(((n % 10) as u8) + 0x30);
        assert(r@ =~= dec_rep(n as nat));
        r
    }
}

/// True when `c` is an ASCII decimal digit.
pub open spec fn is_dec_digit_char(c: char) -> bool {
    '0' <= c <= '9'
}

/// True when every character of `s` is a decimal digit.
pub open spec fn all_dec_digit_chars(s: Seq<char>) -> bool {
    forall|i: int| 0 <= i < s.len() ==> is_dec_digit_char(#[trigger] s[i])
}

/// The value denoted by a sequence of decimal digit characters.
pub open spec fn dec_value_chars(s: Seq<char>) -> nat
    decreases s.len(),
{
    if s.len() == 0 {
        0
    } else {
        (dec_value_chars(s.drop_last()) * 10 + (s.last() as u32 - 0x30)) as nat
    }
}

/// The digit part of a decimal literal: a single leading `+` is skipped.
pub open spec fn digits_of(s: Seq<char>) -> Seq<char> {
    if s.len() > 0 && s[0] == '+' {
        s.drop_first()
    } else {
        s
    }
}

/// How a decimal `u32` literal reads: one or more digits after an optional
/// leading `+`, denoting a value that fits in a `u32`.
pub open spec fn spec_parse_u32(s: Seq<char>) -> Option<u32> {
    let d = digits_of(s);
    if d.len() >= 1 && all_dec_digit_chars(d) && dec_value_chars(d) <= u32::MAX {
        Some(dec_value_chars(d) as u32)
    } else {
        None
    }
}

/// The value of a prefix of a digit character string is at most the whole
/// value.
proof fn lemma_dec_value_chars_prefix(s: Seq<char>, j: int)
    requires
        all_dec_digit_chars(s),
        0 <= j <= s.len(),
    ensures
        dec_value_chars(s.take(j)) <= dec_value_chars(s),
    decreases s.len() - j,
{
    if j == s.len() {
        assert(s.take(j) =~= s);
    } else {
        assert(s.take(j + 1).drop_last() =~= s.take(j));
        assert(s.take(j + 1).last() == s[j]);
        assert(dec_value_chars(s.take(j)) <= dec_value_chars(s.take(j + 1)));
        lemma_dec_value_chars_prefix(s, j + 1);
    }
}

/// Parse a decimal `u32` literal, as `str::parse::<u32>` reads it aside from
/// a leading `-` (which can never denote a `u32` anyway).
pub fn parse_u32_str(s: &str) -> (r: Option<u32>)
    ensures
        r == spec_parse_u32(s@),
{
    let n = s.unicode_len();
    let mut start: usize = 0;
    if n > 0 && s.get_char(0) == '+' {
        start = 1;
    }
    let ghost d = digits_of(s@);
    proof {
        assert(d =~= s@.skip(start as int));
    }
    if start == n {
        return None;
    }
    let mut acc: u32 = 0;
    let mut i: usize = start;
    while i < n
        invariant
            n == s@.len(),
            start <= i <= n,
            d == digits_of(s@),
            d == s@.skip(start as int),
            d.len() == n - start,
            forall|j: int| 0 <= j < i - start ==> is_dec_digit_char(#[trigger] d[j]),
            acc as nat == dec_value_chars(d.take(i - start)),
        decreases n - i,
    {
        let c = s.get_char(i);
        if c < '0' || c > '9' {
            proof {
                assert(d[i - start] == s@[i as int]);
                assert(!is_dec_digit_char(d[i - start]));
                assert(!all_dec_digit_chars(d));
                assert(spec_parse_u32(s@) is None);
            }
            return None;
        }
        let dv: u32 = (c as u32) - 0x30;
        proof {
            assert(d.take(i - start + 1).drop_last() =~= d.take(i - start));
            assert(d.take(i - start + 1).last() == d[i - start]);
        }
        if acc > (u32::MAX - dv) / 10 {
            proof {
                assert((acc as nat) * 10 + dv > u32::MAX) by (nonlinear_arith)
                    requires
                        acc > (u32::MAX - dv) / 10,
                        dv < 10,
                        acc <= u32::MAX,
                ;
                if all_dec_digit_chars(d) {
                    assert(dec_value_chars(d.take(i - start + 1)) == (acc as nat) * 10 + dv);
                    lemma_dec_value_chars_prefix(d, i - start + 1);
                    assert(dec_value_chars(d) > u32::MAX);
                }
                assert(spec_parse_u32(s@) is None);
            }
            return None;
        }
        proof {
            assert((acc as nat) * 10 + dv <= u32::MAX) by (nonlinear_arith)
                requires
                    acc <= (u32::MAX - dv) / 10,
                    dv < 10,
            ;
        }
        acc = acc * 10 + dv;
        i = i + 1;
    }
    proof {
        assert(d.take(n - start) =~= d);
    }
    Some(acc)
}

/// The decimal rendering of `n` as characters.
pub open spec fn dec_str(n: nat) -> Seq<char> {
    chars_of_ascii(dec_rep(n))
}

/// Render `n` in decimal as a string.
pub fn u32_to_dec_string(n: u32) -> (r: String)
    ensures
        r@ == dec_str(n as nat),
{
    let bytes = u64_to_dec_bytes(n as u64);
    proof {
        lemma_dec_rep_value(n as nat);
        assert(all_ascii_bytes(bytes@));
    }
    ascii_bytes_to_string(bytes.as_slice())
}

/// The value of digit characters equals the value of the digit bytes they
/// spell.
proof fn lemma_dec_value_chars_of_ascii(b: Seq<u8>)
    requires
        all_dec_digits(b),
    ensures
        dec_value_chars(chars_of_ascii(b)) == dec_value(b),
    decreases b.len(),
{
    if b.len() > 0 {
        assert(chars_of_ascii(b).drop_last() =~= chars_of_ascii(b.drop_last()));
        assert(chars_of_ascii(b).last() == b.last() as char);
        lemma_dec_value_chars_of_ascii(b.drop_last());
    }
}

/// Rendering a number in decimal and reading the rendering back is the
/// identity.
pub proof fn lemma_dec_round_trip(n: u32)
    ensures
        spec_parse_u32(dec_str(n as nat)) == Some(n),
{
    lemma_dec_rep_value(n as nat);
    let b = dec_rep(n as nat);
    let c = chars_of_ascii(b);
    assert(is_dec_digit(b[0]));
    assert(c[0] != '+') by {
        assert(c[0] == b[0] as char);
    }
    assert(digits_of(c) == c);
    assert(all_dec_digit_chars(c)) by {
        assert forall|i: int| 0 <= i < c.len() implies is_dec_digit_char(#[trigger] c[i]) by {
            assert(is_dec_digit(b[i]));
            assert(c[i] == b[i] as char);
        }
    }
    lemma_dec_value_chars_of_ascii(b);
}

} // verus!
