//! Decoding a response preamble from wire bytes. The grammar is stated as
//! spec functions — a status line, then header lines, ended by an empty
//! line — and the executable parser is proved to follow it exactly.

use vstd::prelude::*;

use crate::ascii::{all_ascii_bytes, chars_of_ascii, lower_seq, push_char, spec_parse_u32,
    parse_u32_str, str_eq, to_ascii_lowercase};
use crate::encode::txt;
use crate::headers::{seq_get, HeaderEntry, Headers};
use crate::http_types::{CodecError, HttpContentType, HttpVersion, HTTP_PREAMBLE_MAX_ENCODED_SIZE};
use crate::preamble::{spec_content_type, parse_content_type, HttpResponsePreamble};

verus! {

/// The first carriage-return/line-feed pair at or after `i`, before `end`.
pub open spec fn spec_find_crlf(b: Seq<u8>, i: int, end: int) -> Option<int>
    decreases end - i,
{
    if i < 0 || i + 2 > end || end > b.len() {
        None
    } else if b[i] == 13 && b[i + 1] == 10 {
        Some(i)
    } else {
        spec_find_crlf(b, i + 1, end)
    }
}

/// A found line break lies in range and is a line break.
pub proof fn lemma_find_crlf_bounds(b: Seq<u8>, i: int, end: int, j: int)
    requires
        spec_find_crlf(b, i, end) == Some(j),
    ensures
        i <= j,
        j + 2 <= end <= b.len(),
        b[j] == 13 && b[j + 1] == 10,
    decreases end - i,
{
    if !(i < 0 || i + 2 > end || end > b.len()) && !(b[i] == 13 && b[i + 1] == 10) {
        lemma_find_crlf_bounds(b, i + 1, end, j);
    }
}

/// Scan for the first line break at or after `i`, before `end`.
pub fn find_crlf_from(buf: &[u8], i: usize, end: usize) -> (r: Option<usize>)
    requires
        i <= end <= buf@.len(),
    ensures
        match r {
            Some(j) => spec_find_crlf(buf@, i as int, end as int) == Some(j as int),
            None => spec_find_crlf(buf@, i as int, end as int) is None,
        },
    decreases end - i,
{
    if end - i < 2 {
        None
    } else if buf[i] == 13 && buf[i + 1] == 10 {
        Some(i)
    } else {
        find_crlf_from(buf, i + 1, end)
    }
}

/// The start of the first empty line (a doubled line break) at or after `i`,
/// before `end`.
pub open spec fn spec_find_terminator(b: Seq<u8>, i: int, end: int) -> Option<int>
    decreases end - i,
{
    if i < 0 || i + 4 > end || end > b.len() {
        None
    } else if b[i] == 13 && b[i + 1] == 10 && b[i + 2] == 13 && b[i + 3] == 10 {
        Some(i)
    } else {
        spec_find_terminator(b, i + 1, end)
    }
}

/// A found terminator lies in range and is a doubled line break.
pub proof fn lemma_find_terminator_bounds(b: Seq<u8>, i: int, end: int, j: int)
    requires
        spec_find_terminator(b, i, end) == Some(j),
    ensures
        i <= j,
        j + 4 <= end <= b.len(),
        b[j] == 13 && b[j + 1] == 10 && b[j + 2] == 13 && b[j + 3] == 10,
    decreases end - i,
{
    if !(i < 0 || i + 4 > end || end > b.len()) && !(b[i] == 13 && b[i + 1] == 10 && b[i + 2] == 13
        && b[i + 3] == 10) {
        lemma_find_terminator_bounds(b, i + 1, end, j);
    }
}

/// Scan for the first doubled line break at or after `i`, before `end`.
fn find_terminator_from(buf: &[u8], i: usize, end: usize) -> (r: Option<usize>)
    requires
        i <= end <= buf@.len(),
    ensures
        match r {
            Some(j) => spec_find_terminator(buf@, i as int, end as int) == Some(j as int),
            None => spec_find_terminator(buf@, i as int, end as int) is None,
        },
    decreases end - i,
{
    if end - i < 4 {
        None
    } else if buf[i] == 13 && buf[i + 1] == 10 && buf[i + 2] == 13 && buf[i + 3] == 10 {
        Some(i)
    } else {
        find_terminator_from(buf, i + 1, end)
    }
}

/// Where a preamble read must stop looking for its end: the whole buffer, or
/// the encoded-size cap when the buffer is longer.
pub open spec fn spec_scan_end(len: int) -> int {
    if len <= HTTP_PREAMBLE_MAX_ENCODED_SIZE {
        len
    } else {
        HTTP_PREAMBLE_MAX_ENCODED_SIZE as int
    }
}

/// Find where the preamble ends: the position just past the first doubled
/// line break, never past the encoded-size cap.
pub fn find_preamble_end(buf: &[u8]) -> (r: Option<usize>)
    ensures
        match r {
            Some(n) => spec_find_terminator(buf@, 0, spec_scan_end(buf@.len() as int)) == Some(
                n - 4,
            ) && 4 <= n <= buf@.len(),
            None => spec_find_terminator(buf@, 0, spec_scan_end(buf@.len() as int)) is None,
        },
{
    let len = buf.len();
    let cap = HTTP_PREAMBLE_MAX_ENCODED_SIZE as usize;
    let end = if len <= cap {
        len
    } else {
        cap
    };
    match find_terminator_from(buf, 0, end) {
        Some(j) => {
            proof {
                lemma_find_terminator_bounds(buf@, 0, end as int, j as int);
            }
            Some(j + 4)
        },
        None => None,
    }
}

/// A byte allowed in a reason phrase: a tab or a printable character.
pub open spec fn is_reason_byte(x: u8) -> bool {
    x == 9 || (0x20 <= x < 0x7f)
}

/// A byte allowed in a header name: printable, not a space, not a colon.
pub open spec fn is_name_byte(x: u8) -> bool {
    0x21 <= x <= 0x7e && x != 58
}

/// A byte allowed in a header value: any ASCII byte.
pub open spec fn is_value_byte(x: u8) -> bool {
    x < 0x80
}

/// A decimal digit byte's value.
pub open spec fn digit_val(x: u8) -> int {
    x - 0x30
}

/// True when `x` is a decimal digit byte.
pub open spec fn is_digit_byte(x: u8) -> bool {
    0x30 <= x <= 0x39
}

/// How a status line reads: `HTTP/1.0` or `HTTP/1.1`, a space, exactly three
/// digits, and then either nothing or a space followed by the reason phrase.
pub open spec fn spec_status_line(b: Seq<u8>) -> Option<(HttpVersion, u16, Seq<char>)> {
    if b.len() < 12 {
        None
    } else if !(b[0] == 72 && b[1] == 84 && b[2] == 84 && b[3] == 80 && b[4] == 47 && b[5] == 49
        && b[6] == 46) {
        None
    } else if b[7] != 48 && b[7] != 49 {
        None
    } else if b[8] != 32 {
        None
    } else if !(is_digit_byte(b[9]) && is_digit_byte(b[10]) && is_digit_byte(b[11])) {
        None
    } else {
        let v = if b[7] == 48 {
            HttpVersion::Http10
        } else {
            HttpVersion::Http11
        };
        let code = (digit_val(b[9]) * 100 + digit_val(b[10]) * 10 + digit_val(b[11])) as u16;
        if b.len() == 12 {
            Some((v, code, Seq::<char>::empty()))
        } else if b[12] != 32 {
            None
        } else if !(forall|k: int| 13 <= k < b.len() ==> is_reason_byte(#[trigger] b[k])) {
            None
        } else {
            Some((v, code, chars_of_ascii(b.subrange(13, b.len() as int))))
        }
    }
}

/// Copy an ASCII byte range out of the buffer as a string.
fn range_to_string(buf: &[u8], start: usize, end: usize) -> (r: String)
    requires
        start <= end <= buf@.len(),
        forall|k: int| start <= k < end ==> buf@[k] < 0x80,
    ensures
        r@ == chars_of_ascii(buf@.subrange(start as int, end as int)),
{
    let mut r = String::new();
    let mut i: usize = start;
    while i < end
        invariant
            start <= i <= end <= buf@.len(),
            forall|k: int| start <= k < end ==> buf@[k] < 0x80,
            r@ == chars_of_ascii(buf@.subrange(start as int, i as int)),
        decreases end - i,
    {
        push_char(&mut r, buf[i] as char);
        proof {
            assert(r@ =~= chars_of_ascii(buf@.subrange(start as int, i as int + 1)));
        }
        i = i + 1;
    }
    r
}

/// Parse the status line lying at `buf[start..end]`.
fn parse_status_line(buf: &[u8], start: usize, end: usize) -> (r: Option<(
    HttpVersion,
    u16,
    String,
)>)
    requires
        start <= end <= buf@.len(),
    ensures
        match r {
            Some((v, code, reason)) => spec_status_line(buf@.subrange(start as int, end as int))
                == Some((v, code, reason@)),
            None => spec_status_line(buf@.subrange(start as int, end as int)) is None,
        },
{
    let ghost sub = buf@.subrange(start as int, end as int);
    let n = end - start;
    if n < 12 {
        return None;
    }
    if !(buf[start] == 72 && buf[start + 1] == 84 && buf[start + 2] == 84 && buf[start + 3] == 80
        && buf[start + 4] == 47 && buf[start + 5] == 49 && buf[start + 6] == 46) {
        return None;
    }
    if buf[start + 7] != 48 && buf[start + 7] != 49 {
        return None;
    }
    if buf[start + 8] != 32 {
        return None;
    }
    let d0 = buf[start + 9];
    let d1 = buf[start + 10];
    let d2 = buf[start + 11];
    if !(0x30 <= d0 && d0 <= 0x39 && 0x30 <= d1 && d1 <= 0x39 && 0x30 <= d2 && d2 <= 0x39) {
        return None;
    }
    let v = if buf[start + 7] == 48 {
        HttpVersion::Http10
    } else {
        HttpVersion::Http11
    };
    let code: u16 = ((d0 - 0x30) as u16) * 100 + ((d1 - 0x30) as u16) * 10 + ((d2 - 0x30) as u16);
    if n == 12 {
        proof {
            assert(sub.len() == 12);
        }
        return Some((v, code, String::new()));
    }
    if buf[start + 12] != 32 {
        return None;
    }
    // every reason byte must be a tab or printable
    let reason_ok = check_reason_bytes(buf, start + 13, end);
    if !reason_ok {
        proof {
            let k0 = choose|k0: int| start + 13 <= k0 < end && !is_reason_byte(buf@[k0]);
            assert(start + 13 <= k0 < end && !is_reason_byte(buf@[k0]));
            assert(sub[k0 - start] == buf@[k0]);
            assert(!is_reason_byte(sub[k0 - start]));
        }
        return None;
    }
    proof {
        assert(forall|k: int| 13 <= k < sub.len() ==> is_reason_byte(#[trigger] sub[k])) by {
            assert(forall|k: int|
                13 <= k < sub.len() ==> #[trigger] sub[k] == buf@[start + k]
                    && is_reason_byte(buf@[start + k]));
        }
    }
    let reason = range_to_string(buf, start + 13, end);
    proof {
        assert(forall|k: int| 13 <= k < sub.len() ==> is_reason_byte(#[trigger] sub[k]));
        assert(buf@.subrange(start as int + 13, end as int) =~= sub.subrange(13, sub.len() as int));
    }
    Some((v, code, reason))
}


/// True when every byte of `buf[a..b]` may stand in a reason phrase.
fn check_reason_bytes(buf: &[u8], a: usize, b: usize) -> (r: bool)
    requires
        a <= b <= buf@.len(),
    ensures
        r == (forall|k: int| a <= k < b ==> is_reason_byte(#[trigger] buf@[k])),
{
    let mut i: usize = a;
    while i < b
        invariant
            a <= i <= b <= buf@.len(),
            forall|k: int| a <= k < i ==> is_reason_byte(#[trigger] buf@[k]),
        decreases b - i,
    {
        let x = buf[i];
        if !(x == 9 || (0x20 <= x && x < 0x7f)) {
            assert(!is_reason_byte(buf@[i as int]));
            return false;
        }
        i = i + 1;
    }
    true
}

/// True when every byte of `buf[a..b]` may stand in a header name.
fn check_name_bytes(buf: &[u8], a: usize, b: usize) -> (r: bool)
    requires
        a <= b <= buf@.len(),
    ensures
        r == (forall|k: int| a <= k < b ==> is_name_byte(#[trigger] buf@[k])),
{
    let mut i: usize = a;
    while i < b
        invariant
            a <= i <= b <= buf@.len(),
            forall|k: int| a <= k < i ==> is_name_byte(#[trigger] buf@[k]),
        decreases b - i,
    {
        let x = buf[i];
        if !(0x21 <= x && x <= 0x7e && x != 58) {
            assert(!is_name_byte(buf@[i as int]));
            return false;
        }
        i = i + 1;
    }
    true
}

/// True when every byte of `buf[a..b]` may stand in a header value.
fn check_value_bytes(buf: &[u8], a: usize, b: usize) -> (r: bool)
    requires
        a <= b <= buf@.len(),
    ensures
        r == (forall|k: int| a <= k < b ==> is_value_byte(#[trigger] buf@[k])),
{
    let mut i: usize = a;
    while i < b
        invariant
            a <= i <= b <= buf@.len(),
            forall|k: int| a <= k < i ==> is_value_byte(#[trigger] buf@[k]),
        decreases b - i,
    {
        if buf[i] >= 0x80 {
            assert(!is_value_byte(buf@[i as int]));
            return false;
        }
        i = i + 1;
    }
    true
}

/// The first occurrence of byte `x` at or after `i`, before `end`.
pub open spec fn spec_find_byte(b: Seq<u8>, i: int, end: int, x: u8) -> Option<int>
    decreases end - i,
{
    if i < 0 || i >= end || end > b.len() {
        None
    } else if b[i] == x {
        Some(i)
    } else {
        spec_find_byte(b, i + 1, end, x)
    }
}

/// A found byte lies in range and is the byte.
pub proof fn lemma_find_byte_bounds(b: Seq<u8>, i: int, end: int, x: u8, j: int)
    requires
        spec_find_byte(b, i, end, x) == Some(j),
    ensures
        i <= j < end <= b.len(),
        b[j] == x,
    decreases end - i,
{
    if !(i < 0 || i >= end || end > b.len()) && b[i] != x {
        lemma_find_byte_bounds(b, i + 1, end, x, j);
    }
}

/// Scan for byte `x` at or after `i`, before `end`.
fn find_byte_from(buf: &[u8], i: usize, end: usize, x: u8) -> (r: Option<usize>)
    requires
        i <= end <= buf@.len(),
    ensures
        match r {
            Some(j) => spec_find_byte(buf@, i as int, end as int, x) == Some(j as int),
            None => spec_find_byte(buf@, i as int, end as int, x) is None,
        },
    decreases end - i,
{
    if i >= end {
        None
    } else if buf[i] == x {
        Some(i)
    } else {
        find_byte_from(buf, i + 1, end, x)
    }
}

/// The first position at or after `i`, before `end`, that is not a space or
/// a tab; `end` when all of them are.
pub open spec fn spec_skip_ws(b: Seq<u8>, i: int, end: int) -> int
    decreases end - i,
{
    if i < 0 || i >= end || end > b.len() {
        end
    } else if b[i] == 32 || b[i] == 9 {
        spec_skip_ws(b, i + 1, end)
    } else {
        i
    }
}

/// The skip never runs backwards or past the end.
pub proof fn lemma_skip_ws_bounds(b: Seq<u8>, i: int, end: int)
    requires
        0 <= i <= end <= b.len(),
    ensures
        i <= spec_skip_ws(b, i, end) <= end,
    decreases end - i,
{
    if i < end && (b[i] == 32 || b[i] == 9) {
        lemma_skip_ws_bounds(b, i + 1, end);
    }
}

/// Skip spaces and tabs at or after `i`, before `end`.
fn skip_ws_from(buf: &[u8], i: usize, end: usize) -> (r: usize)
    requires
        i <= end <= buf@.len(),
    ensures
        r == spec_skip_ws(buf@, i as int, end as int),
        i <= r <= end,
    decreases end - i,
{
    if i >= end {
        end
    } else if buf[i] == 32 || buf[i] == 9 {
        skip_ws_from(buf, i + 1, end)
    } else {
        i
    }
}

/// How a header line reads: a non-empty run of name bytes, a colon, optional
/// spaces and tabs, and an ASCII value running to the end of the line. The
/// name comes out ASCII-lowercased.
pub open spec fn spec_header_line(b: Seq<u8>) -> Option<(Seq<char>, Seq<char>)> {
    match spec_find_byte(b, 0, b.len() as int, 58) {
        None => None,
        Some(ci) => {
            if ci == 0 {
                None
            } else if !(forall|k: int| 0 <= k < ci ==> is_name_byte(#[trigger] b[k])) {
                None
            } else {
                let vstart = spec_skip_ws(b, ci + 1, b.len() as int);
                if !(forall|k: int| vstart <= k < b.len() ==> is_value_byte(#[trigger] b[k])) {
                    None
                } else {
                    Some(
                        (
                            lower_seq(chars_of_ascii(b.subrange(0, ci))),
                            chars_of_ascii(b.subrange(vstart, b.len() as int)),
                        ),
                    )
                }
            }
        },
    }
}

/// Parse the header line lying at `buf[start..end]`.
fn parse_header_line(buf: &[u8], start: usize, end: usize) -> (r: Option<(String, String)>)
    requires
        start <= end <= buf@.len(),
    ensures
        match r {
            Some((name, value)) => spec_header_line(buf@.subrange(start as int, end as int))
                == Some((name@, value@)),
            None => spec_header_line(buf@.subrange(start as int, end as int)) is None,
        },
{
    let ghost sub = buf@.subrange(start as int, end as int);
    let colon = match find_byte_from(buf, start, end, 58) {
        None => {
            proof {
                lemma_find_byte_shift(buf@, start as int, end as int, 58);
            }
            return None;
        },
        Some(c) => c,
    };
    proof {
        lemma_find_byte_bounds(buf@, start as int, end as int, 58, colon as int);
        lemma_find_byte_shift(buf@, start as int, end as int, 58);
    }
    if colon == start {
        return None;
    }
    // every name byte must be a printable non-colon, non-space byte
    let name_ok = check_name_bytes(buf, start, colon);
    if !name_ok {
        proof {
            let k0 = choose|k0: int| start <= k0 < colon && !is_name_byte(buf@[k0]);
            assert(start <= k0 < colon && !is_name_byte(buf@[k0]));
            assert(sub[k0 - start] == buf@[k0]);
            assert(!is_name_byte(sub[k0 - start]));
        }
        return None;
    }
    proof {
        assert(forall|k: int| 0 <= k < colon - start ==> is_name_byte(#[trigger] sub[k])) by {
            assert(forall|k: int|
                0 <= k < colon - start ==> #[trigger] sub[k] == buf@[start + k] && is_name_byte(
                    buf@[start + k],
                ));
        }
    }
    let vstart = skip_ws_from(buf, colon + 1, end);
    proof {
        lemma_skip_ws_shift(buf@, start as int, colon as int + 1, end as int);
    }
    // every value byte must be ASCII
    let value_ok = check_value_bytes(buf, vstart, end);
    if !value_ok {
        proof {
            let k0 = choose|k0: int| vstart <= k0 < end && !is_value_byte(buf@[k0]);
            assert(vstart <= k0 < end && !is_value_byte(buf@[k0]));
            assert(sub[k0 - start] == buf@[k0]);
            assert(!is_value_byte(sub[k0 - start]));
        }
        return None;
    }
    proof {
        assert(forall|k: int|
            vstart - start <= k < sub.len() ==> is_value_byte(#[trigger] sub[k])) by {
            assert(forall|k: int|
                vstart - start <= k < sub.len() ==> #[trigger] sub[k] == buf@[start + k]
                    && is_value_byte(buf@[start + k]));
        }
    }
    let raw_name = range_to_string(buf, start, colon);
    let name = to_ascii_lowercase(raw_name.as_str());
    let value = range_to_string(buf, vstart, end);
    proof {
        assert(buf@.subrange(start as int, colon as int) =~= sub.subrange(0, colon - start));
        assert(buf@.subrange(vstart as int, end as int) =~= sub.subrange(
            vstart - start,
            sub.len() as int,
        ));
        assert(forall|k: int| 0 <= k < colon - start ==> is_name_byte(#[trigger] sub[k]));
        assert(forall|k: int|
            vstart - start <= k < sub.len() ==> is_value_byte(#[trigger] sub[k]));
    }
    Some((name, value))
}

/// Finding a byte in a subrange is finding it in the buffer, shifted.
proof fn lemma_find_byte_shift(b: Seq<u8>, start: int, end: int, x: u8)
    requires
        0 <= start <= end <= b.len(),
    ensures
        spec_find_byte(b.subrange(start, end), 0, end - start, x) == (match spec_find_byte(
            b,
            start,
            end,
            x,
        ) {
            Some(j) => Some(j - start),
            None => None::<int>,
        }),
{
    lemma_find_byte_shift_rec(b, start, end, x, start);
}

/// Helper for [`lemma_find_byte_shift`], generalized over the scan position.
proof fn lemma_find_byte_shift_rec(b: Seq<u8>, start: int, end: int, x: u8, i: int)
    requires
        0 <= start <= i <= end <= b.len(),
    ensures
        spec_find_byte(b.subrange(start, end), i - start, end - start, x) == (match spec_find_byte(
            b,
            i,
            end,
            x,
        ) {
            Some(j) => Some(j - start),
            None => None::<int>,
        }),
    decreases end - i,
{
    if i < end {
        lemma_find_byte_shift_rec(b, start, end, x, i + 1);
    }
}

/// Skipping whitespace in a subrange is skipping it in the buffer, shifted.
proof fn lemma_skip_ws_shift(b: Seq<u8>, start: int, i: int, end: int)
    requires
        0 <= start <= i <= end <= b.len(),
    ensures
        spec_skip_ws(b.subrange(start, end), i - start, end - start) == spec_skip_ws(b, i, end)
            - start,
    decreases end - i,
{
    if i < end && (b[i] == 32 || b[i] == 9) {
        lemma_skip_ws_shift(b, start, i + 1, end);
    }
}


/// The reserved-header facts and free headers accumulated while reading
/// header lines, at the spec level.
pub struct ParseState {
    /// The content type named so far, if any.
    pub content_type: Option<HttpContentType>,
    /// The content length named so far, if any.
    pub content_length: Option<u32>,
    /// Whether chunked transfer encoding was named.
    pub chunked: bool,
    /// Whether the connection outlives the response.
    pub keep_alive: bool,
    /// Whether a connection header was seen.
    pub seen_connection: bool,
    /// Whether a transfer-encoding header was seen.
    pub seen_transfer_encoding: bool,
    /// The free-form headers, in order.
    pub entries: Seq<HeaderEntry>,
}

/// The state before any header line is read: keep-alive by default, nothing
/// seen.
pub open spec fn initial_parse_state() -> ParseState {
    ParseState {
        content_type: None,
        content_length: None,
        chunked: false,
        keep_alive: true,
        seen_connection: false,
        seen_transfer_encoding: false,
        entries: Seq::empty(),
    }
}

/// Fold one header line into the state. A reserved name must parse and may
/// appear only once; any other name must be fresh and lands in the header
/// list.
pub open spec fn spec_apply_header(st: ParseState, name: Seq<char>, value: Seq<char>) -> Option<
    ParseState,
> {
    if name == "content-type"@ {
        if st.content_type is Some {
            None
        } else {
            match spec_content_type(value) {
                Some(ct) => Some(ParseState { content_type: Some(ct), ..st }),
                None => None,
            }
        }
    } else if name == "content-length"@ {
        if st.content_length is Some {
            None
        } else {
            match spec_parse_u32(value) {
                Some(v) => Some(ParseState { content_length: Some(v), ..st }),
                None => None,
            }
        }
    } else if name == "connection"@ {
        if st.seen_connection {
            None
        } else if lower_seq(value) == "close"@ {
            Some(ParseState { keep_alive: false, seen_connection: true, ..st })
        } else if lower_seq(value) == "keep-alive"@ {
            Some(ParseState { keep_alive: true, seen_connection: true, ..st })
        } else {
            None
        }
    } else if name == "transfer-encoding"@ {
        if st.seen_transfer_encoding {
            None
        } else if lower_seq(value) == "chunked"@ {
            Some(ParseState { chunked: true, seen_transfer_encoding: true, ..st })
        } else {
            None
        }
    } else {
        if seq_get(st.entries, name) is Some {
            None
        } else {
            Some(ParseState { entries: st.entries.push((name, value)), ..st })
        }
    }
}

/// Fold the header lines of `b[pos..hend]` into the state: each line up to
/// its line break, with the empty line, which must sit exactly at the end,
/// closing the run.
pub open spec fn spec_parse_headers(b: Seq<u8>, pos: int, hend: int, st: ParseState) -> Option<
    ParseState,
>
    decreases hend - pos,
{
    match spec_find_crlf(b, pos, hend) {
        None => None,
        Some(jr) => {
            let j = if jr < pos {
                pos
            } else {
                jr
            };
            if j == pos {
                if pos == hend - 2 {
                    Some(st)
                } else {
                    None
                }
            } else {
                match spec_header_line(b.subrange(pos, j)) {
                    None => None,
                    Some(nv) => match spec_apply_header(st, nv.0, nv.1) {
                        None => None,
                        Some(st2) => if j + 2 <= hend {
                            spec_parse_headers(b, j + 2, hend, st2)
                        } else {
                            None
                        },
                    },
                }
            }
        },
    }
}

/// What a whole preamble head `b[0..n]` denotes: the status line up to the
/// first line break, then the header lines.
pub open spec fn spec_parse_preamble_at(b: Seq<u8>, n: int) -> Option<
    (HttpVersion, u16, Seq<char>, ParseState),
> {
    match spec_find_crlf(b, 0, n) {
        None => None,
        Some(j0r) => {
            let j0 = if j0r < 0 {
                0
            } else {
                j0r
            };
            match spec_status_line(b.subrange(0, j0)) {
                None => None,
                Some(sl) => {
                    if j0 + 2 <= n {
                        match spec_parse_headers(b, j0 + 2, n, initial_parse_state()) {
                            None => None,
                            Some(st) => {
                                if st.content_length is Some && st.chunked {
                                    None
                                } else if st.content_length is None && !st.chunked {
                                    None
                                } else {
                                    Some((sl.0, sl.1, sl.2, st))
                                }
                            },
                        }
                    } else {
                        None
                    }
                },
            }
        },
    }
}

/// The content type a preamble defaults to when none was named.
pub open spec fn content_type_or_default(o: Option<HttpContentType>) -> HttpContentType {
    match o {
        Some(ct) => ct,
        None => HttpContentType::Bytes,
    }
}

/// The executable accumulator matching [`ParseState`].
struct HeaderAccum {
    content_type: Option<HttpContentType>,
    content_length: Option<u32>,
    chunked: bool,
    keep_alive: bool,
    seen_connection: bool,
    seen_transfer_encoding: bool,
    headers: Headers,
}

impl HeaderAccum {
    /// The spec state this accumulator stands for.
    spec fn view(self) -> ParseState {
        ParseState {
            content_type: self.content_type,
            content_length: self.content_length,
            chunked: self.chunked,
            keep_alive: self.keep_alive,
            seen_connection: self.seen_connection,
            seen_transfer_encoding: self.seen_transfer_encoding,
            entries: self.headers.entries_view(),
        }
    }
}

/// Read header lines from `pos` to `n`, folding them into the accumulator.
fn parse_headers_into(buf: &[u8], pos: usize, n: usize, acc: HeaderAccum) -> (r: Result<
    HeaderAccum,
    CodecError,
>)
    requires
        pos <= n <= buf@.len(),
        acc.headers.wf(),
    ensures
        match r {
            Ok(acc2) => spec_parse_headers(buf@, pos as int, n as int, acc.view()) == Some(
                acc2.view(),
            ) && acc2.headers.wf(),
            Err(e) => spec_parse_headers(buf@, pos as int, n as int, acc.view()) is None
                && e is DeserializeError,
        },
    decreases n - pos,
{
    let mut acc = acc;
    let j = match find_crlf_from(buf, pos, n) {
        None => {
            return Err(
                CodecError::DeserializeError("header line without line break".to_owned()),
            );
        },
        Some(j) => j,
    };
    proof {
        lemma_find_crlf_bounds(buf@, pos as int, n as int, j as int);
    }
    if j == pos {
        if pos == n - 2 {
            return Ok(acc);
        } else {
            return Err(CodecError::DeserializeError("empty header line".to_owned()));
        }
    }
    let (name, value) = match parse_header_line(buf, pos, j) {
        None => {
            return Err(CodecError::DeserializeError("malformed header line".to_owned()));
        },
        Some(nv) => nv,
    };
    let ghost st = acc.view();
    if str_eq(name.as_str(), "content-type") {
        if acc.content_type.is_some() {
            return Err(CodecError::DeserializeError("duplicate content-type".to_owned()));
        }
        match parse_content_type(value.as_str()) {
            None => {
                return Err(
                    CodecError::DeserializeError("unsupported content-type value".to_owned()),
                );
            },
            Some(ct) => {
                acc.content_type = Some(ct);
            },
        }
    } else if str_eq(name.as_str(), "content-length") {
        if acc.content_length.is_some() {
            return Err(CodecError::DeserializeError("duplicate content-length".to_owned()));
        }
        match parse_u32_str(value.as_str()) {
            None => {
                return Err(
                    CodecError::DeserializeError("invalid content-length value".to_owned()),
                );
            },
            Some(v) => {
                acc.content_length = Some(v);
            },
        }
    } else if str_eq(name.as_str(), "connection") {
        if acc.seen_connection {
            return Err(CodecError::DeserializeError("duplicate connection header".to_owned()));
        }
        let lv = to_ascii_lowercase(value.as_str());
        if str_eq(lv.as_str(), "close") {
            acc.keep_alive = false;
            acc.seen_connection = true;
        } else if str_eq(lv.as_str(), "keep-alive") {
            acc.keep_alive = true;
            acc.seen_connection = true;
        } else {
            return Err(CodecError::DeserializeError("invalid connection value".to_owned()));
        }
    } else if str_eq(name.as_str(), "transfer-encoding") {
        if acc.seen_transfer_encoding {
            return Err(
                CodecError::DeserializeError("duplicate transfer-encoding header".to_owned()),
            );
        }
        let lv = to_ascii_lowercase(value.as_str());
        if str_eq(lv.as_str(), "chunked") {
            acc.chunked = true;
            acc.seen_transfer_encoding = true;
        } else {
            return Err(
                CodecError::DeserializeError("unsupported transfer-encoding value".to_owned()),
            );
        }
    } else {
        if acc.headers.contains_key(&name) {
            return Err(CodecError::DeserializeError("duplicate header".to_owned()));
        }
        let ghost k = name@;
        let ghost v = value@;
        acc.headers.insert(name, value);
        proof {
            assert(acc.view() == spec_apply_header(st, k, v).unwrap());
        }
    }
    proof {
        assert(spec_apply_header(st, name@, value@) == Some(acc.view()));
    }
    parse_headers_into(buf, j + 2, n, acc)
}

impl HttpResponsePreamble {
    /// Decode a preamble from the front of `buf`. Succeeds exactly when the
    /// head up to the first empty line reads as a status line and header
    /// lines with exactly one body framing (a content length or chunked
    /// transfer encoding); the result reports how many bytes the preamble
    /// took. Without an empty line within the encoded-size cap there are not
    /// enough bytes yet, and the caller should read more and retry.
    pub fn parse_preamble(buf: &[u8]) -> (r: Result<(HttpResponsePreamble, usize), CodecError>)
        ensures
            match r {
                Ok((p, n)) => {
                    &&& spec_find_terminator(buf@, 0, spec_scan_end(buf@.len() as int)) == Some(
                        n - 4,
                    )
                    &&& 4 <= n <= buf@.len()
                    &&& spec_parse_preamble_at(buf@, n as int) matches Some(pr)
                        && p.client_http_version == pr.0 && p.status_code == pr.1 && p.reason@
                        == pr.2 && p.keep_alive == pr.3.keep_alive && p.content_length
                        == pr.3.content_length && p.content_type == content_type_or_default(
                        pr.3.content_type,
                    ) && p.headers.entries_view() == pr.3.entries
                    &&& p.wf()
                },
                Err(e) => match spec_find_terminator(buf@, 0, spec_scan_end(buf@.len() as int)) {
                    None => e is UnderflowError,
                    Some(m) => spec_parse_preamble_at(buf@, m + 4) is None
                        && e is DeserializeError,
                },
            },
    {
        let n = match find_preamble_end(buf) {
            None => {
                return Err(
                    CodecError::UnderflowError(
                        "not enough bytes to form a response preamble".to_owned(),
                    ),
                );
            },
            Some(n) => n,
        };
        let j0 = match find_crlf_from(buf, 0, n) {
            None => {
                return Err(CodecError::DeserializeError("no status line".to_owned()));
            },
            Some(j) => j,
        };
        proof {
            lemma_find_crlf_bounds(buf@, 0, n as int, j0 as int);
        }
        let (version, status, reason) = match parse_status_line(buf, 0, j0) {
            None => {
                return Err(CodecError::DeserializeError("malformed status line".to_owned()));
            },
            Some(t) => t,
        };
        let acc = HeaderAccum {
            content_type: None,
            content_length: None,
            chunked: false,
            keep_alive: true,
            seen_connection: false,
            seen_transfer_encoding: false,
            headers: Headers::new(),
        };
        proof {
            assert(acc.view() == initial_parse_state());
        }
        let acc = match parse_headers_into(buf, j0 + 2, n, acc) {
            Err(e) => {
                return Err(e);
            },
            Ok(acc) => acc,
        };
        if acc.content_length.is_some() && acc.chunked {
            return Err(
                CodecError::DeserializeError(
                    "incompatible transfer-encoding and content-length".to_owned(),
                ),
            );
        }
        if acc.content_length.is_none() && !acc.chunked {
            return Err(
                CodecError::DeserializeError(
                    "missing content-length and transfer-encoding".to_owned(),
                ),
            );
        }
        let content_type = match acc.content_type {
            Some(ct) => ct,
            None => HttpContentType::Bytes,
        };
        Ok(
            (
                HttpResponsePreamble {
                    client_http_version: version,
                    status_code: status,
                    reason,
                    keep_alive: acc.keep_alive,
                    content_length: acc.content_length,
                    content_type,
                    headers: acc.headers,
                },
                n,
            ),
        )
    }
}

/// A character the status-line grammar accepts in a reason phrase.
pub open spec fn is_reason_char(c: char) -> bool {
    c == '\t' || (' ' <= c && c < '\u{7f}')
}

/// A character the header-line grammar accepts in a name.
pub open spec fn is_name_char(c: char) -> bool {
    '\u{21}' <= c <= '\u{7e}' && c != ':'
}

/// A character the header-line grammar accepts in a value.
pub open spec fn is_value_char(c: char) -> bool {
    '\0' <= c <= '\u{7f}'
}

/// The UTF-8 bytes of an ASCII character sequence, character by character.
proof fn lemma_txt_ascii(s: Seq<char>)
    requires
        vstd::utf8::is_ascii_chars(s),
    ensures
        txt(s).len() == s.len(),
        forall|i: int| 0 <= i < s.len() ==> txt(s)[i] == s[i] as u8,
{
    vstd::utf8::is_ascii_chars_encode_utf8(s);
}

/// The three decimal digits of a three-digit number.
proof fn lemma_dec_rep_three_digits(n: u16)
    requires
        100 <= n <= 999,
    ensures
        crate::ascii::dec_rep(n as nat) =~= seq![
            ((n / 100 + 0x30) as u8),
            ((n / 10) % 10 + 0x30) as u8,
            ((n % 10 + 0x30) as u8),
        ],
{
    let nn = n as nat;
    assert(10 <= nn / 10 <= 99 && 1 <= nn / 100 <= 9 && nn / 10 / 10 == nn / 100)
        by (nonlinear_arith)
        requires
            100 <= nn <= 999,
    ;
    assert(crate::ascii::dec_rep(nn / 100) =~= seq![((n / 100 + 0x30) as u8)]);
    assert(crate::ascii::dec_rep(nn / 10) =~= crate::ascii::dec_rep(nn / 100).push(
        (((n / 10) % 10 + 0x30) as u8),
    ));
    assert(crate::ascii::dec_rep(nn) =~= crate::ascii::dec_rep(nn / 10).push(
        ((n % 10 + 0x30) as u8),
    ));
}

/// The status line the writer emits — `HTTP/1.1`, the status code, and the
/// reason phrase, up to the line break — re-reads under the status-line
/// grammar as exactly that code and reason, for any three-digit status code
/// and any reason made of tab or printable characters.
pub proof fn lemma_status_line_round_trip(code: u16, reason: Seq<char>)
    requires
        100 <= code <= 999,
        forall|i: int| 0 <= i < reason.len() ==> is_reason_char(#[trigger] reason[i]),
    ensures
        spec_status_line(
            txt("HTTP/1.1 "@) + txt(crate::ascii::dec_str(code as nat)) + txt(" "@) + txt(reason),
        ) == Some((HttpVersion::Http11, code, reason)),
{
    reveal_strlit("HTTP/1.1 ");
    reveal_strlit(" ");
    let h = "HTTP/1.1 "@;
    assert(vstd::utf8::is_ascii_chars(h)) by {
        assert forall|i: int| 0 <= i < h.len() implies '\0' <= #[trigger] h[i] <= '\u{7f}' by {}
    }
    lemma_txt_ascii(h);
    let digits = crate::ascii::dec_rep(code as nat);
    lemma_dec_rep_three_digits(code);
    let dchars = crate::ascii::dec_str(code as nat);
    assert(vstd::utf8::is_ascii_chars(dchars)) by {
        assert forall|i: int| 0 <= i < dchars.len() implies '\0' <= #[trigger] dchars[i] <= '\u{7f}' by {
            assert(dchars[i] == digits[i] as char);
        }
    }
    lemma_txt_ascii(dchars);
    assert(vstd::utf8::is_ascii_chars(" "@)) by {
        assert forall|i: int| 0 <= i < (" "@).len() implies '\0' <= #[trigger] (" "@)[i] <= '\u{7f}' by {}
    }
    lemma_txt_ascii(" "@);
    assert(vstd::utf8::is_ascii_chars(reason)) by {
        assert forall|i: int| 0 <= i < reason.len() implies '\0' <= #[trigger] reason[i] <= '\u{7f}' by {
            assert(is_reason_char(reason[i]));
        }
    }
    lemma_txt_ascii(reason);

    let b = txt(h) + txt(dchars) + txt(" "@) + txt(reason);
    assert(b.len() == 13 + reason.len());
    assert(b[0] == 72 && b[1] == 84 && b[2] == 84 && b[3] == 80 && b[4] == 47 && b[5] == 49
        && b[6] == 46 && b[7] == 49 && b[8] == 32);
    assert(b[9] == digits[0] && b[10] == digits[1] && b[11] == digits[2]);
    assert(is_digit_byte(b[9]) && is_digit_byte(b[10]) && is_digit_byte(b[11]));
    assert(digit_val(b[9]) * 100 + digit_val(b[10]) * 10 + digit_val(b[11]) == code) by {
        assert(code / 100 * 100 + (code / 10) % 10 * 10 + code % 10 == code) by (nonlinear_arith);
    }
    assert(b[12] == 32);
    assert(forall|k: int| 13 <= k < b.len() ==> b[k] == reason[k - 13] as u8);
    assert(forall|k: int| 13 <= k < b.len() ==> is_reason_byte(#[trigger] b[k]));
    assert(chars_of_ascii(b.subrange(13, b.len() as int)) =~= reason);
}

/// The colon the header-line grammar splits on is the first one, right after
/// the name.
proof fn lemma_find_byte_first(b: Seq<u8>, i: int, end: int, x: u8, j: int)
    requires
        0 <= i <= j < end <= b.len(),
        forall|k: int| i <= k < j ==> b[k] != x,
        b[j] == x,
    ensures
        spec_find_byte(b, i, end, x) == Some(j),
    decreases j - i,
{
    if i < j {
        lemma_find_byte_first(b, i + 1, end, x, j);
    }
}

/// A header line the writer emits — the name, a colon and a space, and the
/// value — re-reads under the header-line grammar as exactly that name
/// (lowercased) and value, for a non-empty name of token characters and a
/// value of ASCII characters that does not begin with a space or a tab.
pub proof fn lemma_header_line_round_trip(name: Seq<char>, value: Seq<char>)
    requires
        name.len() > 0,
        forall|i: int| 0 <= i < name.len() ==> is_name_char(#[trigger] name[i]),
        forall|i: int| 0 <= i < value.len() ==> is_value_char(#[trigger] value[i]),
        value.len() > 0 ==> value[0] != ' ' && value[0] != '\t',
    ensures
        spec_header_line(txt(name) + txt(": "@) + txt(value)) == Some(
            (crate::ascii::lower_seq(name), value),
        ),
{
    reveal_strlit(": ");
    assert(vstd::utf8::is_ascii_chars(name)) by {
        assert forall|i: int| 0 <= i < name.len() implies '\0' <= #[trigger] name[i] <= '\u{7f}' by {
            assert(is_name_char(name[i]));
        }
    }
    lemma_txt_ascii(name);
    assert(vstd::utf8::is_ascii_chars(": "@)) by {
        assert forall|i: int| 0 <= i < (": "@).len() implies '\0' <= #[trigger] (": "@)[i] <= '\u{7f}' by {}
    }
    lemma_txt_ascii(": "@);
    assert(vstd::utf8::is_ascii_chars(value)) by {
        assert forall|i: int| 0 <= i < value.len() implies '\0' <= #[trigger] value[i] <= '\u{7f}' by {
            assert(is_value_char(value[i]));
        }
    }
    lemma_txt_ascii(value);

    let b = txt(name) + txt(": "@) + txt(value);
    let ci = name.len() as int;
    assert(b.len() == name.len() + 2 + value.len());
    assert(b[ci] == 58);
    assert(forall|k: int| 0 <= k < ci ==> b[k] == name[k] as u8);
    assert(forall|k: int| 0 <= k < ci ==> b[k] != 58) by {
        assert(forall|k: int| 0 <= k < ci ==> is_name_char(#[trigger] name[k]));
    }
    lemma_find_byte_first(b, 0, b.len() as int, 58, ci);
    assert(forall|k: int| 0 <= k < ci ==> is_name_byte(#[trigger] b[k]));
    assert(b[ci + 1] == 32);
    // the skip stops right after the single space
    assert(spec_skip_ws(b, ci + 2, b.len() as int) == ci + 2) by {
        if value.len() > 0 {
            assert(b[ci + 2] == value[0] as u8);
            assert(b[ci + 2] != 32 && b[ci + 2] != 9);
        } else {
            assert(ci + 2 == b.len());
        }
    }
    assert(spec_skip_ws(b, ci + 1, b.len() as int) == ci + 2);
    assert(forall|k: int| ci + 2 <= k < b.len() ==> b[k] == value[k - ci - 2] as u8);
    assert(forall|k: int| ci + 2 <= k < b.len() ==> is_value_byte(#[trigger] b[k]));
    assert(chars_of_ascii(b.subrange(0, ci)) =~= name);
    assert(chars_of_ascii(b.subrange(ci + 2, b.len() as int)) =~= value);
}

} // verus!
