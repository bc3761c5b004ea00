//! The decoded response body: empty, JSON, raw bytes or text. JSON values
//! are carried through opaquely and serialized through `serde_json`; the
//! byte framing around a body — content length and chunked transfer
//! encoding — is the library's own verified logic.

use vstd::prelude::*;
use vstd::string::StrSliceExecFns;
use vstd::string::StringSliceAdditionalSpecFns;

use crate::http_types::CodecError;

verus! {

/// Declares `serde_json::Value` so it can stand in signatures and fields;
/// values of it are carried through opaquely.
#[verifier::external_type_specification]
#[verifier::external_body]
pub struct ExValue(serde_json::Value);

/// Declares `serde_json::Error` so the serializer wrapper can hand it back;
/// it is mapped to the library's own error right after.
#[verifier::external_type_specification]
#[verifier::external_body]
pub struct ExJsonError(serde_json::Error);

/// What `serde_json::to_vec` serializes a value to: a function of the value
/// alone, the same in every process and on every machine.
pub uninterp spec fn json_bytes_of(v: serde_json::Value) -> Seq<u8>;

/// Relies on `serde_json::to_vec`: the JSON text of the value, as bytes.
#[verifier::external_body]
fn json_to_vec(v: &serde_json::Value) -> (r: Result<Vec<u8>, serde_json::Error>)
    ensures
        r matches Ok(b) ==> b@ == json_bytes_of(*v),
{
    serde_json::to_vec(v)
}

/// Relies on `serde_json::Value::Null` being a plain value to hand out.
#[verifier::external_body]
fn json_null() -> serde_json::Value {
    serde_json::Value::Null
}

/// An HTTP response body as the receiver decodes it.
pub enum HttpResponsePayload {
    /// No body.
    Empty,
    /// A JSON document.
    JSON(serde_json::Value),
    /// Raw bytes.
    Bytes(Vec<u8>),
    /// UTF-8 text.
    Text(String),
}

impl HttpResponsePayload {
    /// The content length this body would be framed with: the exact count of
    /// the bytes [`Self::into_body_bytes`] would put on the wire, when that
    /// count fits the length field. For a JSON body the count is of the
    /// value's JSON text; whether serialization succeeds is `serde_json`'s
    /// to decide, so only the successful answer is pinned.
    pub fn try_content_length(&self) -> (r: Option<u32>)
        ensures
            match self {
                HttpResponsePayload::Empty => r == Some(0u32),
                HttpResponsePayload::Bytes(b) => r == (if b@.len() <= u32::MAX {
                    Some(b@.len() as u32)
                } else {
                    None::<u32>
                }),
                HttpResponsePayload::Text(t) => r == (if vstd::utf8::encode_utf8(t@).len()
                    <= u32::MAX {
                    Some(vstd::utf8::encode_utf8(t@).len() as u32)
                } else {
                    None::<u32>
                }),
                HttpResponsePayload::JSON(v) => (r matches Some(n) ==> n as nat == json_bytes_of(
                    *v,
                ).len()) && (json_bytes_of(*v).len() > u32::MAX ==> r is None),
            },
    {
        match self {
            HttpResponsePayload::Empty => Some(0),
            HttpResponsePayload::JSON(v) => {
                match json_to_vec(v) {
                    Err(_) => None,
                    Ok(b) => {
                        if b.len() as u64 <= u32::MAX as u64 {
                            Some(b.len() as u32)
                        } else {
                            None
                        }
                    },
                }
            },
            HttpResponsePayload::Bytes(b) => {
                if b.len() as u64 <= u32::MAX as u64 {
                    Some(b.len() as u32)
                } else {
                    None
                }
            },
            HttpResponsePayload::Text(t) => {
                let b = t.as_str().as_bytes_vec();
                if b.len() as u64 <= u32::MAX as u64 {
                    Some(b.len() as u32)
                } else {
                    None
                }
            },
        }
    }

    /// The raw bytes this body puts on the wire. A JSON body carries the
    /// value's JSON text; whether `serde_json` can serialize the value is its
    /// own to decide, so success is not promised there, but what comes back
    /// on success is. Every other kind is pinned byte for byte.
    pub fn into_body_bytes(self) -> (r: Result<Vec<u8>, CodecError>)
        ensures
            match self {
                HttpResponsePayload::Empty => r matches Ok(b) && b@ == Seq::<u8>::empty(),
                HttpResponsePayload::Bytes(bs) => r matches Ok(b) && b@ == bs@,
                HttpResponsePayload::Text(t) => r matches Ok(b) && b@ == vstd::utf8::encode_utf8(
                    t@,
                ),
                HttpResponsePayload::JSON(v) => (r matches Ok(b) ==> b@ == json_bytes_of(v)) && (
                r matches Err(e) ==> e is DecodeError),
            },
    {
        match self {
            HttpResponsePayload::Empty => Ok(Vec::new()),
            HttpResponsePayload::JSON(v) => {
                match json_to_vec(&v) {
                    Ok(b) => Ok(b),
                    Err(_) => Err(
                        CodecError::DecodeError("cannot serialize JSON body".to_owned()),
                    ),
                }
            },
            HttpResponsePayload::Bytes(bs) => Ok(bs),
            HttpResponsePayload::Text(t) => Ok(t.as_str().as_bytes_vec()),
        }
    }

    /// The inner bytes: an empty body reads as no bytes, anything but a byte
    /// body is refused.
    pub fn try_into_bytes(self) -> (r: Result<Vec<u8>, CodecError>)
        ensures
            match self {
                HttpResponsePayload::Empty => r matches Ok(b) && b@ == Seq::<u8>::empty(),
                HttpResponsePayload::Bytes(bs) => r matches Ok(b) && b@ == bs@,
                _ => r matches Err(e) && e is DecodeError,
            },
    {
        match self {
            HttpResponsePayload::Empty => Ok(Vec::new()),
            HttpResponsePayload::Bytes(bs) => Ok(bs),
            _ => Err(CodecError::DecodeError("body is not raw bytes".to_owned())),
        }
    }

    /// The inner text: an empty body reads as the empty string, anything but
    /// a text body is refused.
    pub fn try_into_text(self) -> (r: Result<String, CodecError>)
        ensures
            match self {
                HttpResponsePayload::Empty => r matches Ok(s) && s@ == Seq::<char>::empty(),
                HttpResponsePayload::Text(t) => r matches Ok(s) && s@ == t@,
                _ => r matches Err(e) && e is DecodeError,
            },
    {
        match self {
            HttpResponsePayload::Empty => {
                let s = "".to_owned();
                proof {
                    reveal_strlit("");
                }
                Ok(s)
            },
            HttpResponsePayload::Text(t) => Ok(t),
            _ => Err(CodecError::DecodeError("body is not text".to_owned())),
        }
    }

    /// The inner JSON document: an empty body reads as JSON null, anything
    /// but a JSON body is refused.
    pub fn try_into_json(self) -> (r: Result<serde_json::Value, CodecError>)
        ensures
            match self {
                HttpResponsePayload::Empty => r is Ok,
                HttpResponsePayload::JSON(v) => r == Ok::<serde_json::Value, CodecError>(v),
                _ => r matches Err(e) && e is DecodeError,
            },
    {
        match self {
            HttpResponsePayload::Empty => Ok(json_null()),
            HttpResponsePayload::JSON(v) => Ok(v),
            _ => Err(CodecError::DecodeError("body is not JSON".to_owned())),
        }
    }
}

/// A hexadecimal digit byte, lowercase.
pub open spec fn hex_digit(d: nat) -> u8 {
    if d < 10 {
        (0x30 + d) as u8
    } else {
        (87 + d) as u8
    }
}

/// The shortest lowercase hexadecimal rendering of `n`.
pub open spec fn hex_rep(n: nat) -> Seq<u8>
    decreases n,
{
    if n < 16 {
        seq![hex_digit(n)]
    } else {
        hex_rep(n / 16).push(hex_digit(n % 16))
    }
}

/// Render `n` in lowercase hexadecimal.
pub fn usize_to_hex_bytes(n: usize) -> (r: Vec<u8>)
    ensures
        r@ == hex_rep(n as nat),
    decreases n,
{
    if n < 16 {
        let d: u8 = if n < 10 {
            0x30 + (n as u8)
        } else {
            87 + (n as u8)
        };
        let mut r: Vec<u8> = Vec::new();
        r.push(d);
        assert(r@ =~= hex_rep(n as nat));
        r
    } else {
        let mut r = usize_to_hex_bytes(n / 16);
        let m = n % 16;
        let d: u8 = if m < 10 {
            0x30 + (m as u8)
        } else {
            87 + (m as u8)
        };
        r.push(d);
        assert(r@ =~= hex_rep(n as nat));
        r
    }
}

/// Chunked transfer encoding of a body: each chunk is its size in lowercase
/// hexadecimal, a line break, the chunk bytes and a line break; a zero-sized
/// chunk and an empty line close the stream. A zero `csize` puts the whole
/// body in one chunk.
pub open spec fn spec_chunked(data: Seq<u8>, csize: nat) -> Seq<u8>
    decreases data.len(),
{
    if data.len() == 0 {
        seq![0x30u8, 13u8, 10u8, 13u8, 10u8]
    } else {
        let t = if csize == 0 || csize > data.len() {
            data.len() as int
        } else {
            csize as int
        };
        hex_rep(t as nat) + seq![13u8, 10u8] + data.take(t) + seq![13u8, 10u8] + spec_chunked(
            data.skip(t),
            csize,
        )
    }
}

/// Encode a body with chunked transfer encoding.
pub fn encode_chunked(data: &[u8], chunk_size: usize) -> (r: Vec<u8>)
    ensures
        r@ == spec_chunked(data@, chunk_size as nat),
{
    let len = data.len();
    let mut out: Vec<u8> = Vec::new();
    let mut i: usize = 0;
    proof {
        assert(data@.skip(0) =~= data@);
        assert(out@ + spec_chunked(data@, chunk_size as nat) =~= spec_chunked(
            data@,
            chunk_size as nat,
        ));
    }
    while i < len
        invariant
            i <= len,
            len == data@.len(),
            spec_chunked(data@, chunk_size as nat) == out@ + spec_chunked(
                data@.skip(i as int),
                chunk_size as nat,
            ),
        decreases len - i,
    {
        let t: usize = if chunk_size == 0 || chunk_size > len - i {
            len - i
        } else {
            chunk_size
        };
        let ghost rest = data@.skip(i as int);
        let ghost before = out@;
        let size_bytes = usize_to_hex_bytes(t);
        out.extend_from_slice(size_bytes.as_slice());
        out.push(13);
        out.push(10);
        let mut k: usize = 0;
        while k < t
            invariant
                k <= t,
                i + t <= len,
                len == data@.len(),
                out@ == before + hex_rep(t as nat) + seq![13u8, 10u8] + data@.subrange(
                    i as int,
                    i + k,
                ),
            decreases t - k,
        {
            out.push(data[i + k]);
            proof {
                assert(out@ =~= before + hex_rep(t as nat) + seq![13u8, 10u8] + data@.subrange(
                    i as int,
                    i + k + 1,
                ));
            }
            k = k + 1;
        }
        out.push(13);
        out.push(10);
        proof {
            assert(rest.take(t as int) =~= data@.subrange(i as int, i + t));
            assert(rest.skip(t as int) =~= data@.skip(i + t));
            assert(out@ =~= before + (hex_rep(t as nat) + seq![13u8, 10u8] + rest.take(t as int)
                + seq![13u8, 10u8]));
            assert(spec_chunked(rest, chunk_size as nat) == hex_rep(t as nat) + seq![13u8, 10u8]
                + rest.take(t as int) + seq![13u8, 10u8] + spec_chunked(
                data@.skip(i + t),
                chunk_size as nat,
            ));
            assert(spec_chunked(data@, chunk_size as nat) =~= out@ + spec_chunked(
                data@.skip(i + t),
                chunk_size as nat,
            ));
        }
        i = i + t;
    }
    proof {
        assert(data@.skip(len as int) =~= Seq::<u8>::empty());
    }
    out.push(0x30);
    out.push(13);
    out.push(10);
    out.push(13);
    out.push(10);
    proof {
        assert(out@ =~= spec_chunked(data@, chunk_size as nat));
    }
    out
}

/// Frame one run of body bytes as a single non-final chunk: its size in
/// lowercase hexadecimal, a line break, the bytes, a line break.
pub fn frame_chunk(chunk: &[u8]) -> (r: Vec<u8>)
    ensures
        r@ == hex_rep(chunk@.len() as nat) + seq![13u8, 10u8] + chunk@ + seq![13u8, 10u8],
{
    let mut out = usize_to_hex_bytes(chunk.len());
    out.push(13);
    out.push(10);
    out.extend_from_slice(chunk);
    out.push(13);
    out.push(10);
    proof {
        assert(out@ =~= hex_rep(chunk@.len() as nat) + seq![13u8, 10u8] + chunk@ + seq![
            13u8,
            10u8,
        ]);
    }
    out
}

} // verus!
