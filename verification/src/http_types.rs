//! Basic HTTP vocabulary for response preambles: protocol versions, the
//! content types the node emits, status-code reason phrases, and the errors
//! the codec can report.

use vstd::prelude::*;

verus! {

/// Largest encoded preamble the codec will read or write.
pub const HTTP_PREAMBLE_MAX_ENCODED_SIZE: u32 = 4096;

/// Largest number of headers tolerated in a preamble.
pub const HTTP_PREAMBLE_MAX_NUM_HEADERS: usize = 32;

/// HTTP protocol version spoken by the client.
#[derive(Clone, Copy, Debug, PartialEq, Eq, Structural)]
pub enum HttpVersion {
    Http10,
    Http11,
}

/// MIME type of a response body.
#[derive(Clone, Copy, Debug, PartialEq, Eq, Structural)]
pub enum HttpContentType {
    Bytes,
    Text,
    JSON,
}

impl HttpContentType {
    /// The canonical MIME string for this content type.
    pub open spec fn spec_mime(self) -> Seq<char> {
        match self {
            HttpContentType::Bytes => "application/octet-stream"@,
            HttpContentType::Text => "text/plain"@,
            HttpContentType::JSON => "application/json"@,
        }
    }

    /// Render the canonical MIME string.
    pub fn mime_str(self) -> (r: &'static str)
        ensures
            r@ == self.spec_mime(),
            r.is_ascii(),
    {
        proof {
            reveal_strlit("application/octet-stream");
            reveal_strlit("text/plain");
            reveal_strlit("application/json");
        }
        match self {
            HttpContentType::Bytes => "application/octet-stream",
            HttpContentType::Text => "text/plain",
            HttpContentType::JSON => "application/json",
        }
    }
}

/// Errors raised while encoding or decoding a response preamble or body.
#[derive(Clone, Debug, PartialEq, Eq)]
pub enum CodecError {
    /// The bytes do not form a well-formed preamble.
    DeserializeError(String),
    /// More bytes are needed before a preamble can be formed.
    UnderflowError(String),
    /// A decoded payload was not of the expected kind.
    DecodeError(String),
}

/// The standard reason phrase for a status code, as a spec-level sequence.
pub open spec fn spec_http_reason(code: u16) -> Seq<char> {
    if code == 200 {
        "OK"@
    } else if code == 202 {
        "Accepted"@
    } else if code == 400 {
        "Bad Request"@
    } else if code == 401 {
        "Unauthorized"@
    } else if code == 402 {
        "Payment Required"@
    } else if code == 403 {
        "Forbidden"@
    } else if code == 404 {
        "Not Found"@
    } else if code == 408 {
        "Request Timeout"@
    } else if code == 500 {
        "Internal Server Error"@
    } else if code == 503 {
        "Service Unavailable"@
    } else {
        "Error"@
    }
}

/// The standard reason phrase for a status code.
pub fn http_reason(code: u16) -> (r: &'static str)
    ensures
        r@ == spec_http_reason(code),
        r.is_ascii(),
{
    proof {
        reveal_strlit("OK");
        reveal_strlit("Accepted");
        reveal_strlit("Bad Request");
        reveal_strlit("Unauthorized");
        reveal_strlit("Payment Required");
        reveal_strlit("Forbidden");
        reveal_strlit("Not Found");
        reveal_strlit("Request Timeout");
        reveal_strlit("Internal Server Error");
        reveal_strlit("Service Unavailable");
        reveal_strlit("Error");
    }
    if code == 200 {
        "OK"
    } else if code == 202 {
        "Accepted"
    } else if code == 400 {
        "Bad Request"
    } else if code == 401 {
        "Unauthorized"
    } else if code == 402 {
        "Payment Required"
    } else if code == 403 {
        "Forbidden"
    } else if code == 404 {
        "Not Found"
    } else if code == 408 {
        "Request Timeout"
    } else if code == 500 {
        "Internal Server Error"
    } else if code == 503 {
        "Service Unavailable"
    } else {
        "Error"
    }
}

} // verus!
