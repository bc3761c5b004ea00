//! Serializing a response preamble to wire bytes: the status line, the
//! default headers the node always advertises, the reserved framing headers,
//! and the free-form header map, ended by an empty line.

use vstd::prelude::*;
use vstd::string::StringSliceAdditionalSpecFns;

use crate::ascii::{dec_str, push_str_bytes, u32_to_dec_string};
use crate::headers::HeaderEntry;
use crate::http_types::HttpVersion;
use crate::preamble::HttpResponsePreamble;

verus! {

/// The UTF-8 bytes of a character sequence.
pub open spec fn txt(s: Seq<char>) -> Seq<u8> {
    vstd::utf8::encode_utf8(s)
}

/// The wire form of one header line.
pub open spec fn header_line(e: HeaderEntry) -> Seq<u8> {
    txt(e.0) + txt(": "@) + txt(e.1) + txt("\r\n"@)
}

/// The wire form of a run of header lines, in order.
pub open spec fn headers_bytes(hs: Seq<HeaderEntry>) -> Seq<u8>
    decreases hs.len(),
{
    if hs.len() == 0 {
        Seq::empty()
    } else {
        headers_bytes(hs.drop_last()) + header_line(hs.last())
    }
}

/// The status line: the node always answers as HTTP/1.1.
pub open spec fn status_line_bytes(p: HttpResponsePreamble) -> Seq<u8> {
    txt("HTTP/1.1 "@) + txt(dec_str(p.status_code as nat)) + txt(" "@) + txt(p.reason@) + txt(
        "\r\n"@,
    )
}

/// The default `Server` line, when the header map does not bind `server`.
pub open spec fn server_hdr_bytes(p: HttpResponsePreamble) -> Seq<u8> {
    if p.headers.spec_contains("server"@) {
        Seq::<u8>::empty()
    } else {
        txt("Server: stacks/2.0\r\n"@)
    }
}

/// The default `Date` line, when the header map does not bind `date`.
pub open spec fn date_hdr_bytes(p: HttpResponsePreamble, date: Seq<char>) -> Seq<u8> {
    if p.headers.spec_contains("date"@) {
        Seq::<u8>::empty()
    } else {
        txt("Date: "@) + txt(date) + txt("\r\n"@)
    }
}

/// The default CORS allow-origin line, unless overridden.
pub open spec fn allow_origin_hdr_bytes(p: HttpResponsePreamble) -> Seq<u8> {
    if p.headers.spec_contains("access-control-allow-origin"@) {
        Seq::<u8>::empty()
    } else {
        txt("Access-Control-Allow-Origin: *\r\n"@)
    }
}

/// The default CORS allow-headers line, unless overridden.
pub open spec fn allow_headers_hdr_bytes(p: HttpResponsePreamble) -> Seq<u8> {
    if p.headers.spec_contains("access-control-allow-headers"@) {
        Seq::<u8>::empty()
    } else {
        txt("Access-Control-Allow-Headers: origin, content-type\r\n"@)
    }
}

/// The default CORS allow-methods line, unless overridden.
pub open spec fn allow_methods_hdr_bytes(p: HttpResponsePreamble) -> Seq<u8> {
    if p.headers.spec_contains("access-control-allow-methods"@) {
        Seq::<u8>::empty()
    } else {
        txt("Access-Control-Allow-Methods: POST, GET, OPTIONS\r\n"@)
    }
}

/// All default headers together.
pub open spec fn default_headers_bytes(p: HttpResponsePreamble, date: Seq<char>) -> Seq<u8> {
    server_hdr_bytes(p) + date_hdr_bytes(p, date) + allow_origin_hdr_bytes(p)
        + allow_headers_hdr_bytes(p) + allow_methods_hdr_bytes(p)
}

/// The reserved framing headers: content type, then either an explicit
/// length or chunked transfer encoding.
pub open spec fn framing_bytes(p: HttpResponsePreamble) -> Seq<u8> {
    txt("Content-Type: "@) + txt(p.content_type.spec_mime()) + txt("\r\n"@) + (
    match p.content_length {
        Some(len) => txt("Content-Length: "@) + txt(dec_str(len as nat)) + txt("\r\n"@),
        None => txt("Transfer-Encoding: chunked\r\n"@),
    })
}

/// The connection header: an HTTP/1.0 client is told either way; an HTTP/1.1
/// client is told only when the connection will close.
pub open spec fn connection_bytes(p: HttpResponsePreamble) -> Seq<u8> {
    match p.client_http_version {
        HttpVersion::Http10 => if p.keep_alive {
            txt("Connection: keep-alive\r\n"@)
        } else {
            txt("Connection: close\r\n"@)
        },
        HttpVersion::Http11 => if p.keep_alive {
            Seq::<u8>::empty()
        } else {
            txt("Connection: close\r\n"@)
        },
    }
}

/// The whole encoded preamble, with `date` as the `Date` header text (it is
/// ignored when the header map carries its own `date`).
pub open spec fn spec_encode(p: HttpResponsePreamble, date: Seq<char>) -> Seq<u8> {
    status_line_bytes(p) + default_headers_bytes(p, date) + framing_bytes(p) + connection_bytes(p)
        + headers_bytes(p.headers.entries_view()) + txt("\r\n"@)
}

impl HttpResponsePreamble {
    /// Append the status line.
    fn write_status_line(&self, out: &mut Vec<u8>)
        ensures
            final(out)@ == old(out)@ + status_line_bytes(*self),
    {
        push_str_bytes(out, "HTTP/1.1 ");
        let status = u32_to_dec_string(self.status_code as u32);
        push_str_bytes(out, status.as_str());
        push_str_bytes(out, " ");
        push_str_bytes(out, self.reason.as_str());
        push_str_bytes(out, "\r\n");
        assert(out@ =~= old(out)@ + status_line_bytes(*self));
    }

    /// Append the default headers the header map does not override. The
    /// `Date` line carries the given date text.
    #[verifier::rlimit(100)]
    fn write_default_headers(&self, out: &mut Vec<u8>, date: &str)
        requires
            self.wf(),
        ensures
            final(out)@ == old(out)@ + default_headers_bytes(*self, date@),
    {
        if !self.headers.contains_key(&"server".to_owned()) {
            push_str_bytes(out, "Server: stacks/2.0\r\n");
        }
        assert(out@ =~= old(out)@ + server_hdr_bytes(*self));
        let ghost m1 = out@;
        if !self.headers.contains_key(&"date".to_owned()) {
            push_str_bytes(out, "Date: ");
            push_str_bytes(out, date);
            push_str_bytes(out, "\r\n");
        }
        assert(out@ =~= m1 + date_hdr_bytes(*self, date@));
        let ghost m2 = out@;
        if !self.headers.contains_key(&"access-control-allow-origin".to_owned()) {
            push_str_bytes(out, "Access-Control-Allow-Origin: *\r\n");
        }
        assert(out@ =~= m2 + allow_origin_hdr_bytes(*self));
        let ghost m3 = out@;
        if !self.headers.contains_key(&"access-control-allow-headers".to_owned()) {
            push_str_bytes(out, "Access-Control-Allow-Headers: origin, content-type\r\n");
        }
        assert(out@ =~= m3 + allow_headers_hdr_bytes(*self));
        let ghost m4 = out@;
        if !self.headers.contains_key(&"access-control-allow-methods".to_owned()) {
            push_str_bytes(out, "Access-Control-Allow-Methods: POST, GET, OPTIONS\r\n");
        }
        assert(out@ =~= m4 + allow_methods_hdr_bytes(*self));
        assert(out@ =~= old(out)@ + default_headers_bytes(*self, date@));
    }

    /// Append the content-type line and the body-framing line.
    fn write_framing(&self, out: &mut Vec<u8>)
        ensures
            final(out)@ == old(out)@ + framing_bytes(*self),
    {
        push_str_bytes(out, "Content-Type: ");
        push_str_bytes(out, self.content_type.mime_str());
        push_str_bytes(out, "\r\n");
        match self.content_length {
            Some(len) => {
                push_str_bytes(out, "Content-Length: ");
                let ls = u32_to_dec_string(len);
                push_str_bytes(out, ls.as_str());
                push_str_bytes(out, "\r\n");
            },
            None => {
                push_str_bytes(out, "Transfer-Encoding: chunked\r\n");
            },
        }
        assert(out@ =~= old(out)@ + framing_bytes(*self));
    }

    /// Append the connection header, when one is owed.
    fn write_connection(&self, out: &mut Vec<u8>)
        ensures
            final(out)@ == old(out)@ + connection_bytes(*self),
    {
        match self.client_http_version {
            HttpVersion::Http10 => {
                if self.keep_alive {
                    push_str_bytes(out, "Connection: keep-alive\r\n");
                } else {
                    push_str_bytes(out, "Connection: close\r\n");
                }
            },
            HttpVersion::Http11 => {
                if !self.keep_alive {
                    push_str_bytes(out, "Connection: close\r\n");
                }
            },
        }
        assert(out@ =~= old(out)@ + connection_bytes(*self));
    }

    /// Append every line of the free-form header map, in order.
    fn write_header_map(&self, out: &mut Vec<u8>)
        requires
            self.wf(),
        ensures
            final(out)@ == old(out)@ + headers_bytes(self.headers.entries_view()),
    {
        let ghost mid = out@;
        let n = self.headers.len();
        let mut i: usize = 0;
        while i < n
            invariant
                self.wf(),
                n == self.headers.entries_view().len(),
                i <= n,
                out@ == mid + headers_bytes(self.headers.entries_view().take(i as int)),
            decreases n - i,
        {
            let name = self.headers.name_at(i);
            push_str_bytes(out, name.as_str());
            push_str_bytes(out, ": ");
            let value = self.headers.value_at(i);
            push_str_bytes(out, value.as_str());
            push_str_bytes(out, "\r\n");
            proof {
                let hs = self.headers.entries_view();
                assert(hs.take(i as int + 1).drop_last() =~= hs.take(i as int));
                assert(hs.take(i as int + 1).last() == hs[i as int]);
                assert(out@ =~= mid + headers_bytes(hs.take(i as int + 1)));
            }
            i = i + 1;
        }
        proof {
            assert(self.headers.entries_view().take(n as int) =~= self.headers.entries_view());
        }
    }

    /// Encode this preamble for the wire, using `date` for the `Date` header
    /// when the header map does not carry one.
    pub fn write_preamble_bytes(&self, date: &str) -> (r: Vec<u8>)
        requires
            self.wf(),
        ensures
            r@ == spec_encode(*self, date@),
    {
        let mut out: Vec<u8> = Vec::new();
        self.write_status_line(&mut out);
        self.write_default_headers(&mut out, date);
        self.write_framing(&mut out);
        self.write_connection(&mut out);
        self.write_header_map(&mut out);
        push_str_bytes(&mut out, "\r\n");
        assert(out@ =~= spec_encode(*self, date@));
        out
    }

    /// Encode this preamble for the wire, reading the clock for the `Date`
    /// header. When the header map carries its own `date`, the encoding does
    /// not depend on the clock at all.
    pub fn consensus_serialize(&self) -> (r: Vec<u8>)
        requires
            self.wf(),
        ensures
            exists|p: crate::date::DateParts|
                crate::date::date_parts_wf(p) && r@ == spec_encode(
                    *self,
                    crate::date::spec_date_text(p),
                ),
            self.headers.spec_contains("date"@) ==> r@ == spec_encode(*self, Seq::<char>::empty()),
    {
        let date = crate::date::date_text_now();
        let r = self.write_preamble_bytes(date.as_str());
        proof {
            let ghost w = date@;
            assert(r@ == spec_encode(*self, w));
            let p = choose|p: crate::date::DateParts|
                crate::date::date_parts_wf(p) && w == crate::date::spec_date_text(p);
            assert(crate::date::date_parts_wf(p) && r@ == spec_encode(
                *self,
                crate::date::spec_date_text(p),
            ));
            if self.headers.spec_contains("date"@) {
                assert(date_hdr_bytes(*self, w) == date_hdr_bytes(*self, Seq::<char>::empty()));
                assert(r@ == spec_encode(*self, Seq::<char>::empty()));
            }
        }
        r
    }
}

} // verus!
