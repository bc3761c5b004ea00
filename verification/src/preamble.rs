//! The HTTP response preamble: status line fields plus the headers the node
//! guarantees sensible values for. Reserved headers (`content-length`,
//! `content-type`, `host`) are captured in dedicated fields and never stored
//! in the free-form header map.

use vstd::prelude::*;
use vstd::string::StringSliceAdditionalSpecFns;

use crate::ascii::{lower_seq, spec_parse_u32, dec_str, to_ascii_lowercase, parse_u32_str, str_eq,
    u32_to_dec_string};
use crate::headers::Headers;
use crate::http_types::{HttpContentType, HttpVersion, http_reason, spec_http_reason};

verus! {

/// The request-side fields a response preamble is derived from.
#[derive(Debug, Clone, PartialEq)]
pub struct HttpRequestPreamble {
    /// HTTP version the client spoke.
    pub version: HttpVersion,
    /// Whether the client asked to keep the connection alive.
    pub keep_alive: bool,
}

/// HTTP response preamble. This captures all HTTP header information, but in
/// a way that fields the node relies on are guaranteed to have sensible
/// values.
#[derive(Debug, Clone, PartialEq)]
pub struct HttpResponsePreamble {
    /// HTTP version that was requested.
    pub client_http_version: HttpVersion,
    /// HTTP status code.
    pub status_code: u16,
    /// HTTP status code reason.
    pub reason: String,
    /// True if the connection outlives this response.
    pub keep_alive: bool,
    /// Content-Length value, if given. When it is absent the payload is
    /// chunk-encoded.
    pub content_length: Option<u32>,
    /// Content-Type value.
    pub content_type: HttpContentType,
    /// Other headers that no dedicated field captures.
    pub headers: Headers,
}

/// True for a header name one of the dedicated fields captures.
pub open spec fn is_reserved_name(k: Seq<char>) -> bool {
    k == "content-length"@ || k == "content-type"@ || k == "host"@
}

/// Exec mirror of [`is_reserved_name`], over an already-lowercased name.
pub fn reserved_name(k: &str) -> (r: bool)
    ensures
        r == is_reserved_name(k@),
{
    str_eq(k, "content-length") || str_eq(k, "content-type") || str_eq(k, "host")
}

/// The fields a fed header pair may change: the two reserved framing fields
/// and the free-form bindings, keyed by lowercased name.
pub struct HeaderFoldState {
    /// The content length so far.
    pub content_length: Option<u32>,
    /// The content type so far.
    pub content_type: HttpContentType,
    /// The free-form bindings so far.
    pub bindings: Map<Seq<char>, Seq<char>>,
}

/// What feeding one key/value pair through `add_header` does to the state:
/// a parsable reserved value replaces its field, an unparsable one and a
/// `host` are dropped, and any other pair binds the lowercased name.
pub open spec fn spec_add_header(st: HeaderFoldState, key: Seq<char>, value: Seq<char>) -> HeaderFoldState {
    let k = lower_seq(key);
    if k == "content-length"@ {
        match spec_parse_u32(value) {
            Some(v) => HeaderFoldState { content_length: Some(v), ..st },
            None => st,
        }
    } else if k == "content-type"@ {
        match spec_content_type(value) {
            Some(ct) => HeaderFoldState { content_type: ct, ..st },
            None => st,
        }
    } else if k == "host"@ {
        st
    } else {
        HeaderFoldState { bindings: st.bindings.insert(k, value), ..st }
    }
}

/// Feeding a run of key/value pairs through `add_header`, first to last.
pub open spec fn spec_fold_headers(
    st: HeaderFoldState,
    keys: Seq<Seq<char>>,
    values: Seq<Seq<char>>,
) -> HeaderFoldState
    decreases keys.len(),
{
    if keys.len() == 0 || values.len() == 0 {
        st
    } else {
        spec_fold_headers(
            spec_add_header(st, keys[0], values[0]),
            keys.drop_first(),
            values.drop_first(),
        )
    }
}

/// Folding one more pair at the end is one more fold step.
pub proof fn lemma_fold_headers_snoc(
    st: HeaderFoldState,
    keys: Seq<Seq<char>>,
    values: Seq<Seq<char>>,
    k: Seq<char>,
    v: Seq<char>,
)
    requires
        keys.len() == values.len(),
    ensures
        spec_fold_headers(st, keys.push(k), values.push(v)) == spec_add_header(
            spec_fold_headers(st, keys, values),
            k,
            v,
        ),
    decreases keys.len(),
{
    if keys.len() == 0 {
        assert(keys.push(k).drop_first() =~= Seq::<Seq<char>>::empty());
        assert(values.push(v).drop_first() =~= Seq::<Seq<char>>::empty());
        assert(keys.push(k)[0] == k && values.push(v)[0] == v);
        assert(spec_fold_headers(
            spec_add_header(st, k, v),
            Seq::<Seq<char>>::empty(),
            Seq::<Seq<char>>::empty(),
        ) == spec_add_header(st, k, v));
    } else {
        assert(keys.push(k).drop_first() =~= keys.drop_first().push(k));
        assert(values.push(v).drop_first() =~= values.drop_first().push(v));
        assert(keys.push(k)[0] == keys[0] && values.push(v)[0] == values[0]);
        lemma_fold_headers_snoc(
            spec_add_header(st, keys[0], values[0]),
            keys.drop_first(),
            values.drop_first(),
            k,
            v,
        );
    }
}

/// The preamble's header-derived fields agree with a fold state.
pub open spec fn matches_fold_state(p: HttpResponsePreamble, st: HeaderFoldState) -> bool {
    &&& p.content_length == st.content_length
    &&& p.content_type == st.content_type
    &&& forall|k: Seq<char>|
        p.headers.spec_get(k) == (if st.bindings.dom().contains(k) {
            Some(st.bindings[k])
        } else {
            None::<Seq<char>>
        })
}

impl HttpResponsePreamble {
    /// The header map has well-formed (duplicate-free) contents.
    pub open spec fn wf(self) -> bool {
        self.headers.wf()
    }

    /// All fields other than the header map agree with `other`'s.
    pub open spec fn same_scalars(self, other: HttpResponsePreamble) -> bool {
        &&& self.client_http_version == other.client_http_version
        &&& self.status_code == other.status_code
        &&& self.reason@ == other.reason@
        &&& self.keep_alive == other.keep_alive
        &&& self.content_length == other.content_length
        &&& self.content_type == other.content_type
    }

    /// The header maps of `self` and `other` hold the same bindings.
    pub open spec fn same_headers(self, other: HttpResponsePreamble) -> bool {
        self.headers.entries_view() == other.headers.entries_view()
    }

    /// Build a preamble with the given status line and reserved fields and
    /// no other headers.
    pub fn new(
        client_http_version: HttpVersion,
        status_code: u16,
        reason: String,
        content_length_opt: Option<u32>,
        content_type: HttpContentType,
        keep_alive: bool,
    ) -> (r: HttpResponsePreamble)
        ensures
            r.client_http_version == client_http_version,
            r.status_code == status_code,
            r.reason@ == reason@,
            r.keep_alive == keep_alive,
            r.content_length == content_length_opt,
            r.content_type == content_type,
            r.headers.entries_view().len() == 0,
            r.wf(),
    {
        HttpResponsePreamble {
            client_http_version,
            status_code,
            reason,
            keep_alive,
            content_length: content_length_opt,
            content_type,
            headers: Headers::new(),
        }
    }

    /// Respond to `preamble` with the given status, reason and body framing.
    pub fn from_http_request_preamble(
        preamble: &HttpRequestPreamble,
        status: u16,
        reason: &str,
        content_len_opt: Option<u32>,
        content_type: HttpContentType,
    ) -> (r: HttpResponsePreamble)
        ensures
            r.client_http_version == preamble.version,
            r.status_code == status,
            r.reason@ == reason@,
            r.keep_alive == preamble.keep_alive,
            r.content_length == content_len_opt,
            r.content_type == content_type,
            r.headers.entries_view().len() == 0,
            r.wf(),
    {
        HttpResponsePreamble::new(
            preamble.version,
            status,
            reason.to_owned(),
            content_len_opt,
            content_type,
            preamble.keep_alive,
        )
    }

    /// A chunked JSON success response with the standard reason phrase for
    /// `status_code`.
    pub fn success_2xx_json(preamble: &HttpRequestPreamble, status_code: u16) -> (r:
        HttpResponsePreamble)
        ensures
            r.client_http_version == preamble.version,
            r.status_code == status_code,
            r.reason@ == spec_http_reason(status_code),
            r.keep_alive == preamble.keep_alive,
            r.content_length is None,
            r.content_type == HttpContentType::JSON,
            r.headers.entries_view().len() == 0,
            r.wf(),
    {
        HttpResponsePreamble::new(
            preamble.version,
            status_code,
            http_reason(status_code).to_owned(),
            None,
            HttpContentType::JSON,
            preamble.keep_alive,
        )
    }

    /// A `200 OK` chunked JSON response.
    pub fn ok_json(preamble: &HttpRequestPreamble) -> (r: HttpResponsePreamble)
        ensures
            r.client_http_version == preamble.version,
            r.status_code == 200,
            r.reason@ == spec_http_reason(200),
            r.keep_alive == preamble.keep_alive,
            r.content_length is None,
            r.content_type == HttpContentType::JSON,
            r.headers.entries_view().len() == 0,
            r.wf(),
    {
        Self::success_2xx_json(preamble, 200)
    }

    /// A `202 Accepted` chunked JSON response.
    pub fn accepted_json(preamble: &HttpRequestPreamble) -> (r: HttpResponsePreamble)
        ensures
            r.client_http_version == preamble.version,
            r.status_code == 202,
            r.reason@ == spec_http_reason(202),
            r.keep_alive == preamble.keep_alive,
            r.content_length is None,
            r.content_type == HttpContentType::JSON,
            r.headers.entries_view().len() == 0,
            r.wf(),
    {
        Self::success_2xx_json(preamble, 202)
    }

    /// A `200 OK` chunked JSON response built without a request preamble.
    pub fn raw_ok_json(version: HttpVersion, keep_alive: bool) -> (r: HttpResponsePreamble)
        ensures
            r.client_http_version == version,
            r.status_code == 200,
            r.reason@ == "OK"@,
            r.keep_alive == keep_alive,
            r.content_length is None,
            r.content_type == HttpContentType::JSON,
            r.headers.entries_view().len() == 0,
            r.wf(),
    {
        HttpResponsePreamble::new(
            version,
            200,
            "OK".to_owned(),
            None,
            HttpContentType::JSON,
            keep_alive,
        )
    }

    /// An error response whose body is raw bytes, on a connection that will
    /// close.
    pub fn error_bytes(code: u16, reason: &str) -> (r: HttpResponsePreamble)
        ensures
            r.client_http_version == HttpVersion::Http11,
            r.status_code == code,
            r.reason@ == reason@,
            r.keep_alive == false,
            r.content_length is None,
            r.content_type == HttpContentType::Bytes,
            r.headers.entries_view().len() == 0,
            r.wf(),
    {
        HttpResponsePreamble::new(
            HttpVersion::Http11,
            code,
            reason.to_owned(),
            None,
            HttpContentType::Bytes,
            false,
        )
    }

    /// An error response whose body is JSON, on a connection that will
    /// close.
    pub fn error_json(code: u16, reason: &str) -> (r: HttpResponsePreamble)
        ensures
            r.client_http_version == HttpVersion::Http11,
            r.status_code == code,
            r.reason@ == reason@,
            r.keep_alive == false,
            r.content_length is None,
            r.content_type == HttpContentType::JSON,
            r.headers.entries_view().len() == 0,
            r.wf(),
    {
        HttpResponsePreamble::new(
            HttpVersion::Http11,
            code,
            reason.to_owned(),
            None,
            HttpContentType::JSON,
            false,
        )
    }

    /// An error response that carries `message` as a plain-text body of known
    /// length, on a connection that will close. The advertised length counts
    /// the message's UTF-8 bytes — exactly what goes on the wire.
    pub fn error_text(code: u16, reason: &str, message: &str) -> (r: HttpResponsePreamble)
        requires
            message.spec_bytes().len() <= u32::MAX,
        ensures
            r.client_http_version == HttpVersion::Http11,
            r.status_code == code,
            r.reason@ == reason@,
            r.keep_alive == false,
            r.content_length matches Some(l) && l as nat == message.spec_bytes().len(),
            r.content_type == HttpContentType::Text,
            r.headers.entries_view().len() == 0,
            r.wf(),
    {
        HttpResponsePreamble::new(
            HttpVersion::Http11,
            code,
            reason.to_owned(),
            Some(message.len() as u32),
            HttpContentType::Text,
            false,
        )
    }

    /// Build a preamble for HTTP/1.1 and feed each of the given header
    /// key/value pairs through [`Self::add_header`] in order: the result's
    /// reserved fields and header bindings are exactly the fold of the pairs
    /// over the given starting length and type.
    pub fn from_headers(
        status_code: u16,
        reason: String,
        keep_alive: bool,
        content_length: Option<u32>,
        content_type: HttpContentType,
        keys: Vec<String>,
        values: Vec<String>,
    ) -> (r: HttpResponsePreamble)
        requires
            keys@.len() == values@.len(),
        ensures
            r.client_http_version == HttpVersion::Http11,
            r.status_code == status_code,
            r.reason@ == reason@,
            r.keep_alive == keep_alive,
            r.wf(),
            matches_fold_state(
                r,
                spec_fold_headers(
                    HeaderFoldState { content_length, content_type, bindings: Map::empty() },
                    keys@.map_values(|k: String| k@),
                    values@.map_values(|v: String| v@),
                ),
            ),
    {
        let ghost reason_view = reason@;
        let ghost kviews = keys@.map_values(|k: String| k@);
        let ghost vviews = values@.map_values(|v: String| v@);
        let ghost st0 = HeaderFoldState { content_length, content_type, bindings: Map::empty() };
        let mut res = HttpResponsePreamble::new(
            HttpVersion::Http11,
            status_code,
            reason,
            content_length,
            content_type,
            keep_alive,
        );
        proof {
            assert(kviews.take(0) =~= Seq::<Seq<char>>::empty());
            assert(matches_fold_state(res, st0));
        }
        let n = keys.len();
        let mut i: usize = 0;
        while i < n
            invariant
                n == keys@.len(),
                n == values@.len(),
                kviews == keys@.map_values(|k: String| k@),
                vviews == values@.map_values(|v: String| v@),
                st0 == (HeaderFoldState { content_length, content_type, bindings: Map::empty() }),
                i <= n,
                res.wf(),
                res.client_http_version == HttpVersion::Http11,
                res.status_code == status_code,
                res.reason@ == reason_view,
                res.keep_alive == keep_alive,
                matches_fold_state(
                    res,
                    spec_fold_headers(st0, kviews.take(i as int), vviews.take(i as int)),
                ),
            decreases n - i,
        {
            let ghost pre = res;
            let ghost mid = spec_fold_headers(st0, kviews.take(i as int), vviews.take(i as int));
            res.add_header(keys[i].clone(), values[i].clone());
            proof {
                let k = kviews[i as int];
                let v = vviews[i as int];
                assert(k == keys@[i as int]@ && v == values@[i as int]@);
                let stepped = spec_add_header(mid, k, v);
                let reserved = lower_seq(k) == "content-length"@ || lower_seq(k)
                    == "content-type"@ || lower_seq(k) == "host"@;
                assert forall|q: Seq<char>| true implies res.headers.spec_get(q) == (
                if stepped.bindings.dom().contains(q) {
                    Some(stepped.bindings[q])
                } else {
                    None::<Seq<char>>
                }) by {
                    if reserved {
                        assert(res.headers.entries_view() == pre.headers.entries_view());
                        assert(res.headers.spec_get(q) == pre.headers.spec_get(q));
                        assert(stepped.bindings == mid.bindings);
                    } else if q != lower_seq(k) {
                        assert(res.headers.spec_get(q) == pre.headers.spec_get(q));
                    } else {
                        assert(res.headers.spec_get(q) == Some(v));
                    }
                }
                assert(res.content_length == stepped.content_length);
                assert(res.content_type == stepped.content_type);
                assert(matches_fold_state(res, stepped));
                assert(kviews.take(i as int + 1) =~= kviews.take(i as int).push(k));
                assert(vviews.take(i as int + 1) =~= vviews.take(i as int).push(v));
                lemma_fold_headers_snoc(st0, kviews.take(i as int), vviews.take(i as int), k, v);
            }
            i = i + 1;
        }
        proof {
            assert(kviews.take(n as int) =~= kviews);
            assert(vviews.take(n as int) =~= vviews);
        }
        res
    }

    /// Add a header. The name is ASCII-lowercased first. Reserved names set
    /// the dedicated field instead of the map: a parsable `content-length`
    /// or `content-type` value replaces that field, an unparsable one is
    /// dropped, and `host` is always dropped.
    pub fn add_header(&mut self, key: String, value: String)
        requires
            old(self).wf(),
        ensures
            final(self).wf(),
            final(self).client_http_version == old(self).client_http_version,
            final(self).status_code == old(self).status_code,
            final(self).reason@ == old(self).reason@,
            final(self).keep_alive == old(self).keep_alive,
            (if lower_seq(key@) == "content-length"@ {
                &&& final(self).content_type == old(self).content_type
                &&& final(self).same_headers(*old(self))
                &&& match spec_parse_u32(value@) {
                    Some(v) => final(self).content_length == Some(v),
                    None => final(self).content_length == old(self).content_length,
                }
            } else if lower_seq(key@) == "content-type"@ {
                &&& final(self).content_length == old(self).content_length
                &&& final(self).same_headers(*old(self))
                &&& match spec_content_type(value@) {
                    Some(ct) => final(self).content_type == ct,
                    None => final(self).content_type == old(self).content_type,
                }
            } else if lower_seq(key@) == "host"@ {
                final(self).same_scalars(*old(self)) && final(self).same_headers(*old(self))
            } else {
                &&& final(self).content_length == old(self).content_length
                &&& final(self).content_type == old(self).content_type
                &&& final(self).headers.spec_get(lower_seq(key@)) == Some(value@)
                &&& forall|other: Seq<char>|
                    other != lower_seq(key@) ==> final(self).headers.spec_get(other) == old(
                        self,
                    ).headers.spec_get(other)
            }),
    {
        let hdr = to_ascii_lowercase(key.as_str());
        if reserved_name(hdr.as_str()) {
            if str_eq(hdr.as_str(), "content-length") {
                match parse_u32_str(value.as_str()) {
                    Some(cl) => {
                        self.content_length = Some(cl);
                    },
                    None => {},
                }
            } else if str_eq(hdr.as_str(), "content-type") {
                match parse_content_type(value.as_str()) {
                    Some(ct) => {
                        self.content_type = ct;
                    },
                    None => {},
                }
            } else {
                // host: ignored
            }
            return ;
        }
        self.headers.insert(hdr, value);
    }

    /// Remove a header by name. Reserved names cannot be removed and report
    /// `false`; any other name reports `true`, and its binding under the
    /// exact (not lowercased) key is dropped.
    pub fn remove_header(&mut self, key: String) -> (r: bool)
        requires
            old(self).wf(),
        ensures
            final(self).wf(),
            final(self).same_scalars(*old(self)),
            r == !is_reserved_name(lower_seq(key@)),
            (if is_reserved_name(lower_seq(key@)) {
                final(self).same_headers(*old(self))
            } else {
                final(self).headers.spec_get(key@) is None && forall|other: Seq<char>|
                    other != key@ ==> final(self).headers.spec_get(other) == old(
                        self,
                    ).headers.spec_get(other)
            }),
    {
        let hdr = to_ascii_lowercase(key.as_str());
        if reserved_name(hdr.as_str()) {
            // these cannot be removed
            return false;
        }
        self.headers.remove(&key);
        true
    }

    /// Get an owned copy of a header, by its lowercased name. The reserved
    /// `content-type` and `content-length` fields answer under their own
    /// names.
    pub fn get_header(&self, key: String) -> (r: Option<String>)
        requires
            self.wf(),
        ensures
            (if lower_seq(key@) == "content-type"@ {
                r matches Some(v) && v@ == self.content_type.spec_mime()
            } else if lower_seq(key@) == "content-length"@ {
                match self.content_length {
                    Some(cl) => r matches Some(v) && v@ == dec_str(cl as nat),
                    None => r is None,
                }
            } else {
                match self.headers.spec_get(lower_seq(key@)) {
                    Some(v) => r matches Some(rv) && rv@ == v,
                    None => r is None,
                }
            }),
    {
        let hdr = to_ascii_lowercase(key.as_str());
        if str_eq(hdr.as_str(), "content-type") {
            Some(self.content_type.mime_str().to_owned())
        } else if str_eq(hdr.as_str(), "content-length") {
            match self.content_length {
                Some(cl) => Some(u32_to_dec_string(cl)),
                None => None,
            }
        } else {
            match self.headers.get(&hdr) {
                Some(v) => Some(v.clone()),
                None => None,
            }
        }
    }

    /// Allow any origin to read responses: bind the CORS allow-origin header
    /// to `*`. The name is stored in its canonical capitalised spelling.
    #[allow(non_snake_case)]
    pub fn add_CORS_headers(&mut self)
        requires
            old(self).wf(),
        ensures
            final(self).wf(),
            final(self).same_scalars(*old(self)),
            final(self).headers.spec_get("Access-Control-Allow-Origin"@) == Some("*"@),
            forall|other: Seq<char>|
                other != "Access-Control-Allow-Origin"@ ==> final(self).headers.spec_get(other)
                    == old(self).headers.spec_get(other),
    {
        self.headers.insert(
            "Access-Control-Allow-Origin".to_owned(),
            "*".to_owned(),
        );
    }

    /// Whether the body will be sent with chunked transfer encoding, which
    /// is exactly when no content length is given.
    pub fn is_chunked(&self) -> (r: bool)
        ensures
            r == (self.content_length is None),
    {
        self.content_length.is_none()
    }
}

/// The content type denoted by a `content-type` header value, if it is one
/// the node speaks.
pub open spec fn spec_content_type(v: Seq<char>) -> Option<HttpContentType> {
    let lv = lower_seq(v);
    if lv == "application/octet-stream"@ {
        Some(HttpContentType::Bytes)
    } else if lv == "text/plain"@ {
        Some(HttpContentType::Text)
    } else if lv == "application/json"@ {
        Some(HttpContentType::JSON)
    } else {
        None
    }
}

/// Parse a `content-type` header value, case-insensitively.
pub fn parse_content_type(v: &str) -> (r: Option<HttpContentType>)
    ensures
        r == spec_content_type(v@),
{
    let lv = to_ascii_lowercase(v);
    if str_eq(lv.as_str(), "application/octet-stream") {
        Some(HttpContentType::Bytes)
    } else if str_eq(lv.as_str(), "text/plain") {
        Some(HttpContentType::Text)
    } else if str_eq(lv.as_str(), "application/json") {
        Some(HttpContentType::JSON)
    } else {
        None
    }
}

/// A canonical MIME string reads back, case-insensitively, as its own
/// content type.
pub proof fn lemma_content_type_round_trip(ct: HttpContentType)
    ensures
        spec_content_type(ct.spec_mime()) == Some(ct),
{
    reveal_strlit("application/octet-stream");
    reveal_strlit("text/plain");
    reveal_strlit("application/json");
    let m = ct.spec_mime();
    assert(lower_seq(m) =~= m) by {
        assert forall|i: int| 0 <= i < m.len() implies #[trigger] lower_seq(m)[i] == m[i] by {
            assert(!('A' <= m[i] && m[i] <= 'Z'));
        }
    }
}

} // verus!
