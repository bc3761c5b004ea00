use stackslib::ascii::{parse_u32_str, str_eq, to_ascii_lowercase, u32_to_dec_string};
use stackslib::date::{format_date_text, DateParts};
use stackslib::http_types::{http_reason, CodecError, HttpContentType, HttpVersion};
use stackslib::payload::{encode_chunked, usize_to_hex_bytes, HttpResponsePayload};
use stackslib::preamble::{parse_content_type, HttpRequestPreamble, HttpResponsePreamble};

fn req(version: HttpVersion, keep_alive: bool) -> HttpRequestPreamble {
    HttpRequestPreamble { version, keep_alive }
}

#[test]
fn constructors_set_status_and_framing() {
    let p = HttpResponsePreamble::new(
        HttpVersion::Http11,
        200,
        "OK".to_string(),
        Some(123),
        HttpContentType::JSON,
        true,
    );
    assert_eq!(p.status_code, 200);
    assert_eq!(p.reason, "OK");
    assert_eq!(p.content_length, Some(123));
    assert!(!p.is_chunked());

    let q = HttpResponsePreamble::success_2xx_json(&req(HttpVersion::Http10, false), 202);
    assert_eq!(q.status_code, 202);
    assert_eq!(q.reason, "Accepted");
    assert_eq!(q.client_http_version, HttpVersion::Http10);
    assert!(!q.keep_alive);
    assert!(q.is_chunked());

    let ok = HttpResponsePreamble::ok_json(&req(HttpVersion::Http11, true));
    assert_eq!(ok.status_code, 200);
    let acc = HttpResponsePreamble::accepted_json(&req(HttpVersion::Http11, true));
    assert_eq!(acc.status_code, 202);
    let raw = HttpResponsePreamble::raw_ok_json(HttpVersion::Http11, false);
    assert_eq!(raw.reason, "OK");
    assert_eq!(raw.content_type, HttpContentType::JSON);
}

#[test]
fn error_constructors() {
    let b = HttpResponsePreamble::error_bytes(404, "Not Found");
    assert_eq!(b.status_code, 404);
    assert_eq!(b.content_type, HttpContentType::Bytes);
    assert!(!b.keep_alive);
    assert_eq!(b.content_length, None);

    let j = HttpResponsePreamble::error_json(500, "Internal Server Error");
    assert_eq!(j.content_type, HttpContentType::JSON);

    let t = HttpResponsePreamble::error_text(400, "Bad Request", "nope!");
    assert_eq!(t.content_type, HttpContentType::Text);
    assert_eq!(t.content_length, Some(5));

    // the advertised length counts UTF-8 bytes, not characters
    let m = HttpResponsePreamble::error_text(400, "Bad Request", "h\u{e9}llo");
    assert_eq!(m.content_length, Some(6));
}

#[test]
fn add_header_reserved_and_free() {
    let mut p = HttpResponsePreamble::raw_ok_json(HttpVersion::Http11, true);
    p.add_header("Content-Length".to_string(), "42".to_string());
    assert_eq!(p.content_length, Some(42));
    // an unparsable reserved value is dropped, not stored
    p.add_header("Content-Length".to_string(), "not-a-number".to_string());
    assert_eq!(p.content_length, Some(42));
    p.add_header("Content-Type".to_string(), "text/plain".to_string());
    assert_eq!(p.content_type, HttpContentType::Text);
    p.add_header("Host".to_string(), "example.com:80".to_string());
    assert_eq!(p.get_header("host".to_string()), None);
    p.add_header("X-Request-Id".to_string(), "abc".to_string());
    assert_eq!(p.get_header("x-request-id".to_string()), Some("abc".to_string()));
    assert_eq!(p.get_header("X-REQUEST-ID".to_string()), Some("abc".to_string()));
}

#[test]
fn get_header_reserved_views() {
    let mut p = HttpResponsePreamble::raw_ok_json(HttpVersion::Http11, true);
    assert_eq!(
        p.get_header("Content-Type".to_string()),
        Some("application/json".to_string())
    );
    assert_eq!(p.get_header("Content-Length".to_string()), None);
    p.content_length = Some(1024);
    assert_eq!(p.get_header("content-length".to_string()), Some("1024".to_string()));
}

#[test]
fn remove_header_reserved_refused() {
    let mut p = HttpResponsePreamble::raw_ok_json(HttpVersion::Http11, true);
    p.add_header("X-Keep".to_string(), "v".to_string());
    assert!(!p.remove_header("Content-Type".to_string()));
    assert!(!p.remove_header("content-length".to_string()));
    assert!(!p.remove_header("HOST".to_string()));
    // removal uses the key as given; the stored key is the lowercased one
    assert!(p.remove_header("X-Keep".to_string()));
    assert_eq!(p.get_header("x-keep".to_string()), Some("v".to_string()));
    assert!(p.remove_header("x-keep".to_string()));
    assert_eq!(p.get_header("x-keep".to_string()), None);
}

#[test]
fn cors_header_is_stored_capitalised() {
    let mut p = HttpResponsePreamble::raw_ok_json(HttpVersion::Http11, true);
    p.add_CORS_headers();
    assert_eq!(
        p.headers.get(&"Access-Control-Allow-Origin".to_string()),
        Some(&"*".to_string())
    );
    // get_header folds its lookup key, so the capitalised binding is not seen
    assert_eq!(p.get_header("Access-Control-Allow-Origin".to_string()), None);
}

#[test]
fn from_headers_feeds_pairs_in_order() {
    let p = HttpResponsePreamble::from_headers(
        200,
        "OK".to_string(),
        true,
        None,
        HttpContentType::JSON,
        vec!["X-A".to_string(), "Content-Length".to_string()],
        vec!["1".to_string(), "77".to_string()],
    );
    assert_eq!(p.get_header("x-a".to_string()), Some("1".to_string()));
    assert_eq!(p.content_length, Some(77));
    assert_eq!(p.reason, "OK");
    assert_eq!(p.content_type, HttpContentType::JSON);
}

#[test]
fn from_headers_later_pair_overwrites() {
    let p = HttpResponsePreamble::from_headers(
        200,
        "OK".to_string(),
        true,
        None,
        HttpContentType::JSON,
        vec!["X-A".to_string(), "x-a".to_string()],
        vec!["1".to_string(), "2".to_string()],
    );
    assert_eq!(p.get_header("x-a".to_string()), Some("2".to_string()));
}

#[test]
fn serialize_exact_bytes() {
    let p = HttpResponsePreamble::new(
        HttpVersion::Http11,
        200,
        "OK".to_string(),
        Some(5),
        HttpContentType::Text,
        true,
    );
    let out = p.write_preamble_bytes("Thu, Nov 6 1994 8:49:37 GMT");
    let expected = "HTTP/1.1 200 OK\r\n\
        Server: stacks/2.0\r\n\
        Date: Thu, Nov 6 1994 8:49:37 GMT\r\n\
        Access-Control-Allow-Origin: *\r\n\
        Access-Control-Allow-Headers: origin, content-type\r\n\
        Access-Control-Allow-Methods: POST, GET, OPTIONS\r\n\
        Content-Type: text/plain\r\n\
        Content-Length: 5\r\n\
        \r\n";
    assert_eq!(String::from_utf8(out).unwrap(), expected);
}

#[test]
fn serialize_chunked_http10_close() {
    let mut p = HttpResponsePreamble::new(
        HttpVersion::Http10,
        404,
        "Not Found".to_string(),
        None,
        HttpContentType::Bytes,
        false,
    );
    p.add_header("X-Extra".to_string(), "zzz".to_string());
    let out = p.write_preamble_bytes("D");
    let text = String::from_utf8(out).unwrap();
    assert!(text.starts_with("HTTP/1.1 404 Not Found\r\n"));
    assert!(text.contains("Transfer-Encoding: chunked\r\n"));
    assert!(text.contains("Connection: close\r\n"));
    assert!(text.contains("Date: D\r\n"));
    assert!(text.ends_with("x-extra: zzz\r\n\r\n"));
}

#[test]
fn serialize_skips_overridden_defaults() {
    let mut p = HttpResponsePreamble::new(
        HttpVersion::Http11,
        200,
        "OK".to_string(),
        Some(0),
        HttpContentType::JSON,
        true,
    );
    p.add_header("Server".to_string(), "custom/1".to_string());
    p.add_header("Date".to_string(), "yesterday".to_string());
    let text = String::from_utf8(p.write_preamble_bytes("ignored")).unwrap();
    assert!(!text.contains("stacks/2.0"));
    assert!(!text.contains("ignored"));
    assert!(text.contains("server: custom/1\r\n"));
    assert!(text.contains("date: yesterday\r\n"));
}

#[test]
fn consensus_serialize_emits_a_date() {
    let p = HttpResponsePreamble::raw_ok_json(HttpVersion::Http11, true);
    let text = String::from_utf8(p.consensus_serialize()).unwrap();
    assert!(text.contains("Date: "));
    assert!(text.contains(" GMT\r\n"));
}

#[test]
fn parse_roundtrip() {
    let p = HttpResponsePreamble::new(
        HttpVersion::Http11,
        200,
        "OK".to_string(),
        Some(5),
        HttpContentType::Text,
        true,
    );
    let bytes = p.write_preamble_bytes("Thu, Nov 6 1994 8:49:37 GMT");
    let n_bytes = bytes.len();
    let (q, consumed) = HttpResponsePreamble::parse_preamble(&bytes).unwrap();
    assert_eq!(consumed, n_bytes);
    assert_eq!(q.client_http_version, HttpVersion::Http11);
    assert_eq!(q.status_code, 200);
    assert_eq!(q.reason, "OK");
    assert!(q.keep_alive);
    assert_eq!(q.content_length, Some(5));
    assert_eq!(q.content_type, HttpContentType::Text);
    assert_eq!(q.get_header("server".to_string()), Some("stacks/2.0".to_string()));
}

#[test]
fn parse_exact_fields() {
    let raw = b"HTTP/1.1 200 OK\r\nContent-Type: application/json\r\nContent-Length: 26\r\nX-Custom: Hello\r\n\r\n{}";
    let (p, consumed) = HttpResponsePreamble::parse_preamble(raw).unwrap();
    assert_eq!(consumed, raw.len() - 2);
    assert_eq!(p.status_code, 200);
    assert_eq!(p.reason, "OK");
    assert!(p.keep_alive);
    assert_eq!(p.content_length, Some(26));
    assert_eq!(p.content_type, HttpContentType::JSON);
    assert_eq!(p.get_header("x-custom".to_string()), Some("Hello".to_string()));
    assert!(!p.is_chunked());
}

#[test]
fn parse_http10_empty_reason_chunked() {
    let raw = b"HTTP/1.0 404\r\nTransfer-Encoding: chunked\r\nConnection: close\r\n\r\n";
    let (p, _) = HttpResponsePreamble::parse_preamble(raw).unwrap();
    assert_eq!(p.client_http_version, HttpVersion::Http10);
    assert_eq!(p.status_code, 404);
    assert_eq!(p.reason, "");
    assert!(!p.keep_alive);
    assert_eq!(p.content_length, None);
    // no content type on the wire defaults to raw bytes
    assert_eq!(p.content_type, HttpContentType::Bytes);
    assert!(p.is_chunked());
}

#[test]
fn parse_needs_more_bytes() {
    let raw = b"HTTP/1.1 200 OK\r\nContent-Length: 0\r\n";
    match HttpResponsePreamble::parse_preamble(raw) {
        Err(CodecError::UnderflowError(_)) => {}
        other => panic!("expected underflow, got {:?}", other),
    }
}

#[test]
fn parse_rejects_malformed() {
    // both framings
    let raw =
        b"HTTP/1.1 200 OK\r\nContent-Length: 1\r\nTransfer-Encoding: chunked\r\n\r\n";
    assert!(matches!(
        HttpResponsePreamble::parse_preamble(raw),
        Err(CodecError::DeserializeError(_))
    ));
    // no framing at all
    let raw = b"HTTP/1.1 200 OK\r\n\r\n";
    assert!(matches!(
        HttpResponsePreamble::parse_preamble(raw),
        Err(CodecError::DeserializeError(_))
    ));
    // duplicate header
    let raw = b"HTTP/1.1 200 OK\r\nContent-Length: 1\r\nX-A: 1\r\nX-A: 2\r\n\r\n";
    assert!(matches!(
        HttpResponsePreamble::parse_preamble(raw),
        Err(CodecError::DeserializeError(_))
    ));
    // bad content-length value
    let raw = b"HTTP/1.1 200 OK\r\nContent-Length: 12x\r\n\r\n";
    assert!(matches!(
        HttpResponsePreamble::parse_preamble(raw),
        Err(CodecError::DeserializeError(_))
    ));
    // bad connection value
    let raw = b"HTTP/1.1 200 OK\r\nContent-Length: 1\r\nConnection: maybe\r\n\r\n";
    assert!(matches!(
        HttpResponsePreamble::parse_preamble(raw),
        Err(CodecError::DeserializeError(_))
    ));
    // bad version
    let raw = b"HTTP/2.0 200 OK\r\nContent-Length: 1\r\n\r\n";
    assert!(matches!(
        HttpResponsePreamble::parse_preamble(raw),
        Err(CodecError::DeserializeError(_))
    ));
    // non-ASCII header value
    let raw = b"HTTP/1.1 200 OK\r\nContent-Length: 1\r\nX-A: \xc3\xa9\r\n\r\n";
    assert!(matches!(
        HttpResponsePreamble::parse_preamble(raw),
        Err(CodecError::DeserializeError(_))
    ));
}

#[test]
fn parse_u32_values() {
    assert_eq!(parse_u32_str("0"), Some(0));
    assert_eq!(parse_u32_str("4294967295"), Some(u32::MAX));
    assert_eq!(parse_u32_str("4294967296"), None);
    assert_eq!(parse_u32_str("+17"), Some(17));
    assert_eq!(parse_u32_str("+"), None);
    assert_eq!(parse_u32_str(""), None);
    assert_eq!(parse_u32_str("-1"), None);
    assert_eq!(parse_u32_str("1 2"), None);
    assert_eq!(parse_u32_str("007"), Some(7));
}

#[test]
fn ascii_helpers() {
    assert_eq!(u32_to_dec_string(0), "0");
    assert_eq!(u32_to_dec_string(4096), "4096");
    assert!(str_eq("abc", "abc"));
    assert!(!str_eq("abc", "abd"));
    assert_eq!(to_ascii_lowercase("Content-TYPE"), "content-type");
    // non-ASCII characters are kept as they are
    assert_eq!(to_ascii_lowercase("GrüßE"), "grüße");
}

#[test]
fn reason_phrases() {
    assert_eq!(http_reason(200), "OK");
    assert_eq!(http_reason(202), "Accepted");
    assert_eq!(http_reason(400), "Bad Request");
    assert_eq!(http_reason(404), "Not Found");
    assert_eq!(http_reason(503), "Service Unavailable");
    assert_eq!(http_reason(999), "Error");
}

#[test]
fn content_type_parsing() {
    assert_eq!(parse_content_type("application/json"), Some(HttpContentType::JSON));
    assert_eq!(parse_content_type("Application/JSON"), Some(HttpContentType::JSON));
    assert_eq!(parse_content_type("text/plain"), Some(HttpContentType::Text));
    assert_eq!(
        parse_content_type("application/octet-stream"),
        Some(HttpContentType::Bytes)
    );
    assert_eq!(parse_content_type("text/html"), None);
    assert_eq!(HttpContentType::JSON.mime_str(), "application/json");
}

#[test]
fn date_formatting() {
    let parts = DateParts {
        year: 1994,
        month: 11,
        day: 6,
        weekday: 4,
        hour: 8,
        minute: 49,
        second: 37,
    };
    assert_eq!(format_date_text(&parts), "Thu, Nov 6 1994 8:49:37 GMT");
    let parts2 = DateParts {
        year: 2026,
        month: 1,
        day: 31,
        weekday: 6,
        hour: 23,
        minute: 5,
        second: 0,
    };
    assert_eq!(format_date_text(&parts2), "Sat, Jan 31 2026 23:05:00 GMT");
}

#[test]
fn payload_content_lengths() {
    assert_eq!(HttpResponsePayload::Empty.try_content_length(), Some(0));
    assert_eq!(
        HttpResponsePayload::Bytes(vec![1, 2, 3]).try_content_length(),
        Some(3)
    );
    assert_eq!(
        HttpResponsePayload::Text("hello".to_string()).try_content_length(),
        Some(5)
    );
    let v: serde_json::Value = serde_json::from_str("[1,2,3]").unwrap();
    assert_eq!(HttpResponsePayload::JSON(v).try_content_length(), Some(7));
}

#[test]
fn payload_body_bytes_and_conversions() {
    let b = HttpResponsePayload::Bytes(vec![9, 8]).into_body_bytes().unwrap();
    assert_eq!(b, vec![9, 8]);
    let t = HttpResponsePayload::Text("hé".to_string()).into_body_bytes().unwrap();
    assert_eq!(t, "hé".as_bytes().to_vec());
    let v: serde_json::Value = serde_json::from_str("{\"a\":1}").unwrap();
    let j = HttpResponsePayload::JSON(v).into_body_bytes().unwrap();
    assert_eq!(j, b"{\"a\":1}".to_vec());
    assert_eq!(HttpResponsePayload::Empty.into_body_bytes().unwrap(), Vec::<u8>::new());

    assert_eq!(
        HttpResponsePayload::Bytes(vec![1]).try_into_bytes().unwrap(),
        vec![1]
    );
    assert!(HttpResponsePayload::Text("x".to_string()).try_into_bytes().is_err());
    assert_eq!(
        HttpResponsePayload::Text("x".to_string()).try_into_text().unwrap(),
        "x"
    );
    assert_eq!(HttpResponsePayload::Empty.try_into_text().unwrap(), "");
    assert!(HttpResponsePayload::Bytes(vec![]).try_into_text().is_err());
    let v: serde_json::Value = serde_json::from_str("7").unwrap();
    assert_eq!(
        HttpResponsePayload::JSON(v.clone()).try_into_json().unwrap(),
        v
    );
    assert_eq!(
        HttpResponsePayload::Empty.try_into_json().unwrap(),
        serde_json::Value::Null
    );
    assert!(HttpResponsePayload::Text("x".to_string()).try_into_json().is_err());
}

#[test]
fn chunked_encoding_exact() {
    let out = encode_chunked(b"hello world", 5);
    assert_eq!(
        String::from_utf8(out).unwrap(),
        "5\r\nhello\r\n5\r\n worl\r\n1\r\nd\r\n0\r\n\r\n"
    );
    let out = encode_chunked(b"", 5);
    assert_eq!(String::from_utf8(out).unwrap(), "0\r\n\r\n");
    // a zero chunk size sends the whole body as one chunk
    let out = encode_chunked(&[0u8; 31], 0);
    assert!(String::from_utf8_lossy(&out).starts_with("1f\r\n"));
    assert_eq!(usize_to_hex_bytes(255), b"ff".to_vec());
    assert_eq!(usize_to_hex_bytes(0), b"0".to_vec());
}

#[test]
fn serialize_http10_keep_alive() {
    let p = HttpResponsePreamble::new(
        HttpVersion::Http10,
        200,
        "OK".to_string(),
        Some(0),
        HttpContentType::JSON,
        true,
    );
    let text = String::from_utf8(p.write_preamble_bytes("D")).unwrap();
    // an HTTP/1.0 client is told explicitly that the connection stays open
    assert!(text.contains("Connection: keep-alive\r\n"));
}
