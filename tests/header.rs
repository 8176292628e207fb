use mini_http::header::{ContentLength, ContentType, Header, Host, OtherHeaders, ParseError};
use mini_http::raw_headers::RawHeaders;

fn fields(pairs: &[(&str, &str)]) -> RawHeaders {
    let mut raw = RawHeaders::new();
    for (k, v) in pairs {
        raw.insert(k, v.to_string());
    }
    raw
}

#[test]
fn missing_host_names_host() {
    let raw = fields(&[("Content-Type", "text/plain"), ("User-Agent", "t")]);
    match Header::parse(raw) {
        Err(ParseError::MissingHeader(name)) => assert_eq!(name, "host"),
        other => panic!("unexpected {other:?}"),
    }
    match Header::parse(RawHeaders::new()) {
        Err(ParseError::MissingHeader(name)) => assert_eq!(name, "host"),
        other => panic!("unexpected {other:?}"),
    }
}

#[test]
fn invalid_host_url_is_rejected() {
    for bad in ["not a url", "", "//nohost", "/relative/path"] {
        match Header::parse(fields(&[("Host", bad)])) {
            Err(ParseError::InvalidUrl(v)) => assert_eq!(v, bad),
            other => panic!("unexpected {other:?} for {bad:?}"),
        }
    }
}

#[test]
fn defaults_apply_when_type_and_length_are_absent() {
    let h = Header::parse(fields(&[("Host", "http://localhost")])).unwrap();
    assert_eq!(h.host.as_str(), "http://localhost");
    assert_eq!(h.content_type, ContentType::TextPlain);
    assert_eq!(h.content_length.value(), 0);
}

#[test]
fn names_are_case_insensitive_and_others_are_kept() {
    let h = Header::parse(fields(&[
        ("HOST", "http://example.com"),
        ("content-TYPE", "application/json; charset=utf-8"),
        ("Content-Length", "13"),
        ("User-Agent", "curl/8"),
        ("X-Trace", "abc"),
    ]))
    .unwrap();
    assert_eq!(h.content_type, ContentType::ApplicationJson);
    assert_eq!(h.content_length, ContentLength::new(13));
    assert_eq!(
        h.to_text(),
        "Host: http://example.com\r\nContent-Type: application/json\r\nContent-Length: 13\r\nUser-Agent: curl/8\r\nX-Trace: abc"
    );
}

#[test]
fn later_field_of_same_name_replaces_earlier() {
    let mut raw = RawHeaders::new();
    raw.insert("Accept", "a".to_owned());
    raw.insert("ACCEPT", "b".to_owned());
    assert_eq!(raw.len(), 1);
    assert_eq!(raw.get("accept").unwrap(), "b");
    assert_eq!(raw.remove("accept"), Some("b".to_owned()));
    assert_eq!(raw.remove("accept"), None);
}

#[test]
fn content_type_parsing() {
    assert_eq!(ContentType::parse("text/plain").unwrap(), ContentType::TextPlain);
    assert_eq!(ContentType::parse("text/html;charset=utf-8").unwrap(), ContentType::TextHtml);
    assert_eq!(ContentType::parse("application/json").unwrap(), ContentType::ApplicationJson);
    match ContentType::parse("image/png; q=1") {
        Err(ParseError::UnsupportedContentType(t)) => assert_eq!(t, "image/png"),
        other => panic!("unexpected {other:?}"),
    }
    assert!(ContentType::parse("Text/Plain").is_err());
    assert_eq!(ContentType::TextHtml.as_str(), "text/html");
}

#[test]
fn content_length_parsing() {
    assert_eq!(ContentLength::parse("42").unwrap().value(), 42);
    assert_eq!(ContentLength::parse("0").unwrap().value(), 0);
    for bad in ["", "-1", "4x", "18446744073709551616"] {
        match ContentLength::parse(bad) {
            Err(ParseError::InvalidContentLength(v)) => assert_eq!(v, bad),
            other => panic!("unexpected {other:?}"),
        }
    }
    assert_eq!(ContentLength::new(7).to_usize().unwrap(), 7);
}

#[test]
fn content_length_round_trips() {
    for n in [0u64, 5, 13, 1 << 40, u64::MAX] {
        assert_eq!(ContentLength::parse(&n.to_string()).unwrap().value(), n);
    }
}

#[test]
fn header_errors_by_field() {
    match Header::parse(fields(&[("Host", "http://h"), ("Content-Type", "text/csv")])) {
        Err(ParseError::UnsupportedContentType(t)) => assert_eq!(t, "text/csv"),
        other => panic!("unexpected {other:?}"),
    }
    match Header::parse(fields(&[("Host", "http://h"), ("Content-Length", "ten")])) {
        Err(ParseError::InvalidContentLength(t)) => assert_eq!(t, "ten"),
        other => panic!("unexpected {other:?}"),
    }
}

#[test]
fn header_built_by_hand_serializes_in_fixed_order() {
    let host = Host::parse("http://a.b").unwrap();
    let h = Header::new(host, ContentType::TextHtml, ContentLength::new(5), OtherHeaders::new());
    assert_eq!(h.to_text(), "Host: http://a.b\r\nContent-Type: text/html\r\nContent-Length: 5");
}
