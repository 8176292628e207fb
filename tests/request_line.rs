use mini_http::request_line::{
    HttpVersion, HttpVersionEnum, ParseError, Path, RequestLine, RequestType,
};

#[test]
fn parses_each_supported_method() {
    let cases = [
        ("GET", RequestType::Get),
        ("POST", RequestType::Post),
        ("PUT", RequestType::Put),
        ("DELETE", RequestType::Delete),
    ];
    for (name, method) in cases {
        let line = format!("{name} /index.html HTTP/1.1");
        let parsed = RequestLine::parse(&line).unwrap();
        assert_eq!(parsed.request_type, method);
        assert_eq!(parsed.uri.get_path(), "/index.html");
        assert_eq!(parsed.http_version, HttpVersion::new(HttpVersionEnum::V1_1));
        assert_eq!(parsed.http_version.to_text(), "HTTP/1.1");
    }
}

#[test]
fn method_match_is_case_sensitive() {
    match RequestLine::parse("get / HTTP/1.1") {
        Err(ParseError::InvalidRequestType(t)) => assert_eq!(t, "get"),
        other => panic!("unexpected {other:?}"),
    }
}

#[test]
fn wrong_word_count_is_reported_with_the_count() {
    match RequestLine::parse("GET /") {
        Err(ParseError::InvalidRequestLineLength(n)) => assert_eq!(n, 2),
        other => panic!("unexpected {other:?}"),
    }
    match RequestLine::parse("GET / HTTP/1.1 extra") {
        Err(ParseError::InvalidRequestLineLength(n)) => assert_eq!(n, 4),
        other => panic!("unexpected {other:?}"),
    }
    match RequestLine::parse("   ") {
        Err(ParseError::InvalidRequestLineLength(n)) => assert_eq!(n, 0),
        other => panic!("unexpected {other:?}"),
    }
}

#[test]
fn unsupported_versions_are_rejected() {
    for v in ["HTTP/2.0", "http/1.1", "HTTP1.1", "HTTPS/1.1"] {
        let line = format!("GET / {v}");
        match RequestLine::parse(&line) {
            Err(ParseError::InvalidHttpVersion(t)) => assert_eq!(t, v),
            other => panic!("unexpected {other:?}"),
        }
    }
}

#[test]
fn words_split_on_any_ascii_whitespace() {
    let parsed = RequestLine::parse("\tPOST \x0c /a/b \r HTTP/1.1\n").unwrap();
    assert_eq!(parsed.request_type, RequestType::Post);
    assert_eq!(parsed.uri.get_path(), "/a/b");
}

#[test]
fn empty_path_is_rejected() {
    assert!(matches!(Path::parse(""), Err(ParseError::EmptyPath)));
    assert_eq!(Path::parse("/x").unwrap().get_path(), "/x");
    assert_eq!(Path::new("/y".to_owned()).get_path(), "/y");
}

#[test]
fn version_parse_trims_and_matches_exactly() {
    assert_eq!(
        HttpVersion::parse("HTTP/1.1").unwrap(),
        HttpVersion::new(HttpVersionEnum::V1_1)
    );
    assert!(HttpVersion::parse("HTTP/1.10").is_err());
    assert_eq!(HttpVersionEnum::V1_1.as_str(), "1.1");
    assert_eq!(RequestType::Delete.as_str(), "DELETE");
}
