use mini_http::body::BodyType;
use mini_http::header::{ContentType, ParseError as HeaderParseError};
use mini_http::request::{parse_request, HeadParser, RequestMessage, RequestMessageError};
use mini_http::request_line::{HttpVersion, HttpVersionEnum, RequestType};

#[test]
fn scenario_simple_get() {
    let input = b"GET / HTTP/1.1\r\nHost: http://localhost\r\nUser-Agent: t\r\n\r\n";
    let m = parse_request(input).unwrap();
    assert_eq!(m.request_line.request_type, RequestType::Get);
    assert_eq!(m.request_line.uri.get_path(), "/");
    assert_eq!(m.request_line.http_version, HttpVersion::new(HttpVersionEnum::V1_1));
    assert!(matches!(m.body.get_type(), BodyType::TextPlain(t) if t.is_empty()));
    assert_eq!(m.header.host.as_str(), "http://localhost");
    assert_eq!(m.header.content_length.value(), 0);
}

#[test]
fn scenario_json_body() {
    let input = b"GET /api HTTP/1.1\r\nHost: http://localhost\r\nContent-Type: application/json\r\nContent-Length: 13\r\n\r\n{\"a\":1,\"b\":2}";
    let m = parse_request(input).unwrap();
    assert_eq!(m.header.content_type, ContentType::ApplicationJson);
    match m.body.get_type() {
        BodyType::ApplicationJson(v) => {
            assert_eq!(v["a"].as_u64(), Some(1));
            assert_eq!(v["b"].as_u64(), Some(2));
        }
        other => panic!("unexpected {other:?}"),
    }
}

#[test]
fn scenario_missing_blank_line() {
    let input = b"GET / HTTP/1.1\r\nHost: http://localhost\r\n";
    assert!(matches!(parse_request(input), Err(RequestMessageError::UnexpectedEof)));
    let input = b"Host: http://localhost\r\nUser-Agent: t\r\n";
    assert!(parse_request(input).is_err());
    assert!(matches!(parse_request(b""), Err(RequestMessageError::UnexpectedEof)));
}

#[test]
fn scenario_two_request_lines() {
    let input = b"GET / HTTP/1.1\r\nPOST /x HTTP/1.1\r\nHost: http://h\r\n\r\n";
    match parse_request(input) {
        Err(RequestMessageError::MultipleRequestLines(l)) => assert_eq!(l, "POST /x HTTP/1.1"),
        other => panic!("unexpected {other:?}"),
    }
}

#[test]
fn no_request_line_is_reported() {
    let input = b"Host: http://h\r\n\r\n";
    assert!(matches!(parse_request(input), Err(RequestMessageError::RequestLineNotFound)));
}

#[test]
fn zero_length_gives_empty_plain_body_whatever_the_type() {
    let input = b"POST / HTTP/1.1\r\nHost: http://h\r\nContent-Type: application/json\r\nContent-Length: 0\r\n\r\nnot json";
    let m = parse_request(input).unwrap();
    assert!(matches!(m.body.get_type(), BodyType::TextPlain(t) if t.is_empty()));
    assert_eq!(m.header.content_type, ContentType::ApplicationJson);
}

#[test]
fn short_body_is_an_error() {
    let input = b"POST / HTTP/1.1\r\nHost: http://h\r\nContent-Length: 10\r\n\r\nabc";
    assert!(matches!(parse_request(input), Err(RequestMessageError::BodyTruncated(10))));
}

#[test]
fn body_stops_at_declared_length() {
    let input = b"PUT /p HTTP/1.1\r\nHost: http://h\r\nContent-Length: 3\r\n\r\nabcdef";
    let m = parse_request(input).unwrap();
    assert_eq!(m.request_line.request_type, RequestType::Put);
    assert!(matches!(m.body.get_type(), BodyType::TextPlain(t) if t == "abc"));
}

#[test]
fn header_and_body_errors_are_passed_on() {
    let input = b"GET / HTTP/1.1\r\nUser-Agent: t\r\n\r\n";
    match parse_request(input) {
        Err(RequestMessageError::HeaderParseError(HeaderParseError::MissingHeader(n))) => {
            assert_eq!(n, "host")
        }
        other => panic!("unexpected {other:?}"),
    }
    let input = b"GET / HTTP/1.1\r\nHost: http://h\r\nContent-Type: application/json\r\nContent-Length: 2\r\n\r\n{x";
    assert!(matches!(parse_request(input), Err(RequestMessageError::BodyParseError(_))));
    let input = b"GET / HTTP/1.1\r\nHost: \xff\r\n\r\n";
    assert!(matches!(parse_request(input), Err(RequestMessageError::Utf8ConversionError)));
}

#[test]
fn garbage_lines_are_ignored_and_header_values_kept() {
    let input = b"garbage line\r\nGET /q HTTP/1.1\r\nHost:   http://h  \r\nX-Id:a:b\r\n\r\n";
    let m = parse_request(input).unwrap();
    assert_eq!(m.header.host.as_str(), "http://h");
    assert!(m.header.to_text().ends_with("X-Id: a:b"));
}

#[test]
fn head_parser_reads_line_by_line() {
    let mut p = HeadParser::new();
    assert!(!p.feed_line("DELETE /item/3 HTTP/1.1\r\n").unwrap());
    assert!(!p.feed_line("Host: http://h\r\n").unwrap());
    assert!(!p.feed_line("Content-Length: 4\r\n").unwrap());
    assert!(p.feed_line("\r\n").unwrap());
    let (line, header) = p.finish().unwrap();
    assert_eq!(line.request_type, RequestType::Delete);
    let n = RequestMessage::body_length(&header).unwrap();
    assert_eq!(n, 4);
    let m = RequestMessage::assemble(line, header, b"data".to_vec()).unwrap();
    assert!(matches!(m.body.get_type(), BodyType::TextPlain(t) if t == "data"));
}
