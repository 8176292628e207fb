use mini_http::body::{Body, BodyType};
use mini_http::header::{ContentLength, ContentType, Header, Host, OtherHeaders};
use mini_http::request_line::{HttpVersion, HttpVersionEnum};
use mini_http::response::ResponseMessage;
use mini_http::response_line::ResponseLine;
use mini_http::status::Status;

#[test]
fn response_line_text() {
    let l = ResponseLine::new(HttpVersion::new(HttpVersionEnum::V1_1), Status::not_found());
    assert_eq!(l.to_text(), "HTTP/1.1 404 Not Found");
    let l = ResponseLine::new(HttpVersion::new(HttpVersionEnum::V1_1), Status::new(302));
    assert_eq!(l.to_text(), "HTTP/1.1 302 <status code is unknown>");
}

#[test]
fn response_wire_form() {
    let header = Header::new(
        Host::parse("http://localhost").unwrap(),
        ContentType::TextPlain,
        ContentLength::new(5),
        OtherHeaders::new(),
    );
    let line = ResponseLine::new(HttpVersion::new(HttpVersionEnum::V1_1), Status::ok());
    let body = Body::new(BodyType::TextPlain("hello".to_owned()));
    let m = ResponseMessage::new(line, header, body);
    assert_eq!(
        m.to_text(),
        "HTTP/1.1 200 OK\r\nHost: http://localhost\r\nContent-Type: text/plain\r\nContent-Length: 5\r\n\r\nhello"
    );
}
