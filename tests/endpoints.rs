use mini_http::body::BodyType;
use mini_http::endpoints::{about, api, root, route, Route};
use mini_http::header::ContentType;
use mini_http::request::{parse_request, RequestMessageError};
use mini_http::request_line::RequestType;
use mini_http::status::Status;

const JSON_REQUEST: &[u8] = b"GET /api HTTP/1.1\r\nHost: http://localhost\r\nContent-Type: application/json\r\nContent-Length: 13\r\n\r\n{\"a\":1,\"b\":2}";

#[test]
fn routes_by_exact_path() {
    assert_eq!(route("/").unwrap(), Route::Root);
    assert_eq!(route("/api").unwrap(), Route::Api);
    assert_eq!(route("/about").unwrap(), Route::About);
    match route("/api/") {
        Err(RequestMessageError::UnknownRoute(p)) => assert_eq!(p, "/api/"),
        other => panic!("unexpected {other:?}"),
    }
}

#[test]
fn api_adds_the_two_members() {
    let request = parse_request(JSON_REQUEST).unwrap();
    let response = api::handle(request);
    assert_eq!(response.response_line.status.status_code(), 200);
    assert_eq!(response.body.to_text(), "{\"c\":3}");
    match response.body.get_type() {
        BodyType::ApplicationJson(v) => assert_eq!(v["c"].as_u64(), Some(3)),
        other => panic!("unexpected {other:?}"),
    }
    assert_eq!(
        response.to_text(),
        "HTTP/1.1 200 OK\r\nHost: http://localhost\r\nContent-Type: application/json\r\nContent-Length: 7\r\n\r\n{\"c\":3}"
    );
}

#[test]
fn api_refuses_other_requests() {
    let post = b"POST /api HTTP/1.1\r\nHost: http://h\r\nContent-Type: application/json\r\nContent-Length: 13\r\n\r\n{\"a\":1,\"b\":2}";
    let r = api::handle(parse_request(post).unwrap());
    assert_eq!(r.response_line.status.status_code(), 404);
    assert_eq!(r.body.to_text(), "");
    assert_eq!(r.header.content_length.value(), 0);

    let plain = b"GET /api HTTP/1.1\r\nHost: http://h\r\nContent-Length: 3\r\n\r\nabc";
    let r = api::handle(parse_request(plain).unwrap());
    assert_eq!(r.response_line.status.status_code(), 500);

    let missing = b"GET /api HTTP/1.1\r\nHost: http://h\r\nContent-Type: application/json\r\nContent-Length: 7\r\n\r\n{\"a\":1}";
    let r = api::handle(parse_request(missing).unwrap());
    assert_eq!(r.response_line.status.status_code(), 500);

    let overflow = format!(
        "GET /api HTTP/1.1\r\nHost: http://h\r\nContent-Type: application/json\r\nContent-Length: {}\r\n\r\n{}",
        format!("{{\"a\":{},\"b\":1}}", u64::MAX).len(),
        format!("{{\"a\":{},\"b\":1}}", u64::MAX)
    );
    let r = api::handle(parse_request(overflow.as_bytes()).unwrap());
    assert_eq!(r.response_line.status.status_code(), 500);
}

#[test]
fn api_sum_decides_exactly() {
    let j = ContentType::ApplicationJson;
    assert_eq!(api::api_sum(RequestType::Get, j, true, Some(1), Some(2)), Ok(3));
    assert_eq!(api::api_sum(RequestType::Post, j, true, Some(1), Some(2)), Err(Status::not_found()));
    assert_eq!(
        api::api_sum(RequestType::Get, ContentType::TextPlain, true, Some(1), Some(2)),
        Err(Status::internal_server_error())
    );
    assert_eq!(api::api_sum(RequestType::Get, j, false, Some(1), Some(2)), Err(Status::internal_server_error()));
    assert_eq!(api::api_sum(RequestType::Get, j, true, None, Some(2)), Err(Status::internal_server_error()));
    assert_eq!(
        api::api_sum(RequestType::Get, j, true, Some(u64::MAX), Some(1)),
        Err(Status::internal_server_error())
    );
}

#[test]
fn root_greets_get_only() {
    let get = b"GET / HTTP/1.1\r\nHost: http://localhost\r\n\r\n";
    let r = root::handle(parse_request(get).unwrap());
    assert_eq!(
        r.to_text(),
        "HTTP/1.1 200 OK\r\nHost: http://localhost\r\nContent-Type: text/plain\r\nContent-Length: 25\r\n\r\nHello from root endpoint!"
    );
    let put = b"PUT / HTTP/1.1\r\nHost: http://localhost\r\n\r\n";
    let r = root::handle(parse_request(put).unwrap());
    assert_eq!(r.response_line.status.status_code(), 404);
}

#[test]
fn about_serves_the_page() {
    let get = b"GET /about HTTP/1.1\r\nHost: http://h\r\n\r\n";
    let r = about::handle(parse_request(get).unwrap(), Some("<h1>é</h1>".to_owned()));
    assert_eq!(r.response_line.status.status_code(), 200);
    assert_eq!(r.header.content_length.value(), 11);
    assert!(r.to_text().contains("Content-Type: text/html\r\n"));
    let r = about::handle(parse_request(get).unwrap(), None);
    assert_eq!(r.response_line.status.status_code(), 500);
    let post = b"POST /about HTTP/1.1\r\nHost: http://h\r\n\r\n";
    let r = about::handle(parse_request(post).unwrap(), Some("x".to_owned()));
    assert_eq!(r.response_line.status.status_code(), 404);
}
