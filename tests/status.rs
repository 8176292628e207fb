use mini_http::status::{ParseError as StatusParseError, Status};

#[test]
fn known_statuses_have_reason_phrases() {
    assert_eq!(Status::ok().status_code(), 200);
    assert_eq!(Status::ok().reason_phrase(), "OK");
    assert_eq!(Status::not_found().status_code(), 404);
    assert_eq!(Status::not_found().reason_phrase(), "Not Found");
    assert_eq!(Status::internal_server_error().status_code(), 500);
    assert_eq!(Status::internal_server_error().reason_phrase(), "Internal Server Error");
}

#[test]
fn unknown_status_is_representable() {
    let s = Status::new(418);
    assert_eq!(s.status_code(), 418);
    assert!(!s.is_known());
    assert_eq!(s.reason_phrase(), "<status code is unknown>");
}

#[test]
fn status_parses_from_reason_phrase() {
    assert_eq!(Status::parse("OK").unwrap(), Status::ok());
    assert_eq!(Status::parse("Not Found").unwrap(), Status::not_found());
    assert_eq!(Status::parse("Internal Server Error").unwrap(), Status::internal_server_error());
    match Status::parse("Teapot") {
        Err(StatusParseError::UnknownStatusCode(s)) => assert_eq!(s, "Teapot"),
        other => panic!("unexpected {other:?}"),
    }
}
