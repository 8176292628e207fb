use mini_http::body::{Body, BodyType, ParseError};
use mini_http::header::ContentType;

#[test]
fn plain_text_round_trips() {
    for s in ["", "hello", "héllo wörld ✓ 🎉", "line1\r\nline2"] {
        let body = Body::parse(s.as_bytes().to_vec(), &ContentType::TextPlain).unwrap();
        match body.get_type() {
            BodyType::TextPlain(t) => assert_eq!(t, s),
            other => panic!("unexpected {other:?}"),
        }
        assert_eq!(body.to_text(), s);
        assert_eq!(body.byte_len(), s.len());
    }
}

#[test]
fn html_is_tagged_as_html() {
    let body = Body::parse(b"<p>hi</p>".to_vec(), &ContentType::TextHtml).unwrap();
    assert!(matches!(body.get_type(), BodyType::TextHtml(t) if t == "<p>hi</p>"));
}

#[test]
fn json_is_parsed_to_a_value() {
    let body = Body::parse(br#"{"a":1,"b":2}"#.to_vec(), &ContentType::ApplicationJson).unwrap();
    match body.get_type() {
        BodyType::ApplicationJson(v) => {
            assert_eq!(v.get("a").and_then(|x| x.as_u64()), Some(1));
            assert_eq!(v.get("b").and_then(|x| x.as_u64()), Some(2));
        }
        other => panic!("unexpected {other:?}"),
    }
    assert_eq!(body.to_text(), r#"{"a":1,"b":2}"#);
}

#[test]
fn json_value_round_trips() {
    let texts = [r#"{"x":[1,2,{"y":null}],"z":"s"}"#, "true", "[]", "-3.5", r#""q""#];
    for t in texts {
        let v: serde_json::Value = serde_json::from_str(t).unwrap();
        let body = Body::parse(v.to_string().into_bytes(), &ContentType::ApplicationJson).unwrap();
        let again: serde_json::Value = serde_json::from_str(&body.to_text()).unwrap();
        assert_eq!(again, v);
    }
}

#[test]
fn invalid_bytes_are_rejected() {
    assert!(matches!(
        Body::parse(vec![0xff, 0xfe], &ContentType::TextPlain),
        Err(ParseError::InvalidBytes)
    ));
    assert!(matches!(
        Body::parse(vec![0xc3], &ContentType::ApplicationJson),
        Err(ParseError::InvalidBytes)
    ));
}

#[test]
fn invalid_json_is_rejected() {
    assert!(matches!(
        Body::parse(b"{\"a\":".to_vec(), &ContentType::ApplicationJson),
        Err(ParseError::InvalidJson(_))
    ));
    assert!(matches!(
        Body::parse(b"1 2".to_vec(), &ContentType::ApplicationJson),
        Err(ParseError::InvalidJson(_))
    ));
}

#[test]
fn default_body_is_empty_plain_text() {
    let body = Body::default();
    assert!(matches!(body.get_type(), BodyType::TextPlain(t) if t.is_empty()));
    assert_eq!(body.to_text(), "");
    let made = Body::new(BodyType::TextPlain("x".to_owned()));
    assert_eq!(made.to_text(), "x");
}

#[test]
fn default_body_type_is_empty_plain_text() {
    assert!(matches!(BodyType::default(), BodyType::TextPlain(t) if t.is_empty()));
}
