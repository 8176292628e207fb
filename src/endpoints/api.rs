//! `/api`: adds the unsigned integers `a` and `b` of a JSON object and
//! answers `{"c": a + b}`.

use vstd::prelude::*;

use crate::body::{json_u64_members, Body, BodyType, BodyView};
use crate::endpoints::{framed, respond, respond_empty};
use crate::header::ContentType;
use crate::request::RequestMessage;
use crate::request_line::{HttpVersion, HttpVersionEnum, RequestType};
use crate::text::digits_of;
use crate::response::ResponseMessage;
use crate::status::{Status, INTERNAL_SERVER_ERROR_CODE, NOT_FOUND_CODE, OK_CODE};

verus! {

/// Relies on `serde_json::Value::get` with a string index, then
/// `serde_json::Value::as_u64`: the member `key` of an object, where it is an
/// unsigned integer that fits in 64 bits.
#[verifier::external_body]
fn json_u64_member(v: &serde_json::Value, key: &str) -> (r: Option<u64>)
    ensures
        r is Some <==> json_u64_members(*v).dom().contains(key@),
        r matches Some(x) ==> x == json_u64_members(*v)[key@],
{
    v.get(key).and_then(serde_json::Value::as_u64)
}

/// Relies on `serde_json::Value`'s `FromIterator<(K, V)>`, which builds the
/// object with the one member `key: n`, and on its `Display`, which writes a
/// value in compact form: here `{"key":n}`, `n` in decimal. The name needs
/// no escaping, being ASCII letters and digits.
#[verifier::external_body]
fn json_object_with_u64(key: &str, n: u64) -> (r: (serde_json::Value, String))
    requires
        forall|k: int| 0 <= k < key@.len() ==> is_ascii_alphanumeric(#[trigger] key@[k]),
    ensures
        json_u64_members(r.0) == map![key@ => n],
        r.1@ == "{\""@ + key@ + "\":"@ + digits_of(n as nat) + "}"@,
{
    let value = serde_json::Value::from_iter([(key, n)]);
    let text = value.to_string();
    (value, text)
}

pub open spec fn is_ascii_alphanumeric(c: char) -> bool {
    ('a' <= c <= 'z') || ('A' <= c <= 'Z') || ('0' <= c <= '9')
}

/// The wire text of the answer `{"c":n}`.
pub open spec fn sum_text(n: u64) -> Seq<char> {
    "{\""@ + "c"@ + "\":"@ + digits_of(n as nat) + "}"@
}

/// The sum that a request asks for, or the status that refuses it. `a` and
/// `b` are the body's members of those names read as `u64`, `None` where
/// absent or of another kind.
pub fn api_sum(
    request_type: RequestType,
    content_type: ContentType,
    body_is_json: bool,
    a: Option<u64>,
    b: Option<u64>,
) -> (r: Result<u64, Status>)
    ensures
        request_type != RequestType::Get ==> r == Err::<u64, Status>(Status(NOT_FOUND_CODE)),
        request_type == RequestType::Get ==> match (a, b) {
            (Some(x), Some(y)) => if content_type == ContentType::ApplicationJson && body_is_json
                && x + y <= u64::MAX {
                r == Ok::<u64, Status>((x + y) as u64)
            } else {
                r == Err::<u64, Status>(Status(INTERNAL_SERVER_ERROR_CODE))
            },
            _ => r == Err::<u64, Status>(Status(INTERNAL_SERVER_ERROR_CODE)),
        },
{
    if request_type != RequestType::Get {
        return Err(Status::not_found());
    }
    if content_type != ContentType::ApplicationJson || !body_is_json {
        return Err(Status::internal_server_error());
    }
    match (a, b) {
        (Some(x), Some(y)) => match x.checked_add(y) {
            Some(c) => Ok(c),
            None => Err(Status::internal_server_error()),
        },
        _ => Err(Status::internal_server_error()),
    }
}

/// Answers a `GET` whose JSON body has unsigned integer members `a` and `b`
/// with 200 and the JSON object `{"c":a+b}`; a request of another method
/// gets 404, and one that is not such JSON, or whose sum overflows, gets 500;
/// both with an empty body.
pub fn handle(request_message: RequestMessage) -> (r: ResponseMessage)
    ensures
        r.response_line.http_version == HttpVersion(HttpVersionEnum::V1_1),
        request_message.request_line.request_type != RequestType::Get ==> r.response_line.status.0
            == NOT_FOUND_CODE && r.body@ == BodyView::TextPlain(Seq::empty()),
        request_message.request_line.request_type == RequestType::Get ==> match (
            request_message.header@.content_type,
            request_message.body@,
        ) {
            (ContentType::ApplicationJson, BodyView::ApplicationJson(m)) => if m.dom().contains(
                "a"@,
            ) && m.dom().contains("b"@) && m["a"@] + m["b"@] <= u64::MAX {
                &&& r.response_line.status.0 == OK_CODE
                &&& r.body@ == BodyView::ApplicationJson(
                    map!["c"@ => (m["a"@] + m["b"@]) as u64],
                )
                &&& r.body.text() == sum_text((m["a"@] + m["b"@]) as u64)
            } else {
                r.response_line.status.0 == INTERNAL_SERVER_ERROR_CODE && r.body@
                    == BodyView::TextPlain(Seq::empty())
            },
            _ => r.response_line.status.0 == INTERNAL_SERVER_ERROR_CODE && r.body@
                == BodyView::TextPlain(Seq::empty()),
        },
        r.header@.host == request_message.header@.host,
        framed(&r),
{
    let request_type = request_message.request_line.request_type;
    let content_type = request_message.header.content_type;
    let (body_is_json, a, b) = match request_message.body.get_type() {
        BodyType::ApplicationJson(v) => (true, json_u64_member(v, "a"), json_u64_member(v, "b")),
        _ => (false, None, None),
    };
    match api_sum(request_type, content_type, body_is_json, a, b) {
        Err(status) => respond_empty(status, request_message.header),
        Ok(c) => {
            proof {
                reveal_strlit("c");
            }
            let (value, text) = json_object_with_u64("c", c);
            let reply = Body::json_with_text(value, text);
            respond(Status::ok(), request_message.header, reply)
        },
    }
}

} // verus!
