//! `/`: a fixed greeting.

use vstd::prelude::*;

use crate::body::{Body, BodyType, BodyView};
use crate::endpoints::{framed, respond, respond_empty};
use crate::request::RequestMessage;
use crate::request_line::{HttpVersion, HttpVersionEnum, RequestType};
use crate::response::ResponseMessage;
use crate::status::{Status, NOT_FOUND_CODE, OK_CODE};

verus! {

/// The greeting that `GET /` answers with.
pub open spec fn greeting() -> Seq<char> {
    "Hello from root endpoint!"@
}

/// Answers `GET` with the greeting as plain text, any other method with 404
/// and an empty body.
pub fn handle(request_message: RequestMessage) -> (r: ResponseMessage)
    ensures
        r.response_line.http_version == HttpVersion(HttpVersionEnum::V1_1),
        request_message.request_line.request_type == RequestType::Get ==> r.response_line.status.0
            == OK_CODE && r.body@ == BodyView::TextPlain(greeting()),
        request_message.request_line.request_type != RequestType::Get ==> r.response_line.status.0
            == NOT_FOUND_CODE && r.body@ == BodyView::TextPlain(Seq::empty()),
        r.header@.host == request_message.header@.host,
        framed(&r),
{
    if request_message.request_line.request_type != RequestType::Get {
        return respond_empty(Status::not_found(), request_message.header);
    }
    let body = Body::new(BodyType::TextPlain("Hello from root endpoint!".to_owned()));
    respond(Status::ok(), request_message.header, body)
}

} // verus!
