//! `/about`: a static HTML page, read by the caller.

use vstd::prelude::*;

use crate::body::{Body, BodyType, BodyView};
use crate::endpoints::{framed, respond, respond_empty};
use crate::request::RequestMessage;
use crate::request_line::{HttpVersion, HttpVersionEnum, RequestType};
use crate::response::ResponseMessage;
use crate::status::{Status, INTERNAL_SERVER_ERROR_CODE, NOT_FOUND_CODE, OK_CODE};

verus! {

/// Answers `GET` with `page` as HTML, or 500 with an empty body where the page
/// could not be read (`None`); any other method gets 404 with an empty body.
pub fn handle(request_message: RequestMessage, page: Option<String>) -> (r: ResponseMessage)
    ensures
        r.response_line.http_version == HttpVersion(HttpVersionEnum::V1_1),
        request_message.request_line.request_type != RequestType::Get ==> r.response_line.status.0
            == NOT_FOUND_CODE && r.body@ == BodyView::TextPlain(Seq::empty()),
        request_message.request_line.request_type == RequestType::Get ==> match page {
            Some(p) => r.response_line.status.0 == OK_CODE && r.body@ == BodyView::TextHtml(p@),
            None => r.response_line.status.0 == INTERNAL_SERVER_ERROR_CODE && r.body@
                == BodyView::TextPlain(Seq::empty()),
        },
        r.header@.host == request_message.header@.host,
        framed(&r),
{
    if request_message.request_line.request_type != RequestType::Get {
        return respond_empty(Status::not_found(), request_message.header);
    }
    match page {
        None => respond_empty(Status::internal_server_error(), request_message.header),
        Some(contents) => respond(
            Status::ok(),
            request_message.header,
            Body::new(BodyType::TextHtml(contents)),
        ),
    }
}

} // verus!
