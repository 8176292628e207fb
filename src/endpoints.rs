//! The handlers that answer requests, chosen by exact path. Every response
//! they build declares the media type and the byte length of its own body.

pub mod about;
pub mod api;
pub mod root;

use vstd::prelude::*;

use crate::body::{byte_count, Body, BodyView};
use crate::header::{ContentLength, ContentType, Header};
use crate::request::{RequestError, RequestMessageError};
use crate::request_line::{HttpVersion, HttpVersionEnum};
use crate::response::ResponseMessage;
use crate::response_line::ResponseLine;
use crate::status::Status;
use crate::text::str_eq;

verus! {

/// The handlers, one per served path.
#[derive(Debug, Clone, Copy, PartialEq, Eq, Structural)]
pub enum Route {
    Root,
    Api,
    About,
}

/// The handler that serves `path`, matched exactly.
pub open spec fn route_of(path: Seq<char>) -> Option<Route> {
    if path == "/"@ {
        Some(Route::Root)
    } else if path == "/api"@ {
        Some(Route::Api)
    } else if path == "/about"@ {
        Some(Route::About)
    } else {
        None
    }
}

/// Picks the handler for `path`; an unserved path is reported, not defaulted.
pub fn route(path: &str) -> (r: Result<Route, RequestMessageError>)
    ensures
        route_of(path@) matches Some(h) ==> r == Ok::<Route, RequestMessageError>(h),
        route_of(path@) is None ==> (r matches Err(e) && e@ == RequestError::UnknownRoute(path@)),
{
    if str_eq(path, "/") {
        Ok(Route::Root)
    } else if str_eq(path, "/api") {
        Ok(Route::Api)
    } else if str_eq(path, "/about") {
        Ok(Route::About)
    } else {
        Err(RequestMessageError::UnknownRoute(path.to_owned()))
    }
}

/// The media type that announces a body of this kind.
pub open spec fn content_type_for(b: BodyView) -> ContentType {
    match b {
        BodyView::TextPlain(_) => ContentType::TextPlain,
        BodyView::TextHtml(_) => ContentType::TextHtml,
        BodyView::ApplicationJson(_) => ContentType::ApplicationJson,
    }
}

/// The header of `m` announces its body: its media type and its length in bytes.
pub open spec fn framed(m: &ResponseMessage) -> bool {
    &&& m.header@.content_type == content_type_for(m.body@)
    &&& m.header@.content_length == byte_count(m.body.text()) as u64
}

/// A `HTTP/1.1` response with `status` and `body`; the header keeps the Host
/// and other fields of `header` and announces the body.
pub fn respond(status: Status, header: Header, body: Body) -> (r: ResponseMessage)
    ensures
        r.response_line.http_version == HttpVersion(HttpVersionEnum::V1_1),
        r.response_line.status == status,
        r.header@.host == header@.host,
        r.header@.other == header@.other,
        r.body@ == body@,
        r.body.text() == body.text(),
        framed(&r),
{
    let mut header = header;
    header.content_type = match body.get_type() {
        crate::body::BodyType::TextPlain(_) => ContentType::TextPlain,
        crate::body::BodyType::TextHtml(_) => ContentType::TextHtml,
        crate::body::BodyType::ApplicationJson(_) => ContentType::ApplicationJson,
    };
    header.content_length = ContentLength::new(body.byte_len() as u64);
    let line = ResponseLine::new(HttpVersion::new(HttpVersionEnum::V1_1), status);
    ResponseMessage::new(line, header, body)
}

/// A response with `status` and the empty plain-text body.
pub fn respond_empty(status: Status, header: Header) -> (r: ResponseMessage)
    ensures
        r.response_line.http_version == HttpVersion(HttpVersionEnum::V1_1),
        r.response_line.status == status,
        r.header@.host == header@.host,
        r.header@.other == header@.other,
        r.body@ == BodyView::TextPlain(Seq::empty()),
        r.body.text() == Seq::<char>::empty(),
        framed(&r),
{
    respond(status, header, Body::default())
}

} // verus!
