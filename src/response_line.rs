//! The response line: `VERSION SP CODE SP REASON`.

use vstd::prelude::*;

use crate::request_line::{version_text, HttpVersion};
use crate::status::{reason_of, Status};
use crate::text::{decimal, digits_of};

verus! {

#[derive(Debug)]
pub struct ResponseLine {
    pub http_version: HttpVersion,
    pub status: Status,
}

/// The response line as written, without its line ending.
pub open spec fn response_line_text(l: &ResponseLine) -> Seq<char> {
    version_text(l.http_version.0) + " "@ + digits_of(l.status.0 as nat) + " "@ + reason_of(
        l.status.0,
    )
}

impl ResponseLine {
    pub fn new(http_version: HttpVersion, status: Status) -> (r: ResponseLine)
        ensures
            r.http_version == http_version,
            r.status == status,
    {
        ResponseLine { http_version, status }
    }

    pub fn to_text(&self) -> (r: String)
        ensures
            r@ == response_line_text(self),
    {
        let mut r = self.http_version.to_text();
        r.append(" ");
        r.append(decimal(self.status.status_code()).as_str());
        r.append(" ");
        r.append(self.status.reason_phrase());
        r
    }
}

} // verus!
