//! The response side: a response line, a header block and a body, written
//! out in wire form.

use vstd::prelude::*;

use crate::body::Body;
use crate::header::{header_text, Header};
use crate::response_line::{response_line_text, ResponseLine};

verus! {

#[derive(Debug)]
pub struct ResponseMessage {
    pub response_line: ResponseLine,
    pub header: Header,
    pub body: Body,
}

/// The wire form: response line, CRLF, header block, an empty line, then
/// the body text with nothing after it.
pub open spec fn response_text(m: &ResponseMessage) -> Seq<char> {
    response_line_text(&m.response_line) + "\r\n"@ + header_text(&m.header) + "\r\n\r\n"@
        + m.body.text()
}

impl ResponseMessage {
    pub fn new(response_line: ResponseLine, header: Header, body: Body) -> (r: ResponseMessage)
        ensures
            r.response_line == response_line,
            r.header@ == header@,
            r.header.other_headers.fields() == header.other_headers.fields(),
            r.header.host@ == header.host@,
            r.body@ == body@,
            r.body.text() == body.text(),
    {
        ResponseMessage { response_line, header, body }
    }

    /// The message in wire form.
    pub fn to_text(&self) -> (r: String)
        ensures
            r@ == response_text(self),
    {
        let mut r = self.response_line.to_text();
        r.append("\r\n");
        r.append(self.header.to_text().as_str());
        r.append("\r\n\r\n");
        r.append(self.body.to_text().as_str());
        r
    }
}

} // verus!
