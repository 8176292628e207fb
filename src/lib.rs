//! A small HTTP/1.1 message engine: request-line, header and body codecs,
//! a line-oriented request assembler and a response serializer.

pub mod body;
pub mod endpoints;
pub mod header;
pub mod raw_headers;
pub mod request;
pub mod request_line;
pub mod response;
pub mod response_line;
pub mod status;
pub mod text;

use vstd::prelude::*;

verus! {

/// The view of a `Result`, taken on whichever side it holds.
pub open spec fn view_of_result<T: View, E: View>(r: Result<T, E>) -> Result<T::V, E::V> {
    match r {
        Ok(t) => Ok(t@),
        Err(e) => Err(e@),
    }
}

} // verus!
