//! Response status codes and their reason phrases.

use vstd::prelude::*;

use crate::text::str_eq;

verus! {

pub const OK_CODE: u64 = 200;

pub const NOT_FOUND_CODE: u64 = 404;

pub const INTERNAL_SERVER_ERROR_CODE: u64 = 500;

/// A response status code. Any number can be held; three of them have a
/// canonical reason phrase.
#[derive(Debug, Clone, Copy, PartialEq, Eq, Structural)]
pub struct Status(pub u64);

#[derive(Debug)]
pub enum ParseError {
    /// No status has this reason phrase.
    UnknownStatusCode(String),
}

/// The reason phrase written after `code` on a response line.
pub open spec fn reason_of(code: u64) -> Seq<char> {
    if code == OK_CODE {
        "OK"@
    } else if code == NOT_FOUND_CODE {
        "Not Found"@
    } else if code == INTERNAL_SERVER_ERROR_CODE {
        "Internal Server Error"@
    } else {
        "<status code is unknown>"@
    }
}

/// The status whose canonical reason phrase is `name`, if any.
pub open spec fn status_named(name: Seq<char>) -> Option<u64> {
    if name == "OK"@ {
        Some(OK_CODE)
    } else if name == "Not Found"@ {
        Some(NOT_FOUND_CODE)
    } else if name == "Internal Server Error"@ {
        Some(INTERNAL_SERVER_ERROR_CODE)
    } else {
        None
    }
}

impl Status {
    pub fn new(status_code: u64) -> (r: Status)
        ensures
            r.0 == status_code,
    {
        Status(status_code)
    }

    pub fn ok() -> (r: Status)
        ensures
            r.0 == OK_CODE,
    {
        Status(OK_CODE)
    }

    pub fn not_found() -> (r: Status)
        ensures
            r.0 == NOT_FOUND_CODE,
    {
        Status(NOT_FOUND_CODE)
    }

    pub fn internal_server_error() -> (r: Status)
        ensures
            r.0 == INTERNAL_SERVER_ERROR_CODE,
    {
        Status(INTERNAL_SERVER_ERROR_CODE)
    }

    pub fn status_code(&self) -> (r: u64)
        ensures
            r == self.0,
    {
        self.0
    }

    /// Whether this status has a canonical reason phrase.
    pub fn is_known(&self) -> (r: bool)
        ensures
            r == (self.0 == OK_CODE || self.0 == NOT_FOUND_CODE || self.0
                == INTERNAL_SERVER_ERROR_CODE),
    {
        self.0 == OK_CODE || self.0 == NOT_FOUND_CODE || self.0 == INTERNAL_SERVER_ERROR_CODE
    }

    /// The reason phrase of this status, or a marker for a code without one.
    pub fn reason_phrase(&self) -> (r: &'static str)
        ensures
            r@ == reason_of(self.0),
    {
        if self.0 == OK_CODE {
            "OK"
        } else if self.0 == NOT_FOUND_CODE {
            "Not Found"
        } else if self.0 == INTERNAL_SERVER_ERROR_CODE {
            "Internal Server Error"
        } else {
            "<status code is unknown>"
        }
    }

    /// The status whose canonical reason phrase is `name`.
    pub fn parse(name: &str) -> (r: Result<Status, ParseError>)
        ensures
            r matches Ok(st) ==> status_named(name@) == Some(st.0),
            r matches Err(ParseError::UnknownStatusCode(n)) ==> status_named(name@) is None
                && n@ == name@,
    {
        if str_eq(name, "OK") {
            Ok(Status(OK_CODE))
        } else if str_eq(name, "Not Found") {
            Ok(Status(NOT_FOUND_CODE))
        } else if str_eq(name, "Internal Server Error") {
            Ok(Status(INTERNAL_SERVER_ERROR_CODE))
        } else {
            Err(ParseError::UnknownStatusCode(name.to_owned()))
        }
    }
}

/// Every canonical reason phrase names back the status that carries it.
pub proof fn lemma_reason_round_trip(code: u64)
    requires
        code == OK_CODE || code == NOT_FOUND_CODE || code == INTERNAL_SERVER_ERROR_CODE,
    ensures
        status_named(reason_of(code)) == Some(code),
{
    reveal_strlit("OK");
    reveal_strlit("Not Found");
    reveal_strlit("Internal Server Error");
    assert("OK"@.len() == 2);
    assert("Not Found"@.len() == 9);
    assert("Internal Server Error"@.len() == 21);
}

} // verus!
