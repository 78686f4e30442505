//! The closed set of response statuses.

use vstd::prelude::*;

verus! {

/// The status of a response. `SetUpError` stops the server before it starts and
/// has no place on the wire.
#[derive(Clone, Copy, Debug, PartialEq, Eq, Structural)]
pub enum Status {
    OK,
    BadRequest,
    NotFound,
    InternalServerError,
    NotImplemented,
    SetUpError,
}

impl Status {
    /// Code and reason as they stand in a status line; none for `SetUpError`.
    pub open spec fn spec_response_format(self) -> Option<Seq<char>> {
        match self {
            Status::OK => Some("200 OK"@),
            Status::BadRequest => Some("400 Bad Request"@),
            Status::NotFound => Some("404 Not Found"@),
            Status::InternalServerError => Some("500 Internal Server Error"@),
            Status::NotImplemented => Some("501 Not Implemented"@),
            Status::SetUpError => None,
        }
    }

    /// The media type of the body that a response with this status carries.
    pub open spec fn spec_content_type(self) -> Seq<char> {
        match self {
            Status::OK => "application/json"@,
            _ => "text/plain"@,
        }
    }

    /// Returns code and reason as they stand in a status line, and `None` for
    /// `SetUpError`, which is never written to a connection.
    pub fn response_format(&self) -> (r: Option<&'static str>)
        ensures
            match self.spec_response_format() {
                Some(line) => r is Some && r->Some_0@ == line,
                None => r is None,
            },
    {
        match self {
            Status::OK => Some("200 OK"),
            Status::BadRequest => Some("400 Bad Request"),
            Status::NotFound => Some("404 Not Found"),
            Status::InternalServerError => Some("500 Internal Server Error"),
            Status::NotImplemented => Some("501 Not Implemented"),
            Status::SetUpError => None,
        }
    }

    /// Returns the media type of the body: JSON for `OK`, plain text for the rest.
    pub fn content_type(&self) -> (r: &'static str)
        ensures
            r@ == self.spec_content_type(),
    {
        match self {
            Status::OK => "application/json",
            _ => "text/plain",
        }
    }
}

} // verus!
