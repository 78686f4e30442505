//! The closed set of request methods.

use crate::context::Context;
use crate::response::{BodyView, Response, ResponseView};
use crate::components::status::Status;
use crate::utils::text::equal;
use vstd::prelude::*;
use vstd::string::*;

verus! {

/// One of the four supported request verbs.
#[allow(clippy::upper_case_acronyms)]
#[derive(Clone, Copy, Debug, PartialEq, Eq, Structural)]
pub enum Method {
    GET,
    POST,
    PATCH,
    DELETE,
}

/// The message of the failure to read `token` as a method.
pub open spec fn invalid_method_message(token: Seq<char>) -> Seq<char> {
    "invalid request method: `"@ + token + "`"@
}

/// What the token `token` stands for: a method if it is the exact upper-case
/// name of one, a malformed-request failure that names the token otherwise.
pub open spec fn parse_method(token: Seq<char>) -> Result<Method, ResponseView> {
    if token == "GET"@ {
        Ok(Method::GET)
    } else if token == "POST"@ {
        Ok(Method::POST)
    } else if token == "PATCH"@ {
        Ok(Method::PATCH)
    } else if token == "DELETE"@ {
        Ok(Method::DELETE)
    } else {
        Err(
            ResponseView {
                status: Status::BadRequest,
                body: BodyView::Text(invalid_method_message(token)),
            },
        )
    }
}

impl Method {
    /// Position of the method in the fixed order GET, POST, PATCH, DELETE.
    pub open spec fn spec_index(self) -> nat {
        match self {
            Method::GET => 0,
            Method::POST => 1,
            Method::PATCH => 2,
            Method::DELETE => 3,
        }
    }

    /// The upper-case name of the method.
    pub open spec fn name(self) -> Seq<char> {
        match self {
            Method::GET => "GET"@,
            Method::POST => "POST"@,
            Method::PATCH => "PATCH"@,
            Method::DELETE => "DELETE"@,
        }
    }

    /// Reads a method from its exact upper-case name. Any other token is refused
    /// with a `BadRequest` that names it.
    pub fn parse(string: &str) -> (r: Context<Self>)
        ensures
            match parse_method(string@) {
                Ok(method) => r == Ok::<Method, Response>(method),
                Err(failure) => r is Err && r->Err_0@ == failure,
            },
    {
        if equal(string, "GET") {
            Ok(Method::GET)
        } else if equal(string, "POST") {
            Ok(Method::POST)
        } else if equal(string, "PATCH") {
            Ok(Method::PATCH)
        } else if equal(string, "DELETE") {
            Ok(Method::DELETE)
        } else {
            let mut message = String::from_str("invalid request method: `");
            message.append(string);
            message.append("`");
            Err(Response::BadRequest(message.as_str()))
        }
    }

    /// Returns the position of the method in the order GET, POST, PATCH, DELETE.
    pub fn index(&self) -> (i: usize)
        ensures
            i == self.spec_index(),
    {
        match self {
            Method::GET => 0,
            Method::POST => 1,
            Method::PATCH => 2,
            Method::DELETE => 3,
        }
    }

    /// Returns the upper-case name of the method.
    pub fn as_str(&self) -> (r: &'static str)
        ensures
            r@ == self.name(),
    {
        match self {
            Method::GET => "GET",
            Method::POST => "POST",
            Method::PATCH => "PATCH",
            Method::DELETE => "DELETE",
        }
    }

    /// Returns the upper-case name of the method as an owned string.
    pub fn to_string(&self) -> (r: String)
        ensures
            r@ == self.name(),
    {
        String::from_str(self.as_str())
    }
}

} // verus!
