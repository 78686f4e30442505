//! What a handler is given.

use crate::components::json::JSON;
use crate::components::status::Status;
use crate::context::Context;
use crate::response::{BodyView, Response, ResponseView};
use vstd::prelude::*;

verus! {

/// A request as a handler sees it: the value of the path parameter, where the
/// matched route has one, and the body, where the request has one.
pub struct Request<'param> {
    pub param: Option<&'param str>,
    pub body: Option<JSON>,
}

/// What a request holds.
pub struct RequestView {
    pub param: Option<Seq<char>>,
    pub body: Option<Seq<char>>,
}

impl<'param> View for Request<'param> {
    type V = RequestView;

    open spec fn view(&self) -> RequestView {
        RequestView {
            param: match self.param {
                Some(param) => Some(param@),
                None => None,
            },
            body: match self.body {
                Some(body) => Some(body@),
                None => None,
            },
        }
    }
}

/// The failure of a handler that needs a body where the request has none.
pub open spec fn missing_body() -> ResponseView {
    ResponseView { status: Status::BadRequest, body: BodyView::Text("expected request body"@) }
}

impl<'param> Request<'param> {
    /// Returns the body in its encoded form, or fails with `BadRequest` where
    /// the request has none.
    pub fn get_body(&self) -> (r: Context<&JSON>)
        ensures
            match self.body {
                Some(body) => r is Ok && *r->Ok_0 == body,
                None => r is Err && r->Err_0@ == missing_body(),
            },
    {
        match &self.body {
            Some(body) => Ok(body),
            None => Err(Response::BadRequest("expected request body")),
        }
    }
}

} // verus!
