//! The one channel for success and failure.

use crate::response::Response;
use vstd::prelude::*;

verus! {

/// Either a value or the response that ends the request. A failure is a
/// response: raising an error and answering are the same thing.
pub type Context<T> = Result<T, Response>;

} // verus!
