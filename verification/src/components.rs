//! Small building blocks shared by requests, responses and the server.

pub mod consts;
pub mod json;
pub mod method;
pub mod status;
