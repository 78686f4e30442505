//! A minimal HTTP/1.1 request server core: route registration with conflict
//! detection, wire parsing, dispatch and response serialization.

pub mod components;
pub mod context;
pub mod prelude;
pub mod request;
pub mod response;
pub mod route;
pub mod server;
pub mod utils;
