//! What a program that sets up a server needs, in one import.

pub use crate::components::json::JSON;
pub use crate::components::method::Method;
pub use crate::components::status::Status;
pub use crate::context::Context;
pub use crate::request::Request;
pub use crate::response::Response;
pub use crate::server::{Server, ServerSetting};
