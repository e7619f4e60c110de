//! A small embeddable HTTP server core: a route table matched by method and
//! path pattern, a request parser that turns raw connection bytes into a
//! dispatch decision, and an encoder that turns a typed response into the
//! bytes written back on the connection.
//!
//! Socket handling, the accept loop and the shared-state lock live with the
//! caller; everything that decides what to answer is here.
use vstd::prelude::*;

pub mod laws;
pub mod method;
pub mod params;
pub mod query;
pub mod request;
pub mod response;
pub mod router;
pub mod service;
pub mod text;

pub use method::{Method, WebError};
pub use params::ParamMap;
pub use response::Response;
pub use router::CallbackPathManager;
pub use service::{Dispatch, WebService};
