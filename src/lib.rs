//! A small HTTP/1.1 server core: a request decoder, a response encoder,
//! a path router and the per-connection read/dispatch/write state machine.
pub mod connection;
pub mod errors;
pub mod request;
pub mod response;
pub mod router;
pub mod text;

pub use connection::{start, step, Action, Event, Phase};
pub use errors::HttpError;
pub use request::{Method, Request};
pub use response::{Header, Protocol, Response, StatusCode};
pub use router::{created, file_response, get, post, route, Dispatch};
