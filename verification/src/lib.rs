//! A small framework for HTTP servers: handlers that are composed into a
//! pipeline, and a router that is one of them.
//!
//! A [`Handler`] is given a request and the rest of the pipeline as a
//! [`Next`]. It may answer the request, change it, hand it on and work on
//! what comes back. Pairs and lists of handlers are handlers: the first
//! handler is the outermost. A [`router::Router`] hands the request to the
//! handler of the route that matches its method and path, and on to the rest
//! of the pipeline where none matches.
//!
//! What a handler does is stated as a relation between the request that it
//! is given and the request that comes back, for any relation that says what
//! the rest of the pipeline does ([`Handler::handles`]). The laws of the
//! composition are proved in [`onion`], for traces in [`trace`].

pub mod compose;
pub mod endpoint;
pub mod error;
pub mod file;
pub mod handler;
pub mod logger;
pub mod method;
pub mod onion;
pub mod path;
pub mod pattern;
pub mod request;
pub mod respond;
pub mod responder;
pub mod response;
pub mod router;
pub mod server;
pub mod state;
pub mod trace;

pub use endpoint::endpoint;
pub use handler::{Handler, Next};
pub use method::Method;
pub use request::Request;
pub use response::{Response, StatusCode};
