use vstd::prelude::*;

use crate::request::{Request, RequestView};

verus! {

/// An error together with the request that it came of, so that a handler
/// further out can still read the request and answer it.
#[derive(Debug)]
pub struct RequestError<S, E> {
    inner: E,
    req: Request<S>,
}

impl<S, E> RequestError<S, E> {
    /// The error, as a mathematical value.
    pub closed spec fn cause(self) -> E {
        self.inner
    }

    /// The request, as a mathematical value.
    pub closed spec fn request(self) -> RequestView<S> {
        self.req@
    }

    pub fn new(req: Request<S>, e: E) -> (error: RequestError<S, E>)
        ensures
            error.cause() == e,
            error.request() == req@,
    {
        RequestError { inner: e, req }
    }

    pub fn error(&self) -> (e: &E)
        ensures
            *e == self.cause(),
    {
        &self.inner
    }

    pub fn req(&self) -> (req: &Request<S>)
        ensures
            req@ == self.request(),
    {
        &self.req
    }

    pub fn into_parts(self) -> (parts: (E, Request<S>))
        ensures
            parts.0 == self.cause(),
            parts.1@ == self.request(),
    {
        (self.inner, self.req)
    }
}

} // verus!
