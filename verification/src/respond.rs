use vstd::prelude::*;

use crate::request::{Request, RequestView};
use crate::responder::with_response;
use crate::response::{Response, ResponseView, StatusCode};

verus! {

/// The response of a request, or the empty response where it has none.
pub open spec fn response_of<S>(req: RequestView<S>) -> ResponseView {
    match req.res {
        Some(res) => res,
        None => ResponseView::empty(),
    }
}

/// The response of a request on its way to completion: each method changes
/// one part of it and hands the builder back.
pub struct Respond<'a, S>(pub &'a mut Request<S>);

impl<'a, S> Respond<'a, S> {
    /// Sets the status of the response.
    pub fn status(self, status: StatusCode) -> (respond: Self)
        ensures
            *final(respond.0) == *final(self.0),
            respond.0@ == with_response(
                old(self.0)@,
                ResponseView { status: status.number(), ..response_of(old(self.0)@) },
            ),
    {
        let Respond(req) = self;
        let res = match req.take_res() {
            Some(res) => res,
            None => Response::new(),
        };
        req.set_res(res.with_status(status));
        Respond(req)
    }

    /// Adds a header to the response.
    pub fn header(self, name: String, value: String) -> (respond: Self)
        ensures
            *final(respond.0) == *final(self.0),
            respond.0@ == with_response(
                old(self.0)@,
                ResponseView {
                    headers: response_of(old(self.0)@).headers.push((name@, value@)),
                    ..response_of(old(self.0)@)
                },
            ),
    {
        let Respond(req) = self;
        let res = match req.take_res() {
            Some(res) => res,
            None => Response::new(),
        };
        req.set_res(res.with_header(name, value));
        Respond(req)
    }

    /// Sets the body of the response.
    pub fn body(self, body: Vec<u8>) -> (respond: Self)
        ensures
            *final(respond.0) == *final(self.0),
            respond.0@ == with_response(
                old(self.0)@,
                ResponseView { body: body@, ..response_of(old(self.0)@) },
            ),
    {
        let Respond(req) = self;
        let res = match req.take_res() {
            Some(res) => res,
            None => Response::new(),
        };
        req.set_res(res.with_body(body));
        Respond(req)
    }
}

/// Answering a request in place.
pub trait RespondRequestExt<S> {
    /// What the request is, as a mathematical value.
    spec fn request(&self) -> RequestView<S>;

    /// Answers with 200 and nothing else, and hands back a builder for more.
    fn ok(&mut self) -> (respond: Respond<'_, S>)
        ensures
            final(respond.0)@ == final(self).request(),
            respond.0@ == with_response(old(self).request(), ResponseView::empty()),
    ;

    /// Answers with the response that `res` makes and hands back a builder
    /// for more.
    fn respond<R>(&mut self, res: R) -> (respond: Respond<'_, S>) where Response: From<R>
        ensures
            final(respond.0)@ == final(self).request(),
            exists|made: Response| #[trigger]
                call_ensures(<Response as From<R>>::from, (res,), made) && respond.0@ == with_response(
                    old(self).request(),
                    made@,
                ),
    ;
}

impl<S> RespondRequestExt<S> for Request<S> {
    open spec fn request(&self) -> RequestView<S> {
        self@
    }

    fn ok(&mut self) -> (respond: Respond<'_, S>) {
        self.set_res(Response::ok());
        Respond(self)
    }

    fn respond<R>(&mut self, res: R) -> (respond: Respond<'_, S>) where Response: From<R> {
        let made = Response::from(res);
        self.set_res(made);
        Respond(self)
    }
}

} // verus!
