use vstd::prelude::*;

use crate::request::{Request, RequestView};
use crate::response::{Response, ResponseView, StatusCode};

verus! {

/// A request with a response set, in place of any that was there.
pub open spec fn with_response<S>(req: RequestView<S>, res: ResponseView) -> RequestView<S> {
    RequestView { res: Some(res), ..req }
}

/// The bytes of a text, as it is written into a body.
pub open spec fn text_bytes(text: Seq<char>) -> Seq<u8> {
    vstd::utf8::encode_utf8(text)
}

/// The response that is nothing but a status.
pub open spec fn status_only(status: u16) -> ResponseView {
    ResponseView { status, ..ResponseView::empty() }
}

/// The response 200 with a body.
pub open spec fn body_only(body: Seq<u8>) -> ResponseView {
    ResponseView { body, ..ResponseView::empty() }
}

/// The response with a status and a body, and no headers.
pub open spec fn status_and_body(status: u16, body: Seq<u8>) -> ResponseView {
    ResponseView { status, body, ..ResponseView::empty() }
}

impl From<StatusCode> for Response {
    fn from(status: StatusCode) -> (res: Response)
        ensures
            res@ == status_only(status.number()),
    {
        Response::new().with_status(status)
    }
}

impl vstd::std_specs::convert::FromSpecImpl<StatusCode> for Response {
    open spec fn obeys_from_spec() -> bool {
        false
    }

    open spec fn from_spec(status: StatusCode) -> Response {
        arbitrary()
    }
}

impl From<Vec<u8>> for Response {
    fn from(body: Vec<u8>) -> (res: Response)
        ensures
            res@ == body_only(body@),
    {
        Response::new().with_body(body)
    }
}

impl vstd::std_specs::convert::FromSpecImpl<Vec<u8>> for Response {
    open spec fn obeys_from_spec() -> bool {
        false
    }

    open spec fn from_spec(body: Vec<u8>) -> Response {
        arbitrary()
    }
}

impl From<String> for Response {
    fn from(text: String) -> (res: Response)
        ensures
            res@ == body_only(text_bytes(text@)),
    {
        Response::new().with_body(text.as_str().as_bytes_vec())
    }
}

impl vstd::std_specs::convert::FromSpecImpl<String> for Response {
    open spec fn obeys_from_spec() -> bool {
        false
    }

    open spec fn from_spec(text: String) -> Response {
        arbitrary()
    }
}

impl From<&'static str> for Response {
    fn from(text: &'static str) -> (res: Response)
        ensures
            res@ == body_only(text_bytes(text@)),
    {
        Response::new().with_body(text.as_bytes_vec())
    }
}

impl vstd::std_specs::convert::FromSpecImpl<&'static str> for Response {
    open spec fn obeys_from_spec() -> bool {
        false
    }

    open spec fn from_spec(text: &'static str) -> Response {
        arbitrary()
    }
}

impl From<(StatusCode, Vec<u8>)> for Response {
    fn from(parts: (StatusCode, Vec<u8>)) -> (res: Response)
        ensures
            res@ == status_and_body(parts.0.number(), parts.1@),
    {
        Response::new().with_status(parts.0).with_body(parts.1)
    }
}

impl vstd::std_specs::convert::FromSpecImpl<(StatusCode, Vec<u8>)> for Response {
    open spec fn obeys_from_spec() -> bool {
        false
    }

    open spec fn from_spec(parts: (StatusCode, Vec<u8>)) -> Response {
        arbitrary()
    }
}

impl From<(StatusCode, String)> for Response {
    fn from(parts: (StatusCode, String)) -> (res: Response)
        ensures
            res@ == status_and_body(parts.0.number(), text_bytes(parts.1@)),
    {
        Response::new().with_status(parts.0).with_body(parts.1.as_str().as_bytes_vec())
    }
}

impl vstd::std_specs::convert::FromSpecImpl<(StatusCode, String)> for Response {
    open spec fn obeys_from_spec() -> bool {
        false
    }

    open spec fn from_spec(parts: (StatusCode, String)) -> Response {
        arbitrary()
    }
}

/// What an endpoint may return: a value that knows how to answer a request.
pub trait Responder<S>: Sized {
    /// Whether `after` is the request once this value has answered `before`.
    /// Where an implementation does not say, anything may be.
    open spec fn answers(self, before: RequestView<S>, after: RequestView<S>) -> bool {
        true
    }

    fn respond_to(self, req: &mut Request<S>)
        ensures
            self.answers(old(req)@, final(req)@),
    ;
}

/// Nothing to answer with: the request stays as the endpoint left it.
impl<S> Responder<S> for () {
    open spec fn answers(self, before: RequestView<S>, after: RequestView<S>) -> bool {
        after == before
    }

    fn respond_to(self, req: &mut Request<S>) {
    }
}

impl<S> Responder<S> for Response {
    open spec fn answers(self, before: RequestView<S>, after: RequestView<S>) -> bool {
        after == with_response(before, self@)
    }

    fn respond_to(self, req: &mut Request<S>) {
        req.set_res(self);
    }
}

impl<S> Responder<S> for StatusCode {
    open spec fn answers(self, before: RequestView<S>, after: RequestView<S>) -> bool {
        after == with_response(before, status_only(self.number()))
    }

    fn respond_to(self, req: &mut Request<S>) {
        req.set_res(Response::from(self));
    }
}

impl<S> Responder<S> for Vec<u8> {
    open spec fn answers(self, before: RequestView<S>, after: RequestView<S>) -> bool {
        after == with_response(before, body_only(self@))
    }

    fn respond_to(self, req: &mut Request<S>) {
        req.set_res(Response::from(self));
    }
}

impl<S> Responder<S> for String {
    open spec fn answers(self, before: RequestView<S>, after: RequestView<S>) -> bool {
        after == with_response(before, body_only(text_bytes(self@)))
    }

    fn respond_to(self, req: &mut Request<S>) {
        req.set_res(Response::from(self));
    }
}

impl<S> Responder<S> for &'static str {
    open spec fn answers(self, before: RequestView<S>, after: RequestView<S>) -> bool {
        after == with_response(before, body_only(text_bytes(self@)))
    }

    fn respond_to(self, req: &mut Request<S>) {
        req.set_res(Response::from(self));
    }
}

impl<S> Responder<S> for (StatusCode, Vec<u8>) {
    open spec fn answers(self, before: RequestView<S>, after: RequestView<S>) -> bool {
        after == with_response(before, status_and_body(self.0.number(), self.1@))
    }

    fn respond_to(self, req: &mut Request<S>) {
        req.set_res(Response::from(self));
    }
}

impl<S> Responder<S> for (StatusCode, String) {
    open spec fn answers(self, before: RequestView<S>, after: RequestView<S>) -> bool {
        after == with_response(before, status_and_body(self.0.number(), text_bytes(self.1@)))
    }

    fn respond_to(self, req: &mut Request<S>) {
        req.set_res(Response::from(self));
    }
}

/// Success or failure, each with its own answer.
impl<S, T: Responder<S>, E: Responder<S>> Responder<S> for Result<T, E> {
    open spec fn answers(self, before: RequestView<S>, after: RequestView<S>) -> bool {
        match self {
            Ok(value) => value.answers(before, after),
            Err(error) => error.answers(before, after),
        }
    }

    fn respond_to(self, req: &mut Request<S>) {
        match self {
            Ok(value) => value.respond_to(req),
            Err(error) => error.respond_to(req),
        }
    }
}

} // verus!
