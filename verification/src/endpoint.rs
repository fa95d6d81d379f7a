use core::marker::PhantomData;
use vstd::prelude::*;

use crate::handler::{Handler, Next, Relation};
use crate::request::{Request, RequestView};
use crate::responder::Responder;

verus! {

/// Whether `out` may come of `req` when a function works on the request and
/// what the function returns beside it then answers it.
pub open spec fn may_answer<S, R: Responder<S>, F: Fn(Request<S>) -> (Request<S>, R)>(
    f: F,
    req: RequestView<S>,
    out: RequestView<S>,
) -> bool {
    exists|r: Request<S>, worked: (Request<S>, R)|
        r@ == req && #[trigger] call_ensures(f, (r,), worked) && worked.1.answers(worked.0@, out)
}

/// A handler made of a function that works on the request and returns it
/// with what to answer with. It ends the pipeline: the continuation is never
/// called.
#[verifier::reject_recursive_types(S)]
#[verifier::reject_recursive_types(R)]
pub struct Endpoint<S, R: Responder<S>, F: Fn(Request<S>) -> (Request<S>, R)> {
    f: F,
    state: PhantomData<(S, R)>,
}

impl<S, R: Responder<S>, F: Fn(Request<S>) -> (Request<S>, R)> Endpoint<S, R, F> {
    #[verifier::type_invariant]
    spec fn total(self) -> bool {
        forall|r: Request<S>| #[trigger] call_requires(self.f, (r,))
    }

    /// The function that this handler calls.
    pub closed spec fn function(self) -> F {
        self.f
    }
}

/// Makes a handler of a function that works on the request and returns it
/// with what to answer with.
pub fn endpoint<S, R: Responder<S>, F: Fn(Request<S>) -> (Request<S>, R)>(f: F) -> (handler: Endpoint<S, R, F>)
    requires
        forall|r: Request<S>| #[trigger] call_requires(f, (r,)),
    ensures
        handler.function() == f,
        forall|req: RequestView<S>, next: Relation<S>, out: RequestView<S>| #[trigger]
            handler.handles(req, next, out) == may_answer(f, req, out),
{
    Endpoint { f, state: PhantomData }
}

impl<S, R: Responder<S>, F: Fn(Request<S>) -> (Request<S>, R)> Handler<S> for Endpoint<S, R, F> {
    open spec fn handles(&self, req: RequestView<S>, next: Relation<S>, out: RequestView<S>) -> bool {
        may_answer(self.function(), req, out)
    }

    fn run<N: Next<S>>(&self, req: Request<S>, next: &N) -> (out: Request<S>) {
        proof {
            use_type_invariant(self);
        }
        let (worked, value) = (self.f)(req);
        let mut out = worked;
        value.respond_to(&mut out);
        out
    }
}

} // verus!
