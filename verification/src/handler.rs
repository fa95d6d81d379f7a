use core::marker::PhantomData;
use vstd::prelude::*;

use crate::request::{Request, RequestView};

verus! {

/// What is known of a stage of the pipeline: which requests may come back
/// for a request handed in.
pub type Relation<S> = spec_fn(RequestView<S>, RequestView<S>) -> bool;

/// Whether `out` may come back for `req` according to a relation.
pub open spec fn admits<S>(r: Relation<S>, req: RequestView<S>, out: RequestView<S>) -> bool {
    r(req, out)
}

/// Whether everything that `narrow` admits, `wide` admits too.
pub open spec fn within<S>(narrow: Relation<S>, wide: Relation<S>) -> bool {
    forall|req: RequestView<S>, out: RequestView<S>| #[trigger]
        admits(narrow, req, out) ==> admits(wide, req, out)
}

/// The relation that hands a request back as it came.
pub open spec fn untouched<S>() -> Relation<S> {
    |req: RequestView<S>, out: RequestView<S>| out == req
}

/// Everything that comes after one handler in the pipeline.
///
/// A handler that wants the rest of the pipeline to run calls `run` once; one
/// that never calls it ends the pipeline. To call it more than once runs the
/// rest of the pipeline more than once, which no handler of this library does.
pub trait Next<S> {
    /// Whether `out` may come back when the rest of the pipeline is given
    /// `req`. Where an implementation does not say, anything may.
    open spec fn yields(&self, req: RequestView<S>, out: RequestView<S>) -> bool {
        true
    }

    fn run(&self, req: Request<S>) -> (out: Request<S>)
        ensures
            self.yields(req@, out@),
    ;
}

/// What a continuation does, as a relation.
pub open spec fn relation_of<S, N: Next<S>>(next: &N) -> Relation<S> {
    |req: RequestView<S>, out: RequestView<S>| next.yields(req, out)
}

/// One stage of the pipeline. It may change the request, answer it, hand it
/// to the rest of the pipeline through `next`, and work on what comes back.
pub trait Handler<S> {
    /// Whether `out` may come back for `req` when the rest of the pipeline
    /// behaves as `next` says. Where an implementation does not say,
    /// anything may.
    open spec fn handles(&self, req: RequestView<S>, next: Relation<S>, out: RequestView<S>) -> bool {
        true
    }

    /// Runs the handler. What comes back is something that `handles` admits
    /// against what the continuation does, and against every relation that
    /// contains it: a caller may know less of the continuation than it does.
    fn run<N: Next<S>>(&self, req: Request<S>, next: &N) -> (out: Request<S>)
        ensures
            forall|k: Relation<S>| within(relation_of(next), k) ==> #[trigger] self.handles(req@, k, out@),
    ;
}

/// Whether `out` is an outcome of `h` on `req` against every relation that
/// contains `next`: what `Handler::run` promises.
pub open spec fn outcome<S, H: Handler<S>>(
    h: &H,
    req: RequestView<S>,
    next: Relation<S>,
    out: RequestView<S>,
) -> bool {
    forall|k: Relation<S>| within(next, k) ==> #[trigger] h.handles(req, k, out)
}

/// The relation of a handler once its continuation is fixed.
pub open spec fn then<S, H: Handler<S>>(h: &H, next: Relation<S>) -> Relation<S> {
    |req: RequestView<S>, out: RequestView<S>| h.handles(req, next, out)
}

/// Every relation is within itself.
pub proof fn within_itself<S>(r: Relation<S>)
    ensures
        within(r, r),
{
}

/// The end of the pipeline: hands the request back as it came.
pub struct Terminal;

impl<S> Next<S> for Terminal {
    open spec fn yields(&self, req: RequestView<S>, out: RequestView<S>) -> bool {
        out == req
    }

    fn run(&self, req: Request<S>) -> (out: Request<S>) {
        req
    }
}

/// A continuation made of a function that can be called on every request.
#[verifier::reject_recursive_types(S)]
pub struct NextFn<S, F: Fn(Request<S>) -> Request<S>> {
    f: F,
    state: PhantomData<S>,
}

/// Whether a function may return a request that stands for `out` when called
/// on one that stands for `req`.
pub open spec fn may_return<S, F: Fn(Request<S>) -> Request<S>>(
    f: F,
    req: RequestView<S>,
    out: RequestView<S>,
) -> bool {
    exists|r: Request<S>, o: Request<S>| r@ == req && o@ == out && #[trigger] call_ensures(f, (r,), o)
}

impl<S, F: Fn(Request<S>) -> Request<S>> NextFn<S, F> {
    #[verifier::type_invariant]
    spec fn total(self) -> bool {
        forall|r: Request<S>| call_requires(self.f, (r,))
    }

    /// The function that this continuation calls.
    pub closed spec fn function(self) -> F {
        self.f
    }

    pub fn new(f: F) -> (next: Self)
        requires
            forall|r: Request<S>| call_requires(f, (r,)),
        ensures
            next.function() == f,
            forall|req: RequestView<S>, out: RequestView<S>| #[trigger]
                next.yields(req, out) == may_return(f, req, out),
    {
        NextFn { f, state: PhantomData }
    }
}

impl<S, F: Fn(Request<S>) -> Request<S>> Next<S> for NextFn<S, F> {
    open spec fn yields(&self, req: RequestView<S>, out: RequestView<S>) -> bool {
        may_return(self.function(), req, out)
    }

    fn run(&self, req: Request<S>) -> (out: Request<S>) {
        proof {
            use_type_invariant(self);
        }
        (self.f)(req)
    }
}

/// A handler made of a function from request to request. It ends the
/// pipeline: the continuation is never called.
#[verifier::reject_recursive_types(S)]
pub struct HandlerFn<S, F: Fn(Request<S>) -> Request<S>> {
    f: F,
    state: PhantomData<S>,
}

impl<S, F: Fn(Request<S>) -> Request<S>> HandlerFn<S, F> {
    #[verifier::type_invariant]
    spec fn total(self) -> bool {
        forall|r: Request<S>| call_requires(self.f, (r,))
    }

    /// The function that this handler calls.
    pub closed spec fn function(self) -> F {
        self.f
    }

    pub fn new(f: F) -> (handler: Self)
        requires
            forall|r: Request<S>| call_requires(f, (r,)),
        ensures
            handler.function() == f,
            forall|req: RequestView<S>, next: Relation<S>, out: RequestView<S>| #[trigger]
                handler.handles(req, next, out) == may_return(f, req, out),
    {
        HandlerFn { f, state: PhantomData }
    }
}

impl<S, F: Fn(Request<S>) -> Request<S>> Handler<S> for HandlerFn<S, F> {
    open spec fn handles(&self, req: RequestView<S>, next: Relation<S>, out: RequestView<S>) -> bool {
        may_return(self.function(), req, out)
    }

    fn run<N: Next<S>>(&self, req: Request<S>, next: &N) -> (out: Request<S>) {
        proof {
            use_type_invariant(self);
        }
        (self.f)(req)
    }
}

} // verus!
