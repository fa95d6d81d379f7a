use vstd::prelude::*;

use crate::handler::{admits, outcome, relation_of, then, within, Handler, Next, NextFn, Relation};
use crate::request::{Request, RequestView};

verus! {

/// Two handlers as one: the first runs with a continuation that runs the
/// second with the continuation of the pair. Pairs nest to the right for
/// longer lists: `(a, (b, c))`.
impl<S, A: Handler<S>, B: Handler<S>> Handler<S> for (A, B) {
    open spec fn handles(&self, req: RequestView<S>, next: Relation<S>, out: RequestView<S>) -> bool {
        self.0.handles(req, then(&self.1, next), out)
    }

    fn run<N: Next<S>>(&self, req: Request<S>, next: &N) -> (out: Request<S>) {
        let second = |r: Request<S>| -> (o: Request<S>)
            ensures
                outcome(&self.1, r@, relation_of(next), o@),
            { self.1.run(r, next) };
        let rest = NextFn::new(second);
        let out = self.0.run(req, &rest);
        proof {
            assert forall|k: Relation<S>| within(relation_of(next), k) implies #[trigger] self.handles(
                req@,
                k,
                out@,
            ) by {
                assert forall|a: RequestView<S>, b: RequestView<S>| #[trigger]
                    admits(relation_of(&rest), a, b) implies admits(then(&self.1, k), a, b) by {
                    assert(rest.yields(a, b));
                    let (r, o) = choose|r: Request<S>, o: Request<S>|
                        r@ == a && o@ == b && #[trigger] call_ensures(second, (r,), o);
                    assert(outcome(&self.1, r@, relation_of(next), o@));
                    assert(self.1.handles(a, k, b));
                }
            }
        }
        out
    }
}

/// What a list of handlers does once the continuation of the whole list is
/// fixed: the first handler, continued by the rest of the list, continued by
/// `next`. The empty list is `next` itself.
pub open spec fn chain<S, H: Handler<S>>(handlers: Seq<H>, next: Relation<S>) -> Relation<S>
    decreases handlers.len(),
{
    if handlers.len() == 0 {
        next
    } else {
        then(&handlers[0], chain(handlers.skip(1), next))
    }
}

/// Whether `out` is an outcome of a list of handlers on `req` against every
/// relation that contains `next`.
pub open spec fn chain_outcome<S, H: Handler<S>>(
    handlers: Seq<H>,
    req: RequestView<S>,
    next: Relation<S>,
    out: RequestView<S>,
) -> bool {
    forall|k: Relation<S>| within(next, k) ==> #[trigger] admits(chain(handlers, k), req, out)
}

/// Runs the handlers of `handlers` from the one at `from` on, then `next`.
fn run_from<S, H: Handler<S>, N: Next<S>>(
    handlers: &[H],
    from: usize,
    req: Request<S>,
    next: &N,
) -> (out: Request<S>)
    requires
        from <= handlers.len(),
    ensures
        chain_outcome(handlers@.skip(from as int), req@, relation_of(next), out@),
    decreases handlers.len() - from,
{
    if from == handlers.len() {
        let out = next.run(req);
        proof {
            assert forall|k: Relation<S>| within(relation_of(next), k) implies #[trigger] admits(
                chain(handlers@.skip(from as int), k),
                req@,
                out@,
            ) by {
                assert(admits(relation_of(next), req@, out@));
            }
        }
        out
    } else {
        let tail = |r: Request<S>| -> (o: Request<S>)
            ensures
                chain_outcome(handlers@.skip(from + 1), r@, relation_of(next), o@),
            { run_from(handlers, from + 1, r, next) };
        let rest = NextFn::new(tail);
        let out = handlers[from].run(req, &rest);
        proof {
            assert(handlers@.skip(from as int).skip(1) =~= handlers@.skip(from + 1));
            assert forall|k: Relation<S>| within(relation_of(next), k) implies #[trigger] admits(
                chain(handlers@.skip(from as int), k),
                req@,
                out@,
            ) by {
                assert forall|a: RequestView<S>, b: RequestView<S>| #[trigger]
                    admits(relation_of(&rest), a, b) implies admits(
                    chain(handlers@.skip(from + 1), k),
                    a,
                    b,
                ) by {
                    assert(rest.yields(a, b));
                    let (r, o) = choose|r: Request<S>, o: Request<S>|
                        r@ == a && o@ == b && #[trigger] call_ensures(tail, (r,), o);
                    assert(chain_outcome(handlers@.skip(from + 1), r@, relation_of(next), o@));
                }
            }
        }
        out
    }
}

/// A list of handlers of one type as one handler: the first in the list is
/// the outermost, and behind the last comes the continuation of the list.
impl<S, H: Handler<S>> Handler<S> for Vec<H> {
    open spec fn handles(&self, req: RequestView<S>, next: Relation<S>, out: RequestView<S>) -> bool {
        admits(chain(self@, next), req, out)
    }

    fn run<N: Next<S>>(&self, req: Request<S>, next: &N) -> (out: Request<S>) {
        let out = run_from(self.as_slice(), 0, req, next);
        proof {
            assert(self@.skip(0) =~= self@);
        }
        out
    }
}

} // verus!

verus! {

/// A handler in a box is the handler.
impl<S, H: Handler<S>> Handler<S> for Box<H> {
    open spec fn handles(&self, req: RequestView<S>, next: Relation<S>, out: RequestView<S>) -> bool {
        (**self).handles(req, next, out)
    }

    fn run<N: Next<S>>(&self, req: Request<S>, next: &N) -> (out: Request<S>) {
        (**self).run(req, next)
    }
}

/// A handler that is shared is the handler.
impl<S, H: Handler<S>> Handler<S> for std::sync::Arc<H> {
    open spec fn handles(&self, req: RequestView<S>, next: Relation<S>, out: RequestView<S>) -> bool {
        (**self).handles(req, next, out)
    }

    fn run<N: Next<S>>(&self, req: Request<S>, next: &N) -> (out: Request<S>) {
        (**self).run(req, next)
    }
}

} // verus!
