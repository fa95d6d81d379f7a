use vstd::prelude::*;

use crate::handler::{admits, relation_of, then, within, Handler, Next, Relation};
use crate::onion::{wraps, Turn};
use crate::request::{Request, RequestView};

verus! {

/// A handler that gives every request a copy of a value: it sets a clone of
/// the value as the one that handlers hand each other, and hands the request on.
pub struct State<T>(pub T);

/// A request with `value` as the value that handlers hand each other.
pub open spec fn injected<S>(req: RequestView<S>, value: S) -> RequestView<S> {
    RequestView { ext: Some(value), ..req }
}

impl<T: Clone> Handler<T> for State<T> {
    open spec fn handles(&self, req: RequestView<T>, next: Relation<T>, out: RequestView<T>) -> bool {
        exists|value: T| cloned(self.0, value) && #[trigger] admits(next, injected(req, value), out)
    }

    fn run<N: Next<T>>(&self, req: Request<T>, next: &N) -> (out: Request<T>) {
        let ghost arrived = req@;
        let mut req = req;
        let value = self.0.clone();
        req.set_ext(value);
        let out = next.run(req);
        proof {
            assert forall|k: Relation<T>| within(relation_of(next), k) implies #[trigger] self.handles(
                arrived,
                k,
                out@,
            ) by {
                assert(admits(relation_of(next), injected(arrived, value), out@));
                assert(admits(k, injected(arrived, value), out@));
            }
        }
        out
    }
}

/// Whatever handler stands behind a `State`, it is given the request with a
/// clone of the state's value in it, and what it returns is what the two
/// return together: the value reaches every handler downstream, and nothing
/// else of the request is changed on the way.
pub proof fn state_reaches_downstream<T: Clone, H: Handler<T>>(
    pair: (State<T>, H),
    req: RequestView<T>,
    next: Relation<T>,
    out: RequestView<T>,
)
    ensures
        pair.handles(req, next, out) <==> exists|value: T|
            cloned(pair.0.0, value) && #[trigger] pair.1.handles(injected(req, value), next, out),
{
    let rest = then(&pair.1, next);
    if pair.handles(req, next, out) {
        let value = choose|value: T| cloned(pair.0.0, value) && #[trigger] admits(rest, injected(req, value), out);
        assert(pair.1.handles(injected(req, value), next, out));
    }
    if exists|value: T| cloned(pair.0.0, value) && #[trigger] pair.1.handles(injected(req, value), next, out) {
        let value = choose|value: T|
            cloned(pair.0.0, value) && #[trigger] pair.1.handles(injected(req, value), next, out);
        assert(admits(rest, injected(req, value), out));
    }
}

/// Where a clone of the value is the value, a `State` is a handler that
/// hands every request on: it sets the value on the way in and leaves what
/// comes back as it is.
pub proof fn state_wraps<T: Clone>(state: State<T>)
    requires
        forall|copy: T| cloned(state.0, copy) ==> copy == state.0,
    ensures
        wraps(&state, |req: RequestView<T>| injected(req, state.0), |back: RequestView<T>| back),
{
    let before: Turn<T> = |req: RequestView<T>| injected(req, state.0);
    let after: Turn<T> = |back: RequestView<T>| back;
    assert forall|req: RequestView<T>, next: Relation<T>, out: RequestView<T>| #[trigger]
        state.handles(req, next, out) <==> exists|back: RequestView<T>| #[trigger]
            admits(next, before(req), back) && out == after(back) by {
        if state.handles(req, next, out) {
            let value = choose|value: T| cloned(state.0, value) && #[trigger] admits(next, injected(req, value), out);
            assert(admits(next, before(req), out) && out == after(out));
        }
        if exists|back: RequestView<T>| #[trigger] admits(next, before(req), back) && out == after(back) {
            assert(cloned(state.0, state.0));
            assert(admits(next, injected(req, state.0), out));
        }
    }
}

} // verus!
