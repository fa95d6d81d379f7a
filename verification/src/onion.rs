use vstd::prelude::*;

use crate::compose::chain;
use crate::handler::{admits, then, Handler, Relation};
use crate::request::RequestView;

verus! {

/// What a handler does to a request on its way in, or on its way out.
pub type Turn<S> = spec_fn(RequestView<S>) -> RequestView<S>;

/// A handler that always hands the request on: it turns the request by
/// `before`, calls its continuation once, and turns what comes back by `after`.
pub open spec fn wraps<S, H: Handler<S>>(h: &H, before: Turn<S>, after: Turn<S>) -> bool {
    forall|req: RequestView<S>, next: Relation<S>, out: RequestView<S>| #[trigger]
        h.handles(req, next, out) <==> exists|back: RequestView<S>| #[trigger]
            admits(next, before(req), back) && out == after(back)
}

/// A handler that never calls its continuation: it answers by `answer`.
pub open spec fn stops<S, H: Handler<S>>(h: &H, answer: Turn<S>) -> bool {
    forall|req: RequestView<S>, next: Relation<S>, out: RequestView<S>| #[trigger]
        h.handles(req, next, out) <==> out == answer(req)
}

/// The request after the turns of `befores`, the first of them first.
pub open spec fn inward<S>(befores: Seq<Turn<S>>, req: RequestView<S>) -> RequestView<S>
    decreases befores.len(),
{
    if befores.len() == 0 {
        req
    } else {
        inward(befores.skip(1), (befores[0])(req))
    }
}

/// The request after the turns of `afters`, the last of them first.
pub open spec fn outward<S>(afters: Seq<Turn<S>>, back: RequestView<S>) -> RequestView<S>
    decreases afters.len(),
{
    if afters.len() == 0 {
        back
    } else {
        (afters[0])(outward(afters.skip(1), back))
    }
}

/// Whether each handler of a list wraps with the turns at its place.
pub open spec fn all_wrap<S, H: Handler<S>>(
    handlers: Seq<H>,
    befores: Seq<Turn<S>>,
    afters: Seq<Turn<S>>,
) -> bool {
    &&& befores.len() == handlers.len()
    &&& afters.len() == handlers.len()
    &&& forall|i: int| 0 <= i < handlers.len() ==> wraps(&#[trigger] handlers[i], befores[i], afters[i])
}

/// Onion order, for a pair. Where both handlers hand the request on, the pair
/// does: on the way in the first handler's turn comes before the second's,
/// on the way out the second's before the first's.
pub proof fn pair_wraps<S, A: Handler<S>, B: Handler<S>>(
    pair: (A, B),
    before_a: Turn<S>,
    after_a: Turn<S>,
    before_b: Turn<S>,
    after_b: Turn<S>,
)
    requires
        wraps(&pair.0, before_a, after_a),
        wraps(&pair.1, before_b, after_b),
    ensures
        wraps(
            &pair,
            |req: RequestView<S>| before_b(before_a(req)),
            |back: RequestView<S>| after_a(after_b(back)),
        ),
{
    let before = |req: RequestView<S>| before_b(before_a(req));
    let after = |back: RequestView<S>| after_a(after_b(back));
    assert forall|req: RequestView<S>, next: Relation<S>, out: RequestView<S>| #[trigger]
        pair.handles(req, next, out) <==> exists|back: RequestView<S>| #[trigger]
            admits(next, before(req), back) && out == after(back) by {
        let second = then(&pair.1, next);
        if pair.handles(req, next, out) {
            assert(pair.0.handles(req, second, out));
            let mid = choose|mid: RequestView<S>| #[trigger]
                admits(second, before_a(req), mid) && out == after_a(mid);
            assert(pair.1.handles(before_a(req), next, mid));
            let back = choose|back: RequestView<S>| #[trigger]
                admits(next, before_b(before_a(req)), back) && mid == after_b(back);
            assert(admits(next, before(req), back) && out == after(back));
        }
        if exists|back: RequestView<S>| #[trigger] admits(next, before(req), back) && out == after(back) {
            let back = choose|back: RequestView<S>| #[trigger]
                admits(next, before(req), back) && out == after(back);
            let mid = after_b(back);
            assert(admits(next, before_b(before_a(req)), back) && mid == after_b(back));
            assert(pair.1.handles(before_a(req), next, mid));
            assert(admits(second, before_a(req), mid) && out == after_a(mid));
            assert(pair.0.handles(req, second, out));
        }
    }
}

/// Short circuit, for a pair whose first handler stops. The pair answers as
/// the first handler does, whatever the second handler and the continuation
/// are: neither runs.
pub proof fn pair_stops_at_first<S, A: Handler<S>, B: Handler<S>>(pair: (A, B), answer: Turn<S>)
    requires
        stops(&pair.0, answer),
    ensures
        stops(&pair, answer),
{
    assert forall|req: RequestView<S>, next: Relation<S>, out: RequestView<S>| #[trigger]
        pair.handles(req, next, out) <==> out == answer(req) by {
        assert(pair.handles(req, next, out) == pair.0.handles(req, then(&pair.1, next), out));
    }
}

/// Short circuit, for a pair whose second handler stops. The first handler
/// turns the request, the second answers, the first turns the answer; the
/// continuation of the pair does not run.
pub proof fn pair_stops_at_second<S, A: Handler<S>, B: Handler<S>>(
    pair: (A, B),
    before_a: Turn<S>,
    after_a: Turn<S>,
    answer: Turn<S>,
)
    requires
        wraps(&pair.0, before_a, after_a),
        stops(&pair.1, answer),
    ensures
        stops(&pair, |req: RequestView<S>| after_a(answer(before_a(req)))),
{
    let whole = |req: RequestView<S>| after_a(answer(before_a(req)));
    assert forall|req: RequestView<S>, next: Relation<S>, out: RequestView<S>| #[trigger]
        pair.handles(req, next, out) <==> out == whole(req) by {
        let second = then(&pair.1, next);
        assert(pair.handles(req, next, out) == pair.0.handles(req, second, out));
        if pair.0.handles(req, second, out) {
            let mid = choose|mid: RequestView<S>| #[trigger]
                admits(second, before_a(req), mid) && out == after_a(mid);
            assert(pair.1.handles(before_a(req), next, mid));
        }
        if out == whole(req) {
            let mid = answer(before_a(req));
            assert(pair.1.handles(before_a(req), next, mid));
            assert(admits(second, before_a(req), mid) && out == after_a(mid));
        }
    }
}

/// Onion order, for a list of any length. Where every handler hands the
/// request on, the list does: the request reaches the continuation after the
/// turns `before` of all handlers in the order of the list, and what comes
/// back leaves after their turns `after` in the opposite order. Each turn is
/// taken once.
pub proof fn onion_order<S, H: Handler<S>>(
    handlers: Seq<H>,
    befores: Seq<Turn<S>>,
    afters: Seq<Turn<S>>,
    req: RequestView<S>,
    next: Relation<S>,
    out: RequestView<S>,
)
    requires
        all_wrap(handlers, befores, afters),
    ensures
        admits(chain(handlers, next), req, out) <==> exists|back: RequestView<S>| #[trigger]
            admits(next, inward(befores, req), back) && out == outward(afters, back),
    decreases handlers.len(),
{
    if handlers.len() == 0 {
        if admits(chain(handlers, next), req, out) {
            assert(admits(next, inward(befores, req), out) && out == outward(afters, out));
        }
    } else {
        let rest = chain(handlers.skip(1), next);
        let first = (befores[0])(req);
        assert(wraps(&handlers[0], befores[0], afters[0]));
        assert(all_wrap(handlers.skip(1), befores.skip(1), afters.skip(1))) by {
            assert forall|i: int| 0 <= i < handlers.skip(1).len() implies wraps(
                &#[trigger] handlers.skip(1)[i],
                befores.skip(1)[i],
                afters.skip(1)[i],
            ) by {
                assert(wraps(&handlers[i + 1], befores[i + 1], afters[i + 1]));
            }
        }
        assert(admits(chain(handlers, next), req, out) == handlers[0].handles(req, rest, out));
        if handlers[0].handles(req, rest, out) {
            let mid = choose|mid: RequestView<S>| #[trigger]
                admits(rest, first, mid) && out == (afters[0])(mid);
            onion_order(handlers.skip(1), befores.skip(1), afters.skip(1), first, next, mid);
            let back = choose|back: RequestView<S>| #[trigger]
                admits(next, inward(befores.skip(1), first), back) && mid == outward(afters.skip(1), back);
            assert(admits(next, inward(befores, req), back) && out == outward(afters, back));
        }
        if exists|back: RequestView<S>| #[trigger]
            admits(next, inward(befores, req), back) && out == outward(afters, back) {
            let back = choose|back: RequestView<S>| #[trigger]
                admits(next, inward(befores, req), back) && out == outward(afters, back);
            let mid = outward(afters.skip(1), back);
            onion_order(handlers.skip(1), befores.skip(1), afters.skip(1), first, next, mid);
            assert(admits(next, inward(befores.skip(1), first), back) && mid == outward(afters.skip(1), back));
            assert(admits(rest, first, mid) && out == (afters[0])(mid));
        }
    }
}

/// Short circuit, for a list of any length. Where the handlers before place
/// `at` hand the request on and the one at `at` stops, the request takes their
/// turns on the way in, is answered there, and takes their turns on the way
/// out. The handlers behind `at` and the continuation of the list have no
/// part in the outcome: they do not run.
pub proof fn short_circuit<S, H: Handler<S>>(
    handlers: Seq<H>,
    at: int,
    befores: Seq<Turn<S>>,
    afters: Seq<Turn<S>>,
    answer: Turn<S>,
    req: RequestView<S>,
    next: Relation<S>,
    out: RequestView<S>,
)
    requires
        0 <= at < handlers.len(),
        all_wrap(handlers.take(at), befores, afters),
        stops(&handlers[at], answer),
    ensures
        admits(chain(handlers, next), req, out) <==> out == outward(afters, answer(inward(befores, req))),
    decreases at,
{
    let rest = chain(handlers.skip(1), next);
    assert(admits(chain(handlers, next), req, out) == handlers[0].handles(req, rest, out));
    if at == 0 {
    } else {
        let first = (befores[0])(req);
        assert(handlers.take(at)[0] == handlers[0]);
        assert(wraps(&handlers[0], befores[0], afters[0]));
        assert(handlers.skip(1).take(at - 1) =~= handlers.take(at).skip(1));
        assert(all_wrap(handlers.skip(1).take(at - 1), befores.skip(1), afters.skip(1))) by {
            assert forall|i: int| 0 <= i < at - 1 implies wraps(
                &#[trigger] handlers.skip(1).take(at - 1)[i],
                befores.skip(1)[i],
                afters.skip(1)[i],
            ) by {
                assert(handlers.take(at)[i + 1] == handlers.skip(1).take(at - 1)[i]);
                assert(wraps(&handlers.take(at)[i + 1], befores[i + 1], afters[i + 1]));
            }
        }
        assert(handlers.skip(1)[at - 1] == handlers[at]);
        let inner = answer(inward(befores.skip(1), first));
        let mid_answer = outward(afters.skip(1), inner);
        if handlers[0].handles(req, rest, out) {
            let mid = choose|mid: RequestView<S>| #[trigger]
                admits(rest, first, mid) && out == (afters[0])(mid);
            short_circuit(handlers.skip(1), at - 1, befores.skip(1), afters.skip(1), answer, first, next, mid);
        }
        if out == outward(afters, answer(inward(befores, req))) {
            short_circuit(
                handlers.skip(1),
                at - 1,
                befores.skip(1),
                afters.skip(1),
                answer,
                first,
                next,
                mid_answer,
            );
            assert(admits(rest, first, mid_answer) && out == (afters[0])(mid_answer));
        }
    }
}

} // verus!
