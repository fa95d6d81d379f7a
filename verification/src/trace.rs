use vstd::prelude::*;

use crate::compose::chain;
use crate::handler::{admits, relation_of, within, Handler, Next, Relation};
use crate::onion::{stops, wraps, Turn};
use crate::request::{Request, RequestView};

verus! {

/// What a handler or the end of the pipeline notes down when it is reached:
/// the handlers of a list are numbered from 1.
pub enum Mark {
    Before(nat),
    Terminal,
    After(nat),
}

/// What has been noted down on the way of a request.
pub type Marks = Seq<Mark>;

/// A trace as a request carries it: as the value that handlers hand each
/// other, and as a ghost, so that noting costs nothing when the program runs.
pub type Trace = Ghost<Marks>;

/// The trace that a request carries; the empty trace where it carries none.
pub open spec fn trace_of(req: RequestView<Trace>) -> Marks {
    match req.ext {
        Some(trace) => trace@,
        None => Seq::empty(),
    }
}

/// The request with a trace in place of its own.
pub open spec fn with_trace(req: RequestView<Trace>, trace: Marks) -> RequestView<Trace> {
    RequestView { ext: Some(Ghost(trace)), ..req }
}

/// The request with one more mark behind its trace.
pub open spec fn marked(req: RequestView<Trace>, mark: Mark) -> RequestView<Trace> {
    with_trace(req, trace_of(req).push(mark))
}

/// The turn that notes `Before(k)`.
pub open spec fn notes_before(k: nat) -> Turn<Trace> {
    |req: RequestView<Trace>| marked(req, Mark::Before(k))
}

/// The turn that notes `After(k)`.
pub open spec fn notes_after(k: nat) -> Turn<Trace> {
    |back: RequestView<Trace>| marked(back, Mark::After(k))
}

/// The end of the pipeline that notes `Terminal` and hands the request back.
pub open spec fn notes_terminal() -> Relation<Trace> {
    |req: RequestView<Trace>, out: RequestView<Trace>| out == marked(req, Mark::Terminal)
}

/// `Before(first)`, `Before(first + 1)`, and so on: `count` marks.
pub open spec fn befores(first: nat, count: nat) -> Marks {
    Seq::new(count, |i: int| Mark::Before((first + i) as nat))
}

/// `After(first + count - 1)` down to `After(first)`: `count` marks.
pub open spec fn afters(first: nat, count: nat) -> Marks {
    Seq::new(count, |i: int| Mark::After((first + count - 1 - i) as nat))
}

/// The trace of `count` handlers numbered from `first` that all hand the
/// request on: in on the way to the end, out on the way back.
pub open spec fn onion(first: nat, count: nat) -> Marks {
    befores(first, count) + seq![Mark::Terminal] + afters(first, count)
}

/// The trace of handlers numbered from `first` of which the one behind
/// `before` others notes that it is reached and hands the request back.
pub open spec fn cut_short(first: nat, before: nat) -> Marks {
    befores(first, before + 1) + afters(first, before)
}

/// Whether each handler of a list notes `Before` and `After` with its number,
/// the numbers starting at `first`, and hands the request on between the two.
pub open spec fn all_note<H: Handler<Trace>>(handlers: Seq<H>, first: nat) -> bool {
    forall|i: int|
        0 <= i < handlers.len() ==> wraps(
            &#[trigger] handlers[i],
            notes_before((first + i) as nat),
            notes_after((first + i) as nat),
        )
}

/// The trace of a list of handlers numbered from `first`, behind what the
/// request carried already.
proof fn onion_from<H: Handler<Trace>>(
    handlers: Seq<H>,
    first: nat,
    req: RequestView<Trace>,
    out: RequestView<Trace>,
)
    requires
        all_note(handlers, first),
    ensures
        admits(chain(handlers, notes_terminal()), req, out) <==> out == with_trace(
            req,
            trace_of(req) + onion(first, handlers.len()),
        ),
    decreases handlers.len(),
{
    let n = handlers.len();
    if n == 0 {
        assert(trace_of(req) + onion(first, 0) =~= trace_of(req).push(Mark::Terminal));
    } else {
        let rest = chain(handlers.skip(1), notes_terminal());
        let inner = marked(req, Mark::Before(first));
        assert(wraps(&handlers[0], notes_before(first), notes_after(first)));
        assert(all_note(handlers.skip(1), first + 1)) by {
            assert forall|i: int| 0 <= i < handlers.skip(1).len() implies wraps(
                &#[trigger] handlers.skip(1)[i],
                notes_before((first + 1 + i) as nat),
                notes_after((first + 1 + i) as nat),
            ) by {
                assert(handlers.skip(1)[i] == handlers[i + 1]);
            }
        }
        let back = with_trace(inner, trace_of(inner) + onion(first + 1, (n - 1) as nat));
        let whole = with_trace(req, trace_of(req) + onion(first, n));
        assert(marked(back, Mark::After(first)) == whole) by {
            assert(trace_of(back).push(Mark::After(first)) =~= trace_of(req) + onion(first, n));
        }
        assert(admits(chain(handlers, notes_terminal()), req, out) == handlers[0].handles(req, rest, out));
        if handlers[0].handles(req, rest, out) {
            let mid = choose|mid: RequestView<Trace>| #[trigger]
                admits(rest, (notes_before(first))(req), mid) && out == (notes_after(first))(mid);
            onion_from(handlers.skip(1), first + 1, inner, mid);
        }
        if out == whole {
            onion_from(handlers.skip(1), first + 1, inner, back);
            assert(admits(rest, (notes_before(first))(req), back) && out == (notes_after(first))(back));
        }
    }
}

/// Onion order, as a trace. Where each of the handlers of a list notes
/// `Before` with its number, hands the request on and notes `After` with
/// its number, and the end of the pipeline notes `Terminal`, a request leaves
/// with exactly this behind the trace it came with: `Before(1)` to
/// `Before(n)`, `Terminal`, `After(n)` down to `After(1)`.
pub proof fn trace_in_onion_order<H: Handler<Trace>>(
    handlers: Seq<H>,
    req: RequestView<Trace>,
    out: RequestView<Trace>,
)
    requires
        all_note(handlers, 1),
    ensures
        admits(chain(handlers, notes_terminal()), req, out) <==> out == with_trace(
            req,
            trace_of(req) + onion(1, handlers.len()),
        ),
{
    onion_from(handlers, 1, req, out);
}

/// The trace of a list of handlers numbered from `first` of which the one at
/// `at` stops, behind what the request carried already.
proof fn cut_short_from<H: Handler<Trace>>(
    handlers: Seq<H>,
    at: int,
    first: nat,
    next: Relation<Trace>,
    req: RequestView<Trace>,
    out: RequestView<Trace>,
)
    requires
        0 <= at < handlers.len(),
        all_note(handlers.take(at), first),
        stops(&handlers[at], notes_before((first + at) as nat)),
    ensures
        admits(chain(handlers, next), req, out) <==> out == with_trace(
            req,
            trace_of(req) + cut_short(first, at as nat),
        ),
    decreases at,
{
    let rest = chain(handlers.skip(1), next);
    assert(admits(chain(handlers, next), req, out) == handlers[0].handles(req, rest, out));
    if at == 0 {
        assert(trace_of(req) + cut_short(first, 0) =~= trace_of(req).push(Mark::Before(first)));
    } else {
        let inner = marked(req, Mark::Before(first));
        assert(handlers.take(at)[0] == handlers[0]);
        assert(wraps(&handlers[0], notes_before(first), notes_after(first)));
        let earlier = handlers.skip(1).take(at - 1);
        assert(all_note(earlier, first + 1)) by {
            assert forall|i: int| 0 <= i < earlier.len() implies wraps(
                &#[trigger] earlier[i],
                notes_before((first + 1 + i) as nat),
                notes_after((first + 1 + i) as nat),
            ) by {
                assert(earlier[i] == handlers.take(at)[i + 1]);
            }
        }
        assert(handlers.skip(1)[at - 1] == handlers[at]);
        let back = with_trace(inner, trace_of(inner) + cut_short(first + 1, (at - 1) as nat));
        let whole = with_trace(req, trace_of(req) + cut_short(first, at as nat));
        assert(marked(back, Mark::After(first)) == whole) by {
            assert(trace_of(back).push(Mark::After(first)) =~= trace_of(req) + cut_short(first, at as nat));
        }
        if handlers[0].handles(req, rest, out) {
            let mid = choose|mid: RequestView<Trace>| #[trigger]
                admits(rest, (notes_before(first))(req), mid) && out == (notes_after(first))(mid);
            cut_short_from(handlers.skip(1), at - 1, first + 1, next, inner, mid);
        }
        if out == whole {
            cut_short_from(handlers.skip(1), at - 1, first + 1, next, inner, back);
            assert(admits(rest, (notes_before(first))(req), back) && out == (notes_after(first))(back));
        }
    }
}

/// Short circuit, as a trace. Where handler `k` of a list notes `Before(k)`
/// and hands the request back without calling its continuation, and the
/// handlers before it note and hand on, a request leaves with exactly this
/// behind the trace it came with: `Before(1)` to `Before(k)`, then
/// `After(k - 1)` down to `After(1)`. Whatever the handlers behind `k` and
/// the end of the pipeline would note is not in it: they do not run.
pub proof fn trace_stops_short<H: Handler<Trace>>(
    handlers: Seq<H>,
    k: nat,
    next: Relation<Trace>,
    req: RequestView<Trace>,
    out: RequestView<Trace>,
)
    requires
        1 <= k <= handlers.len(),
        all_note(handlers.take(k - 1), 1),
        stops(&handlers[k - 1], notes_before(k)),
    ensures
        admits(chain(handlers, next), req, out) <==> out == with_trace(
            req,
            trace_of(req) + cut_short(1, (k - 1) as nat),
        ),
{
    cut_short_from(handlers, k - 1, 1, next, req, out);
}

/// A handler that notes in the trace when it is reached, with its number.
/// One that passes then hands the request on and notes when the request comes
/// back to it; one that does not pass hands the request back at once. The
/// trace is a ghost: when the program runs, nothing is noted.
pub struct Noting {
    pub number: Ghost<nat>,
    pub passes: bool,
}

impl Handler<Trace> for Noting {
    open spec fn handles(&self, req: RequestView<Trace>, next: Relation<Trace>, out: RequestView<Trace>) -> bool {
        if self.passes {
            exists|back: RequestView<Trace>| #[trigger]
                admits(next, marked(req, Mark::Before(self.number@)), back) && out == marked(
                    back,
                    Mark::After(self.number@),
                )
        } else {
            out == marked(req, Mark::Before(self.number@))
        }
    }

    fn run<N: Next<Trace>>(&self, req: Request<Trace>, next: &N) -> (out: Request<Trace>) {
        let ghost arrived = req@;
        let mut req = req;
        req.set_ext(Ghost(trace_of(arrived).push(Mark::Before(self.number@))));
        if !self.passes {
            return req;
        }
        let mut back = next.run(req);
        let ghost returned = back@;
        back.set_ext(Ghost(trace_of(returned).push(Mark::After(self.number@))));
        proof {
            assert forall|k: Relation<Trace>| within(relation_of(next), k) implies #[trigger] self.handles(
                arrived,
                k,
                back@,
            ) by {
                assert(admits(relation_of(next), marked(arrived, Mark::Before(self.number@)), returned));
                assert(admits(k, marked(arrived, Mark::Before(self.number@)), returned));
            }
        }
        back
    }
}

/// A `Noting` handler is one of those that the laws of this file speak of:
/// one that passes notes and hands on, one that does not pass notes and stops.
pub proof fn noting_notes(handler: Noting)
    ensures
        handler.passes ==> wraps(&handler, notes_before(handler.number@), notes_after(handler.number@)),
        !handler.passes ==> stops(&handler, notes_before(handler.number@)),
{
    let before = notes_before(handler.number@);
    let after = notes_after(handler.number@);
    if handler.passes {
        assert forall|req: RequestView<Trace>, next: Relation<Trace>, out: RequestView<Trace>| #[trigger]
            handler.handles(req, next, out) <==> exists|back: RequestView<Trace>| #[trigger]
                admits(next, before(req), back) && out == after(back) by {
            if handler.handles(req, next, out) {
                let back = choose|back: RequestView<Trace>| #[trigger]
                    admits(next, marked(req, Mark::Before(handler.number@)), back) && out == marked(
                        back,
                        Mark::After(handler.number@),
                    );
                assert(admits(next, before(req), back) && out == after(back));
            }
            if exists|back: RequestView<Trace>| #[trigger] admits(next, before(req), back) && out == after(back) {
                let back = choose|back: RequestView<Trace>| #[trigger]
                    admits(next, before(req), back) && out == after(back);
                assert(admits(next, marked(req, Mark::Before(handler.number@)), back) && out == marked(
                    back,
                    Mark::After(handler.number@),
                ));
            }
        }
    }
}

/// Whether the handlers of a list carry the numbers 1, 2 and so on, in the
/// order of the list.
pub open spec fn numbered(handlers: Seq<Noting>) -> bool {
    forall|i: int| 0 <= i < handlers.len() ==> (#[trigger] handlers[i]).number@ == i + 1
}

/// A list of `n` noting handlers that all pass, in front of an end that notes
/// `Terminal`, leaves exactly this on the trace: `Before(1)` to `Before(n)`,
/// `Terminal`, `After(n)` down to `After(1)`.
pub proof fn noting_in_onion_order(handlers: Seq<Noting>, req: RequestView<Trace>, out: RequestView<Trace>)
    requires
        numbered(handlers),
        forall|i: int| 0 <= i < handlers.len() ==> (#[trigger] handlers[i]).passes,
    ensures
        admits(chain(handlers, notes_terminal()), req, out) <==> out == with_trace(
            req,
            trace_of(req) + onion(1, handlers.len()),
        ),
{
    assert forall|i: int| 0 <= i < handlers.len() implies wraps(
        &#[trigger] handlers[i],
        notes_before((1 + i) as nat),
        notes_after((1 + i) as nat),
    ) by {
        noting_notes(handlers[i]);
    }
    trace_in_onion_order(handlers, req, out);
}

/// A list of noting handlers of which the first `k - 1` pass and handler `k`
/// does not leaves exactly this on the trace, whatever comes behind handler
/// `k`: `Before(1)` to `Before(k)`, then `After(k - 1)` down to `After(1)`.
pub proof fn noting_stops_short(
    handlers: Seq<Noting>,
    k: nat,
    next: Relation<Trace>,
    req: RequestView<Trace>,
    out: RequestView<Trace>,
)
    requires
        numbered(handlers),
        1 <= k <= handlers.len(),
        forall|i: int| 0 <= i < k - 1 ==> (#[trigger] handlers[i]).passes,
        !handlers[k - 1].passes,
    ensures
        admits(chain(handlers, next), req, out) <==> out == with_trace(
            req,
            trace_of(req) + cut_short(1, (k - 1) as nat),
        ),
{
    let earlier = handlers.take(k - 1);
    assert forall|i: int| 0 <= i < earlier.len() implies wraps(
        &#[trigger] earlier[i],
        notes_before((1 + i) as nat),
        notes_after((1 + i) as nat),
    ) by {
        assert(earlier[i] == handlers[i]);
        noting_notes(handlers[i]);
    }
    noting_notes(handlers[k - 1]);
    trace_stops_short(handlers, k, next, req, out);
}

} // verus!
