use vstd::prelude::*;

use crate::handler::{untouched, within_itself, Handler, Relation, Terminal};
use crate::request::{Request, RequestView};
use crate::response::Response;

verus! {

/// The pipeline ended without a response.
#[derive(Debug, PartialEq, Eq)]
pub struct NoResponse;

/// Whether `res` is what `service` makes of a request that came back as `out`.
pub open spec fn answer_of<S>(out: RequestView<S>, res: Result<Response, NoResponse>) -> bool {
    match res {
        Ok(res) => out.res == Some(res@),
        Err(_) => out.res is None,
    }
}

/// Runs a request through a handler, with nothing behind the handler, and
/// takes the response out of what comes back. That no handler has set a
/// response is no fault of the pipeline: the caller answers such a request
/// as not found.
pub fn service<S, H: Handler<S>>(req: Request<S>, handler: &H) -> (res: Result<Response, NoResponse>)
    ensures
        exists|out: RequestView<S>| #[trigger] handler.handles(req@, untouched(), out) && answer_of(out, res),
{
    let end = Terminal;
    let mut out = handler.run(req, &end);
    let ghost back = out@;
    proof {
        let last: Relation<S> = crate::handler::relation_of(&end);
        assert(last =~= untouched::<S>());
        within_itself(last);
    }
    match out.take_res() {
        Some(res) => {
            assert(handler.handles(req@, untouched(), back) && answer_of(back, Ok(res)));
            Ok(res)
        },
        None => {
            assert(handler.handles(req@, untouched(), back) && answer_of(back, Err(NoResponse)));
            Err(NoResponse)
        },
    }
}

} // verus!

verus! {

/// Why a server stopped other than in good order. `E` is the error of the
/// transport.
#[derive(Debug)]
pub enum ServerError<E> {
    /// The transport failed while it finished the requests in flight.
    Server(E),
    /// The transport stopped though nothing had told it to.
    UnexpectedShutdown(E),
    /// The requests in flight did not finish in time and were dropped.
    ForcedShutdown,
}

/// Where a server is in its life.
#[derive(Clone, Copy, Debug, PartialEq, Eq, Structural)]
pub enum Phase {
    /// Requests are accepted and served.
    Serving,
    /// No request is accepted any more; those in flight are finished.
    Draining,
    /// The server has stopped.
    Stopped,
}

/// What can happen to a running server.
#[derive(Debug)]
pub enum Event<E> {
    /// The transport stopped with an error.
    Failed(E),
    /// The signal to stop arrived.
    Interrupted,
    /// The transport finished the requests in flight.
    Drained,
    /// The time given to the requests in flight is over.
    GraceElapsed,
}

/// What the one who runs the server does next.
#[derive(Debug)]
pub enum Action<E> {
    /// Go on waiting for the next event.
    Wait,
    /// Tell the transport to accept no more requests, and give those in
    /// flight this many seconds.
    Drain { grace_seconds: u64 },
    /// Return this.
    Finish(Result<(), ServerError<E>>),
}

/// The seconds that the requests in flight are given to finish.
pub const GRACE_SECONDS: u64 = 5;

/// The phase after an event, and what to do. A server that is serving stops
/// at once where the transport fails, and starts to drain where it is told to
/// stop; one that is draining stops in good order once the transport has
/// finished, with the transport's error where it fails, and by force where
/// the time is over. An event that has no place in a phase changes nothing.
pub open spec fn after<E>(phase: Phase, event: Event<E>) -> (Phase, Action<E>) {
    match (phase, event) {
        (Phase::Serving, Event::Failed(e)) => (
            Phase::Stopped,
            Action::Finish(Err(ServerError::UnexpectedShutdown(e))),
        ),
        (Phase::Serving, Event::Interrupted) => (
            Phase::Draining,
            Action::Drain { grace_seconds: GRACE_SECONDS },
        ),
        (Phase::Draining, Event::Drained) => (Phase::Stopped, Action::Finish(Ok(()))),
        (Phase::Draining, Event::Failed(e)) => (
            Phase::Stopped,
            Action::Finish(Err(ServerError::Server(e))),
        ),
        (Phase::Draining, Event::GraceElapsed) => (
            Phase::Stopped,
            Action::Finish(Err(ServerError::ForcedShutdown)),
        ),
        (phase, _) => (phase, Action::Wait),
    }
}

/// Decides what a running server does on an event.
pub fn step<E>(phase: Phase, event: Event<E>) -> (next: (Phase, Action<E>))
    ensures
        next == after(phase, event),
{
    match phase {
        Phase::Serving => match event {
            Event::Failed(e) => (Phase::Stopped, Action::Finish(Err(ServerError::UnexpectedShutdown(e)))),
            Event::Interrupted => (Phase::Draining, Action::Drain { grace_seconds: GRACE_SECONDS }),
            _ => (Phase::Serving, Action::Wait),
        },
        Phase::Draining => match event {
            Event::Drained => (Phase::Stopped, Action::Finish(Ok(()))),
            Event::Failed(e) => (Phase::Stopped, Action::Finish(Err(ServerError::Server(e)))),
            Event::GraceElapsed => (Phase::Stopped, Action::Finish(Err(ServerError::ForcedShutdown))),
            _ => (Phase::Draining, Action::Wait),
        },
        Phase::Stopped => (Phase::Stopped, Action::Wait),
    }
}

/// A server stops only with an action that says what to return, and a
/// stopped server starts nothing again.
pub proof fn stops_with_a_result<E>(phase: Phase, event: Event<E>)
    ensures
        after(phase, event).0 == Phase::Stopped && phase != Phase::Stopped ==> after(phase, event).1 is Finish,
        phase == Phase::Stopped ==> after(phase, event) == (Phase::Stopped, Action::<E>::Wait),
        after(phase, event).1 is Finish ==> after(phase, event).0 == Phase::Stopped,
{
}

} // verus!
