use std::collections::HashMap;
use vstd::prelude::*;

use crate::handler::{admits, relation_of, within, Handler, Next, Relation};
use crate::method::{MethodView, STANDARD_METHODS};
use crate::path::{
    ends_with, leading_slashes, slack, slack_of, slashes_fit, trailing_are_slashes, trimmed,
};
use crate::pattern::{parses, well_formed, well_formed_parses};
use crate::request::{Captures, CapturesView, Request, RequestView};

verus! {

/// Routes as mathematical values: each pattern with the number of its
/// handler, in the order in which they were added.
pub type Routes = Seq<(Seq<char>, usize)>;

/// The routes of one method: a `routefinder::Router` that holds the number
/// of a handler for each route. What is inside is opaque to proofs: all that
/// is known of a table is what the functions below say of `routes_of`.
#[verifier::external_body]
pub struct Table {
    inner: routefinder::Router<usize>,
}

/// The routes that a table holds, in the order in which they were added.
/// `routefinder` keeps every route that it is given, also two of one
/// pattern, and which route it prefers for a path depends on nothing but
/// these routes and their order.
pub uninterp spec fn routes_of(table: Table) -> Routes;

/// A match: the number of the handler of the route that matched, and what
/// the route's pattern caught of the path.
pub struct Found {
    pub handler: usize,
    pub captures: CapturesView,
}

/// The route that `routefinder::Router::best_match` returns for a path on a
/// table with these routes, with what the route's pattern caught; `None`
/// where no route matches. Of the routes that match, `routefinder` prefers
/// the one whose pattern is most specific: a literal section counts before a
/// parameter, a parameter before the wildcard.
pub uninterp spec fn best_route(routes: Routes, path: Seq<char>) -> Option<Found>;

/// What a lookup returned, as a mathematical value.
spec fn found_view(found: Option<(usize, Captures)>) -> Option<Found> {
    match found {
        Some((handler, captures)) => Some(Found { handler, captures: captures@ }),
        None => None,
    }
}

/// Whether every route of a table has a pattern that a router takes and a
/// handler among the first `handlers`.
spec fn table_fits(routes: Routes, handlers: nat) -> bool {
    forall|i: int|
        0 <= i < routes.len() ==> well_formed((#[trigger] routes[i]).0) && routes[i].1 < handlers
}

/// `routefinder::Router::new`: a table without routes.
#[verifier::external_body]
fn table_new() -> (table: Table)
    ensures
        routes_of(table) == Seq::<(Seq<char>, usize)>::empty(),
{
    Table { inner: routefinder::Router::new() }
}

/// `routefinder::Router::add`: parses the pattern and, where it parses, adds
/// the route to those that are there; the result says whether it did. The
/// patterns that parse are those of `parses`. No route that is there is
/// replaced, also not one of the same pattern: the order in which
/// `routefinder` keeps its routes never finds two of them equal.
#[verifier::external_body]
fn table_add(table: &mut Table, pattern: &str, handler: usize) -> (added: bool)
    ensures
        added == parses(pattern@),
        routes_of(*final(table)) == if added {
            routes_of(*old(table)).push((pattern@, handler))
        } else {
            routes_of(*old(table))
        },
{
    table.inner.add(pattern, handler).is_ok()
}

/// `routefinder::Router::best_match`, with `Match::handler` and
/// `Match::captures` of what it returns, the captures as text of their own.
/// The handler is that of one of the table's routes, and what the wildcard
/// caught is the end of the path as it is without the slashes around it.
/// While it matches, `routefinder` panics on a wildcard that is not the last
/// section of its pattern and on a parameter that no separator follows, which
/// a pattern that is not ASCII can hide; so the table holds well-formed
/// patterns only.
#[verifier::external_body]
fn table_best_match(table: &Table, path: &str) -> (found: Option<(usize, Captures)>)
    requires
        forall|i: int|
            0 <= i < routes_of(*table).len() ==> well_formed((#[trigger] routes_of(*table)[i]).0),
    ensures
        found_view(found) == best_route(routes_of(*table), path@),
        found matches Some((handler, captures)) ==> {
            &&& exists|i: int|
                0 <= i < routes_of(*table).len() && (#[trigger] routes_of(*table)[i]).1 == handler
            &&& captures@.wildcard matches Some(caught) ==> ends_with(trimmed(path@), caught)
        },
{
    let matched = table.inner.best_match(path)?;
    let caught = matched.captures();
    let params = caught.params().iter().map(|c| (c.name().to_string(), c.value().to_string())).collect();
    let wildcard = caught.wildcard().map(|w| w.to_string());
    Some((*matched.handler(), Captures::new(params, wildcard)))
}

/// Where the unmatched rest of a path begins after a match: where the text
/// that the wildcard caught begins, or at the end of the path where the route
/// has no wildcard. `rest` is the part of the path that was matched against.
pub open spec fn resume_at(path: Seq<char>, rest: Seq<char>, wildcard: Option<Seq<char>>) -> nat {
    match wildcard {
        Some(caught) => (path.len() - slack(rest) - caught.len()) as nat,
        None => path.len(),
    }
}

/// The marker of a match with a wildcard points at the text that the
/// wildcard caught. Where that text is the end of the unmatched part of the
/// path as it is without the slashes around it, the new marker is not before
/// the old one and not behind the end of the path, the text stands in the path
/// from the marker on, and nothing but slashes comes behind it.
pub proof fn marker_points_at_wildcard(path: Seq<char>, offset: nat, caught: Seq<char>)
    requires
        offset <= path.len(),
        ends_with(trimmed(path.skip(offset as int)), caught),
    ensures
        offset <= resume_at(path, path.skip(offset as int), Some(caught)) <= path.len(),
        path.subrange(
            resume_at(path, path.skip(offset as int), Some(caught)) as int,
            (resume_at(path, path.skip(offset as int), Some(caught)) + caught.len()) as int,
        ) == caught,
        forall|i: int|
            resume_at(path, path.skip(offset as int), Some(caught)) + caught.len() <= i < path.len()
                ==> path[i] == '/',
{
    let rest = path.skip(offset as int);
    let lead = leading_slashes(rest);
    let at = resume_at(path, rest, Some(caught));
    slashes_fit(rest);
    let inner = trimmed(rest);
    assert(inner.len() == rest.len() - lead - slack(rest));
    assert(at == offset + lead + (inner.len() - caught.len()));
    assert(path.subrange(at as int, (at + caught.len()) as int) =~= inner.skip(inner.len() - caught.len()));
    assert forall|i: int| at + caught.len() <= i < path.len() implies path[i] == '/' by {
        trailing_are_slashes(rest.skip(lead as int), i - offset - lead);
    }
}

/// The request as a router hands it to the handler of the route that matched:
/// with the new marker and with what the route caught.
pub open spec fn routed<S>(req: RequestView<S>, found: Found) -> RequestView<S> {
    RequestView {
        matched: Some(resume_at(req.path, req.unmatched(), found.captures.wildcard)),
        captures: Some(found.captures),
        ..req
    }
}

/// The request as a router hands it on where no route matches: without the
/// marker, and else as it came.
pub open spec fn passed_on<S>(req: RequestView<S>) -> RequestView<S> {
    RequestView { matched: None, ..req }
}

/// The routes of a method after one more.
pub open spec fn with_route(routes: Option<Routes>, pattern: Seq<char>, handler: usize) -> Option<Routes> {
    match routes {
        Some(routes) => Some(routes.push((pattern, handler))),
        None => Some(seq![(pattern, handler)]),
    }
}

/// A router: for each method the routes that were registered for it, and the
/// handlers that the routes lead to. As a handler it runs the handler of the
/// route that matches the part of the path that no router before it has
/// matched, and hands the request on where none matches.
pub struct Router<H> {
    handlers: Vec<H>,
    tables: HashMap<u64, Table>,
}

impl<H> Router<H> {
    #[verifier::type_invariant]
    spec fn fits(self) -> bool {
        forall|slot: u64| #[trigger]
            self.tables@.contains_key(slot) ==> slot < STANDARD_METHODS && table_fits(
                routes_of(self.tables@[slot]),
                self.handlers@.len(),
            )
    }

    /// The handlers, in the order in which they were registered.
    pub closed spec fn handlers(self) -> Seq<H> {
        self.handlers@
    }

    /// The routes that were registered for a method; `None` where none was.
    pub closed spec fn routes(self, method: MethodView) -> Option<Routes> {
        match method.slot() {
            Some(slot) => if self.tables@.contains_key(slot) {
                Some(routes_of(self.tables@[slot]))
            } else {
                None
            },
            None => None,
        }
    }

    /// The route that the router finds for a request: the best of those of
    /// the request's method for the unmatched part of its path.
    pub open spec fn find<S>(self, req: RequestView<S>) -> Option<Found> {
        match self.routes(req.method) {
            Some(routes) => best_route(routes, req.unmatched()),
            None => None,
        }
    }

    /// What one registration does: one more handler, and one more route that
    /// leads to it for each of `methods`.
    pub open spec fn extends(
        self,
        before: Router<H>,
        methods: Set<MethodView>,
        pattern: Seq<char>,
        handler: H,
    ) -> bool {
        &&& self.handlers() == before.handlers().push(handler)
        &&& forall|m: MethodView| #[trigger]
            self.routes(m) == if methods.contains(m) {
                with_route(before.routes(m), pattern, before.handlers().len() as usize)
            } else {
                before.routes(m)
            }
    }

    /// A router without routes.
    pub fn new() -> (router: Router<H>)
        ensures
            router.handlers() == Seq::<H>::empty(),
            forall|m: MethodView| #[trigger] router.routes(m) is None,
    {
        broadcast use vstd::std_specs::hash::group_hash_axioms;

        Router { handlers: Vec::new(), tables: HashMap::new() }
    }

    /// One more handler, behind those that are there.
    fn keep(self, handler: H) -> (router: Router<H>)
        ensures
            router.handlers() == self.handlers().push(handler),
            forall|m: MethodView| #[trigger] router.routes(m) == self.routes(m),
    {
        proof {
            use_type_invariant(&self);
        }
        let Router { handlers, tables } = self;
        let mut handlers = handlers;
        handlers.push(handler);
        Router { handlers, tables }
    }

    /// One more route for the method numbered `slot`, to a handler that is there.
    fn bind(self, slot: u64, pattern: &str, handler: usize) -> (router: Router<H>)
        requires
            slot < STANDARD_METHODS,
            well_formed(pattern@),
            handler < self.handlers().len(),
        ensures
            router.handlers() == self.handlers(),
            forall|m: MethodView| #[trigger]
                router.routes(m) == if m.slot() == Some(slot) {
                    with_route(self.routes(m), pattern@, handler)
                } else {
                    self.routes(m)
                },
    {
        broadcast use vstd::std_specs::hash::group_hash_axioms;

        proof {
            use_type_invariant(&self);
            well_formed_parses(pattern@);
        }
        let Router { handlers, tables } = self;
        let mut tables = tables;
        let mut table = match tables.remove(&slot) {
            Some(table) => table,
            None => table_new(),
        };
        let added = table_add(&mut table, pattern, handler);
        assert(added);
        tables.insert(slot, table);
        Router { handlers, tables }
    }
}

impl<H> Router<H> {
    /// Hands the router to `builder` and returns it as `builder` leaves it.
    pub fn with<F: Fn(&mut Router<H>)>(self, builder: F) -> (router: Router<H>)
        requires
            forall|r: &mut Router<H>| *r == self ==> #[trigger] call_requires(builder, (r,)),
        ensures
            exists|r: &mut Router<H>|
                *r == self && *final(r) == router && #[trigger] call_ensures(builder, (r,), ()),
    {
        let mut router = self;
        builder(&mut router);
        router
    }
}

/// A path on its way into a router: each method called on it registers a
/// handler for the path under that method.
pub struct Route<'a, 'b, H>(pub &'a mut Router<H>, pub &'b str);

impl<H> Router<H> {
    /// Starts the registration of handlers for a path.
    pub fn route<'a, 'b>(&'a mut self, path: &'b str) -> (route: Route<'a, 'b, H>)
        ensures
            *route.0 == *old(self),
            *final(route.0) == *final(self),
            route.1@ == path@,
    {
        Route(self, path)
    }
}

impl<'a, 'b, H> Route<'a, 'b, H> {
    /// Registers a handler for the path under the method numbered `slot`.
    fn on(self, slot: u64, handler: H) -> (route: Self)
        requires
            slot < STANDARD_METHODS,
            well_formed(self.1@),
        ensures
            route.1@ == self.1@,
            *final(route.0) == *final(self.0),
            route.0.extends(*old(self.0), set![MethodView::standard(slot)], self.1@, handler),
    {
        let Route(router, path) = self;
        let mut taken = Router::new();
        std::mem::swap(router, &mut taken);
        let ghost before = taken;
        let id = taken.handlers.len();
        let kept = taken.keep(handler);
        let mut bound = kept.bind(slot, path, id);
        std::mem::swap(router, &mut bound);
        proof {
            assert forall|m: MethodView| #[trigger]
                router.routes(m) == if set![MethodView::standard(slot)].contains(m) {
                    with_route(before.routes(m), path@, before.handlers().len() as usize)
                } else {
                    before.routes(m)
                } by {
                if m.slot() is Some {
                    crate::method::slot_round_trip(m);
                }
            }
        }
        Route(router, path)
    }

    /// Registers a handler for the path under CONNECT.
    pub fn connect(self, handler: H) -> (route: Self)
        requires
            well_formed(self.1@),
        ensures
            route.1@ == self.1@,
            *final(route.0) == *final(self.0),
            route.0.extends(*old(self.0), set![MethodView::Connect], self.1@, handler),
    {
        self.on(0, handler)
    }

    /// Registers a handler for the path under DELETE.
    pub fn delete(self, handler: H) -> (route: Self)
        requires
            well_formed(self.1@),
        ensures
            route.1@ == self.1@,
            *final(route.0) == *final(self.0),
            route.0.extends(*old(self.0), set![MethodView::Delete], self.1@, handler),
    {
        self.on(1, handler)
    }

    /// Registers a handler for the path under GET.
    pub fn get(self, handler: H) -> (route: Self)
        requires
            well_formed(self.1@),
        ensures
            route.1@ == self.1@,
            *final(route.0) == *final(self.0),
            route.0.extends(*old(self.0), set![MethodView::Get], self.1@, handler),
    {
        self.on(2, handler)
    }

    /// Registers a handler for the path under HEAD.
    pub fn head(self, handler: H) -> (route: Self)
        requires
            well_formed(self.1@),
        ensures
            route.1@ == self.1@,
            *final(route.0) == *final(self.0),
            route.0.extends(*old(self.0), set![MethodView::Head], self.1@, handler),
    {
        self.on(3, handler)
    }

    /// Registers a handler for the path under OPTIONS.
    pub fn options(self, handler: H) -> (route: Self)
        requires
            well_formed(self.1@),
        ensures
            route.1@ == self.1@,
            *final(route.0) == *final(self.0),
            route.0.extends(*old(self.0), set![MethodView::Options], self.1@, handler),
    {
        self.on(4, handler)
    }

    /// Registers a handler for the path under PATCH.
    pub fn patch(self, handler: H) -> (route: Self)
        requires
            well_formed(self.1@),
        ensures
            route.1@ == self.1@,
            *final(route.0) == *final(self.0),
            route.0.extends(*old(self.0), set![MethodView::Patch], self.1@, handler),
    {
        self.on(5, handler)
    }

    /// Registers a handler for the path under POST.
    pub fn post(self, handler: H) -> (route: Self)
        requires
            well_formed(self.1@),
        ensures
            route.1@ == self.1@,
            *final(route.0) == *final(self.0),
            route.0.extends(*old(self.0), set![MethodView::Post], self.1@, handler),
    {
        self.on(6, handler)
    }

    /// Registers a handler for the path under PUT.
    pub fn put(self, handler: H) -> (route: Self)
        requires
            well_formed(self.1@),
        ensures
            route.1@ == self.1@,
            *final(route.0) == *final(self.0),
            route.0.extends(*old(self.0), set![MethodView::Put], self.1@, handler),
    {
        self.on(7, handler)
    }

    /// Registers a handler for the path under TRACE.
    pub fn trace(self, handler: H) -> (route: Self)
        requires
            well_formed(self.1@),
        ensures
            route.1@ == self.1@,
            *final(route.0) == *final(self.0),
            route.0.extends(*old(self.0), set![MethodView::Trace], self.1@, handler),
    {
        self.on(8, handler)
    }

    /// Registers one handler for the path under each of the standard methods.
    pub fn any(self, handler: H) -> (route: Self)
        requires
            well_formed(self.1@),
        ensures
            route.1@ == self.1@,
            *final(route.0) == *final(self.0),
            route.0.extends(*old(self.0), Set::new(|m: MethodView| m.slot() is Some), self.1@, handler),
    {
        let Route(router, path) = self;
        let mut taken = Router::new();
        std::mem::swap(router, &mut taken);
        let ghost before = taken;
        let id = taken.handlers.len();
        let mut current = taken.keep(handler);
        let mut slot: u64 = 0;
        while slot < STANDARD_METHODS
            invariant
                slot <= STANDARD_METHODS,
                well_formed(path@),
                id == before.handlers().len(),
                current.handlers() == before.handlers().push(handler),
                forall|m: MethodView| #[trigger]
                    current.routes(m) == if m.slot() is Some && m.slot().unwrap() < slot {
                        with_route(before.routes(m), path@, id)
                    } else {
                        before.routes(m)
                    },
            decreases STANDARD_METHODS - slot,
        {
            current = current.bind(slot, path, id);
            slot += 1;
        }
        std::mem::swap(router, &mut current);
        proof {
            assert forall|m: MethodView| #[trigger]
                router.routes(m) == if Set::new(|m: MethodView| m.slot() is Some).contains(m) {
                    with_route(before.routes(m), path@, before.handlers().len() as usize)
                } else {
                    before.routes(m)
                } by {
                if m.slot() is Some {
                    crate::method::slot_round_trip(m);
                }
            }
        }
        Route(router, path)
    }
}

impl<S, H: Handler<S>> Handler<S> for Router<H> {
    open spec fn handles(&self, req: RequestView<S>, next: Relation<S>, out: RequestView<S>) -> bool {
        match self.find(req) {
            Some(found) => self.handlers()[found.handler as int].handles(routed(req, found), next, out),
            None => admits(next, passed_on(req), out),
        }
    }

    fn run<N: Next<S>>(&self, req: Request<S>, next: &N) -> (out: Request<S>) {
        broadcast use vstd::std_specs::hash::group_hash_axioms;

        proof {
            use_type_invariant(self);
        }
        let ghost arrived = req@;
        let mut req = req;
        let offset = match req.take_matched() {
            Some(n) => n,
            None => 0,
        };
        let table = match req.method().slot() {
            Some(slot) => self.tables.get(&slot),
            None => None,
        };
        let found = match table {
            Some(table) => {
                let path = req.path();
                let len = path.unicode_len();
                let rest = path.substring_char(offset, len);
                proof {
                    assert(rest@ =~= arrived.unmatched());
                    slashes_fit(rest@);
                }
                match table_best_match(table, rest) {
                    Some((handler, captures)) => {
                        let start = match captures.wildcard() {
                            Some(caught) => len - slack_of(rest) - caught.unicode_len(),
                            None => len,
                        };
                        Some((handler, start, captures))
                    },
                    None => None,
                }
            },
            None => None,
        };
        match found {
            Some((handler, start, captures)) => {
                req.set_route(start, captures);
                self.handlers[handler].run(req, next)
            },
            None => {
                let out = next.run(req);
                proof {
                    assert forall|k: Relation<S>| within(relation_of(next), k) implies #[trigger] self.handles(
                        arrived,
                        k,
                        out@,
                    ) by {
                        assert(admits(relation_of(next), passed_on(arrived), out@));
                    }
                }
                out
            },
        }
    }
}

/// What a router adds to a request: the parameters of the route that matched.
pub trait RouterRequestExt {
    /// The text that the route's parameter of this name matched, as a
    /// mathematical value.
    spec fn captured(&self, name: Seq<char>) -> Option<Seq<char>>;

    /// The text that the route's parameter of this name matched.
    fn param(&self, name: &str) -> (value: Option<&str>)
        ensures
            value is Some <==> self.captured(name@) is Some,
            value matches Some(v) ==> self.captured(name@) == Some(v@),
    ;
}

impl<S> RouterRequestExt for Request<S> {
    open spec fn captured(&self, name: Seq<char>) -> Option<Seq<char>> {
        self@.param(name)
    }

    fn param(&self, name: &str) -> (value: Option<&str>) {
        match self.captures() {
            Some(captures) => captures.get(name),
            None => None,
        }
    }
}

} // verus!

verus! {

/// A request of a method for which nothing is registered, or for whose path
/// no route is found, goes on to the rest of the pipeline: without the
/// marker of a router before this one, and else as it came. A request that
/// came without a marker goes on untouched.
pub proof fn miss_falls_through<S, H: Handler<S>>(
    router: Router<H>,
    req: RequestView<S>,
    next: Relation<S>,
    out: RequestView<S>,
)
    requires
        router.routes(req.method) is None || router.find(req) is None,
    ensures
        router.handles(req, next, out) <==> admits(next, passed_on(req), out),
        req.matched is None ==> passed_on(req) == req,
{
}

/// A request for which a route is found goes to the handler of that route
/// with what the route caught, and with the continuation of the router. Where
/// the route has no wildcard, the marker is at the end of the path: nothing
/// is left to match.
pub proof fn match_runs_the_handler<S, H: Handler<S>>(
    router: Router<H>,
    found: Found,
    req: RequestView<S>,
    next: Relation<S>,
    out: RequestView<S>,
)
    requires
        router.find(req) == Some(found),
    ensures
        router.handles(req, next, out) <==> router.handlers()[found.handler as int].handles(
            routed(req, found),
            next,
            out,
        ),
        routed(req, found).captures == Some(found.captures),
        found.captures.wildcard is None ==> routed(req, found).matched == Some(req.path.len()),
        found.captures.wildcard is None ==> routed(req, found).unmatched() == Seq::<char>::empty(),
{
    if found.captures.wildcard is None {
        assert(req.path.skip(req.path.len() as int) =~= Seq::<char>::empty());
    }
}

/// Routers nest. Where a router finds a route whose handler is a router, and
/// that router finds a route for the request as it gets it, the request goes
/// to the handler of the inner route with what the inner route caught; the
/// inner router has matched against the part of the path behind the marker of
/// the outer one. Where the inner router finds no route, the request goes on
/// to what is behind the outer router, with what the outer route caught and
/// without a marker.
pub proof fn routers_nest<S, H: Handler<S>>(
    outer: Router<Router<H>>,
    found: Found,
    req: RequestView<S>,
    next: Relation<S>,
    out: RequestView<S>,
)
    requires
        outer.find(req) == Some(found),
    ensures
        ({
            let inner = outer.handlers()[found.handler as int];
            let handed = routed(req, found);
            match inner.find(handed) {
                Some(deeper) => outer.handles(req, next, out) <==> inner.handlers()[deeper.handler as int].handles(
                    routed(handed, deeper),
                    next,
                    out,
                ),
                None => outer.handles(req, next, out) <==> admits(next, passed_on(handed), out),
            }
        }),
        routed(req, found).path == req.path,
        passed_on(routed(req, found)).captures == Some(found.captures),
{
}

} // verus!
