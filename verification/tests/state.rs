use atium::handler::{Handler, HandlerFn, Next, NextFn, Terminal};
use atium::state::State;
use atium::{Method, Request, Response};

/// Writes the length of the list it finds in the request into the body.
struct Count;

impl Handler<Vec<u8>> for Count {
    fn run<N: Next<Vec<u8>>>(&self, mut req: Request<Vec<u8>>, next: &N) -> Request<Vec<u8>> {
        let seen = req.ext().map(|list| list.len() as u8);
        req.set_res(Response::new().with_body(vec![seen.unwrap_or(255)]));
        next.run(req)
    }
}

#[test]
fn state_is_seen_downstream() {
    let out = (State(vec![1u8, 2, 3]), Count).run(Request::new(Method::Get, "/"), &Terminal);
    assert_eq!(out.res().unwrap().body(), &vec![3u8]);
    assert_eq!(out.ext(), Some(&vec![1u8, 2, 3]));
}

#[test]
fn state_is_seen_by_every_handler_downstream() {
    let chain = (State(String::from("db")), vec![
        HandlerSeen(1),
        HandlerSeen(2),
        HandlerSeen(3),
    ]);
    let last = NextFn::new(|req: Request<String>| {
        assert_eq!(req.ext().map(|s| s.as_str()), Some("db"));
        req
    });
    let out = chain.run(Request::new(Method::Get, "/"), &last);
    assert_eq!(out.ext().map(|s| s.as_str()), Some("db"));
}

struct HandlerSeen(u8);

impl Handler<String> for HandlerSeen {
    fn run<N: Next<String>>(&self, req: Request<String>, next: &N) -> Request<String> {
        assert_eq!(req.ext().map(|s| s.as_str()), Some("db"));
        next.run(req)
    }
}

#[test]
fn without_state_nothing_is_seen() {
    let out = Count.run(Request::new(Method::Get, "/"), &Terminal);
    assert_eq!(out.res().unwrap().body(), &vec![255u8]);
    assert_eq!(out.ext(), None);
}

#[test]
fn each_request_has_its_own_copy() {
    let state = State(vec![1u8, 2, 3]);
    let grow = HandlerFn::new(|mut req: Request<Vec<u8>>| {
        let mut list = req.take_ext().unwrap();
        list.push(4);
        req.set_ext(list);
        req
    });
    let keep = HandlerFn::new(|req: Request<Vec<u8>>| req);
    let first = state.run(Request::new(Method::Get, "/a"), &NextFn::new(|r| grow.run(r, &Terminal)));
    let second = state.run(Request::new(Method::Get, "/b"), &NextFn::new(|r| keep.run(r, &Terminal)));
    assert_eq!(first.ext(), Some(&vec![1u8, 2, 3, 4]));
    assert_eq!(second.ext(), Some(&vec![1u8, 2, 3]));
    assert_eq!(state.0, vec![1u8, 2, 3]);
}

#[test]
fn state_replaces_a_value_that_was_there() {
    let mut req: Request<u32> = Request::new(Method::Get, "/");
    req.set_ext(7);
    let out = State(9u32).run(req, &Terminal);
    assert_eq!(out.ext(), Some(&9));
}

#[test]
fn state_leaves_the_rest_of_the_request() {
    let req: Request<u32> = Request::new(Method::Put, "/things/1")
        .with_query(String::from("a=b"))
        .with_header(String::from("accept"), String::from("*/*"))
        .with_body(vec![1, 2]);
    let out = State(5u32).run(req, &Terminal);
    assert_eq!(out.method(), &Method::Put);
    assert_eq!(out.path(), "/things/1");
    assert_eq!(out.query(), Some("a=b"));
    assert_eq!(out.header("accept"), Some("*/*"));
    assert_eq!(out.body(), &vec![1u8, 2]);
    assert!(out.res().is_none());
    assert_eq!(out.matched(), None);
}
