use atium::handler::{Handler, HandlerFn, Next, NextFn, Terminal};
use atium::{Method, Request};

type Trace = Vec<String>;

fn note(req: &mut Request<Trace>, event: String) {
    let mut trace = req.take_ext().unwrap_or_default();
    trace.push(event);
    req.set_ext(trace);
}

fn trace_of(req: &Request<Trace>) -> Vec<&str> {
    match req.ext() {
        Some(trace) => trace.iter().map(|s| s.as_str()).collect(),
        None => Vec::new(),
    }
}

/// Notes `before_k`, hands the request on unless told to stop, notes `after_k`.
struct Stage {
    k: usize,
    stop: bool,
}

fn stage(k: usize) -> Stage {
    Stage { k, stop: false }
}

fn stopper(k: usize) -> Stage {
    Stage { k, stop: true }
}

impl Handler<Trace> for Stage {
    fn run<N: Next<Trace>>(&self, mut req: Request<Trace>, next: &N) -> Request<Trace> {
        note(&mut req, format!("before_{}", self.k));
        if self.stop {
            return req;
        }
        let mut out = next.run(req);
        note(&mut out, format!("after_{}", self.k));
        out
    }
}

fn terminal(mut req: Request<Trace>) -> Request<Trace> {
    note(&mut req, String::from("terminal"));
    req
}

fn fresh() -> Request<Trace> {
    Request::new(Method::Get, "/")
}

#[test]
fn pair_runs_in_onion_order() {
    let out = (stage(1), stage(2)).run(fresh(), &NextFn::new(terminal));
    assert_eq!(trace_of(&out), vec!["before_1", "before_2", "terminal", "after_2", "after_1"]);
}

#[test]
fn nested_pairs_run_in_onion_order() {
    let chain = (stage(1), (stage(2), (stage(3), stage(4))));
    let out = chain.run(fresh(), &NextFn::new(terminal));
    assert_eq!(
        trace_of(&out),
        vec![
            "before_1", "before_2", "before_3", "before_4", "terminal", "after_4", "after_3",
            "after_2", "after_1",
        ]
    );
}

#[test]
fn list_runs_in_onion_order() {
    let chain: Vec<Stage> = (1..=5).map(stage).collect();
    let out = chain.run(fresh(), &NextFn::new(terminal));
    assert_eq!(
        trace_of(&out),
        vec![
            "before_1", "before_2", "before_3", "before_4", "before_5", "terminal", "after_5",
            "after_4", "after_3", "after_2", "after_1",
        ]
    );
}

#[test]
fn list_and_nested_pairs_agree() {
    let list = vec![stage(1), stage(2), stage(3)].run(fresh(), &NextFn::new(terminal));
    let pairs = (stage(1), (stage(2), stage(3))).run(fresh(), &NextFn::new(terminal));
    assert_eq!(trace_of(&list), trace_of(&pairs));
}

#[test]
fn empty_list_is_the_continuation() {
    let chain: Vec<Stage> = Vec::new();
    let out = chain.run(fresh(), &NextFn::new(terminal));
    assert_eq!(trace_of(&out), vec!["terminal"]);
}

#[test]
fn list_of_one_wraps_the_continuation() {
    let out = vec![stage(7)].run(fresh(), &NextFn::new(terminal));
    assert_eq!(trace_of(&out), vec!["before_7", "terminal", "after_7"]);
}

#[test]
fn each_handler_runs_once() {
    let chain: Vec<Stage> = (1..=4).map(stage).collect();
    let out = chain.run(fresh(), &NextFn::new(terminal));
    let trace = trace_of(&out);
    for k in 1..=4 {
        let before = format!("before_{}", k);
        let after = format!("after_{}", k);
        assert_eq!(trace.iter().filter(|e| **e == before).count(), 1);
        assert_eq!(trace.iter().filter(|e| **e == after).count(), 1);
    }
    assert_eq!(trace.iter().filter(|e| **e == "terminal").count(), 1);
}

#[test]
fn list_stops_where_a_handler_does_not_call_next() {
    let chain = vec![stage(1), stage(2), stopper(3), stage(4), stage(5)];
    let out = chain.run(fresh(), &NextFn::new(terminal));
    assert_eq!(trace_of(&out), vec!["before_1", "before_2", "before_3", "after_2", "after_1"]);
}

#[test]
fn list_stops_at_the_first_handler() {
    let chain = vec![stopper(1), stage(2), stage(3)];
    let out = chain.run(fresh(), &NextFn::new(terminal));
    assert_eq!(trace_of(&out), vec!["before_1"]);
}

#[test]
fn list_stops_at_the_last_handler() {
    let chain = vec![stage(1), stage(2), stopper(3)];
    let out = chain.run(fresh(), &NextFn::new(terminal));
    assert_eq!(trace_of(&out), vec!["before_1", "before_2", "before_3", "after_2", "after_1"]);
}

#[test]
fn pair_stops_at_the_first_handler() {
    let out = (stopper(1), stage(2)).run(fresh(), &NextFn::new(terminal));
    assert_eq!(trace_of(&out), vec!["before_1"]);
}

#[test]
fn pair_stops_at_the_second_handler() {
    let out = (stage(1), stopper(2)).run(fresh(), &NextFn::new(terminal));
    assert_eq!(trace_of(&out), vec!["before_1", "before_2", "after_1"]);
}

#[test]
fn nested_pairs_stop_in_the_middle() {
    let chain = (stage(1), (stopper(2), (stage(3), stage(4))));
    let out = chain.run(fresh(), &NextFn::new(terminal));
    assert_eq!(trace_of(&out), vec!["before_1", "before_2", "after_1"]);
}

#[test]
fn terminal_hands_the_request_back() {
    let out = vec![stage(1)].run(fresh(), &Terminal);
    assert_eq!(trace_of(&out), vec!["before_1", "after_1"]);
    assert_eq!(out.path(), "/");
    assert!(out.res().is_none());
}

#[test]
fn function_handler_ends_the_pipeline() {
    let last = HandlerFn::new(|mut req: Request<Trace>| {
        note(&mut req, String::from("endpoint"));
        req
    });
    let out = (stage(1), last).run(fresh(), &NextFn::new(terminal));
    assert_eq!(trace_of(&out), vec!["before_1", "endpoint", "after_1"]);
}

#[test]
fn lists_nest_in_pairs() {
    let chain = (vec![stage(1), stage(2)], vec![stage(3), stage(4)]);
    let out = chain.run(fresh(), &NextFn::new(terminal));
    assert_eq!(
        trace_of(&out),
        vec![
            "before_1", "before_2", "before_3", "before_4", "terminal", "after_4", "after_3",
            "after_2", "after_1",
        ]
    );
}
