use atium::endpoint::endpoint;
use atium::error::RequestError;
use atium::file::{content_type, content_type_or_default, is_servable, plan, Bound, FilePlan};
use atium::handler::{Handler, Terminal};
use atium::logger::{Level, Logger};
use atium::pattern::is_well_formed;
use atium::respond::RespondRequestExt;
use atium::responder::Responder;
use atium::router::Router;
use atium::server::{step, Action, Event, Phase, ServerError, GRACE_SECONDS};
use atium::{Method, Request, Response, StatusCode};

fn request() -> Request<()> {
    Request::new(Method::Get, "/")
}

fn with_status(code: u16) -> Request<()> {
    let mut req = request();
    req.set_res(Response::new().with_status(StatusCode::from_u16(code).unwrap()));
    req
}

#[test]
fn logger_levels_by_status() {
    let logger = Logger::default();
    assert_eq!(logger.level(&request()), Level::Error);
    assert_eq!(logger.level(&with_status(200)), Level::Info);
    assert_eq!(logger.level(&with_status(302)), Level::Info);
    assert_eq!(logger.level(&with_status(399)), Level::Info);
    assert_eq!(logger.level(&with_status(400)), Level::Warn);
    assert_eq!(logger.level(&with_status(404)), Level::Warn);
    assert_eq!(logger.level(&with_status(499)), Level::Warn);
    assert_eq!(logger.level(&with_status(500)), Level::Error);
    assert_eq!(logger.level(&with_status(599)), Level::Error);
    assert_eq!(logger.level(&with_status(600)), Level::Info);
    assert_eq!(logger.level(&with_status(100)), Level::Info);
}

#[test]
fn whole_file_without_a_range() {
    assert_eq!(
        plan(1000, None),
        FilePlan { status: 200, start: 0, length: 1000, range: None, total: 1000 }
    );
    assert_eq!(plan(0, None), FilePlan { status: 200, start: 0, length: 0, range: None, total: 0 });
}

#[test]
fn part_of_a_file_for_a_range() {
    assert!(is_servable(1000, Bound::Included(100), Bound::Included(199)));
    assert_eq!(
        plan(1000, Some((Bound::Included(100), Bound::Included(199)))),
        FilePlan { status: 206, start: 100, length: 100, range: Some((100, 199)), total: 1000 }
    );
}

#[test]
fn open_ended_range_runs_to_the_end() {
    assert!(is_servable(1000, Bound::Included(900), Bound::Unbounded));
    assert_eq!(
        plan(1000, Some((Bound::Included(900), Bound::Unbounded))),
        FilePlan { status: 206, start: 900, length: 100, range: Some((900, 999)), total: 1000 }
    );
    assert_eq!(
        plan(1000, Some((Bound::Unbounded, Bound::Unbounded))),
        FilePlan { status: 206, start: 0, length: 1000, range: Some((0, 999)), total: 1000 }
    );
}

#[test]
fn range_beyond_the_end_is_cut() {
    assert!(is_servable(1000, Bound::Included(990), Bound::Included(5000)));
    assert_eq!(
        plan(1000, Some((Bound::Included(990), Bound::Included(5000)))),
        FilePlan { status: 206, start: 990, length: 10, range: Some((990, 999)), total: 1000 }
    );
}

#[test]
fn range_from_the_start_to_a_byte() {
    assert_eq!(
        plan(1000, Some((Bound::Unbounded, Bound::Included(499)))),
        FilePlan { status: 206, start: 0, length: 500, range: Some((0, 499)), total: 1000 }
    );
    assert_eq!(
        plan(1000, Some((Bound::Unbounded, Bound::Included(0)))),
        FilePlan { status: 206, start: 0, length: 1, range: Some((0, 0)), total: 1000 }
    );
}

#[test]
fn excluded_bounds_move_by_one() {
    assert!(is_servable(1000, Bound::Excluded(99), Bound::Excluded(200)));
    assert_eq!(
        plan(1000, Some((Bound::Excluded(99), Bound::Excluded(200)))),
        FilePlan { status: 206, start: 100, length: 100, range: Some((100, 199)), total: 1000 }
    );
}

#[test]
fn ranges_that_cannot_be_served() {
    assert!(!is_servable(1000, Bound::Included(1001), Bound::Unbounded));
    assert!(!is_servable(1000, Bound::Included(500), Bound::Included(499)));
    assert!(!is_servable(0, Bound::Unbounded, Bound::Unbounded));
    assert!(!is_servable(0, Bound::Included(0), Bound::Included(0)));
    assert!(!is_servable(10, Bound::Excluded(u64::MAX), Bound::Unbounded));
    assert!(!is_servable(10, Bound::Unbounded, Bound::Excluded(0)));
    assert!(!is_servable(10, Bound::Included(0), Bound::Included(u64::MAX)));
    assert!(is_servable(10, Bound::Included(1), Bound::Included(u64::MAX)));
    assert!(is_servable(1000, Bound::Included(1000), Bound::Included(1000)));
}

#[test]
fn range_at_the_end_of_the_file_is_empty() {
    assert_eq!(
        plan(1000, Some((Bound::Included(1000), Bound::Included(1000)))),
        FilePlan { status: 206, start: 1000, length: 0, range: Some((1000, 999)), total: 1000 }
    );
}

#[test]
fn content_type_by_extension() {
    assert_eq!(content_type(Some("html")), "text/html");
    assert_eq!(content_type(Some("HTML")), "text/html");
    assert_eq!(content_type(Some("png")), "image/png");
    assert_eq!(content_type(Some("json")), "application/json");
    assert_eq!(content_type(Some("no-such-extension")), "video/*");
    assert_eq!(content_type(Some("")), "video/*");
    assert_eq!(content_type(None), "video/*");
}

#[test]
fn content_type_falls_back_to_video() {
    assert_eq!(content_type_or_default(None), "video/*");
    assert_eq!(content_type_or_default(Some(String::from("text/css"))), "text/css");
}

#[test]
fn server_stops_at_once_when_the_transport_fails() {
    match step(Phase::Serving, Event::Failed("boom")) {
        (Phase::Stopped, Action::Finish(Err(ServerError::UnexpectedShutdown("boom")))) => {}
        other => panic!("{:?}", other),
    }
}

#[test]
fn server_drains_when_interrupted() {
    match step::<&str>(Phase::Serving, Event::Interrupted) {
        (Phase::Draining, Action::Drain { grace_seconds }) => {
            assert_eq!(grace_seconds, 5);
            assert_eq!(grace_seconds, GRACE_SECONDS);
        }
        other => panic!("{:?}", other),
    }
}

#[test]
fn draining_server_stops_in_good_order() {
    match step::<&str>(Phase::Draining, Event::Drained) {
        (Phase::Stopped, Action::Finish(Ok(()))) => {}
        other => panic!("{:?}", other),
    }
}

#[test]
fn draining_server_reports_the_transport_error() {
    match step(Phase::Draining, Event::Failed(3)) {
        (Phase::Stopped, Action::Finish(Err(ServerError::Server(3)))) => {}
        other => panic!("{:?}", other),
    }
}

#[test]
fn draining_server_is_stopped_by_force() {
    match step::<u8>(Phase::Draining, Event::GraceElapsed) {
        (Phase::Stopped, Action::Finish(Err(ServerError::ForcedShutdown))) => {}
        other => panic!("{:?}", other),
    }
}

#[test]
fn events_out_of_place_change_nothing() {
    assert!(matches!(step::<u8>(Phase::Serving, Event::Drained), (Phase::Serving, Action::Wait)));
    assert!(matches!(step::<u8>(Phase::Serving, Event::GraceElapsed), (Phase::Serving, Action::Wait)));
    assert!(matches!(step::<u8>(Phase::Draining, Event::Interrupted), (Phase::Draining, Action::Wait)));
    assert!(matches!(step::<u8>(Phase::Stopped, Event::Interrupted), (Phase::Stopped, Action::Wait)));
    assert!(matches!(step(Phase::Stopped, Event::Failed(1u8)), (Phase::Stopped, Action::Wait)));
    assert!(matches!(step::<u8>(Phase::Stopped, Event::Drained), (Phase::Stopped, Action::Wait)));
}

#[test]
fn values_answer_requests() {
    let mut req = request();
    ().respond_to(&mut req);
    assert!(req.res().is_none());

    StatusCode::not_found().respond_to(&mut req);
    assert_eq!(req.res().unwrap().status().as_u16(), 404);
    assert!(req.res().unwrap().body().is_empty());

    "hello".respond_to(&mut req);
    assert_eq!(req.res().unwrap().status().as_u16(), 200);
    assert_eq!(req.res().unwrap().body(), &b"hello".to_vec());

    String::from("gr\u{fc}\u{df}e").respond_to(&mut req);
    assert_eq!(req.res().unwrap().body(), &"gr\u{fc}\u{df}e".as_bytes().to_vec());

    vec![1u8, 2].respond_to(&mut req);
    assert_eq!(req.res().unwrap().body(), &vec![1u8, 2]);

    (StatusCode::internal_server_error(), vec![3u8]).respond_to(&mut req);
    assert_eq!(req.res().unwrap().status().as_u16(), 500);
    assert_eq!(req.res().unwrap().body(), &vec![3u8]);

    (StatusCode::not_found(), String::from("gone")).respond_to(&mut req);
    assert_eq!(req.res().unwrap().status().as_u16(), 404);
    assert_eq!(req.res().unwrap().body(), &b"gone".to_vec());

    Response::new().with_header(String::from("a"), String::from("b")).respond_to(&mut req);
    assert_eq!(req.res().unwrap().header("a"), Some("b"));
}

#[test]
fn results_answer_by_their_side() {
    let mut req = request();
    let good: Result<&'static str, StatusCode> = Ok("fine");
    good.respond_to(&mut req);
    assert_eq!(req.res().unwrap().body(), &b"fine".to_vec());
    let bad: Result<&'static str, StatusCode> = Err(StatusCode::internal_server_error());
    bad.respond_to(&mut req);
    assert_eq!(req.res().unwrap().status().as_u16(), 500);
    assert!(req.res().unwrap().body().is_empty());
}

#[test]
fn responses_are_made_of_plain_values() {
    assert_eq!(Response::from(StatusCode::not_found()).status().as_u16(), 404);
    assert_eq!(Response::from("abc").body(), &b"abc".to_vec());
    assert_eq!(Response::from(String::from("abc")).body(), &b"abc".to_vec());
    assert_eq!(Response::from(vec![1u8]).body(), &vec![1u8]);
    let both = Response::from((StatusCode::partial_content(), vec![5u8]));
    assert_eq!(both.status().as_u16(), 206);
    assert_eq!(both.body(), &vec![5u8]);
    let text = Response::from((StatusCode::not_found(), String::from("no")));
    assert_eq!(text.status().as_u16(), 404);
    assert_eq!(text.body(), &b"no".to_vec());
}

#[test]
fn builder_completes_the_response() {
    let mut req = request();
    req.ok()
        .status(StatusCode::partial_content())
        .header(String::from("content-type"), String::from("text/plain"))
        .body(vec![1, 2, 3]);
    let res = req.res().unwrap();
    assert_eq!(res.status().as_u16(), 206);
    assert_eq!(res.header("content-type"), Some("text/plain"));
    assert_eq!(res.body(), &vec![1u8, 2, 3]);
}

#[test]
fn respond_sets_the_response_given() {
    let mut req = request();
    req.respond("first");
    assert_eq!(req.res().unwrap().body(), &b"first".to_vec());
    req.respond(StatusCode::not_found()).body(vec![4]);
    let res = req.res().unwrap();
    assert_eq!(res.status().as_u16(), 404);
    assert_eq!(res.body(), &vec![4u8]);
}

#[test]
fn endpoint_answers_with_what_the_function_returns() {
    let hello = endpoint(|req: Request<()>| {
        let body = format!("hello from {}", req.path());
        (req, body)
    });
    let out = hello.run(Request::new(Method::Get, "/here"), &Terminal);
    assert_eq!(out.res().unwrap().body(), &b"hello from /here".to_vec());
    let failing = endpoint(|req: Request<()>| {
        let outcome: Result<&'static str, StatusCode> = Err(StatusCode::not_found());
        (req, outcome)
    });
    let out = failing.run(Request::new(Method::Get, "/"), &Terminal);
    assert_eq!(out.res().unwrap().status().as_u16(), 404);
}

#[test]
fn builder_function_sets_up_a_router() {
    let hello = |req: Request<()>| (req, "hello");
    assert!(is_well_formed("/") && is_well_formed("/again"));
    let router = Router::new().with(|r| {
        r.route("/").get(endpoint(hello));
        r.route("/again").get(endpoint(hello)).post(endpoint(hello));
    });
    let out = router.run(Request::new(Method::Post, "/again"), &Terminal);
    assert_eq!(out.res().unwrap().body(), &b"hello".to_vec());
    let out = router.run(Request::new(Method::Post, "/"), &Terminal);
    assert!(out.res().is_none());
}

#[test]
fn request_error_keeps_the_request() {
    let error = RequestError::new(Request::<()>::new(Method::Get, "/failed"), "cause");
    assert_eq!(*error.error(), "cause");
    assert_eq!(error.req().path(), "/failed");
    let (cause, req) = error.into_parts();
    assert_eq!(cause, "cause");
    assert_eq!(req.path(), "/failed");
}

fn shared_between_threads<T: Send + Sync + 'static>(_: &T) {}

#[test]
fn handlers_can_be_shared_between_threads() {
    let hello = endpoint(|req: Request<String>| (req, "hello"));
    shared_between_threads(&hello);
    let mut router = Router::new();
    assert!(is_well_formed("/"));
    router.route("/").get(hello);
    shared_between_threads(&router);
    let pipeline = (atium::state::State(String::from("shared")), vec![router]);
    shared_between_threads(&pipeline);
    shared_between_threads(&Logger::default());
    let out = pipeline.run(Request::new(Method::Get, "/"), &Terminal);
    assert_eq!(out.res().unwrap().body(), &b"hello".to_vec());
    assert_eq!(out.ext().map(|s| s.as_str()), Some("shared"));
}
