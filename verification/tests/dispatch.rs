use redirector::file::{next_chunk, CHUNK_SIZE};
use redirector::redir::{Action, From, RequestUri, Rules, To};
use redirector::routes::{respond_to_request, Lookup, State, Step};
use redirector::util::IntoOptionExt;

fn state(pairs: &[(&str, &str)]) -> State {
    let from = pairs.iter().map(|(f, _)| From::from_str(f).unwrap()).collect();
    let to = pairs.iter().map(|(_, t)| To::from_str(t).unwrap()).collect();
    State::new(Rules::zip(from, to).unwrap())
}

fn static_files(fallback: Option<&str>) -> State {
    let from = vec![From::from_str("/static/").unwrap()];
    let to = vec![To::File("/static/".to_string(), fallback.map(|f| f.to_string()))];
    State::new(Rules::zip(from, to).unwrap())
}

fn target(path: &str) -> RequestUri {
    RequestUri { path: path.to_string(), path_and_query: Some(path.to_string()) }
}

#[test]
fn status_rule_answers_with_the_status() {
    let state = state(&[("/gone/", "status://404")]);
    assert!(matches!(
        respond_to_request(&target("/gone/anything"), &state),
        Step::Empty { status: 404 }
    ));
}

#[test]
fn no_match_is_bad_gateway() {
    let state = state(&[("/api/", "http://h/")]);
    assert!(matches!(respond_to_request(&target("/other"), &state), Step::Empty { status: 502 }));
    let empty = State::new(Rules::zip(vec![], vec![]).unwrap());
    assert!(matches!(respond_to_request(&target("/"), &empty), Step::Empty { status: 502 }));
}

#[test]
fn invalid_generated_uri_is_internal_error() {
    let state = state(&[("/api/", "http://h/")]);
    assert!(matches!(
        respond_to_request(&target("/api/a b"), &state),
        Step::Empty { status: 500 }
    ));
}

#[test]
fn http_rule_forwards() {
    let state = state(&[("/api/", "http://h/")]);
    match respond_to_request(&target("/api/users"), &state) {
        Step::Forward(uri) => assert_eq!(uri.uri.to_string(), "http://h/users"),
        other => panic!("{:?}", other),
    }
}

#[test]
fn file_is_streamed_when_it_opens() {
    let state = static_files(Some("/static/index.html"));
    let lookup = match respond_to_request(&target("/static/app.js"), &state) {
        Step::Open(lookup) => lookup,
        other => panic!("{:?}", other),
    };
    assert_eq!(lookup.target(), "/static/app.js");
    match lookup.opened() {
        Step::Stream { status, path } => {
            assert_eq!(status, 200);
            assert_eq!(path, "/static/app.js");
        }
        other => panic!("{:?}", other),
    }
}

#[test]
fn fallback_is_streamed_when_the_file_is_missing() {
    let state = static_files(Some("/static/index.html"));
    let lookup = match respond_to_request(&target("/static/missing.js"), &state) {
        Step::Open(lookup) => lookup,
        other => panic!("{:?}", other),
    };
    assert_eq!(lookup.target(), "/static/missing.js");
    let retry = match lookup.failed() {
        Step::Open(retry) => retry,
        other => panic!("{:?}", other),
    };
    assert_eq!(retry.target(), "/static/index.html");
    assert!(matches!(&retry, Lookup::Fallback { primary, .. } if primary == "/static/missing.js"));
    match retry.opened() {
        Step::Stream { status, path } => {
            assert_eq!(status, 200);
            assert_eq!(path, "/static/index.html");
        }
        other => panic!("{:?}", other),
    }
}

#[test]
fn not_found_when_file_and_fallback_are_missing() {
    let state = static_files(Some("/static/index.html"));
    let lookup = match respond_to_request(&target("/static/missing.js"), &state) {
        Step::Open(lookup) => lookup,
        other => panic!("{:?}", other),
    };
    let retry = match lookup.failed() {
        Step::Open(retry) => retry,
        other => panic!("{:?}", other),
    };
    assert!(matches!(retry.failed(), Step::Empty { status: 404 }));
}

#[test]
fn not_found_without_fallback() {
    let state = static_files(None);
    let lookup = match respond_to_request(&target("/static/missing.js"), &state) {
        Step::Open(lookup) => lookup,
        other => panic!("{:?}", other),
    };
    assert!(matches!(lookup.failed(), Step::Empty { status: 404 }));
}

#[test]
fn first_step_of_each_outcome() {
    assert!(matches!(Step::first(None), Step::Empty { status: 502 }));
    assert!(matches!(Step::first(Some(Ok(Action::Status(204)))), Step::Empty { status: 204 }));
    let file = Action::File { path: "a".to_string(), fallback: None };
    assert!(matches!(
        Step::first(Some(Ok(file))),
        Step::Open(Lookup::Primary { path, fallback: None }) if path == "a"
    ));
}

#[test]
fn state_keeps_the_rules() {
    assert_eq!(state(&[("/a/", "status://404"), ("/", "status://200")]).rules().len(), 2);
}

#[test]
fn chunk_size_is_four_kib() {
    assert_eq!(CHUNK_SIZE, 4 * 1024);
}

#[test]
fn read_of_some_bytes_is_a_chunk() {
    let buf = [1u8, 2, 3, 4, 5];
    assert_eq!(next_chunk::<()>(&buf, Ok(3)), Ok(Some(vec![1, 2, 3])));
    assert_eq!(next_chunk::<()>(&buf, Ok(5)), Ok(Some(vec![1, 2, 3, 4, 5])));
}

#[test]
fn read_of_nothing_ends_the_body() {
    let buf = [0u8; CHUNK_SIZE];
    assert_eq!(next_chunk::<()>(&buf, Ok(0)), Ok(None));
}

#[test]
fn read_error_is_passed_on() {
    let buf = [0u8; 8];
    assert_eq!(next_chunk(&buf, Err("broken")), Err("broken"));
}

#[test]
fn some_if_keeps_what_holds() {
    assert_eq!(5.some_if(|n| *n > 3), Some(5));
    assert_eq!(2.some_if(|n| *n > 3), None);
    assert_eq!("a".to_string().some_if(|s| s.is_empty()), None);
}
