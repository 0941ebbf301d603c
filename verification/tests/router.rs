use jsworkers::jsworkers::{Message, WorkerKind};
use jsworkers::router::{
    auth_endpoints, list_request, not_found_text, register_request, route, start_answer,
    start_request, unregister_request, user_auth_endpoints, user_resource_answer, user_route,
    Credentials, Method, Route, Status, UserRoute,
};

fn path(s: &[&str]) -> Vec<String> {
    s.iter().map(|x| x.to_string()).collect()
}

#[test]
fn routes_of_the_workers_router() {
    let me = || Credentials::Valid("me".to_owned());
    assert!(matches!(route(me(), &path(&["start"]), Method::Post), Route::Start(ref u) if u == "me"));
    assert!(matches!(route(me(), &path(&["register"]), Method::Post), Route::Register(ref u) if u == "me"));
    assert!(matches!(route(me(), &path(&["unregister"]), Method::Post), Route::Unregister(ref u) if u == "me"));
    assert!(matches!(route(me(), &path(&["list"]), Method::Get), Route::List(ref u) if u == "me"));
    assert!(matches!(route(me(), &path(&["list"]), Method::Post), Route::NotFound));
    assert!(matches!(route(me(), &path(&["unregister"]), Method::Get), Route::NotFound));
    assert!(matches!(route(me(), &path(&["start", "x"]), Method::Post), Route::NotFound));
}

#[test]
fn every_endpoint_is_authenticated() {
    for (p, m) in [("start", Method::Post), ("register", Method::Post), ("unregister", Method::Post), ("list", Method::Get), ("nope", Method::Get)] {
        assert!(matches!(route(Credentials::Missing, &path(&[p]), m), Route::Unauthorized));
        assert!(matches!(route(Credentials::Invalid, &path(&[p]), m), Route::Unauthorized));
    }
    assert!(matches!(user_route(Credentials::Missing, "_dummy_user_"), UserRoute::Unauthorized));
    match list_request::<(), u8>("me".to_owned(), 7) {
        Message::GetList { user, tx } => {
            assert_eq!(user, "me");
            assert_eq!(tx, 7);
        }
        _ => panic!("expected GetList"),
    }
}

#[test]
fn start_and_register_requests() {
    match start_request::<(), u8>("me".to_owned(), "http://w.js".to_owned(), "box:3000".to_owned(), 1) {
        Message::Start { worker, host, tx } => {
            assert_eq!(worker.url, "http://w.js");
            assert_eq!(worker.user, "me");
            assert_eq!(host, "box:3000");
            assert_eq!(tx, 1);
        }
        _ => panic!("expected Start"),
    }
    match register_request::<(), u8>("ann".to_owned(), "http://s.js".to_owned(), Some("{}".to_owned()), "h".to_owned(), 2) {
        Message::Register { worker, host, tx } => {
            assert_eq!(worker.user, "ann");
            assert_eq!(worker.url, "http://s.js");
            assert_eq!(worker.kind, WorkerKind::Service);
            assert_eq!(worker.options, Some("{}".to_owned()));
            assert_eq!(host, "h");
            assert_eq!(tx, 2);
        }
        _ => panic!("expected Register"),
    }
    match unregister_request::<(), u8>("ann".to_owned(), "http://s.js".to_owned(), None) {
        Message::Unregister { worker } => {
            assert_eq!(worker.user, "ann");
            assert_eq!(worker.url, "http://s.js");
            assert_eq!(worker.kind, WorkerKind::Service);
        }
        _ => panic!("expected Unregister"),
    }
    let ok = start_answer::<(), u8>(Some(Message::ClientEndpoint { ws_url: "ws://x".to_owned() }));
    assert_eq!(ok, Ok("ws://x".to_owned()));
    assert_eq!(start_answer::<(), u8>(None), Err(Status::InternalServerError));
    assert_eq!(start_answer::<(), u8>(Some(Message::Shutdown)), Err(Status::InternalServerError));
}

#[test]
fn user_urls() {
    assert!(matches!(user_route(Credentials::Valid("bob".to_owned()), "bob"), UserRoute::Forward(ref u) if u == "bob"));
    assert!(matches!(user_route(Credentials::Valid("bob".to_owned()), "ann"), UserRoute::NotFound));
    assert!(matches!(user_route(Credentials::Missing, "bob"), UserRoute::Unauthorized));
    assert!(matches!(user_route(Credentials::Invalid, "bob"), UserRoute::Unauthorized));
    let answer = user_resource_answer::<(), u8>(Some(Message::UserResourceResponse {
        id: "i".to_owned(),
        status: 201,
        headers: vec![],
        body: vec![1],
    }));
    assert_eq!(answer, Ok((201, vec![], vec![1])));
    assert_eq!(user_resource_answer::<(), u8>(None), Err(Status::InternalServerError));
}

#[test]
fn endpoints_needing_a_session() {
    let e = auth_endpoints();
    let names: Vec<&str> = e.iter().map(|(_, n)| n.as_str()).collect();
    assert_eq!(names, vec!["list", "start", "stop", "register", "unregister"]);
    assert_eq!(e[0].0, vec![Method::Get]);
    assert_eq!(e[1].0, vec![Method::Post]);
    assert_eq!(user_auth_endpoints(), vec![(vec![Method::Get, Method::Post, Method::Put, Method::Delete], "user".to_owned())]);
    assert_eq!(not_found_text("http://x/y"), "Unknown url: http://x/y");
}
