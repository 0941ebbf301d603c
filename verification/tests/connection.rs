use bitsparrow::Encoder;
use jsworkers::jsworkers::Message;
use jsworkers::connection::{
    last_path_segment, registration_result, relay_registration, str_starts_with, CloseAction,
    Incoming, OpenAction, WsConnection,
};

#[test]
fn runner_connection() {
    let mut c = WsConnection::with_handler_id("h1".to_owned());
    assert!(c.is_unknown());
    assert!(matches!(c.on_open("/runtime/"), OpenAction::RunnerOpened));
    assert!(c.is_runtime());
    let frame = Encoder::new().string("w").string("message").bytes(&[5]).end();
    match c.on_message::<(), ()>(frame) {
        Incoming::Forward(Message::SendToBrowser { id, data, .. }) => {
            assert_eq!(id, "w");
            assert_eq!(data, vec![5]);
        }
        _ => panic!("expected a payload for browsers"),
    }
    let reg = Encoder::new().string("k").string("sw-registration-result").string("{}").end();
    assert!(matches!(c.on_message::<(), ()>(reg), Incoming::ParseRegistration { .. }));
    assert!(matches!(c.on_message::<(), ()>(vec![1, 2, 3]), Incoming::Ignore));
    assert!(matches!(c.on_close::<(), ()>(), CloseAction::Broadcast(Message::StopAll)));
}

#[test]
fn browser_connection() {
    let mut c = WsConnection::with_handler_id("h2".to_owned());
    match c.on_open("/client/123456") {
        OpenAction::BrowserOpened { worker_id, handler_id } => {
            assert_eq!(worker_id, "123456");
            assert_eq!(handler_id, "h2");
        }
        _ => panic!("expected a browser client"),
    }
    assert!(c.is_browser());
    match c.on_message::<(), ()>(b"hello".to_vec()) {
        Incoming::Forward(Message::SendToRuntime { id, data }) => {
            assert_eq!(id, "123456");
            assert_eq!(data, b"hello".to_vec());
        }
        _ => panic!("expected a payload for the runner"),
    }
    match c.on_close::<(), ()>() {
        CloseAction::ToWorkers(Message::BrowserWSClosed { worker_id, handler_id }) => {
            assert_eq!(worker_id, "123456");
            assert_eq!(handler_id, "h2");
        }
        _ => panic!("expected a closed browser client"),
    }
}

#[test]
fn unknown_paths_are_refused() {
    let mut c = WsConnection::new();
    match c.on_open("/elsewhere") {
        OpenAction::Reject { reason } => assert_eq!(reason, "Unknown resource path"),
        _ => panic!("expected a refusal"),
    }
    assert!(c.is_unknown());
    // "http://localhost:99999/" names a port out of range: not a url.
    let mut c = WsConnection::new();
    match c.on_open(":99999/") {
        OpenAction::CloseWithError { reason } => assert_eq!(reason, "Invalid path"),
        _ => panic!("expected the connection to be closed"),
    }
    assert!(c.is_unknown());
}

#[test]
fn fresh_handler_ids_differ() {
    let a = WsConnection::new();
    let b = WsConnection::new();
    let ca = a.on_close::<(), ()>();
    let cb = b.on_close::<(), ()>();
    match (ca, cb) {
        (CloseAction::ToWorkers(Message::BrowserWSClosed { handler_id: x, worker_id: wx }),
         CloseAction::ToWorkers(Message::BrowserWSClosed { handler_id: y, .. })) => {
            assert_eq!(x.len(), 36);
            assert_ne!(x, y);
            assert_eq!(wx, "");
        }
        _ => panic!("expected closed browser clients"),
    }
}

#[test]
fn path_helpers() {
    assert!(str_starts_with("/client/x", "/client/"));
    assert!(!str_starts_with("/clien", "/client/"));
    assert_eq!(last_path_segment("/client/abc"), "abc");
    assert_eq!(last_path_segment("/client/"), "");
    assert_eq!(last_path_segment("nodelim"), "nodelim");
    match registration_result::<(), ()>("id".to_owned(), false, None) {
        Message::RegisterResult { id, success, error } => {
            assert_eq!(id, "id");
            assert!(!success);
            assert_eq!(error, "");
        }
        _ => panic!("expected RegisterResult"),
    }
}

#[test]
fn registration_answers_that_do_not_parse_are_dropped() {
    assert!(relay_registration::<(), ()>("id".to_owned(), None).is_none());
    match relay_registration::<(), ()>("id".to_owned(), Some((true, Some("no".to_owned())))) {
        Some(Message::RegisterResult { id, success, error }) => {
            assert_eq!(id, "id");
            assert!(success);
            assert_eq!(error, "no");
        }
        _ => panic!("expected RegisterResult"),
    }
}
