use jsworkers::actor::{ws_url_for, Action, WorkersActor};
use jsworkers::frames::encode_runtime_message;
use jsworkers::jsworkers::{BrowserMessageKind, Message, WorkerInfo, WorkerState};
use jsworkers::workers::JsWorkers;

type Actor = WorkersActor<String, u32>;
type Msg = Message<String, u32>;

fn actor() -> Actor {
    WorkersActor::new(JsWorkers::new(Vec::new()))
}

fn worker(url: &str, user: &str) -> WorkerInfo {
    WorkerInfo::default(url.to_owned(), user.to_owned())
}

#[test]
fn nothing_needing_the_runner_happens_before_it_connects() {
    let mut a = actor();
    let acts = a.handle(Msg::Start { worker: worker("http://w", "u"), host: "h".to_owned(), tx: 1 });
    assert!(acts.is_empty());
    let acts = a.handle(Msg::SendToRuntime { id: "k".to_owned(), data: vec![1] });
    assert!(acts.is_empty());
    let acts = a.handle(Msg::Shutdown);
    assert!(acts.is_empty());
    let acts = a.handle(Msg::GetList { user: "u".to_owned(), tx: 3 });
    assert_eq!(acts.len(), 1);
    match &acts[0] {
        Action::Reply { tx, message: Message::List { list }, must_deliver } => {
            assert_eq!(*tx, 3);
            assert!(list.is_empty());
            assert!(*must_deliver);
        }
        _ => panic!("expected the list"),
    }
}

#[test]
fn start_after_runner_connects() {
    let mut a = actor();
    let acts = a.handle(Msg::RunnerWSOpened { out: "runner".to_owned() });
    assert!(acts.is_empty());
    assert_eq!(a.runtime_out(), Some(&"runner".to_owned()));
    let w = worker("http://example.com/worker.js", "User1");
    let acts = a.handle(Msg::Start { worker: w.clone(), host: "box".to_owned(), tx: 9 });
    assert_eq!(acts.len(), 2);
    match &acts[0] {
        Action::RuntimeJson { command, worker: Some(info) } => {
            assert_eq!(command, "StartWebWorker");
            assert_eq!(info, &w);
        }
        _ => panic!("expected StartWebWorker"),
    }
    match &acts[1] {
        Action::Reply { tx, message: Message::ClientEndpoint { ws_url }, .. } => {
            assert_eq!(*tx, 9);
            assert_eq!(ws_url, "ws://box:2016/client/6030026276773233015");
        }
        _ => panic!("expected the endpoint"),
    }
    let acts = a.handle(Msg::GetList { user: "User1".to_owned(), tx: 4 });
    match &acts[0] {
        Action::Reply { message: Message::List { list }, .. } => assert_eq!(list, &vec![w]),
        _ => panic!("expected the list"),
    }
}

#[test]
fn runner_connection_wakes_stored_workers() {
    let rows = vec![
        ("1".to_owned(), "http://a".to_owned(), "u".to_owned(), String::new()),
        ("2".to_owned(), "http://b".to_owned(), "v".to_owned(), String::new()),
    ];
    let mut a: Actor = WorkersActor::new(JsWorkers::new(rows));
    let acts = a.handle(Msg::RunnerWSOpened { out: "r".to_owned() });
    assert_eq!(acts.len(), 2);
    for (act, url) in acts.iter().zip(["http://a", "http://b"]) {
        match act {
            Action::Post { target, message: Message::Wakeup { worker } } => {
                assert_eq!(target, "workers");
                assert_eq!(worker.url, url);
                assert_eq!(worker.state, WorkerState::Stopped);
            }
            _ => panic!("expected a wake up"),
        }
    }
}

#[test]
fn registration_is_answered_once() {
    let mut a = actor();
    a.handle(Msg::RunnerWSOpened { out: "r".to_owned() });
    let w = worker("http://sw", "me");
    let acts = a.handle(Msg::Register { worker: w.clone(), host: "h".to_owned(), tx: 5 });
    assert_eq!(acts.len(), 1);
    assert!(matches!(&acts[0], Action::RuntimeJson { command, .. } if command == "RegisterServiceWorker"));
    let answer = || Msg::RegisterResult { id: w.key(), success: true, error: String::new() };
    let acts = a.handle(answer());
    assert_eq!(acts.len(), 1);
    match &acts[0] {
        Action::Reply { tx, message: Message::RegisterResult { success, .. }, must_deliver } => {
            assert_eq!(*tx, 5);
            assert!(*success);
            assert!(!*must_deliver);
        }
        _ => panic!("expected the answer"),
    }
    assert!(a.handle(answer()).is_empty());
}

#[test]
fn user_requests_go_to_the_runner_and_back() {
    let mut a = actor();
    a.handle(Msg::RunnerWSOpened { out: "r".to_owned() });
    let acts = a.handle(Msg::GetUserResource {
        method: "GET".to_owned(),
        url: "http://box/user/me/x".to_owned(),
        headers: vec![],
        body: vec![],
        user: "me".to_owned(),
        tx: 11,
    });
    assert_eq!(acts.len(), 1);
    let frame = match &acts[0] {
        Action::RuntimeFrame { data } => data.clone(),
        _ => panic!("expected a frame"),
    };
    let mut d = bitsparrow::Decoder::new(&frame);
    assert_eq!(d.string().unwrap(), "GetUserResource");
    let id = d.string().unwrap().to_owned();
    assert_eq!(id.len(), 36);
    for i in [8, 13, 18, 23] {
        assert_eq!(id.as_bytes()[i], b'-');
    }
    let acts = a.handle(Msg::UserResourceResponse { id: id.clone(), status: 200, headers: vec![], body: vec![7] });
    match &acts[0] {
        Action::Reply { tx, message: Message::UserResourceResponse { body, .. }, .. } => {
            assert_eq!(*tx, 11);
            assert_eq!(body, &vec![7]);
        }
        _ => panic!("expected the response"),
    }
    assert!(a.handle(Msg::UserResourceResponse { id, status: 200, headers: vec![], body: vec![] }).is_empty());
}

#[test]
fn browser_clients_receive_payloads() {
    let mut a = actor();
    a.handle(Msg::BrowserWSOpened { out: "c1".to_owned(), worker_id: "k".to_owned(), handler_id: "h1".to_owned() });
    a.handle(Msg::BrowserWSOpened { out: "c2".to_owned(), worker_id: "k".to_owned(), handler_id: "h2".to_owned() });
    assert_eq!(a.browser_out("k", "h2"), Some(&"c2".to_owned()));
    let acts = a.handle(Msg::SendToBrowser { id: "k".to_owned(), kind: BrowserMessageKind::Error, data: vec![1] });
    assert_eq!(acts.len(), 4);
    match (&acts[0], &acts[1], &acts[2], &acts[3]) {
        (Action::BrowserText { handler_id: a0, text, .. },
         Action::BrowserBinary { handler_id: a1, data, .. },
         Action::BrowserText { handler_id: b0, .. },
         Action::BrowserBinary { handler_id: b1, .. }) => {
            assert_eq!((a0.as_str(), a1.as_str(), b0.as_str(), b1.as_str()), ("h1", "h1", "h2", "h2"));
            assert_eq!(text, "error");
            assert_eq!(data, &vec![1]);
        }
        _ => panic!("expected text then binary frames per client"),
    }
    assert!(a.handle(Msg::BrowserWSClosed { worker_id: "k".to_owned(), handler_id: "h1".to_owned() }).is_empty());
    assert_eq!(a.browser_out("k", "h1"), None);
    let acts = a.handle(Msg::SendToBrowser { id: "k".to_owned(), kind: BrowserMessageKind::Message, data: vec![] });
    assert_eq!(acts.len(), 2);
    assert!(a.handle(Msg::SendToBrowser { id: "other".to_owned(), kind: BrowserMessageKind::Message, data: vec![] }).is_empty());
}

#[test]
fn browser_leaving_tells_the_runner() {
    let mut a = actor();
    a.handle(Msg::RunnerWSOpened { out: "r".to_owned() });
    let w = worker("http://w", "u");
    a.handle(Msg::Start { worker: w.clone(), host: "h".to_owned(), tx: 1 });
    a.handle(Msg::BrowserWSOpened { out: "c".to_owned(), worker_id: w.key(), handler_id: "h".to_owned() });
    let acts = a.handle(Msg::BrowserWSClosed { worker_id: w.key(), handler_id: "h".to_owned() });
    match &acts[..] {
        [Action::RuntimeJson { command, worker: Some(info) }] => {
            assert_eq!(command, "StopWebWorker");
            assert_eq!(info, &w);
        }
        _ => panic!("expected StopWebWorker"),
    }
    let acts = a.handle(Msg::SendToRuntime { id: w.key(), data: vec![3] });
    match &acts[..] {
        [Action::RuntimeFrame { data }] => assert_eq!(data, &encode_runtime_message(&w.key(), &[3])),
        _ => panic!("expected a frame"),
    }
    let acts = a.handle(Msg::Shutdown);
    assert!(matches!(&acts[..], [Action::RuntimeJson { command, worker: None }] if command == "Shutdown"));
}

#[test]
fn new_service_workers_are_stored_and_woken() {
    let mut a = actor();
    a.handle(Msg::RunnerWSOpened { out: "r".to_owned() });
    let sw = WorkerInfo::new_serviceworker("http://sw.js".to_owned(), "me".to_owned(), None);
    let acts = a.handle(Msg::Register { worker: sw.clone(), host: "h".to_owned(), tx: 1 });
    assert_eq!(acts.len(), 2);
    assert!(matches!(&acts[0], Action::StoreWorker { worker } if *worker == sw));
    assert!(matches!(&acts[1], Action::RuntimeJson { command, .. } if command == "RegisterServiceWorker"));
    // Registering it again stores nothing more.
    let acts = a.handle(Msg::Register { worker: sw.clone(), host: "h".to_owned(), tx: 2 });
    assert_eq!(acts.len(), 1);
    // A web worker is neither stored nor woken up.
    let acts = a.handle(Msg::Start { worker: worker("http://web.js", "me"), host: "h".to_owned(), tx: 3 });
    assert_eq!(acts.len(), 2);
    assert!(matches!(&acts[0], Action::RuntimeJson { .. }));
    let acts = a.handle(Msg::RunnerWSOpened { out: "r2".to_owned() });
    assert_eq!(acts.len(), 1);
    assert!(matches!(&acts[0], Action::Post { message: Message::Wakeup { worker }, .. } if *worker == sw));
}

#[test]
fn unregistering_forgets_and_deletes_a_service_worker() {
    let mut a = actor();
    a.handle(Msg::RunnerWSOpened { out: "r".to_owned() });
    let sw = WorkerInfo::new_serviceworker("http://sw.js".to_owned(), "me".to_owned(), Some("{}".to_owned()));
    a.handle(Msg::Register { worker: sw.clone(), host: "h".to_owned(), tx: 1 });
    let acts = a.handle(Msg::Unregister { worker: sw.clone() });
    assert_eq!(acts.len(), 1);
    assert!(matches!(&acts[0], Action::DeleteWorker { worker } if *worker == sw));
    // It is gone: the runner is not asked to wake it up any more.
    let acts = a.handle(Msg::RunnerWSOpened { out: "r2".to_owned() });
    assert!(acts.is_empty());
    // Unregistering an unknown worker does nothing.
    let acts = a.handle(Msg::Unregister { worker: sw });
    assert!(acts.is_empty());
}

#[test]
fn client_websocket_urls() {
    assert_eq!(ws_url_for("box.local", "123"), "ws://box.local:2016/client/123");
}
