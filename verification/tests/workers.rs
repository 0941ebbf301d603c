use jsworkers::jsworkers::{User, WorkerInfo, WorkerKind, WorkerState};
use jsworkers::workers::{db_key, db_row, escape, JsWorkers};

#[test]
fn test_workers() {
    let mut list = JsWorkers::new(Vec::new());
    let url = "http://example.com/worker.js".to_owned();
    let url2 = "http://example.com/worker2.js".to_owned();
    let user1: User = String::from("User0");
    let user2: User = String::from("User1");
    let user3: User = String::from("User2");

    let info1 = WorkerInfo::default(url.clone(), user1.clone());
    let info1_2 = WorkerInfo::default(url2.clone(), user1.clone());
    let info2 = WorkerInfo::default(url.clone(), user2.clone());
    let info3 = WorkerInfo::default(url.clone(), user3.clone());

    // Start with an empty set.
    assert_eq!(list.count(), 0);

    {
        // Add one worker.
        list.add_worker(&info1).unwrap();
        assert_eq!(list.count(), 1);

        // Check that we don't get anything for another user.
        assert_eq!(list.get_worker_info(user2.clone(), url.clone()), None);

        // Get the worker info back and check state.
        let info = list.get_worker_info(user1.clone(), url.clone()).unwrap();
        assert_eq!(info.state, WorkerState::Stopped);

        // Start the worker and check the new state.
        list.start_worker(&info1).unwrap();
        let info = list.get_worker_info(user1.clone(), url.clone()).unwrap();
        assert_eq!(info.state, WorkerState::Running);

        // Check error when starting an already running worker.
        assert_eq!(list.start_worker(&info1).is_err(), true);
        let info = list.get_worker_info(user1.clone(), url.clone()).unwrap();
        assert_eq!(info.state, WorkerState::Running);

        // Stop the worker an check state.
        list.stop_worker(&info1).unwrap();
        let info = list.get_worker_info(user1.clone(), url.clone()).unwrap();
        assert_eq!(info.state, WorkerState::Stopped);

        // Check error when stopping an already stopped worker.
        assert_eq!(list.stop_worker(&info1).is_err(), true);
        let info = list.get_worker_info(user1.clone(), url.clone()).unwrap();
        assert_eq!(info.state, WorkerState::Stopped);
    }

    {
        // Start the worker again and check that stop_all works.
        list.start_worker(&info1).unwrap();
        let info = list.get_worker_info(user1.clone(), url.clone()).unwrap();
        assert_eq!(info.state, WorkerState::Running);
        list.stop_all();
        let info = list.get_worker_info(user1.clone(), url.clone()).unwrap();
        assert_eq!(info.state, WorkerState::Stopped);
    }

    // Check errors when starting or stopping a non-existant worker.
    assert_eq!(list.start_worker(&info3).is_err(), true);
    assert_eq!(list.stop_worker(&info3).is_err(), true);

    // Check error when removing a non-existant worker.
    assert_eq!(list.remove_worker(&info2).is_err(), true);
    assert_eq!(list.count(), 1);

    // Remove the worker we actually added.
    list.remove_worker(&info1).unwrap();
    assert_eq!(list.count(), 0);

    // Check that we can add several workers.
    list.add_worker(&info1).unwrap();
    assert_eq!(list.count(), 1);
    list.add_worker(&info2).unwrap();
    assert_eq!(list.count(), 2);
    list.add_worker(&info3).unwrap();
    assert_eq!(list.count(), 3);
    list.add_worker(&info1_2).unwrap();
    assert_eq!(list.count(), 4);

    // Check the workers per user list.
    let mut all = list.get_workers_for(&user1);
    assert_eq!(all.len(), 2);

    all = list.get_workers_for(&user2);
    let serialized = format!(
        r#"[{{"url":"{}","user":"{}","state":"{}","id":"{}"}}]"#,
        all[0].url,
        all[0].user,
        match all[0].state {
            WorkerState::Stopped => "Stopped",
            WorkerState::Running => "Running",
        },
        all[0].key()
    );
    assert_eq!(serialized,
               r#"[{"url":"http://example.com/worker.js","user":"User1","state":"Stopped","id":"6030026276773233015"}]"#);

    // ... and remove them, out of order.
    list.remove_worker(&info2).unwrap();
    assert_eq!(list.count(), 3);
    list.remove_worker(&info1).unwrap();
    assert_eq!(list.count(), 2);
    list.remove_worker(&info3).unwrap();
    assert_eq!(list.count(), 1);
    list.remove_worker(&info1_2).unwrap();
    assert_eq!(list.count(), 0);
}

#[test]
fn escape_doubles_quotes() {
    assert_eq!(escape("it's"), "it''s");
    assert_eq!(escape("''"), "''''");
    assert_eq!(escape("plain"), "plain");
    assert_eq!(escape(""), "");
    assert_eq!(escape("a'b'c"), "a''b''c");
    assert_eq!(escape("l'été"), "l''été");
}

#[test]
fn escape_of_concatenation() {
    let a = "x'y";
    let b = "'z";
    assert_eq!(escape(&format!("{}{}", a, b)), format!("{}{}", escape(a), escape(b)));
}

#[test]
fn keys_are_decimal_digests() {
    let k = WorkerInfo::key_from("http://example.com/worker.js", "User1");
    assert!(!k.is_empty());
    assert!(k.chars().all(|c| c.is_ascii_digit()));
    assert!(k == "0" || !k.starts_with('0'));
    assert!(k.parse::<u64>().is_ok());
    let w = WorkerInfo::new("http://example.com/worker.js".to_owned(), "User1".to_owned(), WorkerState::Running);
    assert_eq!(w.key(), k);
    // Another user or another url gives another key.
    assert_ne!(WorkerInfo::key_from("http://example.com/worker.js", "User2"), k);
    assert_ne!(WorkerInfo::key_from("http://example.com/worker2.js", "User1"), k);
}

#[test]
fn worker_constructors() {
    let w = WorkerInfo::new("u".to_owned(), "me".to_owned(), WorkerState::Running);
    assert_eq!(w.url, "u");
    assert_eq!(w.user, "me");
    assert_eq!(w.state, WorkerState::Running);
    let d = WorkerInfo::default("u".to_owned(), "me".to_owned());
    assert_eq!(d.state, WorkerState::Stopped);
    assert_eq!(d.clone(), d);
}

#[test]
fn loading_stored_workers() {
    let rows = vec![
        ("1".to_owned(), "http://a/w.js".to_owned(), "ann".to_owned(), "{}".to_owned()),
        ("2".to_owned(), "http://b/w.js".to_owned(), "bob".to_owned(), "".to_owned()),
        ("1".to_owned(), "http://c/w.js".to_owned(), "cid".to_owned(), "{\"scope\":\"/\"}".to_owned()),
    ];
    let list = JsWorkers::new(rows);
    assert_eq!(list.count(), 2);
    let w = list.get_worker_info_from_key("1").unwrap();
    assert_eq!(w.url, "http://c/w.js");
    assert_eq!(w.user, "cid");
    assert_eq!(w.state, WorkerState::Stopped);
    assert_eq!(w.kind, WorkerKind::Service);
    assert_eq!(w.options, Some("{\"scope\":\"/\"}".to_owned()));
    assert_eq!(list.get_worker_info_from_key("2").unwrap().options, Some(String::new()));
    assert!(list.get_worker_info_from_key("3").is_none());
}

#[test]
fn wake_up_lists_the_service_workers_in_order() {
    let mut list = JsWorkers::new(Vec::new());
    let a = WorkerInfo::new_serviceworker("http://a".to_owned(), "u".to_owned(), None);
    let web = WorkerInfo::default("http://web".to_owned(), "u".to_owned());
    let b = WorkerInfo::new_serviceworker("http://b".to_owned(), "v".to_owned(), None);
    list.add_worker(&a).unwrap();
    list.add_worker(&web).unwrap();
    list.add_worker(&b).unwrap();
    assert!(list.has_worker(&a));
    assert_eq!(list.wake_up_workers(), vec![a.clone(), b.clone()]);
    assert_eq!(list.add_worker(&a), Err(()));
    list.remove_worker(&a).unwrap();
    assert!(!list.has_worker(&a));
    assert_eq!(list.wake_up_workers(), vec![b]);
}

#[test]
fn database_values_are_escaped() {
    let w = WorkerInfo::default("http://x/o'k.js".to_owned(), "d'arc".to_owned());
    let (k, url, user, options) = db_row(&w);
    assert_eq!(k, w.key());
    assert_eq!(url, "http://x/o''k.js");
    assert_eq!(user, "d''arc");
    assert_eq!(options, "");
    assert_eq!(db_key(&w), w.key());
}

#[test]
fn stored_options_are_escaped_and_load_back() {
    let w = WorkerInfo::new_serviceworker("http://s/w.js".to_owned(), "ann".to_owned(), Some("{\"n\":\"o'k\"}".to_owned()));
    let (k, url, user, options) = db_row(&w);
    assert_eq!(options, "{\"n\":\"o''k\"}");
    let plain = WorkerInfo::new_serviceworker("http://s/w.js".to_owned(), "ann".to_owned(), Some("{}".to_owned()));
    let (k2, url2, user2, options2) = db_row(&plain);
    assert_eq!((k2.clone(), url2.clone(), user2.clone(), options2.clone()), (plain.key(), url.clone(), user.clone(), "{}".to_owned()));
    assert_eq!(k, k2);
    let list = JsWorkers::new(vec![(k2, url2, user2, options2)]);
    let loaded = list.get_worker_info_from_key(&plain.key()).unwrap();
    assert_eq!(loaded, &plain);
}

#[test]
fn unescaping_gives_the_text_back() {
    for s in ["", "plain", "o'k", "''", "a'b'c'"] {
        assert_eq!(escape(s).replace("''", "'"), s);
        assert_eq!(escape(s).len(), s.len() + s.matches('\'').count());
    }
}
