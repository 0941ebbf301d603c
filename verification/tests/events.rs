use jsworkers::events::{EventData, Message};

#[test]
fn adapter_start_description_is_its_name() {
    let data = EventData::AdapterStart { name: "name".to_owned() };
    assert_eq!(data.description(), "name");
}

#[test]
fn service_start_description_is_its_id() {
    let data = EventData::ServiceStart { id: "id".to_owned() };
    assert_eq!(data.description(), "id");
}

#[test]
fn service_stop_description_is_its_id() {
    let data = EventData::ServiceStop { id: "id".to_owned() };
    assert_eq!(data.description(), "id");
}

#[test]
fn text_notification_description_is_its_text() {
    let data = EventData::Notification { message: Message::text("Hello World!") };
    assert_eq!(data.description(), "Hello World!");
}

#[test]
fn binary_notification_description_is_a_placeholder() {
    let data = EventData::Notification { message: Message::binary(vec![1, 2]) };
    assert_eq!(data.description(), "<binary blob>");
}

fn text_of(m: Option<Message>) -> String {
    match m {
        Some(Message::Text(t)) => t,
        _ => panic!("expected a text message"),
    }
}

#[test]
fn events_as_websocket_messages() {
    let a = EventData::AdapterStart { name: "hue".to_owned() };
    assert_eq!(text_of(a.as_ws_message()), r#"{ "type": "core/adapter/start", "name": "hue"}"#);
    let s = EventData::ServiceStart { id: "light-1".to_owned() };
    assert_eq!(text_of(s.as_ws_message()), r#"{ "type": "core/service/start", "id": "light-1"}"#);
    let t = EventData::ServiceStop { id: "light-1".to_owned() };
    assert_eq!(text_of(t.as_ws_message()), r#"{ "type": "core/service/stop", "id": "light-1"}"#);
    let n = EventData::Notification { message: Message::text("x") };
    assert!(n.as_ws_message().is_none());
}
