//! The events that the box broadcasts to its websocket clients.

use crate::context::ServiceID;
use vstd::prelude::*;
use vstd::string::StringExecFns;

verus! {

/// A websocket message: text or binary.
pub enum Message {
    Text(String),
    Binary(Vec<u8>),
}

impl Message {
    /// A text message.
    pub fn text(s: &str) -> (m: Message)
        ensures
            m matches Message::Text(t) && t@ == s@,
    {
        Message::Text(s.to_owned())
    }

    /// A binary message.
    pub fn binary(data: Vec<u8>) -> (m: Message)
        ensures
            m == Message::Binary(data),
    {
        Message::Binary(data)
    }
}

/// Something that happened in the box.
pub enum EventData {
    AdapterStart { name: String },
    ServiceStart { id: ServiceID },
    ServiceStop { id: ServiceID },
    Notification { message: Message },
}

/// The description of an event: the adapter's name, the service's id, or the
/// text of a notification (`<binary blob>` for binary ones).
pub open spec fn description_of(e: EventData) -> Seq<char> {
    match e {
        EventData::AdapterStart { name } => name@,
        EventData::ServiceStart { id } => id@,
        EventData::ServiceStop { id } => id@,
        EventData::Notification { message } => match message {
            Message::Text(t) => t@,
            Message::Binary(_) => "<binary blob>"@,
        },
    }
}

/// The JSON text `{ "type": "<kind>", "<field>": "<value>"}` as the box writes it.
pub open spec fn event_json(kind: Seq<char>, field: Seq<char>, value: Seq<char>) -> Seq<char> {
    "{ \"type\": \""@ + kind + "\", \""@ + field + "\": \""@ + value + "\"}"@
}

/// Builds `{ "type": "<kind>", "<field>": "<value>"}`; the value is written as
/// it is, without escaping.
fn json_text(kind: &str, field: &str, value: &str) -> (s: String)
    ensures
        s@ == event_json(kind@, field@, value@),
{
    let mut s = "{ \"type\": \"".to_owned();
    s.append(kind);
    s.append("\", \"");
    s.append(field);
    s.append("\": \"");
    s.append(value);
    s.append("\"}");
    s
}

impl EventData {
    /// A short description of the event.
    pub fn description(&self) -> (s: String)
        ensures
            s@ == description_of(*self),
    {
        match self {
            EventData::AdapterStart { name } => name.clone(),
            EventData::ServiceStart { id } => id.clone(),
            EventData::ServiceStop { id } => id.clone(),
            EventData::Notification { message } => match message {
                Message::Text(msg) => msg.clone(),
                Message::Binary(_) => "<binary blob>".to_owned(),
            },
        }
    }

    /// The text message that tells websocket clients about the event; none for
    /// a notification.
    pub fn as_ws_message(&self) -> (m: Option<Message>)
        ensures
            match *self {
                EventData::AdapterStart { name } => m matches Some(Message::Text(t)) && t@ == event_json("core/adapter/start"@, "name"@, name@),
                EventData::ServiceStart { id } => m matches Some(Message::Text(t)) && t@ == event_json("core/service/start"@, "id"@, id@),
                EventData::ServiceStop { id } => m matches Some(Message::Text(t)) && t@ == event_json("core/service/stop"@, "id"@, id@),
                EventData::Notification { .. } => m is None,
            },
    {
        match self {
            EventData::AdapterStart { name } => Some(Message::Text(json_text("core/adapter/start", "name", name.as_str()))),
            EventData::ServiceStart { id } => Some(Message::Text(json_text("core/service/start", "id", id.as_str()))),
            EventData::ServiceStop { id } => Some(Message::Text(json_text("core/service/stop", "id", id.as_str()))),
            EventData::Notification { .. } => None,
        }
    }
}

} // verus!
