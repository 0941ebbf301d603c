//! The websocket connections of the jsworkers server: the runner's and those
//! of browser clients. What a connection does when it opens, receives a frame
//! and closes.

use crate::jsworkers::Message;
use crate::frames::{decode_runner_frame, runner_frame, str_eq, RunnerFrame, RunnerFrameView};
use crate::ids::{hyphenated_shape, new_v4_string};
use crate::jsworkers::push_char;
use vstd::prelude::*;
use vstd::string::{StrSliceExecFns, StringExecFns};

verus! {

/// Whether `url::Url::parse` accepts `s`.
pub uninterp spec fn url_accepts(s: Seq<char>) -> bool;

/// Tells whether `url::Url::parse` accepts `s`; parsing depends on `s` alone.
#[verifier::external_body]
fn url_parses(s: &str) -> (b: bool)
    ensures
        b == url_accepts(s@),
{
    url::Url::parse(s).is_ok()
}

/// What kind of client is at the other end of a connection.
#[derive(Clone, Copy, Debug, PartialEq, Eq, Structural)]
pub enum ClientType {
    Unknown,
    Runtime,
    Browser,
}

/// Whether `s` begins with `p`.
pub open spec fn starts_with(s: Seq<char>, p: Seq<char>) -> bool {
    p.len() <= s.len() && s.take(p.len() as int) == p
}

/// What follows the last `/` of `s`; all of `s` where there is none.
pub open spec fn last_segment(s: Seq<char>) -> Seq<char>
    decreases s.len(),
{
    if s.len() == 0 {
        s
    } else if s.last() == '/' {
        Seq::empty()
    } else {
        last_segment(s.drop_last()).push(s.last())
    }
}

/// Whether `s` begins with `p`.
pub fn str_starts_with(s: &str, p: &str) -> (b: bool)
    ensures
        b == starts_with(s@, p@),
{
    let n = s.unicode_len();
    let m = p.unicode_len();
    if m > n {
        return false;
    }
    let mut i: usize = 0;
    while i < m
        invariant
            n == s@.len(),
            m == p@.len(),
            m <= n,
            i <= m,
            forall|j: int| 0 <= j < i ==> s@[j] == p@[j],
        decreases m - i,
    {
        if s.get_char(i) != p.get_char(i) {
            assert(s@.take(m as int)[i as int] != p@[i as int]);
            return false;
        }
        i = i + 1;
    }
    assert(s@.take(m as int) =~= p@);
    true
}

/// What follows the last `/` of `s`, as `s.split('/').last()` gives it.
pub fn last_path_segment(s: &str) -> (r: String)
    ensures
        r@ == last_segment(s@),
{
    let n = s.unicode_len();
    let mut r = String::new();
    let mut i: usize = 0;
    while i < n
        invariant
            n == s@.len(),
            i <= n,
            r@ == last_segment(s@.take(i as int)),
        decreases n - i,
    {
        let c = s.get_char(i);
        assert(s@.take(i + 1).drop_last() =~= s@.take(i as int));
        if c == '/' {
            r = String::new();
        } else {
            push_char(&mut r, c);
        }
        i = i + 1;
    }
    assert(s@.take(n as int) =~= s@);
    r
}

/// What the server is to do once a connection has opened.
pub enum OpenAction {
    /// Close the connection, giving `reason`.
    CloseWithError { reason: String },
    /// Refuse the connection with an internal error, giving `reason`.
    Reject { reason: String },
    /// Tell the workers actor that the runner's websocket is open.
    RunnerOpened,
    /// Tell the workers actor that a browser client of `worker_id` connected.
    BrowserOpened { worker_id: String, handler_id: String },
    /// Nothing more.
    Nothing,
}

/// What a frame received on a connection turns into.
pub enum Incoming<W, T> {
    /// Dropped.
    Ignore,
    /// The JSON result of a service worker registration, still to be read.
    ParseRegistration { id: String, json: String },
    /// A message for the workers actor.
    Forward(Message<W, T>),
}

/// Who is to hear that a connection closed.
pub enum CloseAction<W, T> {
    /// Every actor.
    Broadcast(Message<W, T>),
    /// The workers actor.
    ToWorkers(Message<W, T>),
}

/// The `RegisterResult` message for a parsed registration result; a missing
/// error text becomes empty.
pub fn registration_result<W, T>(id: String, success: bool, error: Option<String>) -> (m: Message<W, T>)
    ensures
        m matches Message::RegisterResult { id: i, success: s, error: e } && i == id && s == success
            && e@ == match error {
            Some(t) => t@,
            None => Seq::<char>::empty(),
        },
{
    let error = match error {
        Some(e) => e,
        None => String::new(),
    };
    Message::RegisterResult { id, success, error }
}

/// What the runner's answer to registration `id` becomes, given its parsed
/// JSON as (success, error) (`None` when it did not parse): the
/// `RegisterResult` to relay, or nothing for an answer that did not parse.
pub fn relay_registration<W, T>(id: String, parsed: Option<(bool, Option<String>)>) -> (m: Option<Message<W, T>>)
    ensures
        parsed is None ==> m is None,
        parsed matches Some((success, error)) ==> (m matches Some(Message::RegisterResult { id: i, success: s, error: e })
            && i == id && s == success && e@ == match error {
            Some(t) => t@,
            None => Seq::<char>::empty(),
        }),
{
    match parsed {
        Some((success, error)) => Some(registration_result(id, success, error)),
        None => None,
    }
}

/// A websocket connection of the jsworkers server.
pub struct WsConnection {
    mode: ClientType,
    worker_id: Option<String>,
    handler_id: String,
}

impl WsConnection {
    /// What kind of client this is.
    pub closed spec fn mode(&self) -> ClientType {
        self.mode
    }

    /// For a browser client, the key of its worker.
    pub closed spec fn worker_id(&self) -> Option<Seq<char>> {
        match self.worker_id {
            Some(w) => Some(w@),
            None => None,
        }
    }

    /// The id of this connection among those of its worker.
    pub closed spec fn handler_id(&self) -> Seq<char> {
        self.handler_id@
    }

    /// A connection of a client not known yet, with the given handler id.
    pub fn with_handler_id(handler_id: String) -> (c: Self)
        ensures
            c.mode() == ClientType::Unknown,
            c.worker_id() is None,
            c.handler_id() == handler_id@,
    {
        WsConnection { mode: ClientType::Unknown, worker_id: None, handler_id }
    }

    /// A connection of a client not known yet, with a fresh random handler id.
    pub fn new() -> (c: Self)
        ensures
            c.mode() == ClientType::Unknown,
            c.worker_id() is None,
            hyphenated_shape(c.handler_id()),
    {
        WsConnection::with_handler_id(new_v4_string())
    }

    /// Whether the client is the JavaScript runner.
    pub fn is_runtime(&self) -> (b: bool)
        ensures
            b == (self.mode() == ClientType::Runtime),
    {
        self.mode == ClientType::Runtime
    }

    /// Whether the client is a browser.
    pub fn is_browser(&self) -> (b: bool)
        ensures
            b == (self.mode() == ClientType::Browser),
    {
        self.mode == ClientType::Browser
    }

    /// Whether the kind of client is not known.
    pub fn is_unknown(&self) -> (b: bool)
        ensures
            b == (self.mode() == ClientType::Unknown),
    {
        self.mode == ClientType::Unknown
    }

    /// The connection opened on the resource path `resource`: the runner comes
    /// on `/runtime/`, a browser client of a worker on `/client/<worker key>`.
    pub fn on_open(&mut self, resource: &str) -> (r: OpenAction)
        ensures
            final(self).handler_id() == old(self).handler_id(),
            !url_accepts("http://localhost"@ + resource@) ==> *final(self) == *old(self) && (r matches OpenAction::CloseWithError { reason } && reason@ == "Invalid path"@),
            url_accepts("http://localhost"@ + resource@) && resource@ == "/runtime/"@ ==> r is RunnerOpened && final(self).mode() == ClientType::Runtime
                && final(self).worker_id() == old(self).worker_id(),
            url_accepts("http://localhost"@ + resource@) && resource@ != "/runtime/"@ && starts_with(resource@, "/client/"@) ==> final(self).mode() == ClientType::Browser
                && final(self).worker_id() == Some(last_segment(resource@))
                && (r matches OpenAction::BrowserOpened { worker_id, handler_id } && worker_id@ == last_segment(resource@) && handler_id@ == old(self).handler_id()),
            url_accepts("http://localhost"@ + resource@) && resource@ != "/runtime/"@ && !starts_with(resource@, "/client/"@) ==> *final(self) == *old(self)
                && (old(self).mode() == ClientType::Unknown ==> (r matches OpenAction::Reject { reason } && reason@ == "Unknown resource path"@))
                && (old(self).mode() != ClientType::Unknown ==> r is Nothing),
    {
        let mut full = "http://localhost".to_owned();
        full.append(resource);
        if !url_parses(full.as_str()) {
            return OpenAction::CloseWithError { reason: "Invalid path".to_owned() };
        }
        if str_eq(resource, "/runtime/") {
            self.mode = ClientType::Runtime;
            return OpenAction::RunnerOpened;
        }
        if str_starts_with(resource, "/client/") {
            let id = last_path_segment(resource);
            self.worker_id = Some(id.clone());
            self.mode = ClientType::Browser;
            return OpenAction::BrowserOpened { worker_id: id, handler_id: self.handler_id.clone() };
        }
        if self.is_unknown() {
            return OpenAction::Reject { reason: "Unknown resource path".to_owned() };
        }
        OpenAction::Nothing
    }

    /// A frame `data` came in. From the runner it is decoded and relayed; from
    /// a browser client it goes to the client's worker in the runner.
    pub fn on_message<W, T>(&self, data: Vec<u8>) -> (r: Incoming<W, T>)
        ensures
            self.mode() == ClientType::Runtime ==> match runner_frame(data@) {
                RunnerFrameView::Malformed => r is Ignore,
                RunnerFrameView::RegistrationResult { id, json } => (r matches Incoming::ParseRegistration { id: i, json: j } && i@ == id && j@ == json),
                RunnerFrameView::UserResourceResponse { id, status, headers, body } => (r matches Incoming::Forward(Message::UserResourceResponse { id: i, status: s, headers: h, body: b })
                    && i@ == id && s == status && crate::frames::header_pairs(h@) == headers && b@ == body),
                RunnerFrameView::ToBrowser { id, kind, payload } => (r matches Incoming::Forward(Message::SendToBrowser { id: i, kind: k, data: d })
                    && i@ == id && k == kind && d@ == payload),
            },
            self.mode() != ClientType::Runtime ==> (r matches Incoming::Forward(Message::SendToRuntime { id, data: d })
                && id@ == match self.worker_id() {
                Some(w) => w,
                None => Seq::<char>::empty(),
            } && d == data),
    {
        if self.is_runtime() {
            match decode_runner_frame(data.as_slice()) {
                RunnerFrame::Malformed => Incoming::Ignore,
                RunnerFrame::RegistrationResult { id, json } => Incoming::ParseRegistration { id, json },
                RunnerFrame::UserResourceResponse { id, status, headers, body } => Incoming::Forward(
                    Message::UserResourceResponse { id, status, headers, body },
                ),
                RunnerFrame::ToBrowser { id, kind, payload } => Incoming::Forward(
                    Message::SendToBrowser { id, kind, data: payload },
                ),
            }
        } else {
            let id = match &self.worker_id {
                Some(w) => w.clone(),
                None => String::new(),
            };
            Incoming::Forward(Message::SendToRuntime { id, data })
        }
    }

    /// The connection closed: when the runner leaves every actor hears
    /// `StopAll`; when a browser client leaves the workers actor hears which.
    pub fn on_close<W, T>(&self) -> (r: CloseAction<W, T>)
        ensures
            self.mode() == ClientType::Runtime ==> (r matches CloseAction::Broadcast(m) && m is StopAll),
            self.mode() != ClientType::Runtime ==> (r matches CloseAction::ToWorkers(Message::BrowserWSClosed { worker_id, handler_id })
                && worker_id@ == match self.worker_id() {
                Some(w) => w,
                None => Seq::<char>::empty(),
            } && handler_id@ == self.handler_id()),
    {
        if self.is_runtime() {
            CloseAction::Broadcast(Message::StopAll)
        } else {
            let worker_id = match &self.worker_id {
                Some(w) => w.clone(),
                None => String::new(),
            };
            CloseAction::ToWorkers(Message::BrowserWSClosed { worker_id, handler_id: self.handler_id.clone() })
        }
    }
}

/// A browser client that connects on `/client/<id>`, with `id` free of `/`,
/// is taken for a client of the worker `id`.
pub proof fn law_client_path_names_worker(id: Seq<char>)
    requires
        !id.contains('/'),
    ensures
        starts_with("/client/"@ + id, "/client/"@),
        last_segment("/client/"@ + id) == id,
    decreases id.len(),
{
    reveal_strlit("/client/");
    let p = "/client/"@;
    assert(("/client/"@ + id).take(p.len() as int) =~= p);
    if id.len() == 0 {
        assert(p + id =~= p);
        assert(p.last() == '/');
        assert(last_segment(p) =~= Seq::<char>::empty());
    } else {
        assert(!id.drop_last().contains('/')) by {
            if id.drop_last().contains('/') {
                let i = id.drop_last().index_of('/');
                assert(id[i] == '/');
            }
        }
        law_client_path_names_worker(id.drop_last());
        assert((p + id).drop_last() =~= p + id.drop_last());
        assert((p + id).last() == id.last());
        assert(id[id.len() - 1] != '/');
        assert(id.drop_last().push(id.last()) =~= id);
    }
}

} // verus!
