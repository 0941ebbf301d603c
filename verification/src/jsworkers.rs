//! The description of a worker, kept synchronized with the runtime, the key
//! that identifies it, and the messages exchanged by the jsworkers system.

use std::hash::BuildHasher;
use vstd::prelude::*;

verus! {

/// The url a worker script is loaded from.
pub type Url = String;

/// The identity of the user a worker belongs to.
pub type User = String;

/// The key that identifies a worker: the decimal digest of its url and user.
pub type WorkerInfoKey = String;

/// Whether a worker is running.
#[derive(Clone, Copy, Debug, PartialEq, Eq, Structural)]
pub enum WorkerState {
    Stopped,
    Running,
}

/// Whether a worker is a web worker, which lives while clients use it, or a
/// service worker, which is registered and kept across restarts.
#[derive(Clone, Copy, Debug, PartialEq, Eq, Structural)]
pub enum WorkerKind {
    Web,
    Service,
}

/// A worker: the url of its script, its user, its state, its kind and, for a
/// service worker, its registration options.
#[derive(Debug, PartialEq)]
pub struct WorkerInfo {
    pub url: Url,
    pub user: User,
    pub state: WorkerState,
    pub kind: WorkerKind,
    pub options: Option<String>,
}

/// What a `WorkerInfo` holds, as mathematical values.
pub struct WorkerInfoView {
    pub url: Seq<char>,
    pub user: Seq<char>,
    pub state: WorkerState,
    pub kind: WorkerKind,
    pub options: Option<Seq<char>>,
}

/// The characters of an optional string.
pub open spec fn opt_view(o: Option<String>) -> Option<Seq<char>> {
    match o {
        Some(s) => Some(s@),
        None => None,
    }
}

impl View for WorkerInfo {
    type V = WorkerInfoView;

    open spec fn view(&self) -> WorkerInfoView {
        WorkerInfoView { url: self.url@, user: self.user@, state: self.state, kind: self.kind, options: opt_view(self.options) }
    }
}

/// The kind of a payload relayed to the browser clients of a worker.
#[derive(Clone, Copy, Debug, PartialEq, Eq, Structural)]
pub enum BrowserMessageKind {
    Message,
    Error,
}

/// The name of a payload kind, as it is sent to browser clients.
pub open spec fn kind_name(k: BrowserMessageKind) -> Seq<char> {
    match k {
        BrowserMessageKind::Message => "message"@,
        BrowserMessageKind::Error => "error"@,
    }
}

impl BrowserMessageKind {
    /// The name of the kind, as it is sent to browser clients.
    pub fn name(&self) -> (s: String)
        ensures
            s@ == kind_name(*self),
    {
        match self {
            BrowserMessageKind::Message => "message".to_owned(),
            BrowserMessageKind::Error => "error".to_owned(),
        }
    }
}

/// A message for the `workers` actor. `W` is the sending end of a websocket,
/// `T` a channel on which an answer is expected.
#[allow(inconsistent_fields)]
#[derive(Clone)]
pub enum Message<W, T> {
    /// Starts a web worker; answered with the url of its websocket endpoint.
    Start { worker: WorkerInfo, host: String, tx: T },
    /// Asks the runner to bring a stored worker up.
    Wakeup { worker: WorkerInfo },
    /// Asks for the workers of a user; answered with `List`.
    GetList { user: User, tx: T },
    /// The box is shutting down.
    Shutdown,
    /// The runner went away.
    StopAll,
    /// The runner's websocket is open.
    RunnerWSOpened { out: W },
    /// A browser client of a worker opened a websocket.
    BrowserWSOpened { out: W, worker_id: WorkerInfoKey, handler_id: String },
    /// A browser client of a worker closed its websocket.
    BrowserWSClosed { worker_id: WorkerInfoKey, handler_id: String },
    /// A payload from the runner for the browser clients of a worker.
    SendToBrowser { id: WorkerInfoKey, kind: BrowserMessageKind, data: Vec<u8> },
    /// A payload from a browser client for its worker in the runner.
    SendToRuntime { id: WorkerInfoKey, data: Vec<u8> },
    /// Registers a service worker; answered with `RegisterResult`.
    Register { worker: WorkerInfo, host: String, tx: T },
    /// Forgets a registered service worker.
    Unregister { worker: WorkerInfo },
    /// The runner's answer to a registration.
    RegisterResult { id: String, success: bool, error: String },
    /// A request of a user for a resource that a worker serves; answered with
    /// `UserResourceResponse`.
    GetUserResource {
        method: String,
        url: String,
        headers: Vec<(String, String)>,
        body: Vec<u8>,
        user: User,
        tx: T,
    },
    /// The runner's answer to a user request.
    UserResourceResponse { id: String, status: u16, headers: Vec<(String, String)>, body: Vec<u8> },
    /// The answer to `Start`: the websocket url for the client.
    ClientEndpoint { ws_url: String },
    /// The answer to `GetList`.
    List { list: Vec<WorkerInfo> },
}

/// The SipHash-2-4 digest, with the all-zero key, of `url` and then `user`,
/// each hashed as a `str` is.
pub uninterp spec fn sip_digest(url: Seq<char>, user: Seq<char>) -> u64;

/// The character of the decimal digit `d`.
pub open spec fn digit_char(d: nat) -> char {
    if d == 0 {
        '0'
    } else if d == 1 {
        '1'
    } else if d == 2 {
        '2'
    } else if d == 3 {
        '3'
    } else if d == 4 {
        '4'
    } else if d == 5 {
        '5'
    } else if d == 6 {
        '6'
    } else if d == 7 {
        '7'
    } else if d == 8 {
        '8'
    } else {
        '9'
    }
}

/// The decimal notation of `n`, without leading zeros.
pub open spec fn decimal(n: nat) -> Seq<char>
    decreases n,
{
    if n < 10 {
        seq![digit_char(n)]
    } else {
        decimal(n / 10).push(digit_char(n % 10))
    }
}

/// The key of the worker loaded from `url` for `user`.
pub open spec fn key_of(url: Seq<char>, user: Seq<char>) -> Seq<char> {
    decimal(sip_digest(url, user) as nat)
}

/// Hashes `url` and then `user` with `std::hash::SipHasher::new()` (SipHash-2-4,
/// all-zero key) and returns `finish()`; that is what `BuildHasher::hash_one`
/// does on the pair. The digest is a function of the two strings alone.
#[verifier::external_body]
#[allow(deprecated)]
fn sip_hash_url_user(url: &str, user: &str) -> (h: u64)
    ensures
        h == sip_digest(url@, user@),
{
    std::hash::BuildHasherDefault::<std::hash::SipHasher>::default().hash_one((url, user))
}

/// Appends `c` to `s` with `String::push`.
#[verifier::external_body]
pub(crate) fn push_char(s: &mut String, c: char)
    ensures
        final(s)@ == old(s)@.push(c),
{
    s.push(c)
}

fn decimal_digit(d: u64) -> (c: char)
    requires
        d < 10,
    ensures
        c == digit_char(d as nat),
{
    if d == 0 {
        '0'
    } else if d == 1 {
        '1'
    } else if d == 2 {
        '2'
    } else if d == 3 {
        '3'
    } else if d == 4 {
        '4'
    } else if d == 5 {
        '5'
    } else if d == 6 {
        '6'
    } else if d == 7 {
        '7'
    } else if d == 8 {
        '8'
    } else {
        '9'
    }
}

/// Appends the decimal notation of `n` to `out`.
pub fn write_decimal(n: u64, out: &mut String)
    ensures
        final(out)@ == old(out)@ + decimal(n as nat),
    decreases n,
{
    if n >= 10 {
        write_decimal(n / 10, out);
    }
    push_char(out, decimal_digit(n % 10));
    proof {
        assert(decimal(n as nat) == if n < 10 {
            seq![digit_char(n as nat)]
        } else {
            decimal((n / 10) as nat).push(digit_char((n % 10) as nat))
        });
        if n < 10 {
            assert(n % 10 == n);
        }
        assert(final(out)@ =~= old(out)@ + decimal(n as nat));
    }
}

impl WorkerInfo {
    /// A web worker for `user`, loaded from `url`, in `initial_state`.
    pub fn new(url: Url, user: User, initial_state: WorkerState) -> (w: Self)
        ensures
            w == (WorkerInfo { url, user, state: initial_state, kind: WorkerKind::Web, options: None }),
            w@ == (WorkerInfoView { url: url@, user: user@, state: initial_state, kind: WorkerKind::Web, options: None }),
    {
        WorkerInfo { url: url, user: user, state: initial_state, kind: WorkerKind::Web, options: None }
    }

    /// A stopped web worker for `user`, loaded from `url`.
    pub fn default(url: Url, user: User) -> (w: Self)
        ensures
            w == (WorkerInfo { url, user, state: WorkerState::Stopped, kind: WorkerKind::Web, options: None }),
            w@ == (WorkerInfoView { url: url@, user: user@, state: WorkerState::Stopped, kind: WorkerKind::Web, options: None }),
    {
        WorkerInfo { url: url, user: user, state: WorkerState::Stopped, kind: WorkerKind::Web, options: None }
    }

    /// A stopped service worker for `user`, loaded from `url`, registered with
    /// `options`.
    pub fn new_serviceworker(url: Url, user: User, options: Option<String>) -> (w: Self)
        ensures
            w == (WorkerInfo { url, user, state: WorkerState::Stopped, kind: WorkerKind::Service, options }),
            w@ == (WorkerInfoView { url: url@, user: user@, state: WorkerState::Stopped, kind: WorkerKind::Service, options: opt_view(options) }),
    {
        WorkerInfo { url: url, user: user, state: WorkerState::Stopped, kind: WorkerKind::Service, options }
    }

    /// The unique key of this worker: that of its url and user.
    pub fn key(&self) -> (k: WorkerInfoKey)
        ensures
            k@ == key_of(self@.url, self@.user),
    {
        WorkerInfo::key_from(&self.url, &self.user)
    }

    /// The key of the worker loaded from `url` for `user`: the decimal notation
    /// of the SipHash digest of the url and then the user.
    pub fn key_from(url: &str, user: &str) -> (k: WorkerInfoKey)
        ensures
            k@ == key_of(url@, user@),
    {
        let h = sip_hash_url_user(url, user);
        let mut out = String::new();
        write_decimal(h, &mut out);
        assert(out@ =~= decimal(h as nat));
        out
    }
}

impl Clone for WorkerInfo {
    fn clone(&self) -> (w: Self)
        ensures
            w == *self,
    {
        let options = match &self.options {
            Some(o) => Some(o.clone()),
            None => None,
        };
        WorkerInfo { url: self.url.clone(), user: self.user.clone(), state: self.state, kind: self.kind, options }
    }
}

/// The value of a decimal digit character (0 for any other character).
pub open spec fn digit_value(c: char) -> nat {
    if c == '1' {
        1
    } else if c == '2' {
        2
    } else if c == '3' {
        3
    } else if c == '4' {
        4
    } else if c == '5' {
        5
    } else if c == '6' {
        6
    } else if c == '7' {
        7
    } else if c == '8' {
        8
    } else if c == '9' {
        9
    } else {
        0
    }
}

/// Whether `c` is a decimal digit.
pub open spec fn is_digit(c: char) -> bool {
    '0' <= c && c <= '9'
}

/// The number a string of decimal digits denotes.
pub open spec fn decimal_value(s: Seq<char>) -> nat
    decreases s.len(),
{
    if s.len() == 0 {
        0
    } else {
        decimal_value(s.drop_last()) * 10 + digit_value(s.last())
    }
}

proof fn lemma_digit(d: nat)
    requires
        d < 10,
    ensures
        digit_value(digit_char(d)) == d,
        is_digit(digit_char(d)),
        d >= 1 ==> digit_char(d) != '0',
{
}

/// The decimal notation of `n` is made of digits, has no leading zero, and
/// denotes `n`.
pub proof fn law_decimal_round_trip(n: nat)
    ensures
        decimal(n).len() >= 1,
        forall|i: int| 0 <= i < decimal(n).len() ==> is_digit(#[trigger] decimal(n)[i]),
        n >= 1 ==> decimal(n)[0] != '0',
        decimal_value(decimal(n)) == n,
    decreases n,
{
    lemma_digit(n % 10);
    if n < 10 {
        assert(n % 10 == n);
        assert(decimal(n) == seq![digit_char(n)]);
        assert(decimal(n)[0] == digit_char(n));
        assert(decimal(n).drop_last() =~= Seq::<char>::empty());
        assert(n >= 1 ==> decimal(n)[0] != '0');
        assert(decimal(n).last() == digit_char(n));
        assert(decimal_value(Seq::<char>::empty()) == 0);
        assert(decimal_value(decimal(n)) == decimal_value(decimal(n).drop_last()) * 10 + digit_value(decimal(n).last()));
    } else {
        assert(n / 10 >= 1);
        law_decimal_round_trip(n / 10);
        let d = decimal(n);
        assert(d == decimal(n / 10).push(digit_char(n % 10)));
        assert(d.drop_last() =~= decimal(n / 10));
        assert(forall|i: int| 0 <= i < d.len() - 1 ==> d[i] == decimal(n / 10)[i]);
        assert(d[0] == decimal(n / 10)[0]);
        assert(decimal_value(d) == decimal_value(decimal(n / 10)) * 10 + digit_value(digit_char(n % 10)));
        assert((n / 10) * 10 + n % 10 == n);
        assert(decimal(n)[0] != '0');
        assert(d.last() == digit_char(n % 10));
    }
}

/// A worker's key is the canonical decimal notation of the digest of its url
/// and user: it is a function of those two alone, made of digits, without a
/// leading zero, and it denotes the digest.
pub proof fn law_key_is_digest(url: Seq<char>, user: Seq<char>)
    ensures
        decimal_value(key_of(url, user)) == sip_digest(url, user),
        forall|i: int| 0 <= i < key_of(url, user).len() ==> is_digit(#[trigger] key_of(url, user)[i]),
        sip_digest(url, user) >= 1 ==> key_of(url, user)[0] != '0',
{
    law_decimal_round_trip(sip_digest(url, user) as nat);
}

} // verus!
