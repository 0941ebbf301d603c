//! The decisions of the HTTP routers of the jsworkers runtime: the one that
//! manages workers (`/start`, `/register`, `/unregister`, `/list`) and the one
//! that serves the public urls of users (`/user/<user>/...`). Every endpoint is
//! authenticated: a request acts for the user its session token names.

use crate::jsworkers::Message;
use crate::frames::str_eq;
use crate::jsworkers::{opt_view, Url, User, WorkerInfo, WorkerInfoView, WorkerKind, WorkerState};
use vstd::prelude::*;
use vstd::string::StringExecFns;

verus! {

/// The HTTP methods the routers tell apart.
#[derive(Clone, Copy, Debug, PartialEq, Eq, Structural)]
pub enum Method {
    Get,
    Post,
    Put,
    Delete,
    Other,
}

/// What the session token of a request gave.
pub enum Credentials {
    /// The request has no bearer token.
    Missing,
    /// The token is valid and names this user.
    Valid(User),
    /// The token does not decode.
    Invalid,
}

/// The HTTP error statuses the routers answer with on their own.
#[derive(Clone, Copy, Debug, PartialEq, Eq, Structural)]
pub enum Status {
    BadRequest,
    Unauthorized,
    NotFound,
    InternalServerError,
}

/// Where the workers router sends a request.
pub enum Route {
    /// Answer 401.
    Unauthorized,
    /// `POST /start`, for the session user.
    Start(User),
    /// `POST /register`, for the session user.
    Register(User),
    /// `POST /unregister`, for the session user.
    Unregister(User),
    /// `GET /list`, for the session user.
    List(User),
    /// Answer 404.
    NotFound,
}

/// Whether `path` is the single segment `seg`.
pub open spec fn is_path(path: Seq<String>, seg: Seq<char>) -> bool {
    path.len() == 1 && path[0]@ == seg
}

/// Where the workers router sends a request with credentials `creds`, path
/// `path` and method `method`: 401 without a valid session, else by path and
/// method, for the session user.
pub open spec fn routed(creds: Credentials, path: Seq<String>, method: Method) -> Route {
    match creds {
        Credentials::Valid(u) => if is_path(path, "start"@) && method == Method::Post {
            Route::Start(u)
        } else if is_path(path, "register"@) && method == Method::Post {
            Route::Register(u)
        } else if is_path(path, "unregister"@) && method == Method::Post {
            Route::Unregister(u)
        } else if is_path(path, "list"@) && method == Method::Get {
            Route::List(u)
        } else {
            Route::NotFound
        },
        _ => Route::Unauthorized,
    }
}

/// Whether `path` is the single segment `seg`.
fn path_is(path: &Vec<String>, seg: &str) -> (b: bool)
    ensures
        b == is_path(path@, seg@),
{
    path.len() == 1 && str_eq(path[0].as_str(), seg)
}

/// Routes a request of the workers router: refuses it unless its session token
/// is valid, then dispatches on the path and the method.
pub fn route(creds: Credentials, path: &Vec<String>, method: Method) -> (r: Route)
    ensures
        r == routed(creds, path@, method),
{
    match creds {
        Credentials::Valid(user) => {
            if path_is(path, "start") && method == Method::Post {
                Route::Start(user)
            } else if path_is(path, "register") && method == Method::Post {
                Route::Register(user)
            } else if path_is(path, "unregister") && method == Method::Post {
                Route::Unregister(user)
            } else if path_is(path, "list") && method == Method::Get {
                Route::List(user)
            } else {
                Route::NotFound
            }
        },
        _ => Route::Unauthorized,
    }
}

/// The message asking the workers actor for the workers of `user`.
pub fn list_request<W, T>(user: User, tx: T) -> (m: Message<W, T>)
    ensures
        m == (Message::GetList::<W, T> { user, tx }),
{
    Message::GetList { user, tx }
}

/// The message asking the workers actor to start the web worker at
/// `worker_url` for `user`, reached through `host`.
pub fn start_request<W, T>(user: User, worker_url: Url, host: String, tx: T) -> (m: Message<W, T>)
    ensures
        m matches Message::Start { worker, host: h, tx: t } && t == tx && h == host && worker@ == (WorkerInfoView {
            url: worker_url@,
            user: user@,
            state: WorkerState::Stopped,
            kind: WorkerKind::Web,
            options: None,
        }),
{
    Message::Start { worker: WorkerInfo::new(worker_url, user, WorkerState::Stopped), host, tx }
}

/// The message asking the workers actor to register the service worker at
/// `worker_url` for `user` with the registration `options`, reached through
/// `host`.
pub fn register_request<W, T>(user: User, worker_url: Url, options: Option<String>, host: String, tx: T) -> (m: Message<W, T>)
    ensures
        m matches Message::Register { worker, host: h, tx: t } && t == tx && h == host && worker@ == (WorkerInfoView {
            url: worker_url@,
            user: user@,
            state: WorkerState::Stopped,
            kind: WorkerKind::Service,
            options: opt_view(options),
        }),
{
    Message::Register { worker: WorkerInfo::new_serviceworker(worker_url, user, options), host, tx }
}

/// The message asking the workers actor to forget the service worker at
/// `worker_url` of `user`.
pub fn unregister_request<W, T>(user: User, worker_url: Url, options: Option<String>) -> (m: Message<W, T>)
    ensures
        m matches Message::Unregister { worker } && worker@ == (WorkerInfoView {
            url: worker_url@,
            user: user@,
            state: WorkerState::Stopped,
            kind: WorkerKind::Service,
            options: opt_view(options),
        }),
{
    Message::Unregister { worker: WorkerInfo::new_serviceworker(worker_url, user, options) }
}

/// What `/start` answers, given the reply of the workers actor (`None` when
/// none came): the websocket url on `ClientEndpoint`, a server error otherwise.
pub fn start_answer<W, T>(reply: Option<Message<W, T>>) -> (r: Result<String, Status>)
    ensures
        match reply {
            Some(Message::ClientEndpoint { ws_url }) => r == Ok::<String, Status>(ws_url),
            _ => r == Err::<String, Status>(Status::InternalServerError),
        },
{
    match reply {
        Some(Message::ClientEndpoint { ws_url }) => Ok(ws_url),
        _ => Err(Status::InternalServerError),
    }
}

/// The text of the 404 answer for `url`.
pub fn not_found_text(url: &str) -> (s: String)
    ensures
        s@ == "Unknown url: "@ + url@,
{
    let mut s = "Unknown url: ".to_owned();
    s.append(url);
    s
}

/// The (methods, path) pairs of the workers router that need a session: all
/// of them.
pub fn auth_endpoints() -> (r: Vec<(Vec<Method>, String)>)
    ensures
        r@.len() == 5,
        r@[0].0@ == seq![Method::Get] && r@[0].1@ == "list"@,
        r@[1].0@ == seq![Method::Post] && r@[1].1@ == "start"@,
        r@[2].0@ == seq![Method::Post] && r@[2].1@ == "stop"@,
        r@[3].0@ == seq![Method::Post] && r@[3].1@ == "register"@,
        r@[4].0@ == seq![Method::Post] && r@[4].1@ == "unregister"@,
{
    let mut r: Vec<(Vec<Method>, String)> = Vec::new();
    r.push((vec![Method::Get], "list".to_owned()));
    r.push((vec![Method::Post], "start".to_owned()));
    r.push((vec![Method::Post], "stop".to_owned()));
    r.push((vec![Method::Post], "register".to_owned()));
    r.push((vec![Method::Post], "unregister".to_owned()));
    r
}

/// Where the router of user urls sends a request.
pub enum UserRoute {
    /// Answer 401.
    Unauthorized,
    /// Ask the worker of this user for the resource.
    Forward(User),
    /// Answer 404.
    NotFound,
}

/// Routes a request for a user url whose path begins with `first_segment`: it
/// needs a valid session, and the path must name the session user.
pub fn user_route(creds: Credentials, first_segment: &str) -> (r: UserRoute)
    ensures
        match creds {
            Credentials::Valid(u) => if first_segment@ == u@ {
                r == UserRoute::Forward(u)
            } else {
                r is NotFound
            },
            _ => r is Unauthorized,
        },
{
    match creds {
        Credentials::Valid(user) => {
            if str_eq(first_segment, user.as_str()) {
                UserRoute::Forward(user)
            } else {
                UserRoute::NotFound
            }
        },
        _ => UserRoute::Unauthorized,
    }
}

/// What a user url answers, given the reply of the workers actor (`None` when
/// none came): the worker's status, headers and body on
/// `UserResourceResponse`, a server error otherwise.
pub fn user_resource_answer<W, T>(reply: Option<Message<W, T>>) -> (r: Result<(u16, Vec<(String, String)>, Vec<u8>), Status>)
    ensures
        match reply {
            Some(Message::UserResourceResponse { id, status, headers, body }) => r == Ok::<(u16, Vec<(String, String)>, Vec<u8>), Status>((status, headers, body)),
            _ => r == Err::<(u16, Vec<(String, String)>, Vec<u8>), Status>(Status::InternalServerError),
        },
{
    match reply {
        Some(Message::UserResourceResponse { id, status, headers, body }) => Ok((status, headers, body)),
        _ => Err(Status::InternalServerError),
    }
}

/// The (methods, path) pairs of the router of user urls that need a session:
/// every method on `user`.
pub fn user_auth_endpoints() -> (r: Vec<(Vec<Method>, String)>)
    ensures
        r@.len() == 1,
        r@[0].0@ == seq![Method::Get, Method::Post, Method::Put, Method::Delete],
        r@[0].1@ == "user"@,
{
    let mut r: Vec<(Vec<Method>, String)> = Vec::new();
    r.push((vec![Method::Get, Method::Post, Method::Put, Method::Delete], "user".to_owned()));
    r
}

/// Every endpoint is authenticated: a request without a valid session token is
/// answered 401, whatever its path and method.
pub proof fn law_unauthenticated_refused(creds: Credentials, path: Seq<String>, method: Method)
    requires
        !(creds is Valid),
    ensures
        routed(creds, path, method) is Unauthorized,
{
}

/// A request that is served acts for the user its session names, and no other.
pub proof fn law_served_for_session_user(creds: Credentials, path: Seq<String>, method: Method)
    ensures
        match routed(creds, path, method) {
            Route::Start(u) | Route::Register(u) | Route::Unregister(u) | Route::List(u) =>
                creds == Credentials::Valid(u),
            _ => true,
        },
{
}

} // verus!
