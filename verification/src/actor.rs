//! The decisions of the `workers` actor of the runtime: what it does with each
//! message it receives, given what it keeps between messages.

use crate::frames::{
    encode_runtime_message, encode_user_request, header_pairs, headers_encoding, law_user_request_frame_reads_back,
    pairs_fit, read_user_request, str_field,
};
use crate::ids::{hyphenated_shape, new_v4_string};
use crate::jsworkers::{key_of, kind_name, Message, WorkerInfo, WorkerKind};
use crate::sparrow::{be_bytes_u32, sized_encoding};
use crate::strmap::StrMap;
use crate::workers::{service_workers, workers_of, JsWorkers};
use vstd::prelude::*;
use vstd::utf8::encode_utf8;
use vstd::string::StringExecFns;

verus! {

/// Something the actor asks to be done after a message.
#[allow(inconsistent_fields)]
pub enum Action<W, T> {
    /// Store the service worker in the workers table.
    StoreWorker { worker: WorkerInfo },
    /// Delete the service worker from the workers table.
    DeleteWorker { worker: WorkerInfo },
    /// Send to the runner a command with the JSON of a worker (`null` for none).
    RuntimeJson { command: String, worker: Option<WorkerInfo> },
    /// Send a binary frame to the runner.
    RuntimeFrame { data: Vec<u8> },
    /// Send a text frame to the browser client `handler_id` of worker `worker_id`.
    BrowserText { worker_id: String, handler_id: String, text: String },
    /// Send a binary frame to the browser client `handler_id` of worker `worker_id`.
    BrowserBinary { worker_id: String, handler_id: String, data: Vec<u8> },
    /// Answer on `tx`; a failed send is fatal where `must_deliver` holds.
    Reply { tx: T, message: Message<W, T>, must_deliver: bool },
    /// Post `message` to the actor named `target` through the broker.
    Post { target: String, message: Message<W, T> },
}

/// The workers table after `w` is made sure to be in it: unchanged if a worker
/// with its key is there already.
pub open spec fn kept_map(m: Map<Seq<char>, WorkerInfo>, w: WorkerInfo) -> Map<Seq<char>, WorkerInfo> {
    if m.contains_key(key_of(w@.url, w@.user)) {
        m
    } else {
        m.insert(key_of(w@.url, w@.user), w)
    }
}

/// The order of the workers after `w` is made sure to be in the table.
pub open spec fn kept_order(m: Map<Seq<char>, WorkerInfo>, o: Seq<WorkerInfo>, w: WorkerInfo) -> Seq<WorkerInfo> {
    if m.contains_key(key_of(w@.url, w@.user)) {
        o
    } else {
        o.push(w)
    }
}

/// Whether making sure `w` is in the table adds a service worker to store.
pub open spec fn stores(m: Map<Seq<char>, WorkerInfo>, w: WorkerInfo) -> bool {
    !m.contains_key(key_of(w@.url, w@.user)) && w.kind == WorkerKind::Service
}

/// The number of actions that store `w` before the others.
pub open spec fn store_count(m: Map<Seq<char>, WorkerInfo>, w: WorkerInfo) -> int {
    if stores(m, w) {
        1
    } else {
        0
    }
}

/// The actions begin with the storing of `w` where it is a new service worker.
pub open spec fn stored_first<W, T>(acts: Seq<Action<W, T>>, m: Map<Seq<char>, WorkerInfo>, w: WorkerInfo) -> bool {
    stores(m, w) ==> (acts[0] matches Action::StoreWorker { worker } && worker == w)
}

/// The websocket url given to the client of worker `key` on `host`.
pub open spec fn client_ws_url(host: Seq<char>, key: Seq<char>) -> Seq<char> {
    "ws://"@ + host + ":2016/client/"@ + key
}

/// The websocket url given to the client of worker `key` on `host`.
pub fn ws_url_for(host: &str, key: &str) -> (u: String)
    ensures
        u@ == client_ws_url(host@, key@),
{
    let mut u = "ws://".to_owned();
    u.append(host);
    u.append(":2016/client/");
    u.append(key);
    u
}

/// `a` is a `RuntimeJson` action for `command` and `worker`.
pub open spec fn is_runtime_json<W, T>(a: Action<W, T>, command: Seq<char>, worker: Option<WorkerInfo>) -> bool {
    a matches Action::RuntimeJson { command: c, worker: w } && c@ == command && w == worker
}

/// `a` is a `RuntimeFrame` action carrying `bytes`.
pub open spec fn is_runtime_frame<W, T>(a: Action<W, T>, bytes: Seq<u8>) -> bool {
    a matches Action::RuntimeFrame { data } && data@ == bytes
}

/// The state of the `workers` actor between two messages.
#[verifier::reject_recursive_types(W)]
#[verifier::reject_recursive_types(T)]
pub struct WorkersActor<W, T> {
    workers: JsWorkers,
    runtime_ws_out: Option<W>,
    browser_ws_out: StrMap<StrMap<W>>,
    reply_tx: StrMap<T>,
}

impl<W, T> WorkersActor<W, T> {
    /// The set of workers.
    pub closed spec fn workers(&self) -> JsWorkers {
        self.workers
    }

    /// The runner's websocket, once it is open.
    pub closed spec fn runtime(&self) -> Option<W> {
        self.runtime_ws_out
    }

    /// For each worker key, its browser clients by handler id.
    pub closed spec fn browsers(&self) -> Map<Seq<char>, StrMap<W>> {
        self.browser_ws_out@
    }

    /// The channels waiting for an answer of the runner, by request id.
    pub closed spec fn pending(&self) -> Map<Seq<char>, T> {
        self.reply_tx@
    }

    /// Well-formedness of the state.
    pub closed spec fn wf(&self) -> bool {
        &&& self.workers.wf()
        &&& self.browser_ws_out.wf()
        &&& forall|k: Seq<char>| #[trigger] self.browser_ws_out@.contains_key(k) ==> self.browser_ws_out@[k].wf()
        &&& self.reply_tx.wf()
    }

    /// The actor over `workers`, with no connection and nothing pending.
    pub fn new(workers: JsWorkers) -> (a: Self)
        requires
            workers.wf(),
        ensures
            a.wf(),
            a.workers() == workers,
            a.runtime() is None,
            a.browsers() == Map::<Seq<char>, StrMap<W>>::empty(),
            a.pending() == Map::<Seq<char>, T>::empty(),
    {
        WorkersActor {
            workers,
            runtime_ws_out: None,
            browser_ws_out: StrMap::new(),
            reply_tx: StrMap::new(),
        }
    }

    /// The runner's websocket, if it is open.
    pub fn runtime_out(&self) -> (r: Option<&W>)
        ensures
            match r {
                Some(w) => self.runtime() == Some(*w),
                None => self.runtime() is None,
            },
    {
        match &self.runtime_ws_out {
            Some(w) => Some(w),
            None => None,
        }
    }

    /// The websocket of the browser client `handler_id` of worker `worker_id`.
    pub fn browser_out(&self, worker_id: &str, handler_id: &str) -> (r: Option<&W>)
        requires
            self.wf(),
        ensures
            match r {
                Some(w) => self.browsers().contains_key(worker_id@) && self.browsers()[worker_id@]@.contains_key(handler_id@)
                    && *w == self.browsers()[worker_id@]@[handler_id@],
                None => !(self.browsers().contains_key(worker_id@) && self.browsers()[worker_id@]@.contains_key(handler_id@)),
            },
    {
        match self.browser_ws_out.get(worker_id) {
            Some(handlers) => handlers.get(handler_id),
            None => None,
        }
    }
}

/// The connections and pending answers are those of `pre`.
pub open spec fn same_connections<W, T>(pre: WorkersActor<W, T>, post: WorkersActor<W, T>) -> bool {
    &&& post.runtime() == pre.runtime()
    &&& post.browsers() == pre.browsers()
    &&& post.pending() == pre.pending()
}

/// The workers of `post` are those of `pre`, with `w` made sure to be there.
pub open spec fn kept_workers(pre: JsWorkers, post: JsWorkers, w: WorkerInfo) -> bool {
    &&& post.map() == kept_map(pre.map(), w)
    &&& post.order() == kept_order(pre.map(), pre.order(), w)
}

/// The browser clients of worker `id` before a client connects or leaves.
pub open spec fn clients_before<W>(b: Map<Seq<char>, StrMap<W>>, id: Seq<char>) -> Map<Seq<char>, W> {
    if b.contains_key(id) {
        b[id]@
    } else {
        Map::empty()
    }
}

/// The handler ids of the browser clients of worker `id`, in connection order.
pub open spec fn client_order<W>(b: Map<Seq<char>, StrMap<W>>, id: Seq<char>) -> Seq<Seq<char>> {
    if b.contains_key(id) {
        b[id].key_seq()
    } else {
        Seq::empty()
    }
}

/// The clients of every worker other than `id` are untouched.
pub open spec fn others_untouched<W>(pre: Map<Seq<char>, StrMap<W>>, post: Map<Seq<char>, StrMap<W>>, id: Seq<char>) -> bool {
    forall|k: Seq<char>| k != id && #[trigger] pre.contains_key(k) ==> post[k] == pre[k]
}

/// What the actor does with `msg` in state `pre`: it moves to `post` and asks
/// for `acts`; `request_id` is the id given to a user request.
pub open spec fn step<W, T>(
    pre: WorkersActor<W, T>,
    post: WorkersActor<W, T>,
    msg: Message<W, T>,
    request_id: Seq<char>,
    acts: Seq<Action<W, T>>,
) -> bool {
    match msg {
        Message::Start { worker, host, tx } => if pre.runtime() is Some {
            let k = key_of(worker@.url, worker@.user);
            let n = store_count(pre.workers().map(), worker);
            &&& kept_workers(pre.workers(), post.workers(), worker)
            &&& same_connections(pre, post)
            &&& acts.len() == n + 2
            &&& stored_first(acts, pre.workers().map(), worker)
            &&& is_runtime_json(acts[n], "StartWebWorker"@, Some(kept_map(pre.workers().map(), worker)[k]))
            &&& acts[n + 1] matches Action::Reply { tx: t, message: Message::ClientEndpoint { ws_url }, must_deliver }
                && t == tx && ws_url@ == client_ws_url(host@, k) && !must_deliver
        } else {
            post == pre && acts.len() == 0
        },
        Message::Wakeup { worker } => if pre.runtime() is Some {
            let k = key_of(worker@.url, worker@.user);
            let n = store_count(pre.workers().map(), worker);
            &&& kept_workers(pre.workers(), post.workers(), worker)
            &&& same_connections(pre, post)
            &&& acts.len() == n + 1
            &&& stored_first(acts, pre.workers().map(), worker)
            &&& is_runtime_json(acts[n], "RegisterServiceWorker"@, Some(kept_map(pre.workers().map(), worker)[k]))
        } else {
            post == pre && acts.len() == 0
        },
        Message::GetList { user, tx } => {
            &&& post == pre
            &&& acts.len() == 1
            &&& acts[0] matches Action::Reply { tx: t, message: Message::List { list }, must_deliver }
                && t == tx && list@ == workers_of(pre.workers().order(), user@) && must_deliver
        },
        Message::Shutdown => {
            &&& post == pre
            &&& pre.runtime() is Some ==> acts.len() == 1 && is_runtime_json(acts[0], "Shutdown"@, None)
            &&& pre.runtime() is None ==> acts.len() == 0
        },
        Message::RunnerWSOpened { out } => {
            &&& post.runtime() == Some(out)
            &&& post.workers() == pre.workers()
            &&& post.browsers() == pre.browsers()
            &&& post.pending() == pre.pending()
            &&& acts.len() == service_workers(pre.workers().order()).len()
            &&& forall|i: int| 0 <= i < acts.len() ==> (#[trigger] acts[i] matches Action::Post { target, message: Message::Wakeup { worker } }
                && target@ == "workers"@ && worker == service_workers(pre.workers().order())[i])
        },
        Message::BrowserWSOpened { out, worker_id, handler_id } => {
            let id = worker_id@;
            let before = clients_before(pre.browsers(), id);
            let order = client_order(pre.browsers(), id);
            &&& post.workers() == pre.workers()
            &&& post.runtime() == pre.runtime()
            &&& post.pending() == pre.pending()
            &&& post.browsers().dom() == pre.browsers().dom().insert(id)
            &&& others_untouched(pre.browsers(), post.browsers(), id)
            &&& post.browsers()[id]@ == before.insert(handler_id@, out)
            &&& post.browsers()[id].key_seq() == if before.contains_key(handler_id@) { order } else { order.push(handler_id@) }
            &&& acts.len() == 0
        },
        Message::BrowserWSClosed { worker_id, handler_id } => if pre.browsers().contains_key(worker_id@) {
            let id = worker_id@;
            let order = pre.browsers()[id].key_seq();
            &&& post.workers() == pre.workers()
            &&& post.runtime() == pre.runtime()
            &&& post.pending() == pre.pending()
            &&& post.browsers().dom() == pre.browsers().dom()
            &&& others_untouched(pre.browsers(), post.browsers(), id)
            &&& post.browsers()[id]@ == pre.browsers()[id]@.remove(handler_id@)
            &&& post.browsers()[id].key_seq() == if pre.browsers()[id]@.contains_key(handler_id@) { order.remove(order.index_of(handler_id@)) } else { order }
            &&& pre.runtime() is Some ==> acts.len() == 1 && is_runtime_json(acts[0], "StopWebWorker"@, Some(pre.workers().map()[id]))
            &&& pre.runtime() is None ==> acts.len() == 0
        } else {
            post == pre && acts.len() == 0
        },
        Message::SendToBrowser { id, kind, data } => {
            let hs = client_order(pre.browsers(), id@);
            &&& post == pre
            &&& acts.len() == 2 * hs.len()
            &&& forall|j: int| 0 <= j < hs.len() ==> (#[trigger] acts[2 * j] matches Action::BrowserText { worker_id, handler_id, text }
                && worker_id@ == id@ && handler_id@ == hs[j] && text@ == kind_name(kind))
            &&& forall|j: int| 0 <= j < hs.len() ==> (#[trigger] acts[2 * j + 1] matches Action::BrowserBinary { worker_id, handler_id, data: d }
                && worker_id@ == id@ && handler_id@ == hs[j] && d@ == data@)
        },
        Message::SendToRuntime { id, data } => {
            &&& post == pre
            &&& pre.runtime() is Some ==> acts.len() == 1 && is_runtime_frame(acts[0], str_field("Message"@) + str_field(id@) + sized_encoding(data@))
            &&& pre.runtime() is None ==> acts.len() == 0
        },
        Message::Register { worker, host, tx } => if pre.runtime() is Some {
            let k = key_of(worker@.url, worker@.user);
            let n = store_count(pre.workers().map(), worker);
            &&& kept_workers(pre.workers(), post.workers(), worker)
            &&& post.runtime() == pre.runtime()
            &&& post.browsers() == pre.browsers()
            &&& post.pending() == pre.pending().insert(k, tx)
            &&& acts.len() == n + 1
            &&& stored_first(acts, pre.workers().map(), worker)
            &&& is_runtime_json(acts[n], "RegisterServiceWorker"@, Some(kept_map(pre.workers().map(), worker)[k]))
        } else {
            post == pre && acts.len() == 0
        },
        Message::Unregister { worker } => if pre.workers().map().contains_key(key_of(worker@.url, worker@.user)) {
            let k = key_of(worker@.url, worker@.user);
            &&& post.workers().map() == pre.workers().map().remove(k)
            &&& post.workers().order() == pre.workers().order().remove(pre.workers().key_order().index_of(k))
            &&& same_connections(pre, post)
            &&& worker.kind == WorkerKind::Service ==> acts.len() == 1
                && (acts[0] matches Action::DeleteWorker { worker: w } && w == worker)
            &&& worker.kind == WorkerKind::Web ==> acts.len() == 0
        } else {
            post == pre && acts.len() == 0
        },
        Message::RegisterResult { id, success, error } => if pre.pending().contains_key(id@) {
            &&& post.workers() == pre.workers()
            &&& post.runtime() == pre.runtime()
            &&& post.browsers() == pre.browsers()
            &&& post.pending() == pre.pending().remove(id@)
            &&& acts.len() == 1
            &&& acts[0] matches Action::Reply { tx, message, must_deliver } && tx == pre.pending()[id@] && message == msg && !must_deliver
        } else {
            post == pre && acts.len() == 0
        },
        Message::GetUserResource { method, url, headers, body, user, tx } => if pre.runtime() is Some {
            &&& post.workers() == pre.workers()
            &&& post.runtime() == pre.runtime()
            &&& post.browsers() == pre.browsers()
            &&& post.pending() == pre.pending().insert(request_id, tx)
            &&& acts.len() == 1
            &&& is_runtime_frame(acts[0], str_field("GetUserResource"@) + str_field(request_id) + str_field(method@) + str_field(url@)
                + be_bytes_u32(headers@.len() as u32) + headers_encoding(header_pairs(headers@))
                + str_field("x-user"@) + str_field(user@) + sized_encoding(body@))
        } else {
            post == pre && acts.len() == 0
        },
        Message::UserResourceResponse { id, status, headers, body } => if pre.pending().contains_key(id@) {
            &&& post.workers() == pre.workers()
            &&& post.runtime() == pre.runtime()
            &&& post.browsers() == pre.browsers()
            &&& post.pending() == pre.pending().remove(id@)
            &&& acts.len() == 1
            &&& acts[0] matches Action::Reply { tx, message, must_deliver } && tx == pre.pending()[id@] && message == msg && !must_deliver
        } else {
            post == pre && acts.len() == 0
        },
        Message::StopAll => post == pre && acts.len() == 0,
        Message::ClientEndpoint { .. } => post == pre && acts.len() == 0,
        Message::List { .. } => post == pre && acts.len() == 0,
    }
}

/// The one input on which the actor would have nothing to go on: a browser
/// client of an unknown worker leaving while the runner is up.
pub open spec fn can_handle<W, T>(pre: WorkersActor<W, T>, msg: Message<W, T>) -> bool {
    match msg {
        Message::BrowserWSClosed { worker_id, .. } => pre.browsers().contains_key(worker_id@)
            && pre.runtime() is Some ==> pre.workers().map().contains_key(worker_id@),
        _ => true,
    }
}

impl<W, T> WorkersActor<W, T> {
    /// Adds `worker` to the set unless a worker with its key is there; a new
    /// service worker is to be stored, which `acts` is told.
    fn ensure_worker(&mut self, worker: &WorkerInfo, acts: &mut Vec<Action<W, T>>)
        requires
            old(self).wf(),
            old(acts)@.len() == 0,
        ensures
            final(self).wf(),
            kept_workers(old(self).workers(), final(self).workers(), *worker),
            same_connections(*old(self), *final(self)),
            final(self).workers().map().contains_key(key_of(worker@.url, worker@.user)),
            final(acts)@.len() == store_count(old(self).workers().map(), *worker),
            stored_first(final(acts)@, old(self).workers().map(), *worker),
    {
        if !self.workers.has_worker(worker) {
            let _ = self.workers.add_worker(worker);
            if worker.kind == WorkerKind::Service {
                acts.push(Action::StoreWorker { worker: worker.clone() });
            }
        }
    }

    /// The command `command` for the runner, with the current info of the worker
    /// that has the key of `worker`.
    fn worker_json(&self, command: &str, worker: &WorkerInfo) -> (a: Action<W, T>)
        requires
            self.wf(),
            self.workers().map().contains_key(key_of(worker@.url, worker@.user)),
        ensures
            is_runtime_json(a, command@, Some(self.workers().map()[key_of(worker@.url, worker@.user)])),
    {
        match self.workers.get_worker_info(worker.user.clone(), worker.url.clone()) {
            Some(info) => Action::RuntimeJson { command: command.to_owned(), worker: Some(info.clone()) },
            None => Action::RuntimeJson { command: command.to_owned(), worker: None },
        }
    }

    /// Whether `msg` can be handled in this state (see `can_handle`).
    pub fn accepts(&self, msg: &Message<W, T>) -> (b: bool)
        requires
            self.wf(),
        ensures
            b == can_handle(*self, *msg),
    {
        match msg {
            Message::BrowserWSClosed { worker_id, .. } => {
                !(self.browser_ws_out.contains_key(worker_id.as_str()) && self.runtime_ws_out.is_some())
                    || self.workers.get_worker_info_from_key(worker_id.as_str()).is_some()
            },
            _ => true,
        }
    }

    /// Handles `msg`, naming `request_id` the user request it may carry, and
    /// returns what is to be done.
    pub fn handle_with_id(&mut self, msg: Message<W, T>, request_id: String) -> (acts: Vec<Action<W, T>>)
        requires
            old(self).wf(),
            can_handle(*old(self), msg),
        ensures
            final(self).wf(),
            step(*old(self), *final(self), msg, request_id@, acts@),
    {
        let mut acts: Vec<Action<W, T>> = Vec::new();
        match msg {
            Message::Start { worker, host, tx } => {
                if self.runtime_ws_out.is_some() {
                    self.ensure_worker(&worker, &mut acts);
                    acts.push(self.worker_json("StartWebWorker", &worker));
                    let k = worker.key();
                    let ws_url = ws_url_for(host.as_str(), k.as_str());
                    acts.push(Action::Reply { tx, message: Message::ClientEndpoint { ws_url }, must_deliver: false });
                }
            },
            Message::Wakeup { worker } => {
                if self.runtime_ws_out.is_some() {
                    self.ensure_worker(&worker, &mut acts);
                    acts.push(self.worker_json("RegisterServiceWorker", &worker));
                }
            },
            Message::GetList { user, tx } => {
                let list = self.workers.get_workers_for(&user);
                acts.push(Action::Reply { tx, message: Message::List { list }, must_deliver: true });
            },
            Message::Shutdown => {
                if self.runtime_ws_out.is_some() {
                    acts.push(Action::RuntimeJson { command: "Shutdown".to_owned(), worker: None });
                }
            },
            Message::StopAll => {},
            Message::RunnerWSOpened { out } => {
                self.runtime_ws_out = Some(out);
                let ws = self.workers.wake_up_workers();
                let n = ws.len();
                let mut i: usize = 0;
                while i < n
                    invariant
                        n == ws@.len(),
                        ws@ == service_workers(self.workers().order()),
                        i <= n,
                        acts@.len() == i,
                        forall|j: int| 0 <= j < i ==> (#[trigger] acts@[j] matches Action::Post { target, message: Message::Wakeup { worker } }
                            && target@ == "workers"@ && worker == ws@[j]),
                    decreases n - i,
                {
                    acts.push(Action::Post { target: "workers".to_owned(), message: Message::Wakeup { worker: ws[i].clone() } });
                    i = i + 1;
                }
            },
            Message::BrowserWSOpened { out, worker_id, handler_id } => {
                let ghost pre = self.browser_ws_out@;
                let mut handlers = match self.browser_ws_out.remove(worker_id.as_str()) {
                    Some(h) => h,
                    None => StrMap::new(),
                };
                handlers.insert(handler_id, out);
                self.browser_ws_out.insert(worker_id, handlers);
                proof {
                    assert(self.browser_ws_out@ == pre.remove(worker_id@).insert(worker_id@, handlers));
                    assert(self.browser_ws_out@.dom() =~= pre.dom().insert(worker_id@));
                    assert forall|k: Seq<char>| #[trigger] self.browser_ws_out@.contains_key(k) implies self.browser_ws_out@[k].wf() by {
                        if k != worker_id@ {
                            assert(pre.contains_key(k));
                        }
                    }
                }
            },
            Message::BrowserWSClosed { worker_id, handler_id } => {
                if self.browser_ws_out.contains_key(worker_id.as_str()) {
                    if self.runtime_ws_out.is_some() {
                        match self.workers.get_worker_info_from_key(worker_id.as_str()) {
                            Some(info) => {
                                acts.push(Action::RuntimeJson { command: "StopWebWorker".to_owned(), worker: Some(info.clone()) });
                            },
                            None => {},
                        }
                    }
                    let ghost pre = self.browser_ws_out@;
                    let mut handlers = match self.browser_ws_out.remove(worker_id.as_str()) {
                        Some(h) => h,
                        None => StrMap::new(),
                    };
                    handlers.remove(handler_id.as_str());
                    self.browser_ws_out.insert(worker_id, handlers);
                    proof {
                        assert(self.browser_ws_out@ == pre.remove(worker_id@).insert(worker_id@, handlers));
                        assert(self.browser_ws_out@.dom() =~= pre.dom());
                        assert forall|k: Seq<char>| #[trigger] self.browser_ws_out@.contains_key(k) implies self.browser_ws_out@[k].wf() by {
                            if k != worker_id@ {
                                assert(pre.contains_key(k));
                            }
                        }
                    }
                }
            },
            Message::SendToBrowser { id, kind, data } => {
                match self.browser_ws_out.get(id.as_str()) {
                    Some(handlers) => {
                        proof {
                            handlers.lemma_shape();
                        }
                        let n = handlers.len();
                        let mut j: usize = 0;
                        while j < n
                            invariant
                                handlers.wf(),
                                n == handlers.key_seq().len(),
                                j <= n,
                                acts@.len() == 2 * j,
                                forall|i: int| 0 <= i < j ==> (#[trigger] acts@[2 * i] matches Action::BrowserText { worker_id, handler_id, text }
                                    && worker_id@ == id@ && handler_id@ == handlers.key_seq()[i] && text@ == kind_name(kind)),
                                forall|i: int| 0 <= i < j ==> (#[trigger] acts@[2 * i + 1] matches Action::BrowserBinary { worker_id, handler_id, data: d }
                                    && worker_id@ == id@ && handler_id@ == handlers.key_seq()[i] && d@ == data@),
                            decreases n - j,
                        {
                            let hid = handlers.key_at(j).clone();
                            acts.push(Action::BrowserText { worker_id: id.clone(), handler_id: hid, text: kind.name() });
                            let hid2 = handlers.key_at(j).clone();
                            let d = data.clone();
                            assert(d@ =~= data@);
                            acts.push(Action::BrowserBinary { worker_id: id.clone(), handler_id: hid2, data: d });
                            j = j + 1;
                        }
                    },
                    None => {},
                }
            },
            Message::SendToRuntime { id, data } => {
                if self.runtime_ws_out.is_some() {
                    acts.push(Action::RuntimeFrame { data: encode_runtime_message(id.as_str(), data.as_slice()) });
                }
            },
            Message::Register { worker, host, tx } => {
                if self.runtime_ws_out.is_some() {
                    self.ensure_worker(&worker, &mut acts);
                    let k = worker.key();
                    self.reply_tx.insert(k, tx);
                    acts.push(self.worker_json("RegisterServiceWorker", &worker));
                }
            },
            Message::Unregister { worker } => {
                if self.workers.remove_worker(&worker).is_ok() {
                    if worker.kind == WorkerKind::Service {
                        acts.push(Action::DeleteWorker { worker });
                    }
                }
            },
            Message::RegisterResult { id, success, error } => {
                match self.reply_tx.remove(id.as_str()) {
                    Some(tx) => {
                        acts.push(Action::Reply { tx, message: Message::RegisterResult { id, success, error }, must_deliver: false });
                    },
                    None => {},
                }
            },
            Message::GetUserResource { method, url, headers, body, user, tx } => {
                if self.runtime_ws_out.is_some() {
                    let frame = encode_user_request(request_id.as_str(), method.as_str(), url.as_str(), &headers, user.as_str(), body.as_slice());
                    self.reply_tx.insert(request_id, tx);
                    acts.push(Action::RuntimeFrame { data: frame });
                }
            },
            Message::UserResourceResponse { id, status, headers, body } => {
                match self.reply_tx.remove(id.as_str()) {
                    Some(tx) => {
                        acts.push(Action::Reply { tx, message: Message::UserResourceResponse { id, status, headers, body }, must_deliver: false });
                    },
                    None => {},
                }
            },
            Message::ClientEndpoint { ws_url } => {},
            Message::List { list } => {},
        }
        acts
    }

    /// Handles `msg` and returns what is to be done. A user request gets a
    /// fresh random id, a hyphenated UUID, by which the runner's answer finds
    /// its way back.
    pub fn handle(&mut self, msg: Message<W, T>) -> (acts: Vec<Action<W, T>>)
        requires
            old(self).wf(),
            can_handle(*old(self), msg),
        ensures
            final(self).wf(),
            exists|id: Seq<char>|
                #[trigger] step(*old(self), *final(self), msg, id, acts@) && (msg is GetUserResource && old(self).runtime() is Some
                    ==> hyphenated_shape(id)),
    {
        let needs_id = match &msg {
            Message::GetUserResource { .. } => self.runtime_ws_out.is_some(),
            _ => false,
        };
        let request_id = if needs_id {
            new_v4_string()
        } else {
            String::new()
        };
        let ghost id = request_id@;
        assert(msg is GetUserResource && self.runtime() is Some ==> hyphenated_shape(id));
        let acts = self.handle_with_id(msg, request_id);
        assert(step(*old(self), *self, msg, id, acts@) && (msg is GetUserResource && old(self).runtime() is Some
            ==> hyphenated_shape(id)));
        acts
    }
}

/// While the runner is not connected, the messages that need it are dropped:
/// nothing changes and nothing is done.
pub proof fn law_runner_down_drops<W, T>(
    pre: WorkersActor<W, T>,
    post: WorkersActor<W, T>,
    msg: Message<W, T>,
    request_id: Seq<char>,
    acts: Seq<Action<W, T>>,
)
    requires
        pre.runtime() is None,
        msg is Start || msg is Wakeup || msg is Register || msg is GetUserResource || msg is SendToRuntime
            || msg is Shutdown,
        step(pre, post, msg, request_id, acts),
    ensures
        post == pre,
        acts.len() == 0,
{
}

/// The answer of the runner to a registration goes to the channel that asked
/// for it, and only once: the channel is forgotten once it has been answered.
pub proof fn law_registration_answered_once<W, T>(
    pre: WorkersActor<W, T>,
    mid: WorkersActor<W, T>,
    post: WorkersActor<W, T>,
    last: WorkersActor<W, T>,
    worker: WorkerInfo,
    host: String,
    tx: T,
    answer: Message<W, T>,
    id0: Seq<char>,
    id1: Seq<char>,
    id2: Seq<char>,
    acts0: Seq<Action<W, T>>,
    acts1: Seq<Action<W, T>>,
    acts2: Seq<Action<W, T>>,
)
    requires
        pre.runtime() is Some,
        step(pre, mid, Message::Register { worker, host, tx }, id0, acts0),
        answer matches Message::RegisterResult { id, .. } && id@ == key_of(worker@.url, worker@.user),
        step(mid, post, answer, id1, acts1),
        step(post, last, answer, id2, acts2),
    ensures
        acts1.len() == 1,
        acts1[0] matches Action::Reply { tx: t, message, .. } && t == tx && message == answer,
        acts2.len() == 0,
{
}

/// Registering the same service worker twice is idempotent: the second
/// registration changes no worker and stores nothing, it only asks the runner
/// to register it again.
pub proof fn law_register_twice_idempotent<W, T>(
    pre: WorkersActor<W, T>,
    mid: WorkersActor<W, T>,
    post: WorkersActor<W, T>,
    worker: WorkerInfo,
    host0: String,
    host1: String,
    tx0: T,
    tx1: T,
    id0: Seq<char>,
    id1: Seq<char>,
    acts0: Seq<Action<W, T>>,
    acts1: Seq<Action<W, T>>,
)
    requires
        pre.runtime() is Some,
        step(pre, mid, Message::Register { worker, host: host0, tx: tx0 }, id0, acts0),
        step(mid, post, Message::Register { worker, host: host1, tx: tx1 }, id1, acts1),
    ensures
        post.workers().map() == mid.workers().map(),
        post.workers().order() == mid.workers().order(),
        acts1.len() == 1,
        is_runtime_json(acts1[0], "RegisterServiceWorker"@, Some(mid.workers().map()[key_of(worker@.url, worker@.user)])),
{
    let k = key_of(worker@.url, worker@.user);
    assert(mid.workers().map().contains_key(k));
}

/// Registering a new service worker and then unregistering it gives the
/// workers table back: the row stored by the first is deleted by the second.
pub proof fn law_register_then_unregister<W, T>(
    pre: WorkersActor<W, T>,
    mid: WorkersActor<W, T>,
    post: WorkersActor<W, T>,
    worker: WorkerInfo,
    host: String,
    tx: T,
    id0: Seq<char>,
    id1: Seq<char>,
    acts0: Seq<Action<W, T>>,
    acts1: Seq<Action<W, T>>,
)
    requires
        pre.runtime() is Some,
        worker.kind == WorkerKind::Service,
        !pre.workers().map().contains_key(key_of(worker@.url, worker@.user)),
        step(pre, mid, Message::Register { worker, host, tx }, id0, acts0),
        step(mid, post, Message::Unregister { worker }, id1, acts1),
    ensures
        post.workers().map() == pre.workers().map(),
        acts0[0] matches Action::StoreWorker { worker: w } && w == worker,
        acts1.len() == 1,
        acts1[0] matches Action::DeleteWorker { worker: w } && w == worker,
{
    let k = key_of(worker@.url, worker@.user);
    assert(mid.workers().map().contains_key(k));
    assert(pre.workers().map().insert(k, worker).remove(k) =~= pre.workers().map());
}

/// While the runner is connected, a user request is forwarded to it as one
/// frame that reads back as the request itself: its id, method, url, every
/// header in order, the user, and the request's own body.
pub proof fn law_user_request_forwarded<W, T>(
    pre: WorkersActor<W, T>,
    post: WorkersActor<W, T>,
    method: String,
    url: String,
    headers: Vec<(String, String)>,
    body: Vec<u8>,
    user: String,
    tx: T,
    request_id: Seq<char>,
    acts: Seq<Action<W, T>>,
)
    requires
        pre.runtime() is Some,
        step(pre, post, Message::GetUserResource { method, url, headers, body, user, tx }, request_id, acts),
        encode_utf8(request_id).len() <= usize::MAX,
        encode_utf8(method@).len() <= usize::MAX,
        encode_utf8(url@).len() <= usize::MAX,
        encode_utf8(user@).len() <= usize::MAX,
        pairs_fit(header_pairs(headers@)),
        headers@.len() <= u32::MAX,
        body@.len() <= usize::MAX,
    ensures
        acts.len() == 1,
        acts[0] matches Action::RuntimeFrame { data } && read_user_request(data@) == Some(
            ("GetUserResource"@, request_id, method@, url@, header_pairs(headers@), "x-user"@, user@, body@),
        ),
        post.pending() == pre.pending().insert(request_id, tx),
{
    law_user_request_frame_reads_back(request_id, method@, url@, header_pairs(headers@), user@, body@);
    assert(header_pairs(headers@).len() == headers@.len());
}

/// The response of the runner to a user request goes to the channel that made
/// the request, and only once.
pub proof fn law_user_request_answered_once<W, T>(
    pre: WorkersActor<W, T>,
    mid: WorkersActor<W, T>,
    post: WorkersActor<W, T>,
    last: WorkersActor<W, T>,
    request: Message<W, T>,
    answer: Message<W, T>,
    request_id: Seq<char>,
    id1: Seq<char>,
    id2: Seq<char>,
    acts0: Seq<Action<W, T>>,
    acts1: Seq<Action<W, T>>,
    acts2: Seq<Action<W, T>>,
)
    requires
        pre.runtime() is Some,
        request is GetUserResource,
        step(pre, mid, request, request_id, acts0),
        answer matches Message::UserResourceResponse { id, .. } && id@ == request_id,
        step(mid, post, answer, id1, acts1),
        step(post, last, answer, id2, acts2),
    ensures
        acts1.len() == 1,
        acts1[0] matches Action::Reply { tx: t, .. } && request matches Message::GetUserResource { tx, .. } && t == tx,
        acts2.len() == 0,
{
}

/// A browser client that connects and then leaves gives the clients of its
/// worker back as they were.
pub proof fn law_browser_connect_then_leave<W, T>(
    pre: WorkersActor<W, T>,
    mid: WorkersActor<W, T>,
    post: WorkersActor<W, T>,
    out: W,
    worker_id: String,
    handler_id: String,
    id0: Seq<char>,
    id1: Seq<char>,
    acts0: Seq<Action<W, T>>,
    acts1: Seq<Action<W, T>>,
)
    requires
        !clients_before(pre.browsers(), worker_id@).contains_key(handler_id@),
        step(pre, mid, Message::BrowserWSOpened { out, worker_id, handler_id }, id0, acts0),
        step(mid, post, Message::BrowserWSClosed { worker_id, handler_id }, id1, acts1),
    ensures
        post.browsers()[worker_id@]@ == clients_before(pre.browsers(), worker_id@),
        post.browsers()[worker_id@].key_seq() == client_order(pre.browsers(), worker_id@),
        post.workers() == pre.workers(),
        post.pending() == pre.pending(),
{
    let b = clients_before(pre.browsers(), worker_id@);
    assert(b.insert(handler_id@, out).remove(handler_id@) =~= b);
    let order = client_order(pre.browsers(), worker_id@);
    let order1 = order.push(handler_id@);
    assert(order1[order.len() as int] == handler_id@);
    assert(order1.index_of(handler_id@) == order.len() as int) by {
        let j = order1.index_of(handler_id@);
        if j != order.len() as int {
            assert(order1[j] == order[j]);
            assert(b.contains_key(handler_id@)) by {
                if pre.browsers().contains_key(worker_id@) {
                    pre.browsers()[worker_id@].lemma_key_present(j);
                }
            }
        }
    }
    assert(order1.remove(order.len() as int) =~= order);
}

} // verus!
