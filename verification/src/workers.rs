//! The set of workers known to the runtime, keyed by worker key.

use crate::jsworkers::{
    is_digit, key_of, law_key_is_digest, push_char, Url, User, WorkerInfo, WorkerInfoKey, WorkerInfoView,
    WorkerKind, WorkerState,
};
use crate::strmap::StrMap;
use vstd::prelude::*;
use vstd::string::StrSliceExecFns;

verus! {

/// A character as it is written inside a quoted SQL string: a quote is doubled.
pub open spec fn escaped_char(c: char) -> Seq<char> {
    if c == '\'' {
        seq!['\'', '\'']
    } else {
        seq![c]
    }
}

/// `s` written inside a quoted SQL string: every quote doubled.
pub open spec fn escaped(s: Seq<char>) -> Seq<char>
    decreases s.len(),
{
    if s.len() == 0 {
        Seq::empty()
    } else {
        escaped(s.drop_last()) + escaped_char(s.last())
    }
}

/// Doubles every single quote of `string`, as SQLite quoting asks.
pub fn escape(string: &str) -> (r: String)
    ensures
        r@ == escaped(string@),
{
    let mut out = String::new();
    let n = string.unicode_len();
    let mut i: usize = 0;
    while i < n
        invariant
            n == string@.len(),
            i <= n,
            out@ == escaped(string@.take(i as int)),
        decreases n - i,
    {
        let c = string.get_char(i);
        if c == '\'' {
            push_char(&mut out, '\'');
            push_char(&mut out, '\'');
        } else {
            push_char(&mut out, c);
        }
        proof {
            assert(string@.take(i + 1).drop_last() =~= string@.take(i as int));
            assert(out@ =~= escaped(string@.take(i + 1)));
        }
        i = i + 1;
    }
    assert(string@.take(n as int) =~= string@);
    out
}

/// The workers, in order, that belong to `user`.
pub open spec fn workers_of(ws: Seq<WorkerInfo>, user: Seq<char>) -> Seq<WorkerInfo> {
    ws.filter(belongs_to(user))
}

/// The service workers among `ws`, in order.
pub open spec fn service_workers(ws: Seq<WorkerInfo>) -> Seq<WorkerInfo> {
    ws.filter(|w: WorkerInfo| w.kind == WorkerKind::Service)
}

/// Whether a worker belongs to `user`.
pub open spec fn belongs_to(user: Seq<char>) -> spec_fn(WorkerInfo) -> bool {
    |w: WorkerInfo| w.user@ == user
}

/// The map obtained by inserting the stored rows in order, each a stopped
/// service worker with the stored options.
pub open spec fn loaded(rows: Seq<(WorkerInfoKey, Url, User, String)>) -> Map<Seq<char>, WorkerInfo>
    decreases rows.len(),
{
    if rows.len() == 0 {
        Map::empty()
    } else {
        let r = rows.last();
        loaded(rows.drop_last()).insert(
            r.0@,
            WorkerInfo {
                url: r.1,
                user: r.2,
                state: WorkerState::Stopped,
                kind: WorkerKind::Service,
                options: Some(r.3),
            },
        )
    }
}

/// `w` with its state set to `state`.
pub open spec fn with_state(w: WorkerInfo, state: WorkerState) -> WorkerInfo {
    WorkerInfo { state: state, ..w }
}

/// The entire set of workers, keyed by worker key, in the order they were added.
pub struct JsWorkers {
    workers: StrMap<WorkerInfo>,
}

impl JsWorkers {
    /// The workers, by key.
    pub closed spec fn map(&self) -> Map<Seq<char>, WorkerInfo> {
        self.workers@
    }

    /// The workers, in the order they were added.
    pub closed spec fn order(&self) -> Seq<WorkerInfo> {
        self.workers.value_seq()
    }

    /// The keys, in the order the workers were added.
    pub closed spec fn key_order(&self) -> Seq<Seq<char>> {
        self.workers.key_seq()
    }

    /// Well-formedness of the set.
    pub closed spec fn wf(&self) -> bool {
        self.workers.wf()
    }

    /// The order and the map hold the same workers, and no key occurs twice.
    pub proof fn lemma_order(&self)
        requires
            self.wf(),
        ensures
            self.order().len() == self.key_order().len(),
            self.key_order().no_duplicates(),
            self.map().dom() == self.key_order().to_set(),
            self.map().len() == self.order().len(),
            forall|i: int|
                0 <= i < self.order().len() ==> #[trigger] self.map()[self.key_order()[i]]
                    == self.order()[i],
    {
        self.workers.lemma_shape();
    }

    /// The set made of the stored workers `rows`, each given as its key, url,
    /// user and registration options; every loaded worker is a stopped service
    /// worker.
    pub fn new(rows: Vec<(WorkerInfoKey, Url, User, String)>) -> (s: Self)
        ensures
            s.wf(),
            s.map() == loaded(rows@),
    {
        let mut workers = StrMap::new();
        let n = rows.len();
        let mut i: usize = 0;
        while i < n
            invariant
                n == rows@.len(),
                i <= n,
                workers.wf(),
                workers@ == loaded(rows@.take(i as int)),
            decreases n - i,
        {
            let row = &rows[i];
            let w = WorkerInfo {
                url: row.1.clone(),
                user: row.2.clone(),
                state: WorkerState::Stopped,
                kind: WorkerKind::Service,
                options: Some(row.3.clone()),
            };
            workers.insert(row.0.clone(), w);
            proof {
                assert(rows@.take(i + 1).drop_last() =~= rows@.take(i as int));
            }
            i = i + 1;
        }
        assert(rows@.take(n as int) =~= rows@);
        JsWorkers { workers }
    }

    /// Whether a worker with the key of `info` is in the set.
    pub fn has_worker(&self, info: &WorkerInfo) -> (b: bool)
        requires
            self.wf(),
        ensures
            b == self.map().contains_key(key_of(info@.url, info@.user)),
    {
        let k = info.key();
        self.workers.contains_key(k.as_str())
    }

    /// The current info for the worker stored under `key`.
    pub fn get_worker_info_from_key(&self, key: &str) -> (r: Option<&WorkerInfo>)
        requires
            self.wf(),
        ensures
            match r {
                Some(w) => self.map().contains_key(key@) && *w == self.map()[key@],
                None => !self.map().contains_key(key@),
            },
    {
        self.workers.get(key)
    }

    /// The current info for the worker of `user` loaded from `url`.
    pub fn get_worker_info(&self, user: User, url: Url) -> (r: Option<&WorkerInfo>)
        requires
            self.wf(),
        ensures
            match r {
                Some(w) => self.map().contains_key(key_of(url@, user@)) && *w == self.map()[key_of(
                    url@,
                    user@,
                )],
                None => !self.map().contains_key(key_of(url@, user@)),
            },
    {
        let k = WorkerInfo::key_from(url.as_str(), user.as_str());
        self.workers.get(k.as_str())
    }

    /// The workers of `user`, in the order they were added.
    pub fn get_workers_for(&mut self, user: &User) -> (res: Vec<WorkerInfo>)
        requires
            old(self).wf(),
        ensures
            *final(self) == *old(self),
            res@ == workers_of(old(self).order(), user@),
    {
        let mut res: Vec<WorkerInfo> = Vec::new();
        let n = self.workers.len();
        let mut i: usize = 0;
        while i < n
            invariant
                self.wf(),
                n == self.order().len(),
                i <= n,
                res@ == workers_of(self.order().take(i as int), user@),
            decreases n - i,
        {
            let info = self.workers.value_at(i);
            proof {
                reveal(Seq::filter);
                assert(self.order().take(i + 1).drop_last() =~= self.order().take(i as int));
            }
            if info.user == *user {
                res.push(info.clone());
            }
            i = i + 1;
        }
        assert(self.order().take(n as int) =~= self.order());
        res
    }

    /// Adds a copy of `info` under its key; fails if a worker with that key is
    /// already in the set.
    pub fn add_worker(&mut self, info: &WorkerInfo) -> (r: Result<(), ()>)
        requires
            old(self).wf(),
        ensures
            final(self).wf(),
            r is Err <==> old(self).map().contains_key(key_of(info@.url, info@.user)),
            r is Err ==> *final(self) == *old(self),
            r is Ok ==> final(self).map() == old(self).map().insert(
                key_of(info@.url, info@.user),
                *info,
            ),
            r is Ok ==> final(self).order() == old(self).order().push(*info),
    {
        if self.has_worker(info) {
            return Err(());
        }
        let new_worker = info.clone();
        let k = new_worker.key();
        self.workers.insert(k, new_worker);
        Ok(())
    }

    /// Removes the worker with the key of `info`; fails if there is none.
    pub fn remove_worker(&mut self, info: &WorkerInfo) -> (r: Result<(), ()>)
        requires
            old(self).wf(),
        ensures
            final(self).wf(),
            r is Err <==> !old(self).map().contains_key(key_of(info@.url, info@.user)),
            r is Err ==> *final(self) == *old(self),
            r is Ok ==> final(self).map() == old(self).map().remove(key_of(info@.url, info@.user)),
            r is Ok ==> final(self).order() == old(self).order().remove(
                old(self).key_order().index_of(key_of(info@.url, info@.user)),
            ),
    {
        if !self.has_worker(info) {
            return Err(());
        }
        let k = info.key();
        self.workers.remove(k.as_str());
        Ok(())
    }

    /// Moves the worker with the key of `info` from `from` to `to`; fails if
    /// there is no such worker or it is not in state `from`.
    fn switch_state(&mut self, info: &WorkerInfo, from: WorkerState, to: WorkerState) -> (r: Result<(), ()>)
        requires
            old(self).wf(),
        ensures
            final(self).wf(),
            ({
                let k = key_of(info@.url, info@.user);
                &&& r is Err <==> !old(self).map().contains_key(k) || old(self).map()[k].state != from
                &&& r is Err ==> *final(self) == *old(self)
                &&& r is Ok ==> final(self).map() == old(self).map().insert(
                    k,
                    with_state(old(self).map()[k], to),
                )
                &&& r is Ok ==> final(self).key_order() == old(self).key_order()
                &&& r is Ok ==> final(self).order() == old(self).order().update(
                    old(self).key_order().index_of(k),
                    with_state(old(self).map()[k], to),
                )
            }),
    {
        let k = info.key();
        match self.workers.find(k.as_str()) {
            None => Err(()),
            Some(i) => {
                proof {
                    self.workers.lemma_shape();
                    let ks = self.workers.key_seq();
                    assert(ks[ks.index_of(k@)] == k@);
                    assert(ks.index_of(k@) == i as int);
                }
                let current = self.workers.value_at(i);
                if current.state != from {
                    return Err(());
                }
                let mut w = current.clone();
                w.state = to;
                self.workers.set_value_at(i, w);
                Ok(())
            },
        }
    }

    /// Marks the worker with the key of `info` as running; fails if there is
    /// no such worker or it is already running.
    pub fn start_worker(&mut self, info: &WorkerInfo) -> (r: Result<(), ()>)
        requires
            old(self).wf(),
        ensures
            final(self).wf(),
            ({
                let k = key_of(info@.url, info@.user);
                &&& r is Err <==> !old(self).map().contains_key(k) || old(self).map()[k].state
                    == WorkerState::Running
                &&& r is Err ==> *final(self) == *old(self)
                &&& r is Ok ==> final(self).map() == old(self).map().insert(
                    k,
                    with_state(old(self).map()[k], WorkerState::Running),
                )
                &&& r is Ok ==> final(self).key_order() == old(self).key_order()
                &&& r is Ok ==> final(self).order() == old(self).order().update(
                    old(self).key_order().index_of(k),
                    with_state(old(self).map()[k], WorkerState::Running),
                )
            }),
    {
        self.switch_state(info, WorkerState::Stopped, WorkerState::Running)
    }

    /// Marks the worker with the key of `info` as stopped; fails if there is
    /// no such worker or it is already stopped.
    pub fn stop_worker(&mut self, info: &WorkerInfo) -> (r: Result<(), ()>)
        requires
            old(self).wf(),
        ensures
            final(self).wf(),
            ({
                let k = key_of(info@.url, info@.user);
                &&& r is Err <==> !old(self).map().contains_key(k) || old(self).map()[k].state
                    == WorkerState::Stopped
                &&& r is Err ==> *final(self) == *old(self)
                &&& r is Ok ==> final(self).map() == old(self).map().insert(
                    k,
                    with_state(old(self).map()[k], WorkerState::Stopped),
                )
                &&& r is Ok ==> final(self).key_order() == old(self).key_order()
                &&& r is Ok ==> final(self).order() == old(self).order().update(
                    old(self).key_order().index_of(k),
                    with_state(old(self).map()[k], WorkerState::Stopped),
                )
            }),
    {
        self.switch_state(info, WorkerState::Running, WorkerState::Stopped)
    }

    /// Marks every worker as stopped.
    pub fn stop_all(&mut self)
        requires
            old(self).wf(),
        ensures
            final(self).wf(),
            final(self).key_order() == old(self).key_order(),
            final(self).order() == old(self).order().map_values(
                |w: WorkerInfo| with_state(w, WorkerState::Stopped),
            ),
            final(self).map() == old(self).map().map_values(
                |w: WorkerInfo| with_state(w, WorkerState::Stopped),
            ),
    {
        let n = self.workers.len();
        proof {
            self.lemma_order();
        }
        let mut i: usize = 0;
        while i < n
            invariant
                self.wf(),
                n == self.order().len(),
                n == self.key_order().len(),
                i <= n,
                self.key_order() == old(self).key_order(),
                self.order().len() == old(self).order().len(),
                forall|j: int|
                    0 <= j < i ==> #[trigger] self.order()[j] == with_state(
                        old(self).order()[j],
                        WorkerState::Stopped,
                    ),
                forall|j: int| i <= j < n ==> #[trigger] self.order()[j] == old(self).order()[j],
            decreases n - i,
        {
            let mut w = self.workers.value_at(i).clone();
            w.state = WorkerState::Stopped;
            self.workers.set_value_at(i, w);
            i = i + 1;
        }
        proof {
            let f = |w: WorkerInfo| with_state(w, WorkerState::Stopped);
            assert(self.order() =~= old(self).order().map_values(f));
            self.lemma_order();
            old(self).lemma_order();
            assert(self.map().dom() =~= old(self).map().map_values(f).dom());
            assert forall|k: Seq<char>| #[trigger] self.map().contains_key(k) implies self.map()[k]
                == old(self).map().map_values(f)[k] by {
                let j = self.key_order().index_of(k);
                assert(self.key_order()[j] == k);
            }
            assert(self.map() =~= old(self).map().map_values(f));
        }
    }

    /// The workers to wake up when the runtime comes up: the service workers,
    /// in the order they were added.
    pub fn wake_up_workers(&self) -> (res: Vec<WorkerInfo>)
        requires
            self.wf(),
        ensures
            res@ == service_workers(self.order()),
    {
        let mut res: Vec<WorkerInfo> = Vec::new();
        let n = self.workers.len();
        let mut i: usize = 0;
        while i < n
            invariant
                self.wf(),
                n == self.order().len(),
                i <= n,
                res@ == service_workers(self.order().take(i as int)),
            decreases n - i,
        {
            let info = self.workers.value_at(i);
            proof {
                reveal(Seq::filter);
                assert(self.order().take(i + 1).drop_last() =~= self.order().take(i as int));
            }
            if info.kind == WorkerKind::Service {
                res.push(info.clone());
            }
            i = i + 1;
        }
        assert(self.order().take(n as int) =~= self.order());
        res
    }

    /// The number of workers.
    pub fn count(&self) -> (n: usize)
        requires
            self.wf(),
        ensures
            n == self.map().len(),
    {
        self.workers.len()
    }
}

/// The registration options as they are stored: empty when there are none.
pub open spec fn options_text(o: Option<Seq<char>>) -> Seq<char> {
    match o {
        Some(s) => s,
        None => Seq::empty(),
    }
}

/// The values stored for `info` in the `workers` table: its key, url, user and
/// registration options (empty when it has none), each escaped.
pub fn db_row(info: &WorkerInfo) -> (r: (String, String, String, String))
    ensures
        r.0@ == escaped(key_of(info@.url, info@.user)),
        r.1@ == escaped(info@.url),
        r.2@ == escaped(info@.user),
        r.3@ == escaped(options_text(info@.options)),
{
    let k = info.key();
    let r3 = match &info.options {
        Some(o) => escape(o.as_str()),
        None => {
            let e = escape("");
            proof {
                reveal_strlit("");
            }
            e
        },
    };
    (escape(k.as_str()), escape(info.url.as_str()), escape(info.user.as_str()), r3)
}

/// The key under which `info` is stored in the `workers` table, escaped.
pub fn db_key(info: &WorkerInfo) -> (r: String)
    ensures
        r@ == escaped(key_of(info@.url, info@.user)),
{
    let k = info.key();
    escape(k.as_str())
}

/// Escaping distributes over concatenation.
pub proof fn law_escape_concat(a: Seq<char>, b: Seq<char>)
    ensures
        escaped(a + b) == escaped(a) + escaped(b),
    decreases b.len(),
{
    if b.len() == 0 {
        assert(a + b =~= a);
        assert(escaped(a) + escaped(b) =~= escaped(a));
    } else {
        law_escape_concat(a, b.drop_last());
        assert((a + b).drop_last() =~= a + b.drop_last());
        assert((a + b).last() == b.last());
        assert(escaped(a) + escaped(b) =~= escaped(a) + escaped(b.drop_last()) + escaped_char(b.last()));
    }
}

/// A string without quotes is left as it is by escaping.
pub proof fn law_escape_without_quotes(s: Seq<char>)
    requires
        !s.contains('\''),
    ensures
        escaped(s) == s,
    decreases s.len(),
{
    if s.len() > 0 {
        assert(!s.drop_last().contains('\'')) by {
            if s.drop_last().contains('\'') {
                let i = s.drop_last().index_of('\'');
                assert(s[i] == '\'');
            }
        }
        law_escape_without_quotes(s.drop_last());
        assert(s[s.len() - 1] != '\'');
        assert(escaped(s) =~= s);
    }
}

/// Every quote is doubled: escaping adds one character per quote.
pub proof fn law_escape_length(s: Seq<char>)
    ensures
        escaped(s).len() == s.len() + s.filter(|c: char| c == '\'').len(),
    decreases s.len(),
{
    reveal(Seq::filter);
    if s.len() > 0 {
        law_escape_length(s.drop_last());
    }
}

/// Adding a worker whose key is new grows the set by one, and removing it
/// again gives the set back.
pub proof fn law_add_then_remove(ws: JsWorkers, w: WorkerInfo)
    requires
        ws.wf(),
        !ws.map().contains_key(key_of(w@.url, w@.user)),
    ensures
        ws.map().insert(key_of(w@.url, w@.user), w).len() == ws.map().len() + 1,
        ws.map().insert(key_of(w@.url, w@.user), w).remove(key_of(w@.url, w@.user)) == ws.map(),
{
    ws.lemma_order();
    assert(ws.map().insert(key_of(w@.url, w@.user), w).remove(key_of(w@.url, w@.user)) =~= ws.map());
}

/// Starting a stopped worker and stopping it again gives the set back.
pub proof fn law_start_then_stop(ws: JsWorkers, k: Seq<char>)
    requires
        ws.wf(),
        ws.map().contains_key(k),
        ws.map()[k].state == WorkerState::Stopped,
    ensures
        ({
            let started = ws.map().insert(k, with_state(ws.map()[k], WorkerState::Running));
            started.insert(k, with_state(started[k], WorkerState::Stopped)) == ws.map()
        }),
{
    let started = ws.map().insert(k, with_state(ws.map()[k], WorkerState::Running));
    assert(with_state(started[k], WorkerState::Stopped) == ws.map()[k]);
    assert(started.insert(k, with_state(started[k], WorkerState::Stopped)) =~= ws.map());
}

/// After `stop_all` no worker runs, and the same keys are there.
pub proof fn law_stop_all_stops_every_worker(ws: JsWorkers)
    requires
        ws.wf(),
    ensures
        ({
            let stopped = ws.map().map_values(|w: WorkerInfo| with_state(w, WorkerState::Stopped));
            &&& stopped.dom() == ws.map().dom()
            &&& forall|k: Seq<char>| #[trigger] stopped.contains_key(k) ==> stopped[k].state == WorkerState::Stopped
        }),
{
}

/// The workers listed for a user are exactly the workers of that user, in the
/// order they were added.
pub proof fn law_workers_of_user(ws: Seq<WorkerInfo>, user: Seq<char>)
    ensures
        forall|i: int| 0 <= i < workers_of(ws, user).len() ==> (#[trigger] workers_of(ws, user)[i]).user@ == user,
        forall|i: int| 0 <= i < ws.len() && (#[trigger] ws[i]).user@ == user ==> workers_of(ws, user).contains(ws[i]),
        forall|w: WorkerInfo| #[trigger] workers_of(ws, user).contains(w) ==> ws.contains(w),
{
    let pred = belongs_to(user);
    broadcast use vstd::seq_lib::group_filter_ensures;
    assert forall|i: int| 0 <= i < workers_of(ws, user).len() implies (#[trigger] workers_of(ws, user)[i]).user@ == user by {
        ws.lemma_filter_pred(pred, i);
    }
    assert forall|i: int| 0 <= i < ws.len() && (#[trigger] ws[i]).user@ == user implies workers_of(ws, user).contains(ws[i]) by {
        ws.lemma_filter_contains(pred, i);
    }
    assert forall|w: WorkerInfo| #[trigger] workers_of(ws, user).contains(w) implies ws.contains(w) by {
        ws.lemma_filter_contains_rev(pred, w);
    }
}

/// Undoes the doubling of quotes, reading from the left: each pair of quotes
/// becomes one quote, as `str::replace("''", "'")` does.
pub open spec fn unescaped(t: Seq<char>) -> Seq<char>
    decreases t.len(),
{
    if t.len() == 0 {
        Seq::empty()
    } else if t.len() >= 2 && t[0] == '\'' && t[1] == '\'' {
        seq!['\''] + unescaped(t.skip(2))
    } else {
        seq![t[0]] + unescaped(t.skip(1))
    }
}

/// Undoubling the quotes of an escaped string gives the string back.
pub proof fn law_unescape_escaped(s: Seq<char>)
    ensures
        unescaped(escaped(s)) == s,
    decreases s.len(),
{
    if s.len() > 0 {
        let c = s[0];
        let rest = s.skip(1);
        assert(s =~= seq![c] + rest);
        law_escape_concat(seq![c], rest);
        assert(seq![c].drop_last() =~= Seq::<char>::empty());
        assert(seq![c].last() == c);
        assert(escaped(Seq::<char>::empty()) == Seq::<char>::empty());
        assert(escaped(seq![c]) =~= escaped_char(c));
        let t = escaped(s);
        assert(t == escaped_char(c) + escaped(rest));
        law_unescape_escaped(rest);
        if c == '\'' {
            assert(t.skip(2) =~= escaped(rest));
            assert(t[0] == '\'' && t[1] == '\'');
        } else {
            assert(t.skip(1) =~= escaped(rest));
            assert(t[0] == c);
        }
        assert(unescaped(t) =~= s);
    }
}

/// The stored row `i` is what loading gives under its key, when no later row
/// has the same key.
pub proof fn lemma_loaded_row(rows: Seq<(WorkerInfoKey, Url, User, String)>, i: int)
    requires
        0 <= i < rows.len(),
        forall|j: int| i < j < rows.len() ==> (#[trigger] rows[j]).0@ != rows[i].0@,
    ensures
        loaded(rows).contains_key(rows[i].0@),
        loaded(rows)[rows[i].0@] == (WorkerInfo {
            url: rows[i].1,
            user: rows[i].2,
            state: WorkerState::Stopped,
            kind: WorkerKind::Service,
            options: Some(rows[i].3),
        }),
    decreases rows.len(),
{
    if i < rows.len() - 1 {
        let prefix = rows.drop_last();
        assert forall|j: int| i < j < prefix.len() implies (#[trigger] prefix[j]).0@ != prefix[i].0@ by {
            assert(prefix[j] == rows[j]);
        }
        lemma_loaded_row(prefix, i);
        assert(rows.last() == rows[rows.len() - 1]);
    }
}

/// A service worker whose url, user and options hold no quote, once its row is
/// among the stored rows (with no later row under the same key), is loaded
/// back under its key as a stopped service worker with the same url, user and
/// options (empty options when it had none).
pub proof fn law_stored_worker_loads_back(
    rows: Seq<(WorkerInfoKey, Url, User, String)>,
    i: int,
    info: WorkerInfo,
)
    requires
        !info@.url.contains('\''),
        !info@.user.contains('\''),
        !options_text(info@.options).contains('\''),
        0 <= i < rows.len(),
        rows[i].0@ == escaped(key_of(info@.url, info@.user)),
        rows[i].1@ == escaped(info@.url),
        rows[i].2@ == escaped(info@.user),
        rows[i].3@ == escaped(options_text(info@.options)),
        forall|j: int| i < j < rows.len() ==> (#[trigger] rows[j]).0@ != rows[i].0@,
    ensures
        loaded(rows).contains_key(key_of(info@.url, info@.user)),
        loaded(rows)[key_of(info@.url, info@.user)]@ == (WorkerInfoView {
            url: info@.url,
            user: info@.user,
            state: WorkerState::Stopped,
            kind: WorkerKind::Service,
            options: Some(options_text(info@.options)),
        }),
{
    let k = key_of(info@.url, info@.user);
    law_key_is_digest(info@.url, info@.user);
    assert(!k.contains('\'')) by {
        if k.contains('\'') {
            let j = k.index_of('\'');
            assert(is_digit(k[j]));
        }
    }
    law_escape_without_quotes(k);
    law_escape_without_quotes(info@.url);
    law_escape_without_quotes(info@.user);
    law_escape_without_quotes(options_text(info@.options));
    lemma_loaded_row(rows, i);
}

/// Every service worker of the set is woken up, whatever its state, and only
/// service workers of the set are.
pub proof fn law_wake_up_every_service_worker(ws: Seq<WorkerInfo>)
    ensures
        forall|i: int| 0 <= i < ws.len() && (#[trigger] ws[i]).kind == WorkerKind::Service ==> service_workers(ws).contains(ws[i]),
        forall|w: WorkerInfo| #[trigger] service_workers(ws).contains(w) ==> w.kind == WorkerKind::Service && ws.contains(w),
{
    let pred = |w: WorkerInfo| w.kind == WorkerKind::Service;
    assert forall|i: int| 0 <= i < ws.len() && (#[trigger] ws[i]).kind == WorkerKind::Service implies service_workers(ws).contains(ws[i]) by {
        ws.lemma_filter_contains(pred, i);
    }
    assert forall|w: WorkerInfo| #[trigger] service_workers(ws).contains(w) implies w.kind == WorkerKind::Service && ws.contains(w) by {
        ws.lemma_filter_contains_rev(pred, w);
        let j = choose|j: int| 0 <= j < service_workers(ws).len() && service_workers(ws)[j] == w;
        ws.lemma_filter_pred(pred, j);
    }
}

} // verus!
