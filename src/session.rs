use vstd::prelude::*;
use crate::ids::random_uuid_text;
use crate::models::{
    deadline, lapsed, Component, ExpirationWrapper, ExpiringView, SessionInfo, SessionView,
};
use crate::table::{rows_match, Table};

verus! {

/// Lifetime of a session after its last lookup, in milliseconds.
pub const SESSIONS_EXPIRATION_TIME: u64 = 10000;

/// How many access keys are drawn before opening a session is given up.
pub const ACCESS_KEY_DRAWS: usize = 4;

/// The session opened under `access_key` with the given identity and endpoint.
pub open spec fn opened_session(
    access_key: Seq<char>,
    uid: Seq<char>,
    peer_address: Seq<char>,
    component: Component,
    on_ip_address: Seq<char>,
    on_port_number: u16,
    public_key: Seq<u8>,
    domain_name: Seq<char>,
) -> SessionView {
    SessionView {
        access_key,
        uid,
        peer_address,
        component,
        on_ip_address,
        on_port_number,
        public_key,
        domain_name,
    }
}

/// The sessions, each under its access key, and one index per component kind
/// from uid to access key.
pub struct SessionsView {
    pub sessions: Map<Seq<char>, ExpiringView<SessionView>>,
    pub clients: Map<Seq<char>, Seq<char>>,
    pub proxies: Map<Seq<char>, Seq<char>>,
    pub controllers: Map<Seq<char>, Seq<char>>,
}

impl SessionsView {
    /// The index of kind `c`.
    pub open spec fn index(self, c: Component) -> Map<Seq<char>, Seq<char>> {
        match c {
            Component::Controller => self.controllers,
            Component::Proxy => self.proxies,
            Component::Client => self.clients,
        }
    }

    /// This state with the index of kind `c` replaced by `m`.
    pub open spec fn with_index(self, c: Component, m: Map<Seq<char>, Seq<char>>) -> SessionsView {
        match c {
            Component::Controller => SessionsView { controllers: m, ..self },
            Component::Proxy => SessionsView { proxies: m, ..self },
            Component::Client => SessionsView { clients: m, ..self },
        }
    }

    /// The session under access key `k`.
    pub open spec fn session(self, k: Seq<char>) -> SessionView {
        self.sessions[k].value
    }
}

/// Every session sits under its own access key, and every index entry names
/// a live session of that uid and that kind: no entry dangles.
pub open spec fn consistent(v: SessionsView) -> bool {
    &&& forall|k: Seq<char>| #[trigger]
        v.sessions.contains_key(k) ==> v.sessions[k].value.access_key == k
    &&& forall|c: Component, u: Seq<char>| #[trigger]
        v.index(c).contains_key(u) ==> {
            let k = v.index(c)[u];
            &&& v.sessions.contains_key(k)
            &&& v.sessions[k].value.uid == u
            &&& v.sessions[k].value.component == c
        }
}

/// The state after the session under `k` is removed, with its index entry.
pub open spec fn after_remove(v: SessionsView, k: Seq<char>) -> SessionsView {
    if v.sessions.contains_key(k) {
        let s = v.sessions[k].value;
        let idx = v.index(s.component);
        let v1 = SessionsView { sessions: v.sessions.remove(k), ..v };
        if idx.contains_key(s.uid) && idx[s.uid] == k {
            v1.with_index(s.component, idx.remove(s.uid))
        } else {
            v1
        }
    } else {
        v
    }
}

/// The state after `s` is stored at `now`: any session under the same key
/// goes first, and the index of its kind then maps its uid to its key.
pub open spec fn after_insert(v: SessionsView, s: SessionView, now: u64) -> SessionsView {
    let v1 = after_remove(v, s.access_key);
    let w = ExpiringView {
        value: s,
        expires_at: deadline(now, SESSIONS_EXPIRATION_TIME),
        expiration_time: SESSIONS_EXPIRATION_TIME,
    };
    let v2 = SessionsView { sessions: v1.sessions.insert(s.access_key, w), ..v1 };
    v2.with_index(s.component, v1.index(s.component).insert(s.uid, s.access_key))
}

/// The state after a lookup of `k` at `now`: a session found there gets a
/// full lifetime from `now`.
pub open spec fn after_renew(v: SessionsView, k: Seq<char>, now: u64) -> SessionsView {
    if v.sessions.contains_key(k) {
        let w = v.sessions[k];
        SessionsView {
            sessions: v.sessions.insert(
                k,
                ExpiringView { expires_at: deadline(now, w.expiration_time), ..w },
            ),
            ..v
        }
    } else {
        v
    }
}

/// The entries of index `m` whose access key is not in `gone`.
pub open spec fn keep_live(m: Map<Seq<char>, Seq<char>>, gone: Set<Seq<char>>) -> Map<
    Seq<char>,
    Seq<char>,
> {
    Map::new(|u: Seq<char>| m.contains_key(u) && !gone.contains(m[u]), |u: Seq<char>| m[u])
}

/// The state after the sessions under the keys of `gone` are removed, with
/// every index entry that names one of them.
pub open spec fn dropping(v: SessionsView, gone: Set<Seq<char>>) -> SessionsView {
    SessionsView {
        sessions: v.sessions.remove_keys(gone),
        clients: keep_live(v.clients, gone),
        proxies: keep_live(v.proxies, gone),
        controllers: keep_live(v.controllers, gone),
    }
}

/// The keys of the sessions that have lapsed at `now`.
pub open spec fn lapsed_keys(v: SessionsView, now: u64) -> Set<Seq<char>> {
    Set::new(
        |k: Seq<char>| v.sessions.contains_key(k) && lapsed(v.sessions[k].expires_at, now),
    )
}

/// The state after a sweep at `now`.
pub open spec fn swept(v: SessionsView, now: u64) -> SessionsView {
    dropping(v, lapsed_keys(v, now))
}

/// `r` lists the live Proxy sessions that the proxy index names, but the one
/// under `exclude`, each once.
pub open spec fn lists_proxies(v: SessionsView, exclude: Seq<char>, r: Seq<SessionView>) -> bool {
    &&& forall|j: int|
        0 <= j < r.len() ==> {
            let s = #[trigger] r[j];
            &&& v.proxies.contains_key(s.uid)
            &&& v.proxies[s.uid] == s.access_key
            &&& s.access_key != exclude
            &&& v.sessions.contains_key(s.access_key)
            &&& v.sessions[s.access_key].value == s
        }
    &&& forall|u: Seq<char>|
        #[trigger] v.proxies.contains_key(u) && v.proxies[u] != exclude ==> exists|j: int|
            0 <= j < r.len() && r[j].uid == u
    &&& forall|i: int, j: int| 0 <= i < r.len() && 0 <= j < r.len() && i != j ==> r[i].uid != r[j].uid
}

/// Some row before `i` holds key `k` and has lapsed at `now`.
spec fn lapsed_row_before<T>(rows: Seq<(String, ExpirationWrapper<T>)>, i: int, k: Seq<char>, now: u64) -> bool {
    exists|m: int| 0 <= m < i && rows[m].0@ == k && lapsed(rows[m].1.expires_at, now)
}

proof fn lemma_drop_one(v: SessionsView, gone: Set<Seq<char>>, k: Seq<char>)
    requires
        consistent(v),
        v.sessions.contains_key(k),
        !gone.contains(k),
    ensures
        after_remove(dropping(v, gone), k) == dropping(v, gone.insert(k)),
{
    let d = dropping(v, gone);
    let s = v.sessions[k].value;
    let g2 = gone.insert(k);
    assert(d.sessions.contains_key(k));
    assert(d.sessions.remove(k) =~= v.sessions.remove_keys(g2));
    assert forall|c: Component| c != s.component implies #[trigger] keep_live(v.index(c), gone)
        =~= keep_live(v.index(c), g2) by {
        assert forall|u: Seq<char>| keep_live(v.index(c), gone).contains_key(u) implies keep_live(
            v.index(c),
            g2,
        ).contains_key(u) by {
            assert(v.index(c).contains_key(u));
        }
    }
    let idx = d.index(s.component);
    if idx.contains_key(s.uid) && idx[s.uid] == k {
        assert(idx.remove(s.uid) =~= keep_live(v.index(s.component), g2)) by {
            assert forall|u: Seq<char>| #[trigger] keep_live(
                v.index(s.component),
                g2,
            ).contains_key(u) implies idx.remove(s.uid).contains_key(u) by {
                assert(v.index(s.component).contains_key(u));
            }
            assert forall|u: Seq<char>| #[trigger] idx.remove(s.uid).contains_key(u) implies keep_live(
                v.index(s.component),
                g2,
            ).contains_key(u) by {
                assert(v.index(s.component).contains_key(u));
                let ku = v.index(s.component)[u];
                if ku == k {
                    assert(v.sessions[ku].value.uid == u);
                }
            }
        }
    } else {
        assert(idx =~= keep_live(v.index(s.component), g2)) by {
            assert forall|u: Seq<char>| #[trigger] idx.contains_key(u) implies keep_live(
                v.index(s.component),
                g2,
            ).contains_key(u) by {
                assert(v.index(s.component).contains_key(u));
                let ku = v.index(s.component)[u];
                if ku == k {
                    assert(v.sessions[ku].value.uid == u);
                }
            }
        }
    }
    match s.component {
        Component::Controller => {
            assert(keep_live(v.index(Component::Proxy), gone) =~= keep_live(v.index(Component::Proxy), g2));
            assert(keep_live(v.index(Component::Client), gone) =~= keep_live(v.index(Component::Client), g2));
        },
        Component::Proxy => {
            assert(keep_live(v.index(Component::Controller), gone) =~= keep_live(v.index(Component::Controller), g2));
            assert(keep_live(v.index(Component::Client), gone) =~= keep_live(v.index(Component::Client), g2));
        },
        Component::Client => {
            assert(keep_live(v.index(Component::Proxy), gone) =~= keep_live(v.index(Component::Proxy), g2));
            assert(keep_live(v.index(Component::Controller), gone) =~= keep_live(v.index(Component::Controller), g2));
        },
    }
}

/// Tracks the presence of authenticated principals, with expiry, and the
/// per-kind index from uid to access key used to build routes.
pub struct SessionManager {
    sessions: Table<ExpirationWrapper<SessionInfo>>,
    clients: Table<String>,
    proxies: Table<String>,
    controllers: Table<String>,
}

impl View for SessionManager {
    type V = SessionsView;

    closed spec fn view(&self) -> SessionsView {
        SessionsView {
            sessions: self.sessions@,
            clients: self.clients@,
            proxies: self.proxies@,
            controllers: self.controllers@,
        }
    }
}

/// Removes the entry under `uid` when it names `key`.
fn unindex(index: &mut Table<String>, uid: &String, key: &String)
    requires
        old(index).wf(),
    ensures
        final(index).wf(),
        final(index)@ == if old(index)@.contains_key(uid@) && old(index)@[uid@] == key@ {
            old(index)@.remove(uid@)
        } else {
            old(index)@
        },
{
    let names_key = match index.get(uid) {
        Some(k) => *k == *key,
        None => false,
    };
    if names_key {
        index.remove(uid);
    }
}

impl SessionManager {
    /// The manager is well formed: its tables are, and its state is consistent.
    pub closed spec fn wf(&self) -> bool {
        &&& self.sessions.wf()
        &&& self.clients.wf()
        &&& self.proxies.wf()
        &&& self.controllers.wf()
        &&& consistent(self@)
    }

    /// A well-formed manager's state is consistent.
    pub proof fn lemma_consistent(&self)
        requires
            self.wf(),
        ensures
            consistent(self@),
    {
    }

    /// A manager with no sessions.
    pub fn new() -> (r: SessionManager)
        ensures
            r.wf(),
            r@.sessions.is_empty(),
            r@.clients.is_empty(),
            r@.proxies.is_empty(),
            r@.controllers.is_empty(),
    {
        SessionManager {
            sessions: Table::new(),
            clients: Table::new(),
            proxies: Table::new(),
            controllers: Table::new(),
        }
    }

    /// Removes the session under `access_key`, and the index entry of its kind
    /// when that entry names it.
    pub fn remove_session(&mut self, access_key: &String)
        requires
            old(self).wf(),
        ensures
            final(self).wf(),
            final(self)@ == after_remove(old(self)@, access_key@),
    {
        let ghost before = self@;
        match self.sessions.remove(access_key) {
            Some(w) => {
                let uid = &w.value.uid;
                match w.value.component {
                    Component::Controller => unindex(&mut self.controllers, uid, access_key),
                    Component::Proxy => unindex(&mut self.proxies, uid, access_key),
                    Component::Client => unindex(&mut self.clients, uid, access_key),
                }
                proof {
                    let s = before.sessions[access_key@].value;
                    assert(self@ =~= after_remove(before, access_key@));
                    assert forall|c: Component, u: Seq<char>| #[trigger]
                        self@.index(c).contains_key(u) implies {
                        let k = self@.index(c)[u];
                        &&& self@.sessions.contains_key(k)
                        &&& self@.sessions[k].value.uid == u
                        &&& self@.sessions[k].value.component == c
                    } by {
                        assert(before.index(c).contains_key(u));
                    }
                }
            },
            None => {
                assert(self.sessions@ =~= before.sessions);
            },
        }
    }

    /// Stores `info` at `now` with a full lifetime, and maps its uid to its
    /// access key in the index of its kind.
    pub fn insert_session(&mut self, info: SessionInfo, now: u64)
        requires
            old(self).wf(),
        ensures
            final(self).wf(),
            final(self)@ == after_insert(old(self)@, info@, now),
    {
        let ghost before = self@;
        let ghost s = info@;
        let key = info.access_key.clone();
        self.remove_session(&key);
        let ghost mid = self@;
        let uid = info.uid.clone();
        let component = info.component;
        self.sessions.insert(key.clone(), ExpirationWrapper::new(info, SESSIONS_EXPIRATION_TIME, now));
        match component {
            Component::Controller => self.controllers.insert(uid, key),
            Component::Proxy => self.proxies.insert(uid, key),
            Component::Client => self.clients.insert(uid, key),
        }
        proof {
            assert(self@ =~= after_insert(before, s, now));
            assert forall|c: Component, u: Seq<char>| #[trigger]
                self@.index(c).contains_key(u) implies {
                let k = self@.index(c)[u];
                &&& self@.sessions.contains_key(k)
                &&& self@.sessions[k].value.uid == u
                &&& self@.sessions[k].value.component == c
            } by {
                if !(c == s.component && u == s.uid) {
                    assert(mid.index(c).contains_key(u));
                    assert(mid.index(c)[u] != s.access_key);
                }
            }
        }
    }

    /// Mints an access key that no live session holds and opens a session
    /// under it for `uid`, of kind `component`, seen from `peer_address` and
    /// reachable at the advertised endpoint. Every live session stays as it
    /// was. `None`, with nothing changed, when every one of a few draws hit a
    /// live key.
    pub fn set_session(
        &mut self,
        component: Component,
        uid: &String,
        peer_address: String,
        on_ip_address: String,
        on_port_number: u16,
        public_key: Vec<u8>,
        domain_name: String,
        now: u64,
    ) -> (r: Option<String>)
        requires
            old(self).wf(),
        ensures
            final(self).wf(),
            r matches Some(k) ==> k@.len() == 36 && !old(self)@.sessions.contains_key(k@)
                && final(self)@ == after_insert(
                old(self)@,
                opened_session(
                    k@,
                    uid@,
                    peer_address@,
                    component,
                    on_ip_address@,
                    on_port_number,
                    public_key@,
                    domain_name@,
                ),
                now,
            ),
            r is Some ==> forall|k: Seq<char>| #[trigger]
                old(self)@.sessions.contains_key(k) ==> final(self)@.sessions.contains_key(k)
                    && final(self)@.sessions[k] == old(self)@.sessions[k],
            r is None ==> final(self)@ == old(self)@ && exists|k: Seq<char>| #[trigger]
                old(self)@.sessions.contains_key(k),
    {
        let mut attempt: usize = 0;
        while attempt < ACCESS_KEY_DRAWS
            invariant
                self.wf(),
                self@ == old(self)@,
                attempt > 0 ==> exists|k: Seq<char>| #[trigger] self@.sessions.contains_key(k),
            decreases ACCESS_KEY_DRAWS - attempt,
        {
            let access_key = random_uuid_text();
            if !self.has_session(&access_key) {
                let ghost before = self@;
                let info = SessionInfo {
                    access_key: access_key.clone(),
                    uid: uid.clone(),
                    peer_address,
                    component,
                    on_ip_address,
                    on_port_number,
                    public_key,
                    domain_name,
                };
                proof {
                    assert(after_remove(before, access_key@) == before);
                }
                self.insert_session(info, now);
                proof {
                    assert forall|k: Seq<char>| #[trigger]
                        before.sessions.contains_key(k) implies self@.sessions.contains_key(k)
                        && self@.sessions[k] == before.sessions[k] by {
                        assert(k != access_key@);
                    }
                }
                return Some(access_key);
            }
            proof {
                assert(self@.sessions.contains_key(access_key@));
            }
            attempt = attempt + 1;
        }
        None
    }

    /// The session under `access_key`, if any; a session found gets a full
    /// lifetime from `now`.
    pub fn get_session(&mut self, access_key: &String, now: u64) -> (r: Option<SessionInfo>)
        requires
            old(self).wf(),
        ensures
            final(self).wf(),
            final(self)@ == after_renew(old(self)@, access_key@, now),
            r is Some <==> old(self)@.sessions.contains_key(access_key@),
            r matches Some(s) ==> s@ == old(self)@.session(access_key@),
    {
        let ghost before = self@;
        let found = self.lookup(access_key);
        match found {
            Some(w) => {
                let mut w = w;
                w.renew(now);
                let out = w.value.duplicate();
                self.sessions.insert(access_key.clone(), w);
                proof {
                    assert(self@ =~= after_renew(before, access_key@, now));
                    assert forall|c: Component, u: Seq<char>| #[trigger]
                        self@.index(c).contains_key(u) implies {
                        let k = self@.index(c)[u];
                        &&& self@.sessions.contains_key(k)
                        &&& self@.sessions[k].value.uid == u
                        &&& self@.sessions[k].value.component == c
                    } by {
                        assert(before.index(c).contains_key(u));
                    }
                }
                Some(out)
            },
            None => None,
        }
    }

    fn lookup(&self, access_key: &String) -> (r: Option<ExpirationWrapper<SessionInfo>>)
        requires
            self.wf(),
        ensures
            r is Some <==> self@.sessions.contains_key(access_key@),
            r matches Some(w) ==> w@ == self@.sessions[access_key@],
    {
        match self.sessions.get(access_key) {
            Some(w) => Some(
                ExpirationWrapper {
                    value: w.value.duplicate(),
                    expires_at: w.expires_at,
                    expiration_time: w.expiration_time,
                },
            ),
            None => None,
        }
    }

    /// Whether a session is stored under `access_key`.
    pub fn has_session(&self, access_key: &String) -> (r: bool)
        requires
            self.wf(),
        ensures
            r == self@.sessions.contains_key(access_key@),
    {
        self.sessions.get(access_key).is_some()
    }

    /// The live Proxy sessions named by the proxy index, but the caller's own.
    pub fn get_proxies(&self, access_key: &String) -> (r: Vec<SessionInfo>)
        requires
            self.wf(),
        ensures
            lists_proxies(self@, access_key@, r@.map_values(|s: SessionInfo| s@)),
    {
        let ghost v = self@;
        let rows = self.proxies.rows();
        let mut out: Vec<SessionInfo> = Vec::new();
        let mut i: usize = 0;
        while i < rows.len()
            invariant
                self.wf(),
                v == self@,
                rows_match(rows@, self.proxies@),
                i <= rows@.len(),
                forall|j: int|
                    0 <= j < out@.len() ==> {
                        let s = #[trigger] out@[j]@;
                        &&& v.proxies.contains_key(s.uid)
                        &&& v.proxies[s.uid] == s.access_key
                        &&& s.access_key != access_key@
                        &&& v.sessions.contains_key(s.access_key)
                        &&& v.sessions[s.access_key].value == s
                        &&& exists|m: int| 0 <= m < i && rows@[m].0@ == s.uid
                    },
                forall|m: int|
                    0 <= m < i && #[trigger] rows@[m].1@ != access_key@ ==> exists|j: int|
                        0 <= j < out@.len() && out@[j]@.uid == rows@[m].0@,
                forall|a: int, b: int|
                    0 <= a < out@.len() && 0 <= b < out@.len() && a != b ==> out@[a]@.uid
                        != out@[b]@.uid,
            decreases rows@.len() - i,
        {
            let key = &rows[i].1;
            let ghost before_out = out@;
            if !(*key == *access_key) {
                match self.sessions.get(key) {
                    Some(w) => {
                        let ghost uid = rows@[i as int].0@;
                        proof {
                            assert(v.index(Component::Proxy).contains_key(uid));
                        }
                        let s = w.value.duplicate();
                        proof {
                            assert forall|j: int| 0 <= j < out@.len() implies out@[j]@.uid
                                != uid by {
                                let m = choose|m: int| 0 <= m < i && rows@[m].0@ == out@[j]@.uid;
                                assert(rows@[m].0@ != rows@[i as int].0@);
                            }
                        }
                        out.push(s);
                    },
                    None => {
                        proof {
                            assert(v.index(Component::Proxy).contains_key(rows@[i as int].0@));
                        }
                    },
                }
            }
            proof {
                assert forall|j: int| 0 <= j < out@.len() implies exists|m: int|
                    0 <= m < i + 1 && rows@[m].0@ == #[trigger] out@[j]@.uid by {
                    if j < before_out.len() {
                        assert(out@[j] == before_out[j]);
                        let m = choose|m: int| 0 <= m < i && rows@[m].0@ == before_out[j]@.uid;
                        assert(0 <= m < i + 1 && rows@[m].0@ == out@[j]@.uid);
                    } else {
                        assert(rows@[i as int].0@ == out@[j]@.uid);
                    }
                }
                assert forall|m: int| 0 <= m < i + 1 && #[trigger] rows@[m].1@ != access_key@ implies exists|j: int|
                    0 <= j < out@.len() && out@[j]@.uid == rows@[m].0@ by {
                    if m < i {
                        let j = choose|j: int| 0 <= j < before_out.len() && before_out[j]@.uid == rows@[m].0@;
                        assert(out@[j] == before_out[j]);
                    } else {
                        assert(v.index(Component::Proxy).contains_key(rows@[m].0@));
                        assert(out@.len() > before_out.len());
                        assert(out@[out@.len() - 1]@.uid == rows@[m].0@);
                    }
                }
            }
            i = i + 1;
        }
        proof {
            let r = out@.map_values(|s: SessionInfo| s@);
            assert forall|u: Seq<char>| #[trigger]
                v.proxies.contains_key(u) && v.proxies[u] != access_key@ implies exists|j: int|
                0 <= j < r.len() && r[j].uid == u by {
                let m = choose|m: int| 0 <= m < rows@.len() && rows@[m].0@ == u;
                assert(rows@[m].1@ != access_key@);
                let j = choose|j: int| 0 <= j < out@.len() && out@[j]@.uid == rows@[m].0@;
                assert(r[j].uid == u);
            }
        }
        out
    }

    /// The session of the Client with `uid`, if one is indexed.
    pub fn get_client(&self, uid: &String) -> (r: Option<SessionInfo>)
        requires
            self.wf(),
        ensures
            r is Some <==> self@.clients.contains_key(uid@),
            r matches Some(s) ==> s@ == self@.session(self@.clients[uid@]),
    {
        match self.clients.get(uid) {
            Some(key) => {
                proof {
                    assert(self@.index(Component::Client).contains_key(uid@));
                }
                match self.sessions.get(key) {
                    Some(w) => Some(w.value.duplicate()),
                    None => None,
                }
            },
            None => None,
        }
    }

    /// The number of indexed Proxy sessions.
    pub fn count_proxies(&self) -> (r: usize)
        requires
            self.wf(),
        ensures
            r == self@.proxies.len(),
    {
        self.proxies.len()
    }

    /// The number of indexed Client sessions.
    pub fn count_clients(&self) -> (r: usize)
        requires
            self.wf(),
        ensures
            r == self@.clients.len(),
    {
        self.clients.len()
    }

    /// The number of indexed Controller sessions.
    pub fn count_controllers(&self) -> (r: usize)
        requires
            self.wf(),
        ensures
            r == self@.controllers.len(),
    {
        self.controllers.len()
    }

    /// One pass of the sweeper: removes every session that has lapsed at
    /// `now`, together with each index entry that names it.
    pub fn kill_expired_sessions(&mut self, now: u64)
        requires
            old(self).wf(),
        ensures
            final(self).wf(),
            final(self)@ == swept(old(self)@, now),
    {
        let ghost before = self@;
        let rows = self.sessions.rows();
        let mut expired: Vec<String> = Vec::new();
        let mut i: usize = 0;
        while i < rows.len()
            invariant
                rows_match(rows@, before.sessions),
                i <= rows@.len(),
                forall|j: int|
                    0 <= j < expired@.len() ==> lapsed_row_before(
                        rows@,
                        i as int,
                        #[trigger] expired@[j]@,
                        now,
                    ),
                forall|m: int|
                    0 <= m < i && lapsed(#[trigger] rows@[m].1.expires_at, now) ==> exists|j: int|
                        0 <= j < expired@.len() && expired@[j]@ == rows@[m].0@,
                forall|a: int, b: int|
                    0 <= a < expired@.len() && 0 <= b < expired@.len() && a != b ==> expired@[a]@
                        != expired@[b]@,
            decreases rows@.len() - i,
        {
            let ghost before_expired = expired@;
            if rows[i].1.is_expired(now) {
                proof {
                    assert forall|j: int| 0 <= j < expired@.len() implies expired@[j]@
                        != rows@[i as int].0@ by {
                        let m = choose|m: int|
                            0 <= m < i && rows@[m].0@ == expired@[j]@ && lapsed(
                                rows@[m].1.expires_at,
                                now,
                            );
                        assert(rows@[m].0@ != rows@[i as int].0@);
                    }
                }
                expired.push(rows[i].0.clone());
            }
            proof {
                assert forall|j: int| 0 <= j < expired@.len() implies lapsed_row_before(
                    rows@,
                    i + 1,
                    #[trigger] expired@[j]@,
                    now,
                ) by {
                    if j < before_expired.len() {
                        assert(expired@[j] == before_expired[j]);
                        let m = choose|m: int|
                            0 <= m < i && rows@[m].0@ == before_expired[j]@ && lapsed(
                                rows@[m].1.expires_at,
                                now,
                            );
                        assert(rows@[m].0@ == expired@[j]@);
                        assert(0 <= m < i + 1);
                    } else {
                        assert(rows@[i as int].0@ == expired@[j]@);
                        assert(lapsed(rows@[i as int].1.expires_at, now));
                    }
                }
                assert forall|m: int|
                    0 <= m < i + 1 && lapsed(#[trigger] rows@[m].1.expires_at, now) implies exists|
                    j: int,
                | 0 <= j < expired@.len() && expired@[j]@ == rows@[m].0@ by {
                    if m < i {
                        let j = choose|j: int|
                            0 <= j < before_expired.len() && before_expired[j]@ == rows@[m].0@;
                        assert(expired@[j] == before_expired[j]);
                    } else {
                        assert(expired@.len() > before_expired.len());
                        assert(expired@[expired@.len() - 1]@ == rows@[m].0@);
                    }
                }
            }
            i = i + 1;
        }
        let ghost all = lapsed_keys(before, now);
        proof {
            assert forall|k: Seq<char>| #[trigger] all.contains(k) implies exists|j: int|
                0 <= j < expired@.len() && expired@[j]@ == k by {
                let m = choose|m: int| 0 <= m < rows@.len() && rows@[m].0@ == k;
                assert(lapsed(rows@[m].1.expires_at, now));
            }
            assert forall|j: int| 0 <= j < expired@.len() implies all.contains(
                #[trigger] expired@[j]@,
            ) by {
                assert(lapsed_row_before(rows@, i as int, expired@[j]@, now));
                let m = choose|m: int|
                    0 <= m < i && rows@[m].0@ == expired@[j]@ && lapsed(
                        rows@[m].1.expires_at,
                        now,
                    );
                assert(before.sessions.contains_key(rows@[m].0@));
                assert(before.sessions[rows@[m].0@] == rows@[m].1@);
            }
            assert(expired@.subrange(0, 0).map_values(|s: String| s@).to_set() =~= Set::empty());
            assert(dropping(before, Set::empty()) == before) by {
                assert(before.sessions.remove_keys(Set::empty()) =~= before.sessions);
                assert(keep_live(before.clients, Set::empty()) =~= before.clients);
                assert(keep_live(before.proxies, Set::empty()) =~= before.proxies);
                assert(keep_live(before.controllers, Set::empty()) =~= before.controllers);
            }
        }
        let mut j: usize = 0;
        while j < expired.len()
            invariant
                self.wf(),
                consistent(before),
                all == lapsed_keys(before, now),
                j <= expired@.len(),
                forall|a: int| 0 <= a < expired@.len() ==> all.contains(#[trigger] expired@[a]@),
                forall|a: int, b: int|
                    0 <= a < expired@.len() && 0 <= b < expired@.len() && a != b ==> expired@[a]@
                        != expired@[b]@,
                self@ == dropping(
                    before,
                    expired@.subrange(0, j as int).map_values(|s: String| s@).to_set(),
                ),
            decreases expired@.len() - j,
        {
            let ghost gone = expired@.subrange(0, j as int).map_values(|s: String| s@).to_set();
            let ghost k = expired@[j as int]@;
            proof {
                assert(all.contains(k));
                assert(before.sessions.contains_key(k));
                assert(!gone.contains(k)) by {
                    let p = expired@.subrange(0, j as int).map_values(|s: String| s@);
                    if gone.contains(k) {
                        let a = choose|a: int| 0 <= a < p.len() && #[trigger] p[a] == k;
                        assert(expired@[a]@ == k);
                    }
                }
                lemma_drop_one(before, gone, k);
                assert(expired@.subrange(0, j + 1).map_values(|s: String| s@).to_set() =~= gone.insert(
                    k,
                )) by {
                    let p = expired@.subrange(0, j as int).map_values(|s: String| s@);
                    let q = expired@.subrange(0, j + 1).map_values(|s: String| s@);
                    assert(q =~= p.push(k));
                    assert forall|x: Seq<char>| q.to_set().contains(x) implies gone.insert(
                        k,
                    ).contains(x) by {
                        let a = choose|a: int| 0 <= a < q.len() && q[a] == x;
                        if a < j {
                            assert(p[a] == x);
                        }
                    }
                    assert forall|x: Seq<char>| gone.insert(k).contains(x) implies q.to_set().contains(x) by {
                        if x == k {
                            assert(q[j as int] == x);
                        } else {
                            let a = choose|a: int| 0 <= a < p.len() && p[a] == x;
                            assert(q[a] == x);
                        }
                    }
                }
            }
            self.remove_session(&expired[j]);
            j = j + 1;
        }
        proof {
            let gone = expired@.subrange(0, j as int).map_values(|s: String| s@).to_set();
            let ks = expired@.map_values(|s: String| s@);
            assert(gone =~= all) by {
                assert(expired@.subrange(0, j as int) =~= expired@);
                assert forall|x: Seq<char>| gone.contains(x) implies all.contains(x) by {
                    let a = choose|a: int| 0 <= a < ks.len() && #[trigger] ks[a] == x;
                    assert(all.contains(expired@[a]@));
                }
                assert forall|x: Seq<char>| all.contains(x) implies gone.contains(x) by {
                    let a = choose|a: int| 0 <= a < expired@.len() && expired@[a]@ == x;
                    assert(ks[a] == x);
                }
            }
        }
    }
}

} // verus!
