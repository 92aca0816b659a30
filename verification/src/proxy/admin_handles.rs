//! What the admin console shows and controls: the clients that are connected
//! and the pools behind them.
use crate::ids::keys_of;
use crate::proxy::tcp_pool::PoolStatus;
use crate::text;
use crate::text::eq_ignore_ascii_case;
use std::collections::HashMap;
use std::time::Instant;
use vstd::prelude::*;

verus! {

broadcast use vstd::std_specs::hash::group_hash_axioms;

/// What a client is connected to.
#[derive(Debug, Clone, Copy, PartialEq, Eq, Structural)]
pub enum ClientState {
    /// A database.
    Active,
    /// The admin console.
    Admin,
}

/// A client that is connected.
#[derive(Debug)]
pub struct ClientEntry {
    /// By what the connection is known.
    pub conn_id: u64,
    /// The client's address, `unix` for a local socket.
    pub addr: String,
    /// The user that the client named, or nothing.
    pub user: String,
    /// The database that the client named, or nothing.
    pub database: String,
    /// What it is connected to.
    pub state: ClientState,
    /// When it was registered.
    pub connect_time: Instant,
    /// When its state was last touched.
    pub last_request_time: Instant,
    /// Whether it is connected over TLS.
    pub tls: bool,
}

impl ClientEntry {
    /// A copy.
    pub fn copy(&self) -> (r: Self)
        ensures
            r == *self,
    {
        ClientEntry {
            conn_id: self.conn_id,
            addr: self.addr.clone(),
            user: self.user.clone(),
            database: self.database.clone(),
            state: self.state,
            connect_time: self.connect_time,
            last_request_time: self.last_request_time,
            tls: self.tls,
        }
    }

    /// Whether the client named the database `db`, letter case aside.
    pub open spec fn names_database(&self, db: Seq<char>) -> bool {
        text::lower_all(self.database@) == text::lower_all(db)
    }
}

impl Clone for ClientEntry {
    fn clone(&self) -> (r: Self)
        ensures
            r == *self,
    {
        self.copy()
    }
}

/// What was killed.
#[derive(Debug)]
pub struct Killed<H> {
    /// The connections.
    pub ids: Vec<u64>,
    /// What stops their tasks.
    pub handles: Vec<H>,
}

/// What the registry holds.
#[verifier::ext_equal]
#[verifier::reject_recursive_types(H)]
pub struct RegistryState<H> {
    /// Clients by connection.
    pub clients: Map<u64, ClientEntry>,
    /// What stops the task of a connection.
    pub handles: Map<u64, H>,
}

impl<H> RegistryState<H> {
    /// The connections of the clients that named the database `db`.
    pub open spec fn matching(self, db: Seq<char>) -> Set<u64> {
        self.clients.dom().filter(|id: u64| self.clients[id].names_database(db))
    }

    /// What is held after a client is known.
    pub open spec fn registered(self, entry: ClientEntry) -> RegistryState<H> {
        RegistryState { clients: self.clients.insert(entry.conn_id, entry), ..self }
    }

    /// What is held after a connection is gone.
    pub open spec fn deregistered(self, id: u64) -> RegistryState<H> {
        RegistryState { clients: self.clients.remove(id), handles: self.handles.remove(id) }
    }

    /// What is held after the clients of the database `db` are killed.
    pub open spec fn killed(self, db: Seq<char>) -> RegistryState<H> {
        RegistryState {
            clients: self.clients.remove_keys(self.matching(db)),
            handles: self.handles.remove_keys(self.matching(db)),
        }
    }

    /// What is held after a client's state is recorded at `now`.
    pub open spec fn touched(self, id: u64, state: ClientState, now: Instant) -> RegistryState<H> {
        if self.clients.dom().contains(id) {
            RegistryState {
                clients: self.clients.insert(
                    id,
                    ClientEntry { state, last_request_time: now, ..self.clients[id] },
                ),
                ..self
            }
        } else {
            self
        }
    }
}

/// What `m` holds under `ids`, in their order.
pub open spec fn held<H>(ids: Seq<u64>, m: Map<u64, H>) -> Seq<H>
    decreases ids.len(),
{
    if ids.len() == 0 {
        Seq::empty()
    } else if m.dom().contains(ids.last()) {
        held(ids.drop_last(), m).push(m[ids.last()])
    } else {
        held(ids.drop_last(), m)
    }
}

/// The clients that are connected, and what stops the task of each connection.
/// A connection has its task before its client is known.
#[derive(Debug)]
#[verifier::reject_recursive_types(H)]
pub struct ClientRegistry<H> {
    inner: HashMap<u64, ClientEntry>,
    abort_handles: HashMap<u64, H>,
}

impl<H> ClientRegistry<H> {
    /// What the registry holds.
    pub closed spec fn view(&self) -> RegistryState<H> {
        RegistryState { clients: self.inner@, handles: self.abort_handles@ }
    }

    /// Each client is held under its connection, and there are finitely many.
    pub open spec fn wf(&self) -> bool {
        &&& forall|id: u64| #[trigger]
            self@.clients.dom().contains(id) ==> self@.clients[id].conn_id == id
        &&& self@.clients.dom().finite()
        &&& self@.handles.dom().finite()
    }

    /// An empty registry.
    pub fn new() -> (r: Self)
        ensures
            r.wf(),
            r@ == (RegistryState { clients: Map::empty(), handles: Map::<u64, H>::empty() }),
    {
        ClientRegistry { inner: HashMap::new(), abort_handles: HashMap::new() }
    }

    /// A client is known. Of two under one connection the later counts.
    pub fn register(&mut self, entry: ClientEntry)
        requires
            old(self).wf(),
        ensures
            final(self).wf(),
            final(self)@ == (RegistryState {
                clients: old(self)@.clients.insert(entry.conn_id, entry),
                ..old(self)@
            }),
            final(self)@ == old(self)@.registered(entry),
    {
        let _ = self.inner.insert(entry.conn_id, entry);
    }

    /// A connection has its task.
    pub fn register_abort_handle(&mut self, conn_id: u64, handle: H)
        requires
            old(self).wf(),
        ensures
            final(self).wf(),
            final(self)@ == (RegistryState {
                handles: old(self)@.handles.insert(conn_id, handle),
                ..old(self)@
            }),
    {
        let _ = self.abort_handles.insert(conn_id, handle);
    }

    /// A connection is gone.
    pub fn deregister(&mut self, conn_id: u64)
        requires
            old(self).wf(),
        ensures
            final(self).wf(),
            final(self)@ == (RegistryState {
                clients: old(self)@.clients.remove(conn_id),
                handles: old(self)@.handles.remove(conn_id),
            }),
            final(self)@ == old(self)@.deregistered(conn_id),
    {
        let _ = self.inner.remove(&conn_id);
        let _ = self.abort_handles.remove(&conn_id);
        assert(self@.clients =~= old(self)@.clients.remove(conn_id));
        assert(self@.handles =~= old(self)@.handles.remove(conn_id));
    }

    /// The connections of the clients that named the database `db`.
    fn matching_ids(&self, db: &str) -> (r: Vec<u64>)
        requires
            self.wf(),
        ensures
            r@.no_duplicates(),
            r@.to_set() == self@.matching(db@),
    {
        let keys = keys_of(&self.inner);
        let mut out: Vec<u64> = Vec::new();
        let mut i: usize = 0;
        while i < keys.len()
            invariant
                self.wf(),
                keys@.no_duplicates(),
                keys@.to_set() == self@.clients.dom(),
                i <= keys@.len(),
                out@.no_duplicates(),
                forall|x: u64| #[trigger]
                    out@.contains(x) <==> keys@.take(i as int).contains(x)
                        && self@.clients[x].names_database(db@),
            decreases keys.len() - i,
        {
            let id = keys[i];
            let ghost shorter = keys@.take(i as int);
            let ghost longer = keys@.take(i + 1);
            let ghost before = out@;
            proof {
                assert(keys@.contains(id));
                assert(self@.clients.dom().contains(id));
                if shorter.contains(id) {
                    let j = shorter.index_of(id);
                    assert(keys@[j] == id);
                }
                assert forall|x: u64| #[trigger] longer.contains(x) <==> shorter.contains(x) || x
                    == id by {
                    if shorter.contains(x) {
                        let j = shorter.index_of(x);
                        assert(longer[j] == x);
                    }
                    assert(longer[i as int] == id);
                    if longer.contains(x) && x != id {
                        let j = longer.index_of(x);
                        assert(shorter[j] == x);
                    }
                }
            }
            let hit = match self.inner.get(&id) {
                Some(entry) => eq_ignore_ascii_case(entry.database.as_str(), db),
                None => false,
            };
            if hit {
                assert(!before.contains(id));
                out.push(id);
                proof {
                    assert forall|x: u64| #[trigger] out@.contains(x) <==> before.contains(x) || x
                        == id by {
                        if before.contains(x) {
                            let j = before.index_of(x);
                            assert(out@[j] == x);
                        }
                        assert(out@[before.len() as int] == id);
                    }
                }
            }
            i += 1;
        }
        proof {
            assert(keys@.take(i as int) =~= keys@);
            assert forall|x: u64| #[trigger] out@.to_set().contains(x) <==> self@.matching(
                db@,
            ).contains(x) by {
                assert(keys@.to_set().contains(x) == keys@.contains(x));
                assert(out@.to_set().contains(x) == out@.contains(x));
            }
            assert(out@.to_set() =~= self@.matching(db@));
        }
        out
    }

    /// Take out every client that named the database `db`, letter case aside,
    /// and what stops the tasks of their connections.
    pub fn kill_by_database(&mut self, db: &str) -> (r: Killed<H>)
        requires
            old(self).wf(),
        ensures
            final(self).wf(),
            r.ids@.no_duplicates(),
            r.ids@.to_set() == old(self)@.matching(db@),
            r.handles@ == held(r.ids@, old(self)@.handles),
            final(self)@.clients.dom().len() + r.ids@.len() == old(self)@.clients.dom().len(),
            final(self)@ == (RegistryState {
                clients: old(self)@.clients.remove_keys(old(self)@.matching(db@)),
                handles: old(self)@.handles.remove_keys(old(self)@.matching(db@)),
            }),
            final(self)@ == old(self)@.killed(db@),
    {
        let ids = self.matching_ids(db);
        let mut handles: Vec<H> = Vec::new();
        let ghost s0 = self@;
        let mut i: usize = 0;
        proof {
            assert(ids@.take(0).to_set() =~= Set::empty());
            assert(s0.clients.remove_keys(Set::empty()) =~= s0.clients);
            assert(s0.handles.remove_keys(Set::empty()) =~= s0.handles);
            assert(ids@.take(0) =~= Seq::empty());
        }
        while i < ids.len()
            invariant
                i <= ids@.len(),
                ids@.no_duplicates(),
                s0 == old(self)@,
                handles@ == held(ids@.take(i as int), s0.handles),
                self@.clients == s0.clients.remove_keys(ids@.take(i as int).to_set()),
                self@.handles == s0.handles.remove_keys(ids@.take(i as int).to_set()),
            decreases ids.len() - i,
        {
            let id = ids[i];
            let ghost shorter = ids@.take(i as int);
            let ghost longer = ids@.take(i + 1);
            let ghost mid = self@;
            proof {
                assert(longer.drop_last() =~= shorter);
                assert(longer.last() == id);
                if shorter.contains(id) {
                    let j = shorter.index_of(id);
                    assert(ids@[j] == id);
                }
                assert(shorter.to_set().contains(id) == shorter.contains(id));
                assert(longer.to_set() =~= shorter.to_set().insert(id)) by {
                    assert forall|x: u64| #[trigger] longer.contains(x) <==> shorter.contains(x)
                        || x == id by {
                        if shorter.contains(x) {
                            let j = shorter.index_of(x);
                            assert(longer[j] == x);
                        }
                        assert(longer[i as int] == id);
                        if longer.contains(x) && x != id {
                            let j = longer.index_of(x);
                            assert(shorter[j] == x);
                        }
                    }
                }
            }
            if let Some(handle) = self.abort_handles.remove(&id) {
                handles.push(handle);
            }
            let _ = self.inner.remove(&id);
            proof {
                assert(self@.clients =~= mid.clients.remove(id));
                assert(self@.handles =~= mid.handles.remove(id));
                assert(self@.clients =~= s0.clients.remove_keys(longer.to_set()));
                assert(self@.handles =~= s0.handles.remove_keys(longer.to_set()));
            }
            i += 1;
        }
        proof {
            assert(ids@.take(i as int) =~= ids@);
            ids@.unique_seq_to_set();
            law_kill_counts(s0, db@);
        }
        Killed { ids, handles }
    }

    /// Record a client's state at `now`, if it is still connected.
    pub fn touch(&mut self, conn_id: u64, state: ClientState, now: Instant)
        requires
            old(self).wf(),
        ensures
            final(self).wf(),
            final(self)@ == if old(self)@.clients.dom().contains(conn_id) {
                RegistryState {
                    clients: old(self)@.clients.insert(
                        conn_id,
                        ClientEntry {
                            state,
                            last_request_time: now,
                            ..old(self)@.clients[conn_id]
                        },
                    ),
                    ..old(self)@
                }
            } else {
                old(self)@
            },
            final(self)@ == old(self)@.touched(conn_id, state, now),
    {
        if let Some(mut entry) = self.inner.remove(&conn_id) {
            entry.state = state;
            entry.last_request_time = now;
            let _ = self.inner.insert(conn_id, entry);
            assert(self@.clients =~= old(self)@.clients.insert(conn_id, entry));
        } else {
            assert(self@.clients =~= old(self)@.clients);
        }
    }

    /// The number of clients.
    pub fn len(&self) -> (r: usize)
        ensures
            r == self@.clients.dom().len(),
    {
        self.inner.len()
    }

    /// Whether there is no client.
    pub fn is_empty(&self) -> (r: bool)
        ensures
            r == (self@.clients.dom().len() == 0),
    {
        self.inner.len() == 0
    }

    /// The clients, each once.
    pub fn snapshot(&self) -> (r: Vec<ClientEntry>)
        requires
            self.wf(),
        ensures
            r@.len() == self@.clients.dom().len(),
            forall|i: int|
                0 <= i < r@.len() ==> self@.clients.dom().contains((#[trigger] r@[i]).conn_id)
                    && self@.clients[r@[i].conn_id] == r@[i],
            forall|i: int, j: int|
                0 <= i < j < r@.len() ==> (#[trigger] r@[i]).conn_id != (#[trigger] r@[j]).conn_id,
    {
        let keys = keys_of(&self.inner);
        let mut out: Vec<ClientEntry> = Vec::new();
        let mut i: usize = 0;
        while i < keys.len()
            invariant
                self.wf(),
                keys@.no_duplicates(),
                keys@.to_set() == self@.clients.dom(),
                i <= keys@.len(),
                out@.len() == i,
                forall|k: int|
                    0 <= k < i ==> self@.clients.dom().contains(keys@[k]) && self@.clients[keys@[k]]
                        == #[trigger] out@[k] && out@[k].conn_id == keys@[k],
            decreases keys.len() - i,
        {
            let id = keys[i];
            proof {
                assert(keys@.contains(id));
                assert(self@.clients.dom().contains(id));
            }
            if let Some(entry) = self.inner.get(&id) {
                out.push(entry.copy());
            }
            i += 1;
        }
        out
    }

    /// The client of a connection.
    pub fn get(&self, conn_id: u64) -> (r: Option<ClientEntry>)
        ensures
            r is Some <==> self@.clients.dom().contains(conn_id),
            r matches Some(e) ==> e == self@.clients[conn_id],
    {
        match self.inner.get(&conn_id) {
            Some(entry) => Some(entry.copy()),
            None => None,
        }
    }
}

impl<H> Default for ClientRegistry<H> {
    fn default() -> (r: Self)
        ensures
            r.wf(),
            r@ == (RegistryState { clients: Map::empty(), handles: Map::<u64, H>::empty() }),
    {
        ClientRegistry::new()
    }
}

/// What the admin console shows of a pool.
#[derive(Debug, Clone)]
pub struct ServerPoolSnapshot {
    /// The database, `*` for the default.
    pub database: String,
    /// The backend's host and port.
    pub backend_addr: String,
    /// What the backend speaks.
    pub protocol: String,
    /// How many connections there are.
    pub size: usize,
    /// How many of them are not in use.
    pub available: usize,
    /// How many there may be.
    pub max_size: usize,
}

/// What the admin console shows of the pools.
pub struct ServerRegistry {}

impl ServerRegistry {
    /// What is shown of the pools, whose states are given by database.
    pub fn snapshot(pools: Vec<(String, PoolStatus)>) -> (r: Vec<ServerPoolSnapshot>)
        ensures
            r@.len() == pools@.len(),
            forall|i: int|
                0 <= i < r@.len() ==> (#[trigger] r@[i]) == (ServerPoolSnapshot {
                    database: pools@[i].0,
                    backend_addr: pools@[i].1.backend_addr,
                    protocol: pools@[i].1.protocol,
                    size: pools@[i].1.size,
                    available: pools@[i].1.available,
                    max_size: pools@[i].1.max_size,
                }),
    {
        let mut out: Vec<ServerPoolSnapshot> = Vec::new();
        let mut i: usize = 0;
        while i < pools.len()
            invariant
                i <= pools@.len(),
                out@.len() == i,
                forall|k: int|
                    0 <= k < i ==> (#[trigger] out@[k]) == (ServerPoolSnapshot {
                        database: pools@[k].0,
                        backend_addr: pools@[k].1.backend_addr,
                        protocol: pools@[k].1.protocol,
                        size: pools@[k].1.size,
                        available: pools@[k].1.available,
                        max_size: pools@[k].1.max_size,
                    }),
            decreases pools.len() - i,
        {
            let (database, status) = &pools[i];
            out.push(
                ServerPoolSnapshot {
                    database: database.clone(),
                    backend_addr: status.backend_addr.clone(),
                    protocol: status.protocol.clone(),
                    size: status.size,
                    available: status.available,
                    max_size: status.max_size,
                },
            );
            i += 1;
        }
        out
    }
}

/// A connection that is gone is not listed, and no other connection's client
/// is lost with it.
pub proof fn law_deregistered_is_not_listed<H>(s: RegistryState<H>, gone: u64, other: u64)
    requires
        gone != other,
    ensures
        !s.clients.remove(gone).dom().contains(gone),
        s.clients.remove(gone).dom().contains(other) == s.clients.dom().contains(other),
{
}

/// After a kill there are as many clients fewer as the database had.
pub proof fn law_kill_counts<H>(s: RegistryState<H>, db: Seq<char>)
    requires
        s.clients.dom().finite(),
    ensures
        s.clients.remove_keys(s.matching(db)).dom().len() + s.matching(db).len()
            == s.clients.dom().len(),
{
    let gone = s.matching(db);
    let rest = s.clients.remove_keys(gone).dom();
    assert(rest =~= s.clients.dom().difference(gone));
    assert(rest.union(gone) =~= s.clients.dom());
    vstd::set_lib::lemma_set_disjoint_lens(rest, gone);
}

/// After a kill no client of the database is left, and every other client is.
pub proof fn law_kill_leaves_the_others<H>(s: RegistryState<H>, db: Seq<char>, id: u64)
    requires
        s.clients.dom().contains(id),
    ensures
        s.clients.remove_keys(s.matching(db)).dom().contains(id) <==> !s.clients[id].names_database(
            db,
        ),
{
}

/// A connection that is gone is forgotten with its task, and no other is; one
/// that is registered and goes again leaves what was there before.
pub proof fn law_gone_connection_is_forgotten<H>(
    s: RegistryState<H>,
    entry: ClientEntry,
    other: u64,
)
    requires
        other != entry.conn_id,
    ensures
        ({
            let t = s.deregistered(entry.conn_id);
            &&& !t.clients.dom().contains(entry.conn_id)
            &&& !t.handles.dom().contains(entry.conn_id)
            &&& t.clients.dom().contains(other) == s.clients.dom().contains(other)
            &&& t.handles.dom().contains(other) == s.handles.dom().contains(other)
            &&& s.clients.dom().contains(other) ==> t.clients[other] == s.clients[other]
            &&& s.handles.dom().contains(other) ==> t.handles[other] == s.handles[other]
        }),
        ({
            let t = s.registered(entry);
            &&& t.clients.dom() == s.clients.dom().insert(entry.conn_id)
            &&& t.clients[entry.conn_id] == entry
            &&& t.clients[other] == s.clients[other]
            &&& t.handles == s.handles
        }),
        !s.clients.dom().contains(entry.conn_id) && !s.handles.dom().contains(entry.conn_id)
            ==> s.registered(entry).deregistered(entry.conn_id) == s,
{
    let id = entry.conn_id;
    assert(s.registered(entry).clients.dom() =~= s.clients.dom().insert(id));
    if !s.clients.dom().contains(id) && !s.handles.dom().contains(id) {
        assert(s.registered(entry).deregistered(id).clients =~= s.clients);
        assert(s.registered(entry).deregistered(id).handles =~= s.handles);
    }
}

/// A kill takes out the clients that named the database, in whatever letter
/// case, with their tasks, and leaves every other client and task; tasks of
/// connections without a client stay too.
pub proof fn law_kill_takes_the_clients_of_a_database<H>(
    s: RegistryState<H>,
    db: Seq<char>,
    id: u64,
)
    ensures
        ({
            let hit = s.clients.dom().contains(id) && text::lower_all(s.clients[id].database@)
                == text::lower_all(db);
            let t = s.killed(db);
            &&& s.matching(db).contains(id) <==> hit
            &&& t.clients.dom().contains(id) <==> s.clients.dom().contains(id) && !hit
            &&& t.handles.dom().contains(id) <==> s.handles.dom().contains(id) && !hit
            &&& t.clients.dom().contains(id) ==> t.clients[id] == s.clients[id]
            &&& t.handles.dom().contains(id) ==> t.handles[id] == s.handles[id]
        }),
{
}

/// Recording a client's state changes its state and the time of its last
/// request, and nothing else of it or of another; of a client that is gone
/// nothing is recorded.
pub proof fn law_touch_changes_state_and_time<H>(
    s: RegistryState<H>,
    id: u64,
    other: u64,
    state: ClientState,
    now: Instant,
)
    requires
        other != id,
    ensures
        ({
            let t = s.touched(id, state, now);
            &&& t.clients.dom() == s.clients.dom()
            &&& t.handles == s.handles
            &&& s.clients.dom().contains(other) ==> t.clients[other] == s.clients[other]
            &&& s.clients.dom().contains(id) ==> {
                let a = s.clients[id];
                let b = t.clients[id];
                &&& b.state == state
                &&& b.last_request_time == now
                &&& b.conn_id == a.conn_id
                &&& b.addr == a.addr
                &&& b.user == a.user
                &&& b.database == a.database
                &&& b.connect_time == a.connect_time
                &&& b.tls == a.tls
            }
            &&& !s.clients.dom().contains(id) ==> t == s
        }),
{
    assert(s.touched(id, state, now).clients.dom() =~= s.clients.dom());
}

/// Of each connection with a task that one is handed out, in the order of the
/// connections.
pub proof fn law_tasks_are_handed_out<H>(a: Seq<u64>, b: Seq<u64>, m: Map<u64, H>, id: u64)
    ensures
        held(a + b, m) == held(a, m) + held(b, m),
        held(seq![id], m) == if m.dom().contains(id) {
            seq![m[id]]
        } else {
            Seq::empty()
        },
    decreases b.len(),
{
    let one = seq![id];
    assert(one.drop_last() =~= Seq::empty());
    assert(held(one.drop_last(), m) =~= Seq::empty());
    if m.dom().contains(id) {
        assert(held(one, m) =~= seq![m[id]]);
    }
    if b.len() > 0 {
        assert((a + b).drop_last() =~= a + b.drop_last());
        assert((a + b).last() == b.last());
        law_tasks_are_handed_out(a, b.drop_last(), m, id);
        assert(held(a + b, m) =~= held(a, m) + held(b, m));
    } else {
        assert(a + b =~= a);
        assert(held(a, m) + held(b, m) =~= held(a, m));
    }
}

/// A client that is registered is found under its connection until that is gone.
pub proof fn law_registered_client_is_found<H>(
    a: &mut ClientRegistry<H>,
    entry: ClientEntry,
    b: ClientRegistry<H>,
    found: Option<ClientEntry>,
    c: &mut ClientRegistry<H>,
    d: ClientRegistry<H>,
    id: u64,
    after: Option<ClientEntry>,
)
    requires
        call_ensures(ClientRegistry::<H>::register, (a, entry), ()),
        b@ == final(a)@,
        call_ensures(ClientRegistry::<H>::get, (&b, entry.conn_id), found),
        old(c)@ == b@,
        call_ensures(ClientRegistry::<H>::deregister, (c, entry.conn_id), ()),
        d@ == final(c)@,
        call_ensures(ClientRegistry::<H>::get, (&d, id), after),
    ensures
        found == Some(entry),
        id == entry.conn_id ==> after is None,
        id != entry.conn_id ==> (after is Some <==> old(a)@.clients.dom().contains(id)),
        id != entry.conn_id && after is Some ==> after == Some(old(a)@.clients[id]),
{
}

/// A kill hands out the task of every client that named the database, and of no
/// other, and leaves none of them behind.
pub proof fn law_kill_finds_every_client<H>(
    r: &mut ClientRegistry<H>,
    db: &str,
    killed: Killed<H>,
    id: u64,
)
    requires
        call_ensures(ClientRegistry::<H>::kill_by_database, (r, db), killed),
        old(r)@.clients.dom().contains(id),
    ensures
        killed.ids@.contains(id) <==> text::lower_all(old(r)@.clients[id].database@)
            == text::lower_all(db@),
        final(r)@.clients.dom().contains(id) <==> !killed.ids@.contains(id),
        killed.ids@.no_duplicates(),
{
    assert(killed.ids@.to_set().contains(id) == killed.ids@.contains(id));
}

} // verus!
