//! Hands out backend connections.
//!
//! A client whose session holds state gets back the connection that it had: a
//! sticky connection. Other connections come from a pool; when the pool has
//! none, clients wait in a bounded queue. Asking the pool and waiting are left
//! to the caller, who reports what came of them.
use crate::counters;
use crate::ids::keys_of;
use crate::proxy::connection_state::PinReason;
use crate::proxy::wait_queue;
use crate::proxy::wait_queue::{QueueFullError, WaitQueue, Waiter};
use std::collections::HashMap;
use vstd::prelude::*;
use vstd::string::*;

verus! {

broadcast use vstd::std_specs::hash::group_hash_axioms;

/// Why no connection could be had.
#[derive(Debug)]
pub enum AcquireError {
    /// The pool failed.
    PoolError(String),
    /// Every place in the queue is taken.
    QueueFull(QueueFullError),
    /// No connection came free in time.
    WaitTimeout,
}

impl AcquireError {
    /// The error as a text.
    pub fn message(&self) -> (r: String)
        ensures
            r@ == match *self {
                AcquireError::PoolError(e) => "pool error: "@ + e@,
                AcquireError::QueueFull(_) => "queue full: "@ + "connection pool queue is full"@,
                AcquireError::WaitTimeout => "wait timeout"@,
            },
    {
        match self {
            AcquireError::PoolError(e) => {
                let mut s = "pool error: ".to_owned();
                s.append(e.as_str());
                s
            },
            AcquireError::QueueFull(e) => {
                let mut s = "queue full: ".to_owned();
                s.append(e.message().as_str());
                s
            },
            AcquireError::WaitTimeout => "wait timeout".to_owned(),
        }
    }
}

/// Settings of the pool manager.
#[derive(Debug, Clone, Copy)]
pub struct PoolManagerConfig {
    /// Whether the connection that was used last is used next.
    pub lifo: bool,
    /// How many clients may wait.
    pub queue_depth: usize,
    /// After how many seconds without use a sticky connection is given up; 0 is never.
    pub idle_unpin_secs: u64,
    /// How many milliseconds a client waits; 0 is without end.
    pub wait_timeout_ms: u64,
}

impl Default for PoolManagerConfig {
    fn default() -> (r: Self)
        ensures
            r == (PoolManagerConfig {
                lifo: true,
                queue_depth: 100,
                idle_unpin_secs: 300,
                wait_timeout_ms: 30_000,
            }),
    {
        PoolManagerConfig {
            lifo: true,
            queue_depth: 100,
            idle_unpin_secs: 300,
            wait_timeout_ms: 30_000,
        }
    }
}

/// What is known of a sticky connection, over sequences.
#[verifier::ext_equal]
pub struct StickyInfo {
    pub pin_reasons: Seq<PinReason>,
    pub last_used: u64,
    pub binding_id: u64,
}

impl StickyInfo {
    /// What is known after a use at `now`.
    pub open spec fn touched(self, now: u64) -> StickyInfo {
        StickyInfo { last_used: now, ..self }
    }

    /// What is known after a pin with `reason` at `now`.
    pub open spec fn pinned(self, reason: PinReason, now: u64) -> StickyInfo {
        StickyInfo {
            pin_reasons: if self.pin_reasons.contains(reason) {
                self.pin_reasons
            } else {
                self.pin_reasons.push(reason)
            },
            last_used: now,
            binding_id: self.binding_id,
        }
    }

    /// Whether there has been no use for more than `secs` seconds at `now`. A
    /// clock that went back shows no time.
    pub open spec fn idle(self, now: u64, secs: u64) -> bool {
        now - self.last_used > secs * 1_000_000_000
    }
}

/// What is known of a sticky connection. Times are in nanoseconds of a
/// monotonic clock.
#[derive(Debug)]
pub struct StickyConnectionInfo {
    /// Why the connection is sticky.
    pub pin_reasons: Vec<PinReason>,
    /// When the connection was last used.
    pub last_used: u64,
    /// By what this binding of the connection to the client is known.
    pub binding_id: u64,
}

impl StickyConnectionInfo {
    /// The same over sequences.
    pub open spec fn view(&self) -> StickyInfo {
        StickyInfo {
            pin_reasons: self.pin_reasons@,
            last_used: self.last_used,
            binding_id: self.binding_id,
        }
    }

    /// A binding that is used at `now`.
    pub fn new(pin_reasons: Vec<PinReason>, binding_id: u64, now: u64) -> (r: Self)
        ensures
            r@ == (StickyInfo { pin_reasons: pin_reasons@, last_used: now, binding_id }),
    {
        StickyConnectionInfo { pin_reasons, last_used: now, binding_id }
    }

    /// Record a use at `now`.
    pub fn touch(&mut self, now: u64)
        ensures
            final(self)@ == old(self)@.touched(now),
    {
        self.last_used = now;
    }

    /// Record a pin with `reason` at `now`.
    fn add_reason(&mut self, reason: PinReason, now: u64)
        ensures
            final(self)@ == old(self)@.pinned(reason, now),
    {
        let mut i: usize = 0;
        let mut found: bool = false;
        while i < self.pin_reasons.len()
            invariant
                *self == *old(self),
                i <= self.pin_reasons@.len(),
                found == self.pin_reasons@.take(i as int).contains(reason),
            decreases self.pin_reasons.len() - i,
        {
            let ghost shorter = self.pin_reasons@.take(i as int);
            let ghost longer = self.pin_reasons@.take(i + 1);
            if self.pin_reasons[i] == reason {
                found = true;
                assert(longer[i as int] == reason);
            }
            proof {
                if shorter.contains(reason) {
                    let j = shorter.index_of(reason);
                    assert(longer[j] == reason);
                }
                if longer.contains(reason) {
                    let j = longer.index_of(reason);
                    if j < i {
                        assert(shorter[j] == reason);
                    }
                }
            }
            i += 1;
        }
        assert(self.pin_reasons@.take(i as int) =~= self.pin_reasons@);
        if !found {
            self.pin_reasons.push(reason);
        }
        self.last_used = now;
    }

    /// A copy.
    pub fn copy(&self) -> (r: Self)
        ensures
            r@ == self@,
    {
        let mut reasons: Vec<PinReason> = Vec::new();
        reasons.extend_from_slice(self.pin_reasons.as_slice());
        assert(reasons@ =~= self.pin_reasons@);
        StickyConnectionInfo {
            pin_reasons: reasons,
            last_used: self.last_used,
            binding_id: self.binding_id,
        }
    }

    /// Whether there has been no use for more than `secs` seconds at `now`.
    fn is_idle(&self, now: u64, secs: u64) -> (r: bool)
        ensures
            r == self@.idle(now, secs),
    {
        let elapsed: u64 = if now >= self.last_used {
            now - self.last_used
        } else {
            0
        };
        elapsed as u128 > secs as u128 * 1_000_000_000u128
    }
}

impl Clone for StickyConnectionInfo {
    fn clone(&self) -> (r: Self)
        ensures
            r@ == self@,
    {
        self.copy()
    }
}

/// A connection that has been handed out to a client.
#[derive(Debug)]
pub struct ManagedConnection<C> {
    /// The connection, until it is taken.
    pub connection: Option<C>,
    /// The client that has it.
    pub client_id: u64,
    /// Whether it is sticky.
    pub is_pinned: bool,
    /// By what the binding to the client was known.
    pub binding_id: Option<u64>,
}

impl<C> ManagedConnection<C> {
    /// A connection that came from the pool.
    fn from_pool(connection: C, client_id: u64) -> (r: Self)
        ensures
            r == fresh(connection, client_id),
    {
        ManagedConnection {
            connection: Some(connection),
            client_id,
            is_pinned: false,
            binding_id: None,
        }
    }

    /// The connection.
    pub fn stream(&self) -> (r: &C)
        requires
            self.connection is Some,
        ensures
            *r == self.connection->0,
    {
        match &self.connection {
            Some(c) => c,
            None => {
                assert(false);
                vstd::pervasive::unreached()
            },
        }
    }

    /// The connection, to write to.
    pub fn stream_mut(&mut self) -> (r: &mut C)
        requires
            old(self).connection is Some,
        ensures
            *r == old(self).connection->0,
            *final(self) == (ManagedConnection { connection: Some(*final(r)), ..*old(self) }),
    {
        match &mut self.connection {
            Some(c) => c,
            None => {
                assert(false);
                vstd::pervasive::unreached()
            },
        }
    }

    /// Whether the connection is sticky.
    pub fn is_pinned(&self) -> (r: bool)
        ensures
            r == self.is_pinned,
    {
        self.is_pinned
    }

    /// The client that has the connection.
    pub fn client_id(&self) -> (r: u64)
        ensures
            r == self.client_id,
    {
        self.client_id
    }

    /// Take the connection out.
    pub fn take_connection(&mut self) -> (r: Option<C>)
        ensures
            r == old(self).connection,
            *final(self) == (ManagedConnection { connection: None, ..*old(self) }),
    {
        self.connection.take()
    }
}

/// A connection as it comes from the pool.
pub open spec fn fresh<C>(connection: C, client_id: u64) -> ManagedConnection<C> {
    ManagedConnection { connection: Some(connection), client_id, is_pinned: false, binding_id: None }
}

/// What is to be done next for a client that asks for a connection.
#[derive(Debug)]
pub enum AcquireStep<C> {
    /// Here it is.
    Ready(ManagedConnection<C>),
    /// The pool is to be asked.
    AskPool,
    /// The client is to wait, for so many milliseconds at most.
    Wait { waiter: Waiter, timeout_ms: Option<u64> },
    /// There is none.
    Fail(AcquireError),
}

/// What is to be done after a wait.
#[derive(Debug)]
pub enum WaitStep {
    /// The pool is to be asked again.
    AskPool(Waiter),
    /// There is no connection.
    Fail(AcquireError),
}

/// What came of giving up idle connections.
#[derive(Debug)]
pub struct Cleanup {
    /// How many connections were given up.
    pub cleaned: usize,
    /// The waiters that are woken.
    pub woken: Vec<u64>,
}

/// What the manager holds.
#[verifier::ext_equal]
#[verifier::reject_recursive_types(C)]
pub struct PoolState<C> {
    /// Sticky connections by client.
    pub sticky: Map<u64, (C, StickyInfo)>,
    /// Clients that wait.
    pub queue: wait_queue::QueueState,
    /// By what the next binding is known.
    pub next_binding: u64,
}

impl<C> PoolState<C> {
    /// The clients whose sticky connection is idle.
    pub open spec fn idle_clients(self, now: u64, secs: u64) -> Set<u64> {
        self.sticky.dom().filter(|id: u64| self.sticky[id].1.idle(now, secs))
    }

    /// What is held after a connection is given back.
    pub open spec fn released(self, conn: ManagedConnection<C>, now: u64) -> PoolState<C> {
        let id = conn.client_id;
        let kept = if conn.is_pinned && conn.connection is Some {
            if self.sticky.dom().contains(id) {
                PoolState {
                    sticky: self.sticky.insert(
                        id,
                        (self.sticky[id].0, self.sticky[id].1.touched(now)),
                    ),
                    ..self
                }
            } else {
                self.bound(id, conn.connection->0, Seq::empty(), now)
            }
        } else {
            self
        };
        PoolState { queue: self.queue.waking(self.queue.wakeable(1) as int), ..kept }
    }

    /// What is held after a client asked for a connection.
    pub open spec fn taken(self, id: u64, needs_sticky: bool) -> PoolState<C> {
        if needs_sticky {
            PoolState { sticky: self.sticky.remove(id), ..self }
        } else {
            self
        }
    }

    /// What is held after a client's sticky connection is given up.
    pub open spec fn unpinned(self, id: u64) -> PoolState<C> {
        if self.sticky.dom().contains(id) {
            PoolState {
                sticky: self.sticky.remove(id),
                queue: self.queue.waking(self.queue.wakeable(1) as int),
                ..self
            }
        } else {
            self
        }
    }

    /// What is held after the sticky connections are given up that have not been
    /// used for more than `secs` seconds; 0 stands for never.
    pub open spec fn cleaned(self, now: u64, secs: u64) -> PoolState<C> {
        if secs == 0 {
            self
        } else {
            let idle = self.idle_clients(now, secs);
            PoolState {
                sticky: self.sticky.remove_keys(idle),
                queue: self.queue.waking(self.queue.wakeable(idle.len()) as int),
                ..self
            }
        }
    }

    /// What is held after a connection is bound to a client.
    pub open spec fn bound(
        self,
        id: u64,
        connection: C,
        pin_reasons: Seq<PinReason>,
        now: u64,
    ) -> PoolState<C> {
        PoolState {
            sticky: self.sticky.insert(
                id,
                (
                    connection,
                    StickyInfo { pin_reasons, last_used: now, binding_id: self.next_binding },
                ),
            ),
            next_binding: counters::next64(self.next_binding),
            ..self
        }
    }

    /// What is held after a client's connection is pinned.
    pub open spec fn pinned(
        self,
        id: u64,
        reason: PinReason,
        conn: ManagedConnection<C>,
        now: u64,
    ) -> PoolState<C> {
        if conn.connection is None {
            self
        } else if self.sticky.dom().contains(id) {
            PoolState {
                sticky: self.sticky.insert(
                    id,
                    (self.sticky[id].0, self.sticky[id].1.pinned(reason, now)),
                ),
                ..self
            }
        } else {
            self.bound(id, conn.connection->0, seq![reason], now)
        }
    }
}

/// Hands out backend connections.
#[derive(Debug)]
#[verifier::reject_recursive_types(C)]
pub struct PoolManager<C> {
    sticky_map: HashMap<u64, (C, StickyConnectionInfo)>,
    wait_queue: WaitQueue,
    config: PoolManagerConfig,
    next_binding_id: u64,
}

impl<C> PoolManager<C> {
    /// What the manager holds.
    pub closed spec fn view(&self) -> PoolState<C> {
        PoolState {
            sticky: self.sticky_map@.map_values(|v: (C, StickyConnectionInfo)| (v.0, v.1@)),
            queue: self.wait_queue@,
            next_binding: self.next_binding_id,
        }
    }

    /// The settings.
    pub closed spec fn settings(&self) -> PoolManagerConfig {
        self.config
    }

    /// How many clients may wait.
    pub closed spec fn places(&self) -> nat {
        self.wait_queue.bound()
    }

    /// No more clients wait than may, and there are finitely many sticky
    /// connections.
    pub open spec fn wf(&self) -> bool {
        &&& self@.queue.wf()
        &&& self@.queue.places.len() <= self.places()
        &&& self@.queue.depth() <= usize::MAX
        &&& self@.sticky.dom().finite()
    }

    /// Whether the settings are those of `other`.
    pub open spec fn same_settings(&self, other: &Self) -> bool {
        self.settings() == other.settings() && self.places() == other.places()
    }

    /// A manager without sticky connections.
    pub fn new(wait_queue: WaitQueue, config: PoolManagerConfig) -> (r: Self)
        requires
            wait_queue.wf(),
        ensures
            r.wf(),
            r.settings() == config,
            r.places() == wait_queue.bound(),
            r@ == (PoolState {
                sticky: Map::<u64, (C, StickyInfo)>::empty(),
                queue: wait_queue@,
                next_binding: 1,
            }),
    {
        let r = PoolManager {
            sticky_map: HashMap::new(),
            wait_queue,
            config,
            next_binding_id: 1,
        };
        assert(r@.sticky =~= Map::<u64, (C, StickyInfo)>::empty());
        r
    }

    /// A client asks for a connection: its sticky one, if it needs that and
    /// has one, else one from the pool.
    pub fn acquire(&mut self, client_id: u64, needs_sticky: bool) -> (r: AcquireStep<C>)
        requires
            old(self).wf(),
        ensures
            final(self).wf(),
            final(self).same_settings(old(self)),
            if needs_sticky && old(self)@.sticky.dom().contains(client_id) {
                &&& r == AcquireStep::Ready(
                    ManagedConnection {
                        connection: Some(old(self)@.sticky[client_id].0),
                        client_id,
                        is_pinned: true,
                        binding_id: Some(old(self)@.sticky[client_id].1.binding_id),
                    },
                )
                &&& final(self)@ == (PoolState {
                    sticky: old(self)@.sticky.remove(client_id),
                    ..old(self)@
                })
            } else {
                r == AcquireStep::<C>::AskPool && final(self)@ == old(self)@
            },
            final(self)@ == old(self)@.taken(client_id, needs_sticky),
    {
        if needs_sticky {
            if let Some((connection, info)) = self.sticky_map.remove(&client_id) {
                assert(self@.sticky =~= old(self)@.sticky.remove(client_id));
                return AcquireStep::Ready(
                    ManagedConnection {
                        connection: Some(connection),
                        client_id,
                        is_pinned: true,
                        binding_id: Some(info.binding_id),
                    },
                );
            }
        }
        assert(self@.sticky =~= old(self)@.sticky);
        AcquireStep::AskPool
    }

    /// The pool has answered: a client that gets no connection waits, if there
    /// is a place.
    pub fn pool_replied(&mut self, client_id: u64, reply: Result<C, String>) -> (r: AcquireStep<C>)
        requires
            old(self).wf(),
            old(self)@.queue.can_admit(),
        ensures
            final(self).wf(),
            final(self).same_settings(old(self)),
            match reply {
                Ok(connection) => r == AcquireStep::Ready(fresh(connection, client_id))
                    && final(self)@ == old(self)@,
                Err(_) => if old(self)@.queue.places.len() >= old(self).places() {
                    &&& r == AcquireStep::<C>::Fail(AcquireError::QueueFull(QueueFullError))
                    &&& final(self)@ == old(self)@
                } else {
                    &&& r matches AcquireStep::Wait { waiter, timeout_ms }
                    &&& waiter@ == old(self)@.queue.next_id
                    &&& final(self)@.queue.waits(waiter@)
                    &&& timeout_ms == if old(self).settings().wait_timeout_ms > 0 {
                        Some(old(self).settings().wait_timeout_ms)
                    } else {
                        None
                    }
                    &&& final(self)@ == (PoolState {
                        queue: old(self)@.queue.admitted(),
                        ..old(self)@
                    })
                },
            },
    {
        match reply {
            Ok(connection) => AcquireStep::Ready(
                ManagedConnection::from_pool(connection, client_id),
            ),
            Err(_) => match self.wait_queue.enqueue() {
                Ok(waiter) => AcquireStep::Wait {
                    waiter,
                    timeout_ms: if self.config.wait_timeout_ms > 0 {
                        Some(self.config.wait_timeout_ms)
                    } else {
                        None
                    },
                },
                Err(e) => AcquireStep::Fail(AcquireError::QueueFull(e)),
            },
        }
    }

    /// A wait is over: a waiter that was woken asks the pool again, one whose
    /// time is up leaves.
    pub fn waited(&mut self, waiter: Waiter, woken: bool) -> (r: WaitStep)
        requires
            old(self).wf(),
        ensures
            final(self).wf(),
            final(self).same_settings(old(self)),
            if woken {
                r == WaitStep::AskPool(waiter) && final(self)@ == old(self)@
            } else {
                &&& r == WaitStep::Fail(AcquireError::WaitTimeout)
                &&& !final(self)@.queue.has(waiter@)
                &&& old(self)@.queue.has(waiter@) ==> final(self)@.queue.depth()
                    == old(self)@.queue.depth() - 1
                &&& final(self)@ == (PoolState {
                    queue: old(self)@.queue.left(waiter@),
                    ..old(self)@
                })
            },
    {
        if woken {
            WaitStep::AskPool(waiter)
        } else {
            self.wait_queue.leave(waiter);
            WaitStep::Fail(AcquireError::WaitTimeout)
        }
    }

    /// The pool has answered a waiter, who leaves with what it got.
    pub fn pool_replied_to_waiter(
        &mut self,
        waiter: Waiter,
        client_id: u64,
        reply: Result<C, String>,
    ) -> (r: Result<ManagedConnection<C>, AcquireError>)
        requires
            old(self).wf(),
        ensures
            final(self).wf(),
            final(self).same_settings(old(self)),
            r == match reply {
                Ok(connection) => Ok(fresh(connection, client_id)),
                Err(e) => Err(AcquireError::PoolError(e)),
            },
            !final(self)@.queue.has(waiter@),
            old(self)@.queue.has(waiter@) ==> final(self)@.queue.depth()
                == old(self)@.queue.depth() - 1,
            final(self)@ == (PoolState {
                queue: old(self)@.queue.left(waiter@),
                ..old(self)@
            }),
    {
        self.wait_queue.leave(waiter);
        match reply {
            Ok(connection) => Ok(ManagedConnection::from_pool(connection, client_id)),
            Err(e) => Err(AcquireError::PoolError(e)),
        }
    }

    /// By what the next binding is known.
    fn take_binding_id(&mut self) -> (r: u64)
        ensures
            r == old(self)@.next_binding,
            final(self)@ == (PoolState {
                next_binding: counters::next64(old(self)@.next_binding),
                ..old(self)@
            }),
            final(self).sticky_map == old(self).sticky_map,
            final(self).wait_queue == old(self).wait_queue,
            final(self).config == old(self).config,
    {
        let id = self.next_binding_id;
        self.next_binding_id = if id == u64::MAX {
            0
        } else {
            id + 1
        };
        id
    }

    /// A client gives its connection back. A sticky one stays with the client;
    /// one from the pool goes back to it when it is dropped. The first waiter
    /// is woken; returns by what it is known.
    pub fn release(&mut self, conn: ManagedConnection<C>, now: u64) -> (r: Option<u64>)
        requires
            old(self).wf(),
        ensures
            final(self).wf(),
            final(self).same_settings(old(self)),
            final(self)@ == old(self)@.released(conn, now),
            r == if old(self)@.queue.places.len() > 0 {
                Some(old(self)@.queue.places[0])
            } else {
                None
            },
    {
        let ghost given = conn;
        let mut conn = conn;
        let client_id = conn.client_id;
        if conn.is_pinned {
            if let Some(connection) = conn.take_connection() {
                match self.sticky_map.remove(&client_id) {
                    Some((held, mut info)) => {
                        info.touch(now);
                        let _ = self.sticky_map.insert(client_id, (held, info));
                    },
                    None => {
                        let binding_id = self.take_binding_id();
                        let info = StickyConnectionInfo::new(Vec::new(), binding_id, now);
                        assert(info@.pin_reasons =~= Seq::empty());
                        let _ = self.sticky_map.insert(client_id, (connection, info));
                    },
                }
            }
        }
        let r = self.wait_queue.notify_one();
        assert(self@.sticky =~= old(self)@.released(given, now).sticky);
        r
    }

    /// Keep a client's connection with the client, for `reason`.
    pub fn pin(&mut self, client_id: u64, reason: PinReason, conn: ManagedConnection<C>, now: u64)
        requires
            old(self).wf(),
        ensures
            final(self).wf(),
            final(self).same_settings(old(self)),
            final(self)@ == old(self)@.pinned(client_id, reason, conn, now),
    {
        let ghost given = conn;
        let mut conn = conn;
        if let Some(connection) = conn.take_connection() {
            match self.sticky_map.remove(&client_id) {
                Some((held, mut info)) => {
                    info.add_reason(reason, now);
                    let _ = self.sticky_map.insert(client_id, (held, info));
                },
                None => {
                    let binding_id = self.take_binding_id();
                    let mut reasons: Vec<PinReason> = Vec::new();
                    reasons.push(reason);
                    let info = StickyConnectionInfo::new(reasons, binding_id, now);
                    assert(info@.pin_reasons =~= seq![reason]);
                    let _ = self.sticky_map.insert(client_id, (connection, info));
                },
            }
        }
        assert(self@.sticky =~= old(self)@.pinned(client_id, reason, given, now).sticky);
    }

    /// Give up a client's sticky connection, which wakes the first waiter;
    /// returns by what it is known.
    pub fn unpin(&mut self, client_id: u64) -> (r: Option<u64>)
        requires
            old(self).wf(),
        ensures
            final(self).wf(),
            final(self).same_settings(old(self)),
            if old(self)@.sticky.dom().contains(client_id) {
                &&& final(self)@ == (PoolState {
                    sticky: old(self)@.sticky.remove(client_id),
                    queue: old(self)@.queue.waking(old(self)@.queue.wakeable(1) as int),
                    ..old(self)@
                })
                &&& r == if old(self)@.queue.places.len() > 0 {
                    Some(old(self)@.queue.places[0])
                } else {
                    None
                }
            } else {
                r is None && final(self)@ == old(self)@
            },
            final(self)@ == old(self)@.unpinned(client_id),
    {
        let entry = self.sticky_map.remove(&client_id);
        if entry.is_some() {
            let r = self.wait_queue.notify_one();
            assert(self@.sticky =~= old(self)@.sticky.remove(client_id));
            r
        } else {
            assert(self@.sticky =~= old(self)@.sticky);
            None
        }
    }

    /// What is known of a client's sticky connection.
    pub fn get_sticky_info(&self, client_id: u64) -> (r: Option<StickyConnectionInfo>)
        requires
            self.wf(),
        ensures
            r is Some <==> self@.sticky.dom().contains(client_id),
            r matches Some(info) ==> info@ == self@.sticky[client_id].1,
    {
        match self.sticky_map.get(&client_id) {
            Some(entry) => Some(entry.1.copy()),
            None => None,
        }
    }

    /// Whether a client has a sticky connection.
    pub fn has_sticky(&self, client_id: u64) -> (r: bool)
        requires
            self.wf(),
        ensures
            r == self@.sticky.dom().contains(client_id),
    {
        self.sticky_map.contains_key(&client_id)
    }

    /// How many sticky connections there are.
    pub fn sticky_count(&self) -> (r: usize)
        requires
            self.wf(),
        ensures
            r == self@.sticky.dom().len(),
    {
        assert(self@.sticky.dom() =~= self.sticky_map@.dom());
        self.sticky_map.len()
    }

    /// How many clients wait.
    pub fn wait_queue_depth(&self) -> (r: usize)
        requires
            self.wf(),
        ensures
            r == self@.queue.depth(),
    {
        self.wait_queue.depth()
    }

    /// Whether one more client that waits can be counted and numbered.
    pub fn can_admit(&self) -> (r: bool)
        requires
            self.wf(),
        ensures
            r == self@.queue.can_admit(),
    {
        self.wait_queue.can_admit()
    }

    /// Give up the sticky connections that have not been used for longer than
    /// the settings allow. For each a waiter is woken.
    pub fn cleanup_idle(&mut self, now: u64) -> (r: Cleanup)
        requires
            old(self).wf(),
        ensures
            final(self).wf(),
            final(self).same_settings(old(self)),
            if old(self).settings().idle_unpin_secs == 0 {
                r.cleaned == 0 && r.woken@.len() == 0 && final(self)@ == old(self)@
            } else {
                let idle = old(self)@.idle_clients(now, old(self).settings().idle_unpin_secs);
                let n = old(self)@.queue.wakeable(idle.len()) as int;
                &&& r.cleaned == idle.len()
                &&& r.woken@ == old(self)@.queue.places.take(n)
                &&& final(self)@ == (PoolState {
                    sticky: old(self)@.sticky.remove_keys(idle),
                    queue: old(self)@.queue.waking(n),
                    ..old(self)@
                })
            },
            final(self)@ == old(self)@.cleaned(now, old(self).settings().idle_unpin_secs),
    {
        let secs = self.config.idle_unpin_secs;
        if secs == 0 {
            return Cleanup { cleaned: 0, woken: Vec::new() };
        }
        let ghost before = self@.sticky;
        let ghost idle = self@.idle_clients(now, secs);
        let keys = keys_of(&self.sticky_map);
        let mut cleaned: usize = 0;
        let mut i: usize = 0;
        proof {
            assert(self@.sticky.dom() =~= self.sticky_map@.dom());
            assert(keys@.take(0).to_set().intersect(idle) =~= Set::empty());
            assert(before.remove_keys(Set::empty()) =~= before);
        }
        while i < keys.len()
            invariant
                self.wait_queue == old(self).wait_queue,
                self.config == old(self).config,
                self.next_binding_id == old(self).next_binding_id,
                secs == self.config.idle_unpin_secs,
                before == old(self)@.sticky,
                idle == old(self)@.idle_clients(now, secs),
                keys@.no_duplicates(),
                keys@.to_set() == before.dom(),
                i <= keys@.len(),
                cleaned <= i,
                self@.sticky == before.remove_keys(keys@.take(i as int).to_set().intersect(idle)),
                cleaned == keys@.take(i as int).to_set().intersect(idle).len(),
                keys@.take(i as int).to_set().intersect(idle).finite(),
            decreases keys.len() - i,
        {
            let id = keys[i];
            let ghost shorter = keys@.take(i as int).to_set();
            let ghost longer = keys@.take(i + 1).to_set();
            proof {
                assert(keys@.contains(id));
                assert(before.dom().contains(id));
                assert forall|x: u64| longer.contains(x) <==> shorter.contains(x) || x == id by {
                    let a = keys@.take(i as int);
                    let b = keys@.take(i + 1);
                    if a.contains(x) {
                        let j = a.index_of(x);
                        assert(b[j] == x);
                    }
                    assert(b[i as int] == id);
                    if b.contains(x) && x != id {
                        let j = b.index_of(x);
                        assert(a[j] == x);
                    }
                }
                if shorter.contains(id) {
                    let j = keys@.take(i as int).index_of(id);
                    assert(keys@[j] == id);
                }
                assert(self@.sticky.dom().contains(id));
                assert(self.sticky_map@.dom().contains(id));
                assert(self@.sticky[id].1 == before[id].1);
            }
            let is_idle = match self.sticky_map.get(&id) {
                Some(entry) => entry.1.is_idle(now, secs),
                None => false,
            };
            let ghost mid = self@.sticky;
            if is_idle {
                let _ = self.sticky_map.remove(&id);
                cleaned = cleaned + 1;
                proof {
                    assert(self@.sticky =~= mid.remove(id));
                    assert(longer.intersect(idle) =~= shorter.intersect(idle).insert(id));
                    assert(self@.sticky =~= before.remove_keys(longer.intersect(idle)));
                }
            } else {
                assert(longer.intersect(idle) =~= shorter.intersect(idle));
            }
            i += 1;
        }
        proof {
            assert(keys@.take(i as int) =~= keys@);
            assert(before.dom().intersect(idle) =~= idle);
        }
        let woken = self.wait_queue.notify_many(cleaned);
        assert(self@.sticky.dom() =~= self.sticky_map@.dom());
        Cleanup { cleaned, woken }
    }
}

/// A sticky connection that a client gets and gives back stays with the client.
pub proof fn law_sticky_connection_stays<C>(s: PoolState<C>, id: u64, binding: u64, now: u64)
    requires
        s.sticky.dom().contains(id),
    ensures
        ({
            let taken = PoolState { sticky: s.sticky.remove(id), ..s };
            let conn = ManagedConnection {
                connection: Some(s.sticky[id].0),
                client_id: id,
                is_pinned: true,
                binding_id: Some(binding),
            };
            let back = taken.released(conn, now);
            &&& back.sticky.dom() == s.sticky.dom()
            &&& back.sticky[id].0 == s.sticky[id].0
            &&& forall|other: u64|
                other != id && s.sticky.dom().contains(other) ==> #[trigger] back.sticky[other]
                    == s.sticky[other]
        }),
{
    let taken = PoolState { sticky: s.sticky.remove(id), ..s };
    let conn = ManagedConnection {
        connection: Some(s.sticky[id].0),
        client_id: id,
        is_pinned: true,
        binding_id: Some(binding),
    };
    assert(taken.released(conn, now).sticky.dom() =~= s.sticky.dom());
}

/// A connection from the pool that is given back leaves no trace among the
/// sticky ones, and one waiter at most is woken.
pub proof fn law_pool_connection_is_returned<C>(
    s: PoolState<C>,
    connection: C,
    id: u64,
    now: u64,
)
    ensures
        s.released(fresh(connection, id), now).sticky == s.sticky,
        s.queue.places.len() > 0 ==> s.released(fresh(connection, id), now).queue.places
            == s.queue.places.skip(1),
{
}

/// A client whose connection is pinned gets that connection when it asks for
/// a sticky one, until it is unpinned.
pub proof fn law_pinned_connection_is_sticky<C>(
    s: PoolState<C>,
    id: u64,
    reason: PinReason,
    connection: C,
    now: u64,
)
    requires
        !s.sticky.dom().contains(id),
    ensures
        s.pinned(id, reason, fresh(connection, id), now).sticky.dom().contains(id),
        s.pinned(id, reason, fresh(connection, id), now).sticky[id].0 == connection,
        s.pinned(id, reason, fresh(connection, id), now).sticky[id].1.pin_reasons == seq![reason],
        s.pinned(id, reason, fresh(connection, id), now).sticky.remove(id) == s.sticky,
{
    assert(s.pinned(id, reason, fresh(connection, id), now).sticky.remove(id) =~= s.sticky);
}

/// A sticky connection is idle by its last use alone: exactly where that lies
/// more than so many seconds back, whatever it is kept for.
pub proof fn law_idle_by_last_use_alone(
    info: StickyInfo,
    other: StickyInfo,
    now: u64,
    secs: u64,
)
    requires
        info.last_used == other.last_used,
    ensures
        info.idle(now, secs) <==> now > info.last_used + secs * 1_000_000_000,
        info.idle(now, secs) == other.idle(now, secs),
{
}

/// The clients that are idle are those with a sticky connection whose last use
/// lies more than so many seconds back.
pub proof fn law_idle_clients_are_found<C>(s: PoolState<C>, id: u64, now: u64, secs: u64)
    ensures
        s.idle_clients(now, secs).contains(id) <==> s.sticky.dom().contains(id) && now
            > s.sticky[id].1.last_used + secs * 1_000_000_000,
{
}

/// Giving a sticky connection back is a use: the client keeps it, and it is
/// idle exactly when more than so many seconds have passed since then.
pub proof fn law_returned_connection_becomes_idle<C>(
    s: PoolState<C>,
    conn: ManagedConnection<C>,
    t: u64,
    now: u64,
    secs: u64,
)
    requires
        conn.is_pinned,
        conn.connection is Some,
    ensures
        s.released(conn, t).sticky.dom() == s.sticky.dom().insert(conn.client_id),
        s.released(conn, t).sticky[conn.client_id].1.last_used == t,
        s.released(conn, t).idle_clients(now, secs).contains(conn.client_id) <==> now > t + secs
            * 1_000_000_000,
        !s.sticky.dom().contains(conn.client_id) ==> s.released(
            conn,
            t,
        ).sticky[conn.client_id].0 == conn.connection->0,
        s.sticky.dom().contains(conn.client_id) ==> {
            &&& s.released(conn, t).sticky[conn.client_id].0 == s.sticky[conn.client_id].0
            &&& s.released(conn, t).sticky[conn.client_id].1.pin_reasons
                == s.sticky[conn.client_id].1.pin_reasons
            &&& s.released(conn, t).sticky[conn.client_id].1.binding_id
                == s.sticky[conn.client_id].1.binding_id
        },
{
    assert(s.released(conn, t).sticky.dom() =~= s.sticky.dom().insert(conn.client_id));
}

/// Whatever connection is given back, the sticky connections of other clients
/// stay as they are, and the waiter who came first is woken and no other.
pub proof fn law_return_leaves_other_clients<C>(
    s: PoolState<C>,
    conn: ManagedConnection<C>,
    t: u64,
    other: u64,
)
    requires
        other != conn.client_id,
    ensures
        s.released(conn, t).sticky.dom().contains(other) == s.sticky.dom().contains(other),
        s.sticky.dom().contains(other) ==> s.released(conn, t).sticky[other] == s.sticky[other],
        s.queue.places.len() > 0 ==> {
            &&& s.released(conn, t).queue.places == s.queue.places.drop_first()
            &&& s.released(conn, t).queue.woken.contains(s.queue.places[0])
        },
        s.queue.places.len() == 0 ==> s.released(conn, t).queue.places == s.queue.places,
        !conn.is_pinned || conn.connection is None ==> s.released(conn, t).sticky == s.sticky
            && s.released(conn, t).next_binding == s.next_binding,
{
    if s.queue.places.len() > 0 {
        assert(s.queue.places.take(1)[0] == s.queue.places[0]);
        assert(s.queue.places.take(1).to_set().contains(s.queue.places[0]));
        assert(s.released(conn, t).queue.places =~= s.queue.places.drop_first());
    } else {
        assert(s.released(conn, t).queue.places =~= s.queue.places);
    }
}

/// Pinning a client's connection is a use, adds the reason once, keeps the
/// other reasons and the connection that the client has, and leaves the other
/// clients and those that wait alone.
pub proof fn law_pin_adds_its_reason<C>(
    s: PoolState<C>,
    id: u64,
    reason: PinReason,
    conn: ManagedConnection<C>,
    t: u64,
    other: u64,
)
    requires
        conn.connection is Some,
        other != id,
    ensures
        ({
            let after = s.pinned(id, reason, conn, t);
            &&& after.sticky.dom() == s.sticky.dom().insert(id)
            &&& after.sticky[id].1.last_used == t
            &&& after.sticky[id].1.pin_reasons.contains(reason)
            &&& s.sticky.dom().contains(id) ==> {
                &&& after.sticky[id].0 == s.sticky[id].0
                &&& after.sticky[id].1.binding_id == s.sticky[id].1.binding_id
                &&& s.sticky[id].1.pin_reasons.contains(reason) ==> after.sticky[id].1.pin_reasons
                    == s.sticky[id].1.pin_reasons
                &&& !s.sticky[id].1.pin_reasons.contains(reason)
                    ==> after.sticky[id].1.pin_reasons == s.sticky[id].1.pin_reasons + seq![reason]
            }
            &&& !s.sticky.dom().contains(id) ==> after.sticky[id].0 == conn.connection->0
                && after.sticky[id].1.binding_id == s.next_binding
            &&& after.sticky.dom().contains(other) == s.sticky.dom().contains(other)
            &&& s.sticky.dom().contains(other) ==> after.sticky[other] == s.sticky[other]
            &&& after.queue == s.queue
        }),
{
    let after = s.pinned(id, reason, conn, t);
    assert(after.sticky.dom() =~= s.sticky.dom().insert(id));
    if s.sticky.dom().contains(id) {
        let r = s.sticky[id].1.pin_reasons;
        if !r.contains(reason) {
            assert(after.sticky[id].1.pin_reasons =~= r + seq![reason]);
            assert(after.sticky[id].1.pin_reasons.last() == reason);
        }
    } else {
        assert(after.sticky[id].1.pin_reasons[0] == reason);
    }
}

/// Each binding of a connection to a client is known by a number of its own:
/// the next one, which no binding after it gets until the numbers are used up.
pub proof fn law_bindings_are_numbered<C>(
    s: PoolState<C>,
    id: u64,
    connection: C,
    reasons: Seq<PinReason>,
    t: u64,
)
    requires
        s.next_binding < u64::MAX,
    ensures
        s.bound(id, connection, reasons, t).sticky[id].1.binding_id == s.next_binding,
        s.bound(id, connection, reasons, t).next_binding == s.next_binding + 1,
        s.bound(id, connection, reasons, t).sticky[id].1.pin_reasons == reasons,
        s.bound(id, connection, reasons, t).sticky[id].1.last_used == t,
{
}

/// A client that asks for its sticky connection takes that one alone, and one
/// that asks for any takes none of them. Nobody is woken, and nobody waits.
pub proof fn law_only_its_own_connection_is_taken<C>(
    s: PoolState<C>,
    id: u64,
    needs_sticky: bool,
    other: u64,
)
    requires
        other != id,
    ensures
        s.taken(id, false) == s,
        !s.taken(id, true).sticky.dom().contains(id),
        s.taken(id, needs_sticky).sticky.dom().contains(other) == s.sticky.dom().contains(other),
        s.sticky.dom().contains(other) ==> s.taken(id, needs_sticky).sticky[other]
            == s.sticky[other],
        s.taken(id, needs_sticky).queue == s.queue,
        s.taken(id, needs_sticky).next_binding == s.next_binding,
{
}

/// Giving up a client's sticky connection undoes its pin, leaves the others, and
/// wakes the first waiter; where the client has none, nothing happens.
pub proof fn law_unpin_undoes_pin<C>(
    s: PoolState<C>,
    id: u64,
    reason: PinReason,
    conn: ManagedConnection<C>,
    now: u64,
)
    requires
        conn.connection is Some,
        !s.sticky.dom().contains(id),
    ensures
        s.unpinned(id) == s,
        s.pinned(id, reason, conn, now).unpinned(id).sticky == s.sticky,
        s.queue.places.len() > 0 ==> {
            let after = s.pinned(id, reason, conn, now).unpinned(id).queue;
            &&& after.places == s.queue.places.drop_first()
            &&& after.woken == s.queue.woken.insert(s.queue.places[0])
        },
        s.queue.places.len() == 0 ==> s.pinned(id, reason, conn, now).unpinned(id).queue
            == s.queue,
{
    let t = s.pinned(id, reason, conn, now);
    assert(t.unpinned(id).sticky =~= s.sticky);
    if s.queue.places.len() > 0 {
        assert(s.queue.places.take(1).to_set() =~= set![s.queue.places[0]]) by {
            assert(s.queue.places.take(1)[0] == s.queue.places[0]);
        }
        assert(t.unpinned(id).queue.places =~= s.queue.places.drop_first());
        assert(t.unpinned(id).queue.woken =~= s.queue.woken.insert(s.queue.places[0]));
    } else {
        assert(s.queue.places.take(0).to_set() =~= Set::empty());
        assert(t.unpinned(id).queue =~= s.queue);
    }
}

/// A cleanup gives up the connections whose last use lies more than so many
/// seconds back, and no other, whatever they are kept for; it leaves those that
/// stay as they were. With no limit set it does nothing. As many waiters are
/// woken as connections are given up, or all of them.
pub proof fn law_cleanup_gives_up_what_is_idle<C>(s: PoolState<C>, id: u64, now: u64, secs: u64)
    ensures
        s.cleaned(now, 0) == s,
        secs > 0 ==> {
            &&& s.cleaned(now, secs).sticky.dom().contains(id) <==> s.sticky.dom().contains(id)
                && now <= s.sticky[id].1.last_used + secs * 1_000_000_000
            &&& s.cleaned(now, secs).sticky.dom().contains(id) ==> s.cleaned(now, secs).sticky[id]
                == s.sticky[id]
        },
        secs > 0 && s.sticky.dom().finite() ==> {
            let gone = s.sticky.dom().len() - s.cleaned(now, secs).sticky.dom().len();
            &&& gone <= s.queue.places.len() ==> s.cleaned(now, secs).queue.places
                == s.queue.places.skip(gone)
            &&& gone > s.queue.places.len() ==> s.cleaned(now, secs).queue.places.len() == 0
        },
        s.cleaned(now, secs).next_binding == s.next_binding,
{
    if secs > 0 && s.sticky.dom().finite() {
        let idle = s.idle_clients(now, secs);
        let all = s.sticky.dom();
        assert(s.cleaned(now, secs).sticky.dom() =~= all.difference(idle));
        assert(all.intersect(idle) =~= idle);
        vstd::set_lib::lemma_set_disjoint_lens(all.difference(idle), idle);
        assert(all.difference(idle).union(idle) =~= all);
    }
}

/// A connection from the pool is not a sticky one and is bound to nobody.
pub proof fn law_pool_connection_is_not_bound<C>(connection: C, id: u64)
    ensures
        fresh(connection, id).connection == Some(connection),
        fresh(connection, id).client_id == id,
        !fresh(connection, id).is_pinned,
        fresh(connection, id).binding_id is None,
{
}

/// A sticky connection that was given back and not used for more than the time
/// that the settings allow is given up by the next cleanup, whatever it is kept
/// for; until then it stays.
pub proof fn law_unused_connection_is_given_up<C>(
    m: &mut PoolManager<C>,
    conn: ManagedConnection<C>,
    t: u64,
    woken: Option<u64>,
    later: &mut PoolManager<C>,
    now: u64,
    r: Cleanup,
)
    requires
        conn.is_pinned,
        conn.connection is Some,
        call_ensures(PoolManager::<C>::release, (m, conn, t), woken),
        old(later)@ == final(m)@,
        old(later).settings().idle_unpin_secs > 0,
        call_ensures(PoolManager::<C>::cleanup_idle, (later, now), r),
    ensures
        final(m)@.sticky.dom().contains(conn.client_id),
        final(m)@.sticky[conn.client_id].1.last_used == t,
        final(later)@.sticky.dom().contains(conn.client_id) <==> now <= t
            + old(later).settings().idle_unpin_secs * 1_000_000_000,
{
}

/// A cleanup leaves the connections alone that were used recently enough, and
/// gives up the others; it counts those that it gave up.
pub proof fn law_cleanup_goes_by_last_use<C>(
    m: &mut PoolManager<C>,
    now: u64,
    id: u64,
    r: Cleanup,
)
    requires
        call_ensures(PoolManager::<C>::cleanup_idle, (m, now), r),
        old(m)@.sticky.dom().contains(id),
    ensures
        final(m)@.sticky.dom().contains(id) <==> old(m).settings().idle_unpin_secs == 0 || now
            <= old(m)@.sticky[id].1.last_used + old(m).settings().idle_unpin_secs * 1_000_000_000,
        final(m)@.sticky.dom().contains(id) ==> final(m)@.sticky[id] == old(m)@.sticky[id],
{
}

/// A client that asks for its sticky connection after it was pinned gets that
/// connection, and nobody else gets it by asking.
pub proof fn law_pinned_client_gets_its_connection<C>(
    m: &mut PoolManager<C>,
    id: u64,
    reason: PinReason,
    conn: ManagedConnection<C>,
    t: u64,
    later: &mut PoolManager<C>,
    client: u64,
    needs_sticky: bool,
    r: AcquireStep<C>,
)
    requires
        conn.connection is Some,
        !old(m)@.sticky.dom().contains(id),
        call_ensures(PoolManager::<C>::pin, (m, id, reason, conn, t), ()),
        old(later)@ == final(m)@,
        call_ensures(PoolManager::<C>::acquire, (later, client, needs_sticky), r),
    ensures
        client == id && needs_sticky ==> {
            &&& r matches AcquireStep::Ready(got)
            &&& got.connection == conn.connection
            &&& got.client_id == id
            &&& got.is_pinned
            &&& !final(later)@.sticky.dom().contains(id)
        },
        !needs_sticky ==> r is AskPool && final(later)@ == old(later)@,
        client != id ==> final(later)@.sticky.dom().contains(id) && final(later)@.sticky[id]
            == old(later)@.sticky[id],
{
}

/// A client for which the pool has a connection gets it; one for which it has
/// none waits, as long as the settings say, or for good where they say nothing,
/// unless every place is taken. A client whose time is up leaves its place.
pub proof fn law_clients_wait_for_the_pool<C>(
    m: &mut PoolManager<C>,
    id: u64,
    reply: Result<C, String>,
    r: AcquireStep<C>,
    later: &mut PoolManager<C>,
    waiter: Waiter,
    step: WaitStep,
)
    requires
        call_ensures(PoolManager::<C>::pool_replied, (m, id, reply), r),
        call_ensures(PoolManager::<C>::waited, (later, waiter, false), step),
    ensures
        r is Ready <==> reply is Ok,
        r matches AcquireStep::Ready(got) ==> Some(reply->Ok_0) == got.connection
            && got.client_id == id && !got.is_pinned,
        r is Fail <==> reply is Err && old(m)@.queue.places.len() >= old(m).places(),
        r matches AcquireStep::Wait { waiter: w, timeout_ms } ==> {
            &&& final(m)@.queue.places == old(m)@.queue.places + seq![w@]
            &&& timeout_ms is None <==> old(m).settings().wait_timeout_ms == 0
            &&& timeout_ms matches Some(ms) ==> ms == old(m).settings().wait_timeout_ms
        },
        r !is Wait ==> final(m)@ == old(m)@,
        final(m)@.sticky == old(m)@.sticky,
        step == WaitStep::Fail(AcquireError::WaitTimeout),
        !final(later)@.queue.has(waiter@),
        final(later)@.sticky == old(later)@.sticky,
{
}

} // verus!
