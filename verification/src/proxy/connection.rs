//! One client's connection: what its messages and the backend's answers do to
//! the session, what is answered in the backend's place, when the backend
//! connection is handed back, and what is reported of each query.
use crate::config::{BackpressureMode, ParseFailureMode, PoolingStrategy};
use crate::protocol::command;
use crate::protocol::wire;
use crate::proxy::cache;
use crate::proxy::cache::{PendingExecution, PreparedStatement, PreparedStatementCache};
use crate::proxy::connection_state;
use crate::proxy::connection_state::{copy_oids, ConnectionState, ReplayableState};
use crate::proxy::event;
use crate::proxy::event::{AnonymizationSettings, AnonymizedQuery, QueryReport};
use crate::proxy::mode_enforcer;
use crate::proxy::mode_enforcer::{ModeEnforcer, PoolingMode};
use crate::proxy::params;
use crate::proxy::params::ParamValue;
use crate::proxy::pool_manager::AcquireError;
use crate::proxy::transaction;
use crate::proxy::transaction::{TransactionState, TransactionTracker};
use crate::text;
use std::time::{Duration, Instant};
use vstd::prelude::*;
use vstd::string::*;

verus! {

/// A message of a client.
#[derive(Debug)]
pub enum Message {
    /// Prepare a statement.
    Parse { name: String, query: String, param_oids: Vec<u32> },
    /// Bind parameters to a statement.
    Bind {
        portal: String,
        statement: String,
        format_codes: Vec<i16>,
        params_raw: Vec<Option<Vec<u8>>>,
    },
    /// Run a command.
    Query { query: String },
    /// Close a statement (`S`) or a portal (`P`).
    Close { kind: char, name: String },
    /// Anything else.
    Other,
}

/// Parameters that are to be decoded by the types of their statement.
#[derive(Debug)]
pub struct BindRequest {
    pub portal: String,
    /// The query of the statement.
    pub query: String,
    /// The types of the parameters.
    pub param_oids: Vec<u32>,
    pub format_codes: Vec<i16>,
    pub params_raw: Vec<Option<Vec<u8>>>,
}

/// Parameters of a statement that is not known: their bytes, without a type.
pub open spec fn untyped(raw: Seq<Option<Vec<u8>>>) -> Seq<params::Param> {
    Seq::new(
        raw.len(),
        |i: int|
            match raw[i] {
                Some(data) => params::Param::Unknown { oid: 0, data: data@ },
                None => params::Param::Null,
            },
    )
}

/// What is reported in place of the query of a statement that is not known.
pub open spec fn unknown_query(statement: Seq<char>) -> Seq<char> {
    "[unknown: "@ + statement + "]"@
}

/// Whether `new` is `old` with `p` set for `portal`.
pub open spec fn pends(
    old: Map<Seq<char>, PendingExecution>,
    new: Map<Seq<char>, PendingExecution>,
    portal: Seq<char>,
    p: cache::Pending,
) -> bool {
    new == old.insert(portal, new[portal]) && new[portal]@ == p
}

/// Whether `new` is what the cache holds once `msg` is taken in at `now`, when
/// it held `old`.
pub open spec fn noted(
    old: cache::CacheState,
    new: cache::CacheState,
    msg: Message,
    capacity: nat,
    now: Instant,
) -> bool {
    match msg {
        Message::Parse { name, query, param_oids } => {
            let stmt = PreparedStatement { query, param_oids };
            &&& new.statements == old.insert(name@, stmt, capacity).statements
            &&& new.order == old.insert(name@, stmt, capacity).order
            &&& pends(
                old.pending,
                new.pending,
                Seq::empty(),
                cache::Pending {
                    query: query@,
                    params: Seq::empty(),
                    params_incomplete: true,
                    started_at: now,
                },
            )
        },
        Message::Bind { portal, statement, format_codes, params_raw } => {
            if old.statements.dom().contains(statement@) {
                new == old.touch(statement@)
            } else {
                &&& new.statements == old.statements
                &&& new.order == old.order
                &&& pends(
                    old.pending,
                    new.pending,
                    portal@,
                    cache::Pending {
                        query: unknown_query(statement@),
                        params: untyped(params_raw@),
                        params_incomplete: true,
                        started_at: now,
                    },
                )
            }
        },
        Message::Query { query } => {
            &&& new.statements == old.statements
            &&& new.order == old.order
            &&& pends(
                old.pending,
                new.pending,
                Seq::empty(),
                cache::Pending {
                    query: query@,
                    params: Seq::empty(),
                    params_incomplete: false,
                    started_at: now,
                },
            )
        },
        Message::Close { kind, name } => {
            if kind == 'S' {
                new == old.remove(name@)
            } else if kind == 'P' {
                new == (cache::CacheState { pending: old.pending.remove(name@), ..old })
            } else {
                new == old
            }
        },
        Message::Other => new == old,
    }
}

/// The parameters that are to be decoded for `msg`, if any: those of a Bind
/// message for a statement that is known.
pub open spec fn requested(
    old: cache::CacheState,
    msg: Message,
    r: Option<BindRequest>,
) -> bool {
    match msg {
        Message::Bind { portal, statement, format_codes, params_raw } => {
            if old.statements.dom().contains(statement@) {
                &&& r matches Some(b)
                &&& b.portal == portal
                &&& b.query@ == old.statements[statement@].query@
                &&& b.param_oids@ == old.statements[statement@].param_oids@
                &&& b.format_codes == format_codes
                &&& b.params_raw == params_raw
            } else {
                r is None
            }
        },
        _ => r is None,
    }
}

/// The parameters of a statement that is not known.
fn untyped_params(raw: &Vec<Option<Vec<u8>>>) -> (r: Vec<ParamValue>)
    ensures
        params::views(r@) == untyped(raw@),
{
    let mut out: Vec<ParamValue> = Vec::new();
    let mut i: usize = 0;
    while i < raw.len()
        invariant
            i <= raw@.len(),
            out@.len() == i,
            forall|k: int| 0 <= k < i ==> (#[trigger] out@[k])@ == untyped(raw@)[k],
        decreases raw.len() - i,
    {
        match &raw[i] {
            Some(data) => {
                let mut copy: Vec<u8> = Vec::new();
                copy.extend_from_slice(data.as_slice());
                assert(copy@ =~= data@);
                out.push(ParamValue::Unknown { oid: 0, data: copy });
            },
            None => out.push(ParamValue::Null),
        }
        i += 1;
    }
    assert(params::views(out@) =~= untyped(raw@));
    out
}

/// Take a client's message into the cache. Parameters that have to be decoded
/// are handed back; once they are, `bind` takes them in.
pub fn note_message(
    stmt_cache: &mut PreparedStatementCache,
    msg: Message,
    now: Instant,
) -> (r: Option<BindRequest>)
    requires
        old(stmt_cache).wf(),
    ensures
        final(stmt_cache).wf(),
        final(stmt_cache).capacity() == old(stmt_cache).capacity(),
        noted(old(stmt_cache)@, final(stmt_cache)@, msg, old(stmt_cache).capacity(), now),
        requested(old(stmt_cache)@, msg, r),
{
    match msg {
        Message::Parse { name, query, param_oids } => {
            let pending = PendingExecution {
                query: query.clone(),
                params: Vec::new(),
                params_incomplete: true,
                started_at: now,
            };
            assert(pending@.params =~= Seq::empty());
            stmt_cache.insert_statement(name, PreparedStatement { query, param_oids });
            stmt_cache.set_pending(String::new(), pending);
            None
        },
        Message::Bind { portal, statement, format_codes, params_raw } => {
            match stmt_cache.get_statement(statement.as_str()) {
                Some(stmt) => Some(
                    BindRequest {
                        portal,
                        query: stmt.query.clone(),
                        param_oids: copy_oids(&stmt.param_oids),
                        format_codes,
                        params_raw,
                    },
                ),
                None => {
                    let mut query = "[unknown: ".to_owned();
                    query.append(statement.as_str());
                    query.append("]");
                    let pending = PendingExecution {
                        query,
                        params: untyped_params(&params_raw),
                        params_incomplete: true,
                        started_at: now,
                    };
                    stmt_cache.set_pending(portal, pending);
                    None
                },
            }
        },
        Message::Query { query } => {
            let pending = PendingExecution {
                query,
                params: Vec::new(),
                params_incomplete: false,
                started_at: now,
            };
            assert(pending@.params =~= Seq::empty());
            stmt_cache.set_pending(String::new(), pending);
            None
        },
        Message::Close { kind, name } => {
            if kind == 'S' {
                stmt_cache.remove_statement(name.as_str());
            } else if kind == 'P' {
                stmt_cache.clear_pending(name.as_str());
            }
            None
        },
        Message::Other => None,
    }
}

/// What is to be done about a client's message.
#[derive(Debug)]
pub enum ClientStep {
    /// Nothing more.
    Accepted,
    /// Its parameters are to be decoded and handed to `bind`.
    Bind(BindRequest),
    /// It is refused: these bytes go to the client.
    Refused(Vec<u8>),
    /// It came in one read with a message that was refused, and is dropped.
    Dropped,
}

/// What is to be done about data of the backend.
#[derive(Debug, Clone, Copy, PartialEq, Eq, Structural)]
pub enum BackendStep {
    /// It goes to the client.
    Forward,
    /// It goes to the client, and the connection back to the manager; another
    /// one is acquired, which is to be the sticky one where `needs_sticky` says so.
    ForwardAndRelease { needs_sticky: bool },
}

/// What is to be done when no connection could be had.
#[derive(Debug)]
pub enum AcquireResponse {
    /// The client's connection is closed.
    Close,
    /// The client is told, and its connection is closed.
    SendAndClose(Vec<u8>),
    /// The connection fails, with this error.
    Fail(String),
}

/// What is to be done with startup data of the backend.
#[derive(Debug, Clone, Copy, PartialEq, Eq, Structural)]
pub enum StartupStep {
    /// More has to be read.
    Read,
    /// It goes to the client, and more has to be read.
    ForwardAndRead,
    /// It goes to the client, and the startup is complete.
    ForwardAndFinish,
    /// The backend closed the connection during startup.
    Closed,
}

/// The state of a client's connection.
#[verifier::ext_equal]
pub struct HandlerState {
    /// What the client has left behind in its session.
    pub session: connection_state::SessionState,
    /// Its statements and executions.
    pub cache: cache::CacheState,
    /// Where it stands with respect to transactions.
    pub transaction: TransactionState,
    /// Whether a message of the current read was refused.
    pub refused: bool,
}

/// The pooling mode of a strategy.
pub open spec fn mode_of(strategy: PoolingStrategy) -> PoolingMode {
    match strategy {
        PoolingStrategy::Disabled | PoolingStrategy::Session => PoolingMode::Session,
        PoolingStrategy::Transaction => PoolingMode::Transaction,
        PoolingStrategy::Hybrid => PoolingMode::Hybrid,
    }
}

/// Whether a connection is handed back after a transaction.
pub open spec fn releases(
    strategy: PoolingStrategy,
    session: connection_state::SessionState,
) -> bool {
    match strategy {
        PoolingStrategy::Disabled | PoolingStrategy::Session => false,
        PoolingStrategy::Transaction => true,
        PoolingStrategy::Hybrid => !session.pinned(),
    }
}

/// What is done with backend data that reports the state `next`, when the
/// session stood in `state` before.
pub open spec fn backend_step(
    strategy: PoolingStrategy,
    session: connection_state::SessionState,
    state: TransactionState,
    next: TransactionState,
) -> BackendStep {
    if state != TransactionState::Idle && next == TransactionState::Idle && releases(
        strategy,
        session,
    ) {
        BackendStep::ForwardAndRelease { needs_sticky: session.pinned() }
    } else {
        BackendStep::Forward
    }
}

/// The executions after backend data: data that holds an error or the end of a
/// query ends the one that was begun last.
pub open spec fn after_answer(
    pending: Map<Seq<char>, PendingExecution>,
    failed: bool,
    complete: bool,
) -> Map<Seq<char>, PendingExecution> {
    if failed || complete {
        pending.remove(Seq::empty())
    } else {
        pending
    }
}

/// The ReadyForQuery message that reports a state.
pub open spec fn ready_message(state: TransactionState) -> Seq<u8> {
    wire::message(wire::TAG_READY, seq![transaction::status_of(state)])
}

/// Why a message is refused, if it is.
pub open spec fn message_refusal(
    mode: PoolingMode,
    state: TransactionState,
    msg: Message,
) -> Option<Seq<char>> {
    match msg {
        Message::Parse { name, query, param_oids } => mode_enforcer::refusal(
            mode,
            command::detect(query@),
            state != TransactionState::Idle,
        ),
        Message::Query { query } => mode_enforcer::refusal(
            mode,
            command::detect(query@),
            state != TransactionState::Idle,
        ),
        _ => None,
    }
}

/// Whether a message is not taken in: it is refused, or it came in one read with
/// one that was.
pub open spec fn kept_out(mode: PoolingMode, s: HandlerState, msg: Message) -> bool {
    s.refused || message_refusal(mode, s.transaction, msg) is Some
}

/// What a client is told of a message that is refused: the error, and that it
/// may go on.
pub open spec fn refusal_reply(why: Seq<char>, state: TransactionState) -> Seq<u8> {
    wire::error_response("ERROR"@, "0A000"@, why, None) + ready_message(state)
}

/// The session after a message.
pub open spec fn session_after(
    s: connection_state::SessionState,
    msg: Message,
) -> connection_state::SessionState {
    match msg {
        Message::Parse { name, query, param_oids } => connection_state::SessionState {
            prepared: s.prepared.insert(name@, (query@, param_oids@)),
            ..s
        },
        Message::Query { query } => s.after(command::classify(query@)),
        Message::Close { kind, name } => if kind == 'S' {
            connection_state::SessionState { prepared: s.prepared.remove(name@), ..s }
        } else {
            s
        },
        _ => s,
    }
}

/// Handles one client's connection.
#[derive(Debug)]
pub struct ConnectionHandler {
    strategy: PoolingStrategy,
    txn_tracker: TransactionTracker,
    conn_state: ConnectionState,
    stmt_cache: PreparedStatementCache,
    anonymization: AnonymizationSettings,
    connection_id: String,
    database: String,
    refused: bool,
}

impl ConnectionHandler {
    /// The state of the connection.
    pub closed spec fn view(&self) -> HandlerState {
        HandlerState {
            session: self.conn_state@,
            cache: self.stmt_cache@,
            transaction: self.txn_tracker@,
            refused: self.refused,
        }
    }

    /// How connections are pooled.
    pub closed spec fn pooling(&self) -> PoolingStrategy {
        self.strategy
    }

    /// What events may show.
    pub closed spec fn policy(&self) -> AnonymizationSettings {
        self.anonymization
    }

    /// The connection's id in events.
    pub closed spec fn id(&self) -> Seq<char> {
        self.connection_id@
    }

    /// The database in events.
    pub closed spec fn db(&self) -> Seq<char> {
        self.database@
    }

    /// How many statements are cached at most.
    pub closed spec fn capacity(&self) -> nat {
        self.stmt_cache.capacity()
    }

    /// Each name is held once.
    pub closed spec fn names_once(&self) -> bool {
        self.conn_state.names_once() && self.stmt_cache.names_once()
    }

    /// Session and cache are consistent.
    pub open spec fn wf(&self) -> bool {
        &&& self.names_once()
        &&& self@.session.finite()
        &&& self@.cache.wf()
    }

    /// Whether the settings are those of `other`.
    pub open spec fn same_settings(&self, other: &Self) -> bool {
        &&& self.pooling() == other.pooling()
        &&& self.policy() == other.policy()
        &&& self.id() == other.id()
        &&& self.db() == other.db()
        &&& self.capacity() == other.capacity()
    }

    /// A connection that has just completed its startup.
    pub fn new(
        connection_id: u64,
        database: String,
        strategy: PoolingStrategy,
        max_prepared_statements: usize,
        anonymization: AnonymizationSettings,
    ) -> (r: Self)
        ensures
            r.wf(),
            r.pooling() == strategy,
            r.policy() == anonymization,
            r.id() == text::decimal(connection_id as nat),
            r.db() == database@,
            r.capacity() == max_prepared_statements,
            r@ == (HandlerState {
                session: connection_state::SessionState::clean(),
                cache: cache::CacheState::empty(),
                transaction: TransactionState::Idle,
                refused: false,
            }),
    {
        ConnectionHandler {
            strategy,
            txn_tracker: TransactionTracker::new(),
            conn_state: ConnectionState::new(max_prepared_statements),
            stmt_cache: PreparedStatementCache::new(max_prepared_statements),
            anonymization,
            connection_id: text::decimal_of(connection_id),
            database,
            refused: false,
        }
    }

    /// The pooling mode of a strategy.
    pub fn pooling_mode(strategy: &PoolingStrategy) -> (r: PoolingMode)
        ensures
            r == mode_of(*strategy),
    {
        match strategy {
            PoolingStrategy::Disabled | PoolingStrategy::Session => PoolingMode::Session,
            PoolingStrategy::Transaction => PoolingMode::Transaction,
            PoolingStrategy::Hybrid => PoolingMode::Hybrid,
        }
    }

    /// Whether a connection is handed back after a transaction.
    pub fn should_release_connection(
        strategy: &PoolingStrategy,
        conn_state: &ConnectionState,
    ) -> (r: bool)
        requires
            conn_state.wf(),
        ensures
            r == releases(*strategy, conn_state@),
    {
        match strategy {
            PoolingStrategy::Disabled | PoolingStrategy::Session => false,
            PoolingStrategy::Transaction => true,
            PoolingStrategy::Hybrid => !conn_state.is_pinned(),
        }
    }

    /// What a client is told when every place in the queue is taken.
    pub fn build_queue_full_error(retry_hint_ms: u64) -> (r: Vec<u8>)
        ensures
            r@ == queue_full_error(retry_hint_ms),
    {
        let mut hint = "Server is under load. Please retry in ".to_owned();
        hint.append(text::decimal_of(retry_hint_ms).as_str());
        hint.append("ms.");
        wire::build_error(
            "ERROR",
            "53300",
            "connection pool queue is full",
            Some(hint.as_str()),
        )
    }

    /// What a client is told when no connection came free in time.
    pub fn build_wait_timeout_error() -> (r: Vec<u8>)
        ensures
            r@ == wait_timeout_error(),
    {
        wire::build_error(
            "ERROR",
            "53300",
            "timeout waiting for connection from pool",
            Some("Server is under load. Please retry later."),
        )
    }

    /// The ReadyForQuery message that reports a state.
    pub fn build_ready_for_query(state: TransactionState) -> (r: Vec<u8>)
        ensures
            r@ == ready_message(state),
    {
        let status: u8 = match state {
            TransactionState::Idle => transaction::STATUS_IDLE,
            TransactionState::InTransaction => transaction::STATUS_IN_TRANSACTION,
            TransactionState::InError => transaction::STATUS_IN_ERROR,
        };
        let mut body: Vec<u8> = Vec::new();
        body.push(status);
        assert(body@ =~= seq![transaction::status_of(state)]);
        wire::build_message(wire::TAG_READY, body.as_slice())
    }

    /// What is to be done when no connection could be had.
    pub fn handle_acquire_error(
        error: AcquireError,
        mode: BackpressureMode,
        retry_hint_ms: u64,
    ) -> (r: AcquireResponse)
        ensures
            match error {
                AcquireError::PoolError(e) => r matches AcquireResponse::Fail(m) && m@
                    == "Failed to acquire connection from pool: "@ + e@,
                AcquireError::QueueFull(_) => if mode == BackpressureMode::RetryHint {
                    r matches AcquireResponse::SendAndClose(b) && b@ == queue_full_error(
                        retry_hint_ms,
                    )
                } else {
                    r is Close
                },
                AcquireError::WaitTimeout => if mode == BackpressureMode::RetryHint {
                    r matches AcquireResponse::SendAndClose(b) && b@ == wait_timeout_error()
                } else {
                    r is Close
                },
            },
            (match r {
                AcquireResponse::SendAndClose(b) => Some(b@),
                _ => None,
            }) == told(error, mode, retry_hint_ms),
    {
        match error {
            AcquireError::PoolError(e) => {
                let mut m = "Failed to acquire connection from pool: ".to_owned();
                m.append(e.as_str());
                AcquireResponse::Fail(m)
            },
            AcquireError::QueueFull(_) => match mode {
                BackpressureMode::RetryHint => AcquireResponse::SendAndClose(
                    Self::build_queue_full_error(retry_hint_ms),
                ),
                BackpressureMode::RejectImmediate
                | BackpressureMode::LogAndReject => AcquireResponse::Close,
            },
            AcquireError::WaitTimeout => match mode {
                BackpressureMode::RetryHint => AcquireResponse::SendAndClose(
                    Self::build_wait_timeout_error(),
                ),
                BackpressureMode::RejectImmediate
                | BackpressureMode::LogAndReject => AcquireResponse::Close,
            },
        }
    }

    /// What is to be done with the data that was left over when the backend
    /// had authenticated the proxy, when `ready` says whether it holds a
    /// ReadyForQuery message.
    pub fn startup_leftover(data: &[u8], ready: bool) -> (r: StartupStep)
        ensures
            r == if data@.len() == 0 {
                StartupStep::Read
            } else if ready {
                StartupStep::ForwardAndFinish
            } else {
                StartupStep::ForwardAndRead
            },
    {
        if data.len() == 0 {
            StartupStep::Read
        } else if ready {
            StartupStep::ForwardAndFinish
        } else {
            StartupStep::ForwardAndRead
        }
    }

    /// What is to be done with startup data that was read, when `ready` says
    /// whether it holds a ReadyForQuery message.
    pub fn startup_read(data: &[u8], ready: bool) -> (r: StartupStep)
        ensures
            r == if data@.len() == 0 {
                StartupStep::Closed
            } else if ready {
                StartupStep::ForwardAndFinish
            } else {
                StartupStep::ForwardAndRead
            },
    {
        if data.len() == 0 {
            StartupStep::Closed
        } else if ready {
            StartupStep::ForwardAndFinish
        } else {
            StartupStep::ForwardAndRead
        }
    }

    /// Messages of one read of the client follow.
    pub fn begin_read(&mut self)
        requires
            old(self).wf(),
        ensures
            final(self).wf(),
            final(self).same_settings(old(self)),
            final(self)@ == (HandlerState { refused: false, ..old(self)@ }),
    {
        self.refused = false;
    }

    /// Whether what was read goes to the backend: unless a message was refused.
    pub fn should_forward(&self) -> (r: bool)
        ensures
            r == !self@.refused,
    {
        !self.refused
    }

    /// Whether a query is refused; if so, what the client is told.
    fn refuse(&self, query: &str) -> (r: Option<Vec<u8>>)
        requires
            self.wf(),
        ensures
            ({
                let why = mode_enforcer::refusal(
                    mode_of(self.pooling()),
                    command::detect(query@),
                    self@.transaction != TransactionState::Idle,
                );
                match why {
                    Some(w) => r matches Some(b) && b@ == refusal_reply(w, self@.transaction),
                    None => r is None,
                }
            }),
    {
        let enforcer = ModeEnforcer::new(Self::pooling_mode(&self.strategy));
        match enforcer.validate(query, self.txn_tracker.is_in_transaction()) {
            Ok(()) => None,
            Err(why) => {
                let mut reply = ModeEnforcer::build_error_response(why.as_str());
                let ready = Self::build_ready_for_query(self.txn_tracker.state());
                reply.extend_from_slice(ready.as_slice());
                assert(reply@ =~= refusal_reply(why@, self@.transaction));
                Some(reply)
            },
        }
    }

    /// Take in a client's message at `now`.
    pub fn client_message(&mut self, msg: Message, now: Instant) -> (r: ClientStep)
        requires
            old(self).wf(),
        ensures
            final(self).wf(),
            final(self).same_settings(old(self)),
            final(self)@.transaction == old(self)@.transaction,
            if old(self)@.refused {
                r is Dropped && final(self)@ == old(self)@
            } else {
                match message_refusal(
                    mode_of(old(self).pooling()),
                    old(self)@.transaction,
                    msg,
                ) {
                    Some(why) => {
                        &&& r matches ClientStep::Refused(b)
                        &&& b@ == refusal_reply(why, old(self)@.transaction)
                        &&& final(self)@ == (HandlerState { refused: true, ..old(self)@ })
                    },
                    None => {
                        &&& !final(self)@.refused
                        &&& final(self)@.session == session_after(old(self)@.session, msg)
                        &&& noted(
                            old(self)@.cache,
                            final(self)@.cache,
                            msg,
                            old(self).capacity(),
                            now,
                        )
                        &&& match r {
                            ClientStep::Bind(b) => requested(old(self)@.cache, msg, Some(b)),
                            ClientStep::Accepted => requested(old(self)@.cache, msg, None),
                            _ => false,
                        }
                    },
                }
            },
            final(self)@.refused == kept_out(mode_of(old(self).pooling()), old(self)@, msg),
            (r is Accepted || r is Bind) <==> !kept_out(
                mode_of(old(self).pooling()),
                old(self)@,
                msg,
            ),
    {
        if self.refused {
            return ClientStep::Dropped;
        }
        match &msg {
            Message::Parse { name, query, param_oids } => {
                if let Some(reply) = self.refuse(query.as_str()) {
                    self.refused = true;
                    return ClientStep::Refused(reply);
                }
                self.conn_state.add_prepared_statement(
                    name.clone(),
                    query.clone(),
                    copy_oids(param_oids),
                );
            },
            Message::Query { query } => {
                if let Some(reply) = self.refuse(query.as_str()) {
                    self.refused = true;
                    return ClientStep::Refused(reply);
                }
                self.conn_state.apply_query(query.as_str());
            },
            Message::Close { kind, name } => {
                if *kind == 'S' {
                    self.conn_state.remove_prepared_statement(name.as_str());
                }
            },
            Message::Bind { .. } | Message::Other => {},
        }
        match note_message(&mut self.stmt_cache, msg, now) {
            Some(b) => ClientStep::Bind(b),
            None => ClientStep::Accepted,
        }
    }

    /// Take in the parameters of a Bind message, once they are decoded.
    pub fn bind(&mut self, portal: String, query: String, params: Vec<ParamValue>, now: Instant)
        requires
            old(self).wf(),
        ensures
            final(self).wf(),
            final(self).same_settings(old(self)),
            final(self)@ == (HandlerState {
                cache: cache::CacheState {
                    pending: final(self)@.cache.pending,
                    ..old(self)@.cache
                },
                ..old(self)@
            }),
            pends(
                old(self)@.cache.pending,
                final(self)@.cache.pending,
                portal@,
                cache::Pending {
                    query: query@,
                    params: params::views(params@),
                    params_incomplete: false,
                    started_at: now,
                },
            ),
    {
        let pending = PendingExecution {
            query,
            params,
            params_incomplete: false,
            started_at: now,
        };
        self.stmt_cache.set_pending(portal, pending);
    }

    /// The execution that the backend's data ends, if any: data that holds an
    /// error or the end of a query ends the one that was begun last.
    pub fn finished(&mut self, failed: bool, complete: bool) -> (r: Option<PendingExecution>)
        requires
            old(self).wf(),
        ensures
            final(self).wf(),
            final(self).same_settings(old(self)),
            if failed || complete {
                &&& final(self)@ == (HandlerState {
                    cache: cache::CacheState {
                        pending: old(self)@.cache.pending.remove(Seq::empty()),
                        ..old(self)@.cache
                    },
                    ..old(self)@
                })
                &&& r is Some <==> old(self)@.cache.pending.dom().contains(Seq::empty())
                &&& r matches Some(p) ==> p == old(self)@.cache.pending[Seq::empty()]
            } else {
                r is None && final(self)@ == old(self)@
            },
            final(self)@.cache.pending == after_answer(
                old(self)@.cache.pending,
                failed,
                complete,
            ),
    {
        if failed || complete {
            proof {
                reveal_strlit("");
                assert(""@ =~= Seq::empty());
            }
            self.stmt_cache.take_pending("")
        } else {
            None
        }
    }

    /// What is reported of an execution that ended after `duration`. `error`
    /// is the backend's error and its scrubbed form, where it failed;
    /// `anonymized` is what the anonymizer made of the query.
    pub fn report(
        &self,
        pending: PendingExecution,
        error: Option<(String, Option<String>)>,
        anonymized: Option<AnonymizedQuery>,
        duration: Duration,
    ) -> (r: Option<(QueryReport, Vec<String>)>)
        ensures
            reported(
                self.policy(),
                pending,
                error,
                anonymized,
                duration,
                self.id(),
                self.db(),
                r,
            ),
    {
        report_execution(
            &self.anonymization,
            pending,
            error,
            anonymized,
            duration,
            self.connection_id.as_str(),
            self.database.as_str(),
        )
    }

    /// What is to be done with backend data, when `ready` is the status of the
    /// ReadyForQuery message in it, if there is one. The connection is handed
    /// back when a transaction has just ended and the strategy allows it.
    pub fn backend_data(&mut self, ready: Option<u8>) -> (r: BackendStep)
        requires
            old(self).wf(),
        ensures
            final(self).wf(),
            final(self).same_settings(old(self)),
            match ready {
                None => r == BackendStep::Forward && final(self)@ == old(self)@,
                Some(status) => {
                    let next = transaction::next_state(old(self)@.transaction, status);
                    &&& final(self)@ == (HandlerState { transaction: next, ..old(self)@ })
                    &&& r == if old(self)@.transaction != TransactionState::Idle && next
                        == TransactionState::Idle && releases(
                        old(self).pooling(),
                        old(self)@.session,
                    ) {
                        BackendStep::ForwardAndRelease { needs_sticky: old(self)@.session.pinned() }
                    } else {
                        BackendStep::Forward
                    }
                    &&& r == backend_step(
                        old(self).pooling(),
                        old(self)@.session,
                        old(self)@.transaction,
                        next,
                    )
                },
            },
    {
        match ready {
            None => BackendStep::Forward,
            Some(status) => {
                let was_in_transaction = self.txn_tracker.is_in_transaction();
                self.txn_tracker.update_from_ready_for_query(status);
                if was_in_transaction && self.txn_tracker.is_idle()
                    && Self::should_release_connection(&self.strategy, &self.conn_state) {
                    BackendStep::ForwardAndRelease { needs_sticky: self.conn_state.is_pinned() }
                } else {
                    BackendStep::Forward
                }
            },
        }
    }

    /// What is to be set up on a connection that was acquired anew, if
    /// anything: the session's statements and variables, where the connection
    /// is not the one that holds them and nothing else is held.
    pub fn state_to_replay(&self, connection_is_pinned: bool) -> (r: Option<ReplayableState>)
        requires
            self.wf(),
        ensures
            r is Some <==> replays(self@.session, connection_is_pinned),
            r matches Some(s) ==> s.wf() && s.variables() == self@.session.variables && s.holds(
                self@.session.prepared,
            ),
    {
        if self.conn_state.is_pinned() && !connection_is_pinned
            && !self.conn_state.has_unsafe_state() {
            Some(self.conn_state.get_replayable_state())
        } else {
            None
        }
    }

    /// The session could not be set up on another connection: it holds nothing.
    pub fn replay_failed(&mut self)
        requires
            old(self).wf(),
        ensures
            final(self).wf(),
            final(self).same_settings(old(self)),
            final(self)@ == (HandlerState {
                session: connection_state::SessionState::clean(),
                ..old(self)@
            }),
    {
        self.conn_state.clear_all();
    }

    /// Whether the client must keep its connection.
    pub fn is_pinned(&self) -> (r: bool)
        requires
            self.wf(),
        ensures
            r == self@.session.pinned(),
    {
        self.conn_state.is_pinned()
    }
}

/// What a client is told when every place in the queue is taken.
pub open spec fn queue_full_error(retry_hint_ms: u64) -> Seq<u8> {
    wire::error_response(
        "ERROR"@,
        "53300"@,
        "connection pool queue is full"@,
        Some(
            "Server is under load. Please retry in "@ + text::decimal(retry_hint_ms as nat)
                + "ms."@,
        ),
    )
}

/// What a client is told when no connection came free in time.
pub open spec fn wait_timeout_error() -> Seq<u8> {
    wire::error_response(
        "ERROR"@,
        "53300"@,
        "timeout waiting for connection from pool"@,
        Some("Server is under load. Please retry later."@),
    )
}

/// What a client is told that could not get a connection, if anything.
pub open spec fn told(
    error: AcquireError,
    mode: BackpressureMode,
    retry_hint_ms: u64,
) -> Option<Seq<u8>> {
    match error {
        AcquireError::PoolError(_) => None,
        AcquireError::QueueFull(_) => if mode == BackpressureMode::RetryHint {
            Some(queue_full_error(retry_hint_ms))
        } else {
            None
        },
        AcquireError::WaitTimeout => if mode == BackpressureMode::RetryHint {
            Some(wait_timeout_error())
        } else {
            None
        },
    }
}

/// The error as an event may show it.
pub open spec fn shown_error(
    enabled: bool,
    error: Option<(String, Option<String>)>,
) -> Option<Seq<char>> {
    match error {
        Some((full, scrubbed)) => if enabled {
            event::text_view(scrubbed)
        } else {
            Some(full@)
        },
        None => None,
    }
}

/// Whether a session is set up again on a connection: where it holds
/// statements or variables and nothing else, and the connection is not the one
/// that has them.
pub open spec fn replays(
    session: connection_state::SessionState,
    connection_is_pinned: bool,
) -> bool {
    session.pinned() && !connection_is_pinned && !session.has_unsafe()
}

/// A connection without the pool: it belongs to the client, so nothing is
/// refused, and only statements and executions are tracked.
#[derive(Debug)]
pub struct DirectHandler {
    stmt_cache: PreparedStatementCache,
    anonymization: AnonymizationSettings,
    connection_id: String,
    database: String,
}

impl DirectHandler {
    /// Its statements and executions.
    pub closed spec fn view(&self) -> cache::CacheState {
        self.stmt_cache@
    }

    /// What events may show.
    pub closed spec fn policy(&self) -> AnonymizationSettings {
        self.anonymization
    }

    /// The connection's id in events.
    pub closed spec fn id(&self) -> Seq<char> {
        self.connection_id@
    }

    /// The database in events.
    pub closed spec fn db(&self) -> Seq<char> {
        self.database@
    }

    /// How many statements are cached at most.
    pub closed spec fn capacity(&self) -> nat {
        self.stmt_cache.capacity()
    }

    /// Each name is held once.
    pub closed spec fn names_once(&self) -> bool {
        self.stmt_cache.names_once()
    }

    /// The cache is consistent.
    pub open spec fn wf(&self) -> bool {
        self.names_once() && self@.wf()
    }

    /// Whether the settings are those of `other`.
    pub open spec fn same_settings(&self, other: &Self) -> bool {
        &&& self.policy() == other.policy()
        &&& self.id() == other.id()
        &&& self.db() == other.db()
        &&& self.capacity() == other.capacity()
    }

    /// A connection that has just completed its startup.
    pub fn new(
        connection_id: u64,
        database: String,
        max_prepared_statements: usize,
        anonymization: AnonymizationSettings,
    ) -> (r: Self)
        ensures
            r.wf(),
            r.policy() == anonymization,
            r.id() == text::decimal(connection_id as nat),
            r.db() == database@,
            r.capacity() == max_prepared_statements,
            r@ == cache::CacheState::empty(),
    {
        DirectHandler {
            stmt_cache: PreparedStatementCache::new(max_prepared_statements),
            anonymization,
            connection_id: text::decimal_of(connection_id),
            database,
        }
    }

    /// Take in a client's message at `now`.
    pub fn client_message(&mut self, msg: Message, now: Instant) -> (r: Option<BindRequest>)
        requires
            old(self).wf(),
        ensures
            final(self).wf(),
            final(self).same_settings(old(self)),
            noted(old(self)@, final(self)@, msg, old(self).capacity(), now),
            requested(old(self)@, msg, r),
    {
        note_message(&mut self.stmt_cache, msg, now)
    }

    /// Take in the parameters of a Bind message, once they are decoded.
    pub fn bind(&mut self, portal: String, query: String, params: Vec<ParamValue>, now: Instant)
        requires
            old(self).wf(),
        ensures
            final(self).wf(),
            final(self).same_settings(old(self)),
            final(self)@ == (cache::CacheState { pending: final(self)@.pending, ..old(self)@ }),
            pends(
                old(self)@.pending,
                final(self)@.pending,
                portal@,
                cache::Pending {
                    query: query@,
                    params: params::views(params@),
                    params_incomplete: false,
                    started_at: now,
                },
            ),
    {
        let pending = PendingExecution {
            query,
            params,
            params_incomplete: false,
            started_at: now,
        };
        self.stmt_cache.set_pending(portal, pending);
    }

    /// The execution that the backend's data ends, if any.
    pub fn finished(&mut self, failed: bool, complete: bool) -> (r: Option<PendingExecution>)
        requires
            old(self).wf(),
        ensures
            final(self).wf(),
            final(self).same_settings(old(self)),
            if failed || complete {
                &&& final(self)@ == (cache::CacheState {
                    pending: old(self)@.pending.remove(Seq::empty()),
                    ..old(self)@
                })
                &&& r is Some <==> old(self)@.pending.dom().contains(Seq::empty())
                &&& r matches Some(p) ==> p == old(self)@.pending[Seq::empty()]
            } else {
                r is None && final(self)@ == old(self)@
            },
            final(self)@.pending == after_answer(old(self)@.pending, failed, complete),
    {
        if failed || complete {
            proof {
                reveal_strlit("");
                assert(""@ =~= Seq::empty());
            }
            self.stmt_cache.take_pending("")
        } else {
            None
        }
    }

    /// What is reported of an execution that ended after `duration`.
    pub fn report(
        &self,
        pending: PendingExecution,
        error: Option<(String, Option<String>)>,
        anonymized: Option<AnonymizedQuery>,
        duration: Duration,
    ) -> (r: Option<(QueryReport, Vec<String>)>)
        ensures
            reported(
                self.policy(),
                pending,
                error,
                anonymized,
                duration,
                self.id(),
                self.db(),
                r,
            ),
    {
        report_execution(
            &self.anonymization,
            pending,
            error,
            anonymized,
            duration,
            self.connection_id.as_str(),
            self.database.as_str(),
        )
    }
}

/// Whether `r` is what is reported of an execution.
pub open spec fn reported(
    policy: AnonymizationSettings,
    pending: PendingExecution,
    error: Option<(String, Option<String>)>,
    anonymized: Option<AnonymizedQuery>,
    duration: Duration,
    connection_id: Seq<char>,
    database: Seq<char>,
    r: Option<(QueryReport, Vec<String>)>,
) -> bool {
    let shown = event::shown(policy.enabled, policy.parse_failure, pending.query@, anonymized);
    &&& r is Some <==> shown is Some
    &&& r matches Some((e, fingerprints)) ==> {
        &&& event::texts_view(fingerprints@) == shown->0.fingerprints
        &&& e@ == event::event_of(
            shown->0,
            event::shown_params(policy.enabled, params::views(pending.params@)),
            pending.params_incomplete,
            duration,
            error is None,
            shown_error(policy.enabled, error),
            connection_id,
            database,
        )
    }
}

/// What is reported of an execution that ended after `duration`.
fn report_execution(
    policy: &AnonymizationSettings,
    pending: PendingExecution,
    error: Option<(String, Option<String>)>,
    anonymized: Option<AnonymizedQuery>,
    duration: Duration,
    connection_id: &str,
    database: &str,
) -> (r: Option<(QueryReport, Vec<String>)>)
    ensures
        reported(
            *policy,
            pending,
            error,
            anonymized,
            duration,
            connection_id@,
            database@,
            r,
        ),
{
    let success = error.is_none();
    let error_field = match error {
        Some((full, scrubbed)) => policy.error_field(scrubbed, full),
        None => None,
    };
    policy.build_event(
        pending.query.as_str(),
        anonymized,
        pending.params,
        pending.params_incomplete,
        duration,
        success,
        error_field,
        connection_id,
        database,
    )
}

/// With anonymization on, the event of an execution shows nothing of the text
/// of its query, the values of its parameters or the text of its error but
/// what the anonymizer made of the query, the types of the parameters and the
/// scrubbed error: where these are the same, so is the event.
pub proof fn law_anonymized_event_hides_literals(
    parse_failure: ParseFailureMode,
    anonymized: Option<AnonymizedQuery>,
    scrubbed: Option<String>,
    a: (Seq<char>, Seq<params::Param>, String),
    b: (Seq<char>, Seq<params::Param>, String),
    params_incomplete: bool,
    duration: Duration,
    connection_id: Seq<char>,
    database: Seq<char>,
)
    requires
        a.1.len() == b.1.len(),
        forall|i: int| 0 <= i < a.1.len() ==> params::same_type(#[trigger] a.1[i], b.1[i]),
    ensures
        event::shown(true, parse_failure, a.0, anonymized) == event::shown(
            true,
            parse_failure,
            b.0,
            anonymized,
        ),
        event::shown(true, parse_failure, a.0, anonymized) matches Some(s) ==> event::event_of(
            s,
            event::shown_params(true, a.1),
            params_incomplete,
            duration,
            false,
            shown_error(true, Some((a.2, scrubbed))),
            connection_id,
            database,
        ) == event::event_of(
            s,
            event::shown_params(true, b.1),
            params_incomplete,
            duration,
            false,
            shown_error(true, Some((b.2, scrubbed))),
            connection_id,
            database,
        ),
{
    event::law_query_text_is_hidden(parse_failure, a.0, b.0, anonymized);
    event::law_parameter_values_are_hidden(a.1, b.1);
}

/// A session that is set up again holds statements or variables.
pub proof fn law_replay_is_never_empty(s: connection_state::SessionState)
    requires
        replays(s, false),
    ensures
        s.prepared != Map::<Seq<char>, (Seq<char>, Seq<u32>)>::empty() || s.variables != Map::<
            Seq<char>,
            Seq<char>,
        >::empty(),
        s.temp_tables == Set::<Seq<char>>::empty(),
        s.cursors == Set::<Seq<char>>::empty(),
        s.locks == Set::<i64>::empty(),
        s.channels == Set::<Seq<char>>::empty(),
        !s.unknown,
{
    let x = s.reasons();
    let r = choose|r: connection_state::PinReason| #[trigger] x.contains(r);
    assert(!x.contains(connection_state::PinReason::TempTable));
    assert(!x.contains(connection_state::PinReason::Cursor));
    assert(!x.contains(connection_state::PinReason::AdvisoryLock));
    assert(!x.contains(connection_state::PinReason::Listen));
    assert(!x.contains(connection_state::PinReason::UnknownCommand));
}

/// In hybrid mode a connection whose session holds state is never handed back,
/// in session mode none is.
pub proof fn law_pinned_connection_is_kept(s: connection_state::SessionState)
    ensures
        s.pinned() ==> !releases(PoolingStrategy::Hybrid, s),
        !releases(PoolingStrategy::Session, s),
        !releases(PoolingStrategy::Disabled, s),
        releases(PoolingStrategy::Transaction, s),
{
}

/// A refused message is answered with an error and an invitation to go on, in
/// that order, and each is a whole message.
pub proof fn law_refusal_is_two_messages(why: Seq<char>, state: TransactionState)
    requires
        wire::error_body("ERROR"@, "0A000"@, why, None).len() + 4 < 0x1_0000_0000,
    ensures
        ({
            let reply = refusal_reply(why, state);
            let first = wire::be32_at(reply, 1) + 1;
            &&& reply[0] == wire::TAG_ERROR
            &&& 5 <= first < reply.len()
            &&& reply.subrange(0, first) == wire::error_response("ERROR"@, "0A000"@, why, None)
            &&& reply.subrange(first, reply.len() as int) == ready_message(state)
            &&& ready_message(state) == seq![
                wire::TAG_READY,
                0,
                0,
                0,
                5,
                transaction::status_of(state),
            ]
        }),
{
    let body = wire::error_body("ERROR"@, "0A000"@, why, None);
    let e = wire::error_response("ERROR"@, "0A000"@, why, None);
    let z = ready_message(state);
    let reply = refusal_reply(why, state);
    wire::lemma_message_length(wire::TAG_ERROR, body);
    assert(reply[0] == e[0]);
    assert(wire::be32_at(reply, 1) == wire::be32_at(e, 1));
    assert(reply.subrange(0, e.len() as int) =~= e);
    assert(reply.subrange(e.len() as int, reply.len() as int) =~= z);
    assert(z =~= seq![wire::TAG_READY, 0, 0, 0, 5, transaction::status_of(state)]);
}

/// A statement is refused in the same cases and for the same reason, whether it
/// comes in a Query or in a Parse message, whatever the Parse message names.
/// In transaction mode temporary tables, cursors `WITH HOLD` and advisory locks
/// are refused in every state, variables while the session is idle, and nothing
/// else; in the other modes nothing is.
pub proof fn law_statements_are_refused_alike(
    mode: PoolingMode,
    state: TransactionState,
    name: String,
    query: String,
    param_oids: Vec<u32>,
)
    ensures
        message_refusal(mode, state, Message::Parse { name, query, param_oids })
            == message_refusal(mode, state, Message::Query { query }),
        message_refusal(mode, state, Message::Parse { name, query, param_oids })
            == mode_enforcer::refusal(
            mode,
            command::detect(query@),
            state != TransactionState::Idle,
        ),
        message_refusal(mode, state, Message::Parse { name, query, param_oids }) is Some <==> mode
            == PoolingMode::Transaction && match command::detect(query@) {
            Some(command::Command::SetVariable { .. }) => state == TransactionState::Idle,
            Some(command::Command::CreateTempTable { .. }) => true,
            Some(command::Command::DeclareCursor { with_hold, .. }) => with_hold,
            Some(command::Command::AdvisoryLock { .. }) => true,
            _ => false,
        },
{
}

/// Messages that bring no statement are never refused.
pub proof fn law_only_statements_are_refused(
    mode: PoolingMode,
    state: TransactionState,
    portal: String,
    statement: String,
    format_codes: Vec<i16>,
    params_raw: Vec<Option<Vec<u8>>>,
    kind: char,
    name: String,
)
    ensures
        message_refusal(
            mode,
            state,
            Message::Bind { portal, statement, format_codes, params_raw },
        ) is None,
        message_refusal(mode, state, Message::Close { kind, name }) is None,
        message_refusal(mode, state, Message::Other) is None,
{
}

/// A refused statement is answered with an error that says why, and with the
/// state that the session was in.
pub proof fn law_refusal_says_why(why: Seq<char>, state: TransactionState)
    ensures
        refusal_reply(why, state) == wire::message(
            wire::TAG_ERROR,
            seq![0x53u8] + wire::utf8("ERROR"@) + seq![0u8, 0x43u8] + wire::utf8("0A000"@) + seq![
                0u8,
                0x4du8,
            ] + wire::utf8(why) + seq![0u8, 0u8],
        ) + seq![
            0x5au8,
            0u8,
            0u8,
            0u8,
            5u8,
            match state {
                TransactionState::Idle => 0x49u8,
                TransactionState::InTransaction => 0x54u8,
                TransactionState::InError => 0x45u8,
            },
        ],
{
    wire::law_error_names_its_fields("ERROR"@, "0A000"@, why, Seq::empty());
    wire::lemma_message_length(wire::TAG_READY, seq![transaction::status_of(state)]);
    assert(ready_message(state) =~= seq![
        0x5au8,
        0u8,
        0u8,
        0u8,
        5u8,
        transaction::status_of(state),
    ]);
}

/// A statement that is prepared is held with its query and types until it is
/// closed; preparing and closing touch no other statement and nothing else that
/// the session holds.
pub proof fn law_prepared_statement_is_held_until_closed(
    s: connection_state::SessionState,
    name: String,
    query: String,
    param_oids: Vec<u32>,
    other: Seq<char>,
)
    requires
        other != name@,
    ensures
        ({
            let t = session_after(s, Message::Parse { name, query, param_oids });
            let u = session_after(t, Message::Close { kind: 'S', name });
            &&& t == (connection_state::SessionState { prepared: t.prepared, ..s })
            &&& t.prepared.dom() == s.prepared.dom().insert(name@)
            &&& t.prepared[name@] == (query@, param_oids@)
            &&& t.prepared[other] == s.prepared[other]
            &&& t.pinned()
            &&& t.reasons().contains(connection_state::PinReason::PreparedStatement)
            &&& u == (connection_state::SessionState { prepared: u.prepared, ..s })
            &&& u.prepared.dom() == s.prepared.dom().remove(name@)
            &&& s.prepared.dom().contains(other) ==> u.prepared[other] == s.prepared[other]
            &&& !s.prepared.dom().contains(name@) ==> u == s
        }),
{
    let t = session_after(s, Message::Parse { name, query, param_oids });
    let u = session_after(t, Message::Close { kind: 'S', name });
    assert(t.prepared.dom() =~= s.prepared.dom().insert(name@));
    assert(u.prepared.dom() =~= s.prepared.dom().remove(name@));
    assert(t.prepared.dom().contains(name@));
    assert(t.reasons().contains(connection_state::PinReason::PreparedStatement));
    if !s.prepared.dom().contains(name@) {
        assert(u.prepared =~= s.prepared);
    }
}

/// A command does to the session what its class says; closing a statement is
/// the same as deallocating it. Portals, parameters and anything else leave the
/// session as it is.
pub proof fn law_what_messages_do_to_the_session(
    s: connection_state::SessionState,
    query: String,
    kind: char,
    name: String,
    portal: String,
    statement: String,
    format_codes: Vec<i16>,
    params_raw: Vec<Option<Vec<u8>>>,
)
    ensures
        command::classify(query@) is Clean ==> session_after(s, Message::Query { query }) == s,
        command::classify(query@) is Unknown ==> session_after(s, Message::Query { query }) == (
        connection_state::SessionState { unknown: true, ..s }),
        command::classify(query@) matches command::Class::Stateful(c) ==> session_after(
            s,
            Message::Query { query },
        ) == s.after_command(c),
        session_after(s, Message::Close { kind: 'S', name }) == s.after_command(
            command::Command::Deallocate { name: name@ },
        ),
        kind != 'S' ==> session_after(s, Message::Close { kind, name }) == s,
        session_after(s, Message::Bind { portal, statement, format_codes, params_raw }) == s,
        session_after(s, Message::Other) == s,
{
}

/// A Query message begins an execution of its command that needs no parameters,
/// and leaves statements and other executions alone.
pub proof fn law_query_begins_an_execution(
    old: cache::CacheState,
    new: cache::CacheState,
    query: String,
    capacity: nat,
    now: Instant,
    portal: Seq<char>,
)
    requires
        noted(old, new, Message::Query { query }, capacity, now),
        portal != Seq::<char>::empty(),
    ensures
        new.statements == old.statements,
        new.order == old.order,
        new.pending.dom() == old.pending.dom().insert(Seq::empty()),
        new.pending[Seq::empty()].query@ == query@,
        new.pending[Seq::empty()].params@.len() == 0,
        !new.pending[Seq::empty()].params_incomplete,
        new.pending[Seq::empty()].started_at == now,
        new.pending[portal] == old.pending[portal],
{
    let e = new.pending[Seq::<char>::empty()];
    assert(e@.params.len() == e.params@.len());
    assert(new.pending.dom() =~= old.pending.dom().insert(Seq::empty()));
}

/// A Parse message prepares its statement, and begins an execution of it whose
/// parameters are not known yet.
pub proof fn law_parse_prepares_its_statement(
    old: cache::CacheState,
    new: cache::CacheState,
    name: String,
    query: String,
    param_oids: Vec<u32>,
    capacity: nat,
    now: Instant,
    portal: Seq<char>,
)
    requires
        old.wf(),
        noted(old, new, Message::Parse { name, query, param_oids }, capacity, now),
        portal != Seq::<char>::empty(),
    ensures
        new.statements.dom().contains(name@),
        new.statements[name@].query@ == query@,
        new.statements[name@].param_oids@ == param_oids@,
        new.order.last() == name@,
        old.statements.dom().len() < capacity ==> new.statements.dom() == old.statements.dom().insert(
            name@,
        ),
        new.pending.dom() == old.pending.dom().insert(Seq::empty()),
        new.pending[Seq::empty()].query@ == query@,
        new.pending[Seq::empty()].params@.len() == 0,
        new.pending[Seq::empty()].params_incomplete,
        new.pending[Seq::empty()].started_at == now,
        new.pending[portal] == old.pending[portal],
{
    let stmt = PreparedStatement { query, param_oids };
    cache::law_insert_then_get(old, name@, stmt, capacity);
    if old.statements.dom().len() < capacity {
        cache::law_nothing_is_evicted_below_size(old, name@, stmt, capacity);
        assert(new.statements.dom() =~= old.statements.dom().insert(name@));
    }
    let e = new.pending[Seq::<char>::empty()];
    assert(e@.params.len() == e.params@.len());
    assert(new.pending.dom() =~= old.pending.dom().insert(Seq::empty()));
}

/// A Bind message for a statement that was parsed asks to decode its parameters
/// by that statement's query and types, and counts as a use of it. No other
/// message asks for anything.
pub proof fn law_bind_uses_what_was_parsed(
    a: cache::CacheState,
    b: cache::CacheState,
    c: cache::CacheState,
    parse: (String, String, Vec<u32>),
    portal: String,
    statement: String,
    format_codes: Vec<i16>,
    params_raw: Vec<Option<Vec<u8>>>,
    capacity: nat,
    t: Instant,
    u: Instant,
    r: Option<BindRequest>,
)
    requires
        a.wf(),
        statement@ == parse.0@,
        noted(
            a,
            b,
            Message::Parse { name: parse.0, query: parse.1, param_oids: parse.2 },
            capacity,
            t,
        ),
        noted(b, c, Message::Bind { portal, statement, format_codes, params_raw }, capacity, u),
        requested(b, Message::Bind { portal, statement, format_codes, params_raw }, r),
    ensures
        r matches Some(q) && q.portal@ == portal@ && q.query@ == parse.1@ && q.param_oids@
            == parse.2@ && q.format_codes@ == format_codes@ && q.params_raw@ == params_raw@,
        c.statements == b.statements,
        c.pending == b.pending,
        c.order.last() == statement@,
{
    cache::law_insert_then_get(
        a,
        parse.0@,
        PreparedStatement { query: parse.1, param_oids: parse.2 },
        capacity,
    );
}

/// Only a Bind message for a statement that is known asks for parameters.
pub proof fn law_only_known_binds_are_decoded(
    s: cache::CacheState,
    msg: Message,
    r: Option<BindRequest>,
)
    requires
        requested(s, msg, r),
    ensures
        r is Some <==> (msg is Bind && s.statements.dom().contains(msg->statement@)),
{
}

/// A Bind message for a statement that is not known begins an execution that
/// names the statement and shows each parameter by its bytes; statements and
/// other executions stay as they are.
pub proof fn law_unknown_bind_keeps_the_bytes(
    old: cache::CacheState,
    new: cache::CacheState,
    portal: String,
    statement: String,
    format_codes: Vec<i16>,
    params_raw: Vec<Option<Vec<u8>>>,
    capacity: nat,
    now: Instant,
    i: int,
    other: Seq<char>,
)
    requires
        noted(
            old,
            new,
            Message::Bind { portal, statement, format_codes, params_raw },
            capacity,
            now,
        ),
        !old.statements.dom().contains(statement@),
        0 <= i < params_raw@.len(),
        other != portal@,
    ensures
        new.statements == old.statements,
        new.order == old.order,
        new.pending.dom() == old.pending.dom().insert(portal@),
        new.pending[other] == old.pending[other],
        new.pending[portal@].query@ == "[unknown: "@ + statement@ + "]"@,
        new.pending[portal@].params_incomplete,
        new.pending[portal@].started_at == now,
        new.pending[portal@].params@.len() == params_raw@.len(),
        match params_raw@[i] {
            Some(data) => new.pending[portal@].params@[i]@ == (params::Param::Unknown {
                oid: 0,
                data: data@,
            }),
            None => new.pending[portal@].params@[i]@ == params::Param::Null,
        },
{
    let e = new.pending[portal@];
    assert(e@.params.len() == e.params@.len());
    assert(e@.params[i] == e.params@[i]@);
    assert(new.pending.dom() =~= old.pending.dom().insert(portal@));
}

/// Closing a statement forgets that statement alone, closing a portal its
/// execution alone; anything else that is closed, and any other message, changes
/// nothing.
pub proof fn law_closing_forgets_what_it_names(
    old: cache::CacheState,
    new: cache::CacheState,
    kind: char,
    name: String,
    capacity: nat,
    now: Instant,
)
    requires
        noted(old, new, Message::Close { kind, name }, capacity, now),
    ensures
        kind == 'S' ==> new.statements == old.statements.remove(name@) && new.pending
            == old.pending,
        kind == 'P' ==> new.statements == old.statements && new.order == old.order && new.pending
            == old.pending.remove(name@),
        kind != 'S' && kind != 'P' ==> new == old,
        noted(old, new, Message::Other, capacity, now) <==> new == old,
{
}

/// A backend connection is handed back only when a transaction has just ended,
/// and there always in transaction mode, in hybrid mode exactly where the
/// session holds nothing, and otherwise never.
pub proof fn law_connection_is_handed_back_after_a_transaction(
    strategy: PoolingStrategy,
    s: connection_state::SessionState,
    state: TransactionState,
    next: TransactionState,
)
    ensures
        backend_step(strategy, s, state, next) is ForwardAndRelease <==> {
            &&& state != TransactionState::Idle
            &&& next == TransactionState::Idle
            &&& (strategy == PoolingStrategy::Transaction || (strategy == PoolingStrategy::Hybrid
                && s.reasons() == Set::<connection_state::PinReason>::empty()))
        },
        backend_step(strategy, s, state, next) matches BackendStep::ForwardAndRelease {
            needs_sticky,
        } ==> (needs_sticky <==> s.reasons() != Set::<connection_state::PinReason>::empty()),
{
    connection_state::law_only_statements_and_variables_are_replayed(s);
}

/// Transaction and hybrid strategies enforce the mode of their name, the others
/// enforce nothing.
pub proof fn law_modes_of_strategies(strategy: PoolingStrategy)
    ensures
        mode_of(strategy) == PoolingMode::Transaction <==> strategy
            == PoolingStrategy::Transaction,
        mode_of(strategy) == PoolingMode::Hybrid <==> strategy == PoolingStrategy::Hybrid,
        releases(strategy, connection_state::SessionState::clean()) <==> mode_of(strategy)
            != PoolingMode::Session,
{
    let s = connection_state::SessionState::clean();
    assert(s.reasons() =~= Set::<connection_state::PinReason>::empty());
    assert(!s.pinned());
}

/// A session is set up on another connection exactly where statements or
/// variables are all that it holds; on the connection that has them never.
pub proof fn law_when_a_session_is_replayed(s: connection_state::SessionState)
    ensures
        replays(s, false) <==> {
            &&& s.reasons() != Set::<connection_state::PinReason>::empty()
            &&& !s.reasons().contains(connection_state::PinReason::TempTable)
            &&& !s.reasons().contains(connection_state::PinReason::Cursor)
            &&& !s.reasons().contains(connection_state::PinReason::AdvisoryLock)
            &&& !s.reasons().contains(connection_state::PinReason::Listen)
            &&& !s.reasons().contains(connection_state::PinReason::UnknownCommand)
        },
        !replays(s, true),
{
    connection_state::law_only_statements_and_variables_are_replayed(s);
}

/// An event shows the full error without anonymization and the scrubbed one
/// with it; of an execution without an error it shows none.
pub proof fn law_which_error_is_shown(full: String, scrubbed: Option<String>, enabled: bool)
    ensures
        shown_error(false, Some((full, scrubbed))) == Some(full@),
        shown_error(true, Some((full, scrubbed))) == event::text_view(scrubbed),
        shown_error(enabled, None) is None,
{
}

/// What is reported of an execution: without anonymization its query, parameters
/// and error as they came; in any case whether it failed, how long it took, and
/// on which connection and database it ran.
pub proof fn law_execution_is_reported(
    policy: AnonymizationSettings,
    pending: PendingExecution,
    error: Option<(String, Option<String>)>,
    anonymized: Option<AnonymizedQuery>,
    duration: Duration,
    connection_id: Seq<char>,
    database: Seq<char>,
    r: Option<(QueryReport, Vec<String>)>,
)
    requires
        reported(
            policy,
            pending,
            error,
            anonymized,
            duration,
            connection_id,
            database,
            r,
        ),
    ensures
        r is None <==> policy.enabled && anonymized is None && policy.parse_failure
            == ParseFailureMode::Drop,
        r matches Some((e, fingerprints)) ==> {
            &&& e.success <==> error is None
            &&& e.error is Some ==> error is Some
            &&& e.duration == duration
            &&& e.connection_id@ == connection_id
            &&& e.database@ == database
            &&& e.params_incomplete == pending.params_incomplete
            &&& e.params@.len() == pending.params@.len()
            &&& !policy.enabled ==> {
                &&& e.query@ == pending.query@
                &&& e.normalized_query is None
                &&& params::views(e.params@) == params::views(pending.params@)
                &&& fingerprints@.len() == 0
                &&& error matches Some((full, _)) ==> (e.error matches Some(t) && t@ == full@)
            }
        },
{
    if let Some((e, fingerprints)) = r {
        assert(e@.params.len() == e.params@.len());
        assert(params::views(pending.params@).len() == pending.params@.len());
        assert(event::texts_view(fingerprints@).len() == fingerprints@.len());
    }
}

/// Data of the backend ends the execution that was begun last exactly where it
/// holds an error or the end of a query, and it ends no other.
pub proof fn law_answers_end_executions(
    pending: Map<Seq<char>, PendingExecution>,
    failed: bool,
    complete: bool,
    portal: Seq<char>,
)
    requires
        portal.len() > 0,
    ensures
        after_answer(pending, failed, complete).dom().contains(Seq::empty())
            <==> pending.dom().contains(Seq::empty()) && !failed && !complete,
        after_answer(pending, failed, complete).dom().contains(portal) == pending.dom().contains(
            portal,
        ),
        pending.dom().contains(portal) ==> after_answer(pending, failed, complete)[portal]
            == pending[portal],
        after_answer(pending, false, false) == pending,
{
}

/// A client that could not get a connection is told so exactly where retry hints
/// are given and it was the load that kept it out. A full queue is told with the
/// time after which to come back, and differently from a wait that was too long.
pub proof fn law_clients_are_told_of_load(
    error: AcquireError,
    mode: BackpressureMode,
    retry_hint_ms: u64,
)
    ensures
        told(error, mode, retry_hint_ms) is Some <==> mode == BackpressureMode::RetryHint
            && error !is PoolError,
        told(error, mode, retry_hint_ms) is Some ==> told(error, mode, retry_hint_ms)
            == Some(
            wire::error_response(
                "ERROR"@,
                "53300"@,
                if error is QueueFull {
                    "connection pool queue is full"@
                } else {
                    "timeout waiting for connection from pool"@
                },
                Some(
                    if error is QueueFull {
                        "Server is under load. Please retry in "@ + text::decimal(
                            retry_hint_ms as nat,
                        ) + "ms."@
                    } else {
                        "Server is under load. Please retry later."@
                    },
                ),
            ),
        ),
{
}

/// Once a message of a read was refused, no other message of that read is taken
/// in, whatever it is; where none was, a message is kept out exactly where it is
/// refused itself.
pub proof fn law_a_refused_read_is_dropped(
    mode: PoolingMode,
    s: HandlerState,
    first: Message,
    later: Message,
)
    requires
        message_refusal(mode, s.transaction, first) is Some,
    ensures
        kept_out(mode, s, first),
        kept_out(mode, HandlerState { refused: true, ..s }, later),
        kept_out(mode, HandlerState { refused: false, ..s }, later) <==> message_refusal(
            mode,
            s.transaction,
            later,
        ) is Some,
{
}

/// A startup is complete exactly with data that holds a ReadyForQuery message;
/// whatever data there is goes to the client, and only a read that brings none
/// means that the backend is gone.
pub proof fn law_startup_ends_when_the_backend_is_ready(
    data: &[u8],
    ready: bool,
    left: StartupStep,
    read: StartupStep,
)
    requires
        call_ensures(ConnectionHandler::startup_leftover, (data, ready), left),
        call_ensures(ConnectionHandler::startup_read, (data, ready), read),
    ensures
        left == StartupStep::ForwardAndFinish <==> data@.len() > 0 && ready,
        read == StartupStep::ForwardAndFinish <==> data@.len() > 0 && ready,
        data@.len() > 0 ==> left == read,
        data@.len() > 0 && !ready ==> read == StartupStep::ForwardAndRead,
        data@.len() == 0 ==> left == StartupStep::Read && read == StartupStep::Closed,
{
}

/// Two clients in the same state that send the same statement, one in a Query
/// and one in a Parse message, are both refused, with the same answer, or both
/// not. In transaction pooling they are refused for a temporary table, a cursor
/// `WITH HOLD`, an advisory lock, and a variable outside a transaction.
pub proof fn law_query_and_parse_are_answered_alike(
    a: &mut ConnectionHandler,
    b: &mut ConnectionHandler,
    name: String,
    query: String,
    param_oids: Vec<u32>,
    t: Instant,
    u: Instant,
    answer_a: ClientStep,
    answer_b: ClientStep,
)
    requires
        old(a)@ == old(b)@,
        old(a).pooling() == old(b).pooling(),
        !old(a)@.refused,
        call_ensures(
            ConnectionHandler::client_message,
            (a, Message::Query { query }, t),
            answer_a,
        ),
        call_ensures(
            ConnectionHandler::client_message,
            (b, Message::Parse { name, query, param_oids }, u),
            answer_b,
        ),
    ensures
        answer_a is Refused <==> answer_b is Refused,
        answer_a matches ClientStep::Refused(x) ==> (answer_b matches ClientStep::Refused(y) && x@
            == y@),
        answer_a is Refused <==> old(a).pooling() == PoolingStrategy::Transaction
            && match command::detect(query@) {
            Some(command::Command::SetVariable { .. }) => old(a)@.transaction
                == TransactionState::Idle,
            Some(command::Command::CreateTempTable { .. }) => true,
            Some(command::Command::DeclareCursor { with_hold, .. }) => with_hold,
            Some(command::Command::AdvisoryLock { .. }) => true,
            _ => false,
        },
        answer_a is Refused ==> {
            &&& final(a)@ == (HandlerState { refused: true, ..old(a)@ })
            &&& final(b)@ == (HandlerState { refused: true, ..old(b)@ })
        },
        answer_a !is Refused ==> answer_a is Accepted && answer_b is Accepted,
{
}

/// A message that follows a refused one in the same read is dropped, and leaves
/// no trace; the next read begins afresh.
pub proof fn law_refusal_lasts_for_a_read(
    h: &mut ConnectionHandler,
    msg: Message,
    now: Instant,
    answer: ClientStep,
    next: &mut ConnectionHandler,
)
    requires
        old(h)@.refused,
        call_ensures(ConnectionHandler::client_message, (h, msg, now), answer),
        call_ensures(ConnectionHandler::begin_read, (next,), ()),
    ensures
        answer is Dropped,
        final(h)@ == old(h)@,
        !final(next)@.refused,
        final(next)@.session == old(next)@.session,
        final(next)@.cache == old(next)@.cache,
        final(next)@.transaction == old(next)@.transaction,
{
}

/// The connection is handed back only with a report that the session has become
/// idle; data without a report changes nothing, and a report changes nothing but
/// where the session stands.
pub proof fn law_connection_goes_back_when_idle(
    h: &mut ConnectionHandler,
    ready: Option<u8>,
    step: BackendStep,
)
    requires
        call_ensures(ConnectionHandler::backend_data, (h, ready), step),
    ensures
        step is ForwardAndRelease ==> old(h)@.transaction != TransactionState::Idle
            && final(h)@.transaction == TransactionState::Idle && ready == Some(0x49u8) && (
        old(h).pooling() == PoolingStrategy::Transaction || old(h).pooling()
            == PoolingStrategy::Hybrid),
        step is ForwardAndRelease && old(h).pooling() == PoolingStrategy::Hybrid
            ==> old(h)@.session.reasons() == Set::<connection_state::PinReason>::empty(),
        old(h)@.transaction != TransactionState::Idle && ready == Some(0x49u8) && old(h).pooling()
            == PoolingStrategy::Transaction ==> step is ForwardAndRelease,
        ready is None ==> step == BackendStep::Forward && final(h)@ == old(h)@,
        final(h)@.session == old(h)@.session,
        final(h)@.cache == old(h)@.cache,
        final(h)@.refused == old(h)@.refused,
{
    connection_state::law_only_statements_and_variables_are_replayed(old(h)@.session);
}

/// The answer to a query ends the execution that the query began, which is the
/// one that is reported; without an error or an end nothing is.
pub proof fn law_answer_ends_the_query(
    h: &mut ConnectionHandler,
    query: String,
    now: Instant,
    step: ClientStep,
    after: &mut ConnectionHandler,
    failed: bool,
    complete: bool,
    r: Option<PendingExecution>,
)
    requires
        call_ensures(ConnectionHandler::client_message, (h, Message::Query { query }, now), step),
        step is Accepted,
        old(after)@ == final(h)@,
        call_ensures(ConnectionHandler::finished, (after, failed, complete), r),
    ensures
        r is Some <==> failed || complete,
        r matches Some(p) ==> p.query@ == query@ && p.params@.len() == 0 && !p.params_incomplete
            && p.started_at == now,
        r is Some ==> !final(after)@.cache.pending.dom().contains(Seq::empty()),
        r is None ==> final(after)@ == old(after)@,
{
    let e = final(h)@.cache.pending[Seq::<char>::empty()];
    assert(final(h)@.cache.pending.dom().contains(Seq::empty()));
    assert(e@.params.len() == e.params@.len());
}

/// A session that could not be set up again holds nothing, so that there is
/// nothing left to set up.
pub proof fn law_failed_replay_leaves_nothing(
    h: &mut ConnectionHandler,
    after: ConnectionHandler,
    pinned: bool,
    r: Option<ReplayableState>,
)
    requires
        call_ensures(ConnectionHandler::replay_failed, (h,), ()),
        after@ == final(h)@,
        call_ensures(ConnectionHandler::state_to_replay, (&after, pinned), r),
    ensures
        final(h)@.session.reasons() == Set::<connection_state::PinReason>::empty(),
        r is None,
        final(h)@.cache == old(h)@.cache,
        final(h)@.transaction == old(h)@.transaction,
{
    assert(final(h)@.session.reasons() =~= Set::<connection_state::PinReason>::empty());
}

} // verus!
