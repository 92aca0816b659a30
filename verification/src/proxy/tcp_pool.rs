//! A pool of backend connections: when it may be asked, which of its errors
//! are worth another try, and what becomes of a connection that is returned.
use crate::resilience::circuit_breaker;
use crate::resilience::circuit_breaker::{CircuitBreaker, HealthStatus};
use crate::text;
use vstd::prelude::*;
use vstd::string::*;

verus! {

/// The error of a pool of the `deadpool` crate. Nothing is known of what it holds.
#[verifier::external_type_specification]
#[verifier::external_body]
#[verifier::reject_recursive_types(E)]
pub struct ExPoolError<E>(deadpool::managed::PoolError<E>);

/// An error of the `anyhow` crate. Nothing is known of what it holds.
#[verifier::external_type_specification]
#[verifier::external_body]
pub struct ExAnyhowError(anyhow::Error);

/// What a pool reports.
#[derive(Debug, Clone, Copy, PartialEq, Eq, Structural)]
pub enum PoolErrorKind {
    /// Something took too long.
    Timeout,
    /// A connection could not be made.
    Backend,
    /// The pool is closed.
    Closed,
    /// The pool has no runtime.
    NoRuntimeSpecified,
    /// A hook failed.
    PostCreateHook,
}

/// Which variant of `deadpool::managed::PoolError` an error is.
pub uninterp spec fn pool_error_kind(
    err: deadpool::managed::PoolError<anyhow::Error>,
) -> PoolErrorKind;

/// Tells the variants of `deadpool::managed::PoolError` apart: the result is
/// the kind that has the variant's name.
#[verifier::external_body]
fn kind_of(err: &deadpool::managed::PoolError<anyhow::Error>) -> (r: PoolErrorKind)
    ensures
        r == pool_error_kind(*err),
{
    match err {
        deadpool::managed::PoolError::Timeout(_) => PoolErrorKind::Timeout,
        deadpool::managed::PoolError::Backend(_) => PoolErrorKind::Backend,
        deadpool::managed::PoolError::Closed => PoolErrorKind::Closed,
        deadpool::managed::PoolError::NoRuntimeSpecified => PoolErrorKind::NoRuntimeSpecified,
        deadpool::managed::PoolError::PostCreateHook(_) => PoolErrorKind::PostCreateHook,
    }
}

impl PoolErrorKind {
    /// Whether the error may pass: a connection that could not be made, or
    /// something that took too long.
    pub open spec fn transient(self) -> bool {
        self == PoolErrorKind::Backend || self == PoolErrorKind::Timeout
    }

    /// Whether the error may pass.
    pub fn is_transient(&self) -> (r: bool)
        ensures
            r == self.transient(),
    {
        match self {
            PoolErrorKind::Backend | PoolErrorKind::Timeout => true,
            PoolErrorKind::Closed
            | PoolErrorKind::NoRuntimeSpecified
            | PoolErrorKind::PostCreateHook => false,
        }
    }
}

/// State of a pool.
#[derive(Debug, Clone)]
pub struct PoolStatus {
    /// How many connections there are.
    pub size: usize,
    /// How many of them are not in use.
    pub available: usize,
    /// How many there may be.
    pub max_size: usize,
    /// What the backend speaks.
    pub protocol: String,
    /// The backend's host and port.
    pub backend_addr: String,
}

/// What becomes of a connection that is returned to the pool.
#[derive(Debug)]
pub enum RecycleStep {
    /// Its session is to be reset.
    Reset,
    /// It can be used again.
    Keep,
    /// It is closed, for this reason.
    Discard(String),
}

/// Guards a pool of backend connections.
#[derive(Debug)]
pub struct TcpConnectionPool {
    host: String,
    port: u16,
    protocol: String,
    max_size: usize,
    circuit_breaker: Option<CircuitBreaker>,
    retry_enabled: bool,
}

impl TcpConnectionPool {
    /// The breaker, if there is one.
    pub closed spec fn breaker(&self) -> Option<CircuitBreaker> {
        self.circuit_breaker
    }

    /// Whether failures are worth another try.
    pub closed spec fn retries(&self) -> bool {
        self.retry_enabled
    }

    /// How many connections there may be.
    pub closed spec fn limit(&self) -> usize {
        self.max_size
    }

    /// What the backend speaks.
    pub closed spec fn protocol_name(&self) -> Seq<char> {
        self.protocol@
    }

    /// The backend's host and port.
    pub closed spec fn address(&self) -> Seq<char> {
        backend_address(self.host@, self.port)
    }

    /// The breaker is consistent.
    pub open spec fn wf(&self) -> bool {
        self.breaker() matches Some(b) ==> b.wf()
    }

    /// Whether all but the breaker is that of `other`.
    pub open spec fn same_settings(&self, other: &Self) -> bool {
        &&& self.retries() == other.retries()
        &&& self.limit() == other.limit()
        &&& self.protocol_name() == other.protocol_name()
        &&& self.address() == other.address()
    }

    /// A guard for a pool of at most `max_size` connections to a backend.
    pub fn new(
        host: String,
        port: u16,
        protocol: String,
        max_size: usize,
        circuit_breaker: Option<CircuitBreaker>,
        retry_enabled: bool,
    ) -> (r: Self)
        requires
            circuit_breaker matches Some(b) ==> b.wf(),
        ensures
            r.wf(),
            r.breaker() == circuit_breaker,
            r.retries() == retry_enabled,
            r.limit() == max_size,
            r.protocol_name() == protocol@,
            r.address() == backend_address(host@, port),
    {
        TcpConnectionPool { host, port, protocol, max_size, circuit_breaker, retry_enabled }
    }

    /// Whether the pool may be asked at `now`; if so, whether a failure is
    /// worth another try.
    pub fn begin_get(&mut self, now: u64) -> (r: Result<bool, String>)
        requires
            old(self).wf(),
        ensures
            final(self).wf(),
            final(self).same_settings(old(self)),
            match old(self).breaker() {
                None => r == Ok::<bool, String>(old(self).retries()) && final(self).breaker()
                    is None,
                Some(b) => {
                    &&& final(self).breaker() matches Some(after)
                    &&& after@ == b@.requested(b.settings(), now)
                    &&& after.same_settings(&b)
                    &&& if b@.passes(b.settings(), now) {
                        r == Ok::<bool, String>(old(self).retries())
                    } else {
                        r matches Err(e) && e@ == "Circuit breaker: "@
                            + "Circuit breaker is open, failing fast"@
                    }
                },
            },
    {
        if let Some(mut breaker) = self.circuit_breaker.take() {
            let allowed = breaker.allow_request_at(now);
            self.circuit_breaker = Some(breaker);
            if let Err(e) = allowed {
                let mut m = "Circuit breaker: ".to_owned();
                m.append(e.message().as_str());
                return Err(m);
            }
        }
        Ok(self.retry_enabled)
    }

    /// Take in at `now` whether the pool had a connection.
    pub fn end_get(&mut self, success: bool, now: u64)
        requires
            old(self).wf(),
        ensures
            final(self).wf(),
            final(self).same_settings(old(self)),
            match old(self).breaker() {
                None => final(self).breaker() is None,
                Some(b) => {
                    &&& final(self).breaker() matches Some(after)
                    &&& after.same_settings(&b)
                    &&& after@ == if success {
                        b@.succeeded(b.settings(), now)
                    } else {
                        b@.failed(b.settings(), b.unhealthy(), now)
                    }
                },
            },
    {
        if let Some(mut breaker) = self.circuit_breaker.take() {
            if success {
                breaker.record_success_at(now);
            } else {
                breaker.record_failure_at(now);
            }
            self.circuit_breaker = Some(breaker);
        }
    }

    /// Take in at `now` a probe of the backend.
    pub fn report_health(&mut self, healthy: bool, now: u64)
        requires
            old(self).wf(),
        ensures
            final(self).wf(),
            final(self).same_settings(old(self)),
            match old(self).breaker() {
                None => final(self).breaker() is None,
                Some(b) => {
                    &&& final(self).breaker() matches Some(after)
                    &&& after.same_settings(&b)
                    &&& after@ == b@.probed(healthy, now)
                },
            },
    {
        if let Some(mut breaker) = self.circuit_breaker.take() {
            breaker.report_health_at(healthy, now);
            self.circuit_breaker = Some(breaker);
        }
    }

    /// Take in what the health monitor says of the backend.
    pub fn set_health_status(&mut self, status: HealthStatus)
        requires
            old(self).wf(),
        ensures
            final(self).wf(),
            final(self).same_settings(old(self)),
            match old(self).breaker() {
                None => final(self).breaker() is None,
                Some(b) => {
                    &&& final(self).breaker() matches Some(after)
                    &&& after.settings() == b.settings()
                    &&& after@ == b@
                    &&& after.monitor() == match b.monitor() {
                        Some(_) => Some(circuit_breaker::HealthMonitor { status }),
                        None => None,
                    }
                },
            },
    {
        if let Some(mut breaker) = self.circuit_breaker.take() {
            breaker.set_health_status(status);
            self.circuit_breaker = Some(breaker);
        }
    }

    /// Whether an error of the pool is worth another try: a connection that
    /// could not be made, or something that took too long, but not a closed
    /// pool or one that is set up wrongly.
    pub fn pool_error_is_retryable(
        err: &deadpool::managed::PoolError<anyhow::Error>,
    ) -> (r: bool)
        ensures
            r == pool_error_kind(*err).transient(),
    {
        kind_of(err).is_transient()
    }

    /// State of the pool, when it has `size` connections of which `available`
    /// are not in use.
    pub fn status(&self, size: usize, available: usize) -> (r: PoolStatus)
        ensures
            r.size == size,
            r.available == available,
            r.max_size == self.limit(),
            r.protocol@ == self.protocol_name(),
            r.backend_addr@ == self.address(),
    {
        let mut backend_addr = self.host.clone();
        backend_addr.append(":");
        backend_addr.append(text::decimal_of(self.port as u64).as_str());
        PoolStatus {
            size,
            available,
            max_size: self.max_size,
            protocol: self.protocol.clone(),
            backend_addr,
        }
    }

    /// How many connections were made, when `results` says of each whether it was.
    pub fn warmed_up(results: &Vec<bool>) -> (r: usize)
        ensures
            r == results@.filter(|made: bool| made).len(),
    {
        let mut created: usize = 0;
        let mut i: usize = 0;
        let ghost is_made = |made: bool| made;
        assert(results@.take(0).filter(is_made).len() == 0) by {
            results@.take(0).lemma_filter_len_push(is_made, false);
            reveal(Seq::filter);
        }
        while i < results.len()
            invariant
                is_made == (|made: bool| made),
                i <= results@.len(),
                created <= i,
                created == results@.take(i as int).filter(is_made).len(),
            decreases results.len() - i,
        {
            let ghost shorter = results@.take(i as int);
            proof {
                assert(results@.take(i + 1) =~= shorter.push(results@[i as int]));
                shorter.lemma_filter_len_push(is_made, results@[i as int]);
            }
            if results[i] {
                created += 1;
            }
            i += 1;
        }
        assert(results@.take(i as int) =~= results@);
        created
    }

    /// What becomes of a returned connection after a health check.
    pub fn health_checked(encrypted: bool, healthy: Result<bool, String>) -> (r: RecycleStep)
        ensures
            match healthy {
                Ok(true) => r is Reset,
                Ok(false) => r matches RecycleStep::Discard(m) && m@ == if encrypted {
                    "TLS connection failed health check"@
                } else {
                    "Connection failed health check"@
                },
                Err(e) => r == RecycleStep::Discard(e),
            },
    {
        match healthy {
            Ok(true) => RecycleStep::Reset,
            Ok(false) => {
                if encrypted {
                    RecycleStep::Discard("TLS connection failed health check".to_owned())
                } else {
                    RecycleStep::Discard("Connection failed health check".to_owned())
                }
            },
            Err(e) => RecycleStep::Discard(e),
        }
    }

    /// What becomes of a returned connection after its session was to be reset.
    pub fn session_reset(encrypted: bool, reset: Result<bool, String>) -> (r: RecycleStep)
        ensures
            match reset {
                Ok(true) => r is Keep,
                Ok(false) => r matches RecycleStep::Discard(m) && m@ == if encrypted {
                    "TLS protocol does not support connection reset"@
                } else {
                    "Protocol does not support connection reset"@
                },
                Err(e) => r == RecycleStep::Discard(e),
            },
    {
        match reset {
            Ok(true) => RecycleStep::Keep,
            Ok(false) => {
                if encrypted {
                    RecycleStep::Discard(
                        "TLS protocol does not support connection reset".to_owned(),
                    )
                } else {
                    RecycleStep::Discard("Protocol does not support connection reset".to_owned())
                }
            },
            Err(e) => RecycleStep::Discard(e),
        }
    }
}

/// A backend's host and port.
pub open spec fn backend_address(host: Seq<char>, port: u16) -> Seq<char> {
    host + ":"@ + text::decimal(port as nat)
}

/// A pool is not asked again while its breaker is open: after as many failures
/// in a row as the threshold says, the next request at a time before the
/// timeout is over does not reach the pool.
pub proof fn law_failing_backend_is_shed(
    s: circuit_breaker::BreakerState,
    config: circuit_breaker::CircuitBreakerConfig,
    at: spec_fn(int) -> u64,
    now: u64,
)
    requires
        config.enabled,
        s.state == circuit_breaker::CircuitState::Closed,
        s.failures == 0,
        0 < config.failure_threshold,
        circuit_breaker::elapsed(
            now,
            circuit_breaker::failures_at(s, config, at, config.failure_threshold as nat).opened_at,
        ) < config.open_timeout_secs,
    ensures
        !circuit_breaker::failures_at(s, config, at, config.failure_threshold as nat).passes(
            config,
            now,
        ),
{
    circuit_breaker::law_opens_at_the_threshold(s, config, at, config.failure_threshold as nat);
}

/// An error may pass exactly where a connection could not be made or something
/// took too long: a closed pool stays closed, and one that is set up wrongly
/// stays so.
pub proof fn law_which_errors_may_pass(kind: PoolErrorKind)
    ensures
        kind.transient() <==> kind != PoolErrorKind::Closed && kind
            != PoolErrorKind::NoRuntimeSpecified && kind != PoolErrorKind::PostCreateHook,
{
}

/// A connection that is returned is used again only after its health was checked
/// and its session was reset, both with success; otherwise it is closed, and an
/// error is handed on as the reason.
pub proof fn law_returned_connections_are_checked_and_reset(
    encrypted: bool,
    outcome: Result<bool, String>,
    checked: RecycleStep,
    reset: RecycleStep,
)
    requires
        call_ensures(TcpConnectionPool::health_checked, (encrypted, outcome), checked),
        call_ensures(TcpConnectionPool::session_reset, (encrypted, outcome), reset),
    ensures
        checked is Reset <==> outcome == Ok::<bool, String>(true),
        checked !is Keep,
        reset is Keep <==> outcome == Ok::<bool, String>(true),
        reset !is Reset,
        outcome matches Err(e) ==> checked == RecycleStep::Discard(e) && reset
            == RecycleStep::Discard(e),
{
}

/// The pool is asked exactly where its breaker, if it has one, lets requests
/// pass; what came of it counts for the breaker.
pub proof fn law_breaker_guards_the_pool(
    p: &mut TcpConnectionPool,
    now: u64,
    r: Result<bool, String>,
    q: &mut TcpConnectionPool,
    success: bool,
)
    requires
        call_ensures(TcpConnectionPool::begin_get, (p, now), r),
        call_ensures(TcpConnectionPool::end_get, (q, success, now), ()),
    ensures
        old(p).breaker() is None ==> r is Ok,
        old(p).breaker() matches Some(b) ==> (r is Err <==> b.settings().enabled && b@.state
            == circuit_breaker::CircuitState::Open && circuit_breaker::elapsed(now, b@.opened_at)
            < b.settings().open_timeout_secs),
        r matches Ok(retry) ==> retry == old(p).retries(),
        old(q).breaker() matches Some(b) ==> {
            &&& final(q).breaker() matches Some(c)
            &&& b.settings().enabled && b@.state == circuit_breaker::CircuitState::HalfOpen
                && !success ==> c@.state == circuit_breaker::CircuitState::Open && c@.opened_at
                == now
            &&& b.settings().enabled && b@.state == circuit_breaker::CircuitState::Closed && success
                ==> c@.state == circuit_breaker::CircuitState::Closed && c@.failures == 0
        },
{
}

} // verus!
