//! A circuit breaker.
//!
//! - Closed to open: so many failures in a row as the threshold says, or a
//!   failure while the health monitor reports the backend unhealthy, or an
//!   unhealthy probe.
//! - Open to half-open: a request after the open timeout, or a healthy probe.
//! - Half-open to closed: so many successes in a row as the threshold says.
//! - Half-open to open: any failure, or an unhealthy probe.
use crate::counters;
use crate::resilience::errors::CircuitBreakerError;
use crate::time;
use crate::time::unix_seconds;
use std::time::SystemTime;
use vstd::prelude::*;

verus! {

/// State of a breaker.
#[derive(Debug, Clone, Copy, PartialEq, Eq, Structural)]
pub enum CircuitState {
    /// Requests pass.
    Closed,
    /// Requests fail at once.
    Open,
    /// Requests pass, to find out whether the backend has recovered.
    HalfOpen,
}

/// The state that a number stands for; closed for one that stands for none.
pub open spec fn state_of(value: u8) -> CircuitState {
    if value == 1 {
        CircuitState::Open
    } else if value == 2 {
        CircuitState::HalfOpen
    } else {
        CircuitState::Closed
    }
}

impl From<u8> for CircuitState {
    fn from(value: u8) -> (r: Self) {
        if value == 1 {
            CircuitState::Open
        } else if value == 2 {
            CircuitState::HalfOpen
        } else {
            CircuitState::Closed
        }
    }
}

impl vstd::std_specs::convert::FromSpecImpl<u8> for CircuitState {
    open spec fn obeys_from_spec() -> bool {
        true
    }

    open spec fn from_spec(value: u8) -> Self {
        state_of(value)
    }
}

impl CircuitState {
    /// The state's name.
    pub open spec fn name(self) -> Seq<char> {
        match self {
            CircuitState::Closed => "closed"@,
            CircuitState::Open => "open"@,
            CircuitState::HalfOpen => "half_open"@,
        }
    }

    /// The state's name.
    pub fn as_str(&self) -> (r: &'static str)
        ensures
            r@ == self.name(),
    {
        match self {
            CircuitState::Closed => "closed",
            CircuitState::Open => "open",
            CircuitState::HalfOpen => "half_open",
        }
    }
}

/// Settings of a breaker.
#[derive(Debug, Clone, Copy)]
pub struct CircuitBreakerConfig {
    pub enabled: bool,
    /// After how many failures in a row the breaker opens.
    pub failure_threshold: u32,
    /// After how many successes in a row a half-open breaker closes.
    pub success_threshold: u32,
    /// For how many seconds failures are counted together.
    pub window_secs: u64,
    /// After how many seconds an open breaker lets a request pass.
    pub open_timeout_secs: u64,
    /// Whether a failure opens the breaker when the monitor reports the
    /// backend unhealthy.
    pub use_health_monitor: bool,
}

/// What a health monitor reports.
#[derive(Debug, Clone, Copy, PartialEq, Eq, Structural)]
pub enum HealthStatus {
    Healthy,
    Degraded,
    Unhealthy,
}

/// The last report of a health monitor.
#[derive(Debug, Clone, Copy)]
pub struct HealthMonitor {
    pub status: HealthStatus,
}

/// Counts of a breaker.
#[derive(Debug, Clone)]
pub struct CircuitBreakerMetrics {
    pub state: String,
    pub consecutive_failures: u32,
    pub consecutive_successes: u32,
    pub failure_count_in_window: u32,
    pub requests_allowed: u64,
    pub requests_rejected: u64,
    pub last_state_change_secs: u64,
}

/// Time from `since` to `now`; none where the clock went back.
pub open spec fn elapsed(now: u64, since: u64) -> int {
    if now >= since {
        now - since
    } else {
        0
    }
}

/// What a breaker holds. Times are in seconds.
pub struct BreakerState {
    pub state: CircuitState,
    /// Failures in a row.
    pub failures: u32,
    /// Successes in a row, while half-open.
    pub successes: u32,
    /// Failures in the current window.
    pub window_failures: u32,
    pub allowed: u64,
    pub rejected: u64,
    pub window_start: u64,
    /// When the breaker was last opened.
    pub opened_at: u64,
    /// When the state last changed.
    pub changed_at: u64,
}

impl BreakerState {
    /// A breaker that is closed at `now`.
    pub open spec fn initial(now: u64) -> BreakerState {
        BreakerState {
            state: CircuitState::Closed,
            failures: 0,
            successes: 0,
            window_failures: 0,
            allowed: 0,
            rejected: 0,
            window_start: now,
            opened_at: 0,
            changed_at: now,
        }
    }

    /// While closed, the failures in a row are below the threshold; while
    /// half-open, the successes are, and else there are none.
    pub open spec fn wf(self, config: CircuitBreakerConfig) -> bool {
        &&& self.state == CircuitState::Closed ==> self.failures == 0 || self.failures
            < config.failure_threshold
        &&& self.state == CircuitState::HalfOpen ==> self.successes == 0 || self.successes
            < config.success_threshold
        &&& self.state != CircuitState::HalfOpen ==> self.successes == 0
    }

    /// The breaker opens at `now`.
    pub open spec fn opened(self, now: u64) -> BreakerState {
        BreakerState {
            state: CircuitState::Open,
            opened_at: now,
            changed_at: now,
            successes: 0,
            ..self
        }
    }

    /// The breaker closes at `now`.
    pub open spec fn closed(self, now: u64) -> BreakerState {
        BreakerState {
            state: CircuitState::Closed,
            changed_at: now,
            failures: 0,
            successes: 0,
            ..self
        }
    }

    /// The breaker, which is open, becomes half-open at `now`.
    pub open spec fn half_opened(self, now: u64) -> BreakerState {
        BreakerState { state: CircuitState::HalfOpen, changed_at: now, successes: 0, ..self }
    }

    /// A new window begins at `now` if the current one is over.
    pub open spec fn window_at(self, config: CircuitBreakerConfig, now: u64) -> BreakerState {
        if elapsed(now, self.window_start) >= config.window_secs {
            BreakerState { window_start: now, window_failures: 0, ..self }
        } else {
            self
        }
    }

    /// Whether a request passes at `now`.
    pub open spec fn passes(self, config: CircuitBreakerConfig, now: u64) -> bool {
        ||| !config.enabled
        ||| self.state != CircuitState::Open
        ||| elapsed(now, self.opened_at) >= config.open_timeout_secs
    }

    /// The breaker after a request at `now`.
    pub open spec fn requested(self, config: CircuitBreakerConfig, now: u64) -> BreakerState {
        if !config.enabled {
            self
        } else if self.passes(config, now) {
            let s = match self.state {
                CircuitState::Closed => self,
                CircuitState::Open => self.half_opened(now),
                CircuitState::HalfOpen => if self.successes < config.success_threshold {
                    self
                } else {
                    self.closed(now)
                },
            };
            BreakerState { allowed: counters::next64(s.allowed), ..s }
        } else {
            BreakerState { rejected: counters::next64(self.rejected), ..self }
        }
    }

    /// The breaker after a success at `now`.
    pub open spec fn succeeded(self, config: CircuitBreakerConfig, now: u64) -> BreakerState {
        if !config.enabled {
            self
        } else {
            match self.state {
                CircuitState::Closed => BreakerState { failures: 0, ..self },
                CircuitState::HalfOpen => if self.successes + 1 >= config.success_threshold {
                    self.closed(now)
                } else {
                    BreakerState { successes: (self.successes + 1) as u32, ..self }
                },
                CircuitState::Open => self.closed(now),
            }
        }
    }

    /// The breaker after a failure at `now`, when `unhealthy` says whether the
    /// monitor reports the backend unhealthy.
    pub open spec fn failed(
        self,
        config: CircuitBreakerConfig,
        unhealthy: bool,
        now: u64,
    ) -> BreakerState {
        if !config.enabled {
            self
        } else {
            let w = self.window_at(config, now);
            match w.state {
                CircuitState::Closed => {
                    let s = BreakerState {
                        failures: (w.failures + 1) as u32,
                        window_failures: counters::next32(w.window_failures),
                        ..w
                    };
                    if s.failures >= config.failure_threshold || (config.use_health_monitor
                        && unhealthy) {
                        s.opened(now)
                    } else {
                        s
                    }
                },
                CircuitState::HalfOpen => w.opened(now),
                CircuitState::Open => BreakerState {
                    window_failures: counters::next32(w.window_failures),
                    ..w
                },
            }
        }
    }

    /// The breaker after a probe of the backend at `now`.
    pub open spec fn probed(self, healthy: bool, now: u64) -> BreakerState {
        if !healthy && self.state != CircuitState::Open {
            self.opened(now)
        } else if healthy && self.state == CircuitState::Open {
            self.half_opened(now)
        } else {
            self
        }
    }
}

/// Time from `since` to `now`.
fn elapsed_secs(now: u64, since: u64) -> (r: u64)
    ensures
        r == elapsed(now, since),
{
    if now >= since {
        now - since
    } else {
        0
    }
}

/// A circuit breaker. The functions that end in `_at` take the time; the
/// others read the system clock.
#[derive(Debug)]
pub struct CircuitBreaker {
    config: CircuitBreakerConfig,
    state: CircuitState,
    consecutive_failures: u32,
    consecutive_successes: u32,
    failure_count_in_window: u32,
    requests_allowed: u64,
    requests_rejected: u64,
    window_start: u64,
    open_timestamp: u64,
    last_state_change: u64,
    health_monitor: Option<HealthMonitor>,
}

impl CircuitBreaker {
    /// What the breaker holds.
    pub closed spec fn view(&self) -> BreakerState {
        BreakerState {
            state: self.state,
            failures: self.consecutive_failures,
            successes: self.consecutive_successes,
            window_failures: self.failure_count_in_window,
            allowed: self.requests_allowed,
            rejected: self.requests_rejected,
            window_start: self.window_start,
            opened_at: self.open_timestamp,
            changed_at: self.last_state_change,
        }
    }

    /// The settings.
    pub closed spec fn settings(&self) -> CircuitBreakerConfig {
        self.config
    }

    /// The last report of the monitor, if there is one.
    pub closed spec fn monitor(&self) -> Option<HealthMonitor> {
        self.health_monitor
    }

    /// Whether the monitor reports the backend unhealthy.
    pub open spec fn unhealthy(&self) -> bool {
        self.monitor() matches Some(m) && m.status == HealthStatus::Unhealthy
    }

    /// The counts are below their thresholds.
    pub open spec fn wf(&self) -> bool {
        self@.wf(self.settings())
    }

    /// Whether settings and monitor are those of `other`.
    pub open spec fn same_settings(&self, other: &Self) -> bool {
        self.settings() == other.settings() && self.monitor() == other.monitor()
    }

    /// A breaker that is closed at `now`.
    pub fn new_at(
        config: CircuitBreakerConfig,
        health_monitor: Option<HealthMonitor>,
        now: u64,
    ) -> (r: Self)
        ensures
            r.wf(),
            r.settings() == config,
            r.monitor() == health_monitor,
            r@ == BreakerState::initial(now),
    {
        CircuitBreaker {
            config,
            state: CircuitState::Closed,
            consecutive_failures: 0,
            consecutive_successes: 0,
            failure_count_in_window: 0,
            requests_allowed: 0,
            requests_rejected: 0,
            window_start: now,
            open_timestamp: 0,
            last_state_change: now,
            health_monitor,
        }
    }

    /// A breaker that is closed.
    pub fn new(config: CircuitBreakerConfig, health_monitor: Option<HealthMonitor>) -> (r: Self)
        ensures
            r.wf(),
            r.settings() == config,
            r.monitor() == health_monitor,
            exists|t: SystemTime| r@ == BreakerState::initial(#[trigger] time::unix_time(t)),
    {
        let now = unix_seconds();
        CircuitBreaker::new_at(config, health_monitor, now)
    }

    /// Take in a report of the monitor, if there is one.
    pub fn set_health_status(&mut self, status: HealthStatus)
        requires
            old(self).wf(),
        ensures
            final(self).wf(),
            final(self).settings() == old(self).settings(),
            final(self)@ == old(self)@,
            final(self).monitor() == match old(self).monitor() {
                Some(_) => Some(HealthMonitor { status }),
                None => None,
            },
    {
        if self.health_monitor.is_some() {
            self.health_monitor = Some(HealthMonitor { status });
        }
    }

    /// Whether a request passes at `now`.
    pub fn allow_request_at(&mut self, now: u64) -> (r: Result<(), CircuitBreakerError>)
        requires
            old(self).wf(),
        ensures
            final(self).wf(),
            final(self).same_settings(old(self)),
            r is Ok <==> old(self)@.passes(old(self).settings(), now),
            r is Err ==> r->Err_0 == CircuitBreakerError::CircuitOpen,
            final(self)@ == old(self)@.requested(old(self).settings(), now),
    {
        if !self.config.enabled {
            return Ok(());
        }
        match self.state {
            CircuitState::Closed => {},
            CircuitState::Open => {
                if elapsed_secs(now, self.open_timestamp) < self.config.open_timeout_secs {
                    self.requests_rejected = self.requests_rejected.wrapping_add(1);
                    return Err(CircuitBreakerError::CircuitOpen);
                }
                self.transition_to_half_open(now);
            },
            CircuitState::HalfOpen => {
                if self.consecutive_successes >= self.config.success_threshold {
                    self.transition_to_closed(now);
                }
            },
        }
        self.requests_allowed = self.requests_allowed.wrapping_add(1);
        Ok(())
    }

    /// Whether a request passes now.
    pub fn allow_request(&mut self) -> (r: Result<(), CircuitBreakerError>)
        requires
            old(self).wf(),
        ensures
            final(self).wf(),
            final(self).same_settings(old(self)),
            r is Err ==> r->Err_0 == CircuitBreakerError::CircuitOpen,
            !old(self).settings().enabled || old(self)@.state != CircuitState::Open ==> r is Ok,
            exists|t: SystemTime|
                final(self)@ == old(self)@.requested(
                    old(self).settings(),
                    #[trigger] time::unix_time(t),
                ) && (r is Ok <==> old(self)@.passes(old(self).settings(), time::unix_time(t))),
    {
        let now = unix_seconds();
        self.allow_request_at(now)
    }

    /// Take in a success at `now`.
    pub fn record_success_at(&mut self, now: u64)
        requires
            old(self).wf(),
        ensures
            final(self).wf(),
            final(self).same_settings(old(self)),
            final(self)@ == old(self)@.succeeded(old(self).settings(), now),
    {
        if !self.config.enabled {
            return;
        }
        match self.state {
            CircuitState::Closed => {
                self.consecutive_failures = 0;
            },
            CircuitState::HalfOpen => {
                if self.consecutive_successes as u64 + 1 >= self.config.success_threshold as u64 {
                    self.transition_to_closed(now);
                } else {
                    self.consecutive_successes = self.consecutive_successes + 1;
                }
            },
            CircuitState::Open => {
                self.transition_to_closed(now);
            },
        }
    }

    /// Take in a success.
    pub fn record_success(&mut self)
        requires
            old(self).wf(),
        ensures
            final(self).wf(),
            final(self).same_settings(old(self)),
            exists|t: SystemTime|
                final(self)@ == old(self)@.succeeded(
                    old(self).settings(),
                    #[trigger] time::unix_time(t),
                ),
    {
        let now = unix_seconds();
        self.record_success_at(now);
    }

    /// Take in a failure at `now`.
    pub fn record_failure_at(&mut self, now: u64)
        requires
            old(self).wf(),
        ensures
            final(self).wf(),
            final(self).same_settings(old(self)),
            final(self)@ == old(self)@.failed(old(self).settings(), old(self).unhealthy(), now),
    {
        if !self.config.enabled {
            return;
        }
        self.reset_window_if_needed(now);
        match self.state {
            CircuitState::Closed => {
                self.consecutive_failures = self.consecutive_failures + 1;
                self.failure_count_in_window = self.failure_count_in_window.wrapping_add(1);
                if self.consecutive_failures >= self.config.failure_threshold {
                    self.transition_to_open(now);
                } else if self.config.use_health_monitor {
                    if let Some(monitor) = self.health_monitor {
                        if monitor.status == HealthStatus::Unhealthy {
                            self.transition_to_open(now);
                        }
                    }
                }
            },
            CircuitState::HalfOpen => {
                self.transition_to_open(now);
            },
            CircuitState::Open => {
                self.failure_count_in_window = self.failure_count_in_window.wrapping_add(1);
            },
        }
    }

    /// Take in a failure.
    pub fn record_failure(&mut self)
        requires
            old(self).wf(),
        ensures
            final(self).wf(),
            final(self).same_settings(old(self)),
            exists|t: SystemTime|
                final(self)@ == old(self)@.failed(
                    old(self).settings(),
                    old(self).unhealthy(),
                    #[trigger] time::unix_time(t),
                ),
    {
        let now = unix_seconds();
        self.record_failure_at(now);
    }

    /// Counts of the breaker.
    pub fn get_metrics(&self) -> (r: CircuitBreakerMetrics)
        ensures
            r.state@ == self@.state.name(),
            r.consecutive_failures == self@.failures,
            r.consecutive_successes == self@.successes,
            r.failure_count_in_window == self@.window_failures,
            r.requests_allowed == self@.allowed,
            r.requests_rejected == self@.rejected,
            r.last_state_change_secs == self@.changed_at,
    {
        CircuitBreakerMetrics {
            state: self.state.as_str().to_owned(),
            consecutive_failures: self.consecutive_failures,
            consecutive_successes: self.consecutive_successes,
            failure_count_in_window: self.failure_count_in_window,
            requests_allowed: self.requests_allowed,
            requests_rejected: self.requests_rejected,
            last_state_change_secs: self.last_state_change,
        }
    }

    /// The breaker's state.
    pub fn get_state(&self) -> (r: CircuitState)
        ensures
            r == self@.state,
    {
        self.state
    }

    /// Take in a probe of the backend at `now`: an unhealthy one opens the
    /// breaker before clients fail, a healthy one lets it recover at once.
    pub fn report_health_at(&mut self, healthy: bool, now: u64)
        requires
            old(self).wf(),
        ensures
            final(self).wf(),
            final(self).same_settings(old(self)),
            final(self)@ == old(self)@.probed(healthy, now),
    {
        if healthy {
            if self.state == CircuitState::Open {
                self.transition_to_half_open(now);
            }
        } else {
            if self.state != CircuitState::Open {
                self.transition_to_open(now);
            }
        }
    }

    /// Take in a probe of the backend.
    pub fn report_health(&mut self, healthy: bool)
        requires
            old(self).wf(),
        ensures
            final(self).wf(),
            final(self).same_settings(old(self)),
            exists|t: SystemTime|
                final(self)@ == old(self)@.probed(healthy, #[trigger] time::unix_time(t)),
    {
        let now = unix_seconds();
        self.report_health_at(healthy, now);
    }

    fn transition_to_open(&mut self, now: u64)
        ensures
            final(self).same_settings(old(self)),
            final(self)@ == old(self)@.opened(now),
    {
        self.state = CircuitState::Open;
        self.open_timestamp = now;
        self.last_state_change = now;
        self.consecutive_successes = 0;
    }

    fn transition_to_closed(&mut self, now: u64)
        ensures
            final(self).same_settings(old(self)),
            final(self)@ == old(self)@.closed(now),
    {
        self.state = CircuitState::Closed;
        self.last_state_change = now;
        self.consecutive_failures = 0;
        self.consecutive_successes = 0;
    }

    fn transition_to_half_open(&mut self, now: u64)
        ensures
            final(self).same_settings(old(self)),
            final(self)@ == old(self)@.half_opened(now),
    {
        self.state = CircuitState::HalfOpen;
        self.last_state_change = now;
        self.consecutive_successes = 0;
    }

    fn reset_window_if_needed(&mut self, now: u64)
        ensures
            final(self).same_settings(old(self)),
            final(self)@ == old(self)@.window_at(old(self).settings(), now),
    {
        if elapsed_secs(now, self.window_start) >= self.config.window_secs {
            self.window_start = now;
            self.failure_count_in_window = 0;
        }
    }
}

/// `n` failures, one after the other, at the times that `at` gives.
pub open spec fn failures_at(
    s: BreakerState,
    config: CircuitBreakerConfig,
    at: spec_fn(int) -> u64,
    n: nat,
) -> BreakerState
    decreases n,
{
    if n == 0 {
        s
    } else {
        failures_at(s, config, at, (n - 1) as nat).failed(config, false, at(n as int))
    }
}

/// A closed breaker opens on exactly as many failures in a row as its
/// threshold says: before that it stays closed.
pub proof fn law_opens_at_the_threshold(
    s: BreakerState,
    config: CircuitBreakerConfig,
    at: spec_fn(int) -> u64,
    n: nat,
)
    requires
        config.enabled,
        s.state == CircuitState::Closed,
        s.failures == 0,
        0 < config.failure_threshold,
        n <= config.failure_threshold,
    ensures
        n < config.failure_threshold ==> failures_at(s, config, at, n).state
            == CircuitState::Closed && failures_at(s, config, at, n).failures == n,
        n == config.failure_threshold ==> failures_at(s, config, at, n).state
            == CircuitState::Open,
    decreases n,
{
    if n > 0 {
        law_opens_at_the_threshold(s, config, at, (n - 1) as nat);
    }
}

/// An open breaker lets no request pass until its timeout is over, and then
/// becomes half-open.
pub proof fn law_open_breaker_sheds(s: BreakerState, config: CircuitBreakerConfig, now: u64)
    requires
        config.enabled,
        s.state == CircuitState::Open,
    ensures
        s.passes(config, now) <==> elapsed(now, s.opened_at) >= config.open_timeout_secs,
        !s.passes(config, now) ==> s.requested(config, now).state == CircuitState::Open,
        s.passes(config, now) ==> s.requested(config, now).state == CircuitState::HalfOpen,
        s.probed(true, now).state == CircuitState::HalfOpen,
{
}

/// `n` successes, one after the other, at the times that `at` gives.
pub open spec fn successes_at(
    s: BreakerState,
    config: CircuitBreakerConfig,
    at: spec_fn(int) -> u64,
    n: nat,
) -> BreakerState
    decreases n,
{
    if n == 0 {
        s
    } else {
        successes_at(s, config, at, (n - 1) as nat).succeeded(config, at(n as int))
    }
}

/// A breaker that has just become half-open closes on as many successes in a
/// row as its threshold says, with no failure counted, and opens again on any
/// failure.
pub proof fn law_half_open_breaker_recovers(
    s: BreakerState,
    config: CircuitBreakerConfig,
    at: spec_fn(int) -> u64,
    n: nat,
    unhealthy: bool,
)
    requires
        config.enabled,
        s.state == CircuitState::HalfOpen,
        s.successes == 0,
        0 < config.success_threshold,
        n <= config.success_threshold,
    ensures
        n < config.success_threshold ==> {
            &&& successes_at(s, config, at, n).state == CircuitState::HalfOpen
            &&& successes_at(s, config, at, n).successes == n
            &&& successes_at(s, config, at, n).failed(config, unhealthy, at(n as int)).state
                == CircuitState::Open
        },
        n == config.success_threshold ==> {
            &&& successes_at(s, config, at, n).state == CircuitState::Closed
            &&& successes_at(s, config, at, n).failures == 0
        },
    decreases n,
{
    if n > 0 {
        law_half_open_breaker_recovers(s, config, at, (n - 1) as nat, unhealthy);
    }
}

/// A success while closed forgets the failures in a row.
pub proof fn law_success_resets_failures(
    s: BreakerState,
    config: CircuitBreakerConfig,
    now: u64,
)
    requires
        config.enabled,
        s.state == CircuitState::Closed,
    ensures
        s.succeeded(config, now).failures == 0,
        s.succeeded(config, now).state == CircuitState::Closed,
{
}

/// A breaker that is not enabled lets every request pass and counts nothing.
pub proof fn law_disabled_breaker_does_nothing(
    s: BreakerState,
    config: CircuitBreakerConfig,
    unhealthy: bool,
    now: u64,
)
    requires
        !config.enabled,
    ensures
        s.passes(config, now),
        s.requested(config, now) == s,
        s.succeeded(config, now) == s,
        s.failed(config, unhealthy, now) == s,
{
}

/// Each request is counted once, as allowed or as rejected.
pub proof fn law_requests_are_counted(s: BreakerState, config: CircuitBreakerConfig, now: u64)
    requires
        config.enabled,
        s.allowed < u64::MAX,
        s.rejected < u64::MAX,
    ensures
        s.requested(config, now).allowed + s.requested(config, now).rejected == s.allowed
            + s.rejected + 1,
        s.passes(config, now) <==> s.requested(config, now).allowed == s.allowed + 1,
{
}

/// The time from `since` to `now` is their difference, and none where the clock
/// went back.
pub proof fn law_time_does_not_run_backwards(now: u64, since: u64)
    ensures
        since <= now ==> elapsed(now, since) + since == now,
        now <= since ==> elapsed(now, since) == 0,
{
}

/// Whenever a failure or a probe opens a breaker, it sheds every request from
/// then on until the timeout has run from that moment, however often it was
/// open before, and lets the first one pass after it.
pub proof fn law_opening_starts_the_timeout(
    s: BreakerState,
    config: CircuitBreakerConfig,
    unhealthy: bool,
    healthy: bool,
    t: u64,
    now: u64,
)
    requires
        config.enabled,
        s.state != CircuitState::Open,
    ensures
        s.failed(config, unhealthy, t).state == CircuitState::Open ==> {
            &&& s.failed(config, unhealthy, t).opened_at == t
            &&& s.failed(config, unhealthy, t).changed_at == t
            &&& s.failed(config, unhealthy, t).passes(config, now) <==> (now - t
                >= config.open_timeout_secs || config.open_timeout_secs == 0)
            &&& s.failed(config, unhealthy, t).successes == 0
        },
        s.probed(healthy, t).state == CircuitState::Open <==> !healthy,
        !healthy ==> {
            &&& s.probed(healthy, t).opened_at == t
            &&& s.probed(healthy, t).changed_at == t
            &&& s.probed(healthy, t).passes(config, now) <==> (now - t >= config.open_timeout_secs
                || config.open_timeout_secs == 0)
        },
        healthy ==> s.probed(healthy, t) == s,
{
}

/// While a breaker is open, nothing puts off its next trial: failures, requests
/// that are shed and unhealthy probes leave it open since the same moment. A
/// healthy probe or a success ends it.
pub proof fn law_open_breaker_keeps_its_moment(
    s: BreakerState,
    config: CircuitBreakerConfig,
    unhealthy: bool,
    t: u64,
)
    requires
        config.enabled,
        s.state == CircuitState::Open,
    ensures
        s.failed(config, unhealthy, t).state == CircuitState::Open,
        s.failed(config, unhealthy, t).opened_at == s.opened_at,
        s.failed(config, unhealthy, t).changed_at == s.changed_at,
        s.failed(config, unhealthy, t).failures == s.failures,
        s.probed(false, t) == s,
        s.probed(true, t).state == CircuitState::HalfOpen,
        s.probed(true, t).successes == 0,
        s.probed(true, t).changed_at == t,
        s.succeeded(config, t).state == CircuitState::Closed,
        s.succeeded(config, t).failures == 0,
        s.succeeded(config, t).changed_at == t,
        !s.passes(config, t) ==> {
            &&& s.requested(config, t).state == CircuitState::Open
            &&& s.requested(config, t).opened_at == s.opened_at
            &&& s.requested(config, t).allowed == s.allowed
        },
{
}

/// A breaker that is closed or half-open lets every request pass, and a request
/// counts as one and changes nothing else of a closed breaker. A half-open
/// breaker whose trials did not all succeed yet stays half-open.
pub proof fn law_breaker_that_is_not_open_passes(
    s: BreakerState,
    config: CircuitBreakerConfig,
    now: u64,
)
    requires
        config.enabled,
        s.state != CircuitState::Open,
        s.allowed < u64::MAX,
    ensures
        s.passes(config, now),
        s.requested(config, now).allowed == s.allowed + 1,
        s.requested(config, now).rejected == s.rejected,
        s.state == CircuitState::Closed ==> s.requested(config, now) == (BreakerState {
            allowed: s.requested(config, now).allowed,
            ..s
        }),
        s.state == CircuitState::HalfOpen && s.successes < config.success_threshold ==> s.requested(
            config,
            now,
        ) == (BreakerState { allowed: s.requested(config, now).allowed, ..s }),
{
}

/// One failure of a half-open breaker opens it, whatever came before; one
/// failure of a closed breaker counts as one more in a row, and opens it where
/// that reaches the threshold or where the monitor is heeded and reports the
/// backend unhealthy, and not else.
pub proof fn law_what_a_failure_does(
    s: BreakerState,
    config: CircuitBreakerConfig,
    unhealthy: bool,
    t: u64,
)
    requires
        config.enabled,
        s.failures < u32::MAX,
    ensures
        s.state == CircuitState::HalfOpen ==> s.failed(config, unhealthy, t).state
            == CircuitState::Open,
        s.state == CircuitState::Closed ==> {
            &&& s.failed(config, unhealthy, t).failures == s.failures + 1
            &&& s.failed(config, unhealthy, t).state == CircuitState::Open <==> (s.failures + 1
                >= config.failure_threshold || (config.use_health_monitor && unhealthy))
            &&& s.failed(config, unhealthy, t).state != CircuitState::HalfOpen
        },
        !config.use_health_monitor ==> s.failed(config, true, t) == s.failed(config, false, t),
        s.failed(config, unhealthy, t).allowed == s.allowed,
        s.failed(config, unhealthy, t).rejected == s.rejected,
{
}

/// Failures are counted together in a window: within it each failure while
/// closed or open adds one, and a failure after it begins a new one.
pub proof fn law_failures_are_counted_in_windows(
    s: BreakerState,
    config: CircuitBreakerConfig,
    unhealthy: bool,
    t: u64,
)
    requires
        config.enabled,
        s.state != CircuitState::HalfOpen,
        s.window_start <= t,
        s.window_failures < u32::MAX,
    ensures
        t - s.window_start < config.window_secs ==> {
            &&& s.failed(config, unhealthy, t).window_start == s.window_start
            &&& s.failed(config, unhealthy, t).window_failures == s.window_failures + 1
        },
        t - s.window_start >= config.window_secs ==> {
            &&& s.failed(config, unhealthy, t).window_start == t
            &&& s.failed(config, unhealthy, t).window_failures == 1
        },
{
}

/// A success of a half-open breaker counts as one more in a row; where that
/// reaches the threshold the breaker closes, and forgets what it counted in a
/// row. A success of a closed breaker changes nothing but the failures in a row.
pub proof fn law_what_a_success_does(s: BreakerState, config: CircuitBreakerConfig, t: u64)
    requires
        config.enabled,
        s.successes < u32::MAX,
    ensures
        s.state == CircuitState::HalfOpen && s.successes + 1 < config.success_threshold
            ==> s.succeeded(config, t) == (BreakerState {
            successes: s.succeeded(config, t).successes,
            ..s
        }) && s.succeeded(config, t).successes == s.successes + 1,
        s.state == CircuitState::HalfOpen && s.successes + 1 >= config.success_threshold ==> {
            &&& s.succeeded(config, t).state == CircuitState::Closed
            &&& s.succeeded(config, t).failures == 0
            &&& s.succeeded(config, t).successes == 0
            &&& s.succeeded(config, t).changed_at == t
        },
        s.state == CircuitState::Closed ==> s.succeeded(config, t) == (BreakerState {
            failures: 0,
            ..s
        }),
        s.succeeded(config, t).allowed == s.allowed,
        s.succeeded(config, t).rejected == s.rejected,
        s.succeeded(config, t).opened_at == s.opened_at,
{
}

/// A new breaker is closed, has counted nothing and lets every request pass.
pub proof fn law_new_breaker_is_closed(config: CircuitBreakerConfig, t: u64, now: u64)
    ensures
        BreakerState::initial(t).state == CircuitState::Closed,
        BreakerState::initial(t).failures == 0,
        BreakerState::initial(t).successes == 0,
        BreakerState::initial(t).window_failures == 0,
        BreakerState::initial(t).allowed == 0,
        BreakerState::initial(t).rejected == 0,
        BreakerState::initial(t).window_start == t,
        BreakerState::initial(t).changed_at == t,
        BreakerState::initial(t).wf(config),
        BreakerState::initial(t).passes(config, now),
{
}

/// The monitor reports the backend unhealthy exactly where its last report says
/// so; one that is degraded is not unhealthy.
pub proof fn law_only_unhealthy_is_unhealthy(breaker: CircuitBreaker)
    ensures
        breaker.unhealthy() <==> breaker.monitor() == Some(
            HealthMonitor { status: HealthStatus::Unhealthy },
        ),
{
}

/// States are numbered from 0 in the order closed, open, half-open, and any
/// other number stands for closed.
pub proof fn law_states_have_numbers(value: u8)
    ensures
        state_of(value) == CircuitState::Open <==> value == 1,
        state_of(value) == CircuitState::HalfOpen <==> value == 2,
        state_of(value) == CircuitState::Closed <==> value != 1 && value != 2,
{
}

/// The first request after the timeout is a trial: it passes and makes an open
/// breaker half-open, with no success counted yet and all else as it was.
pub proof fn law_first_request_after_the_timeout_is_a_trial(
    s: BreakerState,
    config: CircuitBreakerConfig,
    now: u64,
)
    requires
        config.enabled,
        s.state == CircuitState::Open,
        now >= s.opened_at + config.open_timeout_secs,
        s.allowed < u64::MAX,
    ensures
        s.passes(config, now),
        s.requested(config, now) == (BreakerState {
            state: CircuitState::HalfOpen,
            changed_at: now,
            successes: 0,
            allowed: s.requested(config, now).allowed,
            ..s
        }),
        s.requested(config, now).allowed == s.allowed + 1,
{
}

/// The breaker is said to have changed when its state did, and then at that
/// moment; it is said to have opened only when it did.
pub proof fn law_changes_are_dated(
    s: BreakerState,
    config: CircuitBreakerConfig,
    unhealthy: bool,
    healthy: bool,
    t: u64,
)
    requires
        config.enabled,
    ensures
        ({
            let r = s.requested(config, t);
            let u = s.succeeded(config, t);
            let f = s.failed(config, unhealthy, t);
            let p = s.probed(healthy, t);
            &&& r.changed_at == if r.state == s.state {
                s.changed_at
            } else {
                t
            }
            &&& u.changed_at == if u.state == s.state {
                s.changed_at
            } else {
                t
            }
            &&& f.changed_at == if f.state == s.state {
                s.changed_at
            } else {
                t
            }
            &&& p.changed_at == if p.state == s.state {
                s.changed_at
            } else {
                t
            }
            &&& r.opened_at == s.opened_at
            &&& u.opened_at == s.opened_at
            &&& f.opened_at == if f.state == CircuitState::Open && s.state != CircuitState::Open {
                t
            } else {
                s.opened_at
            }
            &&& p.opened_at == if p.state == CircuitState::Open && s.state != CircuitState::Open {
                t
            } else {
                s.opened_at
            }
        }),
{
}

/// Requests are counted by requests alone, and failures in the window by
/// failures alone; a probe changes no count but the successes in a row.
pub proof fn law_counts_are_kept_apart(
    s: BreakerState,
    config: CircuitBreakerConfig,
    unhealthy: bool,
    healthy: bool,
    t: u64,
)
    requires
        config.enabled,
    ensures
        ({
            let r = s.requested(config, t);
            let u = s.succeeded(config, t);
            let f = s.failed(config, unhealthy, t);
            let p = s.probed(healthy, t);
            &&& u.allowed == s.allowed && u.rejected == s.rejected
            &&& f.allowed == s.allowed && f.rejected == s.rejected
            &&& p.allowed == s.allowed && p.rejected == s.rejected
            &&& r.window_start == s.window_start && r.window_failures == s.window_failures
            &&& u.window_start == s.window_start && u.window_failures == s.window_failures
            &&& p.window_start == s.window_start && p.window_failures == s.window_failures
            &&& p.failures == s.failures
            &&& s.state != CircuitState::Closed ==> f.failures == s.failures
            &&& s.state == CircuitState::HalfOpen ==> f.window_failures == s.window_failures || (
            f.window_failures == 0 && f.window_start == t)
        }),
{
}

/// A failure that opens a breaker, be it for the first time or again, starts the
/// timeout: until it is over, every request is shed.
pub proof fn law_opened_breaker_sheds_until_the_timeout(
    b: &mut CircuitBreaker,
    t: u64,
    later: &mut CircuitBreaker,
    now: u64,
    r: Result<(), CircuitBreakerError>,
)
    requires
        call_ensures(CircuitBreaker::record_failure_at, (b, t), ()),
        old(b)@.state != CircuitState::Open,
        final(b)@.state == CircuitState::Open,
        old(later)@ == final(b)@,
        old(later).settings() == final(b).settings(),
        call_ensures(CircuitBreaker::allow_request_at, (later, now), r),
    ensures
        final(b)@.opened_at == t,
        final(b)@.changed_at == t,
        old(b).settings().enabled,
        now - t < old(b).settings().open_timeout_secs && old(b).settings().open_timeout_secs > 0
            ==> r is Err && final(later)@.state == CircuitState::Open,
        now - t >= old(b).settings().open_timeout_secs ==> r is Ok && final(later)@.state
            == CircuitState::HalfOpen,
{
}

/// One failure of a half-open breaker opens it again, and a probe that fails
/// opens any that is not open; both from then on.
pub proof fn law_failure_of_a_trial_opens_again(
    b: &mut CircuitBreaker,
    p: &mut CircuitBreaker,
    t: u64,
)
    requires
        old(b).settings().enabled,
        old(b)@.state == CircuitState::HalfOpen,
        call_ensures(CircuitBreaker::record_failure_at, (b, t), ()),
        old(p)@.state != CircuitState::Open,
        call_ensures(CircuitBreaker::report_health_at, (p, false, t), ()),
    ensures
        final(b)@.state == CircuitState::Open,
        final(b)@.opened_at == t,
        final(b)@.successes == 0,
        final(p)@.state == CircuitState::Open,
        final(p)@.opened_at == t,
{
}

} // verus!
