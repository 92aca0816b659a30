//! Probes of a backend, and what they say of its health.
use crate::counters;
use vstd::prelude::*;

verus! {

/// Settings of the probes.
#[derive(Debug, Clone, Copy)]
pub struct HealthcheckConfig {
    /// Whether the backend is probed.
    pub active_enabled: bool,
    /// How many seconds lie between probes.
    pub interval_secs: u64,
    /// How many milliseconds a probe may take.
    pub timeout_ms: u64,
    /// After how many failures in a row the backend counts as unhealthy.
    pub failure_threshold: u32,
}

/// What came of a probe.
#[derive(Debug, Clone, Copy, PartialEq, Eq, Structural)]
pub enum ProbeOutcome {
    /// The backend is well.
    Passed,
    /// The backend says that it is not.
    Failed,
    /// The backend could not be asked.
    Error,
    /// The probe took too long.
    TimedOut,
}

/// What is known of a backend's health.
pub struct HealthState {
    pub healthy: bool,
    /// Failures in a row.
    pub failures: u32,
}

impl HealthState {
    /// What is known after a probe.
    pub open spec fn after(self, outcome: ProbeOutcome, threshold: u32) -> HealthState {
        if outcome == ProbeOutcome::Passed {
            HealthState { healthy: true, failures: 0 }
        } else {
            HealthState {
                healthy: self.healthy && counters::next32(self.failures) < threshold,
                failures: counters::next32(self.failures),
            }
        }
    }
}

/// Follows a backend's health.
#[derive(Debug)]
pub struct ActiveHealthcheck {
    config: HealthcheckConfig,
    consecutive_failures: u32,
    is_healthy: bool,
}

impl ActiveHealthcheck {
    /// What is known of the backend's health.
    pub closed spec fn view(&self) -> HealthState {
        HealthState { healthy: self.is_healthy, failures: self.consecutive_failures }
    }

    /// The settings.
    pub closed spec fn settings(&self) -> HealthcheckConfig {
        self.config
    }

    /// A backend that is healthy.
    pub fn new(config: HealthcheckConfig) -> (r: Self)
        ensures
            r.settings() == config,
            r@ == (HealthState { healthy: true, failures: 0 }),
    {
        ActiveHealthcheck { config, consecutive_failures: 0, is_healthy: true }
    }

    /// For how many milliseconds the backend is to be probed, if at all.
    pub fn probe_timeout_ms(&self) -> (r: Option<u64>)
        ensures
            r == if self.settings().active_enabled {
                Some(self.settings().timeout_ms)
            } else {
                None
            },
    {
        if self.config.active_enabled {
            Some(self.config.timeout_ms)
        } else {
            None
        }
    }

    /// Take in what came of a probe. Returns whether the backend counts as
    /// healthy; it always does where it is not probed.
    pub fn check(&mut self, outcome: ProbeOutcome) -> (r: bool)
        ensures
            final(self).settings() == old(self).settings(),
            if old(self).settings().active_enabled {
                &&& final(self)@ == old(self)@.after(
                    outcome,
                    old(self).settings().failure_threshold,
                )
                &&& r == final(self)@.healthy
            } else {
                r && final(self)@ == old(self)@
            },
    {
        if !self.config.active_enabled {
            return true;
        }
        match outcome {
            ProbeOutcome::Passed => {
                self.consecutive_failures = 0;
                self.is_healthy = true;
            },
            ProbeOutcome::Failed | ProbeOutcome::Error | ProbeOutcome::TimedOut => {
                self.consecutive_failures = self.consecutive_failures.wrapping_add(1);
                if self.consecutive_failures >= self.config.failure_threshold {
                    self.is_healthy = false;
                }
            },
        }
        self.is_healthy
    }

    /// Whether the backend counts as healthy.
    pub fn is_healthy(&self) -> (r: bool)
        ensures
            r == self@.healthy,
    {
        self.is_healthy
    }

    /// Failures in a row.
    pub fn consecutive_failures(&self) -> (r: u32)
        ensures
            r == self@.failures,
    {
        self.consecutive_failures
    }
}

/// What is known after `n` probes in a row that do not pass.
pub open spec fn after_failures(s: HealthState, threshold: u32, n: nat) -> HealthState
    decreases n,
{
    if n == 0 {
        s
    } else {
        after_failures(s, threshold, (n - 1) as nat).after(ProbeOutcome::Failed, threshold)
    }
}

/// A healthy backend counts as unhealthy after as many failures in a row as
/// the threshold says, not before, and as healthy again after one success.
pub proof fn law_unhealthy_at_the_threshold(s: HealthState, threshold: u32, n: nat)
    requires
        s.healthy,
        s.failures == 0,
        0 < threshold,
        n <= u32::MAX,
    ensures
        after_failures(s, threshold, n).failures == n,
        after_failures(s, threshold, n).healthy <==> n < threshold,
        after_failures(s, threshold, n).after(ProbeOutcome::Passed, threshold) == (HealthState {
            healthy: true,
            failures: 0,
        }),
    decreases n,
{
    if n > 0 {
        law_unhealthy_at_the_threshold(s, threshold, (n - 1) as nat);
    }
}

/// It does not matter why a probe did not pass.
pub proof fn law_failures_are_alike(s: HealthState, threshold: u32, outcome: ProbeOutcome)
    requires
        outcome != ProbeOutcome::Passed,
    ensures
        s.after(outcome, threshold) == s.after(ProbeOutcome::Failed, threshold),
{
}

/// A probe that does not pass counts as one more failure, and never makes a
/// backend healthy; one that passes makes it healthy and ends the row.
pub proof fn law_what_a_probe_does(s: HealthState, threshold: u32, outcome: ProbeOutcome)
    requires
        s.failures < u32::MAX,
    ensures
        outcome != ProbeOutcome::Passed ==> {
            &&& s.after(outcome, threshold).failures == s.failures + 1
            &&& s.after(outcome, threshold).healthy <==> s.healthy && s.failures + 1 < threshold
        },
        s.after(ProbeOutcome::Passed, threshold).healthy,
        s.after(ProbeOutcome::Passed, threshold).failures == 0,
{
}

/// A backend that is not probed counts as healthy, and nothing is learned of it;
/// of one that is, what is said is what is known after the probe.
pub proof fn law_unprobed_backend_is_healthy(
    h: &mut ActiveHealthcheck,
    outcome: ProbeOutcome,
    r: bool,
)
    requires
        call_ensures(ActiveHealthcheck::check, (h, outcome), r),
    ensures
        !old(h).settings().active_enabled ==> r && final(h)@ == old(h)@,
        old(h).settings().active_enabled ==> r == final(h)@.healthy,
        outcome == ProbeOutcome::Passed ==> r,
        old(h).settings().active_enabled && outcome != ProbeOutcome::Passed && old(h)@.failures
            < u32::MAX ==> {
            &&& final(h)@.failures == old(h)@.failures + 1
            &&& r <==> old(h)@.healthy && final(h)@.failures
                < old(h).settings().failure_threshold
        },
{
}

} // verus!
