//! Retries with growing pauses.
//!
//! The pause grows by a factor up to a limit, and a random part is added to
//! it, so that clients that failed together do not come back together. The
//! factors are fractions: the caller scales by them, the rest is decided here.
use vstd::prelude::*;

verus! {

/// Settings of the retries.
#[derive(Debug, Clone, Copy)]
pub struct ConnectionRetryConfig {
    pub enabled: bool,
    /// How often an operation is tried at most.
    pub max_attempts: u32,
    /// The first pause.
    pub initial_backoff_ms: u64,
    /// The longest pause, before the random part.
    pub max_backoff_ms: u64,
}

/// An operation that is being tried.
#[derive(Debug, Clone, Copy, PartialEq, Eq, Structural)]
pub struct RetryState {
    /// How often it has failed.
    pub attempts: u32,
    /// The next pause, before the random part.
    pub backoff_ms: u64,
}

/// What is to be done about a failure.
#[derive(Debug, Clone, Copy, PartialEq, Eq, Structural)]
pub enum RetryStep {
    /// The error is final.
    GiveUp,
    /// The operation is tried again after so many milliseconds.
    RetryAfter { delay_ms: u64, next: RetryState },
}

/// `rand::Rng::gen_range` on the thread's generator draws a number from 0 to
/// `range`, both included. Which one is left to chance.
#[verifier::external_body]
fn random_up_to(range: u64) -> (r: u64)
    ensures
        r <= range,
{
    rand::Rng::gen_range(&mut rand::thread_rng(), 0..=range)
}

/// Decides about retries.
#[derive(Debug, Clone, Copy)]
pub struct RetryStrategy {
    config: ConnectionRetryConfig,
}

impl RetryStrategy {
    /// The settings.
    pub closed spec fn view(&self) -> ConnectionRetryConfig {
        self.config
    }

    /// A strategy with these settings.
    pub fn new(config: ConnectionRetryConfig) -> (r: Self)
        ensures
            r@ == config,
    {
        RetryStrategy { config }
    }

    /// An operation that has not been tried yet.
    pub fn begin(&self) -> (r: RetryState)
        ensures
            r == initial(self@),
    {
        RetryState { attempts: 0, backoff_ms: self.config.initial_backoff_ms }
    }

    /// What is to be done about a failure. `retryable` says whether the error
    /// may pass, `jitter_ms` is the random part of the pause, and
    /// `scaled_backoff_ms` is the pause times the factor by which it grows.
    pub fn failed(
        &self,
        state: RetryState,
        retryable: bool,
        jitter_ms: u64,
        scaled_backoff_ms: u64,
    ) -> (r: RetryStep)
        requires
            retries(self@, state, retryable) ==> state.backoff_ms + jitter_ms <= u64::MAX,
        ensures
            r == step(self@, state, retryable, jitter_ms, scaled_backoff_ms),
    {
        if self.will_retry(state, retryable) {
            RetryStep::RetryAfter {
                delay_ms: state.backoff_ms + jitter_ms,
                next: RetryState {
                    attempts: state.attempts + 1,
                    backoff_ms: self.next_backoff(scaled_backoff_ms),
                },
            }
        } else {
            RetryStep::GiveUp
        }
    }

    /// Whether an operation that has failed once more is tried again.
    pub fn will_retry(&self, state: RetryState, retryable: bool) -> (r: bool)
        ensures
            r == retries(self@, state, retryable),
    {
        self.config.enabled && retryable && state.attempts < self.config.max_attempts
            && state.attempts + 1 < self.config.max_attempts
    }

    /// The next pause: what the last one was scaled to, up to the longest.
    pub fn next_backoff(&self, scaled_backoff_ms: u64) -> (r: u64)
        ensures
            r == capped(self@, scaled_backoff_ms),
    {
        if scaled_backoff_ms < self.config.max_backoff_ms {
            scaled_backoff_ms
        } else {
            self.config.max_backoff_ms
        }
    }

    /// A random part of the pause, up to `jitter_range`.
    pub fn calculate_jitter(&self, jitter_range: u64) -> (r: u64)
        ensures
            r <= jitter_range,
    {
        if jitter_range > 0 {
            random_up_to(jitter_range)
        } else {
            0
        }
    }
}

/// An operation that has not been tried yet.
pub open spec fn initial(config: ConnectionRetryConfig) -> RetryState {
    RetryState { attempts: 0, backoff_ms: config.initial_backoff_ms }
}

/// The pause, up to the longest.
pub open spec fn capped(config: ConnectionRetryConfig, scaled_backoff_ms: u64) -> u64 {
    if scaled_backoff_ms < config.max_backoff_ms {
        scaled_backoff_ms
    } else {
        config.max_backoff_ms
    }
}

/// Whether an operation that has failed once more is tried again.
pub open spec fn retries(config: ConnectionRetryConfig, state: RetryState, retryable: bool) -> bool {
    config.enabled && retryable && state.attempts + 1 < config.max_attempts
}

/// What is to be done about a failure.
pub open spec fn step(
    config: ConnectionRetryConfig,
    state: RetryState,
    retryable: bool,
    jitter_ms: u64,
    scaled_backoff_ms: u64,
) -> RetryStep {
    if retries(config, state, retryable) {
        RetryStep::RetryAfter {
            delay_ms: (state.backoff_ms + jitter_ms) as u64,
            next: RetryState {
                attempts: (state.attempts + 1) as u32,
                backoff_ms: capped(config, scaled_backoff_ms),
            },
        }
    } else {
        RetryStep::GiveUp
    }
}

/// An operation is tried as often as the settings say at most: with retries
/// off once, and else `max_attempts` times, or once where that is 0.
pub proof fn law_attempts_are_bounded(
    config: ConnectionRetryConfig,
    state: RetryState,
    retryable: bool,
    jitter_ms: u64,
    scaled_backoff_ms: u64,
)
    ensures
        step(config, state, retryable, jitter_ms, scaled_backoff_ms) matches RetryStep::RetryAfter {
            delay_ms,
            next,
        } ==> config.enabled && retryable && next.attempts == state.attempts + 1 && next.attempts
            < config.max_attempts,
        config.enabled && retryable && state.attempts + 1 < config.max_attempts ==> step(
            config,
            state,
            retryable,
            jitter_ms,
            scaled_backoff_ms,
        ) is RetryAfter,
{
}

/// After the first, no pause is longer than the longest and the random part.
pub proof fn law_pauses_are_bounded(
    config: ConnectionRetryConfig,
    state: RetryState,
    jitter_ms: u64,
    scaled_backoff_ms: u64,
)
    requires
        state.backoff_ms + jitter_ms <= u64::MAX,
    ensures
        step(config, state, true, jitter_ms, scaled_backoff_ms) matches RetryStep::RetryAfter {
            delay_ms,
            next,
        } ==> delay_ms == state.backoff_ms + jitter_ms && next.backoff_ms <= config.max_backoff_ms,
{
}

/// An operation begins with the first pause and no failure; the pause after a
/// failure is that of the state and the random part together, and the next one
/// is what it was scaled to, or the longest where that is shorter.
pub proof fn law_pauses_grow_up_to_the_longest(
    config: ConnectionRetryConfig,
    state: RetryState,
    retryable: bool,
    jitter_ms: u64,
    scaled_backoff_ms: u64,
)
    requires
        state.backoff_ms + jitter_ms <= u64::MAX,
    ensures
        initial(config).attempts == 0,
        initial(config).backoff_ms == config.initial_backoff_ms,
        step(config, state, retryable, jitter_ms, scaled_backoff_ms) matches RetryStep::RetryAfter {
            delay_ms,
            next,
        } ==> {
            &&& delay_ms == state.backoff_ms + jitter_ms
            &&& next.attempts == state.attempts + 1
            &&& scaled_backoff_ms <= config.max_backoff_ms ==> next.backoff_ms == scaled_backoff_ms
            &&& scaled_backoff_ms > config.max_backoff_ms ==> next.backoff_ms
                == config.max_backoff_ms
        },
        step(config, state, retryable, jitter_ms, scaled_backoff_ms) is GiveUp <==> {
            ||| !config.enabled
            ||| !retryable
            ||| state.attempts + 1 >= config.max_attempts
        },
{
}

} // verus!
