//! Errors of the resilience features.
use vstd::prelude::*;
use vstd::string::*;

verus! {

/// The breaker let a request not pass.
#[derive(Debug, Clone, Copy, PartialEq, Eq, Structural)]
pub enum CircuitBreakerError {
    CircuitOpen,
}

impl CircuitBreakerError {
    /// The error as a text.
    pub fn message(&self) -> (r: String)
        ensures
            r@ == "Circuit breaker is open, failing fast"@,
    {
        "Circuit breaker is open, failing fast".to_owned()
    }
}

/// An operation was given up.
#[derive(Debug)]
pub enum RetryError {
    /// The last error.
    RetriesExhausted(String),
}

impl RetryError {
    /// The error as a text.
    pub fn message(&self) -> (r: String)
        ensures
            r@ == "All retry attempts exhausted: "@ + self->0@,
    {
        match self {
            RetryError::RetriesExhausted(e) => {
                let mut s = "All retry attempts exhausted: ".to_owned();
                s.append(e.as_str());
                s
            },
        }
    }
}

} // verus!
