//! What protects backends, and clients from failing backends.
pub mod circuit_breaker;
pub mod errors;
pub mod healthcheck;
pub mod retry;
