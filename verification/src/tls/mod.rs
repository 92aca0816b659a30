//! TLS towards clients and backends.
pub mod backend;
pub mod config;
pub mod startup;
