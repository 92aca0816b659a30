//! The verified core of a PostgreSQL proxy: what it decides about clients,
//! connections, queries and events, apart from the sockets it does so over.
pub mod config;
pub mod counters;
pub mod ids;
pub mod names;
pub mod protocol;
pub mod proxy;
pub mod publisher;
pub mod resilience;
pub mod routing;
pub mod text;
pub mod time;
pub mod tls;
