//! The proxy itself: sessions, pools, queues and events.
pub mod admin_gate;
pub mod admin_handles;
pub mod cache;
pub mod connection;
pub mod connection_state;
pub mod event;
pub mod event_batcher;
pub mod mode_enforcer;
pub mod params;
pub mod pool_manager;
pub mod server;
pub mod state_replayer;
pub mod tcp_pool;
pub mod transaction;
pub mod wait_queue;
