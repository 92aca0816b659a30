//! The PostgreSQL wire protocol and the SQL commands it carries.
pub mod command;
pub mod wire;
