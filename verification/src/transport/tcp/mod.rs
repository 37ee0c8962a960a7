//! TCP endpoints.
pub mod client;
pub mod config;
pub mod connection;
pub mod server;
