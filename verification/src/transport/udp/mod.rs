//! UDP endpoints.
pub mod client;
pub mod config;
pub mod server;
pub mod socket;
