//! Drivers that speak MAVLink over UDP.

pub mod client;
pub mod server;
