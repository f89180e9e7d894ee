//! Drivers that speak MAVLink over TCP.

pub mod client;
