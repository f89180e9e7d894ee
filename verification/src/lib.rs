//! A MAVLink message hub: framing of MAVLink v2 byte streams, the message
//! type exchanged between endpoints, per-driver statistics, the driver
//! registry, and the decisions that every transport driver takes.
//!
//! Everything in this crate is verified. Calls into other crates are made by
//! a small number of functions whose contracts are assumed; each of them says
//! so in its documentation.

pub mod callbacks;
pub mod drivers;
pub mod frame;
pub mod hub;
pub mod packet;
pub mod protocol;
pub mod stats;
pub mod web;
