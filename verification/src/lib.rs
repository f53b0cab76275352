//! Verified core of a UDP packet forwarder: address text handling,
//! configuration rules, the forwarder and power-listener state machines,
//! status texts and the small computations behind the window and tray calls.

pub mod decimal;
pub mod target;
pub mod ipv4;
pub mod config;
pub mod forwarder;
pub mod power;
pub mod session;
pub mod window;
pub mod version;
