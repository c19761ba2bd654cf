//! Decision logic of a trigger-driven remote process runner.
//!
//! A client connects over a message transport, optionally proves that it knows
//! a shared secret, and is then streamed the standard output and standard error
//! of one preconfigured process, multiplexed onto the connection as tagged
//! binary frames. This crate holds the rules of that protocol as verified
//! functions on plain values; the program around it performs the I/O.

pub mod auth;
pub mod command;
pub mod forwarder;
pub mod frame;
pub mod session;
pub mod trusted;
