//! The daemon's control-socket protocol.

pub mod ipc;
