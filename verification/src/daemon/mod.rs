//! The daemon: its configuration, its feature runtime and its job loop.

pub mod replay;
pub mod runtime;
pub mod tick;
