//! Addon semantics, identities, capabilities and the status types served
//! over IPC.

pub mod addon;
pub mod addons;
pub mod api;
pub mod capability;
pub mod identity;
