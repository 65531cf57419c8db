//! The configuration interface of the daemon.

pub mod config;
