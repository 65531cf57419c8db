//! The parts of the daemon's runtime that decide rather than act: tick
//! timing, foreground resolution rules, inotify event mapping and status
//! records.

pub mod effects;
pub mod foreground;
pub mod indexer;
pub mod inotify;
pub mod logging;
pub mod pressure;
pub mod scheduler;
pub mod status;
