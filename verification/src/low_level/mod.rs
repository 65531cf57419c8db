//! Decoding of what the kernel hands the daemon: inotify records and
//! process status files.

pub mod inotify;
pub mod sys;
