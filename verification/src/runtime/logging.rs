//! Log levels and the suppression of repeated messages. Where lines go
//! (the log file, standard output) is the runtime's.

use vstd::prelude::*;
use crate::high_level::addons::keyed::{age, set_stamp, stamp_lookup, stamps_view, value_of, with_entry};

verus! {

#[derive(Debug, Clone, Copy, PartialEq, Eq, Structural)]
pub enum Level {
    Debug,
    Info,
    Warn,
    Error,
}

pub open spec fn level_name(l: Level) -> Seq<char> {
    match l {
        Level::Debug => "DEBUG"@,
        Level::Info => "INFO"@,
        Level::Warn => "WARN"@,
        Level::Error => "ERROR"@,
    }
}

impl Level {
    pub fn as_str(&self) -> (r: &'static str)
        ensures
            r@ == level_name(*self),
    {
        match self {
            Level::Debug => "DEBUG",
            Level::Info => "INFO",
            Level::Warn => "WARN",
            Level::Error => "ERROR",
        }
    }
}

/// Debug lines are kept out of the log file; the others go to it.
pub fn goes_to_file(level: Level) -> (r: bool)
    ensures
        r == !(level is Debug),
{
    !matches!(level, Level::Debug)
}

/// When each deduplicated message key was last logged, in milliseconds
/// of a monotonic clock.
pub struct LogDedup {
    pub last_logged: Vec<(String, u64)>,
}

impl LogDedup {
    pub fn new() -> (d: Self)
        ensures
            d.last_logged@.len() == 0,
    {
        LogDedup { last_logged: Vec::new() }
    }

    /// Whether a message under `key` is logged at `now_ms`: debug messages
    /// only when debug logging is on, and no message while less than
    /// `min_interval_ms` has passed since the key was last logged. A logged
    /// key is stamped `now_ms`.
    pub fn should_log(&mut self, level: Level, debug_enabled: bool, key: &str, now_ms: u64, min_interval_ms: u64) -> (r:
        bool)
        ensures
            r == (!(level is Debug && !debug_enabled) && match value_of(stamps_view(old(self).last_logged@), key@) {
                Some(t) => age(now_ms, t) >= min_interval_ms,
                None => true,
            }),
            stamps_view(final(self).last_logged@) == if r {
                with_entry(stamps_view(old(self).last_logged@), key@, now_ms)
            } else {
                stamps_view(old(self).last_logged@)
            },
    {
        if matches!(level, Level::Debug) && !debug_enabled {
            return false;
        }
        match stamp_lookup(&self.last_logged, key) {
            Some(t) => {
                let elapsed: u64 = if now_ms >= t { now_ms - t } else { 0 };
                if elapsed < min_interval_ms {
                    return false;
                }
            },
            None => {},
        }
        set_stamp(&mut self.last_logged, crate::text::string_of(key), now_ms);
        true
    }
}

/// A key just logged stays quiet for the interval that follows.
pub proof fn law_dedup_quiet_interval(s: Seq<(Seq<char>, u64)>, key: Seq<char>, t: u64, later: u64, min_interval_ms: u64)
    requires
        age(later, t) < min_interval_ms,
    ensures
        match value_of(with_entry(s, key, t), key) {
            Some(u) => age(later, u) < min_interval_ms,
            None => false,
        },
{
    crate::high_level::addons::keyed::lemma_with_entry_value(s, key, t, key);
}

} // verus!
