//! Read-ahead of an app's files when it comes to the foreground, at most
//! once per cooldown per package. The reads themselves, and the clock, are
//! the runtime's: it reports what it did, in milliseconds of a monotonic
//! clock.

use vstd::prelude::*;
use vstd::string::StringExecFns;
use crate::high_level::addons::keyed::{age, keep_fresh, set_stamp, stamp_lookup, stamps_view, value_of, fresh_entries, with_entry};
use crate::runtime::status::PreloadResult;

verus! {

/// How long a package is left alone after a preload.
pub const PRELOAD_COOLDOWN_MS: u64 = 300000;

/// Which native ABI the daemon runs as.
#[derive(Debug, Clone, Copy, PartialEq, Eq, Structural)]
pub enum RuntimeAbi {
    Arm64,
    Arm32,
}

/// What the status file records of the last preload.
pub struct PreloadStatusFile {
    pub last_package: Option<String>,
    pub file_count: usize,
    pub files_failed: usize,
    pub bytes: u64,
    pub discovery_ms: u64,
    pub readahead_ms: u64,
    pub total_ms: u64,
    pub result: Option<PreloadResult>,
}

impl PreloadStatusFile {
    pub fn new() -> (s: Self)
        ensures
            s.last_package is None,
            s.file_count == 0,
            s.files_failed == 0,
            s.bytes == 0,
            s.discovery_ms == 0,
            s.readahead_ms == 0,
            s.total_ms == 0,
            s.result is None,
    {
        PreloadStatusFile {
            last_package: None,
            file_count: 0,
            files_failed: 0,
            bytes: 0,
            discovery_ms: 0,
            readahead_ms: 0,
            total_ms: 0,
            result: None,
        }
    }
}

pub struct PreloadFeature {
    /// When each package was last preloaded.
    pub cooldowns: Vec<(String, u64)>,
}

/// How a read-ahead went: every file read, some failed, or none read.
pub open spec fn result_of(files_done: usize, files_failed: usize) -> PreloadResult {
    if files_done == 0 {
        PreloadResult::Failed
    } else if files_failed > 0 {
        PreloadResult::Partial
    } else {
        PreloadResult::Success
    }
}

pub fn preload_result(files_done: usize, files_failed: usize) -> (r: PreloadResult)
    ensures
        r == result_of(files_done, files_failed),
{
    if files_done == 0 {
        PreloadResult::Failed
    } else if files_failed > 0 {
        PreloadResult::Partial
    } else {
        PreloadResult::Success
    }
}

/// The cooldowns after the sweep at `now_ms`: stamps older than two
/// cooldowns are dropped.
pub open spec fn swept(c: Seq<(Seq<char>, u64)>, now_ms: u64) -> Seq<(Seq<char>, u64)> {
    fresh_entries(c, now_ms, (2 * PRELOAD_COOLDOWN_MS) as u64)
}

impl PreloadFeature {
    pub fn new() -> (f: Self)
        ensures
            f.cooldowns@.len() == 0,
    {
        PreloadFeature { cooldowns: Vec::new() }
    }

    /// A package came to the foreground at `now_ms`. Old cooldowns are
    /// dropped; a package still cooling down is recorded as such and the
    /// whole seconds it has left are returned; otherwise `None`, and the
    /// runtime reads its files ahead and reports with `record_*`.
    pub fn on_foreground_package(&mut self, now_ms: u64, pkg: &str, status: &mut PreloadStatusFile) -> (r: Option<u64>)
        ensures
            stamps_view(final(self).cooldowns@) == swept(stamps_view(old(self).cooldowns@), now_ms),
            match value_of(swept(stamps_view(old(self).cooldowns@), now_ms), pkg@) {
                Some(t) => if age(now_ms, t) < PRELOAD_COOLDOWN_MS {
                    &&& r == Some(((PRELOAD_COOLDOWN_MS - age(now_ms, t)) / 1000) as u64)
                    &&& final(status).last_package is Some && final(status).last_package->0@ == pkg@
                    &&& final(status).result == Some(PreloadResult::Cooldown)
                    &&& final(status).file_count == old(status).file_count
                    &&& final(status).files_failed == old(status).files_failed
                    &&& final(status).bytes == old(status).bytes
                    &&& final(status).discovery_ms == old(status).discovery_ms
                    &&& final(status).readahead_ms == old(status).readahead_ms
                    &&& final(status).total_ms == old(status).total_ms
                } else {
                    r is None && *final(status) == *old(status)
                },
                None => r is None && *final(status) == *old(status),
            },
    {
        keep_fresh(&mut self.cooldowns, now_ms, 2 * PRELOAD_COOLDOWN_MS);
        match stamp_lookup(&self.cooldowns, pkg) {
            Some(t) => {
                let elapsed: u64 = if now_ms >= t { now_ms - t } else { 0 };
                if elapsed < PRELOAD_COOLDOWN_MS {
                    status.last_package = Some(String::from_str(pkg));
                    status.result = Some(PreloadResult::Cooldown);
                    Some((PRELOAD_COOLDOWN_MS - elapsed) / 1000)
                } else {
                    None
                }
            },
            None => None,
        }
    }

    /// A package had no files to read: recorded, and its cooldown starts.
    pub fn record_no_candidates(&mut self, now_ms: u64, pkg: &str, total_ms: u64, status: &mut PreloadStatusFile)
        ensures
            stamps_view(final(self).cooldowns@) == with_entry(stamps_view(old(self).cooldowns@), pkg@, now_ms),
            final(status).last_package is Some && final(status).last_package->0@ == pkg@,
            final(status).file_count == 0,
            final(status).files_failed == 0,
            final(status).bytes == 0,
            final(status).discovery_ms == 0,
            final(status).readahead_ms == 0,
            final(status).total_ms == total_ms,
            final(status).result == Some(PreloadResult::NoCandidates),
    {
        status.last_package = Some(String::from_str(pkg));
        status.file_count = 0;
        status.files_failed = 0;
        status.bytes = 0;
        status.discovery_ms = 0;
        status.readahead_ms = 0;
        status.total_ms = total_ms;
        status.result = Some(PreloadResult::NoCandidates);
        set_stamp(&mut self.cooldowns, String::from_str(pkg), now_ms);
    }

    /// A package's files were read ahead: the counts and timings are
    /// recorded with the result they make, and its cooldown starts.
    pub fn record_warmup(
        &mut self,
        now_ms: u64,
        pkg: &str,
        files_done: usize,
        files_failed: usize,
        bytes: u64,
        readahead_ms: u64,
        total_ms: u64,
        status: &mut PreloadStatusFile,
    )
        ensures
            stamps_view(final(self).cooldowns@) == with_entry(stamps_view(old(self).cooldowns@), pkg@, now_ms),
            final(status).last_package is Some && final(status).last_package->0@ == pkg@,
            final(status).file_count == files_done,
            final(status).files_failed == files_failed,
            final(status).bytes == bytes,
            final(status).discovery_ms == 0,
            final(status).readahead_ms == readahead_ms,
            final(status).total_ms == total_ms,
            final(status).result == Some(result_of(files_done, files_failed)),
    {
        status.last_package = Some(String::from_str(pkg));
        status.file_count = files_done;
        status.files_failed = files_failed;
        status.bytes = bytes;
        status.discovery_ms = 0;
        status.readahead_ms = readahead_ms;
        status.total_ms = total_ms;
        status.result = Some(preload_result(files_done, files_failed));
        set_stamp(&mut self.cooldowns, String::from_str(pkg), now_ms);
    }
}

/// A package preloaded at `t` is in cooldown at `later` exactly while
/// less than `PRELOAD_COOLDOWN_MS` has passed.
pub proof fn law_preload_cooldown(c: Seq<(Seq<char>, u64)>, pkg: Seq<char>, t: u64, later: u64)
    requires
        age(later, t) < PRELOAD_COOLDOWN_MS,
    ensures
        value_of(swept(with_entry(c, pkg, t), later), pkg) == Some(t),
{
    crate::high_level::addons::keyed::lemma_with_entry_value(c, pkg, t, pkg);
    lemma_fresh_keeps_last(with_entry(c, pkg, t), later, (2 * PRELOAD_COOLDOWN_MS) as u64);
}

/// Sweeping keeps a fresh last entry, so the value of its key.
proof fn lemma_fresh_keeps_last(s: Seq<(Seq<char>, u64)>, now: u64, window: u64)
    requires
        s.len() > 0,
        age(now, s.last().1) < window,
    ensures
        value_of(fresh_entries(s, now, window), s.last().0) == Some(s.last().1),
{
    let r = fresh_entries(s, now, window);
    assert(r == fresh_entries(s.drop_last(), now, window).push(s.last()));
}

} // verus!
