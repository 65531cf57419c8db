//! Status records of the daemon and their public summary: what the status
//! file holds, and the condensed view shown to users.

use vstd::prelude::*;
use crate::features::profile::{credit_time, sort_by_time_desc, sorted_by_time_desc, ProfileFeature};
use crate::high_level::addons::keyed::{age, stamps_view};

verus! {

/// How the last preload of a package went.
#[derive(Debug, Clone, Copy, PartialEq, Eq, Structural)]
pub enum PreloadResult {
    Success,
    Cooldown,
    Partial,
    Failed,
    NoCandidates,
}

pub struct DaemonInfo {
    pub alive: bool,
    pub mode: String,
    pub started_ms: u64,
    pub warnings: Vec<String>,
}

pub struct ForegroundInfo {
    pub package: Option<String>,
    pub pid: Option<i32>,
}

pub struct PreloadInfo {
    pub last_package: Option<String>,
    pub file_count: usize,
    pub files_failed: usize,
    pub bytes: u64,
    pub discovery_ms: u64,
    pub readahead_ms: u64,
    pub total_ms: u64,
    pub result_code: Option<PreloadResult>,
}

pub struct FeatureState {
    pub preload: PreloadInfo,
    pub profile: ProfileFeature,
}

pub struct PublicDaemon {
    pub alive: bool,
    pub mode: String,
    pub uptime_secs: u64,
}

pub struct PublicForeground {
    pub package: Option<String>,
    pub pid: Option<i32>,
    pub session_secs: u64,
}

pub struct PublicAppStat {
    pub package: String,
    pub total_secs: u64,
}

pub struct PublicProfile {
    pub class: String,
    pub recommendation: String,
    pub switch_count: u64,
    pub top_apps: Vec<PublicAppStat>,
}

pub struct PublicPreload {
    pub result: Option<PreloadResult>,
    pub bytes: u64,
    pub duration_ms: u64,
}

pub struct PublicFeatures {
    pub preload: PublicPreload,
    pub profile: PublicProfile,
}

pub struct PublicAppIndex {
    pub ready: bool,
    pub packages: usize,
}

/// Apps listed in the public status.
pub const PUBLIC_TOP_APPS: usize = 3;

/// Whole seconds from `start_ms` to `now_ms` (zero if `now_ms` is earlier).
pub open spec fn whole_secs(start_ms: u64, now_ms: u64) -> u64 {
    (age(now_ms, start_ms) / 1000) as u64
}

pub fn elapsed_secs(start_ms: u64, now_ms: u64) -> (r: u64)
    ensures
        r == whole_secs(start_ms, now_ms),
{
    if now_ms >= start_ms {
        (now_ms - start_ms) / 1000
    } else {
        0
    }
}

/// The preload summary of the public status.
pub fn public_preload(info: &PreloadInfo) -> (p: PublicPreload)
    ensures
        p.result == info.result_code,
        p.bytes == info.bytes,
        p.duration_ms == info.total_ms,
{
    PublicPreload { result: info.result_code, bytes: info.bytes, duration_ms: info.total_ms }
}

/// The app index is ready once built and not stale.
pub fn public_app_index(stale: bool, built_ms: u64, packages: usize) -> (p: PublicAppIndex)
    ensures
        p.ready == (!stale && built_ms > 0),
        p.packages == packages,
{
    PublicAppIndex { ready: !stale && built_ms > 0, packages }
}

/// The longest-used apps, at most `PUBLIC_TOP_APPS` of them, with the
/// running session of the foreground app counted in: its whole seconds
/// since `session_started_ms` are added to its time.
pub fn public_top_apps(
    profile: &ProfileFeature,
    foreground: Option<&str>,
    session_started_ms: u64,
    now_ms: u64,
) -> (r: Vec<PublicAppStat>)
    requires
        foreground is Some ==> match crate::features::profile::index_of_key(
            stamps_view(profile.top_apps@),
            foreground->0@,
        ) {
            Some(i) => stamps_view(profile.top_apps@)[i].1 + whole_secs(session_started_ms, now_ms) <= u64::MAX,
            None => true,
        },
    ensures
        ({
            let counted = match foreground {
                Some(p) => crate::features::profile::credit(
                    stamps_view(profile.top_apps@),
                    p@,
                    whole_secs(session_started_ms, now_ms),
                ),
                None => stamps_view(profile.top_apps@),
            };
            let shown = r@.map_values(|a: PublicAppStat| (a.package@, a.total_secs));
            &&& shown.len() == if counted.len() < PUBLIC_TOP_APPS { counted.len() } else { PUBLIC_TOP_APPS as nat }
            &&& sorted_by_time_desc(shown)
            &&& exists|all: Seq<(Seq<char>, u64)>|
                #![trigger all.to_multiset()]
                {
                    &&& all.to_multiset() == counted.to_multiset()
                    &&& sorted_by_time_desc(all)
                    &&& shown == all.take(shown.len() as int)
                }
        }),
{
    let mut times = copy_times(&profile.top_apps);
    match foreground {
        Some(p) => {
            credit_time(&mut times, p, elapsed_secs(session_started_ms, now_ms));
        },
        None => {},
    }
    let ghost counted = stamps_view(times@);
    let sorted = sort_by_time_desc(&times);
    let mut out: Vec<PublicAppStat> = Vec::new();
    let n = if sorted.len() < PUBLIC_TOP_APPS { sorted.len() } else { PUBLIC_TOP_APPS };
    for i in 0..n
        invariant
            n <= sorted@.len(),
            out@.map_values(|a: PublicAppStat| (a.package@, a.total_secs)) == stamps_view(sorted@).take(i as int),
    {
        let ghost before = out@;
        let stat = PublicAppStat { package: sorted[i].0.clone(), total_secs: sorted[i].1 };
        let ghost sv = (stat.package@, stat.total_secs);
        out.push(stat);
        proof {
            assert(sv == stamps_view(sorted@)[i as int]);
            assert(out@.map_values(|a: PublicAppStat| (a.package@, a.total_secs)) =~= before.map_values(
                |a: PublicAppStat| (a.package@, a.total_secs),
            ).push(sv));
            assert(stamps_view(sorted@).take(i + 1) =~= stamps_view(sorted@).take(i as int).push(sv));
        }
    }
    proof {
        let shown = out@.map_values(|a: PublicAppStat| (a.package@, a.total_secs));
        let all = stamps_view(sorted@);
        assert(sorted_by_time_desc(shown)) by {
            assert forall|a: int, b: int| 0 <= a < b < shown.len() implies #[trigger] shown[a].1 >= #[trigger] shown[b].1 by {
                assert(shown[a] == all[a] && shown[b] == all[b]);
            }
        }
        vstd::seq_lib::to_multiset_len(all);
        vstd::seq_lib::to_multiset_len(counted);
        assert(all.to_multiset() == counted.to_multiset() && sorted_by_time_desc(all) && shown == all.take(
            shown.len() as int,
        ));
    }
    out
}

fn copy_times(v: &Vec<(String, u64)>) -> (r: Vec<(String, u64)>)
    ensures
        stamps_view(r@) == stamps_view(v@),
{
    let mut out: Vec<(String, u64)> = Vec::new();
    let n = v.len();
    for i in 0..n
        invariant
            n == v@.len(),
            stamps_view(out@) == stamps_view(v@.take(i as int)),
    {
        let ghost before = out@;
        out.push((v[i].0.clone(), v[i].1));
        assert(stamps_view(out@) =~= stamps_view(before).push((v@[i as int].0@, v@[i as int].1)));
        assert(stamps_view(v@.take(i + 1)) =~= stamps_view(v@.take(i as int)).push((v@[i as int].0@, v@[i as int].1)));
    }
    assert(v@.take(n as int) =~= v@);
    out
}

} // verus!
