//! What applying a tweak profile writes: the settings of each profile, the
//! kernel, scheduler and uclamp writes they make, the cpuset writes of the
//! discovered topology, and the choice of CPU and block-device governors.
//! The runtime lists the sysfs directories, performs the writes and tallies
//! their outcomes.

use vstd::prelude::*;
use vstd::string::StringExecFns;
use crate::features::tweaks::{cache_value, governor_listed, governor_is_available, tweak_profile_name, TweakCache, TweakProfile};
use crate::text::{after_prefix, decimal_digits, push_decimal, push_str, string_of, strip_text_prefix};

verus! {

/// The settings a profile applies.
#[derive(Clone, Copy)]
pub struct ProfileConfig {
    pub sched_migration_cost: u32,
    pub sched_min_granularity: u32,
    pub sched_wakeup_granularity: u32,
    pub schedutil_up: u32,
    pub schedutil_down: u32,
    pub read_ahead_kb: u32,
    pub nr_requests: u32,
    pub swappiness: u32,
    pub vfs_cache_pressure: u32,
    pub dirty_background_ratio: u32,
    pub dirty_ratio: u32,
    pub dirty_expire: u32,
    pub thp_enabled: &'static str,
    pub thp_defrag: &'static str,
    pub uclamp_min_top_app: u32,
    pub uclamp_max_background: u32,
    pub watermark_scale_factor: u32,
    pub page_cluster: u32,
    pub scan_sleep_millisecs: u32,
}

/// One settings write: a sysfs or procfs path and the text to write.
pub struct TweakWrite {
    pub path: String,
    pub value: String,
}

pub open spec fn writes_view(v: Seq<TweakWrite>) -> Seq<(Seq<char>, Seq<char>)> {
    v.map_values(|w: TweakWrite| (w.path@, w.value@))
}

/// The settings of each profile, as numbers and THP modes.
pub open spec fn config_numbers(c: ProfileConfig) -> Seq<int> {
    seq![
        c.sched_migration_cost as int,
        c.sched_min_granularity as int,
        c.sched_wakeup_granularity as int,
        c.schedutil_up as int,
        c.schedutil_down as int,
        c.read_ahead_kb as int,
        c.nr_requests as int,
        c.swappiness as int,
        c.vfs_cache_pressure as int,
        c.dirty_background_ratio as int,
        c.dirty_ratio as int,
        c.dirty_expire as int,
        c.uclamp_min_top_app as int,
        c.uclamp_max_background as int,
        c.watermark_scale_factor as int,
        c.page_cluster as int,
        c.scan_sleep_millisecs as int,
    ]
}

pub open spec fn profile_numbers(p: TweakProfile) -> Seq<int> {
    match p {
        TweakProfile::Balance => seq![
            5000000, 1500000, 2000000, 500, 20000, 128, 64, 10, 50, 5, 15, 2000, 20, 10, 10, 0, 10000,
        ],
        TweakProfile::Performance => seq![
            3000000, 1000000, 1500000, 250, 40000, 256, 128, 5, 100, 10, 30, 1000, 60, 5, 15, 0, 5000,
        ],
        TweakProfile::Power => seq![
            10000000, 3000000, 4000000, 2000, 10000, 64, 32, 60, 10, 2, 5, 5000, 10, 15, 5, 1, 20000,
        ],
    }
}

pub open spec fn profile_thp(p: TweakProfile) -> (Seq<char>, Seq<char>) {
    match p {
        TweakProfile::Balance => ("madvise"@, "defer"@),
        TweakProfile::Performance => ("always"@, "always"@),
        TweakProfile::Power => ("never"@, "never"@),
    }
}

/// The settings of a profile.
pub fn profile_config(p: TweakProfile) -> (c: ProfileConfig)
    ensures
        config_numbers(c) == profile_numbers(p),
        (c.thp_enabled@, c.thp_defrag@) == profile_thp(p),
{
    let c = match p {
        TweakProfile::Balance => ProfileConfig {
            sched_migration_cost: 5000000,
            sched_min_granularity: 1500000,
            sched_wakeup_granularity: 2000000,
            schedutil_up: 500,
            schedutil_down: 20000,
            read_ahead_kb: 128,
            nr_requests: 64,
            swappiness: 10,
            vfs_cache_pressure: 50,
            dirty_background_ratio: 5,
            dirty_ratio: 15,
            dirty_expire: 2000,
            thp_enabled: "madvise",
            thp_defrag: "defer",
            uclamp_min_top_app: 20,
            uclamp_max_background: 10,
            watermark_scale_factor: 10,
            page_cluster: 0,
            scan_sleep_millisecs: 10000,
        },
        TweakProfile::Performance => ProfileConfig {
            sched_migration_cost: 3000000,
            sched_min_granularity: 1000000,
            sched_wakeup_granularity: 1500000,
            schedutil_up: 250,
            schedutil_down: 40000,
            read_ahead_kb: 256,
            nr_requests: 128,
            swappiness: 5,
            vfs_cache_pressure: 100,
            dirty_background_ratio: 10,
            dirty_ratio: 30,
            dirty_expire: 1000,
            thp_enabled: "always",
            thp_defrag: "always",
            uclamp_min_top_app: 60,
            uclamp_max_background: 5,
            watermark_scale_factor: 15,
            page_cluster: 0,
            scan_sleep_millisecs: 5000,
        },
        TweakProfile::Power => ProfileConfig {
            sched_migration_cost: 10000000,
            sched_min_granularity: 3000000,
            sched_wakeup_granularity: 4000000,
            schedutil_up: 2000,
            schedutil_down: 10000,
            read_ahead_kb: 64,
            nr_requests: 32,
            swappiness: 60,
            vfs_cache_pressure: 10,
            dirty_background_ratio: 2,
            dirty_ratio: 5,
            dirty_expire: 5000,
            thp_enabled: "never",
            thp_defrag: "never",
            uclamp_min_top_app: 10,
            uclamp_max_background: 15,
            watermark_scale_factor: 5,
            page_cluster: 1,
            scan_sleep_millisecs: 20000,
        },
    };
    assert(config_numbers(c) =~= profile_numbers(p));
    c
}

pub open spec fn dec(n: u32) -> Seq<char> {
    decimal_digits(n as nat)
}

pub open spec fn cpufreq_dir() -> Seq<char> {
    "/sys/devices/system/cpu/cpufreq/"@
}

/// The fixed kernel and memory writes of a profile.
pub open spec fn kernel_fixed_writes(c: ProfileConfig) -> Seq<(Seq<char>, Seq<char>)> {
    seq![
        ("/proc/sys/kernel/sched_migration_cost_ns"@, dec(c.sched_migration_cost)),
        ("/proc/sys/kernel/sched_min_granularity_ns"@, dec(c.sched_min_granularity)),
        ("/proc/sys/kernel/sched_wakeup_granularity_ns"@, dec(c.sched_wakeup_granularity)),
        ("/proc/sys/vm/swappiness"@, dec(c.swappiness)),
        ("/proc/sys/vm/vfs_cache_pressure"@, dec(c.vfs_cache_pressure)),
        ("/proc/sys/vm/dirty_background_ratio"@, dec(c.dirty_background_ratio)),
        ("/proc/sys/vm/dirty_ratio"@, dec(c.dirty_ratio)),
        ("/proc/sys/vm/dirty_expire_centisecs"@, dec(c.dirty_expire)),
        ("/proc/sys/vm/watermark_scale_factor"@, dec(c.watermark_scale_factor)),
        ("/proc/sys/vm/page-cluster"@, dec(c.page_cluster)),
        ("/sys/kernel/mm/transparent_hugepage/enabled"@, c.thp_enabled@),
        ("/sys/kernel/mm/transparent_hugepage/defrag"@, c.thp_defrag@),
        ("/sys/kernel/mm/transparent_hugepage/khugepaged/scan_sleep_millisecs"@, dec(c.scan_sleep_millisecs)),
        ("/proc/sys/kernel/sched_autogroup_enabled"@, "0"@),
    ]
}

/// The schedutil writes of one cpufreq policy; iowait boost stays on
/// unless the up rate limit is that of the power profile.
pub open spec fn policy_writes(c: ProfileConfig, name: Seq<char>) -> Seq<(Seq<char>, Seq<char>)> {
    seq![
        (cpufreq_dir() + name + "/schedutil/up_rate_limit_us"@, dec(c.schedutil_up)),
        (cpufreq_dir() + name + "/schedutil/down_rate_limit_us"@, dec(c.schedutil_down)),
        (cpufreq_dir() + name + "/schedutil/iowait_boost_enable"@, if c.schedutil_up != 2000 {
            "1"@
        } else {
            "0"@
        }),
    ]
}

/// Whether a cpufreq entry is a policy.
pub open spec fn is_policy(name: Seq<char>) -> bool {
    after_prefix(name, "policy"@) is Some
}

/// The schedutil writes of the policies among `names`, in order.
pub open spec fn all_policy_writes(c: ProfileConfig, names: Seq<Seq<char>>) -> Seq<(Seq<char>, Seq<char>)>
    decreases names.len(),
{
    if names.len() == 0 {
        seq![]
    } else {
        all_policy_writes(c, names.drop_last()) + if is_policy(names.last()) {
            policy_writes(c, names.last())
        } else {
            seq![]
        }
    }
}

/// Every kernel write of a profile, given the entries of the cpufreq
/// directory.
pub open spec fn kernel_writes_spec(c: ProfileConfig, names: Seq<Seq<char>>) -> Seq<(Seq<char>, Seq<char>)> {
    kernel_fixed_writes(c) + all_policy_writes(c, names) + seq![("/sys/block/zram0/max_comp_streams"@, "2"@)]
}

/// The uclamp writes of a profile.
pub open spec fn uclamp_writes_spec(c: ProfileConfig) -> Seq<(Seq<char>, Seq<char>)> {
    seq![
        ("/dev/cpuctl/background/cpu.uclamp.min"@, "0"@),
        ("/dev/cpuctl/background/cpu.uclamp.max"@, dec(c.uclamp_max_background)),
        ("/dev/cpuctl/system-background/cpu.uclamp.min"@, "0"@),
        ("/dev/cpuctl/system-background/cpu.uclamp.max"@, "15"@),
        ("/dev/cpuctl/foreground/cpu.uclamp.min"@, "0"@),
        ("/dev/cpuctl/foreground/cpu.uclamp.max"@, "25"@),
        ("/dev/cpuctl/top-app/cpu.uclamp.min"@, dec(c.uclamp_min_top_app)),
        ("/dev/cpuctl/top-app/cpu.uclamp.max"@, "100"@),
    ]
}

fn push_write(v: &mut Vec<TweakWrite>, path: String, value: String)
    ensures
        writes_view(final(v)@) == writes_view(old(v)@).push((path@, value@)),
{
    let ghost before = v@;
    v.push(TweakWrite { path, value });
    assert(writes_view(v@) =~= writes_view(before).push((path@, value@)));
}

fn dec_text(n: u32) -> (s: String)
    ensures
        s@ == dec(n),
{
    let mut s = String::new();
    push_decimal(&mut s, n as u64);
    assert(s@ =~= dec(n));
    s
}

fn policy_path(name: &str, leaf: &str) -> (s: String)
    ensures
        s@ == cpufreq_dir() + name@ + leaf@,
{
    let mut s = string_of("/sys/devices/system/cpu/cpufreq/");
    push_str(&mut s, name);
    push_str(&mut s, leaf);
    s
}

fn push_fixed(v: &mut Vec<TweakWrite>, path: &str, value: String)
    ensures
        writes_view(final(v)@) == writes_view(old(v)@).push((path@, value@)),
{
    push_write(v, string_of(path), value);
}

/// The kernel writes of a profile (see `kernel_writes_spec`), given the
/// entries of the cpufreq directory.
pub fn kernel_tweak_writes(c: &ProfileConfig, cpufreq_entries: &Vec<String>) -> (r: Vec<TweakWrite>)
    ensures
        writes_view(r@) == kernel_writes_spec(*c, cpufreq_entries@.map_values(|s: String| s@)),
{
    let mut v: Vec<TweakWrite> = Vec::new();
    push_fixed(&mut v, "/proc/sys/kernel/sched_migration_cost_ns", dec_text(c.sched_migration_cost));
    push_fixed(&mut v, "/proc/sys/kernel/sched_min_granularity_ns", dec_text(c.sched_min_granularity));
    push_fixed(&mut v, "/proc/sys/kernel/sched_wakeup_granularity_ns", dec_text(c.sched_wakeup_granularity));
    push_fixed(&mut v, "/proc/sys/vm/swappiness", dec_text(c.swappiness));
    push_fixed(&mut v, "/proc/sys/vm/vfs_cache_pressure", dec_text(c.vfs_cache_pressure));
    push_fixed(&mut v, "/proc/sys/vm/dirty_background_ratio", dec_text(c.dirty_background_ratio));
    push_fixed(&mut v, "/proc/sys/vm/dirty_ratio", dec_text(c.dirty_ratio));
    push_fixed(&mut v, "/proc/sys/vm/dirty_expire_centisecs", dec_text(c.dirty_expire));
    push_fixed(&mut v, "/proc/sys/vm/watermark_scale_factor", dec_text(c.watermark_scale_factor));
    push_fixed(&mut v, "/proc/sys/vm/page-cluster", dec_text(c.page_cluster));
    push_fixed(&mut v, "/sys/kernel/mm/transparent_hugepage/enabled", string_of(c.thp_enabled));
    push_fixed(&mut v, "/sys/kernel/mm/transparent_hugepage/defrag", string_of(c.thp_defrag));
    push_fixed(
        &mut v,
        "/sys/kernel/mm/transparent_hugepage/khugepaged/scan_sleep_millisecs",
        dec_text(c.scan_sleep_millisecs),
    );
    push_fixed(&mut v, "/proc/sys/kernel/sched_autogroup_enabled", string_of("0"));
    assert(writes_view(v@) =~= kernel_fixed_writes(*c));
    let ghost names = cpufreq_entries@.map_values(|s: String| s@);
    let n = cpufreq_entries.len();
    for i in 0..n
        invariant
            n == cpufreq_entries@.len(),
            names == cpufreq_entries@.map_values(|s: String| s@),
            writes_view(v@) == kernel_fixed_writes(*c) + all_policy_writes(*c, names.take(i as int)),
    {
        let name = cpufreq_entries[i].as_str();
        proof {
            assert(names.take(i + 1).drop_last() =~= names.take(i as int));
            assert(names.take(i + 1).last() == name@);
        }
        let ghost before = writes_view(v@);
        if strip_text_prefix(name, "policy").is_some() {
            push_write(&mut v, policy_path(name, "/schedutil/up_rate_limit_us"), dec_text(c.schedutil_up));
            push_write(&mut v, policy_path(name, "/schedutil/down_rate_limit_us"), dec_text(c.schedutil_down));
            let boost = if c.schedutil_up != 2000 { "1" } else { "0" };
            push_write(&mut v, policy_path(name, "/schedutil/iowait_boost_enable"), string_of(boost));
            assert(writes_view(v@) =~= before + policy_writes(*c, name@));
        } else {
            assert(writes_view(v@) =~= before + Seq::<(Seq<char>, Seq<char>)>::empty());
        }
    }
    assert(names.take(n as int) =~= names);
    push_fixed(&mut v, "/sys/block/zram0/max_comp_streams", string_of("2"));
    assert(writes_view(v@) =~= kernel_writes_spec(*c, names));
    v
}

/// The uclamp writes of a profile (see `uclamp_writes_spec`).
pub fn uclamp_tweak_writes(c: &ProfileConfig) -> (r: Vec<TweakWrite>)
    ensures
        writes_view(r@) == uclamp_writes_spec(*c),
{
    let mut v: Vec<TweakWrite> = Vec::new();
    push_fixed(&mut v, "/dev/cpuctl/background/cpu.uclamp.min", string_of("0"));
    push_fixed(&mut v, "/dev/cpuctl/background/cpu.uclamp.max", dec_text(c.uclamp_max_background));
    push_fixed(&mut v, "/dev/cpuctl/system-background/cpu.uclamp.min", string_of("0"));
    push_fixed(&mut v, "/dev/cpuctl/system-background/cpu.uclamp.max", string_of("15"));
    push_fixed(&mut v, "/dev/cpuctl/foreground/cpu.uclamp.min", string_of("0"));
    push_fixed(&mut v, "/dev/cpuctl/foreground/cpu.uclamp.max", string_of("25"));
    push_fixed(&mut v, "/dev/cpuctl/top-app/cpu.uclamp.min", dec_text(c.uclamp_min_top_app));
    push_fixed(&mut v, "/dev/cpuctl/top-app/cpu.uclamp.max", string_of("100"));
    assert(writes_view(v@) =~= uclamp_writes_spec(*c));
    v
}

/// The cpuset writes: the little cores for the background groups and all
/// cores for the foreground groups, as cached; `None` marks a write
/// skipped for want of a cached core list.
pub open spec fn cpuset_writes_spec(little: Option<Seq<char>>, all: Option<Seq<char>>) -> Seq<
    Option<(Seq<char>, Seq<char>)>,
> {
    (match little {
        Some(l) => seq![
            Some(("/dev/cpuset/background/cpus"@, l)),
            Some(("/dev/cpuset/system-background/cpus"@, l)),
            Some(("/dev/cpuset/background/sched_load_balance"@, "0"@)),
            Some(("/dev/cpuset/system-background/sched_load_balance"@, "0"@)),
        ],
        None => seq![None, None, None, None],
    }) + (match all {
        Some(a) => seq![
            Some(("/dev/cpuset/foreground/cpus"@, a)),
            Some(("/dev/cpuset/top-app/cpus"@, a)),
            Some(("/dev/cpuset/foreground/sched_load_balance"@, "1"@)),
            Some(("/dev/cpuset/top-app/sched_load_balance"@, "1"@)),
            Some(("/dev/cpuset/top-app/sched_relax_domain_level"@, "1"@)),
        ],
        None => seq![None, None, None, None, None],
    })
}

pub open spec fn planned_view(v: Seq<Option<TweakWrite>>) -> Seq<Option<(Seq<char>, Seq<char>)>> {
    v.map_values(
        |w: Option<TweakWrite>|
            match w {
                Some(x) => Some((x.path@, x.value@)),
                None => None,
            },
    )
}

fn push_planned(v: &mut Vec<Option<TweakWrite>>, w: Option<TweakWrite>)
    ensures
        planned_view(final(v)@) == planned_view(old(v)@).push(
            match w {
                Some(x) => Some((x.path@, x.value@)),
                None => None,
            },
        ),
{
    let ghost before = v@;
    let ghost wv = planned_view(seq![w])[0];
    v.push(w);
    assert(planned_view(v@) =~= planned_view(before).push(wv));
}

fn planned(path: &str, value: &str) -> (w: Option<TweakWrite>)
    ensures
        w is Some && w->0.path@ == path@ && w->0.value@ == value@,
{
    Some(TweakWrite { path: string_of(path), value: string_of(value) })
}

/// The cpuset writes of the cached topology (see `cpuset_writes_spec`).
pub fn cpuset_tweak_writes(cache: &TweakCache) -> (r: Vec<Option<TweakWrite>>)
    ensures
        planned_view(r@) == cpuset_writes_spec(
            cache_value(cache.entries@, "cpuset_little"@),
            cache_value(cache.entries@, "cpuset_all"@),
        ),
{
    let mut v: Vec<Option<TweakWrite>> = Vec::new();
    match cache.get("cpuset_little") {
        Some(little) => {
            push_planned(&mut v, planned("/dev/cpuset/background/cpus", little.as_str()));
            push_planned(&mut v, planned("/dev/cpuset/system-background/cpus", little.as_str()));
            push_planned(&mut v, planned("/dev/cpuset/background/sched_load_balance", "0"));
            push_planned(&mut v, planned("/dev/cpuset/system-background/sched_load_balance", "0"));
        },
        None => {
            push_planned(&mut v, None);
            push_planned(&mut v, None);
            push_planned(&mut v, None);
            push_planned(&mut v, None);
        },
    }
    match cache.get("cpuset_all") {
        Some(all) => {
            push_planned(&mut v, planned("/dev/cpuset/foreground/cpus", all.as_str()));
            push_planned(&mut v, planned("/dev/cpuset/top-app/cpus", all.as_str()));
            push_planned(&mut v, planned("/dev/cpuset/foreground/sched_load_balance", "1"));
            push_planned(&mut v, planned("/dev/cpuset/top-app/sched_load_balance", "1"));
            push_planned(&mut v, planned("/dev/cpuset/top-app/sched_relax_domain_level", "1"));
        },
        None => {
            push_planned(&mut v, None);
            push_planned(&mut v, None);
            push_planned(&mut v, None);
            push_planned(&mut v, None);
            push_planned(&mut v, None);
        },
    }
    assert(planned_view(v@) =~= cpuset_writes_spec(
        cache_value(cache.entries@, "cpuset_little"@),
        cache_value(cache.entries@, "cpuset_all"@),
    ));
    v
}

/// The devfreq governor of a profile.
pub open spec fn devfreq_governor_spec(p: TweakProfile) -> Seq<char> {
    match p {
        TweakProfile::Performance => "performance"@,
        _ => "powersave"@,
    }
}

pub fn devfreq_governor(p: TweakProfile) -> (r: &'static str)
    ensures
        r@ == devfreq_governor_spec(p),
{
    match p {
        TweakProfile::Performance => "performance",
        TweakProfile::Power => "powersave",
        TweakProfile::Balance => "powersave",
    }
}

/// Devfreq devices run the `performance` governor under the performance
/// profile and only there; the power and balance profiles both put them on
/// `powersave`. The governor is the profile's own name exactly for the
/// performance profile.
pub proof fn law_devfreq_governor(p: TweakProfile)
    ensures
        devfreq_governor_spec(p) == "performance"@ <==> p == TweakProfile::Performance,
        p == TweakProfile::Power ==> devfreq_governor_spec(p) == "powersave"@,
        p == TweakProfile::Balance ==> devfreq_governor_spec(p) == "powersave"@,
        devfreq_governor_spec(p) == tweak_profile_name(p) <==> p == TweakProfile::Performance,
{
    reveal_strlit("performance");
    reveal_strlit("powersave");
    reveal_strlit("power");
    reveal_strlit("balance");
    assert("performance"@[1] != "powersave"@[1]);
    assert("performance"@ != "powersave"@);
    assert("powersave"@.len() != "power"@.len());
    assert("powersave"@ != "power"@);
    assert("powersave"@[0] != "balance"@[0]);
    assert("powersave"@ != "balance"@);
}

/// The governor the performance and power profiles ask for: the profile's
/// own name, when the policy lists it.
pub open spec fn named_governor(p: TweakProfile, available: Seq<char>) -> Option<Seq<char>> {
    if governor_listed(available, tweak_profile_name(p)) {
        Some(tweak_profile_name(p))
    } else {
        None
    }
}

pub fn named_governor_for(p: TweakProfile, available: &str) -> (r: Option<String>)
    ensures
        match r {
            Some(g) => named_governor(p, available@) == Some(g@),
            None => named_governor(p, available@) is None,
        },
{
    let name = p.name();
    if governor_is_available(available, name) {
        Some(string_of(name))
    } else {
        None
    }
}

/// The id of a CPU directory entry: `cpu` followed by decimal digits.
pub open spec fn cpu_entry_id(name: Seq<char>) -> Option<u32> {
    match after_prefix(name, "cpu"@) {
        Some(rest) => if rest.len() > 0 && crate::text::all_digits(rest) && crate::text::digits_value(rest)
            <= u32::MAX {
            Some(crate::text::digits_value(rest) as u32)
        } else {
            None
        },
        None => None,
    }
}

/// The capacity below which a core counts as little.
pub const LITTLE_CORE_CAP_THRESHOLD: u32 = 512;

/// A core of this capacity is little.
pub open spec fn is_little_capacity(cap: u32) -> bool {
    0 < cap < LITTLE_CORE_CAP_THRESHOLD
}

pub fn is_little_core(cap: u32) -> (r: bool)
    ensures
        r == is_little_capacity(cap),
{
    cap > 0 && cap < LITTLE_CORE_CAP_THRESHOLD
}

/// Reads the id of a CPU directory entry (see `cpu_entry_id`).
pub fn cpu_id_of_entry(name: &str) -> (r: Option<u32>)
    ensures
        r == cpu_entry_id(name@),
{
    match strip_text_prefix(name, "cpu") {
        Some(rest) => {
            let v = crate::text::chars_of(rest.as_str());
            let n = v.len();
            if n == 0 {
                return None;
            }
            let mut acc: u64 = 0;
            let mut i: usize = 0;
            while i < n
                invariant
                    v@ == rest@,
                    after_prefix(name@, "cpu"@) == Some(rest@),
                    n == rest@.len(),
                    i <= n,
                    forall|k: int| 0 <= k < i ==> #[trigger] crate::text::is_digit(rest@[k]),
                    acc == crate::text::digits_value(rest@.take(i as int)),
                    acc <= u32::MAX,
                decreases n - i,
            {
                let c = v[i];
                if !('0' <= c && c <= '9') {
                    assert(!crate::text::all_digits(rest@)) by {
                        assert(!crate::text::is_digit(rest@[i as int]));
                    }
                    return None;
                }
                proof {
                    assert(rest@.take(i + 1).drop_last() =~= rest@.take(i as int));
                }
                let next = acc * 10 + (c as u32 - 48) as u64;
                if next > u32::MAX as u64 {
                    proof {
                        assert forall|k: int| 0 <= k < i + 1 implies #[trigger] crate::text::is_digit(rest@[k]) by {
                            if k == i {
                                assert(rest@[k] == c);
                            }
                        }
                        assert(crate::text::digits_value(rest@.take(i + 1)) == next);
                        if crate::text::all_digits(rest@) {
                            crate::text::lemma_digits_value_grows(rest@, i + 1);
                        }
                    }
                    return None;
                }
                acc = next;
                i = i + 1;
            }
            assert(rest@.take(n as int) =~= rest@);
            Some(acc as u32)
        },
        None => None,
    }
}

/// The first of `prio` that `available` lists.
pub open spec fn first_listed(available: Seq<char>, prio: Seq<Seq<char>>) -> Option<Seq<char>>
    decreases prio.len(),
{
    if prio.len() == 0 {
        None
    } else if governor_listed(available, prio[0]) {
        Some(prio[0])
    } else {
        first_listed(available, prio.drop_first())
    }
}

pub open spec fn texts_of(prio: Seq<&'static str>) -> Seq<Seq<char>> {
    prio.map_values(|p: &'static str| p@)
}

/// The first of `prio` that `available` lists (see `first_listed`).
pub fn first_listed_of(available: &str, prio: &[&'static str]) -> (r: Option<String>)
    ensures
        match r {
            Some(g) => first_listed(available@, texts_of(prio@)) == Some(g@),
            None => first_listed(available@, texts_of(prio@)) is None,
        },
{
    let ghost all = texts_of(prio@);
    let n = prio.len();
    let mut i: usize = 0;
    assert(all.skip(0) =~= all);
    while i < n
        invariant
            n == prio@.len(),
            all == texts_of(prio@),
            i <= n,
            first_listed(available@, all) == first_listed(available@, all.skip(i as int)),
        decreases n - i,
    {
        proof {
            assert(all.skip(i as int)[0] == prio@[i as int]@);
            assert(all.skip(i as int).drop_first() =~= all.skip(i + 1));
        }
        if governor_is_available(available, prio[i]) {
            return Some(string_of(prio[i]));
        }
        i = i + 1;
    }
    None
}

/// The CPU governors the balance profile prefers, best first.
pub open spec fn balance_governors() -> Seq<Seq<char>> {
    seq!["schedutil"@, "simple_ondemand"@, "schedhorizon"@, "sugov_ext"@]
}

/// The block schedulers preferred, best first.
pub open spec fn block_schedulers() -> Seq<Seq<char>> {
    seq!["mq-deadline"@, "kyber"@, "bfq"@, "deadline"@, "none"@, "noop"@]
}

/// A discovered setting: the cached value under `key`; else the first
/// preferred value that `available` lists, which is cached; else none.
pub open spec fn discovered_setting(
    cached: Option<Seq<char>>,
    available: Option<Seq<char>>,
    prio: Seq<Seq<char>>,
) -> Option<Seq<char>> {
    match cached {
        Some(v) => Some(v),
        None => match available {
            Some(a) => first_listed(a, prio),
            None => None,
        },
    }
}

fn discover_setting(cache: &mut TweakCache, key: String, available: Option<&str>, prio: &[&'static str]) -> (r: Option<String>)
    ensures
        ({
            let want = discovered_setting(cache_value(old(cache).entries@, key@), match available {
                Some(a) => Some(a@),
                None => None,
            }, texts_of(prio@));
            &&& match r {
                Some(v) => want == Some(v@),
                None => want is None,
            }
            &&& if cache_value(old(cache).entries@, key@) is None && want is Some {
                &&& cache_value(final(cache).entries@, key@) == want
                &&& forall|k: Seq<char>| k != key@ ==> #[trigger] cache_value(final(cache).entries@, k) == cache_value(
                    old(cache).entries@,
                    k,
                )
                &&& final(cache).dirty
            } else {
                final(cache).entries@ == old(cache).entries@ && final(cache).dirty == old(cache).dirty
            }
            &&& final(cache).schema_version == old(cache).schema_version
            &&& final(cache).updated_ms == old(cache).updated_ms
        }),
{
    match cache.get(key.as_str()) {
        Some(v) => {
            return Some(v.clone());
        },
        None => {},
    }
    match available {
        Some(a) => match first_listed_of(a, prio) {
            Some(best) => {
                cache.insert(key, best.clone());
                Some(best)
            },
            None => None,
        },
        None => None,
    }
}

/// The governor the balance profile sets on a cpufreq policy: the cached
/// one, else the first of `balance_governors` that the policy lists, which
/// is cached under `<policy>_governor`.
pub fn balance_governor(cache: &mut TweakCache, policy: &str, available: Option<&str>) -> (r: Option<String>)
    ensures
        ({
            let key = policy@ + "_governor"@;
            let want = discovered_setting(cache_value(old(cache).entries@, key), match available {
                Some(a) => Some(a@),
                None => None,
            }, balance_governors());
            &&& match r {
                Some(v) => want == Some(v@),
                None => want is None,
            }
            &&& if cache_value(old(cache).entries@, key) is None && want is Some {
                &&& cache_value(final(cache).entries@, key) == want
                &&& forall|k: Seq<char>| k != key ==> #[trigger] cache_value(final(cache).entries@, k) == cache_value(
                    old(cache).entries@,
                    k,
                )
                &&& final(cache).dirty
            } else {
                final(cache).entries@ == old(cache).entries@ && final(cache).dirty == old(cache).dirty
            }
        }),
{
    let mut key = string_of(policy);
    push_str(&mut key, "_governor");
    let prio: [&'static str; 4] = ["schedutil", "simple_ondemand", "schedhorizon", "sugov_ext"];
    assert(texts_of(prio@) =~= balance_governors());
    discover_setting(cache, key, available, &prio)
}

/// Devices whose queues are left alone: loop, RAM and zram devices.
pub open spec fn is_virtual_block(name: Seq<char>) -> bool {
    after_prefix(name, "loop"@) is Some || after_prefix(name, "ram"@) is Some || after_prefix(name, "zram"@) is Some
}

pub fn is_virtual_block_device(name: &str) -> (r: bool)
    ensures
        r == is_virtual_block(name@),
{
    strip_text_prefix(name, "loop").is_some() || strip_text_prefix(name, "ram").is_some() || strip_text_prefix(
        name,
        "zram",
    ).is_some()
}

/// The scheduler set on a block device: the cached one, else the first of
/// `block_schedulers` that the device offers, which is cached under
/// `block_scheduler_<device>`.
pub fn block_scheduler(cache: &mut TweakCache, device: &str, available: Option<&str>) -> (r: Option<String>)
    ensures
        ({
            let key = "block_scheduler_"@ + device@;
            let want = discovered_setting(cache_value(old(cache).entries@, key), match available {
                Some(a) => Some(a@),
                None => None,
            }, block_schedulers());
            &&& match r {
                Some(v) => want == Some(v@),
                None => want is None,
            }
            &&& if cache_value(old(cache).entries@, key) is None && want is Some {
                &&& cache_value(final(cache).entries@, key) == want
                &&& forall|k: Seq<char>| k != key ==> #[trigger] cache_value(final(cache).entries@, k) == cache_value(
                    old(cache).entries@,
                    k,
                )
                &&& final(cache).dirty
            } else {
                final(cache).entries@ == old(cache).entries@ && final(cache).dirty == old(cache).dirty
            }
        }),
{
    let mut key = string_of("block_scheduler_");
    push_str(&mut key, device);
    let prio: [&'static str; 6] = ["mq-deadline", "kyber", "bfq", "deadline", "none", "noop"];
    assert(texts_of(prio@) =~= block_schedulers());
    discover_setting(cache, key, available, &prio)
}

} // verus!
