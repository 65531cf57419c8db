use corepolicy_manager::usage_stats::{format_foreground_duration, format_pretty_stats, sort_stats, UsageStat};

fn stat(package: &str, uid: u32, sessions: u64, foreground_ms: u64, last_seen_ms: u64) -> UsageStat {
    UsageStat { package: package.to_string(), uid, sessions, foreground_ms, last_seen_ms }
}

#[test]
fn pretty_stats_matches_policy_cli_shape() {
    let stats = vec![stat("com.seconds", 10001, 1, 26_000, 111_111_111), stat("com.days", 10004, 4, 97_200_000, 444_444_444)];

    assert_eq!(
        format_pretty_stats(&stats),
        [
            "CoreShift usage stats\n\n",
            "1. com.days\n",
            "   uid: 10004\n",
            "   sessions: 4\n",
            "   foreground: 1d 03h\n\n",
            "2. com.seconds\n",
            "   uid: 10001\n",
            "   sessions: 1\n",
            "   foreground: 26s\n",
        ]
        .concat()
    );
}

#[test]
fn pretty_stats_empty_message_matches_policy_cli() {
    assert_eq!(format_pretty_stats(&vec![]), "No usage stats collected yet.\n");
}

#[test]
fn foreground_durations_use_two_units() {
    assert_eq!(format_foreground_duration(0), "0s");
    assert_eq!(format_foreground_duration(26_999), "26s");
    assert_eq!(format_foreground_duration(249_000), "4m 09s");
    assert_eq!(format_foreground_duration(7_500_000), "2h 05m");
    assert_eq!(format_foreground_duration(97_200_000), "1d 03h");
    assert_eq!(format_foreground_duration(36 * 86_400_000), "36d 00h");
}

#[test]
fn stats_order_by_time_then_name_then_uid() {
    let stats = vec![
        stat("com.b", 2, 1, 5_000, 0),
        stat("com.a", 9, 1, 5_000, 0),
        stat("com.a", 3, 1, 5_000, 0),
        stat("com.z", 1, 1, 9_000, 0),
    ];
    let sorted = sort_stats(&stats);
    let keys: Vec<(&str, u32)> = sorted.iter().map(|s| (s.package.as_str(), s.uid)).collect();
    assert_eq!(keys, vec![("com.z", 1), ("com.a", 3), ("com.a", 9), ("com.b", 2)]);
}
