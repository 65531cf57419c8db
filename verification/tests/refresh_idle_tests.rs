use corepolicy_manager::refresh_idle::{
    dynamic_enabled, is_sync_report, load_config, parse_input_devices, poll_timeout_from_deadline, rate_gt, rate_int,
    rate_setting_value, same_rate, set_args_valid, setting_write_needed, valid_rate, Mode, PropState, RefreshDaemon,
    RefreshLoop,
};

fn props(dynamic: &str, low: &str, high: &str) -> PropState {
    PropState { dynamic: dynamic.to_string(), low: low.to_string(), high: high.to_string() }
}

fn daemon() -> RefreshDaemon {
    RefreshDaemon::new(load_config(None, None, None, None))
}

#[test]
fn rates_are_digits_and_dots() {
    assert!(valid_rate("60"));
    assert!(valid_rate("120.0"));
    assert!(valid_rate("."));
    assert!(!valid_rate(""));
    assert!(!valid_rate("60hz"));
    assert!(!valid_rate("-60"));
}

#[test]
fn rates_compare_by_whole_part() {
    assert_eq!(rate_int("120.5"), Some(120));
    assert_eq!(rate_int("90"), Some(90));
    assert_eq!(rate_int(".5"), None);
    assert_eq!(rate_int("null"), None);
    assert_eq!(rate_int("-3"), Some(-3));
    assert_eq!(rate_int("99999999999999999999"), None);
    assert!(rate_gt("120", "60"));
    assert!(!rate_gt("60", "120"));
    assert!(!rate_gt("60.9", "60.1"));
    assert!(same_rate("60.9", "60"));
    assert!(!same_rate("", ""));
    assert!(!rate_gt("abc", "60"));
    assert!(setting_write_needed("60", "120"));
    assert!(!setting_write_needed("120.0", "120"));
    assert!(setting_write_needed("null", "60"));
}

#[test]
fn switch_property_values() {
    for on in ["1", "true", "TRUE", "yes", "YES", "on", "ON"] {
        assert!(dynamic_enabled(on));
    }
    for off in ["", "0", "True", "enable", " 1"] {
        assert!(!dynamic_enabled(off));
    }
}

#[test]
fn settings_read_back() {
    assert_eq!(rate_setting_value(""), "0");
    assert_eq!(rate_setting_value("null"), "0");
    assert_eq!(rate_setting_value("90.0"), "90.0");
}

#[test]
fn input_device_lists() {
    assert_eq!(
        parse_input_devices("/dev/input/event2, /dev/input/event3\t/dev/input/event4,,"),
        vec!["/dev/input/event2", "/dev/input/event3", "/dev/input/event4"]
    );
    assert!(parse_input_devices(" , ").is_empty());
    assert!(is_sync_report(0, 0));
    assert!(!is_sync_report(3, 0));
}

#[test]
fn configuration_defaults_and_overrides() {
    let c = load_config(None, None, None, None);
    assert_eq!(c.idle_ms, 5_000);
    assert_eq!(c.default_low, "60");
    assert_eq!(c.default_high, "120");
    assert_eq!(c.input_devices, vec!["/dev/input/event2".to_string()]);

    let c = load_config(Some("3"), Some("48"), Some("90.0"), Some("/dev/input/event1 /dev/input/event5"));
    assert_eq!(c.idle_ms, 3_000);
    assert_eq!(c.default_low, "48");
    assert_eq!(c.default_high, "90.0");
    assert_eq!(c.input_devices.len(), 2);

    let c = load_config(Some("0"), Some("fast"), Some(""), Some("   "));
    assert_eq!(c.idle_ms, 5_000);
    assert_eq!(c.default_low, "60");
    assert_eq!(c.default_high, "120");
    assert_eq!(c.input_devices, vec!["/dev/input/event2".to_string()]);

    assert_eq!(load_config(Some("+7"), None, None, None).idle_ms, 7_000);
    assert_eq!(load_config(Some("99999999"), None, None, None).idle_ms, i32::MAX);
}

#[test]
fn poll_timeouts() {
    assert_eq!(poll_timeout_from_deadline(None, 100), -1);
    assert_eq!(poll_timeout_from_deadline(Some(100), 100), 0);
    assert_eq!(poll_timeout_from_deadline(Some(50), 100), 0);
    assert_eq!(poll_timeout_from_deadline(Some(350), 100), 250);
    assert_eq!(poll_timeout_from_deadline(Some(i64::MAX), 0), i32::MAX);
}

#[test]
fn range_comes_from_environment_then_properties() {
    let mut d = daemon();
    assert!(d.choose_configured_rates(Some("48"), Some("90"), "30", "60"));
    assert_eq!((d.low_rate.as_str(), d.high_rate.as_str()), ("48", "90"));

    // An unordered environment pair gives way to the properties.
    assert!(d.choose_configured_rates(Some("90"), Some("48"), "30", "60"));
    assert_eq!((d.low_rate.as_str(), d.high_rate.as_str()), ("30", "60"));

    // A missing property is taken from the defaults.
    assert!(d.choose_configured_rates(None, None, "", "144"));
    assert_eq!((d.low_rate.as_str(), d.high_rate.as_str()), ("60", "144"));

    // Properties out of order: no range, nothing changes.
    assert!(!d.choose_configured_rates(None, None, "", "30"));
    assert_eq!((d.low_rate.as_str(), d.high_rate.as_str()), ("60", "144"));

    // No property at all: the settings are to be asked.
    assert!(!d.choose_configured_rates(None, None, "", ""));
}

#[test]
fn range_falls_back_to_settings_then_defaults() {
    let mut d = daemon();
    assert!(d.choose_fallback_rates("60", "120"));
    assert_eq!((d.low_rate.as_str(), d.high_rate.as_str()), ("60", "120"));
    assert!(d.choose_fallback_rates("0", "0"));
    assert_eq!((d.low_rate.as_str(), d.high_rate.as_str()), ("60", "120"));

    let mut bad = RefreshDaemon::new(load_config(None, Some("120"), Some("60"), None));
    assert!(!bad.choose_fallback_rates("90", "90"));
    assert!(bad.low_rate.is_empty());
}

#[test]
fn writes_for_each_mode() {
    let mut d = daemon();
    assert!(d.choose_fallback_rates("60", "120"));
    assert_eq!(d.rate_writes(Mode::Low), Some(("120".to_string(), "60".to_string())));
    assert_eq!(d.rate_writes(Mode::High), Some(("120".to_string(), "120".to_string())));
    assert_eq!(d.rate_writes(Mode::Unknown), None);
    d.mode_applied(Mode::Low);
    assert_eq!(d.mode, Mode::Low);
}

#[test]
fn loop_switches_between_idle_and_touch() {
    let mut l = RefreshLoop::new(daemon(), props("1", "", ""));
    assert_eq!(l.on_start(true), Some(Mode::Low));
    assert_eq!(l.on_start(false), None);
    l.daemon.mode_applied(Mode::Low);
    assert_eq!(l.poll_timeout(0), -1);

    assert_eq!(l.on_input(true, 1_000), Some(Mode::High));
    assert_eq!(l.idle_deadline, Some(6_000));
    l.daemon.mode_applied(Mode::High);
    assert_eq!(l.poll_timeout(2_000), 4_000);
    assert_eq!(l.on_input(false, 3_000), None);
    assert_eq!(l.idle_deadline, Some(6_000));

    assert_eq!(l.on_poll_timeout(), Some(Mode::Low));
    assert_eq!(l.idle_deadline, None);
    l.daemon.mode_applied(Mode::Low);
    assert_eq!(l.on_poll_timeout(), None);
}

#[test]
fn property_changes_reapply_or_stop() {
    let mut l = RefreshLoop::new(daemon(), props("1", "", ""));
    l.daemon.mode_applied(Mode::High);
    l.idle_deadline = Some(9_000);

    // The same properties change nothing.
    assert_eq!(l.on_props_changed(props("1", "", ""), true), None);
    assert_eq!(l.daemon.mode, Mode::High);

    // A new range: the current mode is applied again.
    assert_eq!(l.on_props_changed(props("1", "48", "90"), true), Some(Mode::High));
    assert_eq!(l.daemon.mode, Mode::Unknown);
    assert_eq!(l.idle_deadline, Some(9_000));

    // Nothing applied yet: start low.
    assert_eq!(l.on_props_changed(props("1", "30", "90"), true), Some(Mode::Low));
    assert_eq!(l.idle_deadline, None);

    // Switched off.
    l.daemon.mode_applied(Mode::Low);
    l.idle_deadline = Some(1);
    assert_eq!(l.on_props_changed(props("0", "30", "90"), false), None);
    assert_eq!(l.daemon.mode, Mode::Unknown);
    assert_eq!(l.idle_deadline, None);

    l.daemon.mode_applied(Mode::High);
    assert_eq!(l.on_shutdown(true), Some(Mode::Low));
    assert_eq!(l.daemon.mode, Mode::Unknown);
}

#[test]
fn set_command_needs_an_ordered_range() {
    assert!(set_args_valid("60", "120"));
    assert!(!set_args_valid("120", "60"));
    assert!(!set_args_valid("60", "60.5"));
    assert!(!set_args_valid("sixty", "120"));
}
