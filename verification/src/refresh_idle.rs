//! The idle refresh-rate switcher: while the user touches the screen the
//! display may run at its high rate; after a quiet spell it drops to the low
//! rate. Rates are decimal texts such as "60" or "120.0", compared by their
//! whole part. Which range to use comes from the environment, then from
//! system properties, then from the current display settings, then from the
//! defaults. Reading properties, settings and input devices, and writing
//! settings, is the runtime's; the decisions are made here.

use vstd::prelude::*;
use crate::text::{
    chars_of, is_digit, is_whitespace, is_ws, parse_i64, parse_i64_text, parse_u64, parse_u64_text, push_char, str_eq,
    string_of,
};

verus! {

/// Property that switches the feature on.
pub const PROP_DYNAMIC: &'static str = "persist.inoi.refresh.dynamic";

/// Property holding the low rate.
pub const PROP_LOW: &'static str = "persist.inoi.refresh.low";

/// Property holding the high rate.
pub const PROP_HIGH: &'static str = "persist.inoi.refresh.high";

/// Seconds without input before the rate drops.
pub const DEFAULT_IDLE_SECONDS: u64 = 5;

pub const DEFAULT_LOW_RATE: &'static str = "60";

pub const DEFAULT_HIGH_RATE: &'static str = "120";

pub const DEFAULT_INPUT_DEVICES: &'static str = "/dev/input/event2";

/// Input event type and code that close a report.
pub const EV_SYN: u16 = 0;

pub const SYN_REPORT: u16 = 0;

/// A character a rate may hold.
pub open spec fn rate_char(c: char) -> bool {
    is_digit(c) || c == '.'
}

/// A rate: one or more ASCII digits and dots.
pub open spec fn valid_rate_text(s: Seq<char>) -> bool {
    s.len() > 0 && forall|i: int| 0 <= i < s.len() ==> #[trigger] rate_char(s[i])
}

/// The position of the first `.` in `s`, or its length when it has none.
pub open spec fn dot_index(s: Seq<char>) -> int
    decreases s.len(),
{
    if s.len() == 0 {
        0
    } else if s[0] == '.' {
        0
    } else {
        1 + dot_index(s.drop_first())
    }
}

/// The whole part of a rate: the text before its first `.` read as an
/// `i64`.
pub open spec fn rate_int_text(s: Seq<char>) -> Option<i64> {
    parse_i64_text(s.take(dot_index(s)))
}

/// Whether rate `a` is above rate `b`; false when either has no whole part.
pub open spec fn rate_above(a: Seq<char>, b: Seq<char>) -> bool {
    match (rate_int_text(a), rate_int_text(b)) {
        (Some(x), Some(y)) => x > y,
        _ => false,
    }
}

/// Whether two rates have the same whole part; false when either has none.
pub open spec fn rate_same(a: Seq<char>, b: Seq<char>) -> bool {
    match (rate_int_text(a), rate_int_text(b)) {
        (Some(x), Some(y)) => x == y,
        _ => false,
    }
}

/// The values of the switch property that turn the feature on.
pub open spec fn dynamic_on(v: Seq<char>) -> bool {
    ||| v == "1"@
    ||| v == "true"@
    ||| v == "TRUE"@
    ||| v == "yes"@
    ||| v == "YES"@
    ||| v == "on"@
    ||| v == "ON"@
}

/// A separator in a list of input devices: a comma or ASCII white space.
pub open spec fn is_device_sep(c: char) -> bool {
    c == ',' || c == ' ' || c == '\t' || c == '\n' || c == '\x0C' || c == '\r'
}

/// The device paths of `s` after a pending path `cur` and the paths `acc`
/// already found.
pub open spec fn device_list_acc(s: Seq<char>, cur: Seq<char>, acc: Seq<Seq<char>>) -> Seq<Seq<char>>
    decreases s.len(),
{
    if s.len() == 0 {
        if cur.len() > 0 {
            acc.push(cur)
        } else {
            acc
        }
    } else if is_device_sep(s[0]) {
        device_list_acc(s.drop_first(), seq![], if cur.len() > 0 { acc.push(cur) } else { acc })
    } else {
        device_list_acc(s.drop_first(), cur.push(s[0]), acc)
    }
}

/// The non-empty pieces of `s` between separators, in order.
pub open spec fn device_list(s: Seq<char>) -> Seq<Seq<char>> {
    device_list_acc(s, seq![], seq![])
}

/// Whether `s` holds something besides white space.
pub open spec fn has_content(s: Seq<char>) -> bool {
    exists|i: int| 0 <= i < s.len() && !is_ws(#[trigger] s[i])
}

/// The idle time in milliseconds for a configured number of seconds: a
/// positive whole number, else `DEFAULT_IDLE_SECONDS`; capped at
/// `i32::MAX` milliseconds.
pub open spec fn idle_ms_of(idle_seconds: Option<Seq<char>>) -> i32 {
    let secs: u64 = match idle_seconds {
        Some(t) => match parse_u64_text(t) {
            Some(v) => if v > 0 {
                v
            } else {
                DEFAULT_IDLE_SECONDS
            },
            None => DEFAULT_IDLE_SECONDS,
        },
        None => DEFAULT_IDLE_SECONDS,
    };
    if secs * 1000 > i32::MAX {
        i32::MAX
    } else {
        (secs * 1000) as i32
    }
}

/// A configured rate if it is valid, else the default.
pub open spec fn rate_or(configured: Option<Seq<char>>, default: Seq<char>) -> Seq<char> {
    match configured {
        Some(r) => if valid_rate_text(r) {
            r
        } else {
            default
        },
        None => default,
    }
}

/// The device list configured, or the default one when none is or it is
/// blank.
pub open spec fn devices_text(configured: Option<Seq<char>>) -> Seq<char> {
    match configured {
        Some(d) => if has_content(d) {
            d
        } else {
            DEFAULT_INPUT_DEVICES@
        },
        None => DEFAULT_INPUT_DEVICES@,
    }
}

/// What a display setting read back stands for: an empty or `null` answer
/// means 0.
pub open spec fn setting_value(output: Seq<char>) -> Seq<char> {
    if output == ""@ || output == "null"@ {
        "0"@
    } else {
        output
    }
}

/// How the switcher is set up.
pub struct RefreshConfig {
    pub idle_ms: i32,
    pub default_low: String,
    pub default_high: String,
    pub input_devices: Vec<String>,
}

/// The rate the display runs at: not yet set by us, low, or high.
#[derive(Clone, Copy, Debug, PartialEq, Eq, Structural)]
pub enum Mode {
    Unknown,
    Low,
    High,
}

/// The switcher's rate range and the mode it last applied.
pub struct RefreshDaemon {
    pub config: RefreshConfig,
    pub low_rate: String,
    pub high_rate: String,
    pub mode: Mode,
}

/// The range given by the environment or the properties: the environment's
/// pair when both rates are valid and ordered; else, when either property
/// holds a valid rate, the properties (a missing one taken from the
/// defaults) if they are ordered.
pub open spec fn configured_rates(
    c: RefreshConfig,
    env_low: Option<Seq<char>>,
    env_high: Option<Seq<char>>,
    prop_low: Seq<char>,
    prop_high: Seq<char>,
) -> Option<(Seq<char>, Seq<char>)> {
    let env_ok = match (env_low, env_high) {
        (Some(l), Some(h)) => valid_rate_text(l) && valid_rate_text(h) && rate_above(h, l),
        _ => false,
    };
    if env_ok {
        Some((env_low->0, env_high->0))
    } else if valid_rate_text(prop_low) || valid_rate_text(prop_high) {
        let l = if valid_rate_text(prop_low) {
            prop_low
        } else {
            c.default_low@
        };
        let h = if valid_rate_text(prop_high) {
            prop_high
        } else {
            c.default_high@
        };
        if rate_above(h, l) {
            Some((l, h))
        } else {
            None
        }
    } else {
        None
    }
}

/// The range when neither environment nor properties give one: the
/// display's current minimum and peak if they are ordered, else the
/// defaults if they are.
pub open spec fn fallback_rates(c: RefreshConfig, current_min: Seq<char>, current_peak: Seq<char>) -> Option<
    (Seq<char>, Seq<char>),
> {
    if rate_above(current_peak, current_min) {
        Some((current_min, current_peak))
    } else if rate_above(c.default_high@, c.default_low@) {
        Some((c.default_low@, c.default_high@))
    } else {
        None
    }
}

/// The display settings written to enter mode `m`: the peak rate is always
/// the high rate; the minimum is the high rate in high mode and the low
/// rate in low mode.
pub open spec fn writes_for(d: RefreshDaemon, m: Mode) -> Option<(Seq<char>, Seq<char>)> {
    match m {
        Mode::High => Some((d.high_rate@, d.high_rate@)),
        Mode::Low => Some((d.high_rate@, d.low_rate@)),
        Mode::Unknown => None,
    }
}

/// Whether a text is a rate.
pub fn valid_rate(value: &str) -> (r: bool)
    ensures
        r == valid_rate_text(value@),
{
    let v = chars_of(value);
    let n = v.len();
    if n == 0 {
        return false;
    }
    let mut i: usize = 0;
    while i < n
        invariant
            v@ == value@,
            n == value@.len(),
            i <= n,
            forall|k: int| 0 <= k < i ==> #[trigger] rate_char(value@[k]),
        decreases n - i,
    {
        let c = v[i];
        if !(('0' <= c && c <= '9') || c == '.') {
            assert(!rate_char(value@[i as int]));
            return false;
        }
        i = i + 1;
    }
    true
}

/// The whole part of a rate (see `rate_int_text`).
pub fn rate_int(value: &str) -> (r: Option<i64>)
    ensures
        r == rate_int_text(value@),
{
    let v = chars_of(value);
    let n = v.len();
    let ghost s = value@;
    let mut whole = String::new();
    let mut i: usize = 0;
    proof {
        assert(s.skip(0) =~= s);
    }
    while i < n && v[i] != '.'
        invariant
            v@ == s,
            n == s.len(),
            i <= n,
            whole@ == s.take(i as int),
            dot_index(s) == i + dot_index(s.skip(i as int)),
        decreases n - i,
    {
        proof {
            assert(s.skip(i as int).drop_first() =~= s.skip(i + 1));
            assert(s.skip(i as int)[0] == s[i as int]);
        }
        push_char(&mut whole, v[i]);
        assert(whole@ =~= s.take(i + 1));
        i = i + 1;
    }
    proof {
        if i < n {
            assert(s.skip(i as int)[0] == s[i as int]);
        }
        assert(dot_index(s) == i);
    }
    parse_i64(whole.as_str())
}

/// Whether rate `a` is above rate `b`.
pub fn rate_gt(a: &str, b: &str) -> (r: bool)
    ensures
        r == rate_above(a@, b@),
{
    match (rate_int(a), rate_int(b)) {
        (Some(x), Some(y)) => x > y,
        _ => false,
    }
}

/// Whether two rates have the same whole part.
pub fn same_rate(a: &str, b: &str) -> (r: bool)
    ensures
        r == rate_same(a@, b@),
{
    match (rate_int(a), rate_int(b)) {
        (Some(x), Some(y)) => x == y,
        _ => false,
    }
}

/// Whether a value of the switch property turns the feature on.
pub fn dynamic_enabled(value: &str) -> (r: bool)
    ensures
        r == dynamic_on(value@),
{
    str_eq(value, "1") || str_eq(value, "true") || str_eq(value, "TRUE") || str_eq(value, "yes") || str_eq(
        value,
        "YES",
    ) || str_eq(value, "on") || str_eq(value, "ON")
}

/// Whether a setting is to be written: not when it already holds a rate
/// with the same whole part.
pub fn setting_write_needed(current: &str, value: &str) -> (r: bool)
    ensures
        r == !rate_same(current@, value@),
{
    !same_rate(current, value)
}

/// What a display setting read back stands for (see `setting_value`).
pub fn rate_setting_value(output: &str) -> (r: String)
    ensures
        r@ == setting_value(output@),
{
    if str_eq(output, "") || str_eq(output, "null") {
        string_of("0")
    } else {
        string_of(output)
    }
}

/// Whether an input event closes a report.
pub fn is_sync_report(type_: u16, code: u16) -> (r: bool)
    ensures
        r == (type_ == EV_SYN && code == SYN_REPORT),
{
    type_ == EV_SYN && code == SYN_REPORT
}

/// The input device paths listed in `value`, split at commas and ASCII
/// white space.
pub fn parse_input_devices(value: &str) -> (r: Vec<String>)
    ensures
        r@.len() == device_list(value@).len(),
        forall|i: int| 0 <= i < r@.len() ==> #[trigger] r@[i]@ == device_list(value@)[i],
{
    let v = chars_of(value);
    let n = v.len();
    let mut out: Vec<String> = Vec::new();
    let mut cur = String::new();
    let mut i: usize = 0;
    let ghost mut acc: Seq<Seq<char>> = seq![];
    proof {
        assert(value@.skip(0) =~= value@);
        assert(cur@ =~= Seq::<char>::empty());
    }
    while i < n
        invariant
            v@ == value@,
            n == value@.len(),
            i <= n,
            out@.len() == acc.len(),
            forall|j: int| 0 <= j < out@.len() ==> #[trigger] out@[j]@ == acc[j],
            device_list(value@) == device_list_acc(value@.skip(i as int), cur@, acc),
        decreases n - i,
    {
        let c = v[i];
        proof {
            assert(value@.skip(i as int)[0] == c);
            assert(value@.skip(i as int).drop_first() =~= value@.skip(i + 1));
        }
        if c == ',' || c == ' ' || c == '\t' || c == '\n' || c == '\x0C' || c == '\r' {
            if cur.unicode_len() > 0 {
                let done = cur;
                proof {
                    acc = acc.push(done@);
                }
                out.push(done);
            }
            cur = String::new();
            proof {
                assert(cur@ =~= Seq::<char>::empty());
            }
        } else {
            push_char(&mut cur, c);
        }
        i = i + 1;
    }
    proof {
        assert(value@.skip(i as int).len() == 0);
    }
    if cur.unicode_len() > 0 {
        proof {
            acc = acc.push(cur@);
        }
        out.push(cur);
    }
    out
}

fn has_text_content(s: &str) -> (r: bool)
    ensures
        r == has_content(s@),
{
    let v = chars_of(s);
    let mut i: usize = 0;
    while i < v.len()
        invariant
            v@ == s@,
            i <= v@.len(),
            forall|k: int| 0 <= k < i ==> is_ws(#[trigger] s@[k]),
        decreases v@.len() - i,
    {
        if !is_whitespace(v[i]) {
            assert(!is_ws(s@[i as int]));
            return true;
        }
        i = i + 1;
    }
    false
}

fn opt_text(o: Option<&str>) -> (r: Option<String>)
    ensures
        match (o, r) {
            (Some(a), Some(b)) => a@ == b@,
            (None, None) => true,
            _ => false,
        },
{
    match o {
        Some(a) => Some(string_of(a)),
        None => None,
    }
}

/// The text of an optional configured value.
pub open spec fn opt_seq(o: Option<&str>) -> Option<Seq<char>> {
    match o {
        Some(a) => Some(a@),
        None => None,
    }
}

/// The setup from the configured idle seconds, default rates and input
/// devices (each `None` when not configured): invalid or missing values
/// give way to the defaults.
pub fn load_config(
    idle_seconds: Option<&str>,
    default_low: Option<&str>,
    default_high: Option<&str>,
    input_devices: Option<&str>,
) -> (c: RefreshConfig)
    ensures
        c.idle_ms == idle_ms_of(opt_seq(idle_seconds)),
        c.default_low@ == rate_or(opt_seq(default_low), DEFAULT_LOW_RATE@),
        c.default_high@ == rate_or(opt_seq(default_high), DEFAULT_HIGH_RATE@),
        c.input_devices@.len() == device_list(devices_text(opt_seq(input_devices))).len(),
        forall|i: int| 0 <= i < c.input_devices@.len() ==> #[trigger] c.input_devices@[i]@ == device_list(
            devices_text(opt_seq(input_devices)),
        )[i],
{
    let secs: u64 = match idle_seconds {
        Some(t) => match parse_u64(t) {
            Some(v) => if v > 0 {
                v
            } else {
                DEFAULT_IDLE_SECONDS
            },
            None => DEFAULT_IDLE_SECONDS,
        },
        None => DEFAULT_IDLE_SECONDS,
    };
    let idle_ms: i32 = if secs > 2147483 { 2147483647 } else { (secs * 1000) as i32 };
    let low = match default_low {
        Some(l) => if valid_rate(l) {
            string_of(l)
        } else {
            string_of(DEFAULT_LOW_RATE)
        },
        None => string_of(DEFAULT_LOW_RATE),
    };
    let high = match default_high {
        Some(h) => if valid_rate(h) {
            string_of(h)
        } else {
            string_of(DEFAULT_HIGH_RATE)
        },
        None => string_of(DEFAULT_HIGH_RATE),
    };
    let devices = match input_devices {
        Some(d) => if has_text_content(d) {
            parse_input_devices(d)
        } else {
            parse_input_devices(DEFAULT_INPUT_DEVICES)
        },
        None => parse_input_devices(DEFAULT_INPUT_DEVICES),
    };
    RefreshConfig { idle_ms, default_low: low, default_high: high, input_devices: devices }
}

/// How long to wait for input before the idle deadline: forever (-1) with
/// no deadline, zero once it has passed, else the time left, capped at
/// `i32::MAX`.
pub fn poll_timeout_from_deadline(deadline: Option<i64>, now_ms: i64) -> (t: i32)
    requires
        deadline matches Some(d) ==> i64::MIN <= d - now_ms <= i64::MAX,
    ensures
        t == match deadline {
            None => -1,
            Some(d) => if d - now_ms <= 0 {
                0
            } else if d - now_ms > i32::MAX {
                i32::MAX as int
            } else {
                d - now_ms
            },
        },
{
    let d = match deadline {
        None => return -1,
        Some(d) => d,
    };
    let left = d - now_ms;
    if left <= 0 {
        0
    } else if left > 2147483647 {
        2147483647
    } else {
        left as i32
    }
}

/// Whether `--set LOW HIGH` names a valid, ordered range.
pub fn set_args_valid(low: &str, high: &str) -> (r: bool)
    ensures
        r == (valid_rate_text(low@) && valid_rate_text(high@) && rate_above(high@, low@)),
{
    valid_rate(low) && valid_rate(high) && rate_gt(high, low)
}

impl RefreshDaemon {
    /// A switcher that has not set any rate yet.
    pub fn new(config: RefreshConfig) -> (d: Self)
        ensures
            d.config == config,
            d.low_rate@ == Seq::<char>::empty(),
            d.high_rate@ == Seq::<char>::empty(),
            d.mode == Mode::Unknown,
    {
        RefreshDaemon { config, low_rate: String::new(), high_rate: String::new(), mode: Mode::Unknown }
    }

    /// Takes the range from the environment or the properties (see
    /// `configured_rates`), if they give one; each value is `None` (or
    /// empty, for a property) when not set.
    pub fn choose_configured_rates(
        &mut self,
        env_low: Option<&str>,
        env_high: Option<&str>,
        prop_low: &str,
        prop_high: &str,
    ) -> (ok: bool)
        ensures
            match configured_rates(old(self).config, opt_seq(env_low), opt_seq(env_high), prop_low@, prop_high@) {
                Some((l, h)) => ok && final(self).low_rate@ == l && final(self).high_rate@ == h,
                None => !ok && final(self).low_rate == old(self).low_rate && final(self).high_rate
                    == old(self).high_rate,
            },
            ok ==> rate_above(final(self).high_rate@, final(self).low_rate@),
            final(self).config == old(self).config,
            final(self).mode == old(self).mode,
    {
        let env_ok = match (env_low, env_high) {
            (Some(l), Some(h)) => valid_rate(l) && valid_rate(h) && rate_gt(h, l),
            _ => false,
        };
        if env_ok {
            match (env_low, env_high) {
                (Some(l), Some(h)) => {
                    self.low_rate = string_of(l);
                    self.high_rate = string_of(h);
                },
                _ => {},
            }
            return true;
        }
        let low_ok = valid_rate(prop_low);
        let high_ok = valid_rate(prop_high);
        if !(low_ok || high_ok) {
            return false;
        }
        let l = if low_ok {
            string_of(prop_low)
        } else {
            self.config.default_low.clone()
        };
        let h = if high_ok {
            string_of(prop_high)
        } else {
            self.config.default_high.clone()
        };
        if rate_gt(h.as_str(), l.as_str()) {
            self.low_rate = l;
            self.high_rate = h;
            true
        } else {
            false
        }
    }

    /// Takes the range from the display's current settings or the
    /// defaults (see `fallback_rates`), if they give one.
    pub fn choose_fallback_rates(&mut self, current_min: &str, current_peak: &str) -> (ok: bool)
        ensures
            match fallback_rates(old(self).config, current_min@, current_peak@) {
                Some((l, h)) => ok && final(self).low_rate@ == l && final(self).high_rate@ == h,
                None => !ok && final(self).low_rate == old(self).low_rate && final(self).high_rate
                    == old(self).high_rate,
            },
            ok ==> rate_above(final(self).high_rate@, final(self).low_rate@),
            final(self).config == old(self).config,
            final(self).mode == old(self).mode,
    {
        if rate_gt(current_peak, current_min) {
            self.low_rate = string_of(current_min);
            self.high_rate = string_of(current_peak);
            return true;
        }
        if rate_gt(self.config.default_high.as_str(), self.config.default_low.as_str()) {
            self.low_rate = self.config.default_low.clone();
            self.high_rate = self.config.default_high.clone();
            return true;
        }
        false
    }

    /// The settings to write to enter `new_mode`, as (peak, minimum); `None`
    /// for `Mode::Unknown`, which is never entered by a write.
    pub fn rate_writes(&self, new_mode: Mode) -> (r: Option<(String, String)>)
        ensures
            match (r, writes_for(*self, new_mode)) {
                (Some((p, m)), Some((sp, sm))) => p@ == sp && m@ == sm,
                (None, None) => true,
                _ => false,
            },
    {
        match new_mode {
            Mode::High => Some((self.high_rate.clone(), self.high_rate.clone())),
            Mode::Low => Some((self.high_rate.clone(), self.low_rate.clone())),
            Mode::Unknown => None,
        }
    }

    /// Records that `new_mode` was entered.
    pub fn mode_applied(&mut self, new_mode: Mode)
        ensures
            final(self).mode == new_mode,
            final(self).config == old(self).config,
            final(self).low_rate == old(self).low_rate,
            final(self).high_rate == old(self).high_rate,
    {
        self.mode = new_mode;
    }
}

/// The three properties the switcher follows.
pub struct PropState {
    pub dynamic: String,
    pub low: String,
    pub high: String,
}

/// The properties as texts.
pub open spec fn props_view(p: PropState) -> (Seq<char>, Seq<char>, Seq<char>) {
    (p.dynamic@, p.low@, p.high@)
}

/// The switcher between events: its rates and mode, the properties last
/// seen, and when the high rate is to end.
pub struct RefreshLoop {
    pub daemon: RefreshDaemon,
    pub last_props: PropState,
    pub idle_deadline: Option<i64>,
}

impl RefreshLoop {
    /// A loop that has seen `props` and has no deadline.
    pub fn new(daemon: RefreshDaemon, props: PropState) -> (l: Self)
        ensures
            l.daemon == daemon,
            l.last_props == props,
            l.idle_deadline is None,
    {
        RefreshLoop { daemon, last_props: props, idle_deadline: None }
    }

    /// The mode to enter at start: low when the feature is on.
    pub fn on_start(&self, dynamic: bool) -> (m: Option<Mode>)
        ensures
            m == (if dynamic { Some(Mode::Low) } else { None::<Mode> }),
    {
        if dynamic {
            Some(Mode::Low)
        } else {
            None
        }
    }

    /// How long to wait for events at `now_ms`: until the idle deadline in
    /// high mode, forever otherwise.
    pub fn poll_timeout(&self, now_ms: i64) -> (t: i32)
        requires
            self.idle_deadline matches Some(d) ==> i64::MIN <= d - now_ms <= i64::MAX,
        ensures
            t == if self.daemon.mode == Mode::High {
                match self.idle_deadline {
                    None => -1,
                    Some(d) => if d - now_ms <= 0 {
                        0
                    } else if d - now_ms > i32::MAX {
                        i32::MAX as int
                    } else {
                        d - now_ms
                    },
                }
            } else {
                -1
            },
    {
        if self.daemon.mode == Mode::High {
            poll_timeout_from_deadline(self.idle_deadline, now_ms)
        } else {
            -1
        }
    }

    /// No event came before the deadline: in high mode, drop to low and
    /// clear the deadline.
    pub fn on_poll_timeout(&mut self) -> (m: Option<Mode>)
        ensures
            old(self).daemon.mode == Mode::High ==> m == Some(Mode::Low) && final(self).idle_deadline is None,
            old(self).daemon.mode != Mode::High ==> m is None && final(self).idle_deadline
                == old(self).idle_deadline,
            final(self).daemon == old(self).daemon,
            final(self).last_props == old(self).last_props,
    {
        if self.daemon.mode == Mode::High {
            self.idle_deadline = None;
            Some(Mode::Low)
        } else {
            None
        }
    }

    /// The properties were read again. Unchanged ones change nothing.
    /// Otherwise they are remembered; with the feature on, a switcher that
    /// has set no rate enters low mode (deadline cleared), and one that has
    /// is made to apply its mode again (with the new range); with the
    /// feature off, the switcher forgets its mode and deadline.
    pub fn on_props_changed(&mut self, now_props: PropState, dynamic: bool) -> (m: Option<Mode>)
        ensures
            props_view(now_props) == props_view(old(self).last_props) ==> {
                &&& m is None
                &&& final(self).daemon == old(self).daemon
                &&& final(self).idle_deadline == old(self).idle_deadline
                &&& props_view(final(self).last_props) == props_view(old(self).last_props)
            },
            props_view(now_props) != props_view(old(self).last_props) ==> {
                &&& final(self).last_props == now_props
                &&& final(self).daemon.config == old(self).daemon.config
                &&& final(self).daemon.low_rate == old(self).daemon.low_rate
                &&& final(self).daemon.high_rate == old(self).daemon.high_rate
                &&& if !dynamic {
                    &&& m is None
                    &&& final(self).daemon.mode == Mode::Unknown
                    &&& final(self).idle_deadline is None
                } else if old(self).daemon.mode == Mode::Unknown {
                    &&& m == Some(Mode::Low)
                    &&& final(self).daemon.mode == Mode::Unknown
                    &&& final(self).idle_deadline is None
                } else {
                    &&& m == Some(old(self).daemon.mode)
                    &&& final(self).daemon.mode == Mode::Unknown
                    &&& final(self).idle_deadline == old(self).idle_deadline
                }
            },
    {
        let same = str_eq(now_props.dynamic.as_str(), self.last_props.dynamic.as_str()) && str_eq(
            now_props.low.as_str(),
            self.last_props.low.as_str(),
        ) && str_eq(now_props.high.as_str(), self.last_props.high.as_str());
        if same {
            return None;
        }
        self.last_props = now_props;
        if dynamic {
            if self.daemon.mode == Mode::Unknown {
                self.idle_deadline = None;
                Some(Mode::Low)
            } else {
                let current = self.daemon.mode;
                self.daemon.mode = Mode::Unknown;
                Some(current)
            }
        } else {
            self.daemon.mode = Mode::Unknown;
            self.idle_deadline = None;
            None
        }
    }

    /// A report came from an input device at `now_ms`: with the feature
    /// on, enter high mode until `idle_ms` from now.
    pub fn on_input(&mut self, dynamic: bool, now_ms: i64) -> (m: Option<Mode>)
        requires
            i64::MIN <= now_ms + old(self).daemon.config.idle_ms <= i64::MAX,
        ensures
            dynamic ==> m == Some(Mode::High) && final(self).idle_deadline == Some(
                (now_ms + old(self).daemon.config.idle_ms) as i64,
            ),
            !dynamic ==> m is None && final(self).idle_deadline == old(self).idle_deadline,
            final(self).daemon == old(self).daemon,
            final(self).last_props == old(self).last_props,
    {
        if dynamic {
            self.idle_deadline = Some(now_ms + self.daemon.config.idle_ms as i64);
            Some(Mode::High)
        } else {
            None
        }
    }

    /// Stopping: with the feature on, the rate goes back to low (the mode is
    /// forgotten first so that it is applied).
    pub fn on_shutdown(&mut self, dynamic: bool) -> (m: Option<Mode>)
        ensures
            dynamic ==> m == Some(Mode::Low) && final(self).daemon.mode == Mode::Unknown,
            !dynamic ==> m is None && final(self).daemon.mode == old(self).daemon.mode,
            final(self).daemon.config == old(self).daemon.config,
            final(self).daemon.low_rate == old(self).daemon.low_rate,
            final(self).daemon.high_rate == old(self).daemon.high_rate,
            final(self).idle_deadline == old(self).idle_deadline,
    {
        if dynamic {
            self.daemon.mode = Mode::Unknown;
            Some(Mode::Low)
        } else {
            None
        }
    }
}

/// A range the switcher uses never puts the minimum above the peak: once a
/// range is chosen (its high rate above its low rate), entering either mode
/// writes a minimum whose whole part is at most the peak's.
pub proof fn law_minimum_never_above_peak(d: RefreshDaemon, m: Mode)
    requires
        rate_above(d.high_rate@, d.low_rate@),
        m != Mode::Unknown,
    ensures
        writes_for(d, m) matches Some((peak, min)) && rate_int_text(min) is Some && rate_int_text(peak) is Some
            && rate_int_text(min)->0 <= rate_int_text(peak)->0,
{
}

} // verus!
