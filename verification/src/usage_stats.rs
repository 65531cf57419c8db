//! The `stats` report: per-app usage, most foreground time first, as the
//! command line prints it.

use vstd::prelude::*;
use crate::text::{
    decimal_digits, lemma_text_lt_irreflexive, lemma_text_lt_total, lemma_text_lt_transitive, push_decimal, push_str,
    str_eq, text_less, text_lt,
};

verus! {

/// What is known of one app's use.
pub struct UsageStat {
    pub package: String,
    pub uid: u32,
    pub sessions: u64,
    pub foreground_ms: u64,
    pub last_seen_ms: u64,
}

/// A stat as plain values: package, uid, sessions, foreground time, last
/// seen.
pub open spec fn stat_view(s: UsageStat) -> (Seq<char>, u32, u64, u64, u64) {
    (s.package@, s.uid, s.sessions, s.foreground_ms, s.last_seen_ms)
}

pub open spec fn stats_view(s: Seq<UsageStat>) -> Seq<(Seq<char>, u32, u64, u64, u64)> {
    s.map_values(|x: UsageStat| stat_view(x))
}

/// Whether stat `a` is listed before stat `b`: more foreground time first,
/// then by package name, then by uid.
pub open spec fn listed_before(a: (Seq<char>, u32, u64, u64, u64), b: (Seq<char>, u32, u64, u64, u64)) -> bool {
    ||| a.3 > b.3
    ||| a.3 == b.3 && text_lt(a.0, b.0)
    ||| a.3 == b.3 && a.0 == b.0 && a.1 < b.1
}

/// Stats in listing order.
pub open spec fn stats_sorted(s: Seq<(Seq<char>, u32, u64, u64, u64)>) -> bool {
    forall|i: int, j: int| 0 <= i < j < s.len() ==> !listed_before(#[trigger] s[j], #[trigger] s[i])
}

proof fn lemma_listed_before_order(
    a: (Seq<char>, u32, u64, u64, u64),
    b: (Seq<char>, u32, u64, u64, u64),
    c: (Seq<char>, u32, u64, u64, u64),
)
    ensures
        !listed_before(a, a),
        listed_before(a, b) ==> !listed_before(b, a),
        listed_before(a, b) && listed_before(b, c) ==> listed_before(a, c),
        !listed_before(a, b) && !listed_before(b, c) ==> !listed_before(a, c),
{
    lemma_text_lt_irreflexive(a.0);
    lemma_text_lt_total(a.0, b.0);
    lemma_text_lt_total(b.0, c.0);
    lemma_text_lt_total(a.0, c.0);
    if text_lt(a.0, b.0) && text_lt(b.0, a.0) {
        lemma_text_lt_transitive(a.0, b.0, a.0);
    }
    if text_lt(a.0, b.0) && text_lt(b.0, c.0) {
        lemma_text_lt_transitive(a.0, b.0, c.0);
    }
    if text_lt(b.0, a.0) && text_lt(c.0, b.0) {
        lemma_text_lt_transitive(c.0, b.0, a.0);
    }
    if text_lt(c.0, a.0) && text_lt(a.0, c.0) {
        lemma_text_lt_transitive(a.0, c.0, a.0);
    }
    if text_lt(b.0, a.0) && text_lt(a.0, b.0) {
        lemma_text_lt_transitive(a.0, b.0, a.0);
    }
    if text_lt(c.0, b.0) && text_lt(b.0, c.0) {
        lemma_text_lt_transitive(b.0, c.0, b.0);
    }
    lemma_text_lt_irreflexive(b.0);
    lemma_text_lt_irreflexive(c.0);
}

fn copy_stat(s: &UsageStat) -> (c: UsageStat)
    ensures
        stat_view(c) == stat_view(*s),
{
    UsageStat {
        package: s.package.clone(),
        uid: s.uid,
        sessions: s.sessions,
        foreground_ms: s.foreground_ms,
        last_seen_ms: s.last_seen_ms,
    }
}

fn before(a: &UsageStat, b: &UsageStat) -> (r: bool)
    ensures
        r == listed_before(stat_view(*a), stat_view(*b)),
{
    if a.foreground_ms != b.foreground_ms {
        return a.foreground_ms > b.foreground_ms;
    }
    if text_less(a.package.as_str(), b.package.as_str()) {
        return true;
    }
    str_eq(a.package.as_str(), b.package.as_str()) && a.uid < b.uid
}

/// The stats in listing order (stats that compare equal keep their order).
pub fn sort_stats(stats: &Vec<UsageStat>) -> (r: Vec<UsageStat>)
    ensures
        stats_sorted(stats_view(r@)),
        stats_view(r@).to_multiset() == stats_view(stats@).to_multiset(),
{
    broadcast use vstd::seq_lib::group_to_multiset_ensures;

    let mut out: Vec<UsageStat> = Vec::new();
    let n = stats.len();
    for i in 0..n
        invariant
            n == stats@.len(),
            stats_sorted(stats_view(out@)),
            stats_view(out@).to_multiset() == stats_view(stats@.take(i as int)).to_multiset(),
    {
        let x = &stats[i];
        let m = out.len();
        let mut p: usize = 0;
        while p < m && !before(x, &out[p])
            invariant
                m == out@.len(),
                p <= m,
                forall|j: int| 0 <= j < p ==> !listed_before(stat_view(*x), #[trigger] stats_view(out@)[j]),
            decreases m - p,
        {
            p = p + 1;
        }
        let ghost old_view = stats_view(out@);
        let ghost xv = stat_view(*x);
        let e = copy_stat(x);
        out.insert(p, e);
        proof {
            assert(stats_view(out@) =~= old_view.insert(p as int, xv));
            assert(stats_view(stats@.take(i + 1)) =~= stats_view(stats@.take(i as int)).push(xv));
            vstd::seq_lib::to_multiset_insert(old_view, p as int, xv);
            vstd::seq_lib::to_multiset_build(stats_view(stats@.take(i as int)), xv);
            let l = stats_view(out@);
            assert forall|a: int, b: int| 0 <= a < b < l.len() implies !listed_before(#[trigger] l[b], #[trigger] l[a]) by {
                if b < p {
                    assert(l[a] == old_view[a] && l[b] == old_view[b]);
                } else if b == p {
                    assert(l[a] == old_view[a]);
                    lemma_listed_before_order(xv, l[a], xv);
                } else if a == p {
                    assert(l[b] == old_view[b - 1]);
                    // The first stat after the insertion point comes after x,
                    // and so does everything after it.
                    assert(listed_before(xv, old_view[p as int]));
                    lemma_listed_before_order(xv, old_view[p as int], old_view[b - 1]);
                    if b - 1 > p {
                        assert(!listed_before(old_view[b - 1], old_view[p as int]));
                    }
                    lemma_listed_before_order(old_view[b - 1], xv, old_view[p as int]);
                    lemma_listed_before_order(xv, old_view[b - 1], xv);
                } else if a < p {
                    assert(l[a] == old_view[a] && l[b] == old_view[b - 1]);
                } else {
                    assert(l[a] == old_view[a - 1] && l[b] == old_view[b - 1]);
                }
            }
        }
    }
    proof {
        assert(stats@.take(n as int) =~= stats@);
    }
    out
}

/// A number of two or more digits, with a leading zero below ten.
pub open spec fn two_digits(n: nat) -> Seq<char> {
    if n < 10 {
        seq!['0'] + decimal_digits(n)
    } else {
        decimal_digits(n)
    }
}

/// A foreground time, in its two largest units: `1d 03h`, `2h 05m`,
/// `4m 09s`, `26s`.
pub open spec fn duration_text(ms: u64) -> Seq<char> {
    let total_seconds = ms / 1000;
    let seconds = total_seconds % 60;
    let total_minutes = total_seconds / 60;
    let minutes = total_minutes % 60;
    let total_hours = total_minutes / 60;
    let hours = total_hours % 24;
    let days = total_hours / 24;
    if days > 0 {
        decimal_digits(days as nat) + "d "@ + two_digits(hours as nat) + "h"@
    } else if total_hours > 0 {
        decimal_digits(total_hours as nat) + "h "@ + two_digits(minutes as nat) + "m"@
    } else if total_minutes > 0 {
        decimal_digits(total_minutes as nat) + "m "@ + two_digits(seconds as nat) + "s"@
    } else {
        decimal_digits(seconds as nat) + "s"@
    }
}

/// The entry of the stat at position `idx` (counted from zero).
pub open spec fn entry_text(idx: nat, s: (Seq<char>, u32, u64, u64, u64)) -> Seq<char> {
    decimal_digits(idx + 1) + ". "@ + s.0 + "\n   uid: "@ + decimal_digits(s.1 as nat) + "\n   sessions: "@
        + decimal_digits(s.2 as nat) + "\n   foreground: "@ + duration_text(s.3) + "\n"@
}

/// The entries of `s`, separated by blank lines.
pub open spec fn entries_text(s: Seq<(Seq<char>, u32, u64, u64, u64)>) -> Seq<char>
    decreases s.len(),
{
    if s.len() == 0 {
        seq![]
    } else {
        let sep: Seq<char> = if s.len() > 1 {
            "\n"@
        } else {
            seq![]
        };
        entries_text(s.drop_last()) + sep + entry_text((s.len() - 1) as nat, s.last())
    }
}

/// The report for stats already in listing order.
pub open spec fn pretty_text(s: Seq<(Seq<char>, u32, u64, u64, u64)>) -> Seq<char> {
    if s.len() == 0 {
        "No usage stats collected yet.\n"@
    } else {
        "CoreShift usage stats\n\n"@ + entries_text(s)
    }
}

fn push_two_digits(out: &mut String, n: u64)
    ensures
        final(out)@ == old(out)@ + two_digits(n as nat),
{
    if n < 10 {
        push_str(out, "0");
        proof {
            reveal_strlit("0");
        }
        let ghost mid = out@;
        push_decimal(out, n);
        assert(out@ =~= old(out)@ + two_digits(n as nat));
    } else {
        push_decimal(out, n);
    }
}

/// Appends a foreground time (see `duration_text`).
pub fn push_duration(out: &mut String, ms: u64)
    ensures
        final(out)@ == old(out)@ + duration_text(ms),
{
    let total_seconds = ms / 1000;
    let seconds = total_seconds % 60;
    let total_minutes = total_seconds / 60;
    let minutes = total_minutes % 60;
    let total_hours = total_minutes / 60;
    let hours = total_hours % 24;
    let days = total_hours / 24;
    let ghost start = out@;
    if days > 0 {
        push_decimal(out, days);
        push_str(out, "d ");
        push_two_digits(out, hours);
        push_str(out, "h");
    } else if total_hours > 0 {
        push_decimal(out, total_hours);
        push_str(out, "h ");
        push_two_digits(out, minutes);
        push_str(out, "m");
    } else if total_minutes > 0 {
        push_decimal(out, total_minutes);
        push_str(out, "m ");
        push_two_digits(out, seconds);
        push_str(out, "s");
    } else {
        push_decimal(out, seconds);
        push_str(out, "s");
    }
    assert(out@ =~= start + duration_text(ms));
}

/// A foreground time in its two largest units (see `duration_text`).
pub fn format_foreground_duration(ms: u64) -> (r: String)
    ensures
        r@ == duration_text(ms),
{
    let mut out = String::new();
    push_duration(&mut out, ms);
    assert(out@ =~= duration_text(ms));
    out
}

fn push_entry(out: &mut String, idx: usize, s: &UsageStat)
    requires
        idx < u64::MAX,
    ensures
        final(out)@ == old(out)@ + entry_text(idx as nat, stat_view(*s)),
{
    let ghost start = out@;
    push_decimal(out, (idx as u64) + 1);
    push_str(out, ". ");
    push_str(out, s.package.as_str());
    push_str(out, "\n   uid: ");
    push_decimal(out, s.uid as u64);
    push_str(out, "\n   sessions: ");
    push_decimal(out, s.sessions);
    push_str(out, "\n   foreground: ");
    push_duration(out, s.foreground_ms);
    push_str(out, "\n");
    assert(out@ =~= start + entry_text(idx as nat, stat_view(*s)));
}

/// The usage report: a title, then each app's entry (position, package,
/// uid, sessions, foreground time), most foreground time first, separated
/// by blank lines; a short notice when there are no stats.
pub fn format_pretty_stats(stats: &Vec<UsageStat>) -> (r: String)
    ensures
        exists|t: Seq<(Seq<char>, u32, u64, u64, u64)>|
            #![trigger pretty_text(t)]
            stats_sorted(t) && t.to_multiset() == stats_view(stats@).to_multiset() && r@ == pretty_text(t),
{
    let sorted = sort_stats(stats);
    let ghost t = stats_view(sorted@);
    if sorted.len() == 0 {
        let r = crate::text::string_of("No usage stats collected yet.\n");
        assert(r@ == pretty_text(t));
        return r;
    }
    let mut out = crate::text::string_of("CoreShift usage stats\n\n");
    let n = sorted.len();
    let mut i: usize = 0;
    while i < n
        invariant
            n == sorted@.len(),
            n > 0,
            t == stats_view(sorted@),
            i <= n,
            out@ == "CoreShift usage stats\n\n"@ + entries_text(t.take(i as int)),
        decreases n - i,
    {
        let ghost pre = out@;
        if i > 0 {
            push_str(&mut out, "\n");
        }
        push_entry(&mut out, i, &sorted[i]);
        proof {
            let ti = t.take(i + 1);
            assert(ti.drop_last() =~= t.take(i as int));
            assert(ti.last() == stat_view(sorted@[i as int]));
            let sep: Seq<char> = if i > 0 {
                "\n"@
            } else {
                seq![]
            };
            assert(entries_text(ti) == entries_text(t.take(i as int)) + sep + entry_text(i as nat, ti.last()));
            assert(out@ =~= "CoreShift usage stats\n\n"@ + entries_text(ti));
        }
        i = i + 1;
    }
    proof {
        assert(t.take(n as int) =~= t);
        assert(out@ == pretty_text(t));
    }
    out
}

} // verus!
