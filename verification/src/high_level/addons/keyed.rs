//! Small keyed lists: the caches and the in-flight set of the preload
//! addon, held as vectors of entries keyed by text. A key is set by dropping
//! every older entry for it and appending the new one, so the last entry for
//! a key is its value.

use vstd::prelude::*;
use crate::text::{str_eq, text_less, text_lt};

verus! {

/// The texts of a list of names.
pub open spec fn names_view(s: Seq<String>) -> Seq<Seq<char>> {
    s.map_values(|x: String| x@)
}

/// A list of stamped entries, keyed by text.
pub open spec fn stamps_view(s: Seq<(String, u64)>) -> Seq<(Seq<char>, u64)> {
    s.map_values(|e: (String, u64)| (e.0@, e.1))
}

/// A list of text-valued entries, keyed by text.
pub open spec fn texts_view(s: Seq<(String, String)>) -> Seq<(Seq<char>, Seq<char>)> {
    s.map_values(|e: (String, String)| (e.0@, e.1@))
}

/// The value of the last entry for `k`.
pub open spec fn value_of<V>(s: Seq<(Seq<char>, V)>, k: Seq<char>) -> Option<V>
    decreases s.len(),
{
    if s.len() == 0 {
        None
    } else if s.last().0 == k {
        Some(s.last().1)
    } else {
        value_of(s.drop_last(), k)
    }
}

/// The entries whose key is not `k`, in order.
pub open spec fn without_key<V>(s: Seq<(Seq<char>, V)>, k: Seq<char>) -> Seq<(Seq<char>, V)>
    decreases s.len(),
{
    if s.len() == 0 {
        s
    } else {
        let rest = without_key(s.drop_last(), k);
        if s.last().0 == k {
            rest
        } else {
            rest.push(s.last())
        }
    }
}

/// The list with `k` set to `v`.
pub open spec fn with_entry<V>(s: Seq<(Seq<char>, V)>, k: Seq<char>, v: V) -> Seq<(Seq<char>, V)> {
    without_key(s, k).push((k, v))
}

/// How long ago `t` was at `now`; zero for a stamp in the future.
pub open spec fn age(now: u64, t: u64) -> u64 {
    if now >= t {
        (now - t) as u64
    } else {
        0
    }
}

/// The entries stamped less than `window` before `now`, in order.
pub open spec fn fresh_entries(s: Seq<(Seq<char>, u64)>, now: u64, window: u64) -> Seq<(Seq<char>, u64)>
    decreases s.len(),
{
    if s.len() == 0 {
        s
    } else {
        let rest = fresh_entries(s.drop_last(), now, window);
        if age(now, s.last().1) < window {
            rest.push(s.last())
        } else {
            rest
        }
    }
}

/// The names other than `k`, in order.
pub open spec fn names_without(s: Seq<Seq<char>>, k: Seq<char>) -> Seq<Seq<char>>
    decreases s.len(),
{
    if s.len() == 0 {
        s
    } else {
        let rest = names_without(s.drop_last(), k);
        if s.last() == k {
            rest
        } else {
            rest.push(s.last())
        }
    }
}

/// Where `k` goes in names kept in order: after the leading names that come
/// before it.
pub open spec fn insert_pos(s: Seq<Seq<char>>, k: Seq<char>) -> int
    decreases s.len(),
{
    if s.len() == 0 || !text_lt(s[0], k) {
        0
    } else {
        1 + insert_pos(s.drop_first(), k)
    }
}

/// The names with `k` put in its place in their order, unless it is
/// already there.
pub open spec fn with_name_in_order(s: Seq<Seq<char>>, k: Seq<char>) -> Seq<Seq<char>> {
    if s.contains(k) {
        s
    } else {
        s.insert(insert_pos(s, k), k)
    }
}

/// Each name comes before the next.
pub open spec fn names_in_order(s: Seq<Seq<char>>) -> bool {
    forall|i: int, j: int| 0 <= i < j < s.len() ==> text_lt(#[trigger] s[i], #[trigger] s[j])
}

pub proof fn lemma_insert_pos(s: Seq<Seq<char>>, k: Seq<char>)
    ensures
        0 <= insert_pos(s, k) <= s.len(),
        forall|j: int| 0 <= j < insert_pos(s, k) ==> text_lt(#[trigger] s[j], k),
        insert_pos(s, k) < s.len() ==> !text_lt(s[insert_pos(s, k)], k),
    decreases s.len(),
{
    if s.len() > 0 && text_lt(s[0], k) {
        lemma_insert_pos(s.drop_first(), k);
        assert forall|j: int| 0 <= j < insert_pos(s, k) implies text_lt(#[trigger] s[j], k) by {
            if j > 0 {
                assert(s[j] == s.drop_first()[j - 1]);
            }
        }
    }
}

/// The first index in `s` at or after `from` of a name that does not come
/// before `k`, when all names before `from` do.
pub proof fn lemma_insert_pos_at(s: Seq<Seq<char>>, k: Seq<char>, i: int)
    requires
        0 <= i <= s.len(),
        forall|j: int| 0 <= j < i ==> text_lt(#[trigger] s[j], k),
        i == s.len() || !text_lt(s[i], k),
    ensures
        insert_pos(s, k) == i,
    decreases s.len(),
{
    if s.len() > 0 && i > 0 {
        assert(text_lt(s[0], k));
        assert forall|j: int| 0 <= j < i - 1 implies text_lt(#[trigger] s.drop_first()[j], k) by {
            assert(s.drop_first()[j] == s[j + 1]);
        }
        lemma_insert_pos_at(s.drop_first(), k, i - 1);
    }
}

/// Putting a new name in its place keeps the names distinct and in order.
pub proof fn lemma_with_name_in_order(s: Seq<Seq<char>>, k: Seq<char>)
    requires
        names_distinct(s),
    ensures
        names_distinct(with_name_in_order(s, k)),
        names_in_order(s) ==> names_in_order(with_name_in_order(s, k)),
        forall|q: Seq<char>| #[trigger] with_name_in_order(s, k).contains(q) <==> (s.contains(q) || q == k),
{
    if !s.contains(k) {
        let p = insert_pos(s, k);
        lemma_insert_pos(s, k);
        let w = s.insert(p, k);
        assert forall|i: int, j: int| 0 <= i < j < w.len() implies #[trigger] w[i] != #[trigger] w[j] by {
            if i < p && j < p {
                assert(w[i] == s[i] && w[j] == s[j]);
            } else if i < p && j == p {
                assert(w[i] == s[i]);
            } else if i < p {
                assert(w[i] == s[i] && w[j] == s[j - 1]);
            } else if i == p {
                assert(w[j] == s[j - 1]);
            } else {
                assert(w[i] == s[i - 1] && w[j] == s[j - 1]);
            }
        }
        if names_in_order(s) {
            assert forall|i: int, j: int| 0 <= i < j < w.len() implies text_lt(#[trigger] w[i], #[trigger] w[j]) by {
                if i < p && j < p {
                    assert(w[i] == s[i] && w[j] == s[j]);
                } else if i < p && j == p {
                    assert(w[i] == s[i]);
                } else if i < p {
                    assert(w[i] == s[i] && w[j] == s[j - 1]);
                } else if i == p {
                    assert(w[j] == s[j - 1]);
                    assert(!text_lt(s[p], k));
                    crate::text::lemma_text_lt_total(s[p], k);
                    if j - 1 > p {
                        crate::text::lemma_text_lt_transitive(k, s[p], s[j - 1]);
                    }
                } else {
                    assert(w[i] == s[i - 1] && w[j] == s[j - 1]);
                }
            }
        }
        assert forall|q: Seq<char>| #[trigger] w.contains(q) <==> (s.contains(q) || q == k) by {
            if w.contains(q) {
                let i = choose|i: int| 0 <= i < w.len() && w[i] == q;
                if i < p {
                    assert(s[i] == q);
                } else if i > p {
                    assert(s[i - 1] == q);
                }
            }
            if s.contains(q) {
                let i = choose|i: int| 0 <= i < s.len() && s[i] == q;
                if i < p {
                    assert(w[i] == q);
                } else {
                    assert(w[i + 1] == q);
                }
            }
            if q == k {
                assert(w[p] == k);
            }
        }
    }
}

/// Dropping a name keeps the names in order.
pub proof fn lemma_names_without_in_order(s: Seq<Seq<char>>, k: Seq<char>)
    requires
        names_in_order(s),
    ensures
        names_in_order(names_without(s, k)),
    decreases s.len(),
{
    if s.len() > 0 {
        let d = s.drop_last();
        assert(names_in_order(d)) by {
            assert forall|i: int, j: int| 0 <= i < j < d.len() implies text_lt(#[trigger] d[i], #[trigger] d[j]) by {
                assert(d[i] == s[i] && d[j] == s[j]);
            }
        }
        lemma_names_without_in_order(d, k);
        lemma_names_without_entries(d, k);
        let rest = names_without(d, k);
        if s.last() != k {
            let w = rest.push(s.last());
            assert forall|i: int, j: int| 0 <= i < j < w.len() implies text_lt(#[trigger] w[i], #[trigger] w[j]) by {
                if j == w.len() - 1 {
                    assert(w[i] == rest[i]);
                    assert(d.contains(rest[i]));
                    let a = choose|a: int| 0 <= a < d.len() && d[a] == rest[i];
                    assert(s[a] == d[a]);
                    assert(text_lt(s[a], s[s.len() - 1]));
                } else {
                    assert(w[i] == rest[i] && w[j] == rest[j]);
                }
            }
        }
    }
}

/// No key occurs twice.
pub open spec fn keys_distinct<V>(s: Seq<(Seq<char>, V)>) -> bool {
    forall|i: int, j: int| 0 <= i < j < s.len() ==> #[trigger] s[i].0 != #[trigger] s[j].0
}

/// No name occurs twice.
pub open spec fn names_distinct(s: Seq<Seq<char>>) -> bool {
    forall|i: int, j: int| 0 <= i < j < s.len() ==> #[trigger] s[i] != #[trigger] s[j]
}

/// Every entry of `without_key(s, k)` is an entry of `s` with a key other than `k`.
pub proof fn lemma_without_key_entries<V>(s: Seq<(Seq<char>, V)>, k: Seq<char>)
    ensures
        without_key(s, k).len() <= s.len(),
        forall|i: int| 0 <= i < without_key(s, k).len() ==> #[trigger] without_key(s, k)[i].0 != k
            && s.contains(without_key(s, k)[i]),
    decreases s.len(),
{
    if s.len() > 0 {
        lemma_without_key_entries(s.drop_last(), k);
        let rest = without_key(s.drop_last(), k);
        assert forall|i: int| 0 <= i < without_key(s, k).len() implies #[trigger] without_key(s, k)[i].0 != k
            && s.contains(without_key(s, k)[i]) by {
            if i < rest.len() {
                let j = choose|j: int| 0 <= j < s.drop_last().len() && s.drop_last()[j] == rest[i];
                assert(s[j] == rest[i]);
            } else {
                assert(s[s.len() - 1] == s.last());
            }
        }
    }
}

/// Setting a key gives it the new value and leaves every other key's value.
pub proof fn lemma_with_entry_value<V>(s: Seq<(Seq<char>, V)>, k: Seq<char>, v: V, q: Seq<char>)
    ensures
        value_of(with_entry(s, k, v), q) == if q == k { Some(v) } else { value_of(s, q) },
{
    let w = with_entry(s, k, v);
    assert(w.drop_last() =~= without_key(s, k));
    if q != k {
        lemma_without_key_value(s, k, q);
    }
}

/// Dropping the entries for `k` leaves the value of every other key.
pub proof fn lemma_without_key_value<V>(s: Seq<(Seq<char>, V)>, k: Seq<char>, q: Seq<char>)
    requires
        q != k,
    ensures
        value_of(without_key(s, k), q) == value_of(s, q),
    decreases s.len(),
{
    if s.len() > 0 {
        lemma_without_key_value(s.drop_last(), k, q);
        let rest = without_key(s.drop_last(), k);
        if s.last().0 != k {
            assert(rest.push(s.last()).drop_last() =~= rest);
        }
    }
}

/// Dropping the entries for `k` keeps the keys distinct.
pub proof fn lemma_without_key_distinct<V>(s: Seq<(Seq<char>, V)>, k: Seq<char>)
    requires
        keys_distinct(s),
    ensures
        keys_distinct(without_key(s, k)),
    decreases s.len(),
{
    if s.len() > 0 {
        let d = s.drop_last();
        assert(keys_distinct(d)) by {
            assert forall|i: int, j: int| 0 <= i < j < d.len() implies #[trigger] d[i].0 != #[trigger] d[j].0 by {
                assert(d[i] == s[i] && d[j] == s[j]);
            }
        }
        lemma_without_key_distinct(d, k);
        lemma_without_key_entries(d, k);
        let rest = without_key(d, k);
        if s.last().0 != k {
            let w = rest.push(s.last());
            assert forall|i: int, j: int| 0 <= i < j < w.len() implies #[trigger] w[i].0 != #[trigger] w[j].0 by {
                if j == w.len() - 1 {
                    assert(w[i] == rest[i]);
                    assert(rest[i].0 != k);
                    let m = choose|m: int| 0 <= m < d.len() && d[m] == rest[i];
                    assert(s[m] == d[m]);
                    assert(s[s.len() - 1] == s.last());
                } else {
                    assert(w[i] == rest[i] && w[j] == rest[j]);
                }
            }
        }
    }
}

/// Setting a key keeps the keys distinct.
pub proof fn lemma_with_entry_distinct<V>(s: Seq<(Seq<char>, V)>, k: Seq<char>, v: V)
    requires
        keys_distinct(s),
    ensures
        keys_distinct(with_entry(s, k, v)),
{
    lemma_without_key_distinct(s, k);
    lemma_without_key_entries(s, k);
    let rest = without_key(s, k);
    let w = with_entry(s, k, v);
    assert forall|i: int, j: int| 0 <= i < j < w.len() implies #[trigger] w[i].0 != #[trigger] w[j].0 by {
        if j == w.len() - 1 {
            assert(w[i] == rest[i]);
        } else {
            assert(w[i] == rest[i] && w[j] == rest[j]);
        }
    }
}

/// Removing a name leaves it absent and keeps every other name.
pub proof fn lemma_names_without(s: Seq<Seq<char>>, k: Seq<char>, q: Seq<char>)
    ensures
        !names_without(s, k).contains(k),
        q != k ==> (names_without(s, k).contains(q) <==> s.contains(q)),
    decreases s.len(),
{
    if s.len() > 0 {
        let d = s.drop_last();
        lemma_names_without(d, k, q);
        let rest = names_without(d, k);
        if s.last() != k {
            let w = rest.push(s.last());
            if w.contains(k) {
                let i = choose|i: int| 0 <= i < w.len() && w[i] == k;
                assert(i < rest.len() ==> w[i] == rest[i]);
            }
            if q != k {
                if w.contains(q) && !s.contains(q) {
                    let i = choose|i: int| 0 <= i < w.len() && w[i] == q;
                    if i < rest.len() {
                        assert(w[i] == rest[i]);
                        let m = choose|m: int| 0 <= m < d.len() && d[m] == q;
                        assert(s[m] == d[m]);
                    } else {
                        assert(s[s.len() - 1] == s.last());
                    }
                }
                if s.contains(q) && !w.contains(q) {
                    let i = choose|i: int| 0 <= i < s.len() && s[i] == q;
                    if i < d.len() {
                        assert(d[i] == s[i]);
                        let m = choose|m: int| 0 <= m < rest.len() && rest[m] == q;
                        assert(w[m] == rest[m]);
                    } else {
                        assert(w[w.len() - 1] == s.last());
                    }
                }
            }
        } else {
            if q != k {
                if s.contains(q) && !d.contains(q) {
                    let i = choose|i: int| 0 <= i < s.len() && s[i] == q;
                    assert(i < d.len());
                    assert(d[i] == s[i]);
                }
                if d.contains(q) {
                    let i = choose|i: int| 0 <= i < d.len() && d[i] == q;
                    assert(s[i] == d[i]);
                }
            }
        }
    }
}

/// Every entry kept by `fresh_entries` is an entry of `s`.
pub proof fn lemma_fresh_entries(s: Seq<(Seq<char>, u64)>, now: u64, window: u64)
    ensures
        fresh_entries(s, now, window).len() <= s.len(),
        forall|i: int| 0 <= i < fresh_entries(s, now, window).len() ==> s.contains(
            #[trigger] fresh_entries(s, now, window)[i],
        ),
    decreases s.len(),
{
    if s.len() > 0 {
        lemma_fresh_entries(s.drop_last(), now, window);
        let rest = fresh_entries(s.drop_last(), now, window);
        assert forall|i: int| 0 <= i < fresh_entries(s, now, window).len() implies s.contains(
            #[trigger] fresh_entries(s, now, window)[i],
        ) by {
            if i < rest.len() {
                let j = choose|j: int| 0 <= j < s.drop_last().len() && s.drop_last()[j] == rest[i];
                assert(s[j] == rest[i]);
            } else {
                assert(s[s.len() - 1] == s.last());
            }
        }
    }
}

/// Dropping stale entries keeps the keys distinct.
pub proof fn lemma_fresh_distinct(s: Seq<(Seq<char>, u64)>, now: u64, window: u64)
    requires
        keys_distinct(s),
    ensures
        keys_distinct(fresh_entries(s, now, window)),
    decreases s.len(),
{
    if s.len() > 0 {
        let d = s.drop_last();
        assert(keys_distinct(d)) by {
            assert forall|i: int, j: int| 0 <= i < j < d.len() implies #[trigger] d[i].0 != #[trigger] d[j].0 by {
                assert(d[i] == s[i] && d[j] == s[j]);
            }
        }
        lemma_fresh_distinct(d, now, window);
        lemma_fresh_entries(d, now, window);
        let rest = fresh_entries(d, now, window);
        if age(now, s.last().1) < window {
            let w = rest.push(s.last());
            assert forall|i: int, j: int| 0 <= i < j < w.len() implies #[trigger] w[i].0 != #[trigger] w[j].0 by {
                if j == w.len() - 1 {
                    assert(w[i] == rest[i]);
                    let m = choose|m: int| 0 <= m < d.len() && d[m] == rest[i];
                    assert(s[m] == d[m]);
                    assert(s[s.len() - 1] == s.last());
                } else {
                    assert(w[i] == rest[i] && w[j] == rest[j]);
                }
            }
        }
    }
}

/// Every name kept by `names_without` is a name of `s`.
pub proof fn lemma_names_without_entries(s: Seq<Seq<char>>, k: Seq<char>)
    ensures
        forall|i: int| 0 <= i < names_without(s, k).len() ==> s.contains(#[trigger] names_without(s, k)[i]),
    decreases s.len(),
{
    if s.len() > 0 {
        lemma_names_without_entries(s.drop_last(), k);
        let rest = names_without(s.drop_last(), k);
        assert forall|i: int| 0 <= i < names_without(s, k).len() implies s.contains(
            #[trigger] names_without(s, k)[i],
        ) by {
            if i < rest.len() {
                let j = choose|j: int| 0 <= j < s.drop_last().len() && s.drop_last()[j] == rest[i];
                assert(s[j] == rest[i]);
            } else {
                assert(s[s.len() - 1] == s.last());
            }
        }
    }
}

/// Removing a name keeps the names distinct.
pub proof fn lemma_names_without_distinct(s: Seq<Seq<char>>, k: Seq<char>)
    requires
        names_distinct(s),
    ensures
        names_distinct(names_without(s, k)),
    decreases s.len(),
{
    if s.len() > 0 {
        let d = s.drop_last();
        assert(names_distinct(d)) by {
            assert forall|i: int, j: int| 0 <= i < j < d.len() implies #[trigger] d[i] != #[trigger] d[j] by {
                assert(d[i] == s[i] && d[j] == s[j]);
            }
        }
        lemma_names_without_distinct(d, k);
        lemma_names_without_entries(d, k);
        let rest = names_without(d, k);
        if s.last() != k {
            let w = rest.push(s.last());
            assert forall|i: int, j: int| 0 <= i < j < w.len() implies #[trigger] w[i] != #[trigger] w[j] by {
                if j == w.len() - 1 {
                    assert(w[i] == rest[i]);
                    let m = choose|m: int| 0 <= m < d.len() && d[m] == rest[i];
                    assert(s[m] == d[m]);
                    assert(s[s.len() - 1] == s.last());
                } else {
                    assert(w[i] == rest[i] && w[j] == rest[j]);
                }
            }
        }
    }
}

proof fn lemma_stamps_take(v: Seq<(String, u64)>, i: int)
    requires
        0 <= i < v.len(),
    ensures
        stamps_view(v.take(i + 1)) == stamps_view(v.take(i)).push((v[i].0@, v[i].1)),
{
    assert(stamps_view(v.take(i + 1)) =~= stamps_view(v.take(i)).push((v[i].0@, v[i].1)));
}

proof fn lemma_texts_take(v: Seq<(String, String)>, i: int)
    requires
        0 <= i < v.len(),
    ensures
        texts_view(v.take(i + 1)) == texts_view(v.take(i)).push((v[i].0@, v[i].1@)),
{
    assert(texts_view(v.take(i + 1)) =~= texts_view(v.take(i)).push((v[i].0@, v[i].1@)));
}

proof fn lemma_names_take(v: Seq<String>, i: int)
    requires
        0 <= i < v.len(),
    ensures
        names_view(v.take(i + 1)) == names_view(v.take(i)).push(v[i]@),
{
    assert(names_view(v.take(i + 1)) =~= names_view(v.take(i)).push(v[i]@));
}

/// The stamp of the last entry for `k`.
pub fn stamp_lookup(v: &Vec<(String, u64)>, k: &str) -> (r: Option<u64>)
    ensures
        r == value_of(stamps_view(v@), k@),
{
    let mut i: usize = v.len();
    proof {
        assert(v@.take(i as int) =~= v@);
    }
    while i > 0
        invariant
            i <= v@.len(),
            value_of(stamps_view(v@), k@) == value_of(stamps_view(v@.take(i as int)), k@),
        decreases i,
    {
        proof {
            lemma_stamps_take(v@, i - 1);
            assert(v@.take(i - 1 + 1) =~= v@.take(i as int));
            assert(stamps_view(v@.take(i as int)).drop_last() =~= stamps_view(v@.take(i - 1)));
        }
        if str_eq(v[i - 1].0.as_str(), k) {
            return Some(v[i - 1].1);
        }
        i = i - 1;
    }
    None
}

/// The text of the last entry for `k`.
pub fn text_lookup(v: &Vec<(String, String)>, k: &str) -> (r: Option<String>)
    ensures
        match r {
            Some(t) => value_of(texts_view(v@), k@) == Some(t@),
            None => value_of(texts_view(v@), k@) is None,
        },
{
    let mut i: usize = v.len();
    proof {
        assert(v@.take(i as int) =~= v@);
    }
    while i > 0
        invariant
            i <= v@.len(),
            value_of(texts_view(v@), k@) == value_of(texts_view(v@.take(i as int)), k@),
        decreases i,
    {
        proof {
            lemma_texts_take(v@, i - 1);
            assert(v@.take(i - 1 + 1) =~= v@.take(i as int));
            assert(texts_view(v@.take(i as int)).drop_last() =~= texts_view(v@.take(i - 1)));
        }
        if str_eq(v[i - 1].0.as_str(), k) {
            return Some(v[i - 1].1.clone());
        }
        i = i - 1;
    }
    None
}

/// Drops every entry for `k`.
pub fn remove_stamp(v: &mut Vec<(String, u64)>, k: &str)
    ensures
        stamps_view(final(v)@) == without_key(stamps_view(old(v)@), k@),
{
    let mut out: Vec<(String, u64)> = Vec::new();
    let n = v.len();
    for i in 0..n
        invariant
            n == v@.len(),
            stamps_view(out@) == without_key(stamps_view(v@.take(i as int)), k@),
    {
        proof {
            lemma_stamps_take(v@, i as int);
            assert(stamps_view(v@.take(i + 1)).drop_last() =~= stamps_view(v@.take(i as int)));
        }
        if !str_eq(v[i].0.as_str(), k) {
            let e = (v[i].0.clone(), v[i].1);
            let ghost before = out@;
            out.push(e);
            proof {
                assert(stamps_view(out@) =~= stamps_view(before).push((v@[i as int].0@, v@[i as int].1)));
            }
        }
    }
    proof {
        assert(v@.take(n as int) =~= v@);
    }
    *v = out;
}

/// Sets the stamp of `k` to `t`.
pub fn set_stamp(v: &mut Vec<(String, u64)>, k: String, t: u64)
    ensures
        stamps_view(final(v)@) == with_entry(stamps_view(old(v)@), k@, t),
{
    remove_stamp(v, k.as_str());
    let ghost before = v@;
    v.push((k, t));
    proof {
        assert(stamps_view(v@) =~= stamps_view(before).push((k@, t)));
    }
}

/// Keeps the entries stamped less than `window` before `now`.
pub fn keep_fresh(v: &mut Vec<(String, u64)>, now: u64, window: u64)
    ensures
        stamps_view(final(v)@) == fresh_entries(stamps_view(old(v)@), now, window),
{
    let mut out: Vec<(String, u64)> = Vec::new();
    let n = v.len();
    for i in 0..n
        invariant
            n == v@.len(),
            stamps_view(out@) == fresh_entries(stamps_view(v@.take(i as int)), now, window),
    {
        proof {
            lemma_stamps_take(v@, i as int);
            assert(stamps_view(v@.take(i + 1)).drop_last() =~= stamps_view(v@.take(i as int)));
        }
        let t = v[i].1;
        let elapsed: u64 = if now >= t { now - t } else { 0 };
        if elapsed < window {
            let e = (v[i].0.clone(), t);
            let ghost before = out@;
            out.push(e);
            proof {
                assert(stamps_view(out@) =~= stamps_view(before).push((v@[i as int].0@, v@[i as int].1)));
            }
        }
    }
    proof {
        assert(v@.take(n as int) =~= v@);
    }
    *v = out;
}

/// Drops every entry for `k`.
pub fn remove_text(v: &mut Vec<(String, String)>, k: &str)
    ensures
        texts_view(final(v)@) == without_key(texts_view(old(v)@), k@),
{
    let mut out: Vec<(String, String)> = Vec::new();
    let n = v.len();
    for i in 0..n
        invariant
            n == v@.len(),
            texts_view(out@) == without_key(texts_view(v@.take(i as int)), k@),
    {
        proof {
            lemma_texts_take(v@, i as int);
            assert(texts_view(v@.take(i + 1)).drop_last() =~= texts_view(v@.take(i as int)));
        }
        if !str_eq(v[i].0.as_str(), k) {
            let e = (v[i].0.clone(), v[i].1.clone());
            let ghost before = out@;
            out.push(e);
            proof {
                assert(texts_view(out@) =~= texts_view(before).push((v@[i as int].0@, v@[i as int].1@)));
            }
        }
    }
    proof {
        assert(v@.take(n as int) =~= v@);
    }
    *v = out;
}

/// Sets the text of `k` to `t`.
pub fn set_text(v: &mut Vec<(String, String)>, k: String, t: String)
    ensures
        texts_view(final(v)@) == with_entry(texts_view(old(v)@), k@, t@),
{
    remove_text(v, k.as_str());
    let ghost before = v@;
    v.push((k, t));
    proof {
        assert(texts_view(v@) =~= texts_view(before).push((k@, t@)));
    }
}

/// Whether `k` is among the names.
pub fn has_name(v: &Vec<String>, k: &str) -> (r: bool)
    ensures
        r == names_view(v@).contains(k@),
{
    let n = v.len();
    for i in 0..n
        invariant
            n == v@.len(),
            forall|j: int| 0 <= j < i ==> #[trigger] names_view(v@)[j] != k@,
    {
        if str_eq(v[i].as_str(), k) {
            assert(names_view(v@)[i as int] == k@);
            return true;
        }
    }
    false
}

/// Drops every occurrence of `k`.
pub fn remove_name(v: &mut Vec<String>, k: &str)
    ensures
        names_view(final(v)@) == names_without(names_view(old(v)@), k@),
{
    let mut out: Vec<String> = Vec::new();
    let n = v.len();
    for i in 0..n
        invariant
            n == v@.len(),
            names_view(out@) == names_without(names_view(v@.take(i as int)), k@),
    {
        proof {
            lemma_names_take(v@, i as int);
            assert(names_view(v@.take(i + 1)).drop_last() =~= names_view(v@.take(i as int)));
        }
        if !str_eq(v[i].as_str(), k) {
            let e = v[i].clone();
            let ghost before = out@;
            out.push(e);
            proof {
                assert(names_view(out@) =~= names_view(before).push(v@[i as int]@));
            }
        }
    }
    proof {
        assert(v@.take(n as int) =~= v@);
    }
    *v = out;
}

/// Puts `k` in its place among names kept in order, unless it is already there.
pub fn add_name_in_order(v: &mut Vec<String>, k: String)
    ensures
        names_view(final(v)@) == with_name_in_order(names_view(old(v)@), k@),
{
    if has_name(v, k.as_str()) {
        return;
    }
    let ghost before = names_view(v@);
    let n = v.len();
    let mut i: usize = 0;
    while i < n && text_less(v[i].as_str(), k.as_str())
        invariant
            n == v@.len(),
            before == names_view(v@),
            i <= n,
            forall|j: int| 0 <= j < i ==> text_lt(#[trigger] before[j], k@),
        decreases n - i,
    {
        i = i + 1;
    }
    proof {
        lemma_insert_pos_at(before, k@, i as int);
    }
    let ghost kv = k@;
    v.insert(i, k);
    proof {
        assert(names_view(v@) =~= before.insert(i as int, kv));
    }
}

} // verus!
