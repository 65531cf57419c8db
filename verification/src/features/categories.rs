//! The category database: which packages belong to which app category.
//! Each package sits in at most one category once added, and a category's
//! packages are kept sorted without repeats.

use vstd::prelude::*;
use vstd::string::StringExecFns;
use crate::features::profile::{class_name, ProfileClass};
use crate::high_level::addons::keyed::{has_name, names_view, names_without, remove_name, lemma_names_without};
use crate::text::{lemma_text_lt_irreflexive, lemma_text_lt_total, lemma_text_lt_transitive, str_eq, text_less, text_lt};

verus! {

pub struct CategoryDatabase {
    pub version: u32,
    pub updated_ms: u64,
    pub categories: Vec<(String, Vec<String>)>,
}

/// The categories a package may be filed under.
pub open spec fn supported_category(c: Seq<char>) -> bool {
    c == "game"@ || c == "social"@ || c == "tool"@ || c == "launcher"@ || c == "keyboard"@ || c == "system"@
}

/// The profile class a category name stands for.
pub open spec fn class_of_category(c: Seq<char>) -> ProfileClass {
    if c == "game"@ {
        ProfileClass::Game
    } else if c == "social"@ {
        ProfileClass::Social
    } else if c == "tool"@ {
        ProfileClass::Tool
    } else if c == "launcher"@ {
        ProfileClass::Launcher
    } else if c == "keyboard"@ {
        ProfileClass::Keyboard
    } else if c == "system"@ {
        ProfileClass::System
    } else {
        ProfileClass::Unknown
    }
}

/// The categories, with texts for strings.
pub open spec fn categories_view(cats: Seq<(String, Vec<String>)>) -> Seq<(Seq<char>, Seq<Seq<char>>)> {
    cats.map_values(|e: (String, Vec<String>)| (e.0@, names_view(e.1@)))
}

/// The first category whose packages include `pkg`.
pub open spec fn category_of(cats: Seq<(Seq<char>, Seq<Seq<char>>)>, pkg: Seq<char>) -> Option<Seq<char>>
    decreases cats.len(),
{
    if cats.len() == 0 {
        None
    } else if cats[0].1.contains(pkg) {
        Some(cats[0].0)
    } else {
        category_of(cats.drop_first(), pkg)
    }
}

/// The class of a package: that of its category, `Unknown` when it has none.
pub open spec fn classify_spec(cats: Seq<(Seq<char>, Seq<Seq<char>>)>, pkg: Seq<char>) -> ProfileClass {
    match category_of(cats, pkg) {
        Some(c) => class_of_category(c),
        None => ProfileClass::Unknown,
    }
}

/// Every category's packages without `pkg`.
pub open spec fn without_package(cats: Seq<(Seq<char>, Seq<Seq<char>>)>, pkg: Seq<char>) -> Seq<
    (Seq<char>, Seq<Seq<char>>),
> {
    cats.map_values(|e: (Seq<char>, Seq<Seq<char>>)| (e.0, names_without(e.1, pkg)))
}

/// The index of the first category named `c`.
pub open spec fn category_index(cats: Seq<(Seq<char>, Seq<Seq<char>>)>, c: Seq<char>) -> Option<int>
    decreases cats.len(),
{
    if cats.len() == 0 {
        None
    } else if cats[0].0 == c {
        Some(0)
    } else {
        match category_index(cats.drop_first(), c) {
            Some(i) => Some(i + 1),
            None => None,
        }
    }
}

/// Names in strictly increasing order.
pub open spec fn strictly_sorted(s: Seq<Seq<char>>) -> bool {
    forall|i: int, j: int| 0 <= i < j < s.len() ==> text_lt(#[trigger] s[i], #[trigger] s[j])
}

/// `l` holds, sorted and once each, the names of `base` and `x`.
pub open spec fn sorted_with(l: Seq<Seq<char>>, base: Seq<Seq<char>>, x: Seq<char>) -> bool {
    &&& strictly_sorted(l)
    &&& forall|y: Seq<char>| #[trigger] l.contains(y) <==> (y == x || base.contains(y))
}

/// `now` is `cats` with `pkg` filed under `cat` alone: taken out of every
/// category, then added to `cat`'s sorted packages, or to a new last
/// category `cat`.
pub open spec fn filed_under(
    cats: Seq<(Seq<char>, Seq<Seq<char>>)>,
    cat: Seq<char>,
    pkg: Seq<char>,
    now: Seq<(Seq<char>, Seq<Seq<char>>)>,
) -> bool {
    let stripped = without_package(cats, pkg);
    match category_index(stripped, cat) {
        Some(i) => {
            &&& now.len() == stripped.len()
            &&& forall|j: int| 0 <= j < now.len() && j != i ==> #[trigger] now[j] == stripped[j]
            &&& now[i].0 == cat
            &&& sorted_with(now[i].1, stripped[i].1, pkg)
        },
        None => {
            &&& now.len() == stripped.len() + 1
            &&& forall|j: int| 0 <= j < stripped.len() ==> #[trigger] now[j] == stripped[j]
            &&& now[stripped.len() as int] == (cat, seq![pkg])
        },
    }
}

/// A package just filed under a category is classified by that category.
pub proof fn law_filed_package_classifies(
    cats: Seq<(Seq<char>, Seq<Seq<char>>)>,
    cat: Seq<char>,
    pkg: Seq<char>,
    now: Seq<(Seq<char>, Seq<Seq<char>>)>,
)
    requires
        filed_under(cats, cat, pkg, now),
    ensures
        classify_spec(now, pkg) == class_of_category(cat),
{
    let stripped = without_package(cats, pkg);
    lemma_category_index(stripped, cat);
    let i: int = match category_index(stripped, cat) {
        Some(i) => i,
        None => stripped.len() as int,
    };
    assert forall|j: int| 0 <= j < i implies !(#[trigger] now[j].1.contains(pkg)) by {
        assert(now[j] == stripped[j]);
        lemma_names_without(cats[j].1, pkg, pkg);
    }
    lemma_category_of(now, pkg, i);
    assert(now.skip(i)[0] == now[i]);
    if category_index(stripped, cat) is None {
        assert(now[i].1[0] == pkg);
    } else {
        assert(now[i].1.contains(pkg));
    }
}

/// A package filed under one of the six supported categories is classified
/// as the profile class of that name: `keyboard` gives `Keyboard`, `tool`
/// gives `Tool`, and so on; the class's lowercase name is the category.
pub proof fn law_filed_package_has_its_category_class(
    cats: Seq<(Seq<char>, Seq<Seq<char>>)>,
    cat: Seq<char>,
    pkg: Seq<char>,
    now: Seq<(Seq<char>, Seq<Seq<char>>)>,
)
    requires
        filed_under(cats, cat, pkg, now),
        supported_category(cat),
    ensures
        class_name(classify_spec(now, pkg)) == cat,
        cat == "game"@ ==> classify_spec(now, pkg) == ProfileClass::Game,
        cat == "social"@ ==> classify_spec(now, pkg) == ProfileClass::Social,
        cat == "tool"@ ==> classify_spec(now, pkg) == ProfileClass::Tool,
        cat == "launcher"@ ==> classify_spec(now, pkg) == ProfileClass::Launcher,
        cat == "keyboard"@ ==> classify_spec(now, pkg) == ProfileClass::Keyboard,
        cat == "system"@ ==> classify_spec(now, pkg) == ProfileClass::System,
{
    law_filed_package_classifies(cats, cat, pkg, now);
    reveal_strlit("game");
    reveal_strlit("social");
    reveal_strlit("tool");
    reveal_strlit("launcher");
    reveal_strlit("keyboard");
    reveal_strlit("system");
    assert("game"@[0] != "tool"@[0]);
    assert("social"@[1] != "system"@[1]);
    assert("launcher"@[0] != "keyboard"@[0]);
    assert("game"@ != "social"@ && "game"@ != "tool"@ && "game"@ != "launcher"@ && "game"@ != "keyboard"@);
    assert("game"@ != "system"@ && "social"@ != "tool"@ && "social"@ != "launcher"@ && "social"@ != "keyboard"@);
    assert("social"@ != "system"@ && "tool"@ != "launcher"@ && "tool"@ != "keyboard"@ && "tool"@ != "system"@);
    assert("launcher"@ != "keyboard"@ && "launcher"@ != "system"@ && "keyboard"@ != "system"@);
}

/// A package taken out of every category is classified `Unknown`.
pub proof fn law_removed_package_is_unknown(cats: Seq<(Seq<char>, Seq<Seq<char>>)>, pkg: Seq<char>)
    ensures
        classify_spec(without_package(cats, pkg), pkg) == ProfileClass::Unknown,
{
    let w = without_package(cats, pkg);
    assert forall|j: int| 0 <= j < w.len() implies !(#[trigger] w[j].1.contains(pkg)) by {
        lemma_names_without(cats[j].1, pkg, pkg);
    }
    lemma_category_of(w, pkg, w.len() as int);
    assert(w.skip(w.len() as int).len() == 0);
}

proof fn lemma_category_index(cats: Seq<(Seq<char>, Seq<Seq<char>>)>, c: Seq<char>)
    ensures
        match category_index(cats, c) {
            Some(i) => 0 <= i < cats.len() && cats[i].0 == c && forall|j: int| 0 <= j < i ==> cats[j].0 != c,
            None => forall|j: int| 0 <= j < cats.len() ==> cats[j].0 != c,
        },
    decreases cats.len(),
{
    if cats.len() > 0 && cats[0].0 != c {
        lemma_category_index(cats.drop_first(), c);
        match category_index(cats.drop_first(), c) {
            Some(i) => {
                assert(cats[i + 1] == cats.drop_first()[i]);
                assert forall|j: int| 0 <= j < i + 1 implies cats[j].0 != c by {
                    if j > 0 {
                        assert(cats[j] == cats.drop_first()[j - 1]);
                    }
                }
            },
            None => {
                assert forall|j: int| 0 <= j < cats.len() implies cats[j].0 != c by {
                    if j > 0 {
                        assert(cats[j] == cats.drop_first()[j - 1]);
                    }
                }
            },
        }
    }
}

proof fn lemma_category_of(cats: Seq<(Seq<char>, Seq<Seq<char>>)>, pkg: Seq<char>, i: int)
    requires
        0 <= i <= cats.len(),
        forall|j: int| 0 <= j < i ==> !(#[trigger] cats[j].1.contains(pkg)),
    ensures
        category_of(cats, pkg) == category_of(cats.skip(i), pkg),
    decreases i,
{
    if i > 0 {
        lemma_category_of(cats, pkg, i - 1);
        let t = cats.skip(i - 1);
        assert(t[0] == cats[i - 1]);
        assert(t.drop_first() =~= cats.skip(i));
    } else {
        assert(cats.skip(0) =~= cats);
    }
}

/// Inserts `x` into a strictly sorted list, unless it is there.
fn sorted_insert(list: &mut Vec<String>, x: String)
    requires
        strictly_sorted(names_view(old(list)@)),
    ensures
        sorted_with(names_view(final(list)@), names_view(old(list)@), x@),
{
    let ghost base = names_view(list@);
    let n = list.len();
    let mut k: usize = 0;
    while k < n && text_less(list[k].as_str(), x.as_str())
        invariant
            n == list@.len(),
            base == names_view(list@),
            strictly_sorted(base),
            k <= n,
            forall|j: int| 0 <= j < k ==> text_lt(#[trigger] base[j], x@),
        decreases n - k,
    {
        k = k + 1;
    }
    if k < n && str_eq(list[k].as_str(), x.as_str()) {
        assert(base[k as int] == x@);
        assert forall|y: Seq<char>| #[trigger] base.contains(y) <==> (y == x@ || base.contains(y)) by {
            if y == x@ {
                assert(base[k as int] == y);
            }
        }
        return;
    }
    proof {
        if k < n {
            assert(!text_lt(base[k as int], x@));
            lemma_text_lt_total(base[k as int], x@);
        }
    }
    let ghost xv = x@;
    list.insert(k, x);
    let ghost l = names_view(list@);
    assert(l =~= base.insert(k as int, xv));
    assert forall|i: int, j: int| 0 <= i < j < l.len() implies text_lt(#[trigger] l[i], #[trigger] l[j]) by {
        if j < k {
            assert(l[i] == base[i] && l[j] == base[j]);
        } else if j == k {
            assert(l[i] == base[i] && l[j] == xv);
        } else if i == k {
            assert(l[i] == xv && l[j] == base[j - 1]);
            if j - 1 > k {
                lemma_text_lt_transitive(xv, base[k as int], base[j - 1]);
            }
        } else if i < k {
            assert(l[i] == base[i] && l[j] == base[j - 1]);
            if i < j - 1 {
            } else {
                lemma_text_lt_irreflexive(base[i]);
            }
        } else {
            assert(l[i] == base[i - 1] && l[j] == base[j - 1]);
        }
    }
    assert forall|y: Seq<char>| #[trigger] l.contains(y) <==> (y == xv || base.contains(y)) by {
        if l.contains(y) {
            let i = choose|i: int| 0 <= i < l.len() && l[i] == y;
            if i < k {
                assert(base[i] == y);
            } else if i > k {
                assert(base[i - 1] == y);
            }
        }
        if y == xv {
            assert(l[k as int] == y);
        } else if base.contains(y) {
            let i = choose|i: int| 0 <= i < base.len() && base[i] == y;
            if i < k {
                assert(l[i] == y);
            } else {
                assert(l[i + 1] == y);
            }
        }
    }
}

/// The names of `list`, sorted, each once.
fn sorted_unique(list: &Vec<String>) -> (r: Vec<String>)
    ensures
        strictly_sorted(names_view(r@)),
        forall|y: Seq<char>| #[trigger] names_view(r@).contains(y) <==> names_view(list@).contains(y),
{
    let mut out: Vec<String> = Vec::new();
    let n = list.len();
    for i in 0..n
        invariant
            n == list@.len(),
            strictly_sorted(names_view(out@)),
            forall|y: Seq<char>| #[trigger] names_view(out@).contains(y) <==> names_view(list@.take(i as int)).contains(y),
    {
        let ghost before = names_view(out@);
        let item = list[i].clone();
        assert(item@ == list@[i as int]@);
        sorted_insert(&mut out, item);
        proof {
            assert(names_view(list@.take(i + 1)) =~= names_view(list@.take(i as int)).push(list@[i as int]@));
            assert forall|y: Seq<char>| #[trigger] names_view(out@).contains(y) <==> names_view(list@.take(i + 1)).contains(y) by {
                let t = names_view(list@.take(i as int));
                let t1 = names_view(list@.take(i + 1));
                assert(before.contains(y) <==> t.contains(y));
                assert(t1[t.len() as int] == list@[i as int]@);
                if y == list@[i as int]@ {
                    assert(t1.contains(y));
                }
                if t.contains(y) {
                    let j = choose|j: int| 0 <= j < t.len() && t[j] == y;
                    assert(t1[j] == y);
                }
                if t1.contains(y) {
                    let j = choose|j: int| 0 <= j < t1.len() && t1[j] == y;
                    if j < t.len() {
                        assert(t[j] == y);
                    }
                }
            }
        }
    }
    proof {
        assert(list@.take(n as int) =~= list@);
    }
    out
}

fn category_entry(name: &str) -> (e: (String, Vec<String>))
    ensures
        e.0@ == name@,
        e.1@.len() == 0,
{
    (String::from_str(name), Vec::new())
}

impl CategoryDatabase {
    /// Whether packages may be filed under `cat`.
    pub fn is_supported_category(cat: &str) -> (r: bool)
        ensures
            r == supported_category(cat@),
    {
        str_eq(cat, "game") || str_eq(cat, "social") || str_eq(cat, "tool") || str_eq(cat, "launcher") || str_eq(
            cat,
            "keyboard",
        ) || str_eq(cat, "system")
    }

    /// An empty database of the six supported categories.
    pub fn new() -> (d: Self)
        ensures
            d.version == 1,
            d.updated_ms == 0,
            categories_view(d.categories@) == seq![
                ("game"@, Seq::<Seq<char>>::empty()),
                ("social"@, Seq::<Seq<char>>::empty()),
                ("tool"@, Seq::<Seq<char>>::empty()),
                ("launcher"@, Seq::<Seq<char>>::empty()),
                ("keyboard"@, Seq::<Seq<char>>::empty()),
                ("system"@, Seq::<Seq<char>>::empty()),
            ],
    {
        let mut categories: Vec<(String, Vec<String>)> = Vec::new();
        categories.push(category_entry("game"));
        categories.push(category_entry("social"));
        categories.push(category_entry("tool"));
        categories.push(category_entry("launcher"));
        categories.push(category_entry("keyboard"));
        categories.push(category_entry("system"));
        let d = CategoryDatabase { version: 1, updated_ms: 0, categories };
        assert forall|i: int| 0 <= i < 6 implies #[trigger] names_view(d.categories@[i].1@) =~= Seq::<Seq<char>>::empty() by {}
        assert(categories_view(d.categories@) =~= seq![
            ("game"@, Seq::<Seq<char>>::empty()),
            ("social"@, Seq::<Seq<char>>::empty()),
            ("tool"@, Seq::<Seq<char>>::empty()),
            ("launcher"@, Seq::<Seq<char>>::empty()),
            ("keyboard"@, Seq::<Seq<char>>::empty()),
            ("system"@, Seq::<Seq<char>>::empty()),
        ]);
        d
    }

    /// The class of a package (see `classify_spec`).
    pub fn classify(&self, pkg: &str) -> (c: ProfileClass)
        ensures
            c == classify_spec(categories_view(self.categories@), pkg@),
    {
        let ghost cats = categories_view(self.categories@);
        let n = self.categories.len();
        for i in 0..n
            invariant
                n == self.categories@.len(),
                cats == categories_view(self.categories@),
                forall|j: int| 0 <= j < i ==> !(#[trigger] cats[j].1.contains(pkg@)),
        {
            if has_name(&self.categories[i].1, pkg) {
                proof {
                    lemma_category_of(cats, pkg@, i as int);
                    assert(cats.skip(i as int)[0] == cats[i as int]);
                }
                let name = self.categories[i].0.as_str();
                return if str_eq(name, "game") {
                    ProfileClass::Game
                } else if str_eq(name, "social") {
                    ProfileClass::Social
                } else if str_eq(name, "tool") {
                    ProfileClass::Tool
                } else if str_eq(name, "launcher") {
                    ProfileClass::Launcher
                } else if str_eq(name, "keyboard") {
                    ProfileClass::Keyboard
                } else if str_eq(name, "system") {
                    ProfileClass::System
                } else {
                    ProfileClass::Unknown
                };
            }
        }
        proof {
            lemma_category_of(cats, pkg@, n as int);
        }
        ProfileClass::Unknown
    }

    /// Takes `pkg` out of every category.
    pub fn remove(&mut self, pkg: &str)
        ensures
            categories_view(final(self).categories@) == without_package(categories_view(old(self).categories@), pkg@),
            final(self).version == old(self).version,
            final(self).updated_ms == old(self).updated_ms,
    {
        let mut out: Vec<(String, Vec<String>)> = Vec::new();
        let n = self.categories.len();
        for i in 0..n
            invariant
                n == self.categories@.len(),
                self.categories == old(self).categories,
                categories_view(out@) == without_package(categories_view(self.categories@.take(i as int)), pkg@),
        {
            let mut list = self.categories[i].1.clone();
            assert(names_view(list@) =~= names_view(self.categories@[i as int].1@));
            remove_name(&mut list, pkg);
            let key = self.categories[i].0.clone();
            let ghost before = out@;
            let ghost entry = (key@, names_view(list@));
            out.push((key, list));
            proof {
                let e = self.categories@[i as int];
                assert(entry == (e.0@, names_without(names_view(e.1@), pkg@)));
                assert(categories_view(self.categories@.take(i + 1)) =~= categories_view(self.categories@.take(i as int)).push(
                    (e.0@, names_view(e.1@)),
                ));
                assert(categories_view(out@) =~= categories_view(before).push(entry));
                assert(without_package(categories_view(self.categories@.take(i + 1)), pkg@) =~= without_package(
                    categories_view(self.categories@.take(i as int)),
                    pkg@,
                ).push(entry));
            }
        }
        proof {
            assert(self.categories@.take(n as int) =~= self.categories@);
        }
        self.categories = out;
    }

    /// Files `pkg` under `cat`, and under no other category; `false`, with
    /// nothing changed, when `cat` is not supported. The category's packages
    /// are then sorted without repeats; a missing category is added last.
    pub fn add(&mut self, cat: &str, pkg: &str) -> (r: bool)
        ensures
            r == supported_category(cat@),
            final(self).version == old(self).version,
            final(self).updated_ms == old(self).updated_ms,
            !r ==> categories_view(final(self).categories@) == categories_view(old(self).categories@),
            r ==> filed_under(categories_view(old(self).categories@), cat@, pkg@, categories_view(final(self).categories@)),
    {
        if !Self::is_supported_category(cat) {
            return false;
        }
        self.remove(pkg);
        let ghost stripped = categories_view(self.categories@);
        proof {
            lemma_category_index(stripped, cat@);
        }
        let n = self.categories.len();
        let mut found: Option<usize> = None;
        let mut i: usize = 0;
        while i < n
            invariant
                n == self.categories@.len(),
                stripped == categories_view(self.categories@),
                i <= n,
                match found {
                    Some(k) => k < i && stripped[k as int].0 == cat@ && forall|j: int| 0 <= j < k ==> #[trigger] stripped[j].0 != cat@,
                    None => forall|j: int| 0 <= j < i ==> #[trigger] stripped[j].0 != cat@,
                },
            decreases n - i,
        {
            if found.is_none() && str_eq(self.categories[i].0.as_str(), cat) {
                found = Some(i);
            }
            i = i + 1;
        }
        match found {
            Some(k) => {
                proof {
                    assert(category_index(stripped, cat@) == Some(k as int)) by {
                        match category_index(stripped, cat@) {
                            Some(q) => {
                                if q < k {
                                    assert(stripped[q].0 != cat@);
                                } else if q > k {
                                    assert(stripped[k as int].0 != cat@);
                                }
                            },
                            None => {
                                assert(stripped[k as int].0 != cat@);
                            },
                        }
                    }
                }
                let mut list = self.categories[k].1.clone();
                assert(names_view(list@) =~= stripped[k as int].1);
                list.push(String::from_str(pkg));
                let sorted = sorted_unique(&list);
                proof {
                    assert(names_view(list@) =~= stripped[k as int].1.push(pkg@));
                    assert forall|y: Seq<char>| #[trigger] names_view(sorted@).contains(y) <==> (y == pkg@
                        || stripped[k as int].1.contains(y)) by {
                        let l = stripped[k as int].1;
                        let lp = l.push(pkg@);
                        if lp.contains(y) {
                            let j = choose|j: int| 0 <= j < lp.len() && lp[j] == y;
                            if j < l.len() {
                                assert(l[j] == y);
                            }
                        }
                        if y == pkg@ {
                            assert(lp[l.len() as int] == y);
                        } else if l.contains(y) {
                            let j = choose|j: int| 0 <= j < l.len() && l[j] == y;
                            assert(lp[j] == y);
                        }
                    }
                }
                let name = self.categories[k].0.clone();
                let mut out: Vec<(String, Vec<String>)> = Vec::new();
                let mut sorted_opt = Some(sorted);
                let mut name_opt = Some(name);
                for j in 0..n
                    invariant
                        n == self.categories@.len(),
                        k < n,
                        stripped == categories_view(self.categories@),
                        out@.len() == j,
                        forall|q: int| 0 <= q < j && q != k ==> #[trigger] categories_view(out@)[q] == stripped[q],
                        j <= k ==> sorted_opt is Some && name_opt is Some,
                        j <= k ==> strictly_sorted(names_view(sorted_opt->0@)),
                        j <= k ==> forall|y: Seq<char>| #[trigger] names_view(sorted_opt->0@).contains(y) <==> (y == pkg@
                            || stripped[k as int].1.contains(y)),
                        j <= k ==> name_opt->0@ == cat@,
                        j > k ==> categories_view(out@)[k as int].0 == cat@,
                        j > k ==> sorted_with(categories_view(out@)[k as int].1, stripped[k as int].1, pkg@),
                {
                    let ghost before = out@;
                    if j == k {
                        let s = sorted_opt.take().unwrap();
                        let nm = name_opt.take().unwrap();
                        out.push((nm, s));
                    } else {
                        out.push((self.categories[j].0.clone(), self.categories[j].1.clone()));
                        proof {
                            assert(names_view(out@[j as int].1@) =~= names_view(self.categories@[j as int].1@));
                        }
                    }
                    proof {
                        assert forall|q: int| 0 <= q < j + 1 && q != k implies #[trigger] categories_view(out@)[q] == stripped[q] by {
                            if q < j {
                                assert(out@[q] == before[q]);
                                assert(categories_view(before)[q] == stripped[q]);
                                assert(categories_view(out@)[q] == categories_view(before)[q]);
                            }
                        }
                        if j > k {
                            assert(out@[k as int] == before[k as int]);
                        }
                    }
                }
                self.categories = out;
                true
            },
            None => {
                proof {
                    assert(category_index(stripped, cat@) is None) by {
                        match category_index(stripped, cat@) {
                            Some(q) => {
                                assert(stripped[q].0 != cat@);
                            },
                            None => {},
                        }
                    }
                }
                let mut list: Vec<String> = Vec::new();
                list.push(String::from_str(pkg));
                let ghost before = self.categories@;
                self.categories.push((String::from_str(cat), list));
                proof {
                    assert(names_view(list@) =~= seq![pkg@]);
                    assert forall|j: int| 0 <= j < stripped.len() implies #[trigger] categories_view(self.categories@)[j]
                        == stripped[j] by {
                        assert(self.categories@[j] == before[j]);
                    }
                }
                true
            },
        }
    }
}

impl Default for CategoryDatabase {
    fn default() -> (d: Self)
        ensures
            d.version == 1,
            d.updated_ms == 0,
            categories_view(d.categories@) == seq![
                ("game"@, Seq::<Seq<char>>::empty()),
                ("social"@, Seq::<Seq<char>>::empty()),
                ("tool"@, Seq::<Seq<char>>::empty()),
                ("launcher"@, Seq::<Seq<char>>::empty()),
                ("keyboard"@, Seq::<Seq<char>>::empty()),
                ("system"@, Seq::<Seq<char>>::empty()),
            ],
    {
        CategoryDatabase::new()
    }
}

} // verus!
