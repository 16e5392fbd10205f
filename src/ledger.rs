//! Pure folds over a sequence of entries: sums by SKU, grouping by case,
//! folding, counting and negation.
use vstd::prelude::*;

use crate::entry::{lemma_views_push, texts, views, Entry, EntryView};

verus! {

/// The field by which entries are grouped.
pub enum Key {
    Fnsku,
    Case,
}

pub open spec fn key_of(e: EntryView, k: Key) -> Seq<char> {
    match k {
        Key::Fnsku => e.fnsku,
        Key::Case => e.id,
    }
}

/// The entries of `s` whose key is `v`, in their order.
pub open spec fn with_key(s: Seq<EntryView>, k: Key, v: Seq<char>) -> Seq<EntryView>
    decreases s.len(),
{
    if s.len() == 0 {
        Seq::empty()
    } else {
        let p = with_key(s.drop_last(), k, v);
        if key_of(s.last(), k) == v {
            p.push(s.last())
        } else {
            p
        }
    }
}

/// Some entry of `s` has key `v`.
pub open spec fn has_key(s: Seq<EntryView>, k: Key, v: Seq<char>) -> bool {
    exists|i: int| 0 <= i < s.len() && #[trigger] key_of(s[i], k) == v
}

/// The distinct keys of `s`, in the order in which they first appear.
pub open spec fn keys(s: Seq<EntryView>, k: Key) -> Seq<Seq<char>>
    decreases s.len(),
{
    if s.len() == 0 {
        Seq::empty()
    } else {
        let p = keys(s.drop_last(), k);
        if has_key(s.drop_last(), k, key_of(s.last(), k)) {
            p
        } else {
            p.push(key_of(s.last(), k))
        }
    }
}

/// The signed sum of the units of `s`.
pub open spec fn units_sum(s: Seq<EntryView>) -> int
    decreases s.len(),
{
    if s.len() == 0 {
        0
    } else {
        units_sum(s.drop_last()) + s.last().units
    }
}

/// Net units of SKU `f` in `s`.
pub open spec fn sku_total(s: Seq<EntryView>, f: Seq<char>) -> int {
    units_sum(with_key(s, Key::Fnsku, f))
}

pub open spec fn fits_i32(x: int) -> bool {
    i32::MIN <= x <= i32::MAX
}

/// Every SKU of `s` nets to a quantity that an `i32` holds.
pub open spec fn sums_fit(s: Seq<EntryView>) -> bool {
    forall|f: Seq<char>| #[trigger] has_key(s, Key::Fnsku, f) ==> fits_i32(sku_total(s, f))
}

/// One entry per distinct SKU of `s`, in order of first appearance: the first
/// entry of that SKU, carrying the SKU's net units.
pub open spec fn summed(s: Seq<EntryView>) -> Seq<EntryView> {
    keys(s, Key::Fnsku).map_values(
        |f: Seq<char>| with_key(s, Key::Fnsku, f)[0].with_units(sku_total(s, f) as i32),
    )
}

pub proof fn lemma_with_key_push(s: Seq<EntryView>, x: EntryView, k: Key, v: Seq<char>)
    ensures
        with_key(s.push(x), k, v) == if key_of(x, k) == v {
            with_key(s, k, v).push(x)
        } else {
            with_key(s, k, v)
        },
{
    assert(s.push(x).drop_last() =~= s);
}

pub proof fn lemma_keys_push(s: Seq<EntryView>, x: EntryView, k: Key)
    ensures
        keys(s.push(x), k) == if has_key(s, k, key_of(x, k)) {
            keys(s, k)
        } else {
            keys(s, k).push(key_of(x, k))
        },
{
    assert(s.push(x).drop_last() =~= s);
}

pub proof fn lemma_has_key_push(s: Seq<EntryView>, x: EntryView, k: Key, v: Seq<char>)
    ensures
        has_key(s.push(x), k, v) == (has_key(s, k, v) || key_of(x, k) == v),
{
    let t = s.push(x);
    if has_key(t, k, v) && !(key_of(x, k) == v) {
        let i = choose|i: int| 0 <= i < t.len() && #[trigger] key_of(t[i], k) == v;
        assert(key_of(s[i], k) == v);
    }
    if has_key(s, k, v) {
        let i = choose|i: int| 0 <= i < s.len() && #[trigger] key_of(s[i], k) == v;
        assert(key_of(t[i], k) == v);
    }
    if key_of(x, k) == v {
        assert(key_of(t[s.len() as int], k) == v);
    }
}

/// The keys listed are exactly the keys present, each once, and a key is
/// present exactly when some entry carries it.
pub proof fn lemma_keys(s: Seq<EntryView>, k: Key)
    ensures
        forall|v: Seq<char>| has_key(s, k, v) <==> keys(s, k).contains(v),
        forall|i: int, j: int|
            0 <= i < j < keys(s, k).len() ==> keys(s, k)[i] != keys(s, k)[j],
        forall|v: Seq<char>| #[trigger] has_key(s, k, v) <==> with_key(s, k, v).len() > 0,
    decreases s.len(),
{
    if s.len() > 0 {
        let p = s.drop_last();
        let x = s.last();
        lemma_keys(p, k);
        assert(p.push(x) =~= s);
        lemma_keys_push(p, x, k);
        assert forall|v: Seq<char>| has_key(s, k, v) <==> keys(s, k).contains(v) by {
            lemma_has_key_push(p, x, k, v);
            lemma_push_contains(keys(p, k), key_of(x, k), v);
        }
        assert forall|v: Seq<char>| #[trigger] has_key(s, k, v) <==> with_key(s, k, v).len()
            > 0 by {
            lemma_has_key_push(p, x, k, v);
            lemma_with_key_push(p, x, k, v);
        }
    } else {
        assert forall|v: Seq<char>| has_key(s, k, v) implies keys(s, k).contains(v) by {
            let i = choose|i: int| 0 <= i < s.len() && #[trigger] key_of(s[i], k) == v;
        }
    }
}

pub proof fn lemma_push_contains<A>(s: Seq<A>, a: A, v: A)
    ensures
        s.push(a).contains(v) == (s.contains(v) || v == a),
{
    if s.push(a).contains(v) && v != a {
        let i = choose|i: int| 0 <= i < s.push(a).len() && s.push(a)[i] == v;
        assert(s[i] == v);
    }
    if s.contains(v) {
        let i = choose|i: int| 0 <= i < s.len() && s[i] == v;
        assert(s.push(a)[i] == v);
    }
    if v == a {
        assert(s.push(a)[s.len() as int] == v);
    }
}

pub proof fn lemma_units_sum_push(s: Seq<EntryView>, x: EntryView)
    ensures
        units_sum(s.push(x)) == units_sum(s) + x.units,
{
    assert(s.push(x).drop_last() =~= s);
}

/// The entries under one key never outnumber the whole.
pub proof fn lemma_with_key_len(s: Seq<EntryView>, k: Key, v: Seq<char>)
    ensures
        with_key(s, k, v).len() <= s.len(),
    decreases s.len(),
{
    if s.len() > 0 {
        lemma_with_key_len(s.drop_last(), k, v);
    }
}

pub open spec fn unit_bound() -> int {
    0x8000_0000
}

/// A sum of `n` units lies within `n` times the range of one unit.
pub proof fn lemma_sum_bound(s: Seq<EntryView>)
    ensures
        -(s.len() * unit_bound()) <= units_sum(s) <= s.len() * unit_bound(),
    decreases s.len(),
{
    if s.len() > 0 {
        lemma_sum_bound(s.drop_last());
    }
}

/// Width of a sum that cannot overflow an `i128` accumulator.
pub open spec fn wide_bound() -> int {
    0x1_0000_0000_0000_0000 * unit_bound()
}

pub proof fn lemma_sum_bound_wide(s: Seq<EntryView>)
    requires
        s.len() <= usize::MAX,
    ensures
        -wide_bound() <= units_sum(s) <= wide_bound(),
{
    lemma_sum_bound(s);
    assert(s.len() * unit_bound() <= wide_bound()) by (nonlinear_arith)
        requires
            s.len() <= usize::MAX,
            usize::MAX < 0x1_0000_0000_0000_0000,
            unit_bound() == 0x8000_0000,
            wide_bound() == 0x1_0000_0000_0000_0000 * unit_bound(),
    ;
}

/// Sums `entries` by SKU: one entry per distinct SKU, in order of first
/// appearance, which keeps the first entry's other fields and carries the
/// SKU's net units. The result no longer respects case boundaries.
pub fn get_as_sums(entries: &Vec<Entry>) -> (r: Vec<Entry>)
    requires
        sums_fit(views(entries@)),
    ensures
        views(r@) == summed(views(entries@)),
{
    let ghost s = views(entries@);
    let mut firsts: Vec<Entry> = Vec::new();
    let mut acc: Vec<i128> = Vec::new();
    let mut i: usize = 0;
    while i < entries.len()
        invariant
            i <= entries.len(),
            s == views(entries@),
            firsts.len() == acc.len(),
            firsts.len() == keys(s.take(i as int), Key::Fnsku).len(),
            forall|j: int|
                0 <= j < firsts.len() ==> (#[trigger] firsts@[j])@ == with_key(
                    s.take(i as int),
                    Key::Fnsku,
                    keys(s.take(i as int), Key::Fnsku)[j],
                )[0],
            forall|j: int|
                0 <= j < firsts.len() ==> (#[trigger] firsts@[j])@.fnsku == keys(
                    s.take(i as int),
                    Key::Fnsku,
                )[j],
            forall|j: int|
                0 <= j < acc.len() ==> #[trigger] acc@[j] == sku_total(
                    s.take(i as int),
                    keys(s.take(i as int), Key::Fnsku)[j],
                ),
        decreases entries.len() - i,
    {
        let ghost p = s.take(i as int);
        let ghost x = s[i as int];
        let ghost q = s.take(i + 1);
        assert(q =~= p.push(x));
        assert(entries@[i as int]@ == x);
        proof {
            lemma_keys(p, Key::Fnsku);
            lemma_keys_push(p, x, Key::Fnsku);
            assert forall|v: Seq<char>|
                #![auto]
                with_key(q, Key::Fnsku, v) == if x.fnsku == v {
                    with_key(p, Key::Fnsku, v).push(x)
                } else {
                    with_key(p, Key::Fnsku, v)
                } by {
                lemma_with_key_push(p, x, Key::Fnsku, v);
            }
        }
        let mut k: usize = 0;
        let mut found = false;
        while k < firsts.len()
            invariant
                k <= firsts.len(),
                i < entries.len(),
                forall|j: int|
                    0 <= j < k ==> (#[trigger] firsts@[j])@.fnsku != entries@[i as int]@.fnsku,
                found ==> k < firsts.len() && firsts@[k as int]@.fnsku
                    == entries@[i as int]@.fnsku,
            ensures
                found ==> k < firsts.len() && firsts@[k as int]@.fnsku
                    == entries@[i as int]@.fnsku,
                !found ==> forall|j: int|
                    0 <= j < firsts.len() ==> (#[trigger] firsts@[j])@.fnsku
                        != entries@[i as int]@.fnsku,
            decreases firsts.len() - k,
        {
            if firsts[k].same_fnsku(&entries[i]) {
                found = true;
                break;
            }
            k = k + 1;
        }
        if found {
            proof {
                assert(keys(p, Key::Fnsku).contains(x.fnsku));
                assert(has_key(p, Key::Fnsku, x.fnsku));
                lemma_with_key_len(q, Key::Fnsku, x.fnsku);
                lemma_sum_bound_wide(with_key(q, Key::Fnsku, x.fnsku));
                lemma_units_sum_push(with_key(p, Key::Fnsku, x.fnsku), x);
            }
            let old_acc: i128 = acc[k];
            let v: i128 = old_acc + entries[i].get_units() as i128;
            acc.set(k, v);
        } else {
            proof {
                assert forall|j: int| 0 <= j < keys(p, Key::Fnsku).len() implies keys(
                    p,
                    Key::Fnsku,
                )[j] != x.fnsku by {
                    assert(firsts@[j]@.fnsku == keys(p, Key::Fnsku)[j]);
                }
                assert(!keys(p, Key::Fnsku).contains(x.fnsku));
                assert(!has_key(p, Key::Fnsku, x.fnsku));
                assert(with_key(p, Key::Fnsku, x.fnsku).len() == 0);
                assert(with_key(p, Key::Fnsku, x.fnsku) =~= Seq::<EntryView>::empty());
                assert(units_sum(Seq::<EntryView>::empty()) == 0);
                lemma_units_sum_push(Seq::<EntryView>::empty(), x);
            }
            firsts.push(entries[i].clone());
            acc.push(entries[i].get_units() as i128);
        }
        i = i + 1;
    }
    assert(s.take(entries.len() as int) =~= s);
    proof {
        lemma_keys(s, Key::Fnsku);
    }
    let mut out: Vec<Entry> = Vec::new();
    let mut j: usize = 0;
    while j < firsts.len()
        invariant
            j <= firsts.len(),
            firsts.len() == acc.len(),
            firsts.len() == keys(s, Key::Fnsku).len(),
            sums_fit(s),
            forall|t: int|
                0 <= t < firsts.len() ==> (#[trigger] firsts@[t])@ == with_key(
                    s,
                    Key::Fnsku,
                    keys(s, Key::Fnsku)[t],
                )[0],
            forall|t: int|
                0 <= t < acc.len() ==> #[trigger] acc@[t] == sku_total(s, keys(s, Key::Fnsku)[t]),
            forall|v: Seq<char>| has_key(s, Key::Fnsku, v) <==> keys(s, Key::Fnsku).contains(v),
            out.len() == j,
            forall|t: int| 0 <= t < j ==> (#[trigger] out@[t])@ == summed(s)[t],
        decreases firsts.len() - j,
    {
        let ghost f = keys(s, Key::Fnsku)[j as int];
        assert(keys(s, Key::Fnsku).contains(f));
        assert(has_key(s, Key::Fnsku, f));
        let total: i128 = acc[j];
        let mut e = firsts[j].clone();
        e.set_units(total as i32);
        out.push(e);
        j = j + 1;
    }
    assert(views(out@) =~= summed(s));
    out
}

/// The cases of `s` in order of first appearance, each with its entries.
pub open spec fn grouped(s: Seq<EntryView>) -> Seq<(Seq<char>, Seq<EntryView>)> {
    keys(s, Key::Case).map_values(|c: Seq<char>| (c, with_key(s, Key::Case, c)))
}

/// The cases of `s` in order of first appearance, each summed by SKU.
pub open spec fn folded(s: Seq<EntryView>) -> Seq<(Seq<char>, Seq<EntryView>)> {
    keys(s, Key::Case).map_values(|c: Seq<char>| (c, summed(with_key(s, Key::Case, c))))
}

/// Every case of `s`, summed by SKU, holds quantities that fit an `i32`.
pub open spec fn folds_fit(s: Seq<EntryView>) -> bool {
    forall|c: Seq<char>| #[trigger] has_key(s, Key::Case, c) ==> sums_fit(with_key(s, Key::Case, c))
}

/// The mathematical value of a list of cases.
pub open spec fn case_views(r: Seq<(String, Vec<Entry>)>) -> Seq<(Seq<char>, Seq<EntryView>)> {
    r.map_values(|g: (String, Vec<Entry>)| (g.0@, views(g.1@)))
}

/// Sums the units of `entries` in a wide accumulator that cannot overflow.
pub(crate) fn wide_total(entries: &Vec<Entry>) -> (r: i128)
    ensures
        r == units_sum(views(entries@)),
{
    let ghost s = views(entries@);
    let mut total: i128 = 0;
    let mut i: usize = 0;
    while i < entries.len()
        invariant
            i <= entries.len(),
            s == views(entries@),
            total == units_sum(s.take(i as int)),
        decreases entries.len() - i,
    {
        proof {
            assert(s.take(i + 1) =~= s.take(i as int).push(s[i as int]));
            lemma_units_sum_push(s.take(i as int), s[i as int]);
            lemma_sum_bound_wide(s.take(i + 1));
        }
        total = total + entries[i].get_units() as i128;
        i = i + 1;
    }
    assert(s.take(entries.len() as int) =~= s);
    total
}

/// Partitions `entries` by case: each case id once, in order of first
/// appearance, with the entries of that case in their order.
pub fn as_group_by_case(entries: &Vec<Entry>) -> (r: Vec<(String, Vec<Entry>)>)
    ensures
        case_views(r@) == grouped(views(entries@)),
{
    let ghost s = views(entries@);
    let mut ids: Vec<String> = Vec::new();
    let mut groups: Vec<Vec<Entry>> = Vec::new();
    let mut i: usize = 0;
    while i < entries.len()
        invariant
            i <= entries.len(),
            s == views(entries@),
            ids.len() == groups.len(),
            ids.len() == keys(s.take(i as int), Key::Case).len(),
            forall|j: int|
                0 <= j < ids.len() ==> (#[trigger] ids@[j])@ == keys(s.take(i as int), Key::Case)[j],
            forall|j: int|
                0 <= j < groups.len() ==> views((#[trigger] groups@[j])@) == with_key(
                    s.take(i as int),
                    Key::Case,
                    keys(s.take(i as int), Key::Case)[j],
                ),
        decreases entries.len() - i,
    {
        let ghost p = s.take(i as int);
        let ghost x = s[i as int];
        let ghost q = s.take(i + 1);
        assert(q =~= p.push(x));
        assert(entries@[i as int]@ == x);
        proof {
            lemma_keys(p, Key::Case);
            lemma_keys_push(p, x, Key::Case);
            assert forall|v: Seq<char>|
                #![auto]
                with_key(q, Key::Case, v) == if x.id == v {
                    with_key(p, Key::Case, v).push(x)
                } else {
                    with_key(p, Key::Case, v)
                } by {
                lemma_with_key_push(p, x, Key::Case, v);
            }
        }
        let mut k: usize = 0;
        let mut found = false;
        while k < ids.len()
            invariant
                k <= ids.len(),
                i < entries.len(),
                forall|j: int| 0 <= j < k ==> (#[trigger] ids@[j])@ != entries@[i as int]@.id,
                found ==> k < ids.len() && ids@[k as int]@ == entries@[i as int]@.id,
            ensures
                found ==> k < ids.len() && ids@[k as int]@ == entries@[i as int]@.id,
                !found ==> forall|j: int|
                    0 <= j < ids.len() ==> (#[trigger] ids@[j])@ != entries@[i as int]@.id,
            decreases ids.len() - k,
        {
            if entries[i].id_is(ids[k].as_str()) {
                found = true;
                break;
            }
            k = k + 1;
        }
        let e = entries[i].clone();
        if found {
            proof {
                assert(keys(p, Key::Case).contains(x.id));
                lemma_views_push(groups@[k as int]@, e);
            }
            groups[k].push(e);
        } else {
            proof {
                assert forall|j: int| 0 <= j < keys(p, Key::Case).len() implies keys(
                    p,
                    Key::Case,
                )[j] != x.id by {
                    assert(ids@[j]@ == keys(p, Key::Case)[j]);
                }
                assert(!keys(p, Key::Case).contains(x.id));
                assert(with_key(p, Key::Case, x.id) =~= Seq::<EntryView>::empty());
                lemma_views_push(Seq::<Entry>::empty(), e);
                assert(views(Seq::<Entry>::empty()) =~= Seq::<EntryView>::empty());
            }
            let mut g: Vec<Entry> = Vec::new();
            g.push(e);
            groups.push(g);
            ids.push(entries[i].get_id().to_owned());
        }
        i = i + 1;
    }
    assert(s.take(entries.len() as int) =~= s);
    let mut out: Vec<(String, Vec<Entry>)> = Vec::new();
    let mut j: usize = 0;
    while j < ids.len()
        invariant
            j <= ids.len(),
            ids.len() == groups.len(),
            ids.len() == keys(s, Key::Case).len(),
            forall|t: int| 0 <= t < ids.len() ==> (#[trigger] ids@[t])@ == keys(s, Key::Case)[t],
            forall|t: int|
                0 <= t < groups.len() ==> views((#[trigger] groups@[t])@) == with_key(
                    s,
                    Key::Case,
                    keys(s, Key::Case)[t],
                ),
            out.len() == j,
            forall|t: int|
                0 <= t < j ==> (#[trigger] out@[t]).0@ == keys(s, Key::Case)[t] && views(
                    out@[t].1@,
                ) == with_key(s, Key::Case, keys(s, Key::Case)[t]),
        decreases ids.len() - j,
    {
        let id = ids[j].clone();
        let g = groups[j].clone();
        assert(views(g@) =~= views(groups@[j as int]@));
        out.push((id, g));
        j = j + 1;
    }
    assert(case_views(out@) =~= grouped(s)) by {
        assert forall|t: int| 0 <= t < out.len() implies #[trigger] case_views(out@)[t]
            == grouped(s)[t] by {
            assert(out@[t].0@ == keys(s, Key::Case)[t]);
        }
    }
    out
}

/// Groups `entries` by case, then sums each case by SKU: the net quantity of
/// each SKU inside each case.
pub fn as_folded_cases(entries: &Vec<Entry>) -> (r: Vec<(String, Vec<Entry>)>)
    requires
        folds_fit(views(entries@)),
    ensures
        case_views(r@) == folded(views(entries@)),
{
    let ghost s = views(entries@);
    let grouped_cases = as_group_by_case(entries);
    proof {
        lemma_keys(s, Key::Case);
        assert(case_views(grouped_cases@).len() == grouped_cases@.len());
    }
    let mut out: Vec<(String, Vec<Entry>)> = Vec::new();
    let mut j: usize = 0;
    while j < grouped_cases.len()
        invariant
            j <= grouped_cases.len(),
            s == views(entries@),
            folds_fit(s),
            case_views(grouped_cases@) == grouped(s),
            grouped_cases.len() == keys(s, Key::Case).len(),
            forall|v: Seq<char>| has_key(s, Key::Case, v) <==> keys(s, Key::Case).contains(v),
            out.len() == j,
            forall|t: int|
                0 <= t < j ==> (#[trigger] out@[t]).0@ == keys(s, Key::Case)[t] && views(
                    out@[t].1@,
                ) == summed(with_key(s, Key::Case, keys(s, Key::Case)[t])),
        decreases grouped_cases.len() - j,
    {
        let ghost c = keys(s, Key::Case)[j as int];
        assert(case_views(grouped_cases@)[j as int] == grouped(s)[j as int]);
        assert(keys(s, Key::Case)[j as int] == c);
        assert(keys(s, Key::Case).contains(c));
        assert(has_key(s, Key::Case, c));
        let id = grouped_cases[j].0.clone();
        let sums = get_as_sums(&grouped_cases[j].1);
        out.push((id, sums));
        j = j + 1;
    }
    assert(case_views(out@) =~= folded(s)) by {
        assert forall|t: int| 0 <= t < out.len() implies #[trigger] case_views(out@)[t]
            == folded(s)[t] by {
            assert(out@[t].0@ == keys(s, Key::Case)[t]);
        }
    }
    out
}

/// Net units of case `c` in `s`.
pub open spec fn case_total(s: Seq<EntryView>, c: Seq<char>) -> int {
    units_sum(with_key(s, Key::Case, c))
}

/// Which net quantities a case count takes in.
pub enum Sign {
    Positive,
    Nonzero,
    Negative,
}

pub open spec fn has_sign(x: int, sign: Sign) -> bool {
    match sign {
        Sign::Positive => x > 0,
        Sign::Nonzero => x != 0,
        Sign::Negative => x < 0,
    }
}

/// How many of the cases `ids` net to a quantity of the given sign in `s`.
pub open spec fn count_cases(s: Seq<EntryView>, ids: Seq<Seq<char>>, sign: Sign) -> nat
    decreases ids.len(),
{
    if ids.len() == 0 {
        0
    } else {
        count_cases(s, ids.drop_last(), sign) + if has_sign(case_total(s, ids.last()), sign) {
            1nat
        } else {
            0nat
        }
    }
}

/// How many cases of `s` net to a quantity of the given sign.
pub open spec fn cases_with_sign(s: Seq<EntryView>, sign: Sign) -> nat {
    count_cases(s, keys(s, Key::Case), sign)
}

/// Counts the cases of `entries` whose net units have the given sign.
pub fn count_cases_with_sign(entries: &Vec<Entry>, sign: Sign) -> (r: usize)
    ensures
        r == cases_with_sign(views(entries@), sign),
{
    let ghost s = views(entries@);
    let cases = as_group_by_case(entries);
    let ghost ids = keys(s, Key::Case);
    assert(case_views(cases@).len() == cases@.len());
    let mut count: usize = 0;
    let mut j: usize = 0;
    while j < cases.len()
        invariant
            j <= cases.len(),
            case_views(cases@) == grouped(s),
            ids == keys(s, Key::Case),
            cases.len() == ids.len(),
            count <= j,
            count == count_cases(s, ids.take(j as int), sign),
        decreases cases.len() - j,
    {
        assert(case_views(cases@)[j as int] == grouped(s)[j as int]);
        assert(ids.take(j + 1).drop_last() =~= ids.take(j as int));
        let total = wide_total(&cases[j].1);
        assert(total == case_total(s, ids[j as int]));
        let hit = match sign {
            Sign::Positive => total > 0,
            Sign::Nonzero => total != 0,
            Sign::Negative => total < 0,
        };
        if hit {
            count = count + 1;
        }
        j = j + 1;
    }
    assert(ids.take(cases.len() as int) =~= ids);
    count
}

/// The number of distinct cases of `entries`, negated ones included.
pub fn count_seen_cases(entries: &Vec<Entry>) -> (r: usize)
    ensures
        r == keys(views(entries@), Key::Case).len(),
{
    let cases = as_group_by_case(entries);
    assert(case_views(cases@).len() == cases@.len());
    cases.len()
}

/// The negation of one quantity, with `i32::MIN`, whose negation has no
/// `i32`, taken to 0.
pub open spec fn negated_units(u: i32) -> i32 {
    if u == i32::MIN {
        0
    } else {
        (-u) as i32
    }
}

/// `s` with every quantity negated.
pub open spec fn negated(s: Seq<EntryView>) -> Seq<EntryView> {
    s.map_values(|e: EntryView| e.with_units(negated_units(e.units)))
}

/// A copy of `entries` with every quantity negated; a quantity of
/// `i32::MIN` becomes 0.
pub fn as_negated(entries: &Vec<Entry>) -> (r: Vec<Entry>)
    ensures
        views(r@) == negated(views(entries@)),
{
    let ghost s = views(entries@);
    let mut out: Vec<Entry> = Vec::new();
    let mut i: usize = 0;
    while i < entries.len()
        invariant
            i <= entries.len(),
            s == views(entries@),
            views(out@) == negated(s.take(i as int)),
        decreases entries.len() - i,
    {
        let mut e = entries[i].clone();
        let u = e.get_units();
        let n: i32 = if u == i32::MIN {
            0
        } else {
            -u
        };
        e.set_units(n);
        proof {
            lemma_views_push(out@, e);
            assert(negated(s.take(i + 1)) =~= negated(s.take(i as int)).push(e@));
        }
        out.push(e);
        i = i + 1;
    }
    assert(s.take(entries.len() as int) =~= s);
    out
}

/// The sum of all units of `entries`.
pub fn total_units(entries: &Vec<Entry>) -> (r: i32)
    requires
        fits_i32(units_sum(views(entries@))),
    ensures
        r == units_sum(views(entries@)),
{
    wide_total(entries) as i32
}

/// Each SKU of `entries` with its net units, in order of first appearance.
pub fn units_of_skus(entries: &Vec<Entry>) -> (r: Vec<(String, i32)>)
    requires
        sums_fit(views(entries@)),
    ensures
        r@.len() == keys(views(entries@), Key::Fnsku).len(),
        forall|j: int|
            0 <= j < r@.len() ==> (#[trigger] r@[j]).0@ == keys(views(entries@), Key::Fnsku)[j]
                && r@[j].1 == sku_total(views(entries@), keys(views(entries@), Key::Fnsku)[j]),
{
    let ghost s = views(entries@);
    let sums = get_as_sums(entries);
    proof {
        lemma_keys(s, Key::Fnsku);
        assert(views(sums@).len() == sums@.len());
    }
    let mut out: Vec<(String, i32)> = Vec::new();
    let mut j: usize = 0;
    while j < sums.len()
        invariant
            j <= sums.len(),
            s == views(entries@),
            sums_fit(s),
            views(sums@) == summed(s),
            sums.len() == keys(s, Key::Fnsku).len(),
            forall|v: Seq<char>| #[trigger] has_key(s, Key::Fnsku, v) <==> with_key(s, Key::Fnsku, v).len() > 0,
            forall|v: Seq<char>| has_key(s, Key::Fnsku, v) <==> keys(s, Key::Fnsku).contains(v),
            out.len() == j,
            forall|t: int|
                0 <= t < j ==> (#[trigger] out@[t]).0@ == keys(s, Key::Fnsku)[t] && out@[t].1
                    == sku_total(s, keys(s, Key::Fnsku)[t]),
        decreases sums.len() - j,
    {
        let ghost f = keys(s, Key::Fnsku)[j as int];
        assert(views(sums@)[j as int] == summed(s)[j as int]);
        assert(keys(s, Key::Fnsku)[j as int] == f);
        assert(keys(s, Key::Fnsku).contains(f));
        assert(has_key(s, Key::Fnsku, f));
        proof {
            lemma_key_of_with_key(s, Key::Fnsku, f);
        }
        let name = sums[j].get_fnsku().to_owned();
        out.push((name, sums[j].get_units()));
        j = j + 1;
    }
    out
}

/// Every entry under key `v` carries that key.
pub proof fn lemma_key_of_with_key(s: Seq<EntryView>, k: Key, v: Seq<char>)
    ensures
        forall|i: int|
            0 <= i < with_key(s, k, v).len() ==> key_of(#[trigger] with_key(s, k, v)[i], k) == v,
    decreases s.len(),
{
    if s.len() > 0 {
        let p = s.drop_last();
        lemma_key_of_with_key(p, k, v);
        assert forall|i: int| 0 <= i < with_key(s, k, v).len() implies key_of(
            #[trigger] with_key(s, k, v)[i],
            k,
        ) == v by {
            if i < with_key(p, k, v).len() {
                assert(with_key(s, k, v)[i] == with_key(p, k, v)[i]);
            }
        }
    }
}

/// The entries of `s` whose SKU is listed in `fs` (when `listed`), or is not
/// (when not `listed`), in their order.
pub open spec fn by_fnsku(s: Seq<EntryView>, fs: Seq<Seq<char>>, listed: bool) -> Seq<EntryView>
    decreases s.len(),
{
    if s.len() == 0 {
        Seq::empty()
    } else {
        let p = by_fnsku(s.drop_last(), fs, listed);
        if fs.contains(s.last().fnsku) == listed {
            p.push(s.last())
        } else {
            p
        }
    }
}

/// The entries of `entries` whose SKU is listed in `fnskus` (when `listed`),
/// or is not (when not `listed`), in their order.
pub fn select_by_fnsku(entries: &Vec<Entry>, fnskus: &Vec<String>, listed: bool) -> (r: Vec<
    Entry,
>)
    ensures
        views(r@) == by_fnsku(views(entries@), texts(fnskus@), listed),
{
    let ghost s = views(entries@);
    let ghost fs = texts(fnskus@);
    let mut out: Vec<Entry> = Vec::new();
    let mut i: usize = 0;
    while i < entries.len()
        invariant
            i <= entries.len(),
            s == views(entries@),
            fs == texts(fnskus@),
            views(out@) == by_fnsku(s.take(i as int), fs, listed),
        decreases entries.len() - i,
    {
        proof {
            assert(s.take(i + 1).drop_last() =~= s.take(i as int));
            assert(entries@[i as int]@ == s[i as int]);
        }
        if entries[i].fnsku_listed(fnskus) == listed {
            let e = entries[i].clone();
            proof {
                lemma_views_push(out@, e);
            }
            out.push(e);
        }
        i = i + 1;
    }
    assert(s.take(entries.len() as int) =~= s);
    out
}

/// The entries of `entries` in the case named `case_name`, in their order.
pub fn get_case_named(entries: &Vec<Entry>, case_name: &str) -> (r: Vec<Entry>)
    ensures
        views(r@) == with_key(views(entries@), Key::Case, case_name@),
{
    let ghost s = views(entries@);
    let mut out: Vec<Entry> = Vec::new();
    let mut i: usize = 0;
    while i < entries.len()
        invariant
            i <= entries.len(),
            s == views(entries@),
            views(out@) == with_key(s.take(i as int), Key::Case, case_name@),
        decreases entries.len() - i,
    {
        proof {
            assert(s.take(i + 1).drop_last() =~= s.take(i as int));
            assert(entries@[i as int]@ == s[i as int]);
        }
        if entries[i].id_is(case_name) {
            let e = entries[i].clone();
            proof {
                lemma_views_push(out@, e);
            }
            out.push(e);
        }
        i = i + 1;
    }
    assert(s.take(entries.len() as int) =~= s);
    out
}

/// True when every SKU of `entries` nets to a quantity that an `i32` holds,
/// which the sums by SKU need.
pub fn sku_sums_fit(entries: &Vec<Entry>) -> (r: bool)
    ensures
        r == sums_fit(views(entries@)),
{
    let ghost s = views(entries@);
    let mut i: usize = 0;
    while i < entries.len()
        invariant
            i <= entries.len(),
            s == views(entries@),
            forall|k: int| 0 <= k < i ==> fits_i32(#[trigger] sku_total(s, s[k].fnsku)),
        decreases entries.len() - i,
    {
        let ghost f = s[i as int].fnsku;
        assert(entries@[i as int]@.fnsku == f);
        let mut total: i128 = 0;
        let mut j: usize = 0;
        while j < entries.len()
            invariant
                i < entries.len(),
                j <= entries.len(),
                s == views(entries@),
                f == entries@[i as int]@.fnsku,
                total == units_sum(with_key(s.take(j as int), Key::Fnsku, f)),
            decreases entries.len() - j,
        {
            proof {
                assert(s.take(j + 1) =~= s.take(j as int).push(s[j as int]));
                assert(entries@[j as int]@ == s[j as int]);
                lemma_with_key_push(s.take(j as int), s[j as int], Key::Fnsku, f);
                lemma_with_key_len(s.take(j + 1), Key::Fnsku, f);
                lemma_sum_bound_wide(with_key(s.take(j + 1), Key::Fnsku, f));
                lemma_units_sum_push(with_key(s.take(j as int), Key::Fnsku, f), s[j as int]);
            }
            if entries[j].same_fnsku(&entries[i]) {
                total = total + entries[j].get_units() as i128;
            }
            j = j + 1;
        }
        assert(s.take(entries.len() as int) =~= s);
        if total < i32::MIN as i128 || total > i32::MAX as i128 {
            proof {
                assert(key_of(s[i as int], Key::Fnsku) == f);
                assert(has_key(s, Key::Fnsku, f));
            }
            return false;
        }
        i = i + 1;
    }
    assert forall|f: Seq<char>| #[trigger] has_key(s, Key::Fnsku, f) implies fits_i32(
        sku_total(s, f),
    ) by {
        let k = choose|k: int| 0 <= k < s.len() && #[trigger] key_of(s[k], Key::Fnsku) == f;
        assert(fits_i32(sku_total(s, s[k].fnsku)));
    }
    true
}

pub proof fn lemma_units_sum_concat(a: Seq<EntryView>, b: Seq<EntryView>)
    ensures
        units_sum(a + b) == units_sum(a) + units_sum(b),
    decreases b.len(),
{
    if b.len() > 0 {
        lemma_units_sum_concat(a, b.drop_last());
        assert((a + b).drop_last() =~= a + b.drop_last());
    } else {
        assert(a + b =~= a);
    }
}

pub proof fn lemma_units_sum_partition(s: Seq<EntryView>, fs: Seq<Seq<char>>)
    ensures
        units_sum(s) == units_sum(by_fnsku(s, fs, true)) + units_sum(by_fnsku(s, fs, false)),
    decreases s.len(),
{
    if s.len() > 0 {
        lemma_units_sum_partition(s.drop_last(), fs);
        lemma_units_sum_push(by_fnsku(s.drop_last(), fs, true), s.last());
        lemma_units_sum_push(by_fnsku(s.drop_last(), fs, false), s.last());
    }
}

/// No quantity of `s` is `i32::MIN`, the one quantity whose negation is
/// clamped.
pub open spec fn negation_exact(s: Seq<EntryView>) -> bool {
    forall|i: int| 0 <= i < s.len() ==> (#[trigger] s[i]).units != i32::MIN
}

pub proof fn lemma_units_sum_negated(s: Seq<EntryView>)
    requires
        negation_exact(s),
    ensures
        units_sum(negated(s)) == -units_sum(s),
    decreases s.len(),
{
    if s.len() > 0 {
        let p = s.drop_last();
        assert(negated(s).drop_last() =~= negated(p));
        assert(negation_exact(p)) by {
            assert forall|i: int| 0 <= i < p.len() implies (#[trigger] p[i]).units
                != i32::MIN by {
                assert(p[i] == s[i]);
            }
        }
        lemma_units_sum_negated(p);
        assert(s.last().units != i32::MIN) by {
            assert(s[s.len() - 1].units != i32::MIN);
        }
    }
}

/// Branching keeps the ledger balanced. Split `s` by whether each SKU is
/// listed in `fs`; the entries that move (`listed` decides which side) go to a
/// new group and their negation is appended to `s`. Then the two sides add up
/// to `s`, the appended negation cancels what moved, and the units left in
/// `s` plus the units moved equal the units `s` held before. This holds
/// whenever no moving quantity is `i32::MIN`.
pub proof fn law_branch_balance(s: Seq<EntryView>, fs: Seq<Seq<char>>, listed: bool)
    requires
        negation_exact(by_fnsku(s, fs, listed)),
    ensures
        units_sum(s) == units_sum(by_fnsku(s, fs, listed)) + units_sum(by_fnsku(s, fs, !listed)),
        units_sum(negated(by_fnsku(s, fs, listed))) == -units_sum(by_fnsku(s, fs, listed)),
        units_sum(s + negated(by_fnsku(s, fs, listed))) == units_sum(by_fnsku(s, fs, !listed)),
        units_sum(s + negated(by_fnsku(s, fs, listed))) + units_sum(by_fnsku(s, fs, listed))
            == units_sum(s),
{
    lemma_units_sum_partition(s, fs);
    lemma_units_sum_negated(by_fnsku(s, fs, listed));
    lemma_units_sum_concat(s, negated(by_fnsku(s, fs, listed)));
}

/// Negating twice gives back every quantity, for ledgers without `i32::MIN`.
pub proof fn law_negation_involution(s: Seq<EntryView>)
    requires
        negation_exact(s),
    ensures
        negated(negated(s)) == s,
{
    assert forall|i: int| 0 <= i < s.len() implies #[trigger] negated(negated(s))[i] == s[i] by {
        assert(s[i].units != i32::MIN);
    }
    assert(negated(negated(s)) =~= s);
}

/// No two entries of `s` share a SKU.
pub open spec fn distinct_fnskus(s: Seq<EntryView>) -> bool {
    forall|i: int, j: int| 0 <= i < j < s.len() ==> (#[trigger] s[i]).fnsku != (#[trigger] s[j]).fnsku
}

/// A ledger in which every SKU appears once is its own sum by SKU.
pub proof fn lemma_summed_distinct(t: Seq<EntryView>)
    requires
        distinct_fnskus(t),
    ensures
        summed(t) == t,
        keys(t, Key::Fnsku).len() == t.len(),
    decreases t.len(),
{
    if t.len() > 0 {
        let p = t.drop_last();
        let x = t.last();
        assert(p.push(x) =~= t);
        assert(distinct_fnskus(p)) by {
            assert forall|i: int, j: int| 0 <= i < j < p.len() implies (#[trigger] p[i]).fnsku
                != (#[trigger] p[j]).fnsku by {
                assert(p[i] == t[i] && p[j] == t[j]);
            }
        }
        lemma_summed_distinct(p);
        lemma_keys(p, Key::Fnsku);
        lemma_keys_push(p, x, Key::Fnsku);
        assert(!has_key(p, Key::Fnsku, x.fnsku)) by {
            if has_key(p, Key::Fnsku, x.fnsku) {
                let i = choose|i: int| 0 <= i < p.len() && #[trigger] key_of(p[i], Key::Fnsku) == x.fnsku;
                assert(t[i].fnsku != t[t.len() - 1].fnsku);
            }
        }
        assert(with_key(p, Key::Fnsku, x.fnsku) =~= Seq::<EntryView>::empty());
        lemma_with_key_push(p, x, Key::Fnsku, x.fnsku);
        assert(units_sum(Seq::<EntryView>::empty()) == 0);
        lemma_units_sum_push(Seq::<EntryView>::empty(), x);
        assert forall|i: int| 0 <= i < t.len() implies #[trigger] summed(t)[i] == t[i] by {
            let f = keys(t, Key::Fnsku)[i];
            if i < p.len() {
                assert(summed(p)[i] == p[i]);
                assert(keys(p, Key::Fnsku)[i] == f);
                lemma_with_key_push(p, x, Key::Fnsku, f);
                assert(keys(p, Key::Fnsku).contains(f));
                lemma_key_of_with_key(p, Key::Fnsku, f);
                assert(has_key(p, Key::Fnsku, f));
                assert(key_of(with_key(p, Key::Fnsku, f)[0], Key::Fnsku) == f);
                assert(with_key(p, Key::Fnsku, f)[0] == summed(p)[i].with_units(
                    with_key(p, Key::Fnsku, f)[0].units,
                ));
                assert(f != x.fnsku) by {
                    assert(summed(p)[i].fnsku == f);
                    assert(p[i].fnsku == f);
                    assert(t[i].fnsku != t[t.len() - 1].fnsku);
                }
            }
        }
        assert(summed(t) =~= t);
    }
}

/// Summing by SKU leaves each SKU once: the sums hold one entry for each
/// distinct SKU of the ledger, and no two of them share a SKU.
pub proof fn law_one_entry_per_sku(s: Seq<EntryView>)
    ensures
        distinct_fnskus(summed(s)),
        summed(s).len() == keys(s, Key::Fnsku).len(),
        forall|f: Seq<char>|
            has_key(s, Key::Fnsku, f) <==> exists|i: int|
                0 <= i < summed(s).len() && #[trigger] summed(s)[i].fnsku == f,
{
    lemma_keys(s, Key::Fnsku);
    assert forall|i: int| 0 <= i < summed(s).len() implies (#[trigger] summed(s)[i]).fnsku == keys(
        s,
        Key::Fnsku,
    )[i] by {
        let f = keys(s, Key::Fnsku)[i];
        assert(keys(s, Key::Fnsku).contains(f));
        assert(has_key(s, Key::Fnsku, f));
        lemma_key_of_with_key(s, Key::Fnsku, f);
        assert(key_of(with_key(s, Key::Fnsku, f)[0], Key::Fnsku) == f);
    }
    assert forall|f: Seq<char>| has_key(s, Key::Fnsku, f) implies exists|i: int|
        0 <= i < summed(s).len() && #[trigger] summed(s)[i].fnsku == f by {
        assert(keys(s, Key::Fnsku).contains(f));
        let i = choose|i: int| 0 <= i < keys(s, Key::Fnsku).len() && keys(s, Key::Fnsku)[i] == f;
        assert(summed(s)[i].fnsku == keys(s, Key::Fnsku)[i]);
    }
    assert forall|f: Seq<char>| (exists|i: int|
        0 <= i < summed(s).len() && #[trigger] summed(s)[i].fnsku == f) implies has_key(
        s,
        Key::Fnsku,
        f,
    ) by {
        let i = choose|i: int| 0 <= i < summed(s).len() && #[trigger] summed(s)[i].fnsku == f;
        assert(summed(s)[i].fnsku == keys(s, Key::Fnsku)[i]);
        assert(keys(s, Key::Fnsku).contains(f));
    }
}

/// Summing by SKU is idempotent: the sums of a ledger's sums are those sums.
pub proof fn law_sums_idempotent(s: Seq<EntryView>)
    ensures
        summed(summed(s)) == summed(s),
{
    law_one_entry_per_sku(s);
    lemma_summed_distinct(summed(s));
}

} // verus!
