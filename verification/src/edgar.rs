//! Extraction of financial statement periods and values from SEC EDGAR company facts.
//!
//! A company's facts are given as a list of concepts (US-GAAP field names), each with its values
//! per unit. Values are carried as an opaque `V` (the reported amount): the logic here selects
//! them and never computes with them.
use vstd::prelude::*;
use crate::text::{
    append_str, chars_lt, chars_of, find, find_chars, occurs_at, signed_decimal, skip_leading_char,
    str_lt, string_of, sub_vec, trim_start_char, views, zero_padded_chars,
};

verus! {

/// One reported value of a concept.
#[derive(Clone, Debug)]
pub struct EdgarFactValue<V> {
    /// End date of the reporting period (`YYYY-MM-DD`).
    pub end: String,
    pub val: V,
    /// Fiscal year, where the filing gives one.
    pub fy: Option<i32>,
    /// Fiscal period (`Q1`..`Q4`, `FY`), where the filing gives one.
    pub fp: Option<String>,
}

/// One US-GAAP concept of a company: its name and its values per unit (such as `USD`).
#[derive(Clone, Debug)]
pub struct EdgarConcept<V> {
    pub name: String,
    pub units: Vec<(String, Vec<EdgarFactValue<V>>)>,
}

/// A fiscal period for which a company reported values.
#[derive(Clone, Debug)]
pub struct PeriodInfo {
    pub year: i32,
    pub period: String,
    pub end_date: String,
}

/// The rank of a fiscal period within its year: `Q1`..`Q4` are 1..4, `FY` is 5, others 99.
pub open spec fn period_rank(p: Seq<char>) -> int {
    if p == "Q1"@ {
        1
    } else if p == "Q2"@ {
        2
    } else if p == "Q3"@ {
        3
    } else if p == "Q4"@ {
        4
    } else if p == "FY"@ {
        5
    } else {
        99
    }
}

/// The values of a concept in `USD`: those of its first unit named `USD`, if any.
pub open spec fn usd_values<V>(units: Seq<(String, Vec<EdgarFactValue<V>>)>) -> Option<Seq<EdgarFactValue<V>>>
    decreases units.len(),
{
    if units.len() == 0 {
        None
    } else if units[0].0@ == "USD"@ {
        Some(units[0].1@)
    } else {
        usd_values(units.drop_first())
    }
}

/// The periods that the values `fs` name, in order: one per value with both a fiscal year and
/// a fiscal period.
pub open spec fn periods_of_values<V>(fs: Seq<EdgarFactValue<V>>) -> Seq<PeriodInfo>
    decreases fs.len(),
{
    if fs.len() == 0 {
        Seq::empty()
    } else {
        let f = fs.last();
        periods_of_values(fs.drop_last()) + match (f.fy, f.fp) {
            (Some(y), Some(p)) => seq![PeriodInfo { year: y, period: p, end_date: f.end }],
            _ => Seq::empty(),
        }
    }
}

/// The periods that the `USD` values of the concepts `cs` name, concept by concept.
pub open spec fn candidate_periods<V>(cs: Seq<EdgarConcept<V>>) -> Seq<PeriodInfo>
    decreases cs.len(),
{
    if cs.len() == 0 {
        Seq::empty()
    } else {
        candidate_periods(cs.drop_last()) + match usd_values(cs.last().units@) {
            Some(fs) => periods_of_values(fs),
            None => Seq::empty(),
        }
    }
}

/// The first concept of `cs` named `name`, if any.
pub open spec fn concept_named<V>(cs: Seq<EdgarConcept<V>>, name: Seq<char>) -> Option<EdgarConcept<V>>
    decreases cs.len(),
{
    if cs.len() == 0 {
        None
    } else if cs[0].name@ == name {
        Some(cs[0])
    } else {
        concept_named(cs.drop_first(), name)
    }
}

/// Whether the value `f` was reported for exactly the period `p`: same fiscal year, fiscal
/// period and end date.
pub open spec fn reported_for<V>(f: EdgarFactValue<V>, p: PeriodInfo) -> bool {
    &&& f.fy == Some(p.year)
    &&& f.fp matches Some(q) && q@ == p.period@
    &&& f.end@ == p.end_date@
}

/// The amount of the first of the values `fs` reported for the period `p`, if any.
pub open spec fn value_for_period<V>(fs: Seq<EdgarFactValue<V>>, p: PeriodInfo) -> Option<V>
    decreases fs.len(),
{
    if fs.len() == 0 {
        None
    } else if reported_for(fs[0], p) {
        Some(fs[0].val)
    } else {
        value_for_period(fs.drop_first(), p)
    }
}

/// The amount of a field for the period `p`: the names are tried in priority order, and the
/// first concept that exists, has `USD` values and has one for `p` gives it.
pub open spec fn field_value<V>(cs: Seq<EdgarConcept<V>>, names: Seq<Seq<char>>, p: PeriodInfo) -> Option<V>
    decreases names.len(),
{
    if names.len() == 0 {
        None
    } else {
        let here = match concept_named(cs, names[0]) {
            Some(c) => match usd_values(c.units@) {
                Some(fs) => value_for_period(fs, p),
                None => None,
            },
            None => None,
        };
        match here {
            Some(v) => Some(v),
            None => field_value(cs, names.drop_first(), p),
        }
    }
}

/// The key a period is known by: its fiscal year, a hyphen, and its fiscal period
/// (`2023-Q1`).
pub open spec fn period_key(p: PeriodInfo) -> Seq<char> {
    signed_decimal(p.year as int) + "-"@ + p.period@
}

/// Whether two periods have the same key.
pub open spec fn same_period(a: PeriodInfo, b: PeriodInfo) -> bool {
    period_key(a) == period_key(b)
}

/// The key of `p`, computed.
fn period_key_of(p: &PeriodInfo) -> (r: String)
    ensures
        r@ == period_key(*p),
{
    let mut v = zero_padded_chars(p.year as i64, 0);
    append_str(&mut v, "-");
    append_str(&mut v, p.period.as_str());
    string_of(&v)
}

/// `s` with every period dropped whose key (`year-period`) repeats that of an earlier one.
pub open spec fn first_of_each_period(s: Seq<PeriodInfo>) -> Seq<PeriodInfo>
    decreases s.len(),
{
    if s.len() == 0 {
        Seq::empty()
    } else {
        first_of_each_period(s.drop_last()) + if exists|j: int|
            0 <= j < s.len() - 1 && same_period(#[trigger] s[j], s.last()) {
            Seq::empty()
        } else {
            seq![s.last()]
        }
    }
}

/// Whether period `a` comes strictly before period `b`: by year, then by rank within the year.
pub open spec fn period_before(a: PeriodInfo, b: PeriodInfo) -> bool {
    a.year < b.year || (a.year == b.year && period_rank(a.period@) < period_rank(b.period@))
}

/// `perm` lists the positions of `s` in the order of a stable sort by `period_before`:
/// positions whose periods compare equal keep their order.
pub open spec fn stable_order(s: Seq<PeriodInfo>, perm: Seq<int>) -> bool {
    &&& perm.len() == s.len()
    &&& forall|k: int| 0 <= k < perm.len() ==> 0 <= #[trigger] perm[k] < s.len()
    &&& forall|i: int, j: int|
        0 <= i < j < perm.len() ==> #[trigger] period_before(s[perm[i]], s[perm[j]]) || (
        !period_before(s[perm[j]], s[perm[i]]) && perm[i] < perm[j])
}

/// `r` is `s` sorted stably by year and then by period within the year.
pub open spec fn is_stable_period_sort(r: Seq<PeriodInfo>, s: Seq<PeriodInfo>) -> bool {
    exists|perm: Seq<int>|
        #[trigger] stable_order(s, perm) && r.len() == s.len() && forall|k: int|
            0 <= k < r.len() ==> r[k] == s[perm[k]]
}

/// Executable `period_rank`.
fn period_rank_of(p: &String) -> (r: u8)
    ensures
        r == period_rank(p@),
{
    if *p == "Q1".to_owned() {
        1
    } else if *p == "Q2".to_owned() {
        2
    } else if *p == "Q3".to_owned() {
        3
    } else if *p == "Q4".to_owned() {
        4
    } else if *p == "FY".to_owned() {
        5
    } else {
        99
    }
}

/// Executable `period_before`.
fn period_before_exec(a: &PeriodInfo, b: &PeriodInfo) -> (r: bool)
    ensures
        r == period_before(*a, *b),
{
    a.year < b.year || (a.year == b.year && period_rank_of(&a.period) < period_rank_of(&b.period))
}

/// The positions of `s` in stably sorted order.
fn stable_period_order(s: &Vec<PeriodInfo>) -> (perm: Vec<usize>)
    ensures
        stable_order(s@, perm@.map_values(|x: usize| x as int)),
{
    let mut perm: Vec<usize> = Vec::new();
    let n = s.len();
    for k in 0..n
        invariant
            n == s@.len(),
            perm@.len() == k,
            stable_order(s@.take(k as int), perm@.map_values(|x: usize| x as int)),
    {
        let ghost old_perm = perm@.map_values(|x: usize| x as int);
        let mut p: usize = 0;
        assert forall|m: int| 0 <= m < perm@.len() implies perm@[m] < k by {
            assert(old_perm[m] == perm@[m] as int);
        }
        while p < perm.len() && !period_before_exec(&s[k], &s[perm[p]])
            invariant
                n == s@.len(),
                k < n,
                p <= perm@.len(),
                perm@.len() == k,
                old_perm == perm@.map_values(|x: usize| x as int),
                stable_order(s@.take(k as int), old_perm),
                forall|m: int| 0 <= m < p ==> !period_before(s@[k as int], s@[old_perm[m]]),
                forall|m: int| 0 <= m < perm@.len() ==> perm@[m] < k,
            decreases perm@.len() - p,
        {
            p = p + 1;
        }
        perm.insert(p, k);
        proof {
            let t = s@.take(k as int);
            let t2 = s@.take(k + 1);
            let np = perm@.map_values(|x: usize| x as int);
            assert(np =~= old_perm.take(p as int).push(k as int) + old_perm.skip(p as int));
            assert forall|m: int| 0 <= m < old_perm.len() implies t2[old_perm[m]] == t[old_perm[m]] by {}
            assert forall|i: int, j: int| 0 <= i < j < np.len() implies #[trigger] period_before(
                t2[np[i]],
                t2[np[j]],
            ) || (!period_before(t2[np[j]], t2[np[i]]) && np[i] < np[j]) by {
                if j < p {
                    assert(np[i] == old_perm[i] && np[j] == old_perm[j]);
                } else if j == p {
                    assert(np[i] == old_perm[i]);
                } else if i == p {
                    assert(np[j] == old_perm[j - 1]);
                    assert(period_before(s@[k as int], s@[old_perm[p as int]]));
                    if j - 1 > p {
                        assert(period_before(t[old_perm[p as int]], t[old_perm[j - 1]]) || (
                        !period_before(t[old_perm[j - 1]], t[old_perm[p as int]])
                            && old_perm[p as int] < old_perm[j - 1]));
                    }
                } else if i < p {
                    assert(np[i] == old_perm[i] && np[j] == old_perm[j - 1]);
                    assert(period_before(t[old_perm[i]], t[old_perm[j - 1]]) || (!period_before(
                        t[old_perm[j - 1]],
                        t[old_perm[i]],
                    ) && old_perm[i] < old_perm[j - 1]));
                } else {
                    assert(np[i] == old_perm[i - 1] && np[j] == old_perm[j - 1]);
                    assert(period_before(t[old_perm[i - 1]], t[old_perm[j - 1]]) || (
                    !period_before(t[old_perm[j - 1]], t[old_perm[i - 1]]) && old_perm[i - 1]
                        < old_perm[j - 1]));
                }
            }
        }
    }
    proof {
        assert(s@.take(n as int) =~= s@);
    }
    perm
}

/// A period seen in `s` is seen in `first_of_each_period(s)` too, up to `same_period`, and back.
proof fn lemma_first_of_each_period_covers(s: Seq<PeriodInfo>, x: PeriodInfo)
    ensures
        (exists|j: int| 0 <= j < s.len() && same_period(#[trigger] s[j], x)) <==> (exists|k: int|
            0 <= k < first_of_each_period(s).len() && same_period(
                #[trigger] first_of_each_period(s)[k],
                x,
            )),
    decreases s.len(),
{
    if s.len() > 0 {
        let t = s.drop_last();
        lemma_first_of_each_period_covers(t, x);
        let ft = first_of_each_period(t);
        let fs = first_of_each_period(s);
        assert(fs.take(ft.len() as int) =~= ft);
        if exists|j: int| 0 <= j < s.len() && same_period(#[trigger] s[j], x) {
            let j = choose|j: int| 0 <= j < s.len() && same_period(#[trigger] s[j], x);
            if j < t.len() {
                assert(t[j] == s[j]);
                let k = choose|k: int| 0 <= k < ft.len() && same_period(#[trigger] ft[k], x);
                assert(fs[k] == ft[k]);
            } else if exists|m: int| 0 <= m < s.len() - 1 && same_period(#[trigger] s[m], s.last()) {
                let m = choose|m: int| 0 <= m < s.len() - 1 && same_period(#[trigger] s[m], s.last());
                assert(t[m] == s[m]);
                assert(same_period(t[m], x));
                let k = choose|k: int| 0 <= k < ft.len() && same_period(#[trigger] ft[k], x);
                assert(fs[k] == ft[k]);
            } else {
                assert(fs[ft.len() as int] == s.last());
            }
        }
        if exists|k: int| 0 <= k < fs.len() && same_period(#[trigger] fs[k], x) {
            let k = choose|k: int| 0 <= k < fs.len() && same_period(#[trigger] fs[k], x);
            if k < ft.len() {
                assert(fs[k] == ft[k]);
                let j = choose|j: int| 0 <= j < t.len() && same_period(#[trigger] t[j], x);
                assert(s[j] == t[j]);
            } else {
                assert(fs[k] == s.last());
                assert(same_period(s[s.len() - 1], x));
            }
        }
    }
}

/// Whether `found` holds a period with the key of `x`.
fn contains_period(found: &Vec<PeriodInfo>, x: &PeriodInfo) -> (r: bool)
    ensures
        r == exists|k: int| 0 <= k < found@.len() && same_period(#[trigger] found@[k], *x),
{
    let key = period_key_of(x);
    let mut k: usize = 0;
    while k < found.len()
        invariant
            k <= found@.len(),
            key@ == period_key(*x),
            forall|m: int| 0 <= m < k ==> !same_period(#[trigger] found@[m], *x),
        decreases found@.len() - k,
    {
        if period_key_of(&found[k]) == key {
            assert(same_period(found@[k as int], *x));
            return true;
        }
        k = k + 1;
    }
    false
}

/// The values of the first unit named `USD`, if any.
fn usd_values_of<V>(units: &Vec<(String, Vec<EdgarFactValue<V>>)>) -> (r: Option<
    &Vec<EdgarFactValue<V>>,
>)
    ensures
        match r {
            Some(fs) => usd_values(units@) == Some(fs@),
            None => usd_values(units@) is None,
        },
{
    let usd = "USD".to_owned();
    let mut k: usize = 0;
    assert(units@.skip(0) =~= units@);
    while k < units.len()
        invariant
            k <= units@.len(),
            usd@ == "USD"@,
            usd_values(units@) == usd_values(units@.skip(k as int)),
        decreases units@.len() - k,
    {
        assert(units@.skip(k as int).drop_first() =~= units@.skip(k + 1));
        if units[k].0 == usd {
            return Some(&units[k].1);
        }
        k = k + 1;
    }
    None
}

/// The fiscal periods for which the company reported `USD` values: each period key
/// (`year-period`) once, with the year, period and end date of its first value, sorted stably by year and then by period
/// (`Q1`..`Q4`, then `FY`, then any other).
pub fn extract_available_periods<V>(concepts: &Vec<EdgarConcept<V>>) -> (r: Vec<PeriodInfo>)
    ensures
        is_stable_period_sort(r@, first_of_each_period(candidate_periods(concepts@))),
        forall|i: int, j: int|
            0 <= i < j < r@.len() ==> !same_period(#[trigger] r@[i], #[trigger] r@[j]),
        forall|i: int, j: int|
            0 <= i < j < r@.len() ==> !period_before(#[trigger] r@[j], #[trigger] r@[i]),
{
    let mut found: Vec<PeriodInfo> = Vec::new();
    let ghost mut seen: Seq<PeriodInfo> = Seq::empty();
    let mut i: usize = 0;
    assert(concepts@.take(0) =~= Seq::<EdgarConcept<V>>::empty());
    while i < concepts.len()
        invariant
            i <= concepts@.len(),
            seen == candidate_periods(concepts@.take(i as int)),
            found@ == first_of_each_period(seen),
        decreases concepts@.len() - i,
    {
        proof {
            assert(concepts@.take(i + 1).drop_last() =~= concepts@.take(i as int));
        }
        match usd_values_of(&concepts[i].units) {
            Some(fs) => {
                let mut j: usize = 0;
                assert(fs@.take(0) =~= Seq::<EdgarFactValue<V>>::empty());
                while j < fs.len()
                    invariant
                        j <= fs@.len(),
                        i < concepts@.len(),
                        usd_values(concepts@[i as int].units@) == Some(fs@),
                        seen == candidate_periods(concepts@.take(i as int)) + periods_of_values(
                            fs@.take(j as int),
                        ),
                        found@ == first_of_each_period(seen),
                    decreases fs@.len() - j,
                {
                    proof {
                        assert(fs@.take(j + 1).drop_last() =~= fs@.take(j as int));
                    }
                    let f = &fs[j];
                    if let Some(y) = f.fy {
                        if let Some(p) = &f.fp {
                            let cand = PeriodInfo {
                                year: y,
                                period: p.clone(),
                                end_date: f.end.clone(),
                            };
                            let dup = contains_period(&found, &cand);
                            proof {
                                lemma_first_of_each_period_covers(seen, cand);
                                let old_seen = seen;
                                seen = seen.push(cand);
                                assert(seen.drop_last() =~= old_seen);
                                assert forall|m: int| 0 <= m < old_seen.len() implies seen[m]
                                    == old_seen[m] by {}
                            }
                            if !dup {
                                found.push(cand);
                            }
                        }
                    }
                    j = j + 1;
                }
                proof {
                    assert(fs@.take(fs@.len() as int) =~= fs@);
                }
            },
            None => {},
        }
        i = i + 1;
    }
    proof {
        assert(concepts@.take(concepts@.len() as int) =~= concepts@);
    }
    let perm = stable_period_order(&found);
    let mut r: Vec<PeriodInfo> = Vec::new();
    let n = perm.len();
    for k in 0..n
        invariant
            n == perm@.len(),
            stable_order(found@, perm@.map_values(|x: usize| x as int)),
            r@.len() == k,
            forall|m: int| 0 <= m < k ==> r@[m] == found@[perm@[m] as int],
    {
        assert(perm@.map_values(|x: usize| x as int)[k as int] == perm@[k as int] as int);
        let q = &found[perm[k]];
        r.push(
            PeriodInfo { year: q.year, period: q.period.clone(), end_date: q.end_date.clone() },
        );
    }
    proof {
        let pm = perm@.map_values(|x: usize| x as int);
        assert forall|k: int| 0 <= k < r@.len() implies r@[k] == found@[pm[k]] by {}
        assert(stable_order(found@, pm));
        lemma_available_periods_distinct_and_ordered(r@, concepts@);
    }
    r
}

/// The first concept of `concepts` named `name`, if any.
fn concept_named_of<'a, V>(concepts: &'a Vec<EdgarConcept<V>>, name: &String) -> (r: Option<
    &'a EdgarConcept<V>,
>)
    ensures
        match r {
            Some(c) => concept_named(concepts@, name@) == Some(*c),
            None => concept_named(concepts@, name@) is None,
        },
{
    let mut k: usize = 0;
    assert(concepts@.skip(0) =~= concepts@);
    while k < concepts.len()
        invariant
            k <= concepts@.len(),
            concept_named(concepts@, name@) == concept_named(concepts@.skip(k as int), name@),
        decreases concepts@.len() - k,
    {
        assert(concepts@.skip(k as int).drop_first() =~= concepts@.skip(k + 1));
        if concepts[k].name == *name {
            return Some(&concepts[k]);
        }
        k = k + 1;
    }
    None
}

/// The amount of the first of the values `fs` reported for the period `p`, if any.
fn value_for_period_of<V: Copy>(fs: &Vec<EdgarFactValue<V>>, p: &PeriodInfo) -> (r: Option<V>)
    ensures
        r == value_for_period(fs@, *p),
{
    let mut k: usize = 0;
    assert(fs@.skip(0) =~= fs@);
    while k < fs.len()
        invariant
            k <= fs@.len(),
            value_for_period(fs@, *p) == value_for_period(fs@.skip(k as int), *p),
        decreases fs@.len() - k,
    {
        assert(fs@.skip(k as int).drop_first() =~= fs@.skip(k + 1));
        let f = &fs[k];
        let period_matches = match &f.fp {
            Some(q) => *q == p.period,
            None => false,
        };
        if f.fy == Some(p.year) && period_matches && f.end == p.end_date {
            return Some(f.val);
        }
        k = k + 1;
    }
    None
}

/// The views of a list of strings.
pub open spec fn string_views(v: Seq<String>) -> Seq<Seq<char>> {
    v.map_values(|x: String| x@)
}

/// The amount of a field for the period `period_info`: the concept names in `field_priorities`
/// are tried in order, and the first that has a `USD` value for the period gives it.
pub fn extract_field_value_for_period<V: Copy>(
    concepts: &Vec<EdgarConcept<V>>,
    field_priorities: &Vec<String>,
    period_info: &PeriodInfo,
) -> (r: Option<V>)
    ensures
        r == field_value(concepts@, string_views(field_priorities@), *period_info),
{
    let mut k: usize = 0;
    let ghost names = string_views(field_priorities@);
    assert(names.skip(0) =~= names);
    while k < field_priorities.len()
        invariant
            k <= field_priorities@.len(),
            names == string_views(field_priorities@),
            field_value(concepts@, names, *period_info) == field_value(
                concepts@,
                names.skip(k as int),
                *period_info,
            ),
        decreases field_priorities@.len() - k,
    {
        assert(names.skip(k as int).drop_first() =~= names.skip(k + 1));
        assert(names.skip(k as int)[0] == field_priorities@[k as int]@);
        if let Some(c) = concept_named_of(concepts, &field_priorities[k]) {
            if let Some(fs) = usd_values_of(&c.units) {
                if let Some(v) = value_for_period_of(fs, period_info) {
                    return Some(v);
                }
            }
        }
        k = k + 1;
    }
    None
}


/// For each field of a financial statement, the US-GAAP concept names that may report it, in
/// priority order.
pub struct GaapFieldMapping {
    income_statement_fields: Vec<(String, Vec<String>)>,
    balance_sheet_fields: Vec<(String, Vec<String>)>,
}

/// The views of a table from field names to concept names.
pub open spec fn field_table_view(t: Seq<(String, Vec<String>)>) -> Seq<(Seq<char>, Seq<Seq<char>>)> {
    t.map_values(|e: (String, Vec<String>)| (e.0@, string_views(e.1@)))
}

/// The concept names of each income statement field, in priority order.
pub open spec fn income_statement_table() -> Seq<(Seq<char>, Seq<Seq<char>>)> {
    seq![
        ("revenue"@, seq!["RevenueFromContractWithCustomerExcludingAssessedTax"@, "SalesRevenueNet"@, "Revenues"@, "RevenueFromContractWithCustomerIncludingAssessedTax"@]),
        ("net_income"@, seq!["NetIncomeLoss"@, "NetIncomeLossAvailableToCommonStockholdersBasic"@, "ProfitLoss"@]),
        ("operating_income"@, seq!["IncomeLossFromContinuingOperations"@, "OperatingIncomeLoss"@, "IncomeLossFromContinuingOperationsBeforeIncomeTaxesExtraordinaryItemsNoncontrollingInterest"@]),
        ("shares_basic"@, seq!["WeightedAverageNumberOfSharesOutstandingBasic"@, "CommonStockSharesOutstanding"@]),
        ("shares_diluted"@, seq!["WeightedAverageNumberOfDilutedSharesOutstanding"@, "WeightedAverageNumberOfSharesOutstandingBasic"@]),
    ]
}

/// The concept names of each balance sheet field, in priority order.
pub open spec fn balance_sheet_table() -> Seq<(Seq<char>, Seq<Seq<char>>)> {
    seq![
        ("total_assets"@, seq!["Assets"@, "AssetsTotal"@]),
        ("total_debt"@, seq!["LongTermDebt"@, "DebtAndCapitalLeaseObligations"@, "LongTermDebtAndCapitalLeaseObligations"@]),
        ("total_equity"@, seq!["StockholdersEquity"@, "ShareholdersEquity"@, "StockholdersEquityIncludingPortionAttributableToNoncontrollingInterest"@]),
        ("cash_and_equivalents"@, seq!["CashAndCashEquivalentsAtCarryingValue"@, "CashCashEquivalentsAndShortTermInvestments"@, "Cash"@]),
        ("shares_outstanding"@, seq!["CommonStockSharesOutstanding"@, "CommonStockSharesIssued"@]),
    ]
}

/// The concept names of the field `key` in the table `t`: those of its first entry for `key`.
pub open spec fn priorities_for(t: Seq<(Seq<char>, Seq<Seq<char>>)>, key: Seq<char>) -> Seq<Seq<char>>
    decreases t.len(),
{
    if t.len() == 0 {
        Seq::empty()
    } else if t[0].0 == key {
        t[0].1
    } else {
        priorities_for(t.drop_first(), key)
    }
}

impl GaapFieldMapping {
    /// The mapping always holds the standard tables.
    #[verifier::type_invariant]
    spec fn holds_standard_tables(self) -> bool {
        &&& field_table_view(self.income_statement_fields@) == income_statement_table()
        &&& field_table_view(self.balance_sheet_fields@) == balance_sheet_table()
    }

    /// The income statement table of this mapping.
    pub closed spec fn income_view(self) -> Seq<(Seq<char>, Seq<Seq<char>>)> {
        field_table_view(self.income_statement_fields@)
    }

    /// The balance sheet table of this mapping.
    pub closed spec fn balance_view(self) -> Seq<(Seq<char>, Seq<Seq<char>>)> {
        field_table_view(self.balance_sheet_fields@)
    }

    /// The standard mapping.
    pub fn new() -> (r: Self)
        ensures
            r.income_view() == income_statement_table(),
            r.balance_view() == balance_sheet_table(),
    {
        let mut income: Vec<(String, Vec<String>)> = Vec::new();
        let mut names: Vec<String> = Vec::new();
        names.push("RevenueFromContractWithCustomerExcludingAssessedTax".to_owned());
        names.push("SalesRevenueNet".to_owned());
        names.push("Revenues".to_owned());
        names.push("RevenueFromContractWithCustomerIncludingAssessedTax".to_owned());
        income.push(("revenue".to_owned(), names));
        let mut names: Vec<String> = Vec::new();
        names.push("NetIncomeLoss".to_owned());
        names.push("NetIncomeLossAvailableToCommonStockholdersBasic".to_owned());
        names.push("ProfitLoss".to_owned());
        income.push(("net_income".to_owned(), names));
        let mut names: Vec<String> = Vec::new();
        names.push("IncomeLossFromContinuingOperations".to_owned());
        names.push("OperatingIncomeLoss".to_owned());
        names.push("IncomeLossFromContinuingOperationsBeforeIncomeTaxesExtraordinaryItemsNoncontrollingInterest".to_owned());
        income.push(("operating_income".to_owned(), names));
        let mut names: Vec<String> = Vec::new();
        names.push("WeightedAverageNumberOfSharesOutstandingBasic".to_owned());
        names.push("CommonStockSharesOutstanding".to_owned());
        income.push(("shares_basic".to_owned(), names));
        let mut names: Vec<String> = Vec::new();
        names.push("WeightedAverageNumberOfDilutedSharesOutstanding".to_owned());
        names.push("WeightedAverageNumberOfSharesOutstandingBasic".to_owned());
        income.push(("shares_diluted".to_owned(), names));
        let mut balance: Vec<(String, Vec<String>)> = Vec::new();
        let mut names: Vec<String> = Vec::new();
        names.push("Assets".to_owned());
        names.push("AssetsTotal".to_owned());
        balance.push(("total_assets".to_owned(), names));
        let mut names: Vec<String> = Vec::new();
        names.push("LongTermDebt".to_owned());
        names.push("DebtAndCapitalLeaseObligations".to_owned());
        names.push("LongTermDebtAndCapitalLeaseObligations".to_owned());
        balance.push(("total_debt".to_owned(), names));
        let mut names: Vec<String> = Vec::new();
        names.push("StockholdersEquity".to_owned());
        names.push("ShareholdersEquity".to_owned());
        names.push("StockholdersEquityIncludingPortionAttributableToNoncontrollingInterest".to_owned());
        balance.push(("total_equity".to_owned(), names));
        let mut names: Vec<String> = Vec::new();
        names.push("CashAndCashEquivalentsAtCarryingValue".to_owned());
        names.push("CashCashEquivalentsAndShortTermInvestments".to_owned());
        names.push("Cash".to_owned());
        balance.push(("cash_and_equivalents".to_owned(), names));
        let mut names: Vec<String> = Vec::new();
        names.push("CommonStockSharesOutstanding".to_owned());
        names.push("CommonStockSharesIssued".to_owned());
        balance.push(("shares_outstanding".to_owned(), names));
        assert(field_table_view(income@) =~~= income_statement_table());
        assert(field_table_view(balance@) =~~= balance_sheet_table());
        GaapFieldMapping { income_statement_fields: income, balance_sheet_fields: balance }
    }
}


/// An income statement of one period, as the company facts report it.
#[derive(Debug)]
pub struct IncomeStatementData<V> {
    pub stock_id: i64,
    /// `Q1`..`Q4` or `FY`.
    pub period: String,
    pub year: i32,
    pub end_date: String,
    pub revenue: Option<V>,
    pub net_income: Option<V>,
    pub operating_income: Option<V>,
    pub shares_basic: Option<V>,
    pub shares_diluted: Option<V>,
}

/// A balance sheet of one period, as the company facts report it.
#[derive(Debug)]
pub struct BalanceSheetData<V> {
    pub stock_id: i64,
    pub period: String,
    pub year: i32,
    pub end_date: String,
    pub total_assets: Option<V>,
    pub total_debt: Option<V>,
    pub total_equity: Option<V>,
    pub cash_and_equivalents: Option<V>,
    pub shares_outstanding: Option<V>,
}

/// The statements extracted from the facts of one company.
#[derive(Debug)]
pub struct ExtractedFinancialData<V> {
    pub income_statements: Vec<IncomeStatementData<V>>,
    pub balance_sheets: Vec<BalanceSheetData<V>>,
}

/// The amount of the income statement field `key` for the period `p`.
pub open spec fn income_field<V>(cs: Seq<EdgarConcept<V>>, p: PeriodInfo, key: Seq<char>) -> Option<V> {
    field_value(cs, priorities_for(income_statement_table(), key), p)
}

/// The amount of the balance sheet field `key` for the period `p`.
pub open spec fn balance_field<V>(cs: Seq<EdgarConcept<V>>, p: PeriodInfo, key: Seq<char>) -> Option<V> {
    field_value(cs, priorities_for(balance_sheet_table(), key), p)
}

/// `st` is the income statement of company `stock_id` for the period `p`.
pub open spec fn is_income_statement<V>(
    st: IncomeStatementData<V>,
    cs: Seq<EdgarConcept<V>>,
    stock_id: i64,
    p: PeriodInfo,
) -> bool {
    &&& st.stock_id == stock_id
    &&& st.period@ == p.period@
    &&& st.year == p.year
    &&& st.end_date@ == p.end_date@
    &&& st.revenue == income_field(cs, p, "revenue"@)
    &&& st.net_income == income_field(cs, p, "net_income"@)
    &&& st.operating_income == income_field(cs, p, "operating_income"@)
    &&& st.shares_basic == income_field(cs, p, "shares_basic"@)
    &&& st.shares_diluted == income_field(cs, p, "shares_diluted"@)
}

/// `st` is the balance sheet of company `stock_id` for the period `p`.
pub open spec fn is_balance_sheet<V>(
    st: BalanceSheetData<V>,
    cs: Seq<EdgarConcept<V>>,
    stock_id: i64,
    p: PeriodInfo,
) -> bool {
    &&& st.stock_id == stock_id
    &&& st.period@ == p.period@
    &&& st.year == p.year
    &&& st.end_date@ == p.end_date@
    &&& st.total_assets == balance_field(cs, p, "total_assets"@)
    &&& st.total_debt == balance_field(cs, p, "total_debt"@)
    &&& st.total_equity == balance_field(cs, p, "total_equity"@)
    &&& st.cash_and_equivalents == balance_field(cs, p, "cash_and_equivalents"@)
    &&& st.shares_outstanding == balance_field(cs, p, "shares_outstanding"@)
}

/// The concept names of the field `key` in the table `t`.
fn priorities_of<'a>(t: &'a Vec<(String, Vec<String>)>, key: &str) -> (r: &'a Vec<String>)
    requires
        exists|k: int| 0 <= k < t@.len() && #[trigger] t@[k].0@ == key@,
    ensures
        string_views(r@) == priorities_for(field_table_view(t@), key@),
{
    let key_s = key.to_owned();
    let ghost tv = field_table_view(t@);
    let mut k: usize = 0;
    assert(tv.skip(0) =~= tv);
    while k < t.len()
        invariant
            k <= t@.len(),
            key_s@ == key@,
            tv == field_table_view(t@),
            priorities_for(tv, key@) == priorities_for(tv.skip(k as int), key@),
            forall|m: int| 0 <= m < k ==> t@[m].0@ != key@,
        decreases t@.len() - k,
    {
        assert(tv.skip(k as int).drop_first() =~= tv.skip(k + 1));
        assert(tv[k as int] == (t@[k as int].0@, string_views(t@[k as int].1@)));
        if t[k].0 == key_s {
            return &t[k].1;
        }
        k = k + 1;
    }
    proof {
        let w = choose|w: int| 0 <= w < t@.len() && #[trigger] t@[w].0@ == key@;
        assert(t@[w].0@ != key@);
    }
    &t[0].1
}

impl GaapFieldMapping {
    /// The concept names of the income statement field `key`.
    fn income_priorities(&self, key: &str, Ghost(k): Ghost<int>) -> (r: &Vec<String>)
        requires
            0 <= k < income_statement_table().len(),
            income_statement_table()[k].0 == key@,
        ensures
            string_views(r@) == priorities_for(income_statement_table(), key@),
    {
        proof {
            use_type_invariant(self);
            assert(field_table_view(self.income_statement_fields@)[k] == (
            self.income_statement_fields@[k].0@,
            string_views(self.income_statement_fields@[k].1@),
            ));
        }
        priorities_of(&self.income_statement_fields, key)
    }

    /// The concept names of the balance sheet field `key`.
    fn balance_priorities(&self, key: &str, Ghost(k): Ghost<int>) -> (r: &Vec<String>)
        requires
            0 <= k < balance_sheet_table().len(),
            balance_sheet_table()[k].0 == key@,
        ensures
            string_views(r@) == priorities_for(balance_sheet_table(), key@),
    {
        proof {
            use_type_invariant(self);
            assert(field_table_view(self.balance_sheet_fields@)[k] == (
            self.balance_sheet_fields@[k].0@,
            string_views(self.balance_sheet_fields@[k].1@),
            ));
        }
        priorities_of(&self.balance_sheet_fields, key)
    }
}

/// The income statement of company `stock_id` for the period `period_info`.
pub fn extract_income_statement_for_period<V: Copy>(
    concepts: &Vec<EdgarConcept<V>>,
    stock_id: i64,
    period_info: &PeriodInfo,
    mapping: &GaapFieldMapping,
) -> (r: IncomeStatementData<V>)
    ensures
        is_income_statement(r, concepts@, stock_id, *period_info),
{
    let revenue = extract_field_value_for_period(
        concepts,
        mapping.income_priorities("revenue", Ghost(0)),
        period_info,
    );
    let net_income = extract_field_value_for_period(
        concepts,
        mapping.income_priorities("net_income", Ghost(1)),
        period_info,
    );
    let operating_income = extract_field_value_for_period(
        concepts,
        mapping.income_priorities("operating_income", Ghost(2)),
        period_info,
    );
    let shares_basic = extract_field_value_for_period(
        concepts,
        mapping.income_priorities("shares_basic", Ghost(3)),
        period_info,
    );
    let shares_diluted = extract_field_value_for_period(
        concepts,
        mapping.income_priorities("shares_diluted", Ghost(4)),
        period_info,
    );
    IncomeStatementData {
        stock_id,
        period: period_info.period.clone(),
        year: period_info.year,
        end_date: period_info.end_date.clone(),
        revenue,
        net_income,
        operating_income,
        shares_basic,
        shares_diluted,
    }
}

/// The balance sheet of company `stock_id` for the period `period_info`.
pub fn extract_balance_sheet_for_period<V: Copy>(
    concepts: &Vec<EdgarConcept<V>>,
    stock_id: i64,
    period_info: &PeriodInfo,
    mapping: &GaapFieldMapping,
) -> (r: BalanceSheetData<V>)
    ensures
        is_balance_sheet(r, concepts@, stock_id, *period_info),
{
    let total_assets = extract_field_value_for_period(
        concepts,
        mapping.balance_priorities("total_assets", Ghost(0)),
        period_info,
    );
    let total_debt = extract_field_value_for_period(
        concepts,
        mapping.balance_priorities("total_debt", Ghost(1)),
        period_info,
    );
    let total_equity = extract_field_value_for_period(
        concepts,
        mapping.balance_priorities("total_equity", Ghost(2)),
        period_info,
    );
    let cash_and_equivalents = extract_field_value_for_period(
        concepts,
        mapping.balance_priorities("cash_and_equivalents", Ghost(3)),
        period_info,
    );
    let shares_outstanding = extract_field_value_for_period(
        concepts,
        mapping.balance_priorities("shares_outstanding", Ghost(4)),
        period_info,
    );
    BalanceSheetData {
        stock_id,
        period: period_info.period.clone(),
        year: period_info.year,
        end_date: period_info.end_date.clone(),
        total_assets,
        total_debt,
        total_equity,
        cash_and_equivalents,
        shares_outstanding,
    }
}

/// The income statement and the balance sheet of each fiscal period that the company facts
/// name, in the order of `extract_available_periods`.
pub fn extract_financial_statements<V: Copy>(
    concepts: &Vec<EdgarConcept<V>>,
    stock_id: i64,
    mapping: &GaapFieldMapping,
) -> (r: ExtractedFinancialData<V>)
    ensures
        exists|ps: Seq<PeriodInfo>|
            #[trigger] is_stable_period_sort(ps, first_of_each_period(candidate_periods(concepts@)))
                && r.income_statements@.len() == ps.len() && r.balance_sheets@.len() == ps.len()
                && forall|k: int|
                0 <= k < ps.len() ==> is_income_statement(
                    #[trigger] r.income_statements@[k],
                    concepts@,
                    stock_id,
                    ps[k],
                ) && is_balance_sheet(r.balance_sheets@[k], concepts@, stock_id, ps[k]),
{
    let periods = extract_available_periods(concepts);
    let mut income_statements: Vec<IncomeStatementData<V>> = Vec::new();
    let mut balance_sheets: Vec<BalanceSheetData<V>> = Vec::new();
    let mut k: usize = 0;
    while k < periods.len()
        invariant
            k <= periods@.len(),
            income_statements@.len() == k,
            balance_sheets@.len() == k,
            forall|m: int|
                0 <= m < k ==> is_income_statement(
                    #[trigger] income_statements@[m],
                    concepts@,
                    stock_id,
                    periods@[m],
                ) && is_balance_sheet(balance_sheets@[m], concepts@, stock_id, periods@[m]),
        decreases periods@.len() - k,
    {
        let ghost old_income = income_statements@;
        let ghost old_balance = balance_sheets@;
        let st = extract_income_statement_for_period(concepts, stock_id, &periods[k], mapping);
        let bs = extract_balance_sheet_for_period(concepts, stock_id, &periods[k], mapping);
        income_statements.push(st);
        balance_sheets.push(bs);
        assert forall|m: int|
            0 <= m < k + 1 implies is_income_statement(
            #[trigger] income_statements@[m],
            concepts@,
            stock_id,
            periods@[m],
        ) && is_balance_sheet(balance_sheets@[m], concepts@, stock_id, periods@[m]) by {
            if m < k {
                assert(income_statements@[m] == old_income[m]);
                assert(balance_sheets@[m] == old_balance[m]);
            }
        }
        k = k + 1;
    }
    ExtractedFinancialData { income_statements, balance_sheets }
}

/// The CIK that a company facts file name such as `CIK0000320193.json` holds: the text between
/// the first `CIK` and the next `.`, without its leading zeros.
pub open spec fn cik_from_filename(s: Seq<char>) -> Option<Seq<char>> {
    match find(s, seq!['C', 'I', 'K']) {
        Some(a) => {
            let rest = s.skip(a + 3);
            match find(rest, seq!['.']) {
                Some(e) => Some(trim_start_char(rest.take(e), '0')),
                None => None,
            }
        },
        None => None,
    }
}

/// The CIK that a company facts file name holds, if it names one.
pub fn extract_cik_from_filename(filename: &str) -> (r: Option<String>)
    ensures
        match r {
            Some(c) => cik_from_filename(filename@) == Some(c@),
            None => cik_from_filename(filename@) is None,
        },
{
    let s = chars_of(filename);
    let mut marker: Vec<char> = Vec::new();
    marker.push('C');
    marker.push('I');
    marker.push('K');
    assert(marker@ =~= seq!['C', 'I', 'K']);
    let mut dot: Vec<char> = Vec::new();
    dot.push('.');
    assert(dot@ =~= seq!['.']);
    match find_chars(&s, &marker) {
        Some(a) => {
            assert(occurs_at(s@, marker@, a as int) && marker@.len() == 3);
            assert(a + 3 <= s.len());
            let rest = sub_vec(&s, a + 3, s.len());
            assert(rest@ =~= s@.skip(a + 3));
            match find_chars(&rest, &dot) {
                Some(e) => {
                    assert(rest@.subrange(0, e as int) =~= rest@.take(e as int));
                    let lo = skip_leading_char(&rest, 0, e, '0');
                    let digits = sub_vec(&rest, lo, e);
                    Some(string_of(&digits))
                },
                None => None,
            }
        },
        None => None,
    }
}

/// No two periods that `first_of_each_period` keeps share a key.
proof fn lemma_first_of_each_period_distinct(s: Seq<PeriodInfo>)
    ensures
        forall|i: int, j: int|
            0 <= i < j < first_of_each_period(s).len() ==> !same_period(
                #[trigger] first_of_each_period(s)[i],
                #[trigger] first_of_each_period(s)[j],
            ),
    decreases s.len(),
{
    if s.len() > 0 {
        let t = s.drop_last();
        lemma_first_of_each_period_distinct(t);
        lemma_first_of_each_period_covers(t, s.last());
        let ft = first_of_each_period(t);
        let fs = first_of_each_period(s);
        assert forall|i: int, j: int| 0 <= i < j < fs.len() implies !same_period(
            #[trigger] fs[i],
            #[trigger] fs[j],
        ) by {
            if j < ft.len() {
                assert(fs[i] == ft[i] && fs[j] == ft[j]);
            } else {
                assert(fs[j] == s.last());
                assert(fs[i] == ft[i]);
                if same_period(fs[i], fs[j]) {
                    assert(same_period(ft[i], s.last()));
                    let m = choose|m: int| 0 <= m < t.len() && same_period(#[trigger] t[m], s.last());
                    assert(s[m] == t[m]);
                }
            }
        }
    }
}

/// The periods that `extract_available_periods` gives name each period key (`year-period`) at
/// most once, and come in order: by fiscal year, and within a year `Q1` to `Q4`, then `FY`.
pub proof fn lemma_available_periods_distinct_and_ordered<V>(
    r: Seq<PeriodInfo>,
    concepts: Seq<EdgarConcept<V>>,
)
    requires
        is_stable_period_sort(r, first_of_each_period(candidate_periods(concepts))),
    ensures
        forall|i: int, j: int| 0 <= i < j < r.len() ==> !same_period(#[trigger] r[i], #[trigger] r[j]),
        forall|i: int, j: int|
            0 <= i < j < r.len() ==> !period_before(#[trigger] r[j], #[trigger] r[i]),
{
    let d = first_of_each_period(candidate_periods(concepts));
    lemma_first_of_each_period_distinct(candidate_periods(concepts));
    let perm = choose|perm: Seq<int>|
        #[trigger] stable_order(d, perm) && r.len() == d.len() && forall|k: int|
            0 <= k < r.len() ==> r[k] == d[perm[k]];
    assert forall|i: int, j: int| 0 <= i < j < r.len() implies !same_period(
        #[trigger] r[i],
        #[trigger] r[j],
    ) && !period_before(r[j], r[i]) by {
        assert(r[i] == d[perm[i]] && r[j] == d[perm[j]]);
        assert(period_before(d[perm[i]], d[perm[j]]) || (!period_before(d[perm[j]], d[perm[i]])
            && perm[i] < perm[j]));
        assert(0 <= perm[i] < d.len() && 0 <= perm[j] < d.len());
        if perm[i] < perm[j] {
            assert(!same_period(d[perm[i]], d[perm[j]]));
        } else if perm[j] < perm[i] {
            assert(!same_period(d[perm[j]], d[perm[i]]));
        }
    }
}

/// One reported value of a fact as a JSON company facts file holds it: the value, end date and
/// form, each where present with the expected type.
#[derive(Debug, Clone)]
pub struct AnnualFact<V> {
    pub val: Option<V>,
    pub end: Option<String>,
    pub form: Option<String>,
}

/// The values of a fact in one unit; none where the unit does not hold a list.
#[derive(Debug, Clone)]
pub struct UnitFacts<V> {
    pub unit: String,
    pub entries: Option<Vec<AnnualFact<V>>>,
}

/// A fact of a company facts file: its units, in the order of their names; none where the fact
/// has no units.
#[derive(Debug, Clone)]
pub struct FactField<V> {
    pub name: String,
    pub units: Option<Vec<UnitFacts<V>>>,
}

/// The first fact of `fs` named `name`.
pub open spec fn fact_named<V>(fs: Seq<FactField<V>>, name: Seq<char>) -> Option<FactField<V>>
    decreases fs.len(),
{
    if fs.len() == 0 {
        None
    } else if fs[0].name@ == name {
        Some(fs[0])
    } else {
        fact_named(fs.drop_first(), name)
    }
}

/// The first unit of `us` named `USD`.
pub open spec fn usd_unit<V>(us: Seq<UnitFacts<V>>) -> Option<UnitFacts<V>>
    decreases us.len(),
{
    if us.len() == 0 {
        None
    } else if us[0].unit@ == "USD"@ {
        Some(us[0])
    } else {
        usd_unit(us.drop_first())
    }
}

/// The unit whose values are read: `USD` where there is one, else the first unit.
pub open spec fn chosen_unit<V>(us: Seq<UnitFacts<V>>) -> Option<UnitFacts<V>> {
    match usd_unit(us) {
        Some(u) => Some(u),
        None => if us.len() > 0 {
            Some(us[0])
        } else {
            None
        },
    }
}

/// The value and end date that the scan of `es` keeps: a complete entry replaces the kept one
/// when it ends later and comes from a `10-K`, or from a `10-Q` while none is kept.
pub open spec fn latest_scan<V>(es: Seq<AnnualFact<V>>) -> (Option<V>, Seq<char>)
    decreases es.len(),
{
    if es.len() == 0 {
        (None, Seq::empty())
    } else {
        let (kept, date) = latest_scan(es.drop_last());
        let e = es.last();
        match (e.val, e.end, e.form) {
            (Some(v), Some(end), Some(form)) => if (form@ == "10-K"@ || (form@ == "10-Q"@
                && kept is None)) && str_lt(date, end@) {
                (Some(v), end@)
            } else {
                (kept, date)
            },
            _ => (kept, date),
        }
    }
}

/// The latest annual value of the fact `name`: from its `USD` values (or its first unit's), the
/// value of the latest `10-K`, or of a `10-Q` where no `10-K` came before it.
pub open spec fn latest_annual_value<V>(fs: Seq<FactField<V>>, name: Seq<char>) -> Option<V> {
    match fact_named(fs, name) {
        Some(f) => match f.units {
            Some(us) => match chosen_unit(us@) {
                Some(u) => match u.entries {
                    Some(es) => latest_scan(es@).0,
                    None => None,
                },
                None => None,
            },
            None => None,
        },
        None => None,
    }
}

/// The first fact of `facts` named `name`.
fn fact_named_of<'a, V>(facts: &'a Vec<FactField<V>>, name: &str) -> (r: Option<&'a FactField<V>>)
    ensures
        match r {
            Some(f) => fact_named(facts@, name@) == Some(*f),
            None => fact_named(facts@, name@) is None,
        },
{
    let n = name.to_owned();
    let mut k: usize = 0;
    assert(facts@.skip(0) =~= facts@);
    while k < facts.len()
        invariant
            k <= facts@.len(),
            n@ == name@,
            fact_named(facts@, name@) == fact_named(facts@.skip(k as int), name@),
        decreases facts@.len() - k,
    {
        assert(facts@.skip(k as int).drop_first() =~= facts@.skip(k + 1));
        if facts[k].name == n {
            return Some(&facts[k]);
        }
        k = k + 1;
    }
    None
}

/// The first unit of `us` named `USD`.
fn usd_unit_of<'a, V>(us: &'a Vec<UnitFacts<V>>) -> (r: Option<&'a UnitFacts<V>>)
    ensures
        match r {
            Some(u) => usd_unit(us@) == Some(*u),
            None => usd_unit(us@) is None,
        },
{
    let usd = "USD".to_owned();
    let mut k: usize = 0;
    assert(us@.skip(0) =~= us@);
    while k < us.len()
        invariant
            k <= us@.len(),
            usd@ == "USD"@,
            usd_unit(us@) == usd_unit(us@.skip(k as int)),
        decreases us@.len() - k,
    {
        assert(us@.skip(k as int).drop_first() =~= us@.skip(k + 1));
        if us[k].unit == usd {
            return Some(&us[k]);
        }
        k = k + 1;
    }
    None
}

/// The latest annual value of the fact `field_name`.
pub fn extract_latest_annual_value<V: Copy>(facts: &Vec<FactField<V>>, field_name: &str) -> (r:
    Option<V>)
    ensures
        r == latest_annual_value(facts@, field_name@),
{
    let f = match fact_named_of(facts, field_name) {
        Some(f) => f,
        None => return None,
    };
    let us = match &f.units {
        Some(us) => us,
        None => return None,
    };
    let u = match usd_unit_of(us) {
        Some(u) => u,
        None => {
            if us.len() > 0 {
                &us[0]
            } else {
                return None;
            }
        },
    };
    let es = match &u.entries {
        Some(es) => es,
        None => return None,
    };
    let mut kept: Option<V> = None;
    let mut date: Vec<char> = Vec::new();
    let mut m: usize = 0;
    assert(es@.take(0) =~= Seq::<AnnualFact<V>>::empty());
    while m < es.len()
        invariant
            m <= es@.len(),
            latest_scan(es@.take(m as int)) == (kept, date@),
        decreases es@.len() - m,
    {
        assert(es@.take(m + 1).drop_last() =~= es@.take(m as int));
        let e = &es[m];
        if let (Some(v), Some(end), Some(form)) = (e.val, &e.end, &e.form) {
            let is_annual = *form == "10-K".to_owned();
            let is_quarterly = *form == "10-Q".to_owned();
            let end_chars = chars_of(end.as_str());
            if (is_annual || (is_quarterly && kept.is_none())) && chars_lt(&date, &end_chars) {
                kept = Some(v);
                date = end_chars;
            }
        }
        m = m + 1;
    }
    assert(es@.take(es@.len() as int) =~= es@);
    kept
}

/// The `USD` value that the concept named `name` reports for the period `p`, if any.
pub open spec fn reported_value<V>(cs: Seq<EdgarConcept<V>>, name: Seq<char>, p: PeriodInfo) -> Option<V> {
    match concept_named(cs, name) {
        Some(c) => match usd_values(c.units@) {
            Some(fs) => value_for_period(fs, p),
            None => None,
        },
        None => None,
    }
}

/// A field takes its value from the name of highest priority that reports one: where the names
/// before position `i` report no value for the period and the name at `i` reports `v`, the
/// field's value is `v`; where no name reports a value, the field has none.
pub proof fn lemma_field_value_highest_priority<V>(
    cs: Seq<EdgarConcept<V>>,
    names: Seq<Seq<char>>,
    p: PeriodInfo,
    i: int,
)
    requires
        0 <= i <= names.len(),
        forall|j: int| 0 <= j < i ==> #[trigger] reported_value(cs, names[j], p) is None,
    ensures
        i < names.len() && reported_value(cs, names[i], p) is Some ==> field_value(cs, names, p)
            == reported_value(cs, names[i], p),
        i == names.len() ==> field_value(cs, names, p) is None,
    decreases i,
{
    if i > 0 {
        let rest = names.drop_first();
        assert forall|j: int| 0 <= j < i - 1 implies #[trigger] reported_value(cs, rest[j], p) is None by {
            assert(rest[j] == names[j + 1]);
            assert(reported_value(cs, names[j + 1], p) is None);
        }
        lemma_field_value_highest_priority(cs, rest, p, i - 1);
        assert(reported_value(cs, names[0], p) is None);
        if i < names.len() {
            assert(rest[i - 1] == names[i]);
        }
    }
}

/// The first name that reports a value for the period gives the field's value, whatever the
/// names after it report.
pub proof fn lemma_field_value_first_name_wins<V>(
    cs: Seq<EdgarConcept<V>>,
    names: Seq<Seq<char>>,
    p: PeriodInfo,
    v: V,
)
    requires
        names.len() > 0,
        reported_value(cs, names[0], p) == Some(v),
    ensures
        field_value(cs, names, p) == Some(v),
{
    lemma_field_value_highest_priority(cs, names, p, 0);
}

} // verus!

