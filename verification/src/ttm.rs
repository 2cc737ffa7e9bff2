//! Trailing-twelve-months cash flow: which quarterly reports a TTM figure is summed from.
//!
//! The quarters of a company are ordered from the most recent (by fiscal year, then by quarter
//! `Q4`..`Q1`, any other period last), ties keeping their order; the most recent
//! `min_quarters` of them make up the TTM window, whose first quarter gives its end date and
//! fiscal year.
use vstd::prelude::*;

verus! {

/// The rank of a fiscal quarter: `Q4`..`Q1` are 4..1, any other period 0.
pub open spec fn quarter_rank(p: Seq<char>) -> int {
    if p == "Q4"@ {
        4
    } else if p == "Q3"@ {
        3
    } else if p == "Q2"@ {
        2
    } else if p == "Q1"@ {
        1
    } else {
        0
    }
}

/// Whether the quarter `a` (fiscal year, period) is more recent than `b`.
pub open spec fn more_recent(a: (i32, String), b: (i32, String)) -> bool {
    a.0 > b.0 || (a.0 == b.0 && quarter_rank(a.1@) > quarter_rank(b.1@))
}

/// `perm` lists the positions of `keys` from the most recent quarter on; quarters equally
/// recent keep their order.
pub open spec fn recent_first_order(keys: Seq<(i32, String)>, perm: Seq<int>) -> bool {
    &&& perm.len() == keys.len()
    &&& forall|k: int| 0 <= k < perm.len() ==> 0 <= #[trigger] perm[k] < keys.len()
    &&& forall|i: int, j: int|
        0 <= i < j < perm.len() ==> #[trigger] more_recent(keys[perm[i]], keys[perm[j]]) || (
        !more_recent(keys[perm[j]], keys[perm[i]]) && perm[i] < perm[j])
}

/// Executable `quarter_rank`.
fn quarter_rank_of(p: &String) -> (r: u8)
    ensures
        r == quarter_rank(p@),
{
    if *p == "Q4".to_owned() {
        4
    } else if *p == "Q3".to_owned() {
        3
    } else if *p == "Q2".to_owned() {
        2
    } else if *p == "Q1".to_owned() {
        1
    } else {
        0
    }
}

/// Executable `more_recent`.
fn more_recent_exec(a: &(i32, String), b: &(i32, String)) -> (r: bool)
    ensures
        r == more_recent(*a, *b),
{
    a.0 > b.0 || (a.0 == b.0 && quarter_rank_of(&a.1) > quarter_rank_of(&b.1))
}

/// The positions of `keys` from the most recent quarter on.
fn recent_first(keys: &Vec<(i32, String)>) -> (perm: Vec<usize>)
    ensures
        recent_first_order(keys@, perm@.map_values(|x: usize| x as int)),
{
    let mut perm: Vec<usize> = Vec::new();
    let n = keys.len();
    for k in 0..n
        invariant
            n == keys@.len(),
            perm@.len() == k,
            recent_first_order(keys@.take(k as int), perm@.map_values(|x: usize| x as int)),
    {
        let ghost old_perm = perm@.map_values(|x: usize| x as int);
        let mut p: usize = 0;
        assert forall|m: int| 0 <= m < perm@.len() implies perm@[m] < k by {
            assert(old_perm[m] == perm@[m] as int);
        }
        while p < perm.len() && !more_recent_exec(&keys[k], &keys[perm[p]])
            invariant
                n == keys@.len(),
                k < n,
                p <= perm@.len(),
                perm@.len() == k,
                old_perm == perm@.map_values(|x: usize| x as int),
                recent_first_order(keys@.take(k as int), old_perm),
                forall|m: int| 0 <= m < p ==> !more_recent(keys@[k as int], keys@[old_perm[m]]),
                forall|m: int| 0 <= m < perm@.len() ==> perm@[m] < k,
            decreases perm@.len() - p,
        {
            p = p + 1;
        }
        perm.insert(p, k);
        proof {
            let t = keys@.take(k as int);
            let t2 = keys@.take(k + 1);
            let np = perm@.map_values(|x: usize| x as int);
            assert(np =~= old_perm.take(p as int).push(k as int) + old_perm.skip(p as int));
            assert forall|m: int| 0 <= m < old_perm.len() implies t2[old_perm[m]] == t[old_perm[m]] by {}
            assert forall|i: int, j: int| 0 <= i < j < np.len() implies #[trigger] more_recent(
                t2[np[i]],
                t2[np[j]],
            ) || (!more_recent(t2[np[j]], t2[np[i]]) && np[i] < np[j]) by {
                if j < p {
                    assert(np[i] == old_perm[i] && np[j] == old_perm[j]);
                } else if j == p {
                    assert(np[i] == old_perm[i]);
                } else if i == p {
                    assert(np[j] == old_perm[j - 1]);
                    assert(more_recent(keys@[k as int], keys@[old_perm[p as int]]));
                    if j - 1 > p {
                        assert(more_recent(t[old_perm[p as int]], t[old_perm[j - 1]]) || (
                        !more_recent(t[old_perm[j - 1]], t[old_perm[p as int]])
                            && old_perm[p as int] < old_perm[j - 1]));
                    }
                } else if i < p {
                    assert(np[i] == old_perm[i] && np[j] == old_perm[j - 1]);
                    assert(more_recent(t[old_perm[i]], t[old_perm[j - 1]]) || (!more_recent(
                        t[old_perm[j - 1]],
                        t[old_perm[i]],
                    ) && old_perm[i] < old_perm[j - 1]));
                } else {
                    assert(np[i] == old_perm[i - 1] && np[j] == old_perm[j - 1]);
                    assert(more_recent(t[old_perm[i - 1]], t[old_perm[j - 1]]) || (
                    !more_recent(t[old_perm[j - 1]], t[old_perm[i - 1]]) && old_perm[i - 1]
                        < old_perm[j - 1]));
                }
            }
        }
    }
    proof {
        assert(keys@.take(n as int) =~= keys@);
    }
    perm
}

/// Whether `w` lists the positions of the `m` most recent quarters of `keys`, most recent
/// first, quarters equally recent in the order given.
pub open spec fn is_ttm_window(keys: Seq<(i32, String)>, m: int, w: Seq<usize>) -> bool {
    &&& 0 <= m <= keys.len()
    &&& w.len() == m
    &&& exists|perm: Seq<int>|
        #[trigger] recent_first_order(keys, perm) && forall|k: int| 0 <= k < m ==> w[k] as int == perm[k]
}

/// The TTM window of a company's quarters (fiscal year, period), as positions into `keys`: the
/// `min_quarters` most recent quarters, most recent first. None where the company has no
/// quarters, or fewer than `min_quarters`.
pub fn ttm_window(keys: &Vec<(i32, String)>, min_quarters: usize) -> (r: Option<Vec<usize>>)
    requires
        keys@.len() > 0 ==> min_quarters > 0,
    ensures
        match r {
            Some(w) => keys@.len() > 0 && min_quarters <= keys@.len() && is_ttm_window(
                keys@,
                min_quarters as int,
                w@,
            ) && (forall|i: int, j: int|
                0 <= i < j < w@.len() ==> w@[i] != w@[j] && !more_recent(
                    keys@[#[trigger] w@[j] as int],
                    keys@[#[trigger] w@[i] as int],
                )),
            None => keys@.len() == 0 || keys@.len() < min_quarters,
        },
{
    if keys.len() == 0 || keys.len() < min_quarters {
        return None;
    }
    let perm = recent_first(keys);
    let mut w: Vec<usize> = Vec::new();
    for k in 0..min_quarters
        invariant
            min_quarters <= perm@.len(),
            w@.len() == k,
            forall|m: int| 0 <= m < k ==> w@[m] == perm@[m],
    {
        w.push(perm[k]);
    }
    proof {
        let pm = perm@.map_values(|x: usize| x as int);
        assert(recent_first_order(keys@, pm));
        assert forall|k: int| 0 <= k < min_quarters implies w@[k] as int == pm[k] by {}
        assert forall|i: int, j: int| 0 <= i < j < w@.len() implies w@[i] != w@[j]
            && !more_recent(keys@[#[trigger] w@[j] as int], keys@[#[trigger] w@[i] as int]) by {
            assert(w@[i] as int == pm[i] && w@[j] as int == pm[j]);
            assert(more_recent(keys@[pm[i]], keys@[pm[j]]) || (!more_recent(keys@[pm[j]], keys@[pm[i]])
                && pm[i] < pm[j]));
        }
    }
    Some(w)
}

/// The counters of a TTM run.
#[derive(Debug, Clone, Copy)]
pub struct ProcessingStats {
    pub stocks_processed: usize,
    pub ttm_records_created: usize,
    pub stocks_with_insufficient_data: usize,
    pub total_stocks: usize,
}

impl ProcessingStats {
    /// All counters at zero.
    pub fn new() -> (r: Self)
        ensures
            r.stocks_processed == 0 && r.ttm_records_created == 0
                && r.stocks_with_insufficient_data == 0 && r.total_stocks == 0,
    {
        ProcessingStats {
            stocks_processed: 0,
            ttm_records_created: 0,
            stocks_with_insufficient_data: 0,
            total_stocks: 0,
        }
    }
}

/// A quarter as plain values: fiscal year and period.
pub open spec fn quarter_view(k: (i32, String)) -> (i32, Seq<char>) {
    (k.0, k.1@)
}

/// The quarters of `keys` as plain values.
pub open spec fn quarter_views(keys: Seq<(i32, String)>) -> Seq<(i32, Seq<char>)> {
    keys.map_values(|k: (i32, String)| quarter_view(k))
}

/// Whether no two quarters of `keys` share a fiscal year and a quarter rank.
pub open spec fn distinct_quarters(keys: Seq<(i32, String)>) -> bool {
    forall|i: int, j: int|
        #![trigger keys[i], keys[j]]
        0 <= i < j < keys.len() ==> keys[i].0 != keys[j].0 || quarter_rank(keys[i].1@)
            != quarter_rank(keys[j].1@)
}

/// The quarters of `keys` in the order `perm` lists their positions.
pub open spec fn ordered_quarters(keys: Seq<(i32, String)>, perm: Seq<int>) -> Seq<(i32, Seq<char>)> {
    Seq::new(perm.len(), |k: int| quarter_view(keys[perm[k]]))
}

/// `more_recent` on plain values.
pub open spec fn more_recent_view(a: (i32, Seq<char>), b: (i32, Seq<char>)) -> bool {
    a.0 > b.0 || (a.0 == b.0 && quarter_rank(a.1) > quarter_rank(b.1))
}

/// The positions that `recent_first_order` lists are each position once.
proof fn lemma_order_is_permutation(keys: Seq<(i32, String)>, perm: Seq<int>)
    requires
        recent_first_order(keys, perm),
    ensures
        perm.no_duplicates(),
        forall|i: int| 0 <= i < keys.len() ==> perm.contains(i),
{
    assert forall|i: int, j: int| 0 <= i < perm.len() && 0 <= j < perm.len() && i != j implies perm[i]
        != perm[j] by {
        if i < j {
            assert(more_recent(keys[perm[i]], keys[perm[j]]) || (!more_recent(keys[perm[j]], keys[perm[i]])
                && perm[i] < perm[j]));
        } else {
            assert(more_recent(keys[perm[j]], keys[perm[i]]) || (!more_recent(keys[perm[i]], keys[perm[j]])
                && perm[j] < perm[i]));
        }
    }
    perm.unique_seq_to_set();
    let range = vstd::set_lib::set_int_range(0, keys.len() as int);
    vstd::set_lib::lemma_int_range(0, keys.len() as int);
    vstd::seq_lib::seq_to_set_is_finite(perm);
    assert(perm.to_set().subset_of(range));
    vstd::set_lib::lemma_subset_equality(perm.to_set(), range);
    assert forall|i: int| 0 <= i < keys.len() implies perm.contains(i) by {
        assert(range.contains(i));
        assert(perm.to_set().contains(i));
    }
}

/// Where no two quarters share a fiscal year and rank, the order lists them from the most
/// recent on, strictly.
proof fn lemma_order_strict(keys: Seq<(i32, String)>, perm: Seq<int>)
    requires
        recent_first_order(keys, perm),
        distinct_quarters(keys),
    ensures
        forall|i: int, j: int|
            0 <= i < j < perm.len() ==> more_recent_view(
                #[trigger] ordered_quarters(keys, perm)[i],
                #[trigger] ordered_quarters(keys, perm)[j],
            ),
{
    lemma_order_is_permutation(keys, perm);
    let s = ordered_quarters(keys, perm);
    assert forall|i: int, j: int| 0 <= i < j < perm.len() implies more_recent_view(
        #[trigger] s[i],
        #[trigger] s[j],
    ) by {
        let a = perm[i];
        let b = perm[j];
        assert(more_recent(keys[a], keys[b]) || (!more_recent(keys[b], keys[a]) && a < b));
        assert(a != b);
        if a < b {
            assert(keys[a].0 != keys[b].0 || quarter_rank(keys[a].1@) != quarter_rank(keys[b].1@));
        } else {
            assert(keys[b].0 != keys[a].0 || quarter_rank(keys[b].1@) != quarter_rank(keys[a].1@));
        }
    }
}

/// Two sequences, each strictly ordered from the most recent on, that hold the same quarters,
/// agree up to position `k`.
proof fn lemma_sorted_sequences_agree(s1: Seq<(i32, Seq<char>)>, s2: Seq<(i32, Seq<char>)>, k: int)
    requires
        s1.len() == s2.len(),
        0 <= k < s1.len(),
        forall|i: int, j: int| 0 <= i < j < s1.len() ==> more_recent_view(#[trigger] s1[i], #[trigger] s1[j]),
        forall|i: int, j: int| 0 <= i < j < s2.len() ==> more_recent_view(#[trigger] s2[i], #[trigger] s2[j]),
        forall|i: int| 0 <= i < s1.len() ==> s2.contains(#[trigger] s1[i]),
        forall|i: int| 0 <= i < s2.len() ==> s1.contains(#[trigger] s2[i]),
    ensures
        forall|m: int| 0 <= m <= k ==> #[trigger] s1[m] == s2[m],
    decreases k,
{
    if k > 0 {
        lemma_sorted_sequences_agree(s1, s2, k - 1);
    }
    if s1[k] != s2[k] {
        assert(s2.contains(s1[k]));
        let j = choose|j: int| 0 <= j < s2.len() && s2[j] == s1[k];
        if j < k {
            assert(s1[j] == s2[j]);
            assert(more_recent_view(s1[j], s1[k]));
        }
        assert(s1.contains(s2[k]));
        let i = choose|i: int| 0 <= i < s1.len() && s1[i] == s2[k];
        if i < k {
            assert(s1[i] == s2[i]);
            assert(more_recent_view(s2[i], s2[k]));
        }
        assert(more_recent_view(s1[k], s1[i]));
        assert(more_recent_view(s2[k], s2[j]));
    }
}

/// The order of the quarters does not depend on the order they are given in: two lists of the
/// same quarters, no two of which share a fiscal year and quarter rank, ordered from the most
/// recent on, list the same quarters in the same order.
pub proof fn lemma_quarter_order_independent(
    keys1: Seq<(i32, String)>,
    keys2: Seq<(i32, String)>,
    perm1: Seq<int>,
    perm2: Seq<int>,
)
    requires
        quarter_views(keys1).to_multiset() == quarter_views(keys2).to_multiset(),
        distinct_quarters(keys1),
        distinct_quarters(keys2),
        recent_first_order(keys1, perm1),
        recent_first_order(keys2, perm2),
    ensures
        ordered_quarters(keys1, perm1) == ordered_quarters(keys2, perm2),
{
    let v1 = quarter_views(keys1);
    let v2 = quarter_views(keys2);
    v1.to_multiset_ensures();
    v2.to_multiset_ensures();
    lemma_order_is_permutation(keys1, perm1);
    lemma_order_is_permutation(keys2, perm2);
    lemma_order_strict(keys1, perm1);
    lemma_order_strict(keys2, perm2);
    let s1 = ordered_quarters(keys1, perm1);
    let s2 = ordered_quarters(keys2, perm2);
    assert forall|i: int| 0 <= i < s1.len() implies s2.contains(#[trigger] s1[i]) by {
        let p = perm1[i];
        assert(v1[p] == s1[i]);
        assert(v1.contains(s1[i]));
        assert(v1.to_multiset().count(s1[i]) > 0);
        assert(v2.to_multiset().count(s1[i]) > 0);
        assert(v2.contains(s1[i]));
        let q = choose|q: int| 0 <= q < v2.len() && v2[q] == s1[i];
        assert(perm2.contains(q));
        let j = choose|j: int| 0 <= j < perm2.len() && perm2[j] == q;
        assert(s2[j] == s1[i]);
    }
    assert forall|i: int| 0 <= i < s2.len() implies s1.contains(#[trigger] s2[i]) by {
        let p = perm2[i];
        assert(v2[p] == s2[i]);
        assert(v2.contains(s2[i]));
        assert(v2.to_multiset().count(s2[i]) > 0);
        assert(v1.to_multiset().count(s2[i]) > 0);
        assert(v1.contains(s2[i]));
        let q = choose|q: int| 0 <= q < v1.len() && v1[q] == s2[i];
        assert(perm1.contains(q));
        let j = choose|j: int| 0 <= j < perm1.len() && perm1[j] == q;
        assert(s1[j] == s2[i]);
    }
    if s1.len() > 0 {
        lemma_sorted_sequences_agree(s1, s2, s1.len() - 1);
    }
    assert(s1 =~= s2);
}

/// The TTM window does not depend on the order the quarters are given in: for two lists of
/// the same quarters, no two of which share a fiscal year and quarter rank, the windows hold the
/// same quarters in the same order.
pub proof fn lemma_ttm_window_order_independent(
    keys1: Seq<(i32, String)>,
    keys2: Seq<(i32, String)>,
    m: int,
    w1: Seq<usize>,
    w2: Seq<usize>,
)
    requires
        quarter_views(keys1).to_multiset() == quarter_views(keys2).to_multiset(),
        distinct_quarters(keys1),
        distinct_quarters(keys2),
        is_ttm_window(keys1, m, w1),
        is_ttm_window(keys2, m, w2),
    ensures
        forall|k: int| 0 <= k < m ==> quarter_view(keys1[#[trigger] w1[k] as int]) == quarter_view(
            keys2[w2[k] as int],
        ),
{
    let perm1 = choose|perm: Seq<int>|
        #[trigger] recent_first_order(keys1, perm) && forall|k: int| 0 <= k < m ==> w1[k] as int == perm[k];
    let perm2 = choose|perm: Seq<int>|
        #[trigger] recent_first_order(keys2, perm) && forall|k: int| 0 <= k < m ==> w2[k] as int == perm[k];
    lemma_quarter_order_independent(keys1, keys2, perm1, perm2);
    quarter_views(keys1).to_multiset_ensures();
    quarter_views(keys2).to_multiset_ensures();
    assert forall|k: int| 0 <= k < m implies quarter_view(keys1[#[trigger] w1[k] as int]) == quarter_view(
        keys2[w2[k] as int],
    ) by {
        assert(quarter_views(keys1).len() == keys1.len());
        assert(ordered_quarters(keys1, perm1)[k] == ordered_quarters(keys2, perm2)[k]);
    }
}

} // verus!

