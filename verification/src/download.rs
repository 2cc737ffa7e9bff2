//! Resumable bulk download of price history: which symbols remain, and the record of which
//! succeeded and which failed.
use vstd::prelude::*;

verus! {

/// The symbols of `symbols` that are not among `completed`, in order.
pub open spec fn remaining(symbols: Seq<String>, completed: Set<Seq<char>>) -> Seq<Seq<char>>
    decreases symbols.len(),
{
    if symbols.len() == 0 {
        Seq::empty()
    } else {
        let rest = remaining(symbols.drop_last(), completed);
        if completed.contains(symbols.last()@) {
            rest
        } else {
            rest.push(symbols.last()@)
        }
    }
}

/// Whether no two entries of `v` name the same symbol.
pub open spec fn keys_unique(v: Seq<(String, String)>) -> bool {
    forall|i: int, j: int| 0 <= i < j < v.len() ==> (#[trigger] v[i]).0@ != (#[trigger] v[j]).0@
}

/// The symbols and errors of `v` as a map.
pub open spec fn error_map(v: Seq<(String, String)>) -> Map<Seq<char>, Seq<char>> {
    Map::new(
        |s: Seq<char>| exists|i: int| 0 <= i < v.len() && (#[trigger] v[i]).0@ == s,
        |s: Seq<char>| v[choose|i: int| 0 <= i < v.len() && (#[trigger] v[i]).0@ == s].1@,
    )
}

/// In a list with unique symbols, the map gives each entry's error for its symbol.
proof fn lemma_error_map_at(v: Seq<(String, String)>, i: int)
    requires
        keys_unique(v),
        0 <= i < v.len(),
    ensures
        error_map(v).dom().contains(v[i].0@),
        error_map(v)[v[i].0@] == v[i].1@,
{
    let s = v[i].0@;
    assert(exists|j: int| 0 <= j < v.len() && (#[trigger] v[j]).0@ == s);
    let j = choose|j: int| 0 <= j < v.len() && (#[trigger] v[j]).0@ == s;
    if j != i {
        if j < i {
            assert(v[j].0@ != v[i].0@);
        } else {
            assert(v[i].0@ != v[j].0@);
        }
    }
}

/// The symbols and errors of `v` as a map, later entries replacing earlier ones for the same
/// symbol (as inserting them into a map in order does).
pub open spec fn errors_inserted(v: Seq<(String, String)>) -> Map<Seq<char>, Seq<char>>
    decreases v.len(),
{
    if v.len() == 0 {
        Map::empty()
    } else {
        errors_inserted(v.drop_last()).insert(v.last().0@, v.last().1@)
    }
}

/// The symbols of `v` as a set.
pub open spec fn symbol_set(v: Seq<String>) -> Set<Seq<char>> {
    Set::new(|s: Seq<char>| exists|i: int| 0 <= i < v.len() && (#[trigger] v[i])@ == s)
}

/// The record of a bulk download: the completed symbols, the failed ones with their last
/// error, and the counts of calls and records.
#[derive(Debug)]
pub struct DownloadRecord {
    completed_symbols: Vec<String>,
    failed_symbols: Vec<(String, String)>,
    total_api_calls: usize,
    successful_calls: usize,
    failed_calls: usize,
    total_price_records: usize,
}

/// The position of `symbol` among the entries of `v`.
fn position_of_symbol(v: &Vec<(String, String)>, symbol: &String) -> (r: Option<usize>)
    ensures
        match r {
            Some(i) => i < v@.len() && v@[i as int].0@ == symbol@,
            None => forall|m: int| 0 <= m < v@.len() ==> (#[trigger] v@[m]).0@ != symbol@,
        },
{
    let mut k: usize = 0;
    while k < v.len()
        invariant
            k <= v@.len(),
            forall|m: int| 0 <= m < k ==> (#[trigger] v@[m]).0@ != symbol@,
        decreases v@.len() - k,
    {
        if v[k].0 == *symbol {
            return Some(k);
        }
        k = k + 1;
    }
    None
}

/// `v` without the entry of `symbol`, if it has one.
fn remove_symbol(v: &mut Vec<(String, String)>, symbol: &String)
    requires
        keys_unique(old(v)@),
    ensures
        keys_unique(final(v)@),
        error_map(final(v)@) == error_map(old(v)@).remove(symbol@),
{
    match position_of_symbol(v, symbol) {
        Some(i) => {
            let ghost o = v@;
            v.remove(i);
            let ghost n = v@;
            assert(n =~= o.remove(i as int));
            assert forall|a: int, b: int| 0 <= a < b < n.len() implies (#[trigger] n[a]).0@ != (
            #[trigger] n[b]).0@ by {
                let oa = if a < i { a } else { a + 1 };
                let ob = if b < i { b } else { b + 1 };
                assert(n[a] == o[oa] && n[b] == o[ob]);
            }
            assert forall|s: Seq<char>| #[trigger] error_map(n).dom().contains(s)
                <==> error_map(o).remove(symbol@).dom().contains(s) by {
                if error_map(n).dom().contains(s) {
                    let j = choose|j: int| 0 <= j < n.len() && (#[trigger] n[j]).0@ == s;
                    let oj = if j < i { j } else { j + 1 };
                    assert(n[j] == o[oj]);
                    if s == symbol@ {
                        if oj < i {
                            assert(o[oj].0@ != o[i as int].0@);
                        } else {
                            assert(o[i as int].0@ != o[oj].0@);
                        }
                    }
                }
                if error_map(o).remove(symbol@).dom().contains(s) {
                    let j = choose|j: int| 0 <= j < o.len() && (#[trigger] o[j]).0@ == s;
                    assert(j != i);
                    let nj = if j < i { j } else { j - 1 };
                    assert(n[nj] == o[j]);
                }
            }
            assert forall|s: Seq<char>| #[trigger] error_map(n).dom().contains(s) implies error_map(
                n,
            )[s] == error_map(o)[s] by {
                let j = choose|j: int| 0 <= j < n.len() && (#[trigger] n[j]).0@ == s;
                let oj = if j < i { j } else { j + 1 };
                assert(n[j] == o[oj]);
                lemma_error_map_at(n, j);
                lemma_error_map_at(o, oj);
            }
            assert(error_map(n) =~= error_map(o).remove(symbol@));
        },
        None => {
            assert(!error_map(v@).dom().contains(symbol@));
            assert(error_map(v@) =~= error_map(v@).remove(symbol@));
        },
    }
}

/// `v` with the error of `symbol` set to `error`.
fn set_error(v: &mut Vec<(String, String)>, symbol: &String, error: String)
    requires
        keys_unique(old(v)@),
    ensures
        keys_unique(final(v)@),
        error_map(final(v)@) == error_map(old(v)@).insert(symbol@, error@),
{
    remove_symbol(v, symbol);
    let ghost o = v@;
    v.push((symbol.clone(), error));
    let ghost n = v@;
    assert forall|a: int, b: int| 0 <= a < b < n.len() implies (#[trigger] n[a]).0@ != (
    #[trigger] n[b]).0@ by {
        if b == n.len() - 1 {
            assert(n[a] == o[a]);
            assert(!error_map(o).dom().contains(symbol@));
            if n[a].0@ == symbol@ {
                assert(error_map(o).dom().contains(o[a].0@));
            }
        } else {
            assert(n[a] == o[a] && n[b] == o[b]);
        }
    }
    assert forall|s: Seq<char>| #[trigger] error_map(n).dom().contains(s)
        <==> error_map(o).insert(symbol@, error@).dom().contains(s) by {
        if error_map(n).dom().contains(s) {
            let j = choose|j: int| 0 <= j < n.len() && (#[trigger] n[j]).0@ == s;
            if j < o.len() {
                assert(n[j] == o[j]);
            }
        }
        if error_map(o).dom().contains(s) {
            let j = choose|j: int| 0 <= j < o.len() && (#[trigger] o[j]).0@ == s;
            assert(n[j] == o[j]);
        }
        if s == symbol@ {
            assert(n[n.len() - 1].0@ == s);
        }
    }
    assert forall|s: Seq<char>| #[trigger] error_map(n).dom().contains(s) implies error_map(n)[s]
        == error_map(o).insert(symbol@, error@)[s] by {
        let j = choose|j: int| 0 <= j < n.len() && (#[trigger] n[j]).0@ == s;
        lemma_error_map_at(n, j);
        if j < o.len() {
            assert(n[j] == o[j]);
            lemma_error_map_at(o, j);
            if s == symbol@ {
                assert(error_map(o).dom().contains(o[j].0@));
            }
        }
    }
    assert(error_map(n) =~= error_map(o).insert(symbol@, error@));
}

impl DownloadRecord {
    /// No symbol is listed twice as completed, nor twice as failed.
    #[verifier::type_invariant]
    spec fn no_duplicates(self) -> bool {
        &&& forall|i: int, j: int|
            0 <= i < j < self.completed_symbols@.len() ==> (#[trigger] self.completed_symbols@[i])@
                != (#[trigger] self.completed_symbols@[j])@
        &&& keys_unique(self.failed_symbols@)
    }

    /// The completed symbols.
    pub closed spec fn completed(self) -> Set<Seq<char>> {
        Set::new(|s: Seq<char>| exists|i: int| 0 <= i < self.completed_symbols@.len() && (
        #[trigger] self.completed_symbols@[i])@ == s)
    }

    /// The calls made.
    pub closed spec fn api_calls(self) -> usize {
        self.total_api_calls
    }

    /// The calls that succeeded.
    pub closed spec fn successes(self) -> usize {
        self.successful_calls
    }

    /// The calls that failed.
    pub closed spec fn failures(self) -> usize {
        self.failed_calls
    }

    /// The price records downloaded.
    pub closed spec fn records(self) -> usize {
        self.total_price_records
    }

    /// The calls made.
    pub fn total_api_calls(&self) -> (r: usize)
        ensures
            r == self.api_calls(),
    {
        self.total_api_calls
    }

    /// The calls that succeeded.
    pub fn successful_calls(&self) -> (r: usize)
        ensures
            r == self.successes(),
    {
        self.successful_calls
    }

    /// The calls that failed.
    pub fn failed_calls(&self) -> (r: usize)
        ensures
            r == self.failures(),
    {
        self.failed_calls
    }

    /// The price records downloaded.
    pub fn total_price_records(&self) -> (r: usize)
        ensures
            r == self.records(),
    {
        self.total_price_records
    }

    /// The failed symbols and their last error.
    pub closed spec fn failed(self) -> Map<Seq<char>, Seq<char>> {
        error_map(self.failed_symbols@)
    }

    /// A record with nothing downloaded yet.
    pub fn new() -> (r: Self)
        ensures
            r.completed() == Set::<Seq<char>>::empty(),
            r.failed() == Map::<Seq<char>, Seq<char>>::empty(),
            r.api_calls() == 0 && r.successes() == 0 && r.failures() == 0
                && r.records() == 0,
    {
        let r = DownloadRecord {
            completed_symbols: Vec::new(),
            failed_symbols: Vec::new(),
            total_api_calls: 0,
            successful_calls: 0,
            failed_calls: 0,
            total_price_records: 0,
        };
        assert(r.completed() =~= Set::<Seq<char>>::empty());
        assert(r.failed() =~= Map::<Seq<char>, Seq<char>>::empty());
        r
    }

    /// Whether `symbol` is completed.
    pub fn is_completed(&self, symbol: &String) -> (r: bool)
        ensures
            r == self.completed().contains(symbol@),
    {
        let mut k: usize = 0;
        while k < self.completed_symbols.len()
            invariant
                k <= self.completed_symbols@.len(),
                forall|m: int| 0 <= m < k ==> (#[trigger] self.completed_symbols@[m])@ != symbol@,
            decreases self.completed_symbols@.len() - k,
        {
            if self.completed_symbols[k] == *symbol {
                return true;
            }
            k = k + 1;
        }
        false
    }

    /// The symbols of `symbols` that are not completed yet, in order.
    pub fn remaining_symbols(&self, symbols: &Vec<String>) -> (r: Vec<String>)
        ensures
            r@.map_values(|s: String| s@) == remaining(symbols@, self.completed()),
    {
        let mut r: Vec<String> = Vec::new();
        let mut k: usize = 0;
        assert(r@.map_values(|s: String| s@) =~= remaining(symbols@.take(0), self.completed()));
        while k < symbols.len()
            invariant
                k <= symbols@.len(),
                r@.map_values(|s: String| s@) == remaining(symbols@.take(k as int), self.completed()),
            decreases symbols@.len() - k,
        {
            assert(symbols@.take(k + 1).drop_last() =~= symbols@.take(k as int));
            if !self.is_completed(&symbols[k]) {
                let ghost before = r@.map_values(|s: String| s@);
                r.push(symbols[k].clone());
                assert(r@.map_values(|s: String| s@) =~= before.push(symbols@[k as int]@));
            }
            k = k + 1;
        }
        assert(symbols@.take(symbols@.len() as int) =~= symbols@);
        r
    }

    /// Records that `symbol` was downloaded with `price_count` records: it is completed, no
    /// longer failed, and one more call succeeded.
    pub fn record_success(&mut self, symbol: &String, price_count: usize)
        requires
            old(self).successes() < usize::MAX,
            old(self).api_calls() < usize::MAX,
            old(self).records() + price_count <= usize::MAX,
        ensures
            final(self).completed() == old(self).completed().insert(symbol@),
            final(self).failed() == old(self).failed().remove(symbol@),
            final(self).successes() == old(self).successes() + 1,
            final(self).failures() == old(self).failures(),
            final(self).api_calls() == old(self).api_calls() + 1,
            final(self).records() == old(self).records() + price_count,
    {
        proof {
            use_type_invariant(&*self);
        }
        let ghost old_rec = *self;
        let already = self.is_completed(symbol);
        let mut completed: Vec<String> = Vec::new();
        std::mem::swap(&mut completed, &mut self.completed_symbols);
        let ghost oc = completed@;
        if !already {
            completed.push(symbol.clone());
            assert forall|i: int, j: int|
                0 <= i < j < completed@.len() implies (#[trigger] completed@[i])@ != (
            #[trigger] completed@[j])@ by {
                if j == completed@.len() - 1 {
                    assert(completed@[i] == oc[i]);
                    if completed@[i]@ == symbol@ {
                        assert(old_rec.completed().contains(oc[i]@));
                    }
                } else {
                    assert(completed@[i] == oc[i] && completed@[j] == oc[j]);
                }
            }
        }
        self.completed_symbols = completed;
        let mut failed: Vec<(String, String)> = Vec::new();
        std::mem::swap(&mut failed, &mut self.failed_symbols);
        remove_symbol(&mut failed, symbol);
        self.failed_symbols = failed;
        self.successful_calls = self.successful_calls + 1;
        self.total_price_records = self.total_price_records + price_count;
        self.total_api_calls = self.total_api_calls + 1;
        proof {
            assert forall|s: Seq<char>| #[trigger] self.completed().contains(s)
                <==> old_rec.completed().insert(symbol@).contains(s) by {
                if self.completed().contains(s) {
                    let i = choose|i: int|
                        0 <= i < self.completed_symbols@.len() && (
                        #[trigger] self.completed_symbols@[i])@ == s;
                    if i < oc.len() {
                        assert(self.completed_symbols@[i] == oc[i]);
                    }
                }
                if old_rec.completed().contains(s) {
                    let i = choose|i: int| 0 <= i < oc.len() && (#[trigger] oc[i])@ == s;
                    assert(self.completed_symbols@[i] == oc[i]);
                }
                if s == symbol@ && !already {
                    assert(self.completed_symbols@[self.completed_symbols@.len() - 1]@ == s);
                }
            }
            assert(self.completed() =~= old_rec.completed().insert(symbol@));
        }
    }

    /// A record resumed from saved progress: the completed symbols, the failed ones with their
    /// errors (a later entry for a symbol replacing an earlier one) and the counts.
    pub fn restore(
        completed: Vec<String>,
        failed: Vec<(String, String)>,
        total_api_calls: usize,
        successful_calls: usize,
        failed_calls: usize,
        total_price_records: usize,
    ) -> (r: Self)
        ensures
            r.completed() == symbol_set(completed@),
            r.failed() == errors_inserted(failed@),
            r.api_calls() == total_api_calls && r.successes() == successful_calls && r.failures()
                == failed_calls && r.records() == total_price_records,
    {
        let mut done: Vec<String> = Vec::new();
        let mut k: usize = 0;
        while k < completed.len()
            invariant
                k <= completed@.len(),
                forall|i: int, j: int|
                    0 <= i < j < done@.len() ==> (#[trigger] done@[i])@ != (#[trigger] done@[j])@,
                symbol_set(done@) == symbol_set(completed@.take(k as int)),
            decreases completed@.len() - k,
        {
            let ghost before = done@;
            let mut present = false;
            let mut m: usize = 0;
            while m < done.len()
                invariant
                    m <= done@.len(),
                    k < completed@.len(),
                    present == exists|i: int| 0 <= i < m && (#[trigger] done@[i])@ == completed@[k as int]@,
                decreases done@.len() - m,
            {
                if done[m] == completed[k] {
                    present = true;
                }
                m = m + 1;
            }
            if !present {
                done.push(completed[k].clone());
                assert forall|i: int, j: int|
                    0 <= i < j < done@.len() implies (#[trigger] done@[i])@ != (#[trigger] done@[j])@ by {
                    if j == done@.len() - 1 {
                        assert(done@[i] == before[i]);
                    } else {
                        assert(done@[i] == before[i] && done@[j] == before[j]);
                    }
                }
            }
            assert forall|s: Seq<char>| #[trigger] symbol_set(done@).contains(s) <==> symbol_set(
                completed@.take(k + 1),
            ).contains(s) by {
                let t = completed@.take(k + 1);
                if symbol_set(done@).contains(s) {
                    let i = choose|i: int| 0 <= i < done@.len() && (#[trigger] done@[i])@ == s;
                    if i < before.len() {
                        assert(done@[i] == before[i]);
                        assert(symbol_set(completed@.take(k as int)).contains(s));
                        let j = choose|j: int| 0 <= j < k && (#[trigger] completed@.take(k as int)[j])@ == s;
                        assert(t[j] == completed@.take(k as int)[j]);
                    } else {
                        assert(t[k as int] == completed@[k as int]);
                    }
                }
                if symbol_set(t).contains(s) {
                    let j = choose|j: int| 0 <= j < t.len() && (#[trigger] t[j])@ == s;
                    if j < k {
                        assert(completed@.take(k as int)[j] == t[j]);
                        assert(symbol_set(before).contains(s));
                        let i = choose|i: int| 0 <= i < before.len() && (#[trigger] before[i])@ == s;
                        assert(done@[i] == before[i]);
                    } else if present {
                        let i = choose|i: int| 0 <= i < done@.len() && (#[trigger] done@[i])@ == completed@[k as int]@;
                        assert(t[j] == completed@[k as int]);
                    } else {
                        assert(done@[done@.len() - 1]@ == s);
                    }
                }
            }
            assert(symbol_set(done@) =~= symbol_set(completed@.take(k + 1)));
            k = k + 1;
        }
        assert(completed@.take(completed@.len() as int) =~= completed@);
        let mut errors: Vec<(String, String)> = Vec::new();
        let mut k: usize = 0;
        assert(error_map(errors@) =~= Map::<Seq<char>, Seq<char>>::empty());
        assert(failed@.take(0) =~= Seq::<(String, String)>::empty());
        while k < failed.len()
            invariant
                k <= failed@.len(),
                keys_unique(errors@),
                error_map(errors@) == errors_inserted(failed@.take(k as int)),
            decreases failed@.len() - k,
        {
            assert(failed@.take(k + 1).drop_last() =~= failed@.take(k as int));
            set_error(&mut errors, &failed[k].0, failed[k].1.clone());
            k = k + 1;
        }
        assert(failed@.take(failed@.len() as int) =~= failed@);
        DownloadRecord {
            completed_symbols: done,
            failed_symbols: errors,
            total_api_calls,
            successful_calls,
            failed_calls,
            total_price_records,
        }
    }

    /// The completed symbols, each once.
    pub fn completed_symbols(&self) -> (r: Vec<String>)
        ensures
            symbol_set(r@) == self.completed(),
    {
        let mut r: Vec<String> = Vec::new();
        let mut k: usize = 0;
        while k < self.completed_symbols.len()
            invariant
                k <= self.completed_symbols@.len(),
                r@.len() == k,
                forall|i: int| 0 <= i < k ==> (#[trigger] r@[i])@ == self.completed_symbols@[i]@,
            decreases self.completed_symbols@.len() - k,
        {
            r.push(self.completed_symbols[k].clone());
            k = k + 1;
        }
        proof {
            assert forall|s: Seq<char>| #[trigger] symbol_set(r@).contains(s) <==> self.completed().contains(s) by {
                if symbol_set(r@).contains(s) {
                    let i = choose|i: int| 0 <= i < r@.len() && (#[trigger] r@[i])@ == s;
                    assert(self.completed_symbols@[i]@ == s);
                }
                if self.completed().contains(s) {
                    let i = choose|i: int| 0 <= i < self.completed_symbols@.len() && (
                    #[trigger] self.completed_symbols@[i])@ == s;
                    assert(r@[i]@ == s);
                }
            }
            assert(symbol_set(r@) =~= self.completed());
        }
        r
    }

    /// The failed symbols with their last error, each symbol once.
    pub fn failed_symbols(&self) -> (r: Vec<(String, String)>)
        ensures
            keys_unique(r@),
            error_map(r@) == self.failed(),
    {
        proof {
            use_type_invariant(self);
        }
        let mut r: Vec<(String, String)> = Vec::new();
        let mut k: usize = 0;
        while k < self.failed_symbols.len()
            invariant
                k <= self.failed_symbols@.len(),
                r@.len() == k,
                forall|i: int| 0 <= i < k ==> (#[trigger] r@[i]).0@ == self.failed_symbols@[i].0@
                    && r@[i].1@ == self.failed_symbols@[i].1@,
            decreases self.failed_symbols@.len() - k,
        {
            r.push((self.failed_symbols[k].0.clone(), self.failed_symbols[k].1.clone()));
            k = k + 1;
        }
        proof {
            let v = self.failed_symbols@;
            assert forall|a: int, b: int| 0 <= a < b < r@.len() implies (#[trigger] r@[a]).0@ != (
            #[trigger] r@[b]).0@ by {
                assert(v[a].0@ != v[b].0@);
            }
            assert forall|s: Seq<char>| #[trigger] error_map(r@).dom().contains(s)
                <==> error_map(v).dom().contains(s) by {
                if error_map(r@).dom().contains(s) {
                    let i = choose|i: int| 0 <= i < r@.len() && (#[trigger] r@[i]).0@ == s;
                    assert(v[i].0@ == s);
                }
                if error_map(v).dom().contains(s) {
                    let i = choose|i: int| 0 <= i < v.len() && (#[trigger] v[i]).0@ == s;
                    assert(r@[i].0@ == s);
                }
            }
            assert forall|s: Seq<char>| #[trigger] error_map(r@).dom().contains(s) implies error_map(
                r@,
            )[s] == error_map(v)[s] by {
                let i = choose|i: int| 0 <= i < r@.len() && (#[trigger] r@[i]).0@ == s;
                lemma_error_map_at(r@, i);
                lemma_error_map_at(v, i);
            }
            assert(error_map(r@) =~= error_map(v));
        }
        r
    }

    /// Records that downloading `symbol` failed with `error`: its last error is `error`, and
    /// one more call failed.
    pub fn record_failure(&mut self, symbol: &String, error: String)
        requires
            old(self).failures() < usize::MAX,
            old(self).api_calls() < usize::MAX,
        ensures
            final(self).failed() == old(self).failed().insert(symbol@, error@),
            final(self).completed() == old(self).completed(),
            final(self).failures() == old(self).failures() + 1,
            final(self).successes() == old(self).successes(),
            final(self).api_calls() == old(self).api_calls() + 1,
            final(self).records() == old(self).records(),
    {
        proof {
            use_type_invariant(&*self);
        }
        let ghost old_rec = *self;
        let mut failed: Vec<(String, String)> = Vec::new();
        std::mem::swap(&mut failed, &mut self.failed_symbols);
        set_error(&mut failed, symbol, error);
        self.failed_symbols = failed;
        self.failed_calls = self.failed_calls + 1;
        self.total_api_calls = self.total_api_calls + 1;
        proof {
            assert(self.completed() =~= old_rec.completed());
        }
    }
}

/// A resumed download never downloads a completed symbol again, and keeps every other symbol in
/// its order.
pub proof fn lemma_remaining_skips_completed(symbols: Seq<String>, completed: Set<Seq<char>>)
    ensures
        forall|i: int|
            0 <= i < remaining(symbols, completed).len() ==> !completed.contains(
                #[trigger] remaining(symbols, completed)[i],
            ),
        forall|i: int|
            0 <= i < symbols.len() && !completed.contains(#[trigger] symbols[i]@) ==> remaining(
                symbols,
                completed,
            ).contains(symbols[i]@),
    decreases symbols.len(),
{
    if symbols.len() > 0 {
        let t = symbols.drop_last();
        lemma_remaining_skips_completed(t, completed);
        let r = remaining(symbols, completed);
        let rt = remaining(t, completed);
        assert forall|i: int| 0 <= i < r.len() implies !completed.contains(#[trigger] r[i]) by {
            if i < rt.len() {
                assert(r[i] == rt[i]);
            }
        }
        assert forall|i: int|
            0 <= i < symbols.len() && !completed.contains(#[trigger] symbols[i]@) implies r.contains(
            symbols[i]@,
        ) by {
            if i < t.len() {
                assert(t[i] == symbols[i]);
                assert(rt.contains(t[i]@));
                let j = choose|j: int| 0 <= j < rt.len() && rt[j] == t[i]@;
                assert(r[j] == rt[j]);
            } else {
                assert(r[r.len() - 1] == symbols[i]@);
            }
        }
    }
}

/// A symbol recorded as a success is completed and no longer failed, whatever was recorded of
/// it before; the other symbols keep their state.
pub proof fn lemma_success_clears_failure(before: DownloadRecord, after: DownloadRecord, symbol: Seq<char>)
    requires
        after.completed() == before.completed().insert(symbol),
        after.failed() == before.failed().remove(symbol),
    ensures
        after.completed().contains(symbol),
        !after.failed().dom().contains(symbol),
        forall|s: Seq<char>|
            s != symbol ==> (after.completed().contains(s) == before.completed().contains(s) && (
            #[trigger] after.failed().dom().contains(s)) == before.failed().dom().contains(s)),
{
}

/// Where no symbol is listed twice, inserting the errors in order gives each symbol its listed
/// error.
proof fn lemma_errors_inserted_unique(v: Seq<(String, String)>)
    requires
        keys_unique(v),
    ensures
        errors_inserted(v) == error_map(v),
    decreases v.len(),
{
    if v.len() == 0 {
        assert(error_map(v) =~= Map::<Seq<char>, Seq<char>>::empty());
    } else {
        let t = v.drop_last();
        let x = v.last();
        assert forall|a: int, b: int| 0 <= a < b < t.len() implies (#[trigger] t[a]).0@ != (
        #[trigger] t[b]).0@ by {
            assert(t[a] == v[a] && t[b] == v[b]);
        }
        lemma_errors_inserted_unique(t);
        lemma_error_map_at(v, v.len() - 1);
        assert forall|s: Seq<char>| #[trigger] error_map(v).dom().contains(s) <==> error_map(
            t,
        ).insert(x.0@, x.1@).dom().contains(s) by {
            if error_map(v).dom().contains(s) && s != x.0@ {
                let j = choose|j: int| 0 <= j < v.len() && (#[trigger] v[j]).0@ == s;
                assert(j < t.len());
                assert(t[j] == v[j]);
            }
            if error_map(t).dom().contains(s) {
                let j = choose|j: int| 0 <= j < t.len() && (#[trigger] t[j]).0@ == s;
                assert(v[j] == t[j]);
            }
        }
        assert forall|s: Seq<char>| #[trigger] error_map(v).dom().contains(s) implies error_map(v)[s]
            == error_map(t).insert(x.0@, x.1@)[s] by {
            if s != x.0@ {
                let j = choose|j: int| 0 <= j < v.len() && (#[trigger] v[j]).0@ == s;
                assert(j < t.len());
                assert(t[j] == v[j]);
                lemma_error_map_at(v, j);
                lemma_error_map_at(t, j);
            }
        }
        assert(error_map(v) =~= error_map(t).insert(x.0@, x.1@));
    }
}

/// Saving a download record and restoring it gives back the same errors: restoring from the
/// failed symbols with their errors that the record lists (each symbol once) yields its errors.
/// (Its completed symbols come back as the set of the listed ones, which is the record's set.)
pub proof fn lemma_restore_after_save(rec: DownloadRecord, failed: Seq<(String, String)>)
    requires
        keys_unique(failed),
        error_map(failed) == rec.failed(),
    ensures
        errors_inserted(failed) == rec.failed(),
{
    lemma_errors_inserted_unique(failed);
}

} // verus!

