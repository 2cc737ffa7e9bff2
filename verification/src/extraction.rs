//! The work queue of the concurrent EDGAR extraction: which companies are extracted, in which
//! order, how the queue counts them, and how extracted statements are filed.
use vstd::prelude::*;
use crate::query::{in_list, lemma_condition_keeps_fit, lemma_in_list, lemma_select_fits, placeholders_fit};
use crate::text::{
    append_decimal, append_placeholders, append_str, decimal, lemma_qmarks_add, lemma_qmarks_decimal,
    placeholders, qmarks_upto, split_char, split_chars, string_of, trim, trimmed, views,
};

verus! {

/// A company whose facts file is to be extracted.
#[derive(Debug, Clone)]
pub struct ExtractionTask {
    pub cik: String,
    pub symbol: String,
    pub stock_id: i64,
    pub company_name: String,
    pub edgar_file_path: String,
    pub priority: u8,
}

/// The priority of a company: 10 for the five largest, 9 for the next five, 5 for the rest.
pub open spec fn priority_of(symbol: Seq<char>) -> u8 {
    if symbol == "AAPL"@ || symbol == "MSFT"@ || symbol == "GOOGL"@ || symbol == "AMZN"@ || symbol
        == "NVDA"@ {
        10
    } else if symbol == "META"@ || symbol == "TSLA"@ || symbol == "AVGO"@ || symbol == "JPM"@
        || symbol == "ORCL"@ {
        9
    } else {
        5
    }
}

/// The priority of a company.
pub fn task_priority(symbol: &String) -> (r: u8)
    ensures
        r == priority_of(symbol@),
{
    if *symbol == "AAPL".to_owned() || *symbol == "MSFT".to_owned() || *symbol == "GOOGL".to_owned()
        || *symbol == "AMZN".to_owned() || *symbol == "NVDA".to_owned() {
        10
    } else if *symbol == "META".to_owned() || *symbol == "TSLA".to_owned() || *symbol
        == "AVGO".to_owned() || *symbol == "JPM".to_owned() || *symbol == "ORCL".to_owned() {
        9
    } else {
        5
    }
}

/// A mapping row as the queue loads it: CIK, symbol, stock id, company name, file path.
pub type TaskRow = (String, String, i64, String, String);

/// A task as plain values: CIK, symbol, stock id, company name, file path, priority.
pub open spec fn task_view(t: ExtractionTask) -> (Seq<char>, Seq<char>, i64, Seq<char>, Seq<char>, u8) {
    (t.cik@, t.symbol@, t.stock_id, t.company_name@, t.edgar_file_path@, t.priority)
}

/// The task of a row.
pub open spec fn row_task(r: TaskRow) -> (Seq<char>, Seq<char>, i64, Seq<char>, Seq<char>, u8) {
    (r.0@, r.1@, r.2, r.3@, r.4@, priority_of(r.1@))
}

/// The tasks of the rows whose priority is `p`, in the order of the rows.
pub open spec fn tasks_with_priority(rows: Seq<TaskRow>, p: u8) -> Seq<(Seq<char>, Seq<char>, i64, Seq<char>, Seq<char>, u8)>
    decreases rows.len(),
{
    if rows.len() == 0 {
        Seq::empty()
    } else {
        let rest = tasks_with_priority(rows.drop_last(), p);
        if priority_of(rows.last().1@) == p {
            rest.push(row_task(rows.last()))
        } else {
            rest
        }
    }
}

/// The tasks of the rows, highest priority first; rows of equal priority keep their order.
pub open spec fn queued_tasks(rows: Seq<TaskRow>) -> Seq<(Seq<char>, Seq<char>, i64, Seq<char>, Seq<char>, u8)> {
    tasks_with_priority(rows, 10) + tasks_with_priority(rows, 9) + tasks_with_priority(rows, 5)
}

/// Appends the tasks of the rows with priority `p` to `out`.
fn push_tasks_with_priority(out: &mut Vec<ExtractionTask>, rows: &Vec<TaskRow>, p: u8)
    ensures
        final(out)@.map_values(|t: ExtractionTask| task_view(t)) == old(out)@.map_values(
            |t: ExtractionTask| task_view(t),
        ) + tasks_with_priority(rows@, p),
{
    let ghost start = out@.map_values(|t: ExtractionTask| task_view(t));
    let mut k: usize = 0;
    assert(rows@.take(0) =~= Seq::<TaskRow>::empty());
    assert(out@.map_values(|t: ExtractionTask| task_view(t)) =~= start + tasks_with_priority(
        rows@.take(0),
        p,
    ));
    while k < rows.len()
        invariant
            k <= rows@.len(),
            out@.map_values(|t: ExtractionTask| task_view(t)) == start + tasks_with_priority(
                rows@.take(k as int),
                p,
            ),
        decreases rows@.len() - k,
    {
        assert(rows@.take(k + 1).drop_last() =~= rows@.take(k as int));
        let row = &rows[k];
        let q = task_priority(&row.1);
        if q == p {
            let ghost before = out@.map_values(|t: ExtractionTask| task_view(t));
            let t = ExtractionTask {
                cik: row.0.clone(),
                symbol: row.1.clone(),
                stock_id: row.2,
                company_name: row.3.clone(),
                edgar_file_path: row.4.clone(),
                priority: q,
            };
            out.push(t);
            assert(out@.map_values(|t: ExtractionTask| task_view(t)) =~= before.push(task_view(t)));
        }
        k = k + 1;
    }
    assert(rows@.take(rows@.len() as int) =~= rows@);
}

/// The tasks of the mapping rows, highest priority first; rows of equal priority keep their
/// order.
pub fn build_extraction_tasks(rows: &Vec<TaskRow>) -> (r: Vec<ExtractionTask>)
    ensures
        r@.map_values(|t: ExtractionTask| task_view(t)) == queued_tasks(rows@),
{
    let mut out: Vec<ExtractionTask> = Vec::new();
    assert(out@.map_values(|t: ExtractionTask| task_view(t)) =~= Seq::empty());
    push_tasks_with_priority(&mut out, rows, 10);
    push_tasks_with_priority(&mut out, rows, 9);
    push_tasks_with_priority(&mut out, rows, 5);
    assert(out@.map_values(|t: ExtractionTask| task_view(t)) =~= queued_tasks(rows@));
    out
}

/// The tasks with priority `p` all have priority `p`, and the three priorities take every row
/// once.
proof fn lemma_tasks_with_priority(rows: Seq<TaskRow>, p: u8)
    ensures
        forall|k: int|
            0 <= k < tasks_with_priority(rows, p).len() ==> (#[trigger] tasks_with_priority(
                rows,
                p,
            )[k]).5 == p,
        tasks_with_priority(rows, 10).len() + tasks_with_priority(rows, 9).len()
            + tasks_with_priority(rows, 5).len() == rows.len(),
    decreases rows.len(),
{
    if rows.len() > 0 {
        lemma_tasks_with_priority(rows.drop_last(), p);
        lemma_tasks_with_priority(rows.drop_last(), 10);
        lemma_tasks_with_priority(rows.drop_last(), 9);
        lemma_tasks_with_priority(rows.drop_last(), 5);
        let rest = tasks_with_priority(rows.drop_last(), p);
        let all = tasks_with_priority(rows, p);
        assert forall|k: int| 0 <= k < all.len() implies (#[trigger] all[k]).5 == p by {
            if k < rest.len() {
                assert(all[k] == rest[k]);
            }
        }
    }
}

/// The queue holds a task for every mapping row, and hands them out by non-increasing
/// priority.
pub proof fn lemma_queue_takes_every_row_by_priority(rows: Seq<TaskRow>)
    ensures
        queued_tasks(rows).len() == rows.len(),
        forall|i: int, j: int|
            0 <= i < j < queued_tasks(rows).len() ==> (#[trigger] queued_tasks(rows)[i]).5
                >= (#[trigger] queued_tasks(rows)[j]).5,
{
    lemma_tasks_with_priority(rows, 10);
    lemma_tasks_with_priority(rows, 9);
    lemma_tasks_with_priority(rows, 5);
    let a = tasks_with_priority(rows, 10);
    let b = tasks_with_priority(rows, 9);
    let c = tasks_with_priority(rows, 5);
    let q = queued_tasks(rows);
    assert forall|i: int, j: int| 0 <= i < j < q.len() implies (#[trigger] q[i]).5 >= (
    #[trigger] q[j]).5 by {
        let pi = if i < a.len() {
            10u8
        } else if i < a.len() + b.len() {
            9u8
        } else {
            5u8
        };
        let pj = if j < a.len() {
            10u8
        } else if j < a.len() + b.len() {
            9u8
        } else {
            5u8
        };
        if i < a.len() {
            assert(q[i] == a[i]);
        } else if i < a.len() + b.len() {
            assert(q[i] == b[i - a.len()]);
        } else {
            assert(q[i] == c[i - a.len() - b.len()]);
        }
        if j < a.len() {
            assert(q[j] == a[j]);
        } else if j < a.len() + b.len() {
            assert(q[j] == b[j - a.len()]);
        } else {
            assert(q[j] == c[j - a.len() - b.len()]);
        }
        assert(q[i].5 == pi && q[j].5 == pj);
    }
}

/// The selection of the mapping rows of the companies with a facts file.
pub open spec fn task_select() -> Seq<char> {
    "SELECT cik, symbol, stock_id, company_name, edgar_file_path FROM cik_mappings_sp500 WHERE file_exists = 1"@
}

/// The query that loads the mapping rows, with the values to bind.
pub open spec fn task_query(test_limit: Option<usize>, symbols_filter: Option<Seq<char>>) -> (Seq<char>, Seq<Seq<char>>) {
    let base = task_select();
    let (filtered, binds) = match symbols_filter {
        Some(s) => {
            let pieces = split_char(s, ',');
            (
                base + " AND symbol IN ("@ + placeholders(pieces.len()) + ")"@,
                pieces.map_values(|x: Seq<char>| trim(x)),
            )
        },
        None => (base, Seq::empty()),
    };
    let ordered = filtered + " ORDER BY symbol"@;
    match test_limit {
        Some(n) => (ordered + " LIMIT "@ + decimal(n as nat), binds),
        None => (ordered, binds),
    }
}

/// The query that loads the mapping rows of the companies with a facts file, ordered by
/// symbol: only the comma-separated `symbols_filter` where one is given (each trimmed), and at
/// most `test_limit` rows where a limit is given. Returns the query and the values to bind.
pub fn build_task_query(test_limit: Option<usize>, symbols_filter: Option<&str>) -> (r: (
    String,
    Vec<String>,
))
    ensures
        ({
            let (q, b) = task_query(
                test_limit,
                match symbols_filter {
                    Some(s) => Some(s@),
                    None => None,
                },
            );
            r.0@ == q && r.1@.map_values(|x: String| x@) == b
        }),
{
    let mut v: Vec<char> = Vec::new();
    append_str(
        &mut v,
        "SELECT cik, symbol, stock_id, company_name, edgar_file_path FROM cik_mappings_sp500 WHERE file_exists = 1",
    );
    let mut binds: Vec<String> = Vec::new();
    if let Some(s) = symbols_filter {
        let pieces = split_chars(s, ',');
        append_str(&mut v, " AND symbol IN (");
        append_placeholders(&mut v, pieces.len());
        append_str(&mut v, ")");
        let ghost pv = views(pieces@);
        let mut k: usize = 0;
        while k < pieces.len()
            invariant
                k <= pieces@.len(),
                pv == views(pieces@),
                binds@.map_values(|x: String| x@) == pv.take(k as int).map_values(
                    |x: Seq<char>| trim(x),
                ),
            decreases pieces@.len() - k,
        {
            let ghost before = binds@.map_values(|x: String| x@);
            let piece = string_of(&pieces[k]);
            let t = trimmed(piece.as_str());
            assert(pv[k as int] == pieces@[k as int]@);
            assert(t@ == trim(pv[k as int]));
            binds.push(t);
            assert(binds@.map_values(|x: String| x@) =~= before.push(t@));
            assert(pv.take(k + 1).map_values(|x: Seq<char>| trim(x)) =~= pv.take(k as int).map_values(
                |x: Seq<char>| trim(x),
            ).push(trim(pv[k as int])));
            assert(binds@.map_values(|x: String| x@) =~= pv.take(k + 1).map_values(
                |x: Seq<char>| trim(x),
            ));
            k = k + 1;
        }
        assert(pv.take(pieces@.len() as int) =~= pv);
    }
    append_str(&mut v, " ORDER BY symbol");
    if let Some(n) = test_limit {
        append_str(&mut v, " LIMIT ");
        append_decimal(&mut v, n as u64);
    }
    proof {
        if symbols_filter is None {
            assert(binds@.map_values(|x: String| x@) =~= Seq::<Seq<char>>::empty());
        }
    }
    (string_of(&v), binds)
}

/// The counters of the work queue.
#[derive(Debug, Clone, Copy)]
pub struct WorkQueueCounters {
    pub total_tasks: usize,
    pub completed_tasks: usize,
    pub failed_tasks: usize,
}

impl WorkQueueCounters {
    /// A queue of `total` tasks, none done.
    pub fn new(total: usize) -> (r: Self)
        ensures
            r.total_tasks == total && r.completed_tasks == 0 && r.failed_tasks == 0,
    {
        WorkQueueCounters { total_tasks: total, completed_tasks: 0, failed_tasks: 0 }
    }

    /// Counts a completed task (the counter wraps around, as an atomic `fetch_add` does).
    pub fn mark_completed(&mut self)
        ensures
            final(self).completed_tasks == if old(self).completed_tasks < usize::MAX {
                old(self).completed_tasks + 1
            } else {
                0
            },
            final(self).failed_tasks == old(self).failed_tasks,
            final(self).total_tasks == old(self).total_tasks,
    {
        self.completed_tasks = self.completed_tasks.wrapping_add(1);
    }

    /// Counts a failed task (the counter wraps around, as an atomic `fetch_add` does).
    pub fn mark_failed(&mut self)
        ensures
            final(self).failed_tasks == if old(self).failed_tasks < usize::MAX {
                old(self).failed_tasks + 1
            } else {
                0
            },
            final(self).completed_tasks == old(self).completed_tasks,
            final(self).total_tasks == old(self).total_tasks,
    {
        self.failed_tasks = self.failed_tasks.wrapping_add(1);
    }

    /// Total, completed, failed and remaining tasks; none remain once as many tasks are done as
    /// there are.
    pub fn get_stats(&self) -> (r: (usize, usize, usize, usize))
        requires
            self.completed_tasks + self.failed_tasks <= usize::MAX,
        ensures
            r.0 == self.total_tasks,
            r.1 == self.completed_tasks,
            r.2 == self.failed_tasks,
            r.3 == if self.completed_tasks + self.failed_tasks <= self.total_tasks {
                self.total_tasks - self.completed_tasks - self.failed_tasks
            } else {
                0
            },
    {
        let done = self.completed_tasks + self.failed_tasks;
        (
            self.total_tasks,
            self.completed_tasks,
            self.failed_tasks,
            self.total_tasks.saturating_sub(done),
        )
    }
}

/// The period type column of a statement: `annual_label` for a fiscal year (`FY`), else
/// `Quarterly`.
pub fn statement_period_type(period: &String, annual_label: &str) -> (r: String)
    ensures
        r@ == if period@ == "FY"@ {
            annual_label@
        } else {
            "Quarterly"@
        },
{
    if *period == "FY".to_owned() {
        annual_label.to_owned()
    } else {
        "Quarterly".to_owned()
    }
}

/// The fiscal period column of a statement: none for a fiscal year (`FY`), else the period.
pub fn statement_fiscal_period(period: &String) -> (r: Option<String>)
    ensures
        period@ == "FY"@ ==> r is None,
        period@ != "FY"@ ==> (r matches Some(p) && p@ == period@),
{
    if *period == "FY".to_owned() {
        None
    } else {
        Some(period.clone())
    }
}

/// Every symbol bound to the task query fills one placeholder: the query is the fixed selection
/// followed by a text with exactly one question mark per bound symbol.
pub proof fn lemma_task_query_binds_fill_placeholders(
    test_limit: Option<usize>,
    symbols_filter: Option<Seq<char>>,
)
    ensures
        placeholders_fit(task_query(test_limit, symbols_filter), task_select()),
{
    reveal_strlit(" AND symbol IN (");
    reveal_strlit(" ORDER BY symbol");
    reveal_strlit(" LIMIT ");
    reveal_with_fuel(qmarks_upto, 20);
    let sel = task_select();
    let e: Seq<Seq<char>> = Seq::empty();
    lemma_select_fits(sel);
    let qb1 = match symbols_filter {
        Some(s) => {
            let pieces = split_char(s, ',');
            let vals = pieces.map_values(|x: Seq<char>| trim(x));
            lemma_in_list(" AND symbol IN ("@, pieces.len());
            lemma_condition_keeps_fit((sel, e), sel, true, in_list(" AND symbol IN ("@, pieces.len()), vals);
            assert(e + vals =~= vals);
            (sel + in_list(" AND symbol IN ("@, pieces.len()), vals)
        },
        None => (sel, e),
    };
    assert(placeholders_fit(qb1, sel));
    lemma_condition_keeps_fit(qb1, sel, true, " ORDER BY symbol"@, e);
    assert(qb1.1 + e =~= qb1.1);
    let qb2 = (qb1.0 + " ORDER BY symbol"@, qb1.1);
    if let Some(n) = test_limit {
        let tail = " LIMIT "@ + decimal(n as nat);
        lemma_qmarks_decimal(n as nat);
        lemma_qmarks_add(" LIMIT "@, decimal(n as nat));
        lemma_condition_keeps_fit(qb2, sel, true, tail, e);
        assert(qb2.0 + " LIMIT "@ + decimal(n as nat) =~= qb2.0 + tail);
    }
    if let Some(s) = symbols_filter {
        assert(sel + " AND symbol IN ("@ + placeholders(split_char(s, ',').len()) + ")"@ =~= sel
            + in_list(" AND symbol IN ("@, split_char(s, ',').len()));
    }
}

} // verus!

