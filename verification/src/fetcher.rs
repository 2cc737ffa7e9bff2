//! Concurrent fetching of stock price history: the bookkeeping of the worker threads.
//!
//! Worker threads take stocks from a shared queue, fetch each one (with retries) and report
//! progress. The fetching itself is I/O; this module holds what the workers decide: which stocks
//! are processed, what each outcome does to the shared counters, which progress update it
//! sends, and when a failed fetch is tried again.
use vstd::prelude::*;
use crate::text::{append_decimal, append_str, decimal, string_of};

verus! {

/// Progress update from a worker thread.
#[derive(Debug, Clone)]
pub struct FetchProgress {
    pub thread_id: usize,
    pub stock_symbol: String,
    pub status: FetchStatus,
    pub message: String,
}

/// Status of a fetch operation.
#[derive(Debug, Clone)]
pub enum FetchStatus {
    Started,
    /// Data already exists.
    Skipped,
    Completed,
    Failed(String),
}

/// Result of a concurrent fetching operation.
#[derive(Debug)]
pub struct FetchResult {
    pub total_stocks: usize,
    pub processed_stocks: usize,
    pub skipped_stocks: usize,
    pub failed_stocks: usize,
    pub total_records_fetched: usize,
}

/// Counters that the worker threads share while they fetch.
#[derive(Debug)]
pub struct FetchCounters {
    pub total_stocks: usize,
    pub processed_stocks: usize,
    pub skipped_stocks: usize,
    pub failed_stocks: usize,
    pub total_records_fetched: usize,
}

/// What fetching one stock gave: the number of records fetched, or the error's message.
#[derive(Debug, Clone)]
pub enum FetchOutcome {
    Fetched(usize),
    Failed(String),
}

impl FetchCounters {
    /// All counters at zero.
    pub fn new() -> (r: Self)
        ensures
            r.total_stocks == 0,
            r.processed_stocks == 0,
            r.skipped_stocks == 0,
            r.failed_stocks == 0,
            r.total_records_fetched == 0,
    {
        FetchCounters {
            total_stocks: 0,
            processed_stocks: 0,
            skipped_stocks: 0,
            failed_stocks: 0,
            total_records_fetched: 0,
        }
    }

    /// Counts a stock whose fetch succeeded with `records` records.
    pub fn record_success(&mut self, records: usize)
        requires
            old(self).processed_stocks < usize::MAX,
            old(self).total_records_fetched + records <= usize::MAX,
        ensures
            final(self).processed_stocks == old(self).processed_stocks + 1,
            final(self).total_records_fetched == old(self).total_records_fetched + records,
            final(self).failed_stocks == old(self).failed_stocks,
            final(self).skipped_stocks == old(self).skipped_stocks,
            final(self).total_stocks == old(self).total_stocks,
    {
        self.processed_stocks = self.processed_stocks + 1;
        self.total_records_fetched = self.total_records_fetched + records;
    }

    /// Counts a stock whose fetch failed.
    pub fn record_failure(&mut self)
        requires
            old(self).failed_stocks < usize::MAX,
        ensures
            final(self).failed_stocks == old(self).failed_stocks + 1,
            final(self).processed_stocks == old(self).processed_stocks,
            final(self).total_records_fetched == old(self).total_records_fetched,
            final(self).skipped_stocks == old(self).skipped_stocks,
            final(self).total_stocks == old(self).total_stocks,
    {
        self.failed_stocks = self.failed_stocks + 1;
    }

    /// The final result that the counters give.
    pub fn result(&self) -> (r: FetchResult)
        ensures
            r.total_stocks == self.total_stocks,
            r.processed_stocks == self.processed_stocks,
            r.skipped_stocks == self.skipped_stocks,
            r.failed_stocks == self.failed_stocks,
            r.total_records_fetched == self.total_records_fetched,
    {
        FetchResult {
            total_stocks: self.total_stocks,
            processed_stocks: self.processed_stocks,
            skipped_stocks: self.skipped_stocks,
            failed_stocks: self.failed_stocks,
            total_records_fetched: self.total_records_fetched,
        }
    }
}

/// The counters after one more outcome: a fetched stock counts as processed with its records,
/// a failed one as failed.
pub open spec fn after_outcome(c: FetchCounters, o: FetchOutcome) -> FetchCounters {
    match o {
        FetchOutcome::Fetched(n) => FetchCounters {
            processed_stocks: (c.processed_stocks + 1) as usize,
            total_records_fetched: (c.total_records_fetched + n) as usize,
            ..c
        },
        FetchOutcome::Failed(_) => FetchCounters { failed_stocks: (c.failed_stocks + 1) as usize, ..c },
    }
}

/// The counters after the outcomes `os`, in order.
pub open spec fn after_outcomes(c: FetchCounters, os: Seq<FetchOutcome>) -> FetchCounters
    decreases os.len(),
{
    if os.len() == 0 {
        c
    } else {
        after_outcome(after_outcomes(c, os.drop_last()), os.last())
    }
}

/// The records that the fetched stocks among `os` gave.
pub open spec fn records_of(os: Seq<FetchOutcome>) -> int
    decreases os.len(),
{
    if os.len() == 0 {
        0
    } else {
        records_of(os.drop_last()) + match os.last() {
            FetchOutcome::Fetched(n) => n as int,
            FetchOutcome::Failed(_) => 0,
        }
    }
}

/// Whether no counter overflows while the outcomes `os` are counted.
pub open spec fn counts_fit(c: FetchCounters, os: Seq<FetchOutcome>) -> bool {
    c.processed_stocks + c.failed_stocks + os.len() <= usize::MAX && c.total_records_fetched
        + records_of(os) <= usize::MAX
}

/// Every outcome is counted exactly once: after the outcomes of a run, the processed and the
/// failed stocks add up to the outcomes, and the records fetched to those of the processed
/// stocks; no stock is counted as skipped.
pub proof fn lemma_every_outcome_counted_once(c: FetchCounters, os: Seq<FetchOutcome>)
    requires
        counts_fit(c, os),
    ensures
        after_outcomes(c, os).processed_stocks + after_outcomes(c, os).failed_stocks
            == c.processed_stocks + c.failed_stocks + os.len(),
        after_outcomes(c, os).total_records_fetched == c.total_records_fetched + records_of(os),
        after_outcomes(c, os).skipped_stocks == c.skipped_stocks,
        after_outcomes(c, os).total_stocks == c.total_stocks,
    decreases os.len(),
{
    if os.len() > 0 {
        let t = os.drop_last();
        assert(records_of(os) >= records_of(t));
        lemma_every_outcome_counted_once(c, t);
    }
}

/// The stocks to process: the first `max_stocks` of them, where a limit is given.
pub fn limit_stocks<T>(stocks: Vec<T>, max_stocks: Option<usize>) -> (r: Vec<T>)
    ensures
        r@ == match max_stocks {
            Some(m) => if m < stocks@.len() {
                stocks@.take(m as int)
            } else {
                stocks@
            },
            None => stocks@,
        },
{
    match max_stocks {
        Some(m) => {
            let mut stocks = stocks;
            if m < stocks.len() {
                stocks.truncate(m);
            }
            stocks
        },
        None => stocks,
    }
}

/// Takes the next stock from the front of the queue, if any.
pub fn next_stock<T>(queue: &mut Vec<T>) -> (r: Option<T>)
    ensures
        old(queue)@.len() == 0 ==> r is None && final(queue)@ == old(queue)@,
        old(queue)@.len() > 0 ==> r == Some(old(queue)@[0]) && final(queue)@ == old(queue)@.drop_first(),
{
    if queue.len() == 0 {
        None
    } else {
        let s = queue.remove(0);
        assert(queue@ =~= old(queue)@.drop_first());
        Some(s)
    }
}

/// The message of the progress update that a worker sends when it starts on a stock.
pub open spec fn started_message(thread_id: usize, symbol: Seq<char>) -> Seq<char> {
    "Thread "@ + decimal(thread_id as nat) + ": Starting "@ + symbol
}

/// The message of the progress update for a stock fetched with `records` records.
pub open spec fn completed_message(thread_id: usize, symbol: Seq<char>, records: usize) -> Seq<char> {
    "✅ Thread "@ + decimal(thread_id as nat) + ": Completed "@ + symbol + " ("@ + decimal(
        records as nat,
    ) + " records fetched)"@
}

/// The message of the progress update for a stock whose fetch failed with `error`.
pub open spec fn failed_message(thread_id: usize, symbol: Seq<char>, error: Seq<char>) -> Seq<char> {
    "❌ Thread "@ + decimal(thread_id as nat) + ": Failed "@ + symbol + " - "@ + error
}

/// The progress update that a worker sends when it starts on `symbol`.
pub fn started_progress(thread_id: usize, symbol: &String) -> (r: FetchProgress)
    ensures
        r.thread_id == thread_id,
        r.stock_symbol@ == symbol@,
        r.status is Started,
        r.message@ == started_message(thread_id, symbol@),
{
    let mut m: Vec<char> = Vec::new();
    append_str(&mut m, "Thread ");
    append_decimal(&mut m, thread_id as u64);
    append_str(&mut m, ": Starting ");
    append_str(&mut m, symbol.as_str());
    assert(m@ =~= started_message(thread_id, symbol@));
    FetchProgress {
        thread_id,
        stock_symbol: symbol.clone(),
        status: FetchStatus::Started,
        message: string_of(&m),
    }
}

/// What a worker does with the outcome of fetching `symbol`: it counts the outcome and returns
/// the progress update to send.
pub fn record_outcome(
    counters: &mut FetchCounters,
    thread_id: usize,
    symbol: &String,
    outcome: FetchOutcome,
) -> (r: FetchProgress)
    requires
        match outcome {
            FetchOutcome::Fetched(n) => old(counters).processed_stocks < usize::MAX
                && old(counters).total_records_fetched + n <= usize::MAX,
            FetchOutcome::Failed(_) => old(counters).failed_stocks < usize::MAX,
        },
    ensures
        r.thread_id == thread_id,
        r.stock_symbol@ == symbol@,
        *final(counters) == after_outcome(*old(counters), outcome),
        final(counters).total_stocks == old(counters).total_stocks,
        final(counters).skipped_stocks == old(counters).skipped_stocks,
        match outcome {
            FetchOutcome::Fetched(n) => {
                &&& r.status is Completed
                &&& r.message@ == completed_message(thread_id, symbol@, n)
                &&& final(counters).processed_stocks == old(counters).processed_stocks + 1
                &&& final(counters).total_records_fetched == old(counters).total_records_fetched + n
                &&& final(counters).failed_stocks == old(counters).failed_stocks
            },
            FetchOutcome::Failed(e) => {
                &&& r.status matches FetchStatus::Failed(x) && x@ == e@
                &&& r.message@ == failed_message(thread_id, symbol@, e@)
                &&& final(counters).failed_stocks == old(counters).failed_stocks + 1
                &&& final(counters).processed_stocks == old(counters).processed_stocks
                &&& final(counters).total_records_fetched == old(counters).total_records_fetched
            },
        },
{
    let mut m: Vec<char> = Vec::new();
    match outcome {
        FetchOutcome::Fetched(n) => {
            append_str(&mut m, "✅ Thread ");
            append_decimal(&mut m, thread_id as u64);
            append_str(&mut m, ": Completed ");
            append_str(&mut m, symbol.as_str());
            append_str(&mut m, " (");
            append_decimal(&mut m, n as u64);
            append_str(&mut m, " records fetched)");
            assert(m@ =~= completed_message(thread_id, symbol@, n));
            counters.record_success(n);
            FetchProgress {
                thread_id,
                stock_symbol: symbol.clone(),
                status: FetchStatus::Completed,
                message: string_of(&m),
            }
        },
        FetchOutcome::Failed(e) => {
            append_str(&mut m, "❌ Thread ");
            append_decimal(&mut m, thread_id as u64);
            append_str(&mut m, ": Failed ");
            append_str(&mut m, symbol.as_str());
            append_str(&mut m, " - ");
            append_str(&mut m, e.as_str());
            assert(m@ =~= failed_message(thread_id, symbol@, e@));
            counters.record_failure();
            FetchProgress {
                thread_id,
                stock_symbol: symbol.clone(),
                status: FetchStatus::Failed(e),
                message: string_of(&m),
            }
        },
    }
}

/// What follows a failed attempt to fetch a stock.
#[derive(Debug, Clone, Copy, PartialEq, Eq, Structural)]
pub enum RetryStep {
    /// Wait, then try again.
    Retry,
    /// Give up with the last error.
    GiveUp,
}

/// After the attempt numbered `attempts + 1` of at most `retry_attempts` failed: the attempts
/// made so far, and whether to try again.
pub fn after_failed_attempt(attempts: u32, retry_attempts: u32) -> (r: (u32, RetryStep))
    requires
        attempts < retry_attempts,
    ensures
        r.0 == attempts + 1,
        r.1 == if attempts + 1 < retry_attempts {
            RetryStep::Retry
        } else {
            RetryStep::GiveUp
        },
{
    let made = attempts + 1;
    if made < retry_attempts {
        (made, RetryStep::Retry)
    } else {
        (made, RetryStep::GiveUp)
    }
}

/// The attempts made on a stock whose fetch fails every time, starting from `attempts` made.
pub open spec fn attempts_until_give_up(attempts: nat, retry_attempts: nat) -> nat
    decreases retry_attempts - attempts,
{
    if attempts >= retry_attempts {
        attempts
    } else if attempts + 1 < retry_attempts {
        attempts_until_give_up(attempts + 1, retry_attempts)
    } else {
        attempts + 1
    }
}

/// A stock whose fetch keeps failing is tried exactly `retry_attempts` times (not at all when
/// no attempt is allowed).
pub proof fn lemma_attempts_bounded(retry_attempts: nat)
    ensures
        attempts_until_give_up(0, retry_attempts) == retry_attempts,
{
    lemma_attempts_from(0, retry_attempts);
}

/// From any number of attempts up to the allowed ones, a failing stock is tried until all
/// are used.
proof fn lemma_attempts_from(attempts: nat, retry_attempts: nat)
    requires
        attempts <= retry_attempts,
    ensures
        attempts_until_give_up(attempts, retry_attempts) == retry_attempts,
    decreases retry_attempts - attempts,
{
    if attempts + 1 < retry_attempts {
        lemma_attempts_from(attempts + 1, retry_attempts);
    }
}

} // verus!
