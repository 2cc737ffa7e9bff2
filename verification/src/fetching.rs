//! Fetching of price data as the user interface starts it: the symbols offered, the progress
//! shown, and the tallies and messages of a bulk fetch.
use vstd::prelude::*;
use crate::text::{append_decimal, append_str, decimal, string_of};

verus! {

/// A request to fetch the prices of some symbols.
#[derive(Debug, Clone)]
pub struct FetchRequest {
    pub symbols: Vec<String>,
    pub start_date: String,
    pub end_date: String,
    pub concurrent: bool,
}

/// The progress of a fetch, as the user interface shows it.
#[derive(Debug, Clone)]
pub struct FetchProgress {
    pub current_stock: String,
    pub completed: usize,
    pub total: usize,
    pub success_count: usize,
    pub error_count: usize,
    pub status: String,
}

/// A symbol that can be fetched, with its company name.
#[derive(Debug, Clone)]
pub struct StockSymbol {
    pub symbol: String,
    pub company_name: String,
}

/// The progress shown when no fetch runs.
pub fn get_fetch_progress() -> (r: FetchProgress)
    ensures
        r.current_stock@ == Seq::<char>::empty(),
        r.completed == 0 && r.total == 0 && r.success_count == 0 && r.error_count == 0,
        r.status@ == "Ready"@,
{
    FetchProgress {
        current_stock: String::new(),
        completed: 0,
        total: 0,
        success_count: 0,
        error_count: 0,
        status: "Ready".to_owned(),
    }
}

/// The symbols to offer: the stored ones, or one entry asking to initialize the catalogue
/// where none is stored.
pub fn available_symbols(stored: Vec<StockSymbol>) -> (r: Vec<StockSymbol>)
    ensures
        stored@.len() > 0 ==> r@ == stored@,
        stored@.len() == 0 ==> r@.len() == 1 && r@[0].symbol@ == "INIT"@ && r@[0].company_name@
            == "Click 'Initialize S&P 500 Stocks' first"@,
{
    if stored.len() > 0 {
        stored
    } else {
        let mut r: Vec<StockSymbol> = Vec::new();
        r.push(
            StockSymbol {
                symbol: "INIT".to_owned(),
                company_name: "Click 'Initialize S&P 500 Stocks' first".to_owned(),
            },
        );
        r
    }
}

/// The symbols to offer where the catalogue cannot be read.
pub fn fallback_symbols() -> (r: Vec<StockSymbol>)
    ensures
        r@.len() == 3,
        r@[0].symbol@ == "AAPL"@ && r@[0].company_name@ == "Apple Inc."@,
        r@[1].symbol@ == "MSFT"@ && r@[1].company_name@ == "Microsoft Corporation"@,
        r@[2].symbol@ == "GOOGL"@ && r@[2].company_name@ == "Alphabet Inc."@,
{
    let mut r: Vec<StockSymbol> = Vec::new();
    r.push(StockSymbol { symbol: "AAPL".to_owned(), company_name: "Apple Inc.".to_owned() });
    r.push(
        StockSymbol { symbol: "MSFT".to_owned(), company_name: "Microsoft Corporation".to_owned() },
    );
    r.push(StockSymbol { symbol: "GOOGL".to_owned(), company_name: "Alphabet Inc.".to_owned() });
    r
}

/// The company name to store for a new stock: the one the instrument data gives, or the
/// symbol followed by ` Inc.`.
pub fn company_name_or_default(found: Option<String>, symbol: &str) -> (r: String)
    ensures
        r@ == match found {
            Some(n) => n@,
            None => symbol@ + " Inc."@,
        },
{
    match found {
        Some(n) => n,
        None => {
            let mut v: Vec<char> = Vec::new();
            append_str(&mut v, symbol);
            append_str(&mut v, " Inc.");
            string_of(&v)
        },
    }
}

/// The counts of a bulk fetch.
#[derive(Debug, Clone, Copy)]
pub struct BulkFetchTally {
    pub total: usize,
    pub processed: usize,
    pub success_count: usize,
    pub error_count: usize,
}

impl BulkFetchTally {
    /// The counts before a bulk fetch of `total` stocks.
    pub fn new(total: usize) -> (r: Self)
        ensures
            r.total == total && r.processed == 0 && r.success_count == 0 && r.error_count == 0,
    {
        BulkFetchTally { total, processed: 0, success_count: 0, error_count: 0 }
    }

    /// Counts one more stock taken up.
    pub fn start_next(&mut self)
        requires
            old(self).processed < old(self).total,
        ensures
            final(self).processed == old(self).processed + 1,
            final(self).total == old(self).total,
            final(self).success_count == old(self).success_count,
            final(self).error_count == old(self).error_count,
    {
        self.processed = self.processed + 1;
    }

    /// Counts the outcome of the stock taken up last.
    pub fn record(&mut self, succeeded: bool)
        requires
            old(self).success_count + old(self).error_count < old(self).processed,
        ensures
            final(self).processed == old(self).processed,
            final(self).total == old(self).total,
            succeeded ==> final(self).success_count == old(self).success_count + 1
                && final(self).error_count == old(self).error_count,
            !succeeded ==> final(self).error_count == old(self).error_count + 1
                && final(self).success_count == old(self).success_count,
    {
        if succeeded {
            self.success_count = self.success_count + 1;
        } else {
            self.error_count = self.error_count + 1;
        }
    }
}

/// Whether the bulk fetch pauses after the stock at `index` of `total`: after every stock but
/// the last.
pub fn waits_after(index: usize, total: usize) -> (r: bool)
    requires
        index < total,
    ensures
        r == (index + 1 < total),
{
    index < total - 1
}

/// The line that announces the stock taken up next.
pub fn processing_message(processed: usize, total: usize, symbol: &str) -> (r: String)
    ensures
        r@ == "Processing stock "@ + decimal(processed as nat) + "/"@ + decimal(total as nat) + ": "@
            + symbol@,
{
    let mut v: Vec<char> = Vec::new();
    append_str(&mut v, "Processing stock ");
    append_decimal(&mut v, processed as u64);
    append_str(&mut v, "/");
    append_decimal(&mut v, total as u64);
    append_str(&mut v, ": ");
    append_str(&mut v, symbol);
    string_of(&v)
}

/// The summary of a fetch of every stock between two dates.
pub fn concurrent_fetch_summary(
    stocks: usize,
    start_date: &str,
    end_date: &str,
    success_count: usize,
    error_count: usize,
) -> (r: String)
    ensures
        r@ == "Concurrent fetch completed for "@ + decimal(stocks as nat) + " stocks from "@
            + start_date@ + " to "@ + end_date@ + ". Success: "@ + decimal(success_count as nat)
            + ", Errors: "@ + decimal(error_count as nat),
{
    let mut v: Vec<char> = Vec::new();
    append_str(&mut v, "Concurrent fetch completed for ");
    append_decimal(&mut v, stocks as u64);
    append_str(&mut v, " stocks from ");
    append_str(&mut v, start_date);
    append_str(&mut v, " to ");
    append_str(&mut v, end_date);
    append_str(&mut v, ". Success: ");
    append_decimal(&mut v, success_count as u64);
    append_str(&mut v, ", Errors: ");
    append_decimal(&mut v, error_count as u64);
    string_of(&v)
}

} // verus!
