//! Price-history queries of the analysis views: the date range of a stock's prices and the
//! validation of requested date ranges.
use vstd::prelude::*;
use crate::dates::{check_ymd_date, ymd_date_error};
use crate::text::{append_str, string_of};

verus! {

/// The span of the stored prices of a stock.
#[derive(Debug, Clone)]
pub struct DateRangeInfo {
    pub symbol: String,
    pub earliest_date: String,
    pub latest_date: String,
    pub total_records: i64,
    pub data_source: String,
}

/// The date range of `symbol`: the one found, or an error saying that no data was found.
pub fn date_range_result(found: Option<DateRangeInfo>, symbol: &str) -> (r: Result<DateRangeInfo, String>)
    ensures
        match found {
            Some(d) => r == Ok::<DateRangeInfo, String>(d),
            None => r matches Err(e) && e@ == "No data found for symbol: "@ + symbol@,
        },
{
    match found {
        Some(d) => Ok(d),
        None => {
            let mut v: Vec<char> = Vec::new();
            append_str(&mut v, "No data found for symbol: ");
            append_str(&mut v, symbol);
            Err(string_of(&v))
        },
    }
}

/// `prefix` followed by `message`.
fn prefixed(prefix: &str, message: &str) -> (r: String)
    ensures
        r@ == prefix@ + message@,
{
    let mut v: Vec<char> = Vec::new();
    append_str(&mut v, prefix);
    append_str(&mut v, message);
    string_of(&v)
}

/// The check of a requested date range: both dates must be `YYYY-MM-DD`; the error names the
/// first that is not, after `start_label` or `end_label`.
pub open spec fn date_range_check(
    start: Seq<char>,
    end: Seq<char>,
    start_label: Seq<char>,
    end_label: Seq<char>,
) -> Option<Seq<char>> {
    match ymd_date_error(start) {
        Some(e) => Some(start_label + e),
        None => match ymd_date_error(end) {
            Some(e) => Some(end_label + e),
            None => None,
        },
    }
}

/// Checks that both dates of a requested range are `YYYY-MM-DD` dates; the error names the
/// first one that is not, after the label given for it.
pub fn validate_date_range(start_date: &str, end_date: &str, start_label: &str, end_label: &str) -> (r:
    Result<(), String>)
    ensures
        match date_range_check(start_date@, end_date@, start_label@, end_label@) {
            None => r is Ok,
            Some(m) => r matches Err(e) && e@ == m,
        },
{
    match check_ymd_date(start_date) {
        Err(e) => return Err(prefixed(start_label, e.as_str())),
        Ok(()) => {},
    }
    match check_ymd_date(end_date) {
        Err(e) => Err(prefixed(end_label, e.as_str())),
        Ok(()) => Ok(()),
    }
}

/// Checks the dates of a price history request (`Invalid start date format: ..` and
/// `Invalid end date format: ..`).
pub fn validate_price_history_dates(start_date: &str, end_date: &str) -> (r: Result<(), String>)
    ensures
        match date_range_check(
            start_date@,
            end_date@,
            "Invalid start date format: "@,
            "Invalid end date format: "@,
        ) {
            None => r is Ok,
            Some(m) => r matches Err(e) && e@ == m,
        },
{
    validate_date_range(start_date, end_date, "Invalid start date format: ", "Invalid end date format: ")
}

/// Checks the dates of a single-stock fetch (`Invalid start date: ..` and `Invalid end date: ..`).
pub fn validate_fetch_dates(start_date: &str, end_date: &str) -> (r: Result<(), String>)
    ensures
        match date_range_check(start_date@, end_date@, "Invalid start date: "@, "Invalid end date: "@) {
            None => r is Ok,
            Some(m) => r matches Err(e) && e@ == m,
        },
{
    validate_date_range(start_date, end_date, "Invalid start date: ", "Invalid end date: ")
}

} // verus!
