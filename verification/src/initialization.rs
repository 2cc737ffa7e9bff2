//! Initialization of the S&P 500 catalogue: reading the list of constituents, and the status
//! of the catalogue and of the database schema.
use vstd::prelude::*;
use crate::text::{append_decimal, append_joined, append_str, decimal, join_with, string_of, trim, trimmed};

verus! {

/// The progress of the catalogue's initialization.
#[derive(Debug, Clone)]
pub struct InitProgress {
    pub current_step: String,
    pub companies_processed: usize,
    pub total_companies: usize,
    pub status: String,
}

/// A company of the S&P 500 list.
#[derive(Debug, Clone)]
pub struct StockData {
    pub symbol: String,
    pub company_name: String,
    pub sector: Option<String>,
}

/// The records of a CSV text whose first line is a header (the header itself not among them),
/// each as its fields; or the message of the first error.
pub uninterp spec fn csv_read(text: Seq<char>) -> Result<Seq<Seq<Seq<char>>>, Seq<char>>;

/// The views of records.
pub open spec fn records_view(v: Seq<Vec<String>>) -> Seq<Seq<Seq<char>>> {
    v.map_values(|r: Vec<String>| r@.map_values(|f: String| f@))
}

/// Calls `csv::Reader::from_reader` on the bytes of `text` and reads its `records()`. Claimed:
/// the records (header line excluded) and their fields are those that `csv_read` names, or the
/// message of the first error is.
#[verifier::external_body]
fn read_csv_records(text: &str) -> (r: Result<Vec<Vec<String>>, String>)
    ensures
        match (r, csv_read(text@)) {
            (Ok(rs), Ok(s)) => records_view(rs@) == s,
            (Err(e), Err(m)) => e@ == m,
            _ => false,
        },
{
    let mut reader = csv::Reader::from_reader(text.as_bytes());
    let mut out: Vec<Vec<String>> = Vec::new();
    for result in reader.records() {
        match result {
            Ok(record) => out.push(record.iter().map(|f| f.to_string()).collect()),
            Err(e) => return Err(e.to_string()),
        }
    }
    Ok(out)
}

/// A company as plain values: symbol, name, sector.
pub open spec fn stock_data_view(d: StockData) -> (Seq<char>, Seq<char>, Option<Seq<char>>) {
    (
        d.symbol@,
        d.company_name@,
        match d.sector {
            Some(s) => Some(s@),
            None => None,
        },
    )
}

/// The company that a record of the constituents list gives, if it has a symbol and a name:
/// the trimmed symbol, name and sector (third field), without a sector where that is empty.
pub open spec fn company_of(rec: Seq<Seq<char>>) -> Option<(Seq<char>, Seq<char>, Option<Seq<char>>)> {
    if rec.len() >= 2 {
        let sector = trim(
            if rec.len() > 2 {
                rec[2]
            } else {
                Seq::empty()
            },
        );
        Some((trim(rec[0]), trim(rec[1]), if sector.len() == 0 { None } else { Some(sector) }))
    } else {
        None
    }
}

/// The companies of the records, in order.
pub open spec fn companies_of(recs: Seq<Seq<Seq<char>>>) -> Seq<(Seq<char>, Seq<char>, Option<Seq<char>>)>
    decreases recs.len(),
{
    if recs.len() == 0 {
        Seq::empty()
    } else {
        let rest = companies_of(recs.drop_last());
        match company_of(recs.last()) {
            Some(c) => rest.push(c),
            None => rest,
        }
    }
}

/// The company of one record.
fn company_of_record(rec: &Vec<String>) -> (r: Option<StockData>)
    ensures
        match r {
            Some(d) => company_of(rec@.map_values(|f: String| f@)) == Some(stock_data_view(d)),
            None => company_of(rec@.map_values(|f: String| f@)) is None,
        },
{
    let ghost rv = rec@.map_values(|f: String| f@);
    if rec.len() >= 2 {
        let symbol = trimmed(rec[0].as_str());
        let company_name = trimmed(rec[1].as_str());
        let sector_text = if rec.len() > 2 {
            trimmed(rec[2].as_str())
        } else {
            trimmed("")
        };
        assert(rv[0] == rec@[0]@ && rv[1] == rec@[1]@);
        if rec.len() > 2 {
            assert(rv[2] == rec@[2]@);
        } else {
            assert(""@ =~= Seq::<char>::empty()) by {
                reveal_strlit("");
            }
        }
        let sector = if sector_text.as_str().is_empty() {
            None
        } else {
            Some(sector_text)
        };
        Some(StockData { symbol, company_name, sector })
    } else {
        None
    }
}

/// The S&P 500 companies in a constituents list (CSV with a header line; symbol, name and
/// sector in the first three columns). An error names the CSV error, or says that no company
/// was found.
pub fn parse_sp500_companies(csv_text: &str) -> (r: Result<Vec<StockData>, String>)
    ensures
        match csv_read(csv_text@) {
            Err(m) => r matches Err(e) && e@ == "CSV parsing error: "@ + m,
            Ok(recs) => if companies_of(recs).len() == 0 {
                r matches Err(e) && e@ == "No companies found in S&P 500 data"@
            } else {
                r matches Ok(v) && v@.map_values(|d: StockData| stock_data_view(d)) == companies_of(
                    recs,
                )
            },
        },
{
    let recs = match read_csv_records(csv_text) {
        Ok(rs) => rs,
        Err(e) => {
            let mut v: Vec<char> = Vec::new();
            append_str(&mut v, "CSV parsing error: ");
            append_str(&mut v, e.as_str());
            return Err(string_of(&v));
        },
    };
    let ghost rv = records_view(recs@);
    let mut companies: Vec<StockData> = Vec::new();
    let mut k: usize = 0;
    assert(rv.take(0) =~= Seq::<Seq<Seq<char>>>::empty());
    assert(companies@.map_values(|d: StockData| stock_data_view(d)) =~= Seq::<
        (Seq<char>, Seq<char>, Option<Seq<char>>),
    >::empty());
    while k < recs.len()
        invariant
            k <= recs@.len(),
            rv == records_view(recs@),
            companies@.map_values(|d: StockData| stock_data_view(d)) == companies_of(
                rv.take(k as int),
            ),
        decreases recs@.len() - k,
    {
        assert(rv.take(k + 1).drop_last() =~= rv.take(k as int));
        assert(rv.take(k + 1).last() == recs@[k as int]@.map_values(|f: String| f@));
        let ghost before = companies@;
        match company_of_record(&recs[k]) {
            Some(d) => {
                companies.push(d);
                assert(companies@.map_values(|d: StockData| stock_data_view(d)) =~= before.map_values(
                    |d: StockData| stock_data_view(d),
                ).push(stock_data_view(d)));
            },
            None => {},
        }
        k = k + 1;
    }
    assert(rv.take(recs@.len() as int) =~= rv);
    if companies.len() == 0 {
        return Err("No companies found in S&P 500 data".to_owned());
    }
    Ok(companies)
}

/// The message after the catalogue was filled: companies stored, companies listed, date.
pub fn initialization_message(inserted: usize, found: usize, date: &str) -> (r: String)
    ensures
        r@ == "Successfully initialized "@ + decimal(inserted as nat) + " S&P 500 companies out of "@
            + decimal(found as nat) + " found in dataset. Last updated: "@ + date@,
{
    let mut v: Vec<char> = Vec::new();
    append_str(&mut v, "Successfully initialized ");
    append_decimal(&mut v, inserted as u64);
    append_str(&mut v, " S&P 500 companies out of ");
    append_decimal(&mut v, found as u64);
    append_str(&mut v, " found in dataset. Last updated: ");
    append_str(&mut v, date);
    string_of(&v)
}

/// The status of the catalogue with `stock_count` stocks, last updated on `last_update`; an
/// empty catalogue expects the 503 constituents of the index.
pub fn get_initialization_status(stock_count: usize, last_update: &str) -> (r: InitProgress)
    ensures
        r.current_step@ == "Ready"@,
        r.companies_processed == stock_count,
        r.total_companies == if stock_count > 0 {
            stock_count
        } else {
            503
        },
        r.status@ == if stock_count > 0 {
            "Initialized with "@ + decimal(stock_count as nat) + " stocks (Last update: "@
                + last_update@ + ")"@
        } else {
            "Not initialized - click 'Initialize S&P 500 Stocks' to get started"@
        },
{
    let status = if stock_count > 0 {
        let mut v: Vec<char> = Vec::new();
        append_str(&mut v, "Initialized with ");
        append_decimal(&mut v, stock_count as u64);
        append_str(&mut v, " stocks (Last update: ");
        append_str(&mut v, last_update);
        append_str(&mut v, ")");
        string_of(&v)
    } else {
        "Not initialized - click 'Initialize S&P 500 Stocks' to get started".to_owned()
    };
    InitProgress {
        current_step: "Ready".to_owned(),
        companies_processed: stock_count,
        total_companies: if stock_count > 0 {
            stock_count
        } else {
            503
        },
        status,
    }
}

/// The tables that the application needs.
pub fn required_tables() -> (r: Vec<String>)
    ensures
        r@.map_values(|t: String| t@) == seq!["stocks"@, "daily_prices"@, "metadata"@],
{
    let mut r: Vec<String> = Vec::new();
    r.push("stocks".to_owned());
    r.push("daily_prices".to_owned());
    r.push("metadata".to_owned());
    assert(r@.map_values(|t: String| t@) =~= seq!["stocks"@, "daily_prices"@, "metadata"@]);
    r
}

/// The verdict on the schema, given the required tables that are missing.
pub fn schema_status(missing: &Vec<String>) -> (r: Result<String, String>)
    ensures
        missing@.len() == 0 ==> (r matches Ok(m) && m@ == "Database schema is ready"@),
        missing@.len() > 0 ==> (r matches Err(e) && e@ == "Missing required tables: "@ + join_with(
            missing@.map_values(|t: String| t@),
            ", "@,
        )),
{
    if missing.len() == 0 {
        Ok("Database schema is ready".to_owned())
    } else {
        let mut v: Vec<char> = Vec::new();
        append_str(&mut v, "Missing required tables: ");
        append_joined(&mut v, missing, ", ");
        Err(string_of(&v))
    }
}

} // verus!
