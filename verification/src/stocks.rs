//! The stock catalogue as the user interface lists it.
use vstd::prelude::*;
use crate::text::{append_str, string_of};

verus! {

/// A stock of the catalogue.
#[derive(Debug, Clone)]
pub struct StockInfo {
    pub id: i64,
    pub symbol: String,
    pub company_name: String,
    pub sector: Option<String>,
}

/// A stock of the catalogue, with whether prices are stored for it.
#[derive(Debug, Clone)]
pub struct StockWithData {
    pub id: i64,
    pub symbol: String,
    pub company_name: String,
    pub has_data: bool,
    /// One where prices are stored, zero where not.
    pub data_count: i64,
}

/// A stock row of a listing query: its prices are stored where the query's `has_data` count is
/// positive.
pub fn stock_with_data(id: i64, symbol: String, company_name: String, has_data_count: i64) -> (r:
    StockWithData)
    ensures
        r.id == id,
        r.symbol == symbol,
        r.company_name == company_name,
        r.has_data == (has_data_count > 0),
        r.data_count == if has_data_count > 0 {
            1i64
        } else {
            0i64
        },
{
    let has_data = has_data_count > 0;
    StockWithData {
        id,
        symbol,
        company_name,
        has_data,
        data_count: if has_data {
            1
        } else {
            0
        },
    }
}

/// The `LIKE` pattern that finds `query` anywhere in a symbol or a company name.
pub fn search_pattern(query: &str) -> (r: String)
    ensures
        r@ == "%"@ + query@ + "%"@,
{
    let mut v: Vec<char> = Vec::new();
    append_str(&mut v, "%");
    append_str(&mut v, query);
    append_str(&mut v, "%");
    string_of(&v)
}

} // verus!
