use rust_stocks::fetching::{
    available_symbols, company_name_or_default, concurrent_fetch_summary, fallback_symbols,
    get_fetch_progress, processing_message, waits_after, BulkFetchTally, StockSymbol,
};
use rust_stocks::initialization::{
    get_initialization_status, initialization_message, parse_sp500_companies, required_tables,
    schema_status,
};
use rust_stocks::stocks::{search_pattern, stock_with_data};

#[test]
fn stock_rows() {
    let s = stock_with_data(7, "AAPL".to_string(), "Apple".to_string(), 3);
    assert!(s.has_data);
    assert_eq!(s.data_count, 1);
    let s = stock_with_data(8, "X".to_string(), "X Corp".to_string(), 0);
    assert!(!s.has_data);
    assert_eq!(s.data_count, 0);
    assert_eq!(search_pattern("apple"), "%apple%");
}

#[test]
fn symbols_offered() {
    let stored = vec![StockSymbol { symbol: "A".to_string(), company_name: "Agilent".to_string() }];
    assert_eq!(available_symbols(stored.clone()).len(), 1);
    assert_eq!(available_symbols(stored)[0].symbol, "A");
    let init = available_symbols(vec![]);
    assert_eq!(init.len(), 1);
    assert_eq!(init[0].symbol, "INIT");
    assert_eq!(init[0].company_name, "Click 'Initialize S&P 500 Stocks' first");
    let f = fallback_symbols();
    assert_eq!(f.iter().map(|s| s.symbol.as_str()).collect::<Vec<_>>(), vec!["AAPL", "MSFT", "GOOGL"]);
    assert_eq!(company_name_or_default(None, "XYZ"), "XYZ Inc.");
    assert_eq!(company_name_or_default(Some("Real".to_string()), "XYZ"), "Real");
}

#[test]
fn fetch_progress_and_bulk_tally() {
    let p = get_fetch_progress();
    assert_eq!(p.status, "Ready");
    assert_eq!(p.total, 0);
    let mut t = BulkFetchTally::new(2);
    t.start_next();
    t.record(true);
    t.start_next();
    t.record(false);
    assert_eq!((t.processed, t.success_count, t.error_count), (2, 1, 1));
    assert!(waits_after(0, 2));
    assert!(!waits_after(1, 2));
    assert_eq!(processing_message(1, 500, "AAPL"), "Processing stock 1/500: AAPL");
    assert_eq!(
        concurrent_fetch_summary(3, "2024-01-01", "2024-02-01", 2, 1),
        "Concurrent fetch completed for 3 stocks from 2024-01-01 to 2024-02-01. Success: 2, Errors: 1"
    );
}

#[test]
fn constituents_list() {
    let csv = "Symbol,Security,GICS Sector\nMMM, 3M ,Industrials\nAOS,A. O. Smith,\n";
    let cs = parse_sp500_companies(csv).unwrap();
    assert_eq!(cs.len(), 2);
    assert_eq!(cs[0].symbol, "MMM");
    assert_eq!(cs[0].company_name, "3M");
    assert_eq!(cs[0].sector.as_deref(), Some("Industrials"));
    assert_eq!(cs[1].sector, None);
    assert_eq!(parse_sp500_companies("Symbol,Security\n").unwrap_err(), "No companies found in S&P 500 data");
    assert!(parse_sp500_companies("a,b\n1,2,3\n").unwrap_err().starts_with("CSV parsing error: "));
}

#[test]
fn catalogue_status() {
    let s = get_initialization_status(0, "Never");
    assert_eq!(s.total_companies, 503);
    assert_eq!(s.status, "Not initialized - click 'Initialize S&P 500 Stocks' to get started");
    let s = get_initialization_status(500, "2024-01-01");
    assert_eq!(s.total_companies, 500);
    assert_eq!(s.companies_processed, 500);
    assert_eq!(s.current_step, "Ready");
    assert_eq!(s.status, "Initialized with 500 stocks (Last update: 2024-01-01)");
    assert_eq!(
        initialization_message(499, 503, "2024-01-01"),
        "Successfully initialized 499 S&P 500 companies out of 503 found in dataset. Last updated: 2024-01-01"
    );
}

#[test]
fn schema_verdicts() {
    assert_eq!(required_tables(), vec!["stocks".to_string(), "daily_prices".to_string(), "metadata".to_string()]);
    assert_eq!(schema_status(&vec![]), Ok("Database schema is ready".to_string()));
    assert_eq!(
        schema_status(&vec!["stocks".to_string(), "metadata".to_string()]),
        Err("Missing required tables: stocks, metadata".to_string())
    );
}
