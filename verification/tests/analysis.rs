use rust_stocks::analysis::{date_range_result, validate_fetch_dates, validate_price_history_dates, DateRangeInfo};

#[test]
fn date_ranges() {
    let d = DateRangeInfo {
        symbol: "AAPL".to_string(),
        earliest_date: "2020-01-02".to_string(),
        latest_date: "2024-12-31".to_string(),
        total_records: 1258,
        data_source: "simfin".to_string(),
    };
    let r = date_range_result(Some(d), "AAPL").unwrap();
    assert_eq!(r.total_records, 1258);
    assert_eq!(date_range_result(None, "ZZZ").unwrap_err(), "No data found for symbol: ZZZ");
}

#[test]
fn requested_dates_are_checked() {
    assert_eq!(validate_price_history_dates("2024-01-01", "2024-02-29"), Ok(()));
    assert_eq!(
        validate_price_history_dates("2024-13-01", "2024-02-01"),
        Err("Invalid start date format: input is out of range".to_string())
    );
    assert_eq!(
        validate_price_history_dates("2024-01-01", "abc"),
        Err("Invalid end date format: input contains invalid characters".to_string())
    );
    assert_eq!(
        validate_fetch_dates("2024-01", "2024-01-02"),
        Err("Invalid start date: premature end of input".to_string())
    );
    assert_eq!(validate_fetch_dates("2023-02-29", "x"), Err("Invalid start date: input is out of range".to_string()));
}
