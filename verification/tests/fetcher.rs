use rust_stocks::fetcher::{
    limit_stocks, next_stock, record_outcome, started_progress, FetchCounters, FetchOutcome,
    FetchProgress, FetchStatus,
};

#[test]
fn test_fetch_progress() {
    let progress = FetchProgress {
        thread_id: 1,
        stock_symbol: "AAPL".to_string(),
        status: FetchStatus::Started,
        message: "Thread 1: Starting AAPL".to_string(),
    };

    assert_eq!(progress.thread_id, 1);
    assert_eq!(progress.stock_symbol, "AAPL");
    assert!(matches!(progress.status, FetchStatus::Started));
}

#[test]
fn started_progress_names_thread_and_symbol() {
    let p = started_progress(1, &"AAPL".to_string());
    assert_eq!(p.message, "Thread 1: Starting AAPL");
    assert_eq!(p.stock_symbol, "AAPL");
    assert!(matches!(p.status, FetchStatus::Started));
}

#[test]
fn outcomes_are_counted_once_each() {
    let mut c = FetchCounters::new();
    c.total_stocks = 3;
    let a = record_outcome(&mut c, 2, &"MSFT".to_string(), FetchOutcome::Fetched(120));
    assert_eq!(a.message, "✅ Thread 2: Completed MSFT (120 records fetched)");
    assert!(matches!(a.status, FetchStatus::Completed));
    let b = record_outcome(&mut c, 0, &"XYZ".to_string(), FetchOutcome::Failed("timeout".to_string()));
    assert_eq!(b.message, "❌ Thread 0: Failed XYZ - timeout");
    assert!(matches!(b.status, FetchStatus::Failed(ref e) if e == "timeout"));
    record_outcome(&mut c, 1, &"GOOGL".to_string(), FetchOutcome::Fetched(7));
    let r = c.result();
    assert_eq!(r.total_stocks, 3);
    assert_eq!(r.processed_stocks, 2);
    assert_eq!(r.failed_stocks, 1);
    assert_eq!(r.skipped_stocks, 0);
    assert_eq!(r.total_records_fetched, 127);
    assert_eq!(r.processed_stocks + r.failed_stocks, 3);
}

#[test]
fn stock_limit_takes_the_first_stocks() {
    assert_eq!(limit_stocks(vec![1, 2, 3, 4], Some(2)), vec![1, 2]);
    assert_eq!(limit_stocks(vec![1, 2], Some(5)), vec![1, 2]);
    assert_eq!(limit_stocks(vec![1, 2, 3], None), vec![1, 2, 3]);
    assert_eq!(limit_stocks(vec![1, 2, 3], Some(0)), Vec::<i32>::new());
}

#[test]
fn queue_hands_out_stocks_in_order() {
    let mut q = vec!["A", "B"];
    assert_eq!(next_stock(&mut q), Some("A"));
    assert_eq!(next_stock(&mut q), Some("B"));
    assert_eq!(next_stock(&mut q), None);
}
