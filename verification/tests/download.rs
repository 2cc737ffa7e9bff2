use rust_stocks::download::DownloadRecord;

fn s(x: &str) -> String {
    x.to_string()
}

#[test]
fn remaining_symbols_skip_completed_ones() {
    let r = DownloadRecord::restore(vec![s("MSFT"), s("AAPL"), s("MSFT")], vec![], 3, 3, 0, 750);
    let syms = vec![s("AAPL"), s("GOOGL"), s("MSFT"), s("AMZN")];
    assert_eq!(r.remaining_symbols(&syms), vec![s("GOOGL"), s("AMZN")]);
    let mut done = r.completed_symbols();
    done.sort();
    assert_eq!(done, vec![s("AAPL"), s("MSFT")]);
}

#[test]
fn outcomes_update_the_record() {
    let mut r = DownloadRecord::new();
    r.record_failure(&s("AAPL"), s("timeout"));
    r.record_failure(&s("AAPL"), s("rate limited"));
    r.record_failure(&s("MSFT"), s("bad symbol"));
    let mut failed = r.failed_symbols();
    failed.sort();
    assert_eq!(failed, vec![(s("AAPL"), s("rate limited")), (s("MSFT"), s("bad symbol"))]);
    r.record_success(&s("AAPL"), 250);
    r.record_success(&s("AAPL"), 10);
    assert_eq!(r.failed_symbols(), vec![(s("MSFT"), s("bad symbol"))]);
    assert_eq!(r.completed_symbols(), vec![s("AAPL")]);
    assert!(r.is_completed(&s("AAPL")));
    assert!(!r.is_completed(&s("MSFT")));
    assert_eq!(r.total_api_calls(), 5);
    assert_eq!(r.successful_calls(), 2);
    assert_eq!(r.failed_calls(), 3);
    assert_eq!(r.total_price_records(), 260);
}

#[test]
fn restored_errors_keep_the_last_entry() {
    let r = DownloadRecord::restore(vec![], vec![(s("X"), s("first")), (s("Y"), s("y")), (s("X"), s("second"))], 0, 0, 0, 0);
    let mut failed = r.failed_symbols();
    failed.sort();
    assert_eq!(failed, vec![(s("X"), s("second")), (s("Y"), s("y"))]);
}

#[test]
fn saved_record_restores_unchanged() {
    let mut r = DownloadRecord::new();
    r.record_failure(&s("AAPL"), s("timeout"));
    r.record_success(&s("MSFT"), 100);
    r.record_failure(&s("GOOGL"), s("bad symbol"));
    r.record_failure(&s("GOOGL"), s("rate limited"));
    let back = DownloadRecord::restore(
        r.completed_symbols(),
        r.failed_symbols(),
        r.total_api_calls(),
        r.successful_calls(),
        r.failed_calls(),
        r.total_price_records(),
    );
    let sorted = |mut v: Vec<(String, String)>| {
        v.sort();
        v
    };
    assert_eq!(sorted(back.failed_symbols()), sorted(r.failed_symbols()));
    assert_eq!(back.completed_symbols(), r.completed_symbols());
    assert_eq!(
        (back.total_api_calls(), back.successful_calls(), back.failed_calls(), back.total_price_records()),
        (4, 1, 3, 100)
    );
}
