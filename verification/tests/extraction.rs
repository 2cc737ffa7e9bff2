use rust_stocks::extraction::{
    build_extraction_tasks, build_task_query, statement_fiscal_period, statement_period_type,
    task_priority, WorkQueueCounters,
};

fn row(sym: &str) -> (String, String, i64, String, String) {
    (format!("cik-{}", sym), sym.to_string(), 1, format!("{} Co", sym), format!("/f/{}.json", sym))
}

#[test]
fn priorities() {
    assert_eq!(task_priority(&"AAPL".to_string()), 10);
    assert_eq!(task_priority(&"NVDA".to_string()), 10);
    assert_eq!(task_priority(&"JPM".to_string()), 9);
    assert_eq!(task_priority(&"IBM".to_string()), 5);
}

#[test]
fn tasks_by_priority_keep_their_order() {
    let rows = vec![row("A"), row("JPM"), row("MSFT"), row("B"), row("AAPL"), row("META")];
    let tasks = build_extraction_tasks(&rows);
    let syms: Vec<&str> = tasks.iter().map(|t| t.symbol.as_str()).collect();
    assert_eq!(syms, vec!["MSFT", "AAPL", "JPM", "META", "A", "B"]);
    assert_eq!(tasks[0].priority, 10);
    assert_eq!(tasks[2].priority, 9);
    assert_eq!(tasks[5].priority, 5);
    assert_eq!(tasks[0].edgar_file_path, "/f/MSFT.json");
}

#[test]
fn task_queries() {
    let (q, b) = build_task_query(None, None);
    assert_eq!(q, "SELECT cik, symbol, stock_id, company_name, edgar_file_path FROM cik_mappings_sp500 WHERE file_exists = 1 ORDER BY symbol");
    assert!(b.is_empty());
    let (q, b) = build_task_query(Some(5), Some("AAPL, MSFT,"));
    assert_eq!(q, "SELECT cik, symbol, stock_id, company_name, edgar_file_path FROM cik_mappings_sp500 WHERE file_exists = 1 AND symbol IN (?,?,?) ORDER BY symbol LIMIT 5");
    assert_eq!(b, vec!["AAPL".to_string(), "MSFT".to_string(), "".to_string()]);
}

#[test]
fn queue_stats() {
    let mut c = WorkQueueCounters::new(3);
    c.mark_completed();
    c.mark_failed();
    assert_eq!(c.get_stats(), (3, 1, 1, 1));
    c.mark_completed();
    c.mark_completed();
    assert_eq!(c.get_stats(), (3, 3, 1, 0));
}

#[test]
fn statement_columns() {
    assert_eq!(statement_period_type(&"FY".to_string(), "Annual"), "Annual");
    assert_eq!(statement_period_type(&"FY".to_string(), "TTM"), "TTM");
    assert_eq!(statement_period_type(&"Q3".to_string(), "Annual"), "Quarterly");
    assert_eq!(statement_fiscal_period(&"FY".to_string()), None);
    assert_eq!(statement_fiscal_period(&"Q2".to_string()), Some("Q2".to_string()));
}

#[test]
fn task_query_binds_fill_placeholders() {
    let base = "SELECT cik, symbol, stock_id, company_name, edgar_file_path FROM cik_mappings_sp500 WHERE file_exists = 1";
    for (limit, filter) in [(None, None), (Some(7), Some("A,B ,C")), (None, Some(""))] {
        let (q, b) = build_task_query(limit, filter);
        assert!(q.starts_with(base));
        assert_eq!(q[base.len()..].matches('?').count(), b.len());
    }
}
