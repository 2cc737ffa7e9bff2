use rust_stocks::ttm::{ttm_window, ProcessingStats};

fn q(y: i32, p: &str) -> (i32, String) {
    (y, p.to_string())
}

#[test]
fn window_takes_the_most_recent_quarters() {
    let keys = vec![q(2023, "Q1"), q(2024, "Q1"), q(2023, "Q4"), q(2023, "Q3"), q(2023, "Q2"), q(2023, "X")];
    assert_eq!(ttm_window(&keys, 4), Some(vec![1, 2, 3, 4]));
    assert_eq!(ttm_window(&keys, 6), Some(vec![1, 2, 3, 4, 0, 5]));
    assert_eq!(ttm_window(&keys, 7), None);
    assert_eq!(ttm_window(&vec![], 4), None);
}

#[test]
fn equal_quarters_keep_their_order() {
    let keys = vec![q(2023, "A"), q(2023, "B"), q(2023, "Q1")];
    assert_eq!(ttm_window(&keys, 3), Some(vec![2, 0, 1]));
}

#[test]
fn stats_start_at_zero() {
    let s = ProcessingStats::new();
    assert_eq!((s.stocks_processed, s.ttm_records_created, s.stocks_with_insufficient_data, s.total_stocks), (0, 0, 0, 0));
}

#[test]
fn ttm_window_ignores_input_order() {
    let q = |y: i32, p: &str| (y, p.to_string());
    let a = vec![q(2023, "Q1"), q(2022, "Q4"), q(2023, "Q3"), q(2023, "Q2"), q(2022, "Q3")];
    let b = vec![q(2022, "Q3"), q(2023, "Q2"), q(2022, "Q4"), q(2023, "Q3"), q(2023, "Q1")];
    let pick = |keys: &Vec<(i32, String)>| -> Vec<(i32, String)> {
        ttm_window(keys, 4).unwrap().iter().map(|&i| keys[i].clone()).collect()
    };
    assert_eq!(pick(&a), pick(&b));
    assert_eq!(pick(&a), vec![q(2023, "Q3"), q(2023, "Q2"), q(2023, "Q1"), q(2022, "Q4")]);
}
