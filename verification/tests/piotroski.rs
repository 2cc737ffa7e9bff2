use rust_stocks::piotroski::{build_piotroski_query, criteria_met, PiotroskilScreeningCriteria};

const SELECT: &str = "SELECT
            stock_id,
            symbol,
            sector,
            industry,
            current_net_income,
            f_score_complete,
            data_completeness_score,
            criterion_positive_net_income,
            criterion_positive_operating_cash_flow,
            criterion_improving_roa,
            criterion_cash_flow_quality,
            criterion_decreasing_debt_ratio,
            criterion_improving_current_ratio,
            criterion_no_dilution,
            criterion_improving_net_margin,
            criterion_improving_asset_turnover,
            current_roa,
            current_debt_ratio,
            current_current_ratio,
            current_net_margin,
            current_asset_turnover,
            current_operating_cash_flow,
            pb_ratio
        FROM piotroski_f_score_complete
        WHERE 1=1";

#[test]
fn default_criteria_query() {
    let c = PiotroskilScreeningCriteria::default();
    let (q, b) = build_piotroski_query(&c, &vec![], None);
    assert_eq!(
        q,
        format!("{} AND f_score_complete >= ? AND data_completeness_score >= ? AND passes_screening = 1 ORDER BY f_score_complete DESC, data_completeness_score DESC LIMIT 10", SELECT)
    );
    assert_eq!(b, vec!["7".to_string(), "80".to_string()]);
}

#[test]
fn filtered_query() {
    let c = PiotroskilScreeningCriteria {
        min_f_score: None,
        min_data_completeness: Some(-5),
        sectors: Some(vec!["Energy".to_string(), "Utilities".to_string()]),
        min_market_cap: None,
        passes_screening_only: Some(false),
    };
    let (q, b) = build_piotroski_query(&c, &vec!["XOM".to_string()], Some(3));
    assert_eq!(
        q,
        format!("{} AND data_completeness_score >= ? AND sector IN (?,?) AND symbol IN (?) ORDER BY f_score_complete DESC, data_completeness_score DESC LIMIT 3", SELECT)
    );
    assert_eq!(b, vec!["-5".to_string(), "Energy".to_string(), "Utilities".to_string(), "XOM".to_string()]);
}

#[test]
fn criteria_count() {
    assert_eq!(criteria_met(&[1, 0, 1, 1, 0, 0, 1, 1, 1]), 6);
    assert_eq!(criteria_met(&[0; 9]), 0);
}

#[test]
fn piotroski_binds_fill_placeholders() {
    let c = PiotroskilScreeningCriteria {
        min_f_score: Some(5),
        min_data_completeness: None,
        sectors: Some(vec!["Energy".to_string(), "Utilities".to_string()]),
        min_market_cap: None,
        passes_screening_only: Some(true),
    };
    let tickers = vec!["XOM".to_string(), "CVX".to_string(), "DUK".to_string()];
    let (q, b) = build_piotroski_query(&c, &tickers, Some(-3));
    assert!(q.starts_with(SELECT));
    assert_eq!(q[SELECT.len()..].matches('?').count(), b.len());
    assert_eq!(b.len(), 6);
}
