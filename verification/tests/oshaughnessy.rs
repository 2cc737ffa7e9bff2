use rust_stocks::oshaughnessy::{build_oshaughnessy_query, OShaughnessyScreeningCriteria};

const SELECT: &str = "SELECT
            stock_id,
            symbol,
            sector,
            current_price,
            market_cap,
            enterprise_value,
            ps_ratio,
            evs_ratio,
            pe_ratio,
            pb_ratio,
            ev_ebitda_ratio,
            shareholder_yield,
            data_completeness_score,
            composite_score,
            composite_percentile,
            overall_rank,
            passes_screening,
            ps_rank,
            evs_rank,
            pe_rank,
            pb_rank,
            ebitda_rank,
            yield_rank,
            metrics_available
        FROM oshaughnessy_ranking
        WHERE 1=1";

#[test]
fn default_oshaughnessy_query() {
    let c = OShaughnessyScreeningCriteria::default();
    assert_eq!(c.max_composite_percentile.as_deref(), Some(20.0f64.to_string().as_str()));
    assert_eq!(c.min_market_cap.as_deref(), Some(200_000_000.0f64.to_string().as_str()));
    let (q, b) = build_oshaughnessy_query(&c, &vec!["AAPL".to_string(), "KO".to_string()], Some(25));
    assert_eq!(
        q,
        format!("{} AND composite_percentile <= ? AND ps_ratio <= ? AND evs_ratio <= ? AND market_cap >= ? AND passes_screening = 1 AND symbol IN (?,?) ORDER BY composite_score ASC, overall_rank ASC LIMIT 25", SELECT)
    );
    assert_eq!(b, vec!["20", "2", "2", "200000000", "AAPL", "KO"]);
}

#[test]
fn unfiltered_oshaughnessy_query() {
    let c = OShaughnessyScreeningCriteria {
        max_composite_percentile: None,
        max_ps_ratio: Some("1.5".to_string()),
        max_evs_ratio: None,
        min_market_cap: None,
        sectors: Some(vec!["Energy".to_string()]),
        passes_screening_only: None,
    };
    let (q, b) = build_oshaughnessy_query(&c, &vec![], None);
    assert_eq!(
        q,
        format!("{} AND ps_ratio <= ? AND sector IN (?) ORDER BY composite_score ASC, overall_rank ASC", SELECT)
    );
    assert_eq!(b, vec!["1.5", "Energy"]);
    let empty = OShaughnessyScreeningCriteria { sectors: Some(vec![]), max_ps_ratio: None, ..c };
    let (q, b) = build_oshaughnessy_query(&empty, &vec![], Some(-1));
    assert_eq!(q, format!("{} ORDER BY composite_score ASC, overall_rank ASC LIMIT -1", SELECT));
    assert!(b.is_empty());
}

#[test]
fn oshaughnessy_binds_fill_placeholders() {
    let c = OShaughnessyScreeningCriteria {
        sectors: Some(vec!["Energy".to_string(), "Materials".to_string()]),
        ..OShaughnessyScreeningCriteria::default()
    };
    let (q, b) = build_oshaughnessy_query(&c, &vec!["XOM".to_string()], None);
    assert!(q.starts_with(SELECT));
    assert_eq!(q[SELECT.len()..].matches('?').count(), b.len());
    assert_eq!(b.len(), 7);
}
