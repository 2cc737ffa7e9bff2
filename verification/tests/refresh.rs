use rust_stocks::refresh::{
    check_screening_readiness, get_available_steps, get_refresh_duration_estimates,
    plan_duration, plan_refresh_steps, refresh_finished, to_refresh_request, RefreshMode,
    RefreshNeeds, RefreshRequestDto, ScreeningReadiness,
};

fn dto(mode: &str) -> RefreshRequestDto {
    RefreshRequestDto { mode: mode.to_string(), force_sources: None, initiated_by: None }
}

#[test]
fn refresh_requests() {
    let r = to_refresh_request(dto("market")).unwrap();
    assert_eq!(r.mode, RefreshMode::Market);
    assert!(r.force_sources.is_empty());
    assert_eq!(r.initiated_by, "ui");
    assert!(r.session_id.is_none());
    let r = to_refresh_request(RefreshRequestDto {
        mode: "financials".to_string(),
        force_sources: Some(vec!["daily_prices".to_string()]),
        initiated_by: Some("cli".to_string()),
    })
    .unwrap();
    assert_eq!(r.mode, RefreshMode::Financials);
    assert_eq!(r.force_sources, vec!["daily_prices".to_string()]);
    assert_eq!(r.initiated_by, "cli");
    assert_eq!(to_refresh_request(dto("ratios")).unwrap().mode, RefreshMode::Ratios);
    assert_eq!(to_refresh_request(dto("full")).unwrap_err(), "Invalid refresh mode: full");
}

#[test]
fn steps_by_mode() {
    let market = get_available_steps(&RefreshMode::Market);
    assert_eq!(
        market,
        vec![("daily_prices".to_string(), 15), ("pe_ratios".to_string(), 25), ("company_metadata".to_string(), 2)]
    );
    let fin = get_available_steps(&RefreshMode::Financials);
    assert_eq!(fin.len(), 5);
    assert_eq!(fin[3], ("cash_flow_statements".to_string(), 8));
    assert_eq!(fin[4], ("financial_statements".to_string(), 45));
    assert_eq!(get_available_steps(&RefreshMode::Ratios), market);
}

#[test]
fn plans_take_the_stale_sources() {
    let fin = get_available_steps(&RefreshMode::Financials);
    let needs = RefreshNeeds { market_data: true, financial_data: true, calculated_ratios: true };
    let plan = plan_refresh_steps(&fin, needs);
    assert_eq!(plan, vec![("daily_prices".to_string(), 15), ("financial_statements".to_string(), 45)]);
    assert_eq!(plan_duration(&plan), 60);
    let none = RefreshNeeds { market_data: false, financial_data: false, calculated_ratios: true };
    assert!(plan_refresh_steps(&fin, none).is_empty());
    assert_eq!(plan_duration(&vec![]), 0);
}

#[test]
fn duration_estimates_by_mode() {
    let rows = vec![
        ("daily_prices".to_string(), 15),
        ("ps_evs_ratios".to_string(), 10),
        ("financial_statements".to_string(), 45),
        ("pe_ratios".to_string(), 25),
        ("other".to_string(), 1000),
        ("company_metadata".to_string(), 2),
    ];
    let e = get_refresh_duration_estimates(&rows);
    assert_eq!(e.quick, 42);
    assert_eq!(e.standard, 52);
    assert_eq!(e.full, 97);
    assert!(e.quick <= e.standard && e.standard <= e.full);
}

#[test]
fn refresh_status_and_readiness() {
    assert!(refresh_finished("completed"));
    assert!(refresh_finished("failed"));
    assert!(!refresh_finished("running"));
    let r = ScreeningReadiness {
        garp_screening: true,
        graham_screening: false,
        valuation_analysis: true,
        blocking_issues: vec![],
    };
    assert_eq!(check_screening_readiness(&r, "garp_screening"), Ok(true));
    assert_eq!(check_screening_readiness(&r, "graham_screening"), Ok(false));
    assert_eq!(check_screening_readiness(&r, "valuation_analysis"), Ok(true));
    assert_eq!(check_screening_readiness(&r, "x"), Err("Unknown screening feature: x".to_string()));
}
