use rust_stocks::edgar::{
    extract_available_periods, extract_cik_from_filename, extract_field_value_for_period,
    extract_financial_statements, extract_income_statement_for_period, EdgarConcept,
    EdgarFactValue, GaapFieldMapping, PeriodInfo,
};

fn fact(end: &str, val: f64, fy: Option<i32>, fp: Option<&str>) -> EdgarFactValue<f64> {
    EdgarFactValue { end: end.to_string(), val, fy, fp: fp.map(|s| s.to_string()) }
}

fn concept(name: &str, unit: &str, facts: Vec<EdgarFactValue<f64>>) -> EdgarConcept<f64> {
    EdgarConcept { name: name.to_string(), units: vec![(unit.to_string(), facts)] }
}

fn keys(ps: &[PeriodInfo]) -> Vec<(i32, String, String)> {
    ps.iter().map(|p| (p.year, p.period.clone(), p.end_date.clone())).collect()
}

#[test]
fn periods_are_deduplicated_and_sorted() {
    let concepts = vec![
        concept(
            "Revenues",
            "USD",
            vec![
                fact("2023-12-31", 10.0, Some(2023), Some("FY")),
                fact("2023-03-31", 1.0, Some(2023), Some("Q1")),
                fact("2022-12-31", 9.0, Some(2022), Some("FY")),
                fact("2023-06-30", 2.0, Some(2023), Some("Q2")),
                fact("2099-01-01", 5.0, None, Some("Q3")),
            ],
        ),
        concept(
            "NetIncomeLoss",
            "USD",
            vec![
                fact("2023-04-01", 0.5, Some(2023), Some("Q1")),
                fact("2023-09-30", 3.0, Some(2023), Some("Q3")),
                fact("2023-10-31", 3.5, Some(2023), Some("H2")),
            ],
        ),
        concept("Shares", "shares", vec![fact("2024-03-31", 7.0, Some(2024), Some("Q1"))]),
    ];
    let ps = extract_available_periods(&concepts);
    assert_eq!(
        keys(&ps),
        vec![
            (2022, "FY".to_string(), "2022-12-31".to_string()),
            (2023, "Q1".to_string(), "2023-03-31".to_string()),
            (2023, "Q2".to_string(), "2023-06-30".to_string()),
            (2023, "Q3".to_string(), "2023-09-30".to_string()),
            (2023, "FY".to_string(), "2023-12-31".to_string()),
            (2023, "H2".to_string(), "2023-10-31".to_string()),
        ]
    );
}

#[test]
fn periods_are_known_by_their_key_text() {
    let concepts = vec![concept(
        "Revenues",
        "USD",
        vec![
            fact("2023-03-31", 1.0, Some(2023), Some("Q1")),
            fact("0020-01-01", 2.0, Some(20), Some("23-Q1")),
            fact("0020-02-01", 3.0, Some(20), Some("Q1")),
        ],
    )];
    assert_eq!(
        keys(&extract_available_periods(&concepts)),
        vec![
            (20, "Q1".to_string(), "0020-02-01".to_string()),
            (20, "23-Q1".to_string(), "0020-01-01".to_string()),
            (2023, "Q1".to_string(), "2023-03-31".to_string()),
        ]
    );
}

#[test]
fn periods_of_no_concepts() {
    let concepts: Vec<EdgarConcept<f64>> = vec![];
    assert!(extract_available_periods(&concepts).is_empty());
}

#[test]
fn field_value_follows_priority_and_exact_period() {
    let concepts = vec![
        concept("SalesRevenueNet", "USD", vec![fact("2023-03-31", 11.0, Some(2023), Some("Q1"))]),
        concept(
            "RevenueFromContractWithCustomerExcludingAssessedTax",
            "USD",
            vec![fact("2023-03-30", 99.0, Some(2023), Some("Q1"))],
        ),
    ];
    let p = PeriodInfo { year: 2023, period: "Q1".to_string(), end_date: "2023-03-31".to_string() };
    let names = vec![
        "RevenueFromContractWithCustomerExcludingAssessedTax".to_string(),
        "SalesRevenueNet".to_string(),
    ];
    assert_eq!(extract_field_value_for_period(&concepts, &names, &p), Some(11.0));
    let other = PeriodInfo { year: 2023, period: "Q2".to_string(), end_date: "2023-03-31".to_string() };
    assert_eq!(extract_field_value_for_period(&concepts, &names, &other), None);
}

#[test]
fn statements_use_the_standard_mapping() {
    let concepts = vec![
        concept("Revenues", "USD", vec![fact("2023-12-31", 100.0, Some(2023), Some("FY"))]),
        concept("ProfitLoss", "USD", vec![fact("2023-12-31", 7.0, Some(2023), Some("FY"))]),
        concept("Assets", "USD", vec![fact("2023-12-31", 500.0, Some(2023), Some("FY"))]),
        concept("Cash", "EUR", vec![fact("2023-12-31", 3.0, Some(2023), Some("FY"))]),
    ];
    let mapping = GaapFieldMapping::new();
    let p = PeriodInfo { year: 2023, period: "FY".to_string(), end_date: "2023-12-31".to_string() };
    let st = extract_income_statement_for_period(&concepts, 42, &p, &mapping);
    assert_eq!(st.stock_id, 42);
    assert_eq!(st.revenue, Some(100.0));
    assert_eq!(st.net_income, Some(7.0));
    assert_eq!(st.operating_income, None);
    let data = extract_financial_statements(&concepts, 42, &mapping);
    assert_eq!(data.income_statements.len(), 1);
    assert_eq!(data.balance_sheets.len(), 1);
    assert_eq!(data.balance_sheets[0].total_assets, Some(500.0));
    assert_eq!(data.balance_sheets[0].cash_and_equivalents, None);
    assert_eq!(data.balance_sheets[0].period, "FY");
}

#[test]
fn cik_from_file_names() {
    assert_eq!(extract_cik_from_filename("CIK0000320193.json"), Some("320193".to_string()));
    assert_eq!(extract_cik_from_filename("xCIK0000000000.json"), Some("".to_string()));
    assert_eq!(extract_cik_from_filename("CIK123"), None);
    assert_eq!(extract_cik_from_filename("facts.json"), None);
}
