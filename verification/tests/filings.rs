use rust_stocks::edgar::{extract_latest_annual_value, AnnualFact, FactField, UnitFacts};
use rust_stocks::filings::{
    filing_data_from_facts, find_matching_filing, find_matching_filing_in_company_facts,
    metadata_update_sql, plan_metadata_updates, record_delete_sql, FactFiling, FilingData,
    FinancialRecord,
};

fn s(x: &str) -> String {
    x.to_string()
}

#[test]
fn company_facts_filing_by_report_date() {
    let d = FilingData {
        filing_dates: vec![s("2024-02-01"), s("2023-11-01")],
        forms: vec![s("10-K"), s("8-K")],
        report_dates: vec![s("2023-12-31"), s("2023-09-30")],
        accession_numbers: vec![s("0001-24-1")],
    };
    let m = find_matching_filing_in_company_facts("2023-12-31", &d).unwrap();
    assert_eq!((m.filed_date.as_str(), m.accession_number.as_str(), m.form_type.as_str()), ("2024-02-01", "0001-24-1", "10-K"));
    assert!(find_matching_filing_in_company_facts("2023-09-30", &d).is_none());
    assert!(find_matching_filing_in_company_facts("2020-01-01", &d).is_none());
}

#[test]
fn submissions_prefer_annual_filings() {
    let filing_dates = vec![Some(s("2023-05-01")), Some(s("2023-06-01")), Some(s("not a date"))];
    let forms = vec![Some(s("10-Q")), Some(s("10-K")), Some(s("10-K"))];
    let report_dates = vec![Some(s("2023-03-31")), Some(s("2023-03-31")), Some(s("2022-12-31"))];
    let accessions = vec![Some(s("A")), Some(s("B")), Some(s("C"))];
    let m = find_matching_filing(&s("2023-03-31"), &filing_dates, &forms, &report_dates, &accessions).unwrap();
    assert_eq!((m.filed_date.as_str(), m.accession_number.as_str(), m.form_type.as_str()), ("2023-06-01", "B", "10-K"));
    assert!(find_matching_filing(&s("2022-12-31"), &filing_dates, &forms, &report_dates, &accessions).is_none());
}

fn e(val: Option<f64>, end: &str, form: &str) -> AnnualFact<f64> {
    AnnualFact { val, end: Some(s(end)), form: Some(s(form)) }
}

#[test]
fn latest_annual_values() {
    let facts = vec![
        FactField {
            name: s("AssetsCurrent"),
            units: Some(vec![
                UnitFacts { unit: s("EUR"), entries: Some(vec![e(Some(1.0), "2030-01-01", "10-K")]) },
                UnitFacts {
                    unit: s("USD"),
                    entries: Some(vec![
                        e(Some(5.0), "2022-12-31", "10-Q"),
                        e(Some(6.0), "2023-03-31", "10-Q"),
                        e(Some(7.0), "2022-06-30", "10-K"),
                        e(Some(8.0), "2023-12-31", "10-K"),
                        e(None, "2024-12-31", "10-K"),
                    ]),
                },
            ]),
        },
        FactField {
            name: s("Liabilities"),
            units: Some(vec![UnitFacts { unit: s("EUR"), entries: Some(vec![e(Some(2.0), "2020-01-01", "10-K")]) }]),
        },
        FactField { name: s("Empty"), units: None },
    ];
    assert_eq!(extract_latest_annual_value(&facts, "AssetsCurrent"), Some(8.0));
    assert_eq!(extract_latest_annual_value(&facts, "Liabilities"), Some(2.0));
    assert_eq!(extract_latest_annual_value(&facts, "Empty"), None);
    assert_eq!(extract_latest_annual_value(&facts, "Missing"), None);
}

#[test]
fn metadata_statements_per_table() {
    assert_eq!(
        metadata_update_sql("balance_sheets"),
        Ok(s("UPDATE balance_sheets SET filed_date = ?, accession_number = ?, form_type = ? WHERE id = ?"))
    );
    assert_eq!(record_delete_sql("cash_flow_statements"), Ok(s("DELETE FROM cash_flow_statements WHERE id = ?")));
    assert_eq!(metadata_update_sql("stocks"), Err(s("Unknown table: stocks")));
    assert_eq!(record_delete_sql("income"), Err(s("Unknown table: income")));
}

#[test]
fn records_matched_or_removed() {
    let rec = |t: &str, id: i64, d: &str| FinancialRecord {
        table_name: s(t),
        id,
        stock_id: 1,
        report_date: s(d),
        fiscal_year: None,
    };
    let records = vec![rec("income_statements", 1, "2023-03-31"), rec("balance_sheets", 2, "2021-12-31")];
    let filing_dates = vec![Some(s("2023-05-01"))];
    let forms = vec![Some(s("10-Q"))];
    let report_dates = vec![Some(s("2023-03-31"))];
    let accessions = vec![Some(s("A"))];
    let plan = plan_metadata_updates(&records, &filing_dates, &forms, &report_dates, &accessions);
    assert_eq!(plan.len(), 2);
    let m = plan[0].as_ref().unwrap();
    assert_eq!((m.filed_date.as_str(), m.accession_number.as_str(), m.form_type.as_str()), ("2023-05-01", "A", "10-Q"));
    assert!(plan[1].is_none());
}

#[test]
fn company_facts_filings_sorted_without_repeats() {
    let p = |filed: Option<&str>, form: Option<&str>, end: Option<&str>, accn: Option<&str>| FactFiling {
        filed: filed.map(s),
        form: form.map(s),
        end: end.map(s),
        accn: accn.map(s),
    };
    let points = vec![
        p(Some("2024-02-01"), Some("10-K"), Some("2023-12-31"), Some("0001-24-1")),
        p(Some("2023-11-01"), Some("10-Q"), Some("2023-09-30"), Some("0001-23-9")),
        p(Some("2024-02-01"), Some("10-K"), Some("2022-12-31"), None),
        p(None, Some("8-K"), None, Some("0001-23-9")),
        p(Some("2023-05-01"), None, Some("2023-03-31"), Some("0001-23-5")),
    ];
    let d = filing_data_from_facts(&points);
    assert_eq!(d.filing_dates, vec![s("2023-05-01"), s("2023-11-01"), s("2024-02-01")]);
    assert_eq!(d.forms, vec![s("10-K"), s("10-Q"), s("8-K")]);
    assert_eq!(d.report_dates, vec![s("2022-12-31"), s("2023-03-31"), s("2023-09-30"), s("2023-12-31")]);
    assert_eq!(d.accession_numbers, vec![s("0001-23-5"), s("0001-23-9"), s("0001-24-1")]);
    let mut expected: Vec<String> = points.iter().filter_map(|x| x.end.clone()).collect();
    expected.sort();
    expected.dedup();
    assert_eq!(d.report_dates, expected);
    assert!(filing_data_from_facts(&vec![]).forms.is_empty());
}
