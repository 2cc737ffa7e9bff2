use rust_stocks::cik::{
    audit_ciks, build_cik_mappings, cik_search_terms, extract_cik_from_html, format_cik, pad_cik,
    parse_u64, search_result_cik, sec_cik, SecTickerEntry,
};

#[test]
fn cik_from_search_pages() {
    assert_eq!(extract_cik_from_html("...?action=getcompany&CIK=320193&type=10-K"), Some("0000320193".to_string()));
    assert_eq!(extract_cik_from_html("CIK=00a1b2c3d&"), Some("0000000123".to_string()));
    assert_eq!(extract_cik_from_html("CIK=123&"), None);
    assert_eq!(extract_cik_from_html("CIK=12345678901&"), None);
    assert_eq!(extract_cik_from_html("CIK=1234"), None);
    assert_eq!(extract_cik_from_html("no key here"), None);
}

#[test]
fn cik_formatting() {
    assert_eq!(pad_cik("320193"), "0000320193");
    assert_eq!(pad_cik("12345678901"), "12345678901");
    assert_eq!(format_cik(320193), "0000320193");
    assert_eq!(format_cik(-5), "-000000005");
    assert_eq!(format_cik(0), "0000000000");
}

#[test]
fn mappings_match_each_cik_once() {
    let entries = vec![
        SecTickerEntry { cik: Some(320193), ticker: Some("AAPL".to_string()) },
        SecTickerEntry { cik: Some(999), ticker: Some("ZZZ".to_string()) },
        SecTickerEntry { cik: Some(320193), ticker: Some("AAPL2".to_string()) },
        SecTickerEntry { cik: None, ticker: Some("MSFT".to_string()) },
        SecTickerEntry { cik: Some(999), ticker: Some("MSFT".to_string()) },
        SecTickerEntry { cik: Some(789019), ticker: Some("MSFT".to_string()) },
    ];
    let stocks = vec![
        (1, "AAPL".to_string(), "Apple Inc.".to_string()),
        (2, "MSFT".to_string(), "Microsoft".to_string()),
        (3, "MSFT".to_string(), "Microsoft Corporation".to_string()),
    ];
    let ms = build_cik_mappings(&entries, &stocks, "/data/companyfacts/");
    assert_eq!(ms.len(), 3);
    assert_eq!(ms[0].cik, "320193");
    assert_eq!(ms[0].stock_id, 1);
    assert_eq!(ms[0].edgar_file_path, "/data/companyfacts/CIK0000320193.json");
    assert_eq!(ms[1].cik, "999");
    assert_eq!(ms[1].symbol, "MSFT");
    assert_eq!(ms[1].stock_id, 3);
    assert_eq!(ms[1].company_name, "Microsoft Corporation");
    assert_eq!(ms[2].cik, "789019");
}

#[test]
fn u64_parsing_matches_std() {
    for t in ["0", "42", "+7", "18446744073709551615", "18446744073709551616", "", "+", "-1", "1a", " 1", "007"] {
        assert_eq!(parse_u64(t), t.parse::<u64>().ok(), "{}", t);
    }
}

#[test]
fn sec_ciks_are_ten_digits() {
    assert_eq!(sec_cik(Some("320193"), None), Some("0000320193".to_string()));
    assert_eq!(sec_cik(Some("abc"), Some(5)), Some("0000000000".to_string()));
    assert_eq!(sec_cik(None, Some(789019)), Some("0000789019".to_string()));
    assert_eq!(sec_cik(None, None), None);
}

#[test]
fn stored_ciks_are_audited() {
    let stocks = vec![
        (1, "AAPL".to_string(), Some("0000320193".to_string())),
        (2, "MSFT".to_string(), Some("0000000001".to_string())),
        (3, "NEW".to_string(), None),
        (4, "GONE".to_string(), Some("0000000009".to_string())),
    ];
    let sec = vec![
        ("AAPL".to_string(), "0000320193".to_string()),
        ("MSFT".to_string(), "0000000002".to_string()),
        ("MSFT".to_string(), "0000789019".to_string()),
        ("NEW".to_string(), "0000000123".to_string()),
    ];
    let a = audit_ciks(&stocks, &sec);
    assert_eq!((a.correct_count, a.incorrect_count, a.not_found_count), (1, 2, 1));
    assert_eq!(a.corrections, vec![(2, "0000789019".to_string()), (3, "0000000123".to_string())]);
}

#[test]
fn cik_search_terms_drop_company_suffixes() {
    assert_eq!(cik_search_terms("AAPL", "Apple Inc."), vec!["AAPL", "Apple Inc.", "Apple"]);
    assert_eq!(cik_search_terms("X", "Acme Company Ltd."), vec!["X", "Acme Company Ltd.", "Acme"]);
    for name in ["Coca-Cola Company", "Foo Corp. Inc.", " Inc. Inc.", "Incorporated", "Ltd.", ""] {
        let expected = name.replace(" Inc.", "").replace(" Corp.", "").replace(" Company", "").replace(" Ltd.", "");
        assert_eq!(cik_search_terms("S", name)[2], expected);
    }
}

#[test]
fn cik_from_search_replies() {
    assert_eq!(search_result_cik(Some("320193"), "CIK=1111&"), Some("0000320193".to_string()));
    assert_eq!(search_result_cik(None, "href=?CIK=789019&type"), Some("0000789019".to_string()));
    assert_eq!(search_result_cik(None, "no match"), None);
}
