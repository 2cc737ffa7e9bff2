use rust_stocks::api::{
    access_token_action, basic_auth_header, basic_auth_value, bearer_auth_value,
    enhanced_quotes_url, expiry_from_timestamp, fundamentals_url, instrument_url,
    market_hours_for_date_url, market_hours_url, price_history_url, quotes_url,
    refreshed_tokens, AlphaVantageClient, AlphaVantageEarningsResponse, AnnualEarning,
    ApiRateLimiter, QuarterlyEarning, StoredTokens, TokenAction, TokenResponse, MAX_TIMESTAMP,
};

#[test]
fn rate_limiter_delays() {
    assert_eq!(ApiRateLimiter::new(120).delay_ms(), 500);
    assert_eq!(ApiRateLimiter::new(7).delay_ms(), 8571);
    assert_eq!(ApiRateLimiter::new(0).delay_ms(), 1000);
    assert_eq!(ApiRateLimiter::new(100000).delay_ms(), 0);
}

#[test]
fn earnings_request() {
    let c = AlphaVantageClient::new("KEY".to_string());
    assert_eq!(
        c.earnings_url("IBM"),
        "https://www.alphavantage.co/query?function=EARNINGS&symbol=IBM&apikey=KEY"
    );
}

#[test]
fn earnings_report_lines() {
    let c = AlphaVantageClient::new("KEY".to_string());
    let data = AlphaVantageEarningsResponse {
        symbol: "IBM".to_string(),
        annual_earnings: vec![AnnualEarning { fiscal_date_ending: "2023-12-31".to_string(), reported_eps: "9.61".to_string() }],
        quarterly_earnings: vec![QuarterlyEarning {
            fiscal_date_ending: "2023-12-31".to_string(),
            reported_date: "2024-01-24".to_string(),
            reported_eps: "3.87".to_string(),
            estimated_eps: Some("3.78".to_string()),
            surprise: None,
            surprise_percentage: None,
            report_time: Some("post-market".to_string()),
        }],
    };
    let lines = c.quarterly_eps_report(&data);
    assert_eq!(lines.len(), 8);
    assert_eq!(lines[0], "\n=== Quarterly EPS Data for IBM ===");
    assert_eq!(lines[1], format!("{:<15} {:<15} {:<12} {:<12} {:<15} {:<10}", "Fiscal Date", "Reported Date", "Reported EPS", "Estimated EPS", "Surprise %", "Report Time"));
    assert_eq!(lines[2], "-".repeat(90));
    assert_eq!(lines[3], format!("{:<15} {:<15} {:<12} {:<12} {:<15} {:<10}", "2023-12-31", "2024-01-24", "3.87", "3.78", "N/A", "post-market"));
    assert_eq!(lines[4], "\n=== Annual EPS Data for IBM ===");
    assert_eq!(lines[5], format!("{:<15} {:<12}", "Fiscal Date", "Reported EPS"));
    assert_eq!(lines[6], "-".repeat(30));
    assert_eq!(lines[7], format!("{:<15} {:<12}", "2023-12-31", "9.61"));
}

const S: i128 = 1_000_000_000;

fn tokens(expires_at: i128) -> StoredTokens {
    StoredTokens { access_token: "acc".to_string(), refresh_token: "ref".to_string(), expires_at }
}

#[test]
fn token_is_used_until_five_minutes_before_expiry() {
    let now = 1000 * S;
    assert!(matches!(access_token_action(&None, now), TokenAction::NoTokens));
    assert!(matches!(access_token_action(&Some(tokens(now + 300 * S + 1)), now), TokenAction::UseAccessToken(ref a) if a == "acc"));
    assert!(matches!(access_token_action(&Some(tokens(now + 300 * S)), now), TokenAction::Refresh(ref r) if r == "ref"));
    assert!(matches!(access_token_action(&Some(tokens(0)), now), TokenAction::Refresh(_)));
}

#[test]
fn refreshed_tokens_expire_a_minute_early() {
    let r = refreshed_tokens(
        TokenResponse { access_token: "a2".to_string(), refresh_token: "r2".to_string(), expires_in: 1800, token_type: "Bearer".to_string() },
        10_000 * S,
    );
    assert_eq!(r.access_token, "a2");
    assert_eq!(r.refresh_token, "r2");
    assert_eq!(r.expires_at, 11_740 * S);
    assert!(matches!(access_token_action(&Some(r), 10_000 * S), TokenAction::UseAccessToken(_)));
}

#[test]
fn token_times_keep_fractions_of_a_second() {
    let r = refreshed_tokens(
        TokenResponse { access_token: "a".to_string(), refresh_token: "r".to_string(), expires_in: 400, token_type: "Bearer".to_string() },
        10 * S + 900_000_000,
    );
    assert_eq!(r.expires_at, 350 * S + 900_000_000);
    assert!(matches!(access_token_action(&Some(r.clone()), 50 * S + 500_000_000), TokenAction::UseAccessToken(_)));
    assert!(matches!(access_token_action(&Some(r), 50 * S + 900_000_000), TokenAction::Refresh(_)));
}

#[test]
fn token_file_expiry() {
    assert_eq!(expiry_from_timestamp(1_700_000_000, 5), 1_700_000_000 * S);
    assert_eq!(expiry_from_timestamp(MAX_TIMESTAMP + 1, 5), 5);
}

#[test]
fn authorization_headers() {
    assert_eq!(basic_auth_header(&"key".to_string(), &"secret".to_string()), "Basic a2V5OnNlY3JldA==");
    assert_eq!(basic_auth_header(&"".to_string(), &"".to_string()), "Basic Og==");
    assert_eq!(basic_auth_value("abc"), "Basic abc");
    assert_eq!(bearer_auth_value("tok"), "Bearer tok");
}

#[test]
fn schwab_requests() {
    let syms = vec!["AAPL".to_string(), "MSFT".to_string()];
    assert_eq!(quotes_url(&syms), "https://api.schwabapi.com/marketdata/v1/quotes?symbols=AAPL,MSFT");
    assert_eq!(enhanced_quotes_url(&syms), "https://api.schwabapi.com/marketdata/v1/quotes?symbols=AAPL,MSFT&fields=quote,fundamental");
    assert_eq!(fundamentals_url("AAPL"), "https://api.schwabapi.com/marketdata/v1/instruments?symbol=AAPL&projection=fundamental");
    assert_eq!(instrument_url("AAPL"), "https://api.schwabapi.com/marketdata/v1/instruments?symbol=AAPL&projection=symbol-search");
    assert_eq!(market_hours_url("equity"), "https://api.schwabapi.com/marketdata/v1/markets/equity");
    assert_eq!(market_hours_for_date_url("equity", "2024-01-02"), "https://api.schwabapi.com/marketdata/v1/markets?markets=equity&date=2024-01-02");
    assert_eq!(
        price_history_url("AAPL", 1704067200000, -1),
        "https://api.schwabapi.com/marketdata/v1/pricehistory?symbol=AAPL&periodType=year&frequencyType=daily&frequency=1&startDate=1704067200000&endDate=-1"
    );
}
