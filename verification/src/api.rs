//! Clients of the market data services: request pacing, the Alpha Vantage earnings client and
//! the Schwab client's requests and token handling.
//!
//! The HTTP exchanges themselves are I/O; this module builds what is sent and decides what is
//! done with what comes back.
use vstd::prelude::*;
use base64::Engine;
use vstd::utf8::encode_utf8;
use crate::text::{append_chars, append_joined, append_padded, append_repeated, append_str, chars_of, join_with, pad_right, repeat, signed_decimal, string_of, zero_padded_chars};

verus! {

// ---------------------------------------------------------------------------------------------
// Request pacing
// ---------------------------------------------------------------------------------------------

/// Simple rate limiter for API requests: a fixed pause before each request.
pub struct ApiRateLimiter {
    delay_ms: u64,
}

impl ApiRateLimiter {
    /// The pause, in milliseconds, that this limiter keeps between requests.
    pub closed spec fn delay(&self) -> u64 {
        self.delay_ms
    }

    /// A limiter for `requests_per_minute` requests a minute: a pause of `60000 /
    /// requests_per_minute` milliseconds, or of one second when the rate is zero.
    pub fn new(requests_per_minute: u32) -> (r: Self)
        ensures
            r.delay() == if requests_per_minute > 0 {
                60000u64 / (requests_per_minute as u64)
            } else {
                1000u64
            },
    {
        let delay_ms = if requests_per_minute > 0 {
            60000 / requests_per_minute as u64
        } else {
            1000
        };
        ApiRateLimiter { delay_ms }
    }

    /// The pause of a limiter for a positive rate is the longest whole number of milliseconds
    /// that lets that many requests start within a minute.
    pub proof fn lemma_delay_fits_rate(requests_per_minute: u32, delay: u64)
        requires
            requests_per_minute > 0,
            delay == 60000u64 / (requests_per_minute as u64),
        ensures
            delay * requests_per_minute <= 60000 < (delay + 1) * requests_per_minute,
    {
        let r = requests_per_minute as int;
        assert(delay * r <= 60000 < (delay + 1) * r) by (nonlinear_arith)
            requires
                r > 0,
                delay == 60000int / r,
        ;
    }

    /// The pause, in milliseconds, to keep before each request.
    pub fn delay_ms(&self) -> (r: u64)
        ensures
            r == self.delay(),
    {
        self.delay_ms
    }
}

// ---------------------------------------------------------------------------------------------
// Alpha Vantage
// ---------------------------------------------------------------------------------------------

/// Earnings of a company as Alpha Vantage reports them.
#[derive(Debug, Clone)]
pub struct AlphaVantageEarningsResponse {
    pub symbol: String,
    pub annual_earnings: Vec<AnnualEarning>,
    pub quarterly_earnings: Vec<QuarterlyEarning>,
}

/// Earnings per share of one fiscal year.
#[derive(Debug, Clone)]
pub struct AnnualEarning {
    pub fiscal_date_ending: String,
    pub reported_eps: String,
}

/// Earnings per share of one fiscal quarter.
#[derive(Debug, Clone)]
pub struct QuarterlyEarning {
    pub fiscal_date_ending: String,
    pub reported_date: String,
    pub reported_eps: String,
    pub estimated_eps: Option<String>,
    pub surprise: Option<String>,
    pub surprise_percentage: Option<String>,
    pub report_time: Option<String>,
}

/// Alpha Vantage API client.
pub struct AlphaVantageClient {
    api_key: String,
    base_url: String,
}

/// The address of the Alpha Vantage API.
pub open spec fn alpha_vantage_base_url() -> Seq<char> {
    "https://www.alphavantage.co/query"@
}

/// The request for the earnings of `symbol`.
pub open spec fn earnings_request(base: Seq<char>, symbol: Seq<char>, key: Seq<char>) -> Seq<char> {
    base + "?function=EARNINGS&symbol="@ + symbol + "&apikey="@ + key
}

/// A text, or `N/A` where there is none.
pub open spec fn or_na(s: Option<String>) -> Seq<char> {
    match s {
        Some(x) => x@,
        None => "N/A"@,
    }
}

/// The table row of one quarter: fiscal date, reported date, reported EPS, estimated EPS,
/// surprise percentage and report time, in columns of 15, 15, 12, 12, 15 and 10 characters.
pub open spec fn quarterly_row(e: QuarterlyEarning) -> Seq<char> {
    pad_right(e.fiscal_date_ending@, ' ', 15) + " "@ + pad_right(e.reported_date@, ' ', 15) + " "@
        + pad_right(e.reported_eps@, ' ', 12) + " "@ + pad_right(or_na(e.estimated_eps), ' ', 12)
        + " "@ + pad_right(or_na(e.surprise_percentage), ' ', 15) + " "@ + pad_right(
        or_na(e.report_time),
        ' ',
        10,
    )
}

/// The table row of one fiscal year: fiscal date and reported EPS, in columns of 15 and 12.
pub open spec fn annual_row(e: AnnualEarning) -> Seq<char> {
    pad_right(e.fiscal_date_ending@, ' ', 15) + " "@ + pad_right(e.reported_eps@, ' ', 12)
}

/// The lines that show the earnings of a company: a titled table of its quarters and one of
/// its years.
pub open spec fn eps_report(d: AlphaVantageEarningsResponse) -> Seq<Seq<char>> {
    seq![
        "\n=== Quarterly EPS Data for "@ + d.symbol@ + " ==="@,
        pad_right("Fiscal Date"@, ' ', 15) + " "@ + pad_right("Reported Date"@, ' ', 15) + " "@
            + pad_right("Reported EPS"@, ' ', 12) + " "@ + pad_right("Estimated EPS"@, ' ', 12)
            + " "@ + pad_right("Surprise %"@, ' ', 15) + " "@ + pad_right("Report Time"@, ' ', 10),
        repeat("-"@, 90),
    ] + d.quarterly_earnings@.map_values(|e: QuarterlyEarning| quarterly_row(e)) + seq![
        "\n=== Annual EPS Data for "@ + d.symbol@ + " ==="@,
        pad_right("Fiscal Date"@, ' ', 15) + " "@ + pad_right("Reported EPS"@, ' ', 12),
        repeat("-"@, 30),
    ] + d.annual_earnings@.map_values(|e: AnnualEarning| annual_row(e))
}

/// Appends a text, or `N/A` where there is none, padded to `width`.
fn append_padded_or_na(v: &mut Vec<char>, s: &Option<String>, width: usize)
    ensures
        final(v)@ == old(v)@ + pad_right(or_na(*s), ' ', width as nat),
{
    match s {
        Some(x) => append_padded(v, x.as_str(), width),
        None => append_padded(v, "N/A", width),
    }
}

/// Executable `quarterly_row`.
fn quarterly_row_of(e: &QuarterlyEarning) -> (r: String)
    ensures
        r@ == quarterly_row(*e),
{
    let mut v: Vec<char> = Vec::new();
    append_padded(&mut v, e.fiscal_date_ending.as_str(), 15);
    append_str(&mut v, " ");
    append_padded(&mut v, e.reported_date.as_str(), 15);
    append_str(&mut v, " ");
    append_padded(&mut v, e.reported_eps.as_str(), 12);
    append_str(&mut v, " ");
    append_padded_or_na(&mut v, &e.estimated_eps, 12);
    append_str(&mut v, " ");
    append_padded_or_na(&mut v, &e.surprise_percentage, 15);
    append_str(&mut v, " ");
    append_padded_or_na(&mut v, &e.report_time, 10);
    assert(v@ =~= quarterly_row(*e));
    string_of(&v)
}

/// Executable `annual_row`.
fn annual_row_of(e: &AnnualEarning) -> (r: String)
    ensures
        r@ == annual_row(*e),
{
    let mut v: Vec<char> = Vec::new();
    append_padded(&mut v, e.fiscal_date_ending.as_str(), 15);
    append_str(&mut v, " ");
    append_padded(&mut v, e.reported_eps.as_str(), 12);
    assert(v@ =~= annual_row(*e));
    string_of(&v)
}

/// One line of text.
fn line(parts: &Vec<char>) -> (r: String)
    ensures
        r@ == parts@,
{
    string_of(parts)
}

impl AlphaVantageClient {
    /// The key this client sends.
    pub closed spec fn key(&self) -> Seq<char> {
        self.api_key@
    }

    /// The address this client sends requests to.
    pub closed spec fn base(&self) -> Seq<char> {
        self.base_url@
    }

    /// A client with the key `api_key`, for the Alpha Vantage API.
    pub fn new(api_key: String) -> (r: Self)
        ensures
            r.key() == api_key@,
            r.base() == alpha_vantage_base_url(),
    {
        AlphaVantageClient { api_key, base_url: "https://www.alphavantage.co/query".to_owned() }
    }

    /// The request for the earnings of `symbol`.
    pub fn earnings_url(&self, symbol: &str) -> (r: String)
        ensures
            r@ == earnings_request(self.base(), symbol@, self.key()),
    {
        let mut v = chars_of(self.base_url.as_str());
        append_str(&mut v, "?function=EARNINGS&symbol=");
        append_str(&mut v, symbol);
        append_str(&mut v, "&apikey=");
        append_str(&mut v, self.api_key.as_str());
        assert(v@ =~= earnings_request(self.base(), symbol@, self.key()));
        string_of(&v)
    }

    /// The lines that show the quarterly and the annual earnings per share of a company.
    pub fn quarterly_eps_report(&self, earnings_data: &AlphaVantageEarningsResponse) -> (r: Vec<
        String,
    >)
        ensures
            r@.map_values(|x: String| x@) == eps_report(*earnings_data),
    {
        let mut v: Vec<char> = Vec::new();
        append_str(&mut v, "\n=== Quarterly EPS Data for ");
        append_str(&mut v, earnings_data.symbol.as_str());
        append_str(&mut v, " ===");
        let l1 = line(&v);
        let mut v: Vec<char> = Vec::new();
        append_padded(&mut v, "Fiscal Date", 15);
        append_str(&mut v, " ");
        append_padded(&mut v, "Reported Date", 15);
        append_str(&mut v, " ");
        append_padded(&mut v, "Reported EPS", 12);
        append_str(&mut v, " ");
        append_padded(&mut v, "Estimated EPS", 12);
        append_str(&mut v, " ");
        append_padded(&mut v, "Surprise %", 15);
        append_str(&mut v, " ");
        append_padded(&mut v, "Report Time", 10);
        let l2 = line(&v);
        let mut v: Vec<char> = Vec::new();
        append_repeated(&mut v, "-", 90);
        let l3 = line(&v);
        let mut v: Vec<char> = Vec::new();
        append_str(&mut v, "\n=== Annual EPS Data for ");
        append_str(&mut v, earnings_data.symbol.as_str());
        append_str(&mut v, " ===");
        let l4 = line(&v);
        let mut v: Vec<char> = Vec::new();
        append_padded(&mut v, "Fiscal Date", 15);
        append_str(&mut v, " ");
        append_padded(&mut v, "Reported EPS", 12);
        let l5 = line(&v);
        let mut v: Vec<char> = Vec::new();
        append_repeated(&mut v, "-", 30);
        let l6 = line(&v);
        let ghost heads = seq![l1@, l2@, l3@];
        let ghost tails = seq![l4@, l5@, l6@];
        let ghost qrows = earnings_data.quarterly_earnings@.map_values(
            |e: QuarterlyEarning| quarterly_row(e),
        );
        let ghost arows = earnings_data.annual_earnings@.map_values(|e: AnnualEarning| annual_row(e));
        assert(heads + qrows + tails + arows =~= eps_report(*earnings_data));
        let mut r: Vec<String> = Vec::new();
        r.push(l1);
        r.push(l2);
        r.push(l3);
        assert(r@.map_values(|x: String| x@) =~= heads);
        let qs = &earnings_data.quarterly_earnings;
        let mut k: usize = 0;
        while k < qs.len()
            invariant
                k <= qs@.len(),
                qrows == qs@.map_values(|e: QuarterlyEarning| quarterly_row(e)),
                r@.map_values(|x: String| x@) == heads + qrows.take(k as int),
            decreases qs@.len() - k,
        {
            let ghost before = r@.map_values(|x: String| x@);
            let row = quarterly_row_of(&qs[k]);
            r.push(row);
            assert(r@.map_values(|x: String| x@) =~= before.push(row@));
            assert(qrows.take(k + 1) =~= qrows.take(k as int).push(qrows[k as int]));
            assert(r@.map_values(|x: String| x@) =~= heads + qrows.take(k + 1));
            k = k + 1;
        }
        assert(qrows.take(qs@.len() as int) =~= qrows);
        let ghost before = r@.map_values(|x: String| x@);
        r.push(l4);
        r.push(l5);
        r.push(l6);
        assert(r@.map_values(|x: String| x@) =~= before + tails);
        let ys = &earnings_data.annual_earnings;
        let mut k: usize = 0;
        while k < ys.len()
            invariant
                k <= ys@.len(),
                arows == ys@.map_values(|e: AnnualEarning| annual_row(e)),
                r@.map_values(|x: String| x@) == heads + qrows + tails + arows.take(k as int),
            decreases ys@.len() - k,
        {
            let ghost before = r@.map_values(|x: String| x@);
            let row = annual_row_of(&ys[k]);
            r.push(row);
            assert(r@.map_values(|x: String| x@) =~= before.push(row@));
            assert(arows.take(k + 1) =~= arows.take(k as int).push(arows[k as int]));
            assert(r@.map_values(|x: String| x@) =~= heads + qrows + tails + arows.take(k + 1));
            k = k + 1;
        }
        assert(arows.take(ys@.len() as int) =~= arows);
        r
    }
}

// ---------------------------------------------------------------------------------------------
// Schwab
// ---------------------------------------------------------------------------------------------

/// The first second (Unix time) that a UTC date-time can hold.
pub const MIN_TIMESTAMP: i64 = -8334601315200;

/// The last second (Unix time) that a UTC date-time can hold.
pub const MAX_TIMESTAMP: i64 = 8210266876799;

/// Nanoseconds in a second.
pub const NANOS_PER_SECOND: i128 = 1000000000;

/// The first instant (nanoseconds of Unix time) that a UTC date-time can hold.
pub const MIN_INSTANT: i128 = -8334601315200000000000;

/// The last instant (nanoseconds of Unix time) that a UTC date-time can hold.
pub const MAX_INSTANT: i128 = 8210266876799999999999;

/// Nanoseconds in five minutes: the margin a token must have left to be used.
pub const TOKEN_MARGIN: i128 = 300000000000;

/// Tokens of a Schwab session; `expires_at` is an instant in nanoseconds of Unix time.
#[derive(Debug, Clone)]
pub struct StoredTokens {
    pub access_token: String,
    pub refresh_token: String,
    pub expires_at: i128,
}

/// The answer of the Schwab token service to a refresh.
#[derive(Debug, Clone)]
pub struct TokenResponse {
    pub access_token: String,
    pub refresh_token: String,
    pub expires_in: i64,
    pub token_type: String,
}

/// What to do for an authenticated request.
#[derive(Debug, Clone)]
pub enum TokenAction {
    /// The access token is valid for more than five minutes: send it.
    UseAccessToken(String),
    /// The access token expires within five minutes: refresh it with this refresh token.
    Refresh(String),
    /// No tokens are loaded.
    NoTokens,
}

/// Whether tokens expiring at `expires_at` are still valid five minutes after `now`.
pub open spec fn fresh_at(expires_at: i128, now: i128) -> bool {
    expires_at > now + TOKEN_MARGIN
}

/// What to do for an authenticated request at the instant `now` (nanoseconds of Unix time),
/// given the loaded tokens. `now` and the instant five minutes later are date-times.
pub fn access_token_action(tokens: &Option<StoredTokens>, now: i128) -> (r: TokenAction)
    requires
        MIN_INSTANT <= now,
        now + TOKEN_MARGIN <= MAX_INSTANT,
    ensures
        match tokens {
            None => r is NoTokens,
            Some(t) => if fresh_at(t.expires_at, now) {
                r matches TokenAction::UseAccessToken(a) && a@ == t.access_token@
            } else {
                r matches TokenAction::Refresh(x) && x@ == t.refresh_token@
            },
        },
{
    match tokens {
        None => TokenAction::NoTokens,
        Some(t) => {
            if t.expires_at > now + TOKEN_MARGIN {
                TokenAction::UseAccessToken(t.access_token.clone())
            } else {
                TokenAction::Refresh(t.refresh_token.clone())
            }
        },
    }
}

/// The tokens that a refresh answered at the instant `now` gives: they expire one minute before
/// the lifetime (whole seconds) that the service grants runs out. The lifetime less a minute is
/// a duration that a time delta can hold, and the expiry a date-time.
pub fn refreshed_tokens(response: TokenResponse, now: i128) -> (r: StoredTokens)
    requires
        -9223372036854775 <= response.expires_in - 60 <= 9223372036854775,
        MIN_INSTANT <= now + (response.expires_in - 60) * NANOS_PER_SECOND <= MAX_INSTANT,
    ensures
        r.access_token@ == response.access_token@,
        r.refresh_token@ == response.refresh_token@,
        r.expires_at == now + (response.expires_in - 60) * NANOS_PER_SECOND,
{
    let lifetime: i128 = (response.expires_in - 60) as i128;
    assert(-9223372036854775000000000 <= lifetime * NANOS_PER_SECOND <= 9223372036854775000000000)
        by (nonlinear_arith)
        requires
            -9223372036854775 <= lifetime <= 9223372036854775,
    ;
    StoredTokens {
        access_token: response.access_token,
        refresh_token: response.refresh_token,
        expires_at: now + lifetime * NANOS_PER_SECOND,
    }
}

/// The expiry of tokens read from a token file: the instant of the timestamp (whole seconds) it
/// gives, or `now` where that timestamp is not a representable date-time.
pub fn expiry_from_timestamp(expires_at: i64, now: i128) -> (r: i128)
    ensures
        r == if MIN_TIMESTAMP <= expires_at <= MAX_TIMESTAMP {
            expires_at * NANOS_PER_SECOND
        } else {
            now as int
        },
{
    if MIN_TIMESTAMP <= expires_at && expires_at <= MAX_TIMESTAMP {
        let e: i128 = expires_at as i128;
        assert(-8334601315200000000000 <= e * NANOS_PER_SECOND <= 8210266876799000000000)
            by (nonlinear_arith)
            requires
                -8334601315200 <= e <= 8210266876799,
        ;
        e * NANOS_PER_SECOND
    } else {
        now
    }
}

/// The standard base64 encoding (alphabet `A-Z a-z 0-9 + /`, padded with `=`) of `bytes`.
pub uninterp spec fn base64_standard(bytes: Seq<u8>) -> Seq<char>;

/// The length of the padded base64 encoding of `n` bytes.
pub open spec fn base64_padded_len(n: nat) -> nat {
    if n % 3 == 0 {
        n / 3 * 4
    } else {
        n / 3 * 4 + 4
    }
}

/// Calls `base64::engine::general_purpose::STANDARD.encode`. Claimed: the result is the
/// standard padded encoding of `bytes`, whose length is four characters per started group of
/// three bytes; the call panics only where that length overflows `usize`.
#[verifier::external_body]
fn encode_base64(bytes: &[u8]) -> (r: String)
    requires
        base64_padded_len(bytes@.len()) <= usize::MAX,
    ensures
        r@ == base64_standard(bytes@),
        r@.len() == base64_padded_len(bytes@.len()),
{
    base64::engine::general_purpose::STANDARD.encode(bytes)
}

/// The value of a basic authorization header with the encoded credentials `encoded`.
pub fn basic_auth_value(encoded: &str) -> (r: String)
    ensures
        r@ == "Basic "@ + encoded@,
{
    let mut v: Vec<char> = Vec::new();
    append_str(&mut v, "Basic ");
    append_str(&mut v, encoded);
    string_of(&v)
}

/// The credentials `key:secret` that a token refresh authenticates with.
pub open spec fn credentials(key: Seq<char>, secret: Seq<char>) -> Seq<char> {
    key + ":"@ + secret
}

/// The basic authorization header of a token refresh: the base64 encoding of the UTF-8 bytes
/// of `api_key:app_secret`.
pub fn basic_auth_header(api_key: &String, app_secret: &String) -> (r: String)
    requires
        base64_padded_len(encode_utf8(credentials(api_key@, app_secret@)).len()) <= usize::MAX,
    ensures
        r@ == "Basic "@ + base64_standard(encode_utf8(credentials(api_key@, app_secret@))),
{
    let mut v: Vec<char> = Vec::new();
    append_str(&mut v, api_key.as_str());
    append_str(&mut v, ":");
    append_str(&mut v, app_secret.as_str());
    assert(v@ =~= credentials(api_key@, app_secret@));
    let c = string_of(&v);
    let bytes = c.as_str().as_bytes();
    let encoded = encode_base64(bytes);
    basic_auth_value(encoded.as_str())
}

/// The value of the authorization header of a data request.
pub fn bearer_auth_value(access_token: &str) -> (r: String)
    ensures
        r@ == "Bearer "@ + access_token@,
{
    let mut v: Vec<char> = Vec::new();
    append_str(&mut v, "Bearer ");
    append_str(&mut v, access_token);
    string_of(&v)
}

/// The address of the Schwab market data API.
pub open spec fn market_data() -> Seq<char> {
    "https://api.schwabapi.com/marketdata/v1/"@
}

/// The symbols, joined by commas.
pub open spec fn symbol_list(symbols: Seq<String>) -> Seq<char> {
    join_with(symbols.map_values(|x: String| x@), ","@)
}

/// The request for quotes of `symbols`.
pub fn quotes_url(symbols: &Vec<String>) -> (r: String)
    ensures
        r@ == market_data() + "quotes?symbols="@ + symbol_list(symbols@),
{
    let mut v: Vec<char> = Vec::new();
    append_str(&mut v, "https://api.schwabapi.com/marketdata/v1/");
    append_str(&mut v, "quotes?symbols=");
    append_joined(&mut v, symbols, ",");
    string_of(&v)
}

/// The request for quotes of `symbols` with their fundamental fields.
pub fn enhanced_quotes_url(symbols: &Vec<String>) -> (r: String)
    ensures
        r@ == market_data() + "quotes?symbols="@ + symbol_list(symbols@)
            + "&fields=quote,fundamental"@,
{
    let mut v: Vec<char> = Vec::new();
    append_str(&mut v, "https://api.schwabapi.com/marketdata/v1/");
    append_str(&mut v, "quotes?symbols=");
    append_joined(&mut v, symbols, ",");
    append_str(&mut v, "&fields=quote,fundamental");
    string_of(&v)
}

/// The request for the fundamentals of `symbol`.
pub fn fundamentals_url(symbol: &str) -> (r: String)
    ensures
        r@ == market_data() + "instruments?symbol="@ + symbol@ + "&projection=fundamental"@,
{
    let mut v: Vec<char> = Vec::new();
    append_str(&mut v, "https://api.schwabapi.com/marketdata/v1/");
    append_str(&mut v, "instruments?symbol=");
    append_str(&mut v, symbol);
    append_str(&mut v, "&projection=fundamental");
    string_of(&v)
}

/// The request for the instrument of `symbol`.
pub fn instrument_url(symbol: &str) -> (r: String)
    ensures
        r@ == market_data() + "instruments?symbol="@ + symbol@ + "&projection=symbol-search"@,
{
    let mut v: Vec<char> = Vec::new();
    append_str(&mut v, "https://api.schwabapi.com/marketdata/v1/");
    append_str(&mut v, "instruments?symbol=");
    append_str(&mut v, symbol);
    append_str(&mut v, "&projection=symbol-search");
    string_of(&v)
}

/// The request for today's hours of `market`.
pub fn market_hours_url(market: &str) -> (r: String)
    ensures
        r@ == market_data() + "markets/"@ + market@,
{
    let mut v: Vec<char> = Vec::new();
    append_str(&mut v, "https://api.schwabapi.com/marketdata/v1/");
    append_str(&mut v, "markets/");
    append_str(&mut v, market);
    string_of(&v)
}

/// The request for the hours of `market` on `date`.
pub fn market_hours_for_date_url(market: &str, date: &str) -> (r: String)
    ensures
        r@ == market_data() + "markets?markets="@ + market@ + "&date="@ + date@,
{
    let mut v: Vec<char> = Vec::new();
    append_str(&mut v, "https://api.schwabapi.com/marketdata/v1/");
    append_str(&mut v, "markets?markets=");
    append_str(&mut v, market);
    append_str(&mut v, "&date=");
    append_str(&mut v, date);
    string_of(&v)
}

/// The request for the daily prices of `symbol` between two instants (milliseconds of Unix
/// time).
pub fn price_history_url(symbol: &str, from_ms: i64, to_ms: i64) -> (r: String)
    ensures
        r@ == market_data() + "pricehistory?symbol="@ + symbol@
            + "&periodType=year&frequencyType=daily&frequency=1&startDate="@ + signed_decimal(
            from_ms as int,
        ) + "&endDate="@ + signed_decimal(to_ms as int),
{
    let mut v: Vec<char> = Vec::new();
    append_str(&mut v, "https://api.schwabapi.com/marketdata/v1/");
    append_str(&mut v, "pricehistory?symbol=");
    append_str(&mut v, symbol);
    append_str(&mut v, "&periodType=year&frequencyType=daily&frequency=1&startDate=");
    append_chars(&mut v, &zero_padded_chars(from_ms, 0));
    append_str(&mut v, "&endDate=");
    append_chars(&mut v, &zero_padded_chars(to_ms, 0));
    string_of(&v)
}

/// Tokens just refreshed at `now` are used as they are by a request at `now` exactly when the
/// service granted them more than six minutes.
pub proof fn lemma_refreshed_tokens_fresh(now: i128, expires_in: i64)
    requires
        i128::MIN <= now + (expires_in - 60) * NANOS_PER_SECOND <= i128::MAX,
    ensures
        fresh_at((now + (expires_in - 60) * NANOS_PER_SECOND) as i128, now) <==> expires_in > 360,
{
}

} // verus!
