//! SEC Central Index Keys: reading them from search pages and ticker files, formatting them,
//! and matching them to the companies of the S&P 500.
use vstd::prelude::*;
use crate::text::{
    append_chars, char_is_ascii_digit, chars_of, decimal_chars, find, find_chars, is_digit, occurs_at,
    pad_left, pad_left_chars, replace_all, string_of, sub_vec, without, zero_padded, zero_padded_chars,
};

verus! {

/// The ASCII digits of `s`, in order.
pub open spec fn digits_in(s: Seq<char>) -> Seq<char>
    decreases s.len(),
{
    if s.len() == 0 {
        Seq::empty()
    } else if is_digit(s.last()) {
        digits_in(s.drop_last()).push(s.last())
    } else {
        digits_in(s.drop_last())
    }
}

/// The CIK in a search result page: the digits between the first `CIK=` and the next `&`,
/// when there are four to ten of them, padded with zeros to ten.
pub open spec fn cik_from_html(s: Seq<char>) -> Option<Seq<char>> {
    match find(s, seq!['C', 'I', 'K', '=']) {
        Some(a) => {
            let after = s.skip(a + 4);
            match find(after, seq!['&']) {
                Some(e) => {
                    let d = digits_in(after.take(e));
                    if 4 <= d.len() <= 10 {
                        Some(pad_left(d, '0', 10))
                    } else {
                        None
                    }
                },
                None => None,
            }
        },
        None => None,
    }
}

/// The ASCII digits of `s[lo..hi]`.
fn digits_between(s: &Vec<char>, lo: usize, hi: usize) -> (r: Vec<char>)
    requires
        lo <= hi <= s@.len(),
    ensures
        r@ == digits_in(s@.subrange(lo as int, hi as int)),
{
    let mut r: Vec<char> = Vec::new();
    let mut k = lo;
    assert(s@.subrange(lo as int, lo as int) =~= Seq::<char>::empty());
    while k < hi
        invariant
            lo <= k <= hi <= s@.len(),
            r@ == digits_in(s@.subrange(lo as int, k as int)),
        decreases hi - k,
    {
        assert(s@.subrange(lo as int, k + 1).drop_last() =~= s@.subrange(lo as int, k as int));
        if char_is_ascii_digit(s[k]) {
            r.push(s[k]);
        }
        k = k + 1;
    }
    r
}

/// The CIK in a search result page, padded with zeros to ten digits, if the page names one
/// with four to ten digits.
pub fn extract_cik_from_html(html: &str) -> (r: Option<String>)
    ensures
        match r {
            Some(c) => cik_from_html(html@) == Some(c@),
            None => cik_from_html(html@) is None,
        },
{
    let s = chars_of(html);
    let mut marker: Vec<char> = Vec::new();
    marker.push('C');
    marker.push('I');
    marker.push('K');
    marker.push('=');
    assert(marker@ =~= seq!['C', 'I', 'K', '=']);
    let mut amp: Vec<char> = Vec::new();
    amp.push('&');
    assert(amp@ =~= seq!['&']);
    match find_chars(&s, &marker) {
        Some(a) => {
            assert(occurs_at(s@, marker@, a as int) && marker@.len() == 4);
            assert(a + 4 <= s.len());
            let after = sub_vec(&s, a + 4, s.len());
            assert(after@ =~= s@.skip(a + 4));
            match find_chars(&after, &amp) {
                Some(e) => {
                    assert(after@.subrange(0, e as int) =~= after@.take(e as int));
                    let d = digits_between(&after, 0, e);
                    if d.len() >= 4 && d.len() <= 10 {
                        let padded = pad_left_chars(&d, '0', 10);
                        Some(string_of(&padded))
                    } else {
                        None
                    }
                },
                None => None,
            }
        },
        None => None,
    }
}

/// `cik` padded on the left with zeros to ten characters (`{:0>10}`).
pub fn pad_cik(cik: &str) -> (r: String)
    ensures
        r@ == pad_left(cik@, '0', 10),
{
    let c = chars_of(cik);
    let p = pad_left_chars(&c, '0', 10);
    string_of(&p)
}

/// A CIK number as ten digits with leading zeros (`{:010}`).
pub fn format_cik(cik: i64) -> (r: String)
    ensures
        r@ == zero_padded(cik as int, 10),
{
    let c = zero_padded_chars(cik, 10);
    string_of(&c)
}

/// A company name without the suffixes ` Inc.`, ` Corp.`, ` Company` and ` Ltd.` (each
/// removed wherever it occurs, in that order).
pub open spec fn plain_company_name(name: Seq<char>) -> Seq<char> {
    let e = Seq::<char>::empty();
    replace_all(
        replace_all(replace_all(replace_all(name, " Inc."@, e), " Corp."@, e), " Company"@, e),
        " Ltd."@,
        e,
    )
}

/// The terms a company's CIK is searched by, in order: its symbol, its name, and its name
/// without the common company suffixes.
pub fn cik_search_terms(symbol: &str, company_name: &str) -> (r: Vec<String>)
    ensures
        r@.len() == 3,
        r@[0]@ == symbol@,
        r@[1]@ == company_name@,
        r@[2]@ == plain_company_name(company_name@),
{
    proof {
        reveal_strlit(" Inc.");
        reveal_strlit(" Corp.");
        reveal_strlit(" Company");
        reveal_strlit(" Ltd.");
    }
    let a = without(company_name, " Inc.");
    let b = without(a.as_str(), " Corp.");
    let c = without(b.as_str(), " Company");
    let d = without(c.as_str(), " Ltd.");
    let mut r: Vec<String> = Vec::new();
    r.push(symbol.to_owned());
    r.push(company_name.to_owned());
    r.push(d);
    r
}

/// The CIK that a search reply gives: the CIK of the first company of a JSON reply, padded with
/// zeros to ten characters, where the reply has one; else the CIK in the reply as a result page.
pub fn search_result_cik(first_company_cik: Option<&str>, reply: &str) -> (r: Option<String>)
    ensures
        match first_company_cik {
            Some(c) => r matches Some(x) && x@ == pad_left(c@, '0', 10),
            None => match r {
                Some(x) => cik_from_html(reply@) == Some(x@),
                None => cik_from_html(reply@) is None,
            },
        },
{
    match first_company_cik {
        Some(c) => Some(pad_cik(c)),
        None => extract_cik_from_html(reply),
    }
}

/// One row of the SEC company tickers file, as far as the matching reads it: the CIK number
/// and the ticker, where the row holds them with those types.
#[derive(Clone, Debug)]
pub struct SecTickerEntry {
    pub cik: Option<i64>,
    pub ticker: Option<String>,
}

/// The CIK of an S&P 500 company and where its company facts file lies.
#[derive(Clone, Debug)]
pub struct CikMapping {
    pub cik: String,
    pub stock_id: i64,
    pub symbol: String,
    pub company_name: String,
    pub edgar_file_path: String,
}

/// A mapping as plain values: CIK, stock id, symbol, company name, file path.
pub open spec fn mapping_view(m: CikMapping) -> (Seq<char>, i64, Seq<char>, Seq<char>, Seq<char>) {
    (m.cik@, m.stock_id, m.symbol@, m.company_name@, m.edgar_file_path@)
}

/// The views of a list of mappings.
pub open spec fn mappings_view(v: Seq<CikMapping>) -> Seq<(Seq<char>, i64, Seq<char>, Seq<char>, Seq<char>)> {
    v.map_values(|m: CikMapping| mapping_view(m))
}

/// The id and company name of the stock with symbol `sym`: those of the last row for it, as a
/// map filled from the rows in order keeps them.
pub open spec fn stock_for(stocks: Seq<(i64, String, String)>, sym: Seq<char>) -> Option<(i64, Seq<char>)>
    decreases stocks.len(),
{
    if stocks.len() == 0 {
        None
    } else if stocks.last().1@ == sym {
        Some((stocks.last().0, stocks.last().2@))
    } else {
        stock_for(stocks.drop_last(), sym)
    }
}

/// The path of the company facts file of `cik` in the directory `dir`.
pub open spec fn facts_path(dir: Seq<char>, cik: i64) -> Seq<char> {
    dir + seq!['C', 'I', 'K'] + zero_padded(cik as int, 10) + seq!['.', 'j', 's', 'o', 'n']
}

/// The mappings that the ticker rows `entries` give for the stocks `stocks`: in the order of the
/// rows, one for each row with a CIK and a ticker whose ticker is a stock's symbol and whose CIK
/// no earlier mapping has.
pub open spec fn cik_mappings(
    entries: Seq<SecTickerEntry>,
    stocks: Seq<(i64, String, String)>,
    dir: Seq<char>,
) -> Seq<(Seq<char>, i64, Seq<char>, Seq<char>, Seq<char>)>
    decreases entries.len(),
{
    if entries.len() == 0 {
        Seq::empty()
    } else {
        let prev = cik_mappings(entries.drop_last(), stocks, dir);
        let e = entries.last();
        match (e.cik, e.ticker) {
            (Some(c), Some(t)) => {
                let cs = zero_padded(c as int, 0);
                if exists|k: int| 0 <= k < prev.len() && (#[trigger] prev[k]).0 == cs {
                    prev
                } else {
                    match stock_for(stocks, t@) {
                        Some((id, name)) => prev.push((cs, id, t@, name, facts_path(dir, c))),
                        None => prev,
                    }
                }
            },
            _ => prev,
        }
    }
}

/// The stock with symbol `sym`, from the last row for it.
fn stock_for_exec(stocks: &Vec<(i64, String, String)>, sym: &String) -> (r: Option<(i64, String)>)
    ensures
        match r {
            Some((id, name)) => stock_for(stocks@, sym@) == Some((id, name@)),
            None => stock_for(stocks@, sym@) is None,
        },
{
    let mut k = stocks.len();
    assert(stocks@.take(k as int) =~= stocks@);
    while k > 0
        invariant
            k <= stocks@.len(),
            stock_for(stocks@, sym@) == stock_for(stocks@.take(k as int), sym@),
        decreases k,
    {
        assert(stocks@.take(k as int).drop_last() =~= stocks@.take(k - 1));
        if stocks[k - 1].1 == *sym {
            return Some((stocks[k - 1].0, stocks[k - 1].2.clone()));
        }
        k = k - 1;
    }
    None
}

/// Whether some mapping of `ms` has the CIK `cik`.
fn has_cik(ms: &Vec<CikMapping>, cik: &String) -> (r: bool)
    ensures
        r == exists|k: int| 0 <= k < ms@.len() && (#[trigger] mappings_view(ms@)[k]).0 == cik@,
{
    let mut k: usize = 0;
    while k < ms.len()
        invariant
            k <= ms@.len(),
            forall|m: int| 0 <= m < k ==> (#[trigger] mappings_view(ms@)[m]).0 != cik@,
        decreases ms@.len() - k,
    {
        assert(mappings_view(ms@)[k as int] == mapping_view(ms@[k as int]));
        if ms[k].cik == *cik {
            return true;
        }
        k = k + 1;
    }
    false
}

/// Matches the rows of the SEC company tickers file to the stocks `stocks` (id, symbol, company
/// name): each CIK is mapped once, to the first row whose ticker is a stock's symbol, with the
/// path of its company facts file in `companyfacts_dir`.
pub fn build_cik_mappings(
    entries: &Vec<SecTickerEntry>,
    stocks: &Vec<(i64, String, String)>,
    companyfacts_dir: &str,
) -> (r: Vec<CikMapping>)
    ensures
        mappings_view(r@) == cik_mappings(entries@, stocks@, companyfacts_dir@),
{
    let dir = chars_of(companyfacts_dir);
    let mut r: Vec<CikMapping> = Vec::new();
    let mut i: usize = 0;
    assert(entries@.take(0) =~= Seq::<SecTickerEntry>::empty());
    assert(mappings_view(r@) =~= Seq::empty());
    while i < entries.len()
        invariant
            i <= entries@.len(),
            dir@ == companyfacts_dir@,
            mappings_view(r@) == cik_mappings(entries@.take(i as int), stocks@, dir@),
        decreases entries@.len() - i,
    {
        assert(entries@.take(i + 1).drop_last() =~= entries@.take(i as int));
        let e = &entries[i];
        if let Some(c) = e.cik {
            if let Some(t) = &e.ticker {
                let cs = string_of(&zero_padded_chars(c, 0));
                if !has_cik(&r, &cs) {
                    if let Some((id, name)) = stock_for_exec(stocks, t) {
                        let mut path = dir.clone();
                        append_chars(&mut path, &vec!['C', 'I', 'K']);
                        append_chars(&mut path, &zero_padded_chars(c, 10));
                        append_chars(&mut path, &vec!['.', 'j', 's', 'o', 'n']);
                        let m = CikMapping {
                            cik: cs,
                            stock_id: id,
                            symbol: t.clone(),
                            company_name: name,
                            edgar_file_path: string_of(&path),
                        };
                        let ghost old_r = r@;
                        r.push(m);
                        assert(mappings_view(r@) =~= mappings_view(old_r).push(mapping_view(m)));
                    }
                }
            }
        }
        i = i + 1;
    }
    assert(entries@.take(entries@.len() as int) =~= entries@);
    r
}

/// Each CIK is mapped at most once, and every mapping names a stock of the list, with the
/// id and company name that the list gives for its symbol.
pub proof fn lemma_cik_mappings_unique_and_matched(
    entries: Seq<SecTickerEntry>,
    stocks: Seq<(i64, String, String)>,
    dir: Seq<char>,
)
    ensures
        forall|i: int, j: int|
            0 <= i < j < cik_mappings(entries, stocks, dir).len() ==> (#[trigger] cik_mappings(
                entries,
                stocks,
                dir,
            )[i]).0 != (#[trigger] cik_mappings(entries, stocks, dir)[j]).0,
        forall|i: int|
            0 <= i < cik_mappings(entries, stocks, dir).len() ==> stock_for(
                stocks,
                (#[trigger] cik_mappings(entries, stocks, dir)[i]).2,
            ) == Some(
                (
                    cik_mappings(entries, stocks, dir)[i].1,
                    cik_mappings(entries, stocks, dir)[i].3,
                ),
            ),
    decreases entries.len(),
{
    if entries.len() > 0 {
        lemma_cik_mappings_unique_and_matched(entries.drop_last(), stocks, dir);
    }
}

/// The value of the decimal digits `s` (all of which are digits).
pub open spec fn digits_value(s: Seq<char>) -> nat
    decreases s.len(),
{
    if s.len() == 0 {
        0
    } else {
        digits_value(s.drop_last()) * 10 + ((s.last() as u32) - ('0' as u32)) as nat
    }
}

/// `s` without a leading `+`.
pub open spec fn unsigned_part(s: Seq<char>) -> Seq<char> {
    if s.len() > 0 && s[0] == '+' {
        s.drop_first()
    } else {
        s
    }
}

/// Whether every character of `s` is a decimal digit.
pub open spec fn all_digits(s: Seq<char>) -> bool {
    forall|i: int| 0 <= i < s.len() ==> is_digit(#[trigger] s[i])
}

/// The number that `u64::from_str` reads from `s`: an optional `+` and at least one decimal
/// digit, of a value that fits; none otherwise.
pub open spec fn parsed_u64(s: Seq<char>) -> Option<u64> {
    let d = unsigned_part(s);
    if d.len() > 0 && all_digits(d) && digits_value(d) <= u64::MAX {
        Some(digits_value(d) as u64)
    } else {
        None
    }
}

/// Reads a `u64` from `s` as `u64::from_str` does.
pub fn parse_u64(s: &str) -> (r: Option<u64>)
    ensures
        r == parsed_u64(s@),
{
    let c = chars_of(s);
    let start: usize = if c.len() > 0 && c[0] == '+' {
        1
    } else {
        0
    };
    let ghost d = unsigned_part(c@);
    assert(d =~= c@.subrange(start as int, c@.len() as int));
    if start == c.len() {
        return None;
    }
    let mut v: u64 = 0;
    let mut k = start;
    while k < c.len()
        invariant
            start <= k <= c@.len(),
            c@ == s@,
            d == unsigned_part(s@),
            d == c@.subrange(start as int, c@.len() as int),
            forall|i: int| start <= i < k ==> is_digit(#[trigger] c@[i]),
            v == digits_value(c@.subrange(start as int, k as int)),
        decreases c@.len() - k,
    {
        let ch = c[k];
        if !char_is_ascii_digit(ch) {
            proof {
                assert(d[k - start] == c@[k as int]);
                assert(!is_digit(d[k - start]));
                assert(!all_digits(d));
            }
            return None;
        }
        let digit = (ch as u32 - '0' as u32) as u64;
        assert(c@.subrange(start as int, k + 1).drop_last() =~= c@.subrange(start as int, k as int));
        if v > (u64::MAX - digit) / 10 {
            proof {
                assert(v * 10 + digit > u64::MAX) by (nonlinear_arith)
                    requires
                        v > (u64::MAX - digit) / 10,
                        digit <= 9,
                ;
                assert(d[k - start] == c@[k as int]);
                assert(digits_value(c@.subrange(start as int, k + 1)) == v * 10 + digit);
                if all_digits(d) {
                    lemma_digits_value_prefix(d, (k + 1 - start) as int);
                    assert(c@.subrange(start as int, k + 1) =~= d.take((k + 1 - start) as int));
                }
            }
            return None;
        }
        v = v * 10 + digit;
        k = k + 1;
    }
    assert(c@.subrange(start as int, c@.len() as int) =~= d);
    assert forall|i: int| 0 <= i < d.len() implies is_digit(#[trigger] d[i]) by {
        assert(d[i] == c@[start + i]);
    }
    assert(all_digits(d));
    Some(v)
}

/// The value of a prefix of digits is at most that of all the digits.
proof fn lemma_digits_value_prefix(d: Seq<char>, n: int)
    requires
        0 <= n <= d.len(),
        forall|i: int| 0 <= i < d.len() ==> is_digit(#[trigger] d[i]),
    ensures
        digits_value(d.take(n)) <= digits_value(d),
    decreases d.len() - n,
{
    if n < d.len() {
        lemma_digits_value_prefix(d, n + 1);
        assert(d.take(n + 1).drop_last() =~= d.take(n));
        assert(is_digit(d[n]));
    } else {
        assert(d.take(n) =~= d);
    }
}

/// The ten-digit CIK of an SEC tickers entry: from its text (read as a number, zero where it is
/// not one) or else from its number; none where it has neither.
pub open spec fn sec_cik_of(cik_text: Option<Seq<char>>, cik_number: Option<u64>) -> Option<Seq<char>> {
    match cik_text {
        Some(t) => Some(
            zero_padded(
                match parsed_u64(t) {
                    Some(n) => n as int,
                    None => 0,
                },
                10,
            ),
        ),
        None => match cik_number {
            Some(n) => Some(zero_padded(n as int, 10)),
            None => None,
        },
    }
}

/// The ten-digit CIK of an SEC tickers entry.
pub fn sec_cik(cik_text: Option<&str>, cik_number: Option<u64>) -> (r: Option<String>)
    ensures
        match r {
            Some(c) => sec_cik_of(
                match cik_text {
                    Some(t) => Some(t@),
                    None => None,
                },
                cik_number,
            ) == Some(c@),
            None => sec_cik_of(
                match cik_text {
                    Some(t) => Some(t@),
                    None => None,
                },
                cik_number,
            ) is None,
        },
{
    match cik_text {
        Some(t) => {
            let n = match parse_u64(t) {
                Some(n) => n,
                None => 0,
            };
            Some(string_of(&unsigned_padded(n, 10)))
        },
        None => match cik_number {
            Some(n) => Some(string_of(&unsigned_padded(n, 10))),
            None => None,
        },
    }
}

/// The decimal text of `n` with zeros to at least `width` characters.
fn unsigned_padded(n: u64, width: usize) -> (r: Vec<char>)
    ensures
        r@ == zero_padded(n as int, width as nat),
{
    let digits = decimal_chars(n);
    pad_left_chars(&digits, '0', width)
}

/// The CIK that the SEC gives for `symbol`: that of the last entry for it.
pub open spec fn sec_cik_for(sec: Seq<(String, String)>, symbol: Seq<char>) -> Option<Seq<char>>
    decreases sec.len(),
{
    if sec.len() == 0 {
        None
    } else if sec.last().0@ == symbol {
        Some(sec.last().1@)
    } else {
        sec_cik_for(sec.drop_last(), symbol)
    }
}

/// The result of comparing the stored CIKs with the SEC's.
#[derive(Debug, Clone)]
pub struct CikAudit {
    pub correct_count: usize,
    pub incorrect_count: usize,
    pub not_found_count: usize,
    /// The stock id and the SEC's CIK of each stock whose stored CIK differs.
    pub corrections: Vec<(i64, String)>,
}

/// The audit of the stocks `stocks` (id, symbol, stored CIK) against the SEC's CIKs `sec`
/// (ticker, CIK): counts and corrections, in the order of the stocks. A stock without a stored
/// CIK counts as having an empty one.
pub open spec fn audit(stocks: Seq<(i64, String, Option<String>)>, sec: Seq<(String, String)>) -> (nat, nat, nat, Seq<(i64, Seq<char>)>)
    decreases stocks.len(),
{
    if stocks.len() == 0 {
        (0, 0, 0, Seq::empty())
    } else {
        let (c, i, n, fixes) = audit(stocks.drop_last(), sec);
        let st = stocks.last();
        let ours = match st.2 {
            Some(x) => x@,
            None => Seq::empty(),
        };
        match sec_cik_for(sec, st.1@) {
            Some(theirs) => if ours == theirs {
                (c + 1, i, n, fixes)
            } else {
                (c, i + 1, n, fixes.push((st.0, theirs)))
            },
            None => (c, i, n + 1, fixes),
        }
    }
}

/// The SEC's CIK for `symbol`.
fn sec_cik_for_exec(sec: &Vec<(String, String)>, symbol: &String) -> (r: Option<String>)
    ensures
        match r {
            Some(c) => sec_cik_for(sec@, symbol@) == Some(c@),
            None => sec_cik_for(sec@, symbol@) is None,
        },
{
    let mut k = sec.len();
    assert(sec@.take(k as int) =~= sec@);
    while k > 0
        invariant
            k <= sec@.len(),
            sec_cik_for(sec@, symbol@) == sec_cik_for(sec@.take(k as int), symbol@),
        decreases k,
    {
        assert(sec@.take(k as int).drop_last() =~= sec@.take(k - 1));
        if sec[k - 1].0 == *symbol {
            return Some(sec[k - 1].1.clone());
        }
        k = k - 1;
    }
    None
}

/// Compares the stored CIK of each stock (id, symbol, stored CIK) with the SEC's CIK for its
/// symbol (`sec`: ticker and CIK, a later entry for a ticker replacing an earlier one).
pub fn audit_ciks(stocks: &Vec<(i64, String, Option<String>)>, sec: &Vec<(String, String)>) -> (r: CikAudit)
    requires
        stocks@.len() <= usize::MAX,
    ensures
        ({
            let (c, i, n, fixes) = audit(stocks@, sec@);
            &&& r.correct_count == c
            &&& r.incorrect_count == i
            &&& r.not_found_count == n
            &&& r.corrections@.map_values(|x: (i64, String)| (x.0, x.1@)) == fixes
        }),
{
    let mut correct: usize = 0;
    let mut incorrect: usize = 0;
    let mut not_found: usize = 0;
    let mut fixes: Vec<(i64, String)> = Vec::new();
    let mut k: usize = 0;
    assert(stocks@.take(0) =~= Seq::<(i64, String, Option<String>)>::empty());
    assert(fixes@.map_values(|x: (i64, String)| (x.0, x.1@)) =~= Seq::<(i64, Seq<char>)>::empty());
    while k < stocks.len()
        invariant
            k <= stocks@.len(),
            ({
                let (c, i, n, f) = audit(stocks@.take(k as int), sec@);
                &&& correct == c
                &&& incorrect == i
                &&& not_found == n
                &&& fixes@.map_values(|x: (i64, String)| (x.0, x.1@)) == f
                &&& c + i + n == k
            }),
        decreases stocks@.len() - k,
    {
        assert(stocks@.take(k + 1).drop_last() =~= stocks@.take(k as int));
        let st = &stocks[k];
        let ours = match &st.2 {
            Some(x) => x.clone(),
            None => String::new(),
        };
        match sec_cik_for_exec(sec, &st.1) {
            Some(theirs) => {
                if ours == theirs {
                    correct = correct + 1;
                } else {
                    incorrect = incorrect + 1;
                    let ghost before = fixes@.map_values(|x: (i64, String)| (x.0, x.1@));
                    fixes.push((st.0, theirs));
                    assert(fixes@.map_values(|x: (i64, String)| (x.0, x.1@)) =~= before.push(
                        (st.0, theirs@),
                    ));
                }
            },
            None => {
                not_found = not_found + 1;
            },
        }
        k = k + 1;
    }
    assert(stocks@.take(stocks@.len() as int) =~= stocks@);
    CikAudit {
        correct_count: correct,
        incorrect_count: incorrect,
        not_found_count: not_found,
        corrections: fixes,
    }
}

} // verus!
