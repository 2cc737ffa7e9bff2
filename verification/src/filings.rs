//! SEC filing metadata of stored financial statements: which filing reported a statement.
use vstd::prelude::*;
use crate::dates::{check_ymd_date, ymd_date_error};
use crate::query::texts;
use crate::text::{
    append_str, chars_lt, chars_of, lemma_str_lt_total, lemma_str_lt_transitive, str_lt, string_of,
    views,
};

verus! {

/// The recent filings of a company, as parallel lists.
#[derive(Debug, Clone)]
pub struct FilingData {
    pub filing_dates: Vec<String>,
    pub forms: Vec<String>,
    pub report_dates: Vec<String>,
    pub accession_numbers: Vec<String>,
}

/// The filing that reported a statement.
#[derive(Debug, Clone)]
pub struct FilingMetadata {
    pub filed_date: String,
    pub accession_number: String,
    pub form_type: String,
}

/// A filing as plain values: filed date, accession number, form.
pub open spec fn metadata_view(m: FilingMetadata) -> (Seq<char>, Seq<char>, Seq<char>) {
    (m.filed_date@, m.accession_number@, m.form_type@)
}

/// The first position of `s` holding `x`, if any.
pub open spec fn position_of(s: Seq<String>, x: Seq<char>) -> Option<int>
    decreases s.len(),
{
    if s.len() == 0 {
        None
    } else if s[0]@ == x {
        Some(0)
    } else {
        match position_of(s.drop_first(), x) {
            Some(i) => Some(i + 1),
            None => None,
        }
    }
}

/// The text at position `i` of `s`, or an empty text where there is none.
pub open spec fn text_or_empty(s: Seq<String>, i: int) -> Seq<char> {
    if 0 <= i < s.len() {
        s[i]@
    } else {
        Seq::empty()
    }
}

/// The filing of the statement for `report_date`: the first filing for that report date, where
/// it is a `10-K` or `10-Q`.
pub open spec fn matching_filing(report_date: Seq<char>, d: FilingData) -> Option<(Seq<char>, Seq<char>, Seq<char>)> {
    match position_of(d.report_dates@, report_date) {
        Some(i) => {
            let form = text_or_empty(d.forms@, i);
            if form == "10-K"@ || form == "10-Q"@ {
                Some((text_or_empty(d.filing_dates@, i), text_or_empty(d.accession_numbers@, i), form))
            } else {
                None
            }
        },
        None => None,
    }
}

/// The text at position `i` of `s`, or an empty text.
fn text_at(s: &Vec<String>, i: usize) -> (r: String)
    ensures
        r@ == text_or_empty(s@, i as int),
{
    if i < s.len() {
        s[i].clone()
    } else {
        String::new()
    }
}

/// The filing of the statement for `report_date` (`YYYY-MM-DD`) among the company's filings.
pub fn find_matching_filing_in_company_facts(report_date: &str, filing_data: &FilingData) -> (r:
    Option<FilingMetadata>)
    ensures
        match r {
            Some(m) => matching_filing(report_date@, *filing_data) == Some(metadata_view(m)),
            None => matching_filing(report_date@, *filing_data) is None,
        },
{
    let rd = report_date.to_owned();
    let dates = &filing_data.report_dates;
    let mut k: usize = 0;
    let ghost target = report_date@;
    assert(dates@.skip(0) =~= dates@);
    while k < dates.len()
        invariant
            k <= dates@.len(),
            rd@ == target,
            target == report_date@,
            dates == &filing_data.report_dates,
            position_of(dates@, target) == match position_of(dates@.skip(k as int), target) {
                Some(i) => Some(i + k),
                None => None,
            },
        decreases dates@.len() - k,
    {
        assert(dates@.skip(k as int).drop_first() =~= dates@.skip(k + 1));
        if dates[k] == rd {
            assert(dates@.skip(k as int)[0] == dates@[k as int]);
            assert(position_of(dates@, target) == Some(k as int));
            let form = text_at(&filing_data.forms, k);
            assert(form@ == text_or_empty(filing_data.forms@, k as int));
            if form == "10-K".to_owned() || form == "10-Q".to_owned() {
                let ghost fd = text_or_empty(filing_data.filing_dates@, k as int);
                let ghost an = text_or_empty(filing_data.accession_numbers@, k as int);
                assert(matching_filing(report_date@, *filing_data) == Some((fd, an, form@)));
                return Some(
                    FilingMetadata {
                        filed_date: text_at(&filing_data.filing_dates, k),
                        accession_number: text_at(&filing_data.accession_numbers, k),
                        form_type: form,
                    },
                );
            }
            assert(matching_filing(report_date@, *filing_data) is None);
            return None;
        }
        k = k + 1;
    }
    None
}

/// The filing of a given form for `report_date` in the submission lists: the first position
/// whose form and report date match, among the positions both lists have, with a filing date
/// that parses and an accession number.
pub open spec fn first_filing_of_form(
    form: Seq<char>,
    report_date: Seq<char>,
    filing_dates: Seq<Option<String>>,
    forms: Seq<Option<String>>,
    report_dates: Seq<Option<String>>,
    accessions: Seq<Option<String>>,
    i: int,
) -> Option<(Seq<char>, Seq<char>, Seq<char>)>
    decreases forms.len() - i,
{
    if i < 0 || i >= forms.len() || i >= report_dates.len() {
        None
    } else {
        let here = match (forms[i], report_dates[i]) {
            (Some(f), Some(r)) => if f@ == form && r@ == report_date {
                if i < filing_dates.len() && i < accessions.len() {
                    match (filing_dates[i], accessions[i]) {
                        (Some(fd), Some(acc)) => if ymd_date_error(fd@) is None {
                            Some((fd@, acc@, form))
                        } else {
                            None
                        },
                        _ => None,
                    }
                } else {
                    None
                }
            } else {
                None
            },
            _ => None,
        };
        match here {
            Some(m) => Some(m),
            None => first_filing_of_form(
                form,
                report_date,
                filing_dates,
                forms,
                report_dates,
                accessions,
                i + 1,
            ),
        }
    }
}

/// The filing of the statement for `report_date` in the submission lists: a `10-K` where one
/// matches, else a `10-Q`.
pub open spec fn matching_submission(
    report_date: Seq<char>,
    filing_dates: Seq<Option<String>>,
    forms: Seq<Option<String>>,
    report_dates: Seq<Option<String>>,
    accessions: Seq<Option<String>>,
) -> Option<(Seq<char>, Seq<char>, Seq<char>)> {
    match first_filing_of_form("10-K"@, report_date, filing_dates, forms, report_dates, accessions, 0) {
        Some(m) => Some(m),
        None => first_filing_of_form(
            "10-Q"@,
            report_date,
            filing_dates,
            forms,
            report_dates,
            accessions,
            0,
        ),
    }
}

/// The filing of one form for `report_date`.
fn find_filing_of_form(
    form: &str,
    report_date: &String,
    filing_dates: &Vec<Option<String>>,
    forms: &Vec<Option<String>>,
    report_dates: &Vec<Option<String>>,
    accession_numbers: &Vec<Option<String>>,
) -> (r: Option<FilingMetadata>)
    ensures
        match r {
            Some(m) => first_filing_of_form(
                form@,
                report_date@,
                filing_dates@,
                forms@,
                report_dates@,
                accession_numbers@,
                0,
            ) == Some(metadata_view(m)),
            None => first_filing_of_form(
                form@,
                report_date@,
                filing_dates@,
                forms@,
                report_dates@,
                accession_numbers@,
                0,
            ) is None,
        },
{
    let f = form.to_owned();
    let mut i: usize = 0;
    while i < forms.len() && i < report_dates.len()
        invariant
            f@ == form@,
            i <= forms@.len(),
            first_filing_of_form(
                form@,
                report_date@,
                filing_dates@,
                forms@,
                report_dates@,
                accession_numbers@,
                0,
            ) == first_filing_of_form(
                form@,
                report_date@,
                filing_dates@,
                forms@,
                report_dates@,
                accession_numbers@,
                i as int,
            ),
        decreases forms@.len() - i,
    {
        if let (Some(fs), Some(rs)) = (&forms[i], &report_dates[i]) {
            if *fs == f && *rs == *report_date {
                if i < filing_dates.len() && i < accession_numbers.len() {
                    if let (Some(fd), Some(acc)) = (&filing_dates[i], &accession_numbers[i]) {
                        if check_ymd_date(fd.as_str()).is_ok() {
                            return Some(
                                FilingMetadata {
                                    filed_date: fd.clone(),
                                    accession_number: acc.clone(),
                                    form_type: f,
                                },
                            );
                        }
                    }
                }
            }
        }
        i = i + 1;
    }
    None
}

/// The filing of the statement for `report_date` (`YYYY-MM-DD`) in the submission lists (each
/// entry where it is text): a `10-K` where one matches, else a `10-Q`.
pub fn find_matching_filing(
    report_date: &String,
    filing_dates: &Vec<Option<String>>,
    forms: &Vec<Option<String>>,
    report_dates: &Vec<Option<String>>,
    accession_numbers: &Vec<Option<String>>,
) -> (r: Option<FilingMetadata>)
    ensures
        match r {
            Some(m) => matching_submission(
                report_date@,
                filing_dates@,
                forms@,
                report_dates@,
                accession_numbers@,
            ) == Some(metadata_view(m)),
            None => matching_submission(
                report_date@,
                filing_dates@,
                forms@,
                report_dates@,
                accession_numbers@,
            ) is None,
        },
{
    match find_filing_of_form("10-K", report_date, filing_dates, forms, report_dates, accession_numbers) {
        Some(m) => Some(m),
        None => find_filing_of_form(
            "10-Q",
            report_date,
            filing_dates,
            forms,
            report_dates,
            accession_numbers,
        ),
    }
}

/// A stored financial statement: the table that holds it, its row, and the date it reports.
#[derive(Debug, Clone)]
pub struct FinancialRecord {
    pub table_name: String,
    pub id: i64,
    pub stock_id: i64,
    /// `YYYY-MM-DD`.
    pub report_date: String,
    pub fiscal_year: Option<i32>,
}

/// The tables that hold financial statements.
pub open spec fn statement_table(t: Seq<char>) -> bool {
    t == "income_statements"@ || t == "balance_sheets"@ || t == "cash_flow_statements"@
}

/// The error for a table that holds no financial statements.
pub open spec fn unknown_table(t: Seq<char>) -> Seq<char> {
    "Unknown table: "@ + t
}

/// Whether `t` names one of the statement tables.
fn is_statement_table(t: &str) -> (r: bool)
    ensures
        r == statement_table(t@),
{
    let s = t.to_owned();
    s == "income_statements".to_owned() || s == "balance_sheets".to_owned() || s
        == "cash_flow_statements".to_owned()
}

/// The statement that stores a filing's date, accession number and form on a row of
/// `table_name`; an error for a table that holds no financial statements.
pub fn metadata_update_sql(table_name: &str) -> (r: Result<String, String>)
    ensures
        statement_table(table_name@) ==> (r matches Ok(q) && q@ == "UPDATE "@ + table_name@
            + " SET filed_date = ?, accession_number = ?, form_type = ? WHERE id = ?"@),
        !statement_table(table_name@) ==> (r matches Err(e) && e@ == unknown_table(table_name@)),
{
    let mut v: Vec<char> = Vec::new();
    if is_statement_table(table_name) {
        append_str(&mut v, "UPDATE ");
        append_str(&mut v, table_name);
        append_str(&mut v, " SET filed_date = ?, accession_number = ?, form_type = ? WHERE id = ?");
        Ok(string_of(&v))
    } else {
        append_str(&mut v, "Unknown table: ");
        append_str(&mut v, table_name);
        Err(string_of(&v))
    }
}

/// The statement that deletes a row of `table_name`; an error for a table that holds no
/// financial statements.
pub fn record_delete_sql(table_name: &str) -> (r: Result<String, String>)
    ensures
        statement_table(table_name@) ==> (r matches Ok(q) && q@ == "DELETE FROM "@ + table_name@
            + " WHERE id = ?"@),
        !statement_table(table_name@) ==> (r matches Err(e) && e@ == unknown_table(table_name@)),
{
    let mut v: Vec<char> = Vec::new();
    if is_statement_table(table_name) {
        append_str(&mut v, "DELETE FROM ");
        append_str(&mut v, table_name);
        append_str(&mut v, " WHERE id = ?");
        Ok(string_of(&v))
    } else {
        append_str(&mut v, "Unknown table: ");
        append_str(&mut v, table_name);
        Err(string_of(&v))
    }
}

/// What becomes of each stored statement of a company: the filing that reported it, to be
/// recorded on its row, or none, and the row is removed.
pub fn plan_metadata_updates(
    records: &Vec<FinancialRecord>,
    filing_dates: &Vec<Option<String>>,
    forms: &Vec<Option<String>>,
    report_dates: &Vec<Option<String>>,
    accession_numbers: &Vec<Option<String>>,
) -> (r: Vec<Option<FilingMetadata>>)
    ensures
        r@.len() == records@.len(),
        forall|i: int|
            0 <= i < r@.len() ==> match #[trigger] r@[i] {
                Some(m) => matching_submission(
                    records@[i].report_date@,
                    filing_dates@,
                    forms@,
                    report_dates@,
                    accession_numbers@,
                ) == Some(metadata_view(m)),
                None => matching_submission(
                    records@[i].report_date@,
                    filing_dates@,
                    forms@,
                    report_dates@,
                    accession_numbers@,
                ) is None,
            },
{
    let mut out: Vec<Option<FilingMetadata>> = Vec::new();
    let mut k: usize = 0;
    while k < records.len()
        invariant
            k <= records@.len(),
            out@.len() == k,
            forall|i: int|
                0 <= i < k ==> match #[trigger] out@[i] {
                    Some(m) => matching_submission(
                        records@[i].report_date@,
                        filing_dates@,
                        forms@,
                        report_dates@,
                        accession_numbers@,
                    ) == Some(metadata_view(m)),
                    None => matching_submission(
                        records@[i].report_date@,
                        filing_dates@,
                        forms@,
                        report_dates@,
                        accession_numbers@,
                    ) is None,
                },
        decreases records@.len() - k,
    {
        let m = find_matching_filing(
            &records[k].report_date,
            filing_dates,
            forms,
            report_dates,
            accession_numbers,
        );
        out.push(m);
        k = k + 1;
    }
    out
}

/// The filing fields of one reported value in a company facts file: the filed date, the form,
/// the end of the period and the accession number, each where the value gives it as text.
#[derive(Debug, Clone)]
pub struct FactFiling {
    pub filed: Option<String>,
    pub form: Option<String>,
    pub end: Option<String>,
    pub accn: Option<String>,
}

/// The field `k` of a reported value: 0 the filed date, 1 the form, 2 the period end, 3 the
/// accession number.
pub open spec fn field_of(p: FactFiling, k: int) -> Option<String> {
    if k == 0 {
        p.filed
    } else if k == 1 {
        p.form
    } else if k == 2 {
        p.end
    } else {
        p.accn
    }
}

/// Whether the reported value `p` gives the text `t` for field `k`.
pub open spec fn gives(p: FactFiling, k: int, t: Seq<char>) -> bool {
    field_of(p, k) matches Some(v) && v@ == t
}

/// The texts that the reported values `ps` give for field `k`.
pub open spec fn field_values(ps: Seq<FactFiling>, k: int) -> Set<Seq<char>> {
    Set::new(|t: Seq<char>| exists|i: int| 0 <= i < ps.len() && #[trigger] gives(ps[i], k, t))
}

/// Whether the texts of `s` are in strictly increasing order, so that none repeats.
pub open spec fn strictly_ascending(s: Seq<Seq<char>>) -> bool {
    forall|i: int, j: int| 0 <= i < j < s.len() ==> str_lt(#[trigger] s[i], #[trigger] s[j])
}

/// Inserts `x` into the strictly ascending `out` where it is not there yet.
fn insert_sorted(out: &mut Vec<Vec<char>>, x: Vec<char>)
    requires
        strictly_ascending(views(old(out)@)),
    ensures
        strictly_ascending(views(final(out)@)),
        views(final(out)@).to_set() == views(old(out)@).to_set().insert(x@),
{
    let ghost o = views(out@);
    let n = out.len();
    let mut j: usize = 0;
    let mut stop = false;
    while !stop && j < n
        invariant
            n == out@.len(),
            o == views(out@),
            j <= n,
            forall|k: int| 0 <= k < j ==> str_lt(#[trigger] o[k], x@),
            stop ==> j < n && !str_lt(o[j as int], x@),
        decreases n - j + if stop {
            0int
        } else {
            1int
        },
    {
        if chars_lt(&out[j], &x) {
            j = j + 1;
        } else {
            stop = true;
        }
    }
    if stop && !chars_lt(&x, &out[j]) {
        proof {
            if o[j as int] != x@ {
                lemma_str_lt_total(o[j as int], x@);
            }
            assert(o.contains(x@));
            assert(o.to_set() =~= o.to_set().insert(x@));
        }
        return;
    }
    let ghost xv = x@;
    out.insert(j, x);
    proof {
        let m = views(out@);
        assert(m =~= o.insert(j as int, xv));
        if stop && o[j as int] != xv {
            lemma_str_lt_total(o[j as int], xv);
        }
        assert forall|a: int, b: int| 0 <= a < b < m.len() implies str_lt(#[trigger] m[a], #[trigger] m[b]) by {
            if b < j {
            } else if b == j {
            } else if a < j {
                assert(m[b] == o[b - 1]);
                assert(str_lt(o[a], o[b - 1]));
            } else if a == j {
                assert(m[b] == o[b - 1]);
                if b - 1 > j {
                    assert(str_lt(o[j as int], o[b - 1]));
                    lemma_str_lt_transitive(xv, o[j as int], o[b - 1]);
                }
            } else {
                assert(m[a] == o[a - 1] && m[b] == o[b - 1]);
            }
        }
        assert forall|t: Seq<char>| #[trigger] m.to_set().contains(t) <==> o.to_set().insert(xv).contains(t) by {
            if m.contains(t) {
                let i = choose|i: int| 0 <= i < m.len() && m[i] == t;
                if i < j {
                    assert(o[i] == t);
                } else if i > j {
                    assert(o[i - 1] == t);
                }
            }
            if o.contains(t) {
                let i = choose|i: int| 0 <= i < o.len() && o[i] == t;
                if i < j {
                    assert(m[i] == t);
                } else {
                    assert(m[i + 1] == t);
                }
            }
            if t == xv {
                assert(m[j as int] == t);
            }
        }
        assert(m.to_set() =~= o.to_set().insert(xv));
    }
}

/// The field values of the first `i + 1` reported values: those of the first `i` and the
/// value's own, where it gives one.
proof fn lemma_field_values_step(ps: Seq<FactFiling>, i: int, k: int)
    requires
        0 <= i < ps.len(),
    ensures
        field_values(ps.take(i + 1), k) == match field_of(ps[i], k) {
            Some(v) => field_values(ps.take(i), k).insert(v@),
            None => field_values(ps.take(i), k),
        },
{
    let a = ps.take(i + 1);
    let b = ps.take(i);
    let rhs = match field_of(ps[i], k) {
        Some(v) => field_values(b, k).insert(v@),
        None => field_values(b, k),
    };
    assert forall|t: Seq<char>| #[trigger] field_values(a, k).contains(t) <==> rhs.contains(t) by {
        if field_values(a, k).contains(t) {
            let m = choose|m: int| 0 <= m < a.len() && #[trigger] gives(a[m], k, t);
            if m < i {
                assert(b[m] == a[m]);
            }
        }
        if field_values(b, k).contains(t) {
            let m = choose|m: int| 0 <= m < b.len() && #[trigger] gives(b[m], k, t);
            assert(a[m] == b[m]);
        }
        assert(a[i] == ps[i]);
        if rhs.contains(t) && !field_values(b, k).contains(t) {
            assert(gives(a[i], k, t));
        }
    }
    assert(field_values(a, k) =~= rhs);
}

/// Inserts the text of `field` into the strictly ascending `out`, where there is one.
fn insert_field(out: &mut Vec<Vec<char>>, field: &Option<String>)
    requires
        strictly_ascending(views(old(out)@)),
    ensures
        strictly_ascending(views(final(out)@)),
        views(final(out)@).to_set() == match *field {
            Some(v) => views(old(out)@).to_set().insert(v@),
            None => views(old(out)@).to_set(),
        },
{
    if let Some(v) = field {
        insert_sorted(out, chars_of(v.as_str()));
    }
}

/// The texts of `v` as strings.
fn strings_of(v: &Vec<Vec<char>>) -> (r: Vec<String>)
    ensures
        texts(r@) == views(v@),
{
    let mut r: Vec<String> = Vec::new();
    let mut k: usize = 0;
    while k < v.len()
        invariant
            k <= v@.len(),
            texts(r@) == views(v@.take(k as int)),
        decreases v@.len() - k,
    {
        let ghost before = texts(r@);
        r.push(string_of(&v[k]));
        assert(texts(r@) =~= before.push(v@[k as int]@));
        assert(views(v@.take(k + 1)) =~= views(v@.take(k as int)).push(v@[k as int]@));
        k = k + 1;
    }
    assert(v@.take(v@.len() as int) =~= v@);
    r
}

/// The filings that the reported values of a company facts file name: its filed dates, forms,
/// period ends and accession numbers, each list sorted and without repeats.
pub fn filing_data_from_facts(points: &Vec<FactFiling>) -> (r: FilingData)
    ensures
        strictly_ascending(texts(r.filing_dates@)),
        texts(r.filing_dates@).to_set() == field_values(points@, 0),
        strictly_ascending(texts(r.forms@)),
        texts(r.forms@).to_set() == field_values(points@, 1),
        strictly_ascending(texts(r.report_dates@)),
        texts(r.report_dates@).to_set() == field_values(points@, 2),
        strictly_ascending(texts(r.accession_numbers@)),
        texts(r.accession_numbers@).to_set() == field_values(points@, 3),
{
    let mut filed: Vec<Vec<char>> = Vec::new();
    let mut forms: Vec<Vec<char>> = Vec::new();
    let mut ends: Vec<Vec<char>> = Vec::new();
    let mut accns: Vec<Vec<char>> = Vec::new();
    let mut i: usize = 0;
    proof {
        assert forall|k: int| 0 <= k < 4 implies field_values(points@.take(0), k) =~= Set::<Seq<char>>::empty() by {}
        assert(views(filed@).to_set() =~= Set::<Seq<char>>::empty());
    }
    while i < points.len()
        invariant
            i <= points@.len(),
            strictly_ascending(views(filed@)),
            strictly_ascending(views(forms@)),
            strictly_ascending(views(ends@)),
            strictly_ascending(views(accns@)),
            views(filed@).to_set() == field_values(points@.take(i as int), 0),
            views(forms@).to_set() == field_values(points@.take(i as int), 1),
            views(ends@).to_set() == field_values(points@.take(i as int), 2),
            views(accns@).to_set() == field_values(points@.take(i as int), 3),
        decreases points@.len() - i,
    {
        let p = &points[i];
        insert_field(&mut filed, &p.filed);
        insert_field(&mut forms, &p.form);
        insert_field(&mut ends, &p.end);
        insert_field(&mut accns, &p.accn);
        proof {
            lemma_field_values_step(points@, i as int, 0);
            lemma_field_values_step(points@, i as int, 1);
            lemma_field_values_step(points@, i as int, 2);
            lemma_field_values_step(points@, i as int, 3);
        }
        i = i + 1;
    }
    assert(points@.take(points@.len() as int) =~= points@);
    FilingData {
        filing_dates: strings_of(&filed),
        forms: strings_of(&forms),
        report_dates: strings_of(&ends),
        accession_numbers: strings_of(&accns),
    }
}

/// `position_of` finds the first position holding `x`.
proof fn lemma_position_of_first(s: Seq<String>, x: Seq<char>, i: int)
    requires
        0 <= i < s.len(),
        s[i]@ == x,
        forall|j: int| 0 <= j < i ==> (#[trigger] s[j])@ != x,
    ensures
        position_of(s, x) == Some(i),
    decreases s.len(),
{
    if i > 0 {
        let t = s.drop_first();
        assert(s[0]@ != x);
        assert forall|j: int| 0 <= j < i - 1 implies (#[trigger] t[j])@ != x by {
            assert(t[j] == s[j + 1]);
            assert(s[j + 1]@ != x);
        }
        lemma_position_of_first(t, x, i - 1);
    }
}

/// `position_of` finds nothing where no position holds `x`.
proof fn lemma_position_of_none(s: Seq<String>, x: Seq<char>)
    requires
        forall|j: int| 0 <= j < s.len() ==> (#[trigger] s[j])@ != x,
    ensures
        position_of(s, x) is None,
    decreases s.len(),
{
    if s.len() > 0 {
        let t = s.drop_first();
        assert(s[0]@ != x);
        assert forall|j: int| 0 <= j < t.len() implies (#[trigger] t[j])@ != x by {
            assert(t[j] == s[j + 1]);
        }
        lemma_position_of_none(t, x);
    }
}

/// A statement reported for `report_date` takes the filing at the first position whose report
/// date it is: where the form there is a `10-K` or a `10-Q`, its filed date, accession number
/// (each empty where its list is shorter) and form; where the form is another, no filing.
pub proof fn lemma_company_facts_filing(report_date: Seq<char>, d: FilingData, i: int)
    requires
        0 <= i < d.report_dates@.len(),
        d.report_dates@[i]@ == report_date,
        forall|j: int| 0 <= j < i ==> (#[trigger] d.report_dates@[j])@ != report_date,
    ensures
        (i < d.forms@.len() && (d.forms@[i]@ == "10-K"@ || d.forms@[i]@ == "10-Q"@)) ==> matching_filing(
            report_date,
            d,
        ) == Some(
            (
                if i < d.filing_dates@.len() {
                    d.filing_dates@[i]@
                } else {
                    Seq::<char>::empty()
                },
                if i < d.accession_numbers@.len() {
                    d.accession_numbers@[i]@
                } else {
                    Seq::<char>::empty()
                },
                d.forms@[i]@,
            ),
        ),
        !(i < d.forms@.len() && (d.forms@[i]@ == "10-K"@ || d.forms@[i]@ == "10-Q"@)) ==> matching_filing(
            report_date,
            d,
        ) is None,
{
    lemma_position_of_first(d.report_dates@, report_date, i);
    reveal_strlit("10-K");
    reveal_strlit("10-Q");
    assert(Seq::<char>::empty().len() != "10-K"@.len());
    assert(Seq::<char>::empty().len() != "10-Q"@.len());
}

/// A statement whose report date no filing reports gets no filing.
pub proof fn lemma_company_facts_no_filing(report_date: Seq<char>, d: FilingData)
    requires
        forall|j: int| 0 <= j < d.report_dates@.len() ==> (#[trigger] d.report_dates@[j])@ != report_date,
    ensures
        matching_filing(report_date, d) is None,
{
    lemma_position_of_none(d.report_dates@, report_date);
}

/// Whether position `i` of the submission lists is a filing of `form` for `report_date`: its
/// form and report date match, and it has a filing date that parses and an accession number.
pub open spec fn submission_at(
    form: Seq<char>,
    report_date: Seq<char>,
    filing_dates: Seq<Option<String>>,
    forms: Seq<Option<String>>,
    report_dates: Seq<Option<String>>,
    accessions: Seq<Option<String>>,
    i: int,
) -> bool {
    &&& 0 <= i < forms.len()
    &&& i < report_dates.len()
    &&& i < filing_dates.len()
    &&& i < accessions.len()
    &&& forms[i] matches Some(f) && f@ == form
    &&& report_dates[i] matches Some(r) && r@ == report_date
    &&& filing_dates[i] matches Some(fd) && ymd_date_error(fd@) is None
    &&& accessions[i] is Some
}

/// The filing of a form for a report date is the one at the first position that is such a
/// filing, with that position's filing date and accession number; there is none where no
/// position is.
pub proof fn lemma_first_filing_of_form_is_first(
    form: Seq<char>,
    report_date: Seq<char>,
    filing_dates: Seq<Option<String>>,
    forms: Seq<Option<String>>,
    report_dates: Seq<Option<String>>,
    accessions: Seq<Option<String>>,
    k: int,
    i: int,
)
    requires
        0 <= k,
        forall|j: int|
            k <= j < i ==> !#[trigger] submission_at(form, report_date, filing_dates, forms, report_dates, accessions, j),
    ensures
        k <= i && submission_at(form, report_date, filing_dates, forms, report_dates, accessions, i)
            ==> first_filing_of_form(form, report_date, filing_dates, forms, report_dates, accessions, k)
            == Some((filing_dates[i]->0@, accessions[i]->0@, form)),
        i >= forms.len() ==> first_filing_of_form(
            form,
            report_date,
            filing_dates,
            forms,
            report_dates,
            accessions,
            k,
        ) is None,
    decreases forms.len() - k,
{
    if k < forms.len() && k < report_dates.len() {
        assert(k < i ==> !submission_at(form, report_date, filing_dates, forms, report_dates, accessions, k));
        if k < i || i >= forms.len() {
            lemma_first_filing_of_form_is_first(form, report_date, filing_dates, forms, report_dates, accessions, k + 1, i);
        }
    }
}

/// A statement gets an annual filing wherever one for its report date is listed: where some
/// position is a `10-K` filing for the report date, the filing found is a `10-K`; where none is,
/// it is the first `10-Q` filing, if any.
pub proof fn lemma_submission_prefers_annual(
    report_date: Seq<char>,
    filing_dates: Seq<Option<String>>,
    forms: Seq<Option<String>>,
    report_dates: Seq<Option<String>>,
    accessions: Seq<Option<String>>,
    i: int,
)
    requires
        submission_at("10-K"@, report_date, filing_dates, forms, report_dates, accessions, i),
    ensures
        matching_submission(report_date, filing_dates, forms, report_dates, accessions) matches Some(m)
            && m.2 == "10-K"@,
{
    let first = choose|j: int|
        #![trigger submission_at("10-K"@, report_date, filing_dates, forms, report_dates, accessions, j)]
        submission_at("10-K"@, report_date, filing_dates, forms, report_dates, accessions, j) && forall|m: int|
            0 <= m < j ==> !#[trigger] submission_at("10-K"@, report_date, filing_dates, forms, report_dates, accessions, m);
    lemma_least_submission("10-K"@, report_date, filing_dates, forms, report_dates, accessions, i);
    lemma_first_filing_of_form_is_first("10-K"@, report_date, filing_dates, forms, report_dates, accessions, 0, first);
}

/// Where some position is a filing of `form`, there is a first one.
proof fn lemma_least_submission(
    form: Seq<char>,
    report_date: Seq<char>,
    filing_dates: Seq<Option<String>>,
    forms: Seq<Option<String>>,
    report_dates: Seq<Option<String>>,
    accessions: Seq<Option<String>>,
    i: int,
)
    requires
        submission_at(form, report_date, filing_dates, forms, report_dates, accessions, i),
    ensures
        exists|j: int|
            #![trigger submission_at(form, report_date, filing_dates, forms, report_dates, accessions, j)]
            submission_at(form, report_date, filing_dates, forms, report_dates, accessions, j) && forall|m: int|
                0 <= m < j ==> !#[trigger] submission_at(form, report_date, filing_dates, forms, report_dates, accessions, m),
    decreases i,
{
    if exists|m: int| 0 <= m < i && #[trigger] submission_at(form, report_date, filing_dates, forms, report_dates, accessions, m) {
        let m = choose|m: int| 0 <= m < i && #[trigger] submission_at(form, report_date, filing_dates, forms, report_dates, accessions, m);
        lemma_least_submission(form, report_date, filing_dates, forms, report_dates, accessions, m);
    } else {
        assert(submission_at(form, report_date, filing_dates, forms, report_dates, accessions, i));
    }
}

} // verus!

