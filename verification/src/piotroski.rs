//! Piotroski F-Score screening: the query that selects the scored stocks and the count of the
//! criteria that a stock meets.
use vstd::prelude::*;
use crate::query::{
    add_condition, in_list, lemma_condition_keeps_fit, lemma_in_list, lemma_select_fits,
    lemma_texts_len, listed, placeholders_fit, push_all, texts,
};
use crate::text::{
    append_chars, append_placeholders, append_str, lemma_qmarks_add, lemma_qmarks_zero_padded,
    qmarks, qmarks_upto, string_of, zero_padded, zero_padded_chars,
};

verus! {

/// The criteria of a Piotroski screening.
#[derive(Debug, Clone)]
pub struct PiotroskilScreeningCriteria {
    pub min_f_score: Option<i32>,
    pub min_data_completeness: Option<i32>,
    pub sectors: Option<Vec<String>>,
    /// Smallest market capitalisation, in whole currency units; the query does not use it.
    pub min_market_cap: Option<i64>,
    pub passes_screening_only: Option<bool>,
}

impl Default for PiotroskilScreeningCriteria {
    /// High-quality stocks only: an F-Score of at least 7, data at least 80% complete, passing
    /// the screening.
    fn default() -> (r: Self)
        ensures
            r.min_f_score == Some(7i32),
            r.min_data_completeness == Some(80i32),
            r.sectors is None,
            r.min_market_cap is None,
            r.passes_screening_only == Some(true),
    {
        PiotroskilScreeningCriteria {
            min_f_score: Some(7),
            min_data_completeness: Some(80),
            sectors: None,
            min_market_cap: None,
            passes_screening_only: Some(true),
        }
    }
}

/// The selection of every scored stock.
pub open spec fn piotroski_select() -> Seq<char> {
    "SELECT
            stock_id,
            symbol,
            sector,
            industry,
            current_net_income,
            f_score_complete,
            data_completeness_score,
            criterion_positive_net_income,
            criterion_positive_operating_cash_flow,
            criterion_improving_roa,
            criterion_cash_flow_quality,
            criterion_decreasing_debt_ratio,
            criterion_improving_current_ratio,
            criterion_no_dilution,
            criterion_improving_net_margin,
            criterion_improving_asset_turnover,
            current_roa,
            current_debt_ratio,
            current_current_ratio,
            current_net_margin,
            current_asset_turnover,
            current_operating_cash_flow,
            pb_ratio
        FROM piotroski_f_score_complete
        WHERE 1=1"@
}

/// The value bound for an integer bound that is given.
pub open spec fn int_bound(o: Option<i32>) -> Seq<Seq<char>> {
    match o {
        Some(m) => seq![zero_padded(m as int, 0)],
        None => Seq::empty(),
    }
}

/// The query of a screening and the values to bind: F-Score and completeness floors where
/// given, only passing stocks where asked, only the listed sectors and tickers where any are
/// listed; best scores first, at most `limit` rows (10 where no limit is given).
pub open spec fn piotroski_query(
    c: PiotroskilScreeningCriteria,
    tickers: Seq<String>,
    limit: Option<i32>,
) -> (Seq<char>, Seq<Seq<char>>) {
    let qb0: (Seq<char>, Seq<Seq<char>>) = (piotroski_select(), Seq::empty());
    let qb1 = add_condition(
        qb0,
        c.min_f_score is Some,
        " AND f_score_complete >= ?"@,
        int_bound(c.min_f_score),
    );
    let qb2 = add_condition(
        qb1,
        c.min_data_completeness is Some,
        " AND data_completeness_score >= ?"@,
        int_bound(c.min_data_completeness),
    );
    let qb3 = add_condition(
        qb2,
        c.passes_screening_only == Some(true),
        " AND passes_screening = 1"@,
        Seq::empty(),
    );
    let sectors = listed(c.sectors);
    let qb4 = add_condition(
        qb3,
        sectors.len() > 0,
        in_list(" AND sector IN ("@, sectors.len()),
        texts(sectors),
    );
    let qb5 = add_condition(
        qb4,
        tickers.len() > 0,
        in_list(" AND symbol IN ("@, tickers.len()),
        texts(tickers),
    );
    let l = match limit {
        Some(n) => n,
        None => 10i32,
    };
    (qb5.0 + " ORDER BY f_score_complete DESC, data_completeness_score DESC"@ + " LIMIT "@
        + zero_padded(l as int, 0), qb5.1)
}

/// The query of a Piotroski screening and the values to bind to it.
pub fn build_piotroski_query(
    criteria: &PiotroskilScreeningCriteria,
    stock_tickers: &Vec<String>,
    limit: Option<i32>,
) -> (r: (String, Vec<String>))
    ensures
        ({
            let (q, b) = piotroski_query(*criteria, stock_tickers@, limit);
            r.0@ == q && texts(r.1@) == b
        }),
{
    let mut v: Vec<char> = Vec::new();
    append_str(
        &mut v,
        "SELECT
            stock_id,
            symbol,
            sector,
            industry,
            current_net_income,
            f_score_complete,
            data_completeness_score,
            criterion_positive_net_income,
            criterion_positive_operating_cash_flow,
            criterion_improving_roa,
            criterion_cash_flow_quality,
            criterion_decreasing_debt_ratio,
            criterion_improving_current_ratio,
            criterion_no_dilution,
            criterion_improving_net_margin,
            criterion_improving_asset_turnover,
            current_roa,
            current_debt_ratio,
            current_current_ratio,
            current_net_margin,
            current_asset_turnover,
            current_operating_cash_flow,
            pb_ratio
        FROM piotroski_f_score_complete
        WHERE 1=1",
    );
    let mut params: Vec<String> = Vec::new();
    let ghost c = *criteria;
    let ghost qb0: (Seq<char>, Seq<Seq<char>>) = (piotroski_select(), Seq::empty());
    assert(texts(params@) =~= qb0.1);
    if let Some(m) = criteria.min_f_score {
        append_str(&mut v, " AND f_score_complete >= ?");
        params.push(string_of(&zero_padded_chars(m as i64, 0)));
    }
    let ghost qb1 = add_condition(
        qb0,
        c.min_f_score is Some,
        " AND f_score_complete >= ?"@,
        int_bound(c.min_f_score),
    );
    assert(v@ == qb1.0 && texts(params@) =~= qb1.1);
    if let Some(m) = criteria.min_data_completeness {
        append_str(&mut v, " AND data_completeness_score >= ?");
        params.push(string_of(&zero_padded_chars(m as i64, 0)));
    }
    let ghost qb2 = add_condition(
        qb1,
        c.min_data_completeness is Some,
        " AND data_completeness_score >= ?"@,
        int_bound(c.min_data_completeness),
    );
    assert(v@ == qb2.0 && texts(params@) =~= qb2.1);
    if criteria.passes_screening_only == Some(true) {
        append_str(&mut v, " AND passes_screening = 1");
    }
    let ghost qb3 = add_condition(
        qb2,
        c.passes_screening_only == Some(true),
        " AND passes_screening = 1"@,
        Seq::empty(),
    );
    assert(v@ == qb3.0 && texts(params@) =~= qb3.1);
    if let Some(sectors) = &criteria.sectors {
        if sectors.len() > 0 {
            append_str(&mut v, " AND sector IN (");
            append_placeholders(&mut v, sectors.len());
            append_str(&mut v, ")");
            push_all(&mut params, sectors);
        }
    }
    let ghost sectors = listed(c.sectors);
    let ghost qb4 = add_condition(
        qb3,
        sectors.len() > 0,
        in_list(" AND sector IN ("@, sectors.len()),
        texts(sectors),
    );
    assert(v@ =~= qb4.0 && texts(params@) =~= qb4.1);
    if stock_tickers.len() > 0 {
        append_str(&mut v, " AND symbol IN (");
        append_placeholders(&mut v, stock_tickers.len());
        append_str(&mut v, ")");
        push_all(&mut params, stock_tickers);
    }
    let ghost qb5 = add_condition(
        qb4,
        stock_tickers@.len() > 0,
        in_list(" AND symbol IN ("@, stock_tickers@.len()),
        texts(stock_tickers@),
    );
    assert(v@ =~= qb5.0 && texts(params@) =~= qb5.1);
    append_str(&mut v, " ORDER BY f_score_complete DESC, data_completeness_score DESC");
    let l = match limit {
        Some(n) => n,
        None => 10,
    };
    append_str(&mut v, " LIMIT ");
    append_chars(&mut v, &zero_padded_chars(l as i64, 0));
    proof {
        let (q, b) = piotroski_query(*criteria, stock_tickers@, limit);
        assert(v@ =~= q);
        assert(texts(params@) =~= b);
    }
    (string_of(&v), params)
}

/// The sum of `s`.
pub open spec fn total(s: Seq<i32>) -> int
    decreases s.len(),
{
    if s.len() == 0 {
        0
    } else {
        total(s.drop_last()) + s.last()
    }
}

/// How many of the nine criteria a stock meets: the sum of its criterion flags.
pub fn criteria_met(scores: &[i32; 9]) -> (r: i32)
    requires
        forall|k: int| 0 <= k <= 9 ==> i32::MIN <= #[trigger] total(scores@.take(k)) <= i32::MAX,
    ensures
        r == total(scores@),
{
    let mut sum: i32 = 0;
    let mut k: usize = 0;
    assert(scores@.take(0) =~= Seq::<i32>::empty());
    while k < 9
        invariant
            k <= 9,
            scores@.len() == 9,
            forall|j: int| 0 <= j <= 9 ==> i32::MIN <= #[trigger] total(scores@.take(j)) <= i32::MAX,
            sum == total(scores@.take(k as int)),
        decreases 9 - k,
    {
        assert(scores@.take(k + 1).drop_last() =~= scores@.take(k as int));
        assert(total(scores@.take(k + 1)) <= i32::MAX);
        sum = sum + scores[k];
        k = k + 1;
    }
    assert(scores@.take(9) =~= scores@);
    sum
}

/// The placeholders in the fixed parts of a Piotroski query.
proof fn lemma_piotroski_fixed_parts()
    ensures
        qmarks(" AND f_score_complete >= ?"@) == 1,
        qmarks(" AND data_completeness_score >= ?"@) == 1,
        qmarks(" AND passes_screening = 1"@) == 0,
        qmarks(" AND sector IN ("@) == 0,
        qmarks(" AND symbol IN ("@) == 0,
        qmarks(" LIMIT "@) == 0,
{
    reveal_strlit(" AND f_score_complete >= ?");
    reveal_strlit(" AND data_completeness_score >= ?");
    reveal_strlit(" AND passes_screening = 1");
    reveal_strlit(" AND sector IN (");
    reveal_strlit(" AND symbol IN (");
    reveal_strlit(" LIMIT ");
    reveal_with_fuel(qmarks_upto, 40);
}

/// The ordering of a Piotroski query holds no placeholder.
proof fn lemma_piotroski_order_part()
    ensures
        qmarks(" ORDER BY f_score_complete DESC, data_completeness_score DESC"@) == 0,
{
    reveal_strlit(" ORDER BY f_score_complete DESC, data_completeness_score DESC");
    reveal_with_fuel(qmarks_upto, 70);
}

/// Every value bound to a Piotroski screening query fills one placeholder: the query is the
/// fixed selection followed by a text with exactly one question mark per bound value.
pub proof fn lemma_piotroski_binds_fill_placeholders(
    c: PiotroskilScreeningCriteria,
    tickers: Seq<String>,
    limit: Option<i32>,
)
    ensures
        placeholders_fit(piotroski_query(c, tickers, limit), piotroski_select()),
{
    lemma_piotroski_fixed_parts();
    lemma_piotroski_order_part();
    let sel = piotroski_select();
    let e: Seq<Seq<char>> = Seq::empty();
    let qb0: (Seq<char>, Seq<Seq<char>>) = (sel, e);
    lemma_select_fits(sel);
    let b1 = int_bound(c.min_f_score);
    let qb1 = add_condition(qb0, c.min_f_score is Some, " AND f_score_complete >= ?"@, b1);
    lemma_condition_keeps_fit(qb0, sel, c.min_f_score is Some, " AND f_score_complete >= ?"@, b1);
    let b2 = int_bound(c.min_data_completeness);
    let qb2 = add_condition(
        qb1,
        c.min_data_completeness is Some,
        " AND data_completeness_score >= ?"@,
        b2,
    );
    lemma_condition_keeps_fit(
        qb1,
        sel,
        c.min_data_completeness is Some,
        " AND data_completeness_score >= ?"@,
        b2,
    );
    let only = c.passes_screening_only == Some(true);
    let qb3 = add_condition(qb2, only, " AND passes_screening = 1"@, e);
    lemma_condition_keeps_fit(qb2, sel, only, " AND passes_screening = 1"@, e);
    let sectors = listed(c.sectors);
    let sc = in_list(" AND sector IN ("@, sectors.len());
    lemma_in_list(" AND sector IN ("@, sectors.len());
    lemma_texts_len(sectors);
    let qb4 = add_condition(qb3, sectors.len() > 0, sc, texts(sectors));
    lemma_condition_keeps_fit(qb3, sel, sectors.len() > 0, sc, texts(sectors));
    let tc = in_list(" AND symbol IN ("@, tickers.len());
    lemma_in_list(" AND symbol IN ("@, tickers.len());
    lemma_texts_len(tickers);
    let qb5 = add_condition(qb4, tickers.len() > 0, tc, texts(tickers));
    lemma_condition_keeps_fit(qb4, sel, tickers.len() > 0, tc, texts(tickers));
    let l = match limit {
        Some(n) => n,
        None => 10i32,
    };
    let order = " ORDER BY f_score_complete DESC, data_completeness_score DESC"@;
    let tail = order + " LIMIT "@ + zero_padded(l as int, 0);
    lemma_qmarks_zero_padded(l as int, 0);
    lemma_qmarks_add(order, " LIMIT "@);
    lemma_qmarks_add(order + " LIMIT "@, zero_padded(l as int, 0));
    lemma_condition_keeps_fit(qb5, sel, true, tail, e);
    assert(qb5.1 + e =~= qb5.1);
    assert(qb5.0 + order + " LIMIT "@ + zero_padded(l as int, 0) =~= qb5.0 + tail);
}

/// Only passing stocks are selected exactly when that is asked for with `Some(true)`: two
/// criteria that differ only in `passes_screening_only`, neither `Some(true)`, give the same
/// query; where only the second is `Some(true)`, its query is the first one with
/// ` AND passes_screening = 1` inserted, and the values bound are the same.
pub proof fn lemma_piotroski_passing_only_filter(
    c1: PiotroskilScreeningCriteria,
    c2: PiotroskilScreeningCriteria,
    tickers: Seq<String>,
    limit: Option<i32>,
)
    requires
        c1.min_f_score == c2.min_f_score,
        c1.min_data_completeness == c2.min_data_completeness,
        c1.sectors == c2.sectors,
    ensures
        c1.passes_screening_only != Some(true) && c2.passes_screening_only != Some(true)
            ==> piotroski_query(c1, tickers, limit) == piotroski_query(c2, tickers, limit),
        c1.passes_screening_only != Some(true) && c2.passes_screening_only == Some(true) ==> {
            let q1 = piotroski_query(c1, tickers, limit);
            let q2 = piotroski_query(c2, tickers, limit);
            &&& q1.1 == q2.1
            &&& exists|a: Seq<char>, b: Seq<char>|
                q1.0 == a + b && #[trigger] q2.0 == a + " AND passes_screening = 1"@ + b
        },
{
    let q1 = piotroski_query(c1, tickers, limit);
    let q2 = piotroski_query(c2, tickers, limit);
    if c1.passes_screening_only != Some(true) && c2.passes_screening_only == Some(true) {
        let qb0: (Seq<char>, Seq<Seq<char>>) = (piotroski_select(), Seq::empty());
        let qb1 = add_condition(
            qb0,
            c1.min_f_score is Some,
            " AND f_score_complete >= ?"@,
            int_bound(c1.min_f_score),
        );
        let qb2 = add_condition(
            qb1,
            c1.min_data_completeness is Some,
            " AND data_completeness_score >= ?"@,
            int_bound(c1.min_data_completeness),
        );
        let sectors = listed(c1.sectors);
        let s_part = if sectors.len() > 0 {
            in_list(" AND sector IN ("@, sectors.len())
        } else {
            Seq::<char>::empty()
        };
        let t_part = if tickers.len() > 0 {
            in_list(" AND symbol IN ("@, tickers.len())
        } else {
            Seq::<char>::empty()
        };
        let l = match limit {
            Some(n) => n,
            None => 10i32,
        };
        let b = s_part + t_part + " ORDER BY f_score_complete DESC, data_completeness_score DESC"@
            + " LIMIT "@ + zero_padded(l as int, 0);
        let filter = " AND passes_screening = 1"@;
        assert(q1.0 =~= qb2.0 + b);
        assert(q2.0 =~= qb2.0 + filter + b);
    }
}

} // verus!

