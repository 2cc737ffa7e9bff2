//! O'Shaughnessy value screening: the query that selects the ranked stocks.
//!
//! The numeric bounds of a screening are bound to the query as text, so the criteria hold each
//! bound as the decimal text that is bound (`20` for a percentile of 20.0).
use vstd::prelude::*;
use crate::query::{
    add_condition, in_list, lemma_condition_keeps_fit, lemma_in_list, lemma_select_fits,
    lemma_texts_len, listed, placeholders_fit, push_all, texts,
};
use crate::text::{
    append_chars, append_placeholders, append_str, lemma_qmarks_add, lemma_qmarks_zero_padded,
    qmarks, qmarks_upto, string_of, zero_padded, zero_padded_chars,
};

verus! {

/// The criteria of an O'Shaughnessy screening.
#[derive(Debug, Clone)]
pub struct OShaughnessyScreeningCriteria {
    /// Largest composite percentile, as bound.
    pub max_composite_percentile: Option<String>,
    /// Largest price-to-sales ratio, as bound.
    pub max_ps_ratio: Option<String>,
    /// Largest enterprise-value-to-sales ratio, as bound.
    pub max_evs_ratio: Option<String>,
    /// Smallest market capitalisation, as bound.
    pub min_market_cap: Option<String>,
    pub sectors: Option<Vec<String>>,
    pub passes_screening_only: Option<bool>,
}

/// The view of an optional text.
pub open spec fn opt_text(o: Option<String>) -> Option<Seq<char>> {
    match o {
        Some(s) => Some(s@),
        None => None,
    }
}

impl Default for OShaughnessyScreeningCriteria {
    /// The top fifth by composite score, P/S and EV/S at most 2, market capitalisation from
    /// 200 million, passing stocks only.
    fn default() -> (r: Self)
        ensures
            opt_text(r.max_composite_percentile) == Some("20"@),
            opt_text(r.max_ps_ratio) == Some("2"@),
            opt_text(r.max_evs_ratio) == Some("2"@),
            opt_text(r.min_market_cap) == Some("200000000"@),
            r.sectors is None,
            r.passes_screening_only == Some(true),
    {
        OShaughnessyScreeningCriteria {
            max_composite_percentile: Some("20".to_owned()),
            max_ps_ratio: Some("2".to_owned()),
            max_evs_ratio: Some("2".to_owned()),
            min_market_cap: Some("200000000".to_owned()),
            sectors: None,
            passes_screening_only: Some(true),
        }
    }
}

/// The selection of every ranked stock.
pub open spec fn oshaughnessy_select() -> Seq<char> {
    "SELECT
            stock_id,
            symbol,
            sector,
            current_price,
            market_cap,
            enterprise_value,
            ps_ratio,
            evs_ratio,
            pe_ratio,
            pb_ratio,
            ev_ebitda_ratio,
            shareholder_yield,
            data_completeness_score,
            composite_score,
            composite_percentile,
            overall_rank,
            passes_screening,
            ps_rank,
            evs_rank,
            pe_rank,
            pb_rank,
            ebitda_rank,
            yield_rank,
            metrics_available
        FROM oshaughnessy_ranking
        WHERE 1=1"@
}

/// The value bound for a bound that is given.
pub open spec fn text_bound(o: Option<String>) -> Seq<Seq<char>> {
    match o {
        Some(v) => seq![v@],
        None => Seq::empty(),
    }
}

/// The selection with the bounds that are given, and the values to bind.
pub open spec fn oshaughnessy_bounds(
    max_composite_percentile: Option<String>,
    max_ps_ratio: Option<String>,
    max_evs_ratio: Option<String>,
    min_market_cap: Option<String>,
) -> (Seq<char>, Seq<Seq<char>>) {
    let qb0: (Seq<char>, Seq<Seq<char>>) = (oshaughnessy_select(), Seq::empty());
    let qb1 = add_condition(
        qb0,
        max_composite_percentile is Some,
        " AND composite_percentile <= ?"@,
        text_bound(max_composite_percentile),
    );
    let qb2 = add_condition(qb1, max_ps_ratio is Some, " AND ps_ratio <= ?"@, text_bound(max_ps_ratio));
    let qb3 = add_condition(qb2, max_evs_ratio is Some, " AND evs_ratio <= ?"@, text_bound(max_evs_ratio));
    add_condition(qb3, min_market_cap is Some, " AND market_cap >= ?"@, text_bound(min_market_cap))
}

/// The selection and filters of a screening and the values to bind: each bound that is given,
/// only passing stocks where asked, only the listed sectors and tickers where any are listed.
pub open spec fn oshaughnessy_filters(
    c: OShaughnessyScreeningCriteria,
    tickers: Seq<String>,
) -> (Seq<char>, Seq<Seq<char>>) {
    let qb4 = oshaughnessy_bounds(
        c.max_composite_percentile,
        c.max_ps_ratio,
        c.max_evs_ratio,
        c.min_market_cap,
    );
    let qb5 = add_condition(
        qb4,
        c.passes_screening_only == Some(true),
        " AND passes_screening = 1"@,
        Seq::empty(),
    );
    let sectors = listed(c.sectors);
    let qb6 = add_condition(
        qb5,
        sectors.len() > 0,
        in_list(" AND sector IN ("@, sectors.len()),
        texts(sectors),
    );
    add_condition(
        qb6,
        tickers.len() > 0,
        in_list(" AND symbol IN ("@, tickers.len()),
        texts(tickers),
    )
}

/// The query of a screening and the values to bind: its filters, best composite score first,
/// then by overall rank, at most `limit` rows where a limit is given.
pub open spec fn oshaughnessy_query(
    c: OShaughnessyScreeningCriteria,
    tickers: Seq<String>,
    limit: Option<i32>,
) -> (Seq<char>, Seq<Seq<char>>) {
    let qb7 = oshaughnessy_filters(c, tickers);
    let q8 = qb7.0 + " ORDER BY composite_score ASC, overall_rank ASC"@;
    match limit {
        Some(n) => (q8 + " LIMIT "@ + zero_padded(n as int, 0), qb7.1),
        None => (q8, qb7.1),
    }
}

/// Appends `cond` to `v` and the bound to `params` where the bound `o` is given.
fn add_bound(v: &mut Vec<char>, params: &mut Vec<String>, o: &Option<String>, cond: &str)
    ensures
        ({
            let (q, b) = add_condition((old(v)@, texts(old(params)@)), *o is Some, cond@, text_bound(*o));
            final(v)@ == q && texts(final(params)@) == b
        }),
{
    if let Some(x) = o {
        append_str(v, cond);
        let ghost before = texts(params@);
        params.push(x.clone());
        assert(texts(params@) =~= before + seq![x@]);
    }
}

/// The query of an O'Shaughnessy screening and the values to bind to it.
pub fn build_oshaughnessy_query(
    criteria: &OShaughnessyScreeningCriteria,
    stock_tickers: &Vec<String>,
    limit: Option<i32>,
) -> (r: (String, Vec<String>))
    ensures
        ({
            let (q, b) = oshaughnessy_query(*criteria, stock_tickers@, limit);
            r.0@ == q && texts(r.1@) == b
        }),
{
    let mut v: Vec<char> = Vec::new();
    append_str(
        &mut v,
        "SELECT
            stock_id,
            symbol,
            sector,
            current_price,
            market_cap,
            enterprise_value,
            ps_ratio,
            evs_ratio,
            pe_ratio,
            pb_ratio,
            ev_ebitda_ratio,
            shareholder_yield,
            data_completeness_score,
            composite_score,
            composite_percentile,
            overall_rank,
            passes_screening,
            ps_rank,
            evs_rank,
            pe_rank,
            pb_rank,
            ebitda_rank,
            yield_rank,
            metrics_available
        FROM oshaughnessy_ranking
        WHERE 1=1",
    );
    let mut params: Vec<String> = Vec::new();
    let ghost c = *criteria;
    let ghost qb0: (Seq<char>, Seq<Seq<char>>) = (oshaughnessy_select(), Seq::empty());
    assert(texts(params@) =~= qb0.1);
    add_bound(&mut v, &mut params, &criteria.max_composite_percentile, " AND composite_percentile <= ?");
    let ghost qb1 = add_condition(
        qb0,
        c.max_composite_percentile is Some,
        " AND composite_percentile <= ?"@,
        text_bound(c.max_composite_percentile),
    );
    add_bound(&mut v, &mut params, &criteria.max_ps_ratio, " AND ps_ratio <= ?");
    let ghost qb2 = add_condition(
        qb1,
        c.max_ps_ratio is Some,
        " AND ps_ratio <= ?"@,
        text_bound(c.max_ps_ratio),
    );
    add_bound(&mut v, &mut params, &criteria.max_evs_ratio, " AND evs_ratio <= ?");
    let ghost qb3 = add_condition(
        qb2,
        c.max_evs_ratio is Some,
        " AND evs_ratio <= ?"@,
        text_bound(c.max_evs_ratio),
    );
    add_bound(&mut v, &mut params, &criteria.min_market_cap, " AND market_cap >= ?");
    let ghost qb4 = add_condition(
        qb3,
        c.min_market_cap is Some,
        " AND market_cap >= ?"@,
        text_bound(c.min_market_cap),
    );
    assert(v@ == qb4.0 && texts(params@) == qb4.1);
    if criteria.passes_screening_only == Some(true) {
        append_str(&mut v, " AND passes_screening = 1");
    }
    let ghost qb5 = add_condition(
        qb4,
        c.passes_screening_only == Some(true),
        " AND passes_screening = 1"@,
        Seq::empty(),
    );
    assert(v@ == qb5.0 && texts(params@) =~= qb5.1);
    if let Some(sectors) = &criteria.sectors {
        if sectors.len() > 0 {
            append_str(&mut v, " AND sector IN (");
            append_placeholders(&mut v, sectors.len());
            append_str(&mut v, ")");
            push_all(&mut params, sectors);
        }
    }
    let ghost sectors = listed(c.sectors);
    let ghost qb6 = add_condition(
        qb5,
        sectors.len() > 0,
        in_list(" AND sector IN ("@, sectors.len()),
        texts(sectors),
    );
    assert(v@ =~= qb6.0 && texts(params@) =~= qb6.1);
    if stock_tickers.len() > 0 {
        append_str(&mut v, " AND symbol IN (");
        append_placeholders(&mut v, stock_tickers.len());
        append_str(&mut v, ")");
        push_all(&mut params, stock_tickers);
    }
    let ghost qb7 = add_condition(
        qb6,
        stock_tickers@.len() > 0,
        in_list(" AND symbol IN ("@, stock_tickers@.len()),
        texts(stock_tickers@),
    );
    assert(v@ =~= qb7.0 && texts(params@) =~= qb7.1);
    append_str(&mut v, " ORDER BY composite_score ASC, overall_rank ASC");
    if let Some(n) = limit {
        append_str(&mut v, " LIMIT ");
        append_chars(&mut v, &zero_padded_chars(n as i64, 0));
    }
    proof {
        let (q, b) = oshaughnessy_query(*criteria, stock_tickers@, limit);
        assert(v@ =~= q);
        assert(texts(params@) =~= b);
    }
    (string_of(&v), params)
}

/// The placeholders in the fixed parts of an O'Shaughnessy query.
proof fn lemma_oshaughnessy_fixed_parts()
    ensures
        qmarks(" AND composite_percentile <= ?"@) == 1,
        qmarks(" AND ps_ratio <= ?"@) == 1,
        qmarks(" AND evs_ratio <= ?"@) == 1,
        qmarks(" AND market_cap >= ?"@) == 1,
        qmarks(" AND passes_screening = 1"@) == 0,
        qmarks(" AND sector IN ("@) == 0,
        qmarks(" AND symbol IN ("@) == 0,
        qmarks(" ORDER BY composite_score ASC, overall_rank ASC"@) == 0,
        qmarks(" LIMIT "@) == 0,
{
    reveal_strlit(" AND composite_percentile <= ?");
    reveal_strlit(" AND ps_ratio <= ?");
    reveal_strlit(" AND evs_ratio <= ?");
    reveal_strlit(" AND market_cap >= ?");
    reveal_strlit(" AND passes_screening = 1");
    reveal_strlit(" AND sector IN (");
    reveal_strlit(" AND symbol IN (");
    reveal_strlit(" ORDER BY composite_score ASC, overall_rank ASC");
    reveal_strlit(" LIMIT ");
    reveal_with_fuel(qmarks_upto, 50);
}

/// A bound that is given binds one value.
proof fn lemma_text_bound_len(o: Option<String>)
    ensures
        o is Some ==> text_bound(o).len() == 1,
{
}

/// The filters of an O'Shaughnessy query hold one placeholder per bound value.
proof fn lemma_oshaughnessy_filters_fit(c: OShaughnessyScreeningCriteria, tickers: Seq<String>)
    ensures
        placeholders_fit(oshaughnessy_filters(c, tickers), oshaughnessy_select()),
{
    lemma_oshaughnessy_fixed_parts();
    let sel = oshaughnessy_select();
    let e: Seq<Seq<char>> = Seq::empty();
    let qb0: (Seq<char>, Seq<Seq<char>>) = (sel, e);
    lemma_select_fits(sel);
    lemma_text_bound_len(c.max_composite_percentile);
    lemma_text_bound_len(c.max_ps_ratio);
    lemma_text_bound_len(c.max_evs_ratio);
    lemma_text_bound_len(c.min_market_cap);
    let qb1 = add_condition(
        qb0,
        c.max_composite_percentile is Some,
        " AND composite_percentile <= ?"@,
        text_bound(c.max_composite_percentile),
    );
    lemma_condition_keeps_fit(
        qb0,
        sel,
        c.max_composite_percentile is Some,
        " AND composite_percentile <= ?"@,
        text_bound(c.max_composite_percentile),
    );
    let qb2 = add_condition(qb1, c.max_ps_ratio is Some, " AND ps_ratio <= ?"@, text_bound(c.max_ps_ratio));
    lemma_condition_keeps_fit(
        qb1,
        sel,
        c.max_ps_ratio is Some,
        " AND ps_ratio <= ?"@,
        text_bound(c.max_ps_ratio),
    );
    let qb3 = add_condition(qb2, c.max_evs_ratio is Some, " AND evs_ratio <= ?"@, text_bound(c.max_evs_ratio));
    lemma_condition_keeps_fit(
        qb2,
        sel,
        c.max_evs_ratio is Some,
        " AND evs_ratio <= ?"@,
        text_bound(c.max_evs_ratio),
    );
    let qb4 = add_condition(
        qb3,
        c.min_market_cap is Some,
        " AND market_cap >= ?"@,
        text_bound(c.min_market_cap),
    );
    lemma_condition_keeps_fit(
        qb3,
        sel,
        c.min_market_cap is Some,
        " AND market_cap >= ?"@,
        text_bound(c.min_market_cap),
    );
    let only = c.passes_screening_only == Some(true);
    let qb5 = add_condition(qb4, only, " AND passes_screening = 1"@, e);
    lemma_condition_keeps_fit(qb4, sel, only, " AND passes_screening = 1"@, e);
    let sectors = listed(c.sectors);
    let sc = in_list(" AND sector IN ("@, sectors.len());
    lemma_in_list(" AND sector IN ("@, sectors.len());
    lemma_texts_len(sectors);
    let qb6 = add_condition(qb5, sectors.len() > 0, sc, texts(sectors));
    lemma_condition_keeps_fit(qb5, sel, sectors.len() > 0, sc, texts(sectors));
    let tc = in_list(" AND symbol IN ("@, tickers.len());
    lemma_in_list(" AND symbol IN ("@, tickers.len());
    lemma_texts_len(tickers);
    let qb7 = add_condition(qb6, tickers.len() > 0, tc, texts(tickers));
    lemma_condition_keeps_fit(qb6, sel, tickers.len() > 0, tc, texts(tickers));
}

/// Every value bound to an O'Shaughnessy screening query fills one placeholder: the query is
/// the fixed selection followed by a text with exactly one question mark per bound value.
pub proof fn lemma_oshaughnessy_binds_fill_placeholders(
    c: OShaughnessyScreeningCriteria,
    tickers: Seq<String>,
    limit: Option<i32>,
)
    ensures
        placeholders_fit(oshaughnessy_query(c, tickers, limit), oshaughnessy_select()),
{
    lemma_oshaughnessy_fixed_parts();
    lemma_oshaughnessy_filters_fit(c, tickers);
    let sel = oshaughnessy_select();
    let e: Seq<Seq<char>> = Seq::empty();
    let qb7 = oshaughnessy_filters(c, tickers);
    let order = " ORDER BY composite_score ASC, overall_rank ASC"@;
    lemma_condition_keeps_fit(qb7, sel, true, order, e);
    assert(qb7.1 + e =~= qb7.1);
    let qb8 = (qb7.0 + order, qb7.1);
    if let Some(n) = limit {
        let tail = " LIMIT "@ + zero_padded(n as int, 0);
        lemma_qmarks_zero_padded(n as int, 0);
        lemma_qmarks_add(" LIMIT "@, zero_padded(n as int, 0));
        lemma_condition_keeps_fit(qb8, sel, true, tail, e);
        assert(qb7.0 + order + " LIMIT "@ + zero_padded(n as int, 0) =~= qb8.0 + tail);
    }
}

/// Whether two criteria differ at most in whether only passing stocks are asked for.
pub open spec fn differ_in_passing_only(c1: OShaughnessyScreeningCriteria, c2: OShaughnessyScreeningCriteria) -> bool {
    &&& c1.max_composite_percentile == c2.max_composite_percentile
    &&& c1.max_ps_ratio == c2.max_ps_ratio
    &&& c1.max_evs_ratio == c2.max_evs_ratio
    &&& c1.min_market_cap == c2.min_market_cap
    &&& c1.sectors == c2.sectors
}

/// Only passing stocks are selected exactly when that is asked for with `Some(true)`: two
/// criteria that differ only in `passes_screening_only`, neither `Some(true)`, give the same
/// query; where only the second is `Some(true)`, its query is the first one with
/// ` AND passes_screening = 1` inserted, and the values bound are the same.
pub proof fn lemma_passing_only_filter(
    c1: OShaughnessyScreeningCriteria,
    c2: OShaughnessyScreeningCriteria,
    tickers: Seq<String>,
    limit: Option<i32>,
)
    requires
        differ_in_passing_only(c1, c2),
    ensures
        c1.passes_screening_only != Some(true) && c2.passes_screening_only != Some(true)
            ==> oshaughnessy_query(c1, tickers, limit) == oshaughnessy_query(c2, tickers, limit),
        c1.passes_screening_only != Some(true) && c2.passes_screening_only == Some(true) ==> {
            let q1 = oshaughnessy_query(c1, tickers, limit);
            let q2 = oshaughnessy_query(c2, tickers, limit);
            &&& q1.1 == q2.1
            &&& exists|a: Seq<char>, b: Seq<char>|
                q1.0 == a + b && #[trigger] q2.0 == a + " AND passes_screening = 1"@ + b
        },
{
    let q1 = oshaughnessy_query(c1, tickers, limit);
    let q2 = oshaughnessy_query(c2, tickers, limit);
    let f1 = oshaughnessy_filters(c1, tickers);
    let f2 = oshaughnessy_filters(c2, tickers);
    if c1.passes_screening_only != Some(true) && c2.passes_screening_only != Some(true) {
        assert(f1 == f2);
    }
    if c1.passes_screening_only != Some(true) && c2.passes_screening_only == Some(true) {
        let qb4 = oshaughnessy_bounds(
            c1.max_composite_percentile,
            c1.max_ps_ratio,
            c1.max_evs_ratio,
            c1.min_market_cap,
        );
        let sectors = listed(c1.sectors);
        let s_part = if sectors.len() > 0 { in_list(" AND sector IN ("@, sectors.len()) } else { Seq::<char>::empty() };
        let t_part = if tickers.len() > 0 { in_list(" AND symbol IN ("@, tickers.len()) } else { Seq::<char>::empty() };
        let order = " ORDER BY composite_score ASC, overall_rank ASC"@;
        let l_part = match limit {
            Some(n) => " LIMIT "@ + zero_padded(n as int, 0),
            None => Seq::<char>::empty(),
        };
        let a = qb4.0;
        let b = s_part + t_part + order + l_part;
        let filter = " AND passes_screening = 1"@;
        assert(f1.1 == f2.1);
        assert(f1.0 =~= a + s_part + t_part);
        assert(f2.0 =~= a + filter + s_part + t_part);
        assert(q1.0 =~= a + b);
        assert(q2.0 =~= a + filter + b);
    }
}

} // verus!

