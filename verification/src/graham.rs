//! Benjamin Graham value screening: the categories and the recommendation that a screening
//! result is shown with.
//!
//! Ratios and scores are carried as integers in ten-thousandths of a unit, rounded down (a
//! P/E ratio of 8.5 is 85000). Every threshold below is a whole number of ten-thousandths, so
//! each comparison `x < t` or `x >= t` decides as it does on the unrounded value.
use vstd::prelude::*;

verus! {

/// Ten-thousandths in one unit.
pub const SCALE: i64 = 10000;

/// The outcome of screening one stock.
#[derive(Debug, Clone)]
pub struct GrahamScreeningResult {
    pub id: Option<i64>,
    pub stock_id: i64,
    pub symbol: String,
    pub screening_date: String,
    pub pe_ratio: Option<i64>,
    pub pb_ratio: Option<i64>,
    pub pe_pb_product: Option<i64>,
    pub dividend_yield: Option<i64>,
    pub debt_to_equity: Option<i64>,
    pub profit_margin: Option<i64>,
    pub revenue_growth_1y: Option<i64>,
    pub revenue_growth_3y: Option<i64>,
    pub current_ratio: Option<i64>,
    pub quick_ratio: Option<i64>,
    pub interest_coverage_ratio: Option<i64>,
    pub return_on_equity: Option<i64>,
    pub return_on_assets: Option<i64>,
    pub passes_earnings_filter: bool,
    pub passes_pe_filter: bool,
    pub passes_pb_filter: bool,
    pub passes_pe_pb_combined: bool,
    pub passes_dividend_filter: bool,
    pub passes_debt_filter: bool,
    pub passes_quality_filter: bool,
    pub passes_growth_filter: bool,
    pub passes_all_filters: bool,
    pub graham_score: Option<i64>,
    pub value_rank: Option<i64>,
    pub quality_score: Option<i64>,
    pub safety_score: Option<i64>,
    pub current_price: Option<i64>,
    pub market_cap: Option<i64>,
    pub shares_outstanding: Option<i64>,
    pub net_income: Option<i64>,
    pub total_equity: Option<i64>,
    pub total_debt: Option<i64>,
    pub revenue: Option<i64>,
    pub reasoning: Option<String>,
    pub sector: Option<String>,
    pub industry: Option<String>,
    pub created_at: Option<String>,
    pub updated_at: Option<String>,
}

impl Default for GrahamScreeningResult {
    /// A result with no data: no values, no filter passed, empty symbol and date.
    fn default() -> (r: Self)
        ensures
            r.id is None && r.stock_id == 0 && r.symbol@ == Seq::<char>::empty()
                && r.screening_date@ == Seq::<char>::empty(),
            r.pe_ratio is None && r.pb_ratio is None && r.pe_pb_product is None
                && r.dividend_yield is None && r.debt_to_equity is None && r.profit_margin is None
                && r.revenue_growth_1y is None && r.revenue_growth_3y is None,
            r.current_ratio is None && r.quick_ratio is None && r.interest_coverage_ratio is None
                && r.return_on_equity is None && r.return_on_assets is None,
            !r.passes_earnings_filter && !r.passes_pe_filter && !r.passes_pb_filter
                && !r.passes_pe_pb_combined && !r.passes_dividend_filter && !r.passes_debt_filter
                && !r.passes_quality_filter && !r.passes_growth_filter && !r.passes_all_filters,
            r.graham_score is None && r.value_rank is None && r.quality_score is None
                && r.safety_score is None,
            r.current_price is None && r.market_cap is None && r.shares_outstanding is None
                && r.net_income is None && r.total_equity is None && r.total_debt is None
                && r.revenue is None,
            r.reasoning is None && r.sector is None && r.industry is None && r.created_at is None
                && r.updated_at is None,
    {
        GrahamScreeningResult {
            id: None,
            stock_id: 0,
            symbol: String::new(),
            screening_date: String::new(),
            pe_ratio: None,
            pb_ratio: None,
            pe_pb_product: None,
            dividend_yield: None,
            debt_to_equity: None,
            profit_margin: None,
            revenue_growth_1y: None,
            revenue_growth_3y: None,
            current_ratio: None,
            quick_ratio: None,
            interest_coverage_ratio: None,
            return_on_equity: None,
            return_on_assets: None,
            passes_earnings_filter: false,
            passes_pe_filter: false,
            passes_pb_filter: false,
            passes_pe_pb_combined: false,
            passes_dividend_filter: false,
            passes_debt_filter: false,
            passes_quality_filter: false,
            passes_growth_filter: false,
            passes_all_filters: false,
            graham_score: None,
            value_rank: None,
            quality_score: None,
            safety_score: None,
            current_price: None,
            market_cap: None,
            shares_outstanding: None,
            net_income: None,
            total_equity: None,
            total_debt: None,
            revenue: None,
            reasoning: None,
            sector: None,
            industry: None,
            created_at: None,
            updated_at: None,
        }
    }
}

/// The value category of a stock with P/E `pe` and P/B `pb` (in ten-thousandths).
pub open spec fn value_level(pe: Option<i64>, pb: Option<i64>) -> Seq<char> {
    match (pe, pb) {
        (Some(e), Some(b)) => if e < 10 * SCALE && b < 1 * SCALE {
            "Deep Value"@
        } else if e < 15 * SCALE && b < 15 * SCALE / 10 {
            "Moderate Value"@
        } else {
            "Fair Value"@
        },
        _ => "Unknown"@,
    }
}

/// The safety category of a safety score (in ten-thousandths).
pub open spec fn safety_level(score: Option<i64>) -> Seq<char> {
    match score {
        Some(x) => if x >= 80 * SCALE {
            "Very Safe"@
        } else if x >= 65 * SCALE {
            "Safe"@
        } else if x >= 50 * SCALE {
            "Moderate"@
        } else {
            "Risky"@
        },
        None => "Unknown"@,
    }
}

/// The recommendation for a Graham score (in ten-thousandths).
pub open spec fn recommendation(score: Option<i64>) -> Seq<char> {
    match score {
        Some(x) => if x >= 85 * SCALE {
            "Strong Buy"@
        } else if x >= 70 * SCALE {
            "Buy"@
        } else if x >= 55 * SCALE {
            "Hold"@
        } else {
            "Avoid"@
        },
        None => "No Rating"@,
    }
}

/// The value category of a result: `Deep Value` below P/E 10 and P/B 1, `Moderate Value` below
/// P/E 15 and P/B 1.5, else `Fair Value`; `Unknown` without both ratios.
pub fn categorize_value_level(result: &GrahamScreeningResult) -> (r: String)
    ensures
        r@ == value_level(result.pe_ratio, result.pb_ratio),
{
    match (result.pe_ratio, result.pb_ratio) {
        (Some(pe), Some(pb)) => {
            if pe < 10 * SCALE && pb < 1 * SCALE {
                "Deep Value".to_owned()
            } else if pe < 15 * SCALE && pb < 15 * SCALE / 10 {
                "Moderate Value".to_owned()
            } else {
                "Fair Value".to_owned()
            }
        },
        _ => "Unknown".to_owned(),
    }
}

/// The safety category of a result: `Very Safe` from 80, `Safe` from 65, `Moderate` from 50,
/// else `Risky`; `Unknown` without a safety score.
pub fn categorize_safety_level(result: &GrahamScreeningResult) -> (r: String)
    ensures
        r@ == safety_level(result.safety_score),
{
    match result.safety_score {
        Some(x) => {
            if x >= 80 * SCALE {
                "Very Safe".to_owned()
            } else if x >= 65 * SCALE {
                "Safe".to_owned()
            } else if x >= 50 * SCALE {
                "Moderate".to_owned()
            } else {
                "Risky".to_owned()
            }
        },
        None => "Unknown".to_owned(),
    }
}

/// The recommendation for a result: `Strong Buy` from a Graham score of 85, `Buy` from 70,
/// `Hold` from 55, else `Avoid`; `No Rating` without a score.
pub fn generate_recommendation(result: &GrahamScreeningResult) -> (r: String)
    ensures
        r@ == recommendation(result.graham_score),
{
    match result.graham_score {
        Some(x) => {
            if x >= 85 * SCALE {
                "Strong Buy".to_owned()
            } else if x >= 70 * SCALE {
                "Buy".to_owned()
            } else if x >= 55 * SCALE {
                "Hold".to_owned()
            } else {
                "Avoid".to_owned()
            }
        },
        None => "No Rating".to_owned(),
    }
}

/// The strength of a recommendation: `Strong Buy` 3, `Buy` 2, `Hold` 1, anything else 0.
pub open spec fn recommendation_rank(s: Seq<char>) -> int {
    if s == "Strong Buy"@ {
        3
    } else if s == "Buy"@ {
        2
    } else if s == "Hold"@ {
        1
    } else {
        0
    }
}

/// The safety of a category: `Very Safe` 3, `Safe` 2, `Moderate` 1, anything else 0.
pub open spec fn safety_rank(s: Seq<char>) -> int {
    if s == "Very Safe"@ {
        3
    } else if s == "Safe"@ {
        2
    } else if s == "Moderate"@ {
        1
    } else {
        0
    }
}

/// The depth of a value category: `Deep Value` 2, `Moderate Value` 1, anything else 0.
pub open spec fn value_rank(s: Seq<char>) -> int {
    if s == "Deep Value"@ {
        2
    } else if s == "Moderate Value"@ {
        1
    } else {
        0
    }
}

/// A higher Graham score never gets a weaker recommendation, nor a higher safety score a
/// weaker safety category.
pub proof fn lemma_categories_monotone(a: i64, b: i64)
    requires
        a <= b,
    ensures
        recommendation_rank(recommendation(Some(a))) <= recommendation_rank(recommendation(Some(b))),
        safety_rank(safety_level(Some(a))) <= safety_rank(safety_level(Some(b))),
{
    reveal_strlit("Strong Buy");
    reveal_strlit("Buy");
    reveal_strlit("Hold");
    reveal_strlit("Avoid");
    reveal_strlit("Very Safe");
    reveal_strlit("Safe");
    reveal_strlit("Moderate");
    reveal_strlit("Risky");
    assert(recommendation_rank("Strong Buy"@) == 3);
    assert(recommendation_rank("Buy"@) == 2) by {
        assert("Buy"@.len() != "Strong Buy"@.len());
    }
    assert(recommendation_rank("Hold"@) == 1) by {
        assert("Hold"@.len() != "Strong Buy"@.len());
        assert("Hold"@.len() != "Buy"@.len());
    }
    assert(recommendation_rank("Avoid"@) == 0) by {
        assert("Avoid"@.len() != "Strong Buy"@.len());
        assert("Avoid"@.len() != "Buy"@.len());
        assert("Avoid"@.len() != "Hold"@.len());
    }
    assert(safety_rank("Very Safe"@) == 3);
    assert(safety_rank("Safe"@) == 2) by {
        assert("Safe"@.len() != "Very Safe"@.len());
    }
    assert(safety_rank("Moderate"@) == 1) by {
        assert("Moderate"@.len() != "Very Safe"@.len());
        assert("Moderate"@.len() != "Safe"@.len());
    }
    assert(safety_rank("Risky"@) == 0) by {
        assert("Risky"@.len() != "Very Safe"@.len());
        assert("Risky"@.len() != "Safe"@.len());
        assert("Risky"@.len() != "Moderate"@.len());
    }
}

/// Lower P/E and P/B ratios never give a shallower value category.
pub proof fn lemma_value_level_monotone(pe1: i64, pb1: i64, pe2: i64, pb2: i64)
    requires
        pe1 <= pe2,
        pb1 <= pb2,
    ensures
        value_rank(value_level(Some(pe1), Some(pb1))) >= value_rank(value_level(Some(pe2), Some(pb2))),
{
    reveal_strlit("Deep Value");
    reveal_strlit("Moderate Value");
    reveal_strlit("Fair Value");
    assert(value_rank("Deep Value"@) == 2);
    assert(value_rank("Moderate Value"@) == 1) by {
        assert("Moderate Value"@.len() != "Deep Value"@.len());
    }
    assert(value_rank("Fair Value"@) == 0) by {
        assert("Deep Value"@[0] != "Fair Value"@[0]);
        assert("Moderate Value"@.len() != "Fair Value"@.len());
    }
}

/// The value categories by their bounds: `Deep Value` exactly below P/E 10 and P/B 1;
/// `Moderate Value` exactly otherwise below P/E 15 and P/B 1.5; a P/E of 15 or more, or a P/B of
/// 1.5 or more, is `Fair Value`; without both ratios the category is `Unknown`.
pub proof fn lemma_value_level_bounds(pe: i64, pb: i64)
    ensures
        (value_level(Some(pe), Some(pb)) == "Deep Value"@) <==> (pe < 100000 && pb < 10000),
        (value_level(Some(pe), Some(pb)) == "Moderate Value"@) <==> (!(pe < 100000 && pb < 10000)
            && pe < 150000 && pb < 15000),
        (pe >= 150000 || pb >= 15000) ==> value_level(Some(pe), Some(pb)) == "Fair Value"@,
        value_level(None, Some(pb)) == "Unknown"@,
        value_level(Some(pe), None) == "Unknown"@,
{
    reveal_strlit("Deep Value");
    reveal_strlit("Moderate Value");
    reveal_strlit("Fair Value");
    assert("Deep Value"@[0] != "Fair Value"@[0]);
    assert("Deep Value"@.len() != "Moderate Value"@.len());
    assert("Fair Value"@.len() != "Moderate Value"@.len());
}

/// The safety categories by their bounds: `Very Safe` from a score of 80, `Safe` from 65 below
/// 80, `Moderate` from 50 below 65, `Risky` below 50; `Unknown` without a score.
pub proof fn lemma_safety_level_bounds(x: i64)
    ensures
        (safety_level(Some(x)) == "Very Safe"@) <==> x >= 800000,
        (safety_level(Some(x)) == "Safe"@) <==> (650000 <= x < 800000),
        (safety_level(Some(x)) == "Moderate"@) <==> (500000 <= x < 650000),
        (safety_level(Some(x)) == "Risky"@) <==> x < 500000,
        safety_level(None) == "Unknown"@,
{
    reveal_strlit("Very Safe");
    reveal_strlit("Safe");
    reveal_strlit("Moderate");
    reveal_strlit("Risky");
    assert("Very Safe"@.len() != "Safe"@.len());
    assert("Very Safe"@.len() != "Moderate"@.len());
    assert("Very Safe"@.len() != "Risky"@.len());
    assert("Safe"@.len() != "Moderate"@.len());
    assert("Safe"@.len() != "Risky"@.len());
    assert("Moderate"@.len() != "Risky"@.len());
}

/// The recommendations by their bounds: `Strong Buy` from a Graham score of 85, `Buy` from 70
/// below 85, `Hold` from 55 below 70, `Avoid` below 55; `No Rating` without a score.
pub proof fn lemma_recommendation_bounds(x: i64)
    ensures
        (recommendation(Some(x)) == "Strong Buy"@) <==> x >= 850000,
        (recommendation(Some(x)) == "Buy"@) <==> (700000 <= x < 850000),
        (recommendation(Some(x)) == "Hold"@) <==> (550000 <= x < 700000),
        (recommendation(Some(x)) == "Avoid"@) <==> x < 550000,
        recommendation(None) == "No Rating"@,
{
    reveal_strlit("Strong Buy");
    reveal_strlit("Buy");
    reveal_strlit("Hold");
    reveal_strlit("Avoid");
    assert("Strong Buy"@.len() != "Buy"@.len());
    assert("Strong Buy"@.len() != "Hold"@.len());
    assert("Strong Buy"@.len() != "Avoid"@.len());
    assert("Buy"@.len() != "Hold"@.len());
    assert("Buy"@.len() != "Avoid"@.len());
    assert("Hold"@.len() != "Avoid"@.len());
}

} // verus!

