//! Data refresh requests: which refresh a request asks for, which steps it takes, how long the
//! refresh modes are expected to run, and which screenings the data allows.
use vstd::prelude::*;
use crate::text::{append_str, string_of};

verus! {

/// The refresh request that the user interface sends.
#[derive(Debug, Clone)]
pub struct RefreshRequestDto {
    /// `market`, `financials` or `ratios`.
    pub mode: String,
    pub force_sources: Option<Vec<String>>,
    pub initiated_by: Option<String>,
}

/// What a refresh updates.
#[derive(Debug, Clone, Copy, PartialEq, Eq, Structural)]
pub enum RefreshMode {
    Market,
    Financials,
    Ratios,
}

/// A refresh to run.
#[derive(Debug, Clone)]
pub struct RefreshRequest {
    pub mode: RefreshMode,
    pub force_sources: Vec<String>,
    pub initiated_by: String,
    pub session_id: Option<String>,
}

/// The mode that a mode name gives, if any.
pub open spec fn mode_named(name: Seq<char>) -> Option<RefreshMode> {
    if name == "market"@ {
        Some(RefreshMode::Market)
    } else if name == "financials"@ {
        Some(RefreshMode::Financials)
    } else if name == "ratios"@ {
        Some(RefreshMode::Ratios)
    } else {
        None
    }
}

/// The refresh that a request of the user interface asks for: its mode, the sources it forces
/// (none if it names none) and who started it (`ui` if it does not say); an error naming the
/// mode where the mode is unknown.
pub fn to_refresh_request(request: RefreshRequestDto) -> (r: Result<RefreshRequest, String>)
    ensures
        match mode_named(request.mode@) {
            Some(m) => r matches Ok(q) && q.mode == m && q.session_id is None
                && q.force_sources@ == match request.force_sources {
                Some(v) => v@,
                None => Seq::<String>::empty(),
            } && q.initiated_by@ == match request.initiated_by {
                Some(s) => s@,
                None => "ui"@,
            },
            None => r matches Err(e) && e@ == "Invalid refresh mode: "@ + request.mode@,
        },
{
    let mode = if request.mode == "market".to_owned() {
        RefreshMode::Market
    } else if request.mode == "financials".to_owned() {
        RefreshMode::Financials
    } else if request.mode == "ratios".to_owned() {
        RefreshMode::Ratios
    } else {
        let mut v: Vec<char> = Vec::new();
        append_str(&mut v, "Invalid refresh mode: ");
        append_str(&mut v, request.mode.as_str());
        return Err(string_of(&v));
    };
    let force_sources = match request.force_sources {
        Some(v) => v,
        None => Vec::new(),
    };
    let initiated_by = match request.initiated_by {
        Some(s) => s,
        None => "ui".to_owned(),
    };
    Ok(RefreshRequest { mode, force_sources, initiated_by, session_id: None })
}

/// The steps that a refresh in `mode` can take, with their expected minutes.
pub open spec fn available_steps(mode: RefreshMode) -> Seq<(Seq<char>, i32)> {
    let base = seq![("daily_prices"@, 15i32), ("pe_ratios"@, 25i32), ("company_metadata"@, 2i32)];
    if mode == RefreshMode::Financials {
        base + seq![("cash_flow_statements"@, 8i32), ("financial_statements"@, 45i32)]
    } else {
        base
    }
}

/// The views of a list of steps.
pub open spec fn steps_view(v: Seq<(String, i32)>) -> Seq<(Seq<char>, i32)> {
    v.map_values(|s: (String, i32)| (s.0@, s.1))
}

/// The steps that a refresh in `mode` can take, with their expected minutes.
pub fn get_available_steps(mode: &RefreshMode) -> (r: Vec<(String, i32)>)
    ensures
        steps_view(r@) == available_steps(*mode),
{
    let mut steps: Vec<(String, i32)> = Vec::new();
    steps.push(("daily_prices".to_owned(), 15));
    steps.push(("pe_ratios".to_owned(), 25));
    steps.push(("company_metadata".to_owned(), 2));
    if *mode == RefreshMode::Financials {
        steps.push(("cash_flow_statements".to_owned(), 8));
        steps.push(("financial_statements".to_owned(), 45));
    }
    assert(steps_view(steps@) =~= available_steps(*mode));
    steps
}

/// Which of the three data sources that a refresh plan looks at need a refresh.
#[derive(Debug, Clone, Copy)]
pub struct RefreshNeeds {
    pub market_data: bool,
    pub financial_data: bool,
    pub calculated_ratios: bool,
}

/// Whether the step for `source` belongs in the plan: its source is one of the three that the
/// plan looks at, and that source needs a refresh.
pub open spec fn step_planned(source: Seq<char>, needs: RefreshNeeds) -> bool {
    ||| source == "daily_prices"@ && needs.market_data
    ||| source == "financial_statements"@ && needs.financial_data
    ||| source == "ps_evs_ratios"@ && needs.calculated_ratios
}

/// The planned steps among `steps`, in order.
pub open spec fn planned_steps(steps: Seq<(Seq<char>, i32)>, needs: RefreshNeeds) -> Seq<(Seq<char>, i32)>
    decreases steps.len(),
{
    if steps.len() == 0 {
        Seq::empty()
    } else {
        let rest = planned_steps(steps.drop_last(), needs);
        if step_planned(steps.last().0, needs) {
            rest.push(steps.last())
        } else {
            rest
        }
    }
}

/// The steps of a refresh plan: those of `steps` whose data source needs a refresh.
pub fn plan_refresh_steps(steps: &Vec<(String, i32)>, needs: RefreshNeeds) -> (r: Vec<(String, i32)>)
    ensures
        steps_view(r@) == planned_steps(steps_view(steps@), needs),
{
    let daily = "daily_prices".to_owned();
    let financial = "financial_statements".to_owned();
    let ratios = "ps_evs_ratios".to_owned();
    let ghost sv = steps_view(steps@);
    let mut r: Vec<(String, i32)> = Vec::new();
    let mut k: usize = 0;
    assert(sv.take(0) =~= Seq::<(Seq<char>, i32)>::empty());
    assert(steps_view(r@) =~= Seq::<(Seq<char>, i32)>::empty());
    while k < steps.len()
        invariant
            k <= steps@.len(),
            sv == steps_view(steps@),
            daily@ == "daily_prices"@,
            financial@ == "financial_statements"@,
            ratios@ == "ps_evs_ratios"@,
            steps_view(r@) == planned_steps(sv.take(k as int), needs),
        decreases steps@.len() - k,
    {
        assert(sv.take(k + 1).drop_last() =~= sv.take(k as int));
        assert(sv.take(k + 1).last() == (steps@[k as int].0@, steps@[k as int].1));
        let s = &steps[k].0;
        let planned = (*s == daily && needs.market_data) || (*s == financial && needs.financial_data)
            || (*s == ratios && needs.calculated_ratios);
        if planned {
            let ghost before = r@;
            r.push((s.clone(), steps[k].1));
            assert(steps_view(r@) =~= steps_view(before).push((s@, steps@[k as int].1)));
        }
        k = k + 1;
    }
    assert(sv.take(steps@.len() as int) =~= sv);
    r
}

/// The sum of the minutes of `steps`.
pub open spec fn total_minutes(steps: Seq<(Seq<char>, i32)>) -> int
    decreases steps.len(),
{
    if steps.len() == 0 {
        0
    } else {
        total_minutes(steps.drop_last()) + steps.last().1
    }
}

/// The expected minutes of a plan.
pub fn plan_duration(steps: &Vec<(String, i32)>) -> (r: i32)
    requires
        forall|k: int|
            0 <= k <= steps@.len() ==> i32::MIN <= #[trigger] total_minutes(
                steps_view(steps@).take(k),
            ) <= i32::MAX,
    ensures
        r == total_minutes(steps_view(steps@)),
{
    let ghost sv = steps_view(steps@);
    let mut total: i32 = 0;
    let mut k: usize = 0;
    assert(sv.take(0) =~= Seq::<(Seq<char>, i32)>::empty());
    while k < steps.len()
        invariant
            k <= steps@.len(),
            sv == steps_view(steps@),
            forall|j: int| 0 <= j <= steps@.len() ==> i32::MIN <= #[trigger] total_minutes(sv.take(j))
                <= i32::MAX,
            total == total_minutes(sv.take(k as int)),
        decreases steps@.len() - k,
    {
        assert(sv.take(k + 1).drop_last() =~= sv.take(k as int));
        assert(total_minutes(sv.take(k + 1)) <= i32::MAX);
        total = total + steps[k].1;
        k = k + 1;
    }
    assert(sv.take(steps@.len() as int) =~= sv);
    total
}

/// The expected minutes of the quick, standard and full refresh.
#[derive(Debug, Clone, Copy)]
pub struct DurationEstimates {
    pub quick: i32,
    pub standard: i32,
    pub full: i32,
}

/// How a data source counts towards the modes: `0` towards all three, `1` towards standard and
/// full, `2` towards full only, `3` towards none.
pub open spec fn source_tier(source: Seq<char>) -> int {
    if source == "daily_prices"@ || source == "pe_ratios"@ || source == "company_metadata"@ {
        0
    } else if source == "ps_evs_ratios"@ {
        1
    } else if source == "financial_statements"@ {
        2
    } else {
        3
    }
}

/// The expected minutes of the sources of `rows` that count towards a mode whose tiers go up
/// to `max_tier`.
pub open spec fn mode_minutes(rows: Seq<(Seq<char>, i32)>, max_tier: int) -> int
    decreases rows.len(),
{
    if rows.len() == 0 {
        0
    } else {
        mode_minutes(rows.drop_last(), max_tier) + if source_tier(rows.last().0) <= max_tier {
            rows.last().1 as int
        } else {
            0
        }
    }
}

/// Whether the running sums of every mode stay within `i32`.
pub open spec fn estimates_fit(rows: Seq<(Seq<char>, i32)>) -> bool {
    forall|k: int, t: int|
        0 <= k <= rows.len() && 0 <= t <= 2 ==> i32::MIN <= #[trigger] mode_minutes(rows.take(k), t)
            <= i32::MAX
}

/// Whether the running sums of every mode stay within `i32` for `rows`.
pub fn estimates_fit_rows(rows: &Vec<(String, i32)>) -> (r: bool)
    ensures
        r == estimates_fit(steps_view(rows@)),
{
    let ghost sv = steps_view(rows@);
    let mut sums: [i128; 3] = [0, 0, 0];
    let mut k: usize = 0;
    assert(sv.take(0) =~= Seq::<(Seq<char>, i32)>::empty());
    while k < rows.len()
        invariant
            k <= rows@.len(),
            sv == steps_view(rows@),
            forall|t: int| 0 <= t <= 2 ==> sums@[t] == mode_minutes(#[trigger] sv.take(k as int), t),
            forall|j: int, t: int|
                0 <= j <= k && 0 <= t <= 2 ==> i32::MIN <= #[trigger] mode_minutes(sv.take(j), t)
                    <= i32::MAX,
        decreases rows@.len() - k,
    {
        let ghost t1 = sv.take(k + 1);
        assert(t1.drop_last() =~= sv.take(k as int));
        assert(t1.last() == (rows@[k as int].0@, rows@[k as int].1));
        let tier: u8 = if rows[k].0 == "daily_prices".to_owned() || rows[k].0 == "pe_ratios".to_owned()
            || rows[k].0 == "company_metadata".to_owned() {
            0
        } else if rows[k].0 == "ps_evs_ratios".to_owned() {
            1
        } else if rows[k].0 == "financial_statements".to_owned() {
            2
        } else {
            3
        };
        assert(tier as int == source_tier(rows@[k as int].0@));
        let d = rows[k].1 as i128;
        let mut t: usize = 0;
        let ghost before = sums@;
        while t < 3
            invariant
                t <= 3,
                t1.len() > 0,
                before.len() == 3,
                sums@.len() == 3,
                tier as int == source_tier(t1.last().0),
                d == t1.last().1,
                i32::MIN <= d <= i32::MAX,
                forall|m: int| 0 <= m < t ==> sums@[m] == before[m] + if tier as int <= m {
                    d as int
                } else {
                    0
                },
                forall|m: int| t <= m < 3 ==> sums@[m] == before[m],
                forall|m: int| 0 <= m <= 2 ==> i32::MIN <= #[trigger] before[m] <= i32::MAX,
            decreases 3 - t,
        {
            if tier as usize <= t {
                assert(sums@[t as int] == before[t as int]);
                assert(i32::MIN <= before[t as int] <= i32::MAX);
                sums.set(t, sums[t] + d);
            }
            t = t + 1;
        }
        assert forall|m: int| 0 <= m <= 2 implies sums@[m] == mode_minutes(
            #[trigger] sv.take(k + 1),
            m,
        ) by {}
        if sums[0] < i32::MIN as i128 || sums[0] > i32::MAX as i128 || sums[1] < i32::MIN as i128
            || sums[1] > i32::MAX as i128 || sums[2] < i32::MIN as i128 || sums[2] > i32::MAX as i128 {
            assert(!estimates_fit(sv)) by {
                assert(sv.take(k + 1) == t1);
            }
            return false;
        }
        k = k + 1;
    }
    assert(sv.take(rows@.len() as int) =~= sv);
    true
}

/// The expected minutes of each refresh mode, from the configured minutes of each data source
/// (`rows`, in order): prices, P/E ratios and company metadata count towards all modes, P/S and
/// EV/S ratios towards standard and full, financial statements towards full only.
pub fn get_refresh_duration_estimates(rows: &Vec<(String, i32)>) -> (r: DurationEstimates)
    requires
        estimates_fit(steps_view(rows@)),
    ensures
        r.quick == mode_minutes(steps_view(rows@), 0),
        r.standard == mode_minutes(steps_view(rows@), 1),
        r.full == mode_minutes(steps_view(rows@), 2),
{
    let ghost sv = steps_view(rows@);
    let mut quick: i32 = 0;
    let mut standard: i32 = 0;
    let mut full: i32 = 0;
    let mut k: usize = 0;
    assert(sv.take(0) =~= Seq::<(Seq<char>, i32)>::empty());
    while k < rows.len()
        invariant
            k <= rows@.len(),
            sv == steps_view(rows@),
            estimates_fit(sv),
            quick == mode_minutes(sv.take(k as int), 0),
            standard == mode_minutes(sv.take(k as int), 1),
            full == mode_minutes(sv.take(k as int), 2),
        decreases rows@.len() - k,
    {
        let ghost t = sv.take(k + 1);
        assert(t.drop_last() =~= sv.take(k as int));
        assert(t.last() == (rows@[k as int].0@, rows@[k as int].1));
        assert(i32::MIN <= mode_minutes(t, 0) <= i32::MAX);
        assert(i32::MIN <= mode_minutes(t, 1) <= i32::MAX);
        assert(i32::MIN <= mode_minutes(t, 2) <= i32::MAX);
        let source = &rows[k].0;
        let d = rows[k].1;
        if *source == "daily_prices".to_owned() || *source == "pe_ratios".to_owned() || *source
            == "company_metadata".to_owned() {
            quick = quick + d;
            standard = standard + d;
            full = full + d;
        } else if *source == "ps_evs_ratios".to_owned() {
            standard = standard + d;
            full = full + d;
        } else if *source == "financial_statements".to_owned() {
            full = full + d;
        }
        k = k + 1;
    }
    assert(sv.take(rows@.len() as int) =~= sv);
    DurationEstimates { quick, standard, full }
}

/// Whether a refresh with this progress status has ended.
pub fn refresh_finished(status: &str) -> (r: bool)
    ensures
        r == (status@ == "completed"@ || status@ == "failed"@),
{
    let s = status.to_owned();
    s == "completed".to_owned() || s == "failed".to_owned()
}

/// Which screenings the current data allows.
#[derive(Debug, Clone)]
pub struct ScreeningReadiness {
    pub garp_screening: bool,
    pub graham_screening: bool,
    pub valuation_analysis: bool,
    pub blocking_issues: Vec<String>,
}

/// The readiness flag of the screening `feature`, if it is one of the known screenings.
pub open spec fn screening_flag(readiness: ScreeningReadiness, feature: Seq<char>) -> Option<bool> {
    if feature == "garp_screening"@ {
        Some(readiness.garp_screening)
    } else if feature == "graham_screening"@ {
        Some(readiness.graham_screening)
    } else if feature == "valuation_analysis"@ {
        Some(readiness.valuation_analysis)
    } else {
        None
    }
}

/// Whether the screening `feature` may run; an error naming the feature where it is unknown.
pub fn check_screening_readiness(readiness: &ScreeningReadiness, feature: &str) -> (r: Result<
    bool,
    String,
>)
    ensures
        match screening_flag(*readiness, feature@) {
            Some(b) => r == Ok::<bool, String>(b),
            None => r matches Err(e) && e@ == "Unknown screening feature: "@ + feature@,
        },
{
    let f = feature.to_owned();
    if f == "garp_screening".to_owned() {
        Ok(readiness.garp_screening)
    } else if f == "graham_screening".to_owned() {
        Ok(readiness.graham_screening)
    } else if f == "valuation_analysis".to_owned() {
        Ok(readiness.valuation_analysis)
    } else {
        let mut v: Vec<char> = Vec::new();
        append_str(&mut v, "Unknown screening feature: ");
        append_str(&mut v, feature);
        Err(string_of(&v))
    }
}

/// Where no configured duration is negative, the quick refresh takes no longer than the
/// standard one, and the standard one no longer than the full one.
pub proof fn lemma_estimates_ordered(rows: Seq<(Seq<char>, i32)>)
    requires
        forall|k: int| 0 <= k < rows.len() ==> (#[trigger] rows[k]).1 >= 0,
    ensures
        mode_minutes(rows, 0) <= mode_minutes(rows, 1) <= mode_minutes(rows, 2),
    decreases rows.len(),
{
    if rows.len() > 0 {
        let t = rows.drop_last();
        assert forall|k: int| 0 <= k < t.len() implies (#[trigger] t[k]).1 >= 0 by {
            assert(t[k] == rows[k]);
        }
        lemma_estimates_ordered(t);
        assert(rows.last() == rows[rows.len() - 1]);
    }
}

/// A refresh of financials takes every step of a market refresh, in the same order, before its
/// own; a refresh of ratios takes the steps of a market refresh.
pub proof fn lemma_financials_extend_market()
    ensures
        available_steps(RefreshMode::Financials).take(3) == available_steps(RefreshMode::Market),
        available_steps(RefreshMode::Ratios) == available_steps(RefreshMode::Market),
        available_steps(RefreshMode::Market).len() == 3,
        available_steps(RefreshMode::Financials).len() == 5,
{
    assert(available_steps(RefreshMode::Financials).take(3) =~= available_steps(RefreshMode::Market));
}

/// Which data source a step refreshes: `daily_prices` the market data, `financial_statements`
/// the financial data, `ps_evs_ratios` the calculated ratios.
proof fn lemma_step_sources_distinct()
    ensures
        "daily_prices"@ != "financial_statements"@,
        "daily_prices"@ != "ps_evs_ratios"@,
        "financial_statements"@ != "ps_evs_ratios"@,
{
    reveal_strlit("daily_prices");
    reveal_strlit("financial_statements");
    reveal_strlit("ps_evs_ratios");
    assert("daily_prices"@.len() != "financial_statements"@.len());
    assert("daily_prices"@.len() != "ps_evs_ratios"@.len());
    assert("financial_statements"@.len() != "ps_evs_ratios"@.len());
}

/// A plan refreshes what is stale and only that: every planned step is an available step; a
/// `daily_prices` step is planned exactly when the market data needs a refresh, a
/// `financial_statements` step exactly when the financial data does, a `ps_evs_ratios` step
/// exactly when the calculated ratios do; no step of another source is planned.
pub proof fn lemma_plan_refreshes_stale_sources(steps: Seq<(Seq<char>, i32)>, needs: RefreshNeeds)
    ensures
        forall|x: (Seq<char>, i32)| #[trigger] planned_steps(steps, needs).contains(x) ==> steps.contains(x),
        forall|x: (Seq<char>, i32)|
            #[trigger] steps.contains(x) && x.0 == "daily_prices"@ ==> (planned_steps(steps, needs).contains(x)
                <==> needs.market_data),
        forall|x: (Seq<char>, i32)|
            #[trigger] steps.contains(x) && x.0 == "financial_statements"@ ==> (planned_steps(
                steps,
                needs,
            ).contains(x) <==> needs.financial_data),
        forall|x: (Seq<char>, i32)|
            #[trigger] steps.contains(x) && x.0 == "ps_evs_ratios"@ ==> (planned_steps(steps, needs).contains(x)
                <==> needs.calculated_ratios),
        forall|x: (Seq<char>, i32)|
            #[trigger] planned_steps(steps, needs).contains(x) ==> x.0 == "daily_prices"@ || x.0
                == "financial_statements"@ || x.0 == "ps_evs_ratios"@,
    decreases steps.len(),
{
    lemma_step_sources_distinct();
    if steps.len() > 0 {
        let t = steps.drop_last();
        let last = steps.last();
        lemma_plan_refreshes_stale_sources(t, needs);
        let pt = planned_steps(t, needs);
        let ps = planned_steps(steps, needs);
        assert(steps =~= t.push(last));
        assert forall|x: (Seq<char>, i32)| #[trigger] steps.contains(x) <==> (t.contains(x) || x == last) by {
            if steps.contains(x) {
                let i = choose|i: int| 0 <= i < steps.len() && steps[i] == x;
                if i < t.len() {
                    assert(t[i] == x);
                }
            }
            if t.contains(x) {
                let i = choose|i: int| 0 <= i < t.len() && t[i] == x;
                assert(steps[i] == x);
            }
            if x == last {
                assert(steps[steps.len() - 1] == x);
            }
        }
        if step_planned(last.0, needs) {
            assert(ps == pt.push(last));
            assert forall|x: (Seq<char>, i32)| #[trigger] ps.contains(x) <==> (pt.contains(x) || x == last) by {
                if ps.contains(x) {
                    let i = choose|i: int| 0 <= i < ps.len() && ps[i] == x;
                    if i < pt.len() {
                        assert(pt[i] == x);
                    }
                }
                if pt.contains(x) {
                    let i = choose|i: int| 0 <= i < pt.len() && pt[i] == x;
                    assert(ps[i] == x);
                }
                if x == last {
                    assert(ps[ps.len() - 1] == x);
                }
            }
        } else {
            assert(ps == pt);
        }
    }
}

} // verus!

