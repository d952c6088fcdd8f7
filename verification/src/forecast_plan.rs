//! A whole forecast: from what a store holds of a project to the series that are fitted, and from the
//! fitted projections to what is shown, refused and warned of.
use vstd::prelude::*;

use crate::clock::Timestamp;
use crate::forecast::{
    at_most, billable, day_of, day_opt, day_views, dense, densify, derived_refusals, dim_series,
    first_observed, forecast_rows, forecastable, held, is_fixed, on_calendar, refused_views, seam,
    series_of, window_start, DayRow, DimRow, Refused, RuleKind, DERIVED_MSG, MAX_DIM_FORECASTS, MIN_LOOKBACK_DAYS,
};
use crate::forecast_alerts::{
    alert_views, budget_alerts, build_alerts, margin_alerts, BudgetForecast, ForecastAlert,
    MarginForecast,
};
use crate::figure::Real;
use crate::limit::{LimitMetric, LimitWindow};
use crate::seqs::{first_where, ints, positions};
use crate::text::views;

verus! {

/// What a project used, by metric.
#[derive(Debug)]
pub struct Usage<T> {
    pub cost: T,
    pub calls: T,
    pub tokens: T,
}

impl<T: Copy> Usage<T> {
    /// The value of one metric.
    pub open spec fn of(self, m: LimitMetric) -> T {
        match m {
            LimitMetric::CostUsd => self.cost,
            LimitMetric::Calls => self.calls,
            LimitMetric::Tokens => self.tokens,
        }
    }

    /// The value of one metric.
    pub fn metric_value(&self, m: LimitMetric) -> (r: T)
        ensures
            r == self.of(m),
    {
        match m {
            LimitMetric::CostUsd => self.cost,
            LimitMetric::Calls => self.calls,
            LimitMetric::Tokens => self.tokens,
        }
    }
}

/// What a store holds of a project over the window of a forecast.
#[derive(Debug)]
pub struct RawForecast<T> {
    /// The day the project was made, counted from the Unix epoch.
    pub created: Option<i64>,
    pub daily: Vec<(String, Usage<T>)>,
    pub rules: Vec<RuleKind>,
    /// What was used over the rolling windows that the rules count over.
    pub window_usage: Vec<(LimitWindow, Usage<T>)>,
    /// The customers or products, worst margin first.
    pub keys: Vec<String>,
    pub daily_dim: Vec<DimRow<T>>,
}

/// The days of some usage.
pub open spec fn days_written<T>(daily: Seq<(String, Usage<T>)>) -> Seq<Seq<char>> {
    daily.map_values(|d: (String, Usage<T>)| d.0@)
}

/// The days of one metric.
pub open spec fn metric_days<T: Copy>(daily: Seq<(String, Usage<T>)>, m: LimitMetric) -> Seq<
    (Seq<char>, T),
> {
    daily.map_values(|d: (String, Usage<T>)| (d.0@, d.1.of(m)))
}

/// The days of one metric.
pub fn by_day<T: Copy>(daily: &Vec<(String, Usage<T>)>, m: LimitMetric) -> (r: Vec<DayRow<T>>)
    ensures
        day_views(r@) == metric_days(daily@, m),
{
    let mut out: Vec<DayRow<T>> = Vec::new();
    let mut i: usize = 0;
    while i < daily.len()
        invariant
            i <= daily.len(),
            day_views(out@) =~= metric_days(daily@, m).take(i as int),
        decreases daily.len() - i,
    {
        let d = DayRow { day: daily[i].0.clone(), value: daily[i].1.metric_value(m) };
        let ghost before = out@;
        out.push(d);
        assert(day_views(out@) =~= day_views(before).push((d.day@, d.value)));
        i += 1;
    }
    assert(metric_days(daily@, m).take(i as int) =~= metric_days(daily@, m));
    out
}

fn day_names<T>(daily: &Vec<(String, Usage<T>)>) -> (r: Vec<String>)
    ensures
        views(r@) == days_written(daily@),
{
    let mut out: Vec<String> = Vec::new();
    let mut i: usize = 0;
    while i < daily.len()
        invariant
            i <= daily.len(),
            views(out@) =~= days_written(daily@).take(i as int),
        decreases daily.len() - i,
    {
        let d = daily[i].0.clone();
        let ghost before = out@;
        out.push(d);
        assert(views(out@) =~= views(before).push(d@));
        i += 1;
    }
    assert(days_written(daily@).take(i as int) =~= days_written(daily@));
    out
}

/// The usage of a window.
pub open spec fn over<T>(w: LimitWindow) -> spec_fn((LimitWindow, Usage<T>)) -> bool {
    |x: (LimitWindow, Usage<T>)| x.0 == w
}

/// What stands against a rule now: its metric over its rolling window, `zero` where nothing is known of
/// that window.
pub open spec fn used_now<T: Copy>(
    usage: Seq<(LimitWindow, Usage<T>)>,
    w: LimitWindow,
    m: LimitMetric,
    zero: T,
) -> T {
    match first_where(usage, over(w)) {
        Some(i) => usage[i].1.of(m),
        None => zero,
    }
}

/// What stands against a rule now.
pub fn current_usage<T: Copy>(
    usage: &Vec<(LimitWindow, Usage<T>)>,
    w: LimitWindow,
    m: LimitMetric,
    zero: T,
) -> (r: T)
    ensures
        r == used_now(usage@, w, m, zero),
{
    let mut i: usize = 0;
    while i < usage.len()
        invariant
            i <= usage.len(),
            forall|j: int| 0 <= j < i ==> !over::<T>(w)(#[trigger] usage@[j]),
        decreases usage.len() - i,
    {
        if usage[i].0 == w {
            proof {
                crate::seqs::first_where_is(usage@, over(w), i as int);
            }
            return usage[i].1.metric_value(m);
        }
        i += 1;
    }
    proof {
        crate::seqs::first_where_none(usage@, over(w));
    }
    zero
}

/// A budget that is projected: its rule, by position, and what stands against it now.
#[derive(Debug)]
pub struct BudgetPlan<T> {
    pub rule: usize,
    pub current: T,
}

/// A customer or product that is projected: its row, by position, and its daily cost.
#[derive(Debug)]
pub struct MarginPlan<T> {
    pub row: usize,
    pub series: Vec<T>,
}

/// What is fitted and projected.
#[derive(Debug)]
pub struct ForecastPlan<T> {
    /// The oldest day of the window, counted from the Unix epoch.
    pub start: i64,
    pub lookback: u32,
    pub cost: Vec<T>,
    pub calls: Vec<T>,
    pub tokens: Vec<T>,
    pub budgets: Vec<BudgetPlan<T>>,
    pub margins: Vec<MarginPlan<T>>,
}

impl<T> ForecastPlan<T> {
    /// The series that a metric is fitted over.
    pub open spec fn fitted(self, m: LimitMetric) -> Seq<T> {
        match m {
            LimitMetric::CostUsd => self.cost@,
            LimitMetric::Calls => self.calls@,
            LimitMetric::Tokens => self.tokens@,
        }
    }

    /// The series that a metric is fitted over.
    pub fn series(&self, m: LimitMetric) -> (r: &Vec<T>)
        ensures
            r@ == self.fitted(m),
    {
        match m {
            LimitMetric::CostUsd => &self.cost,
            LimitMetric::Calls => &self.calls,
            LimitMetric::Tokens => &self.tokens,
        }
    }
}

/// The budgets that are projected: the rules with a fixed threshold, in order.
pub open spec fn planned_budgets<T: Copy>(raw: RawForecast<T>, zero: T) -> Seq<(int, T)> {
    positions(raw.rules@, is_fixed()).map_values(
        |i: int|
            (
                i,
                used_now(raw.window_usage@, raw.rules@[i].window, raw.rules@[i].metric, zero),
            ),
    )
}

/// The customers or products that are projected: all but the unattributed bucket, the worst fifty.
pub open spec fn planned_margins<T>(
    raw: RawForecast<T>,
    unattributed: Seq<char>,
    start: int,
    n: nat,
    first: Option<int>,
    zero: T,
) -> Seq<(int, Seq<T>)> {
    at_most(positions(raw.keys@, billable(unattributed)), MAX_DIM_FORECASTS as int).map_values(
        |i: int|
            (i, dim_series(raw.daily_dim@, raw.keys@[i]@, unattributed, start, n, first, zero)),
    )
}

/// Projected budgets as plain values.
pub open spec fn budget_views<T>(v: Seq<BudgetPlan<T>>) -> Seq<(int, T)> {
    v.map_values(|b: BudgetPlan<T>| (b.rule as int, b.current))
}

/// Projected customers or products as plain values.
pub open spec fn margin_views<T>(v: Seq<MarginPlan<T>>) -> Seq<(int, Seq<T>)> {
    v.map_values(|m: MarginPlan<T>| (m.row as int, m.series@))
}

/// What a forecast fits and projects. The lookback is held to four to ninety days; every series starts
/// where silence begins to mean that nothing was spent.
pub fn plan_forecast<T: Copy>(
    raw: &RawForecast<T>,
    until: Timestamp,
    lookback: u32,
    unattributed: &str,
    zero: T,
) -> (r: ForecastPlan<T>)
    requires
        until.valid(),
        on_calendar(day_of(until) - 90),
        on_calendar(day_of(until) + 1),
    ensures
        r.lookback == held(lookback as int, MIN_LOOKBACK_DAYS as int, 90),
        r.start == day_of(until) - (r.lookback - 1),
        ({
            let first = seam(day_opt(raw.created), days_written(raw.daily@), r.start as int);
            &&& forall|m: LimitMetric| #[trigger]
                r.fitted(m) == dense(
                    metric_days(raw.daily@, m),
                    r.start as int,
                    r.lookback as nat,
                    first,
                    zero,
                )
            &&& budget_views(r.budgets@) == planned_budgets(*raw, zero)
            &&& margin_views(r.margins@) == planned_margins(
                *raw,
                unattributed@,
                r.start as int,
                r.lookback as nat,
                first,
                zero,
            )
        }),
{
    let lookback: u32 = if lookback < MIN_LOOKBACK_DAYS {
        MIN_LOOKBACK_DAYS
    } else if lookback > 90 {
        90
    } else {
        lookback
    };
    let start = window_start(until, lookback);
    let names = day_names(&raw.daily);
    let first = first_observed(raw.created, &names, start);
    let rows = by_day(&raw.daily, LimitMetric::CostUsd);
    let cost = densify(&rows, start, lookback, first, zero);
    let rows = by_day(&raw.daily, LimitMetric::Calls);
    let calls = densify(&rows, start, lookback, first, zero);
    let rows = by_day(&raw.daily, LimitMetric::Tokens);
    let tokens = densify(&rows, start, lookback, first, zero);
    let budgets = plan_budgets(raw, zero);
    let margins = plan_margins(raw, unattributed, start, lookback, first, zero);
    ForecastPlan { start, lookback, cost, calls, tokens, budgets, margins }
}

fn plan_budgets<T: Copy>(raw: &RawForecast<T>, zero: T) -> (r: Vec<BudgetPlan<T>>)
    ensures
        budget_views(r@) == planned_budgets(*raw, zero),
{
    let (kept, _) = forecastable(&raw.rules);
    let mut out: Vec<BudgetPlan<T>> = Vec::new();
    let mut i: usize = 0;
    proof {
        crate::seqs::positions_are_exact(raw.rules@, is_fixed());
    }
    while i < kept.len()
        invariant
            i <= kept.len(),
            ints(kept@) == positions(raw.rules@, is_fixed()),
            forall|k: int|
                0 <= k < positions(raw.rules@, is_fixed()).len() ==> 0 <= #[trigger] positions(
                    raw.rules@,
                    is_fixed(),
                )[k] < raw.rules@.len(),
            budget_views(out@) =~= planned_budgets(*raw, zero).take(i as int),
        decreases kept.len() - i,
    {
        assert(ints(kept@)[i as int] == kept@[i as int]);
        let k: usize = kept[i];
        let r = &raw.rules[k];
        let current = current_usage(&raw.window_usage, r.window, r.metric, zero);
        let ghost before = out@;
        out.push(BudgetPlan { rule: k, current });
        assert(budget_views(out@) =~= budget_views(before).push((k as int, current)));
        i += 1;
    }
    assert(ints(kept@).len() == kept@.len());
    assert(planned_budgets(*raw, zero).take(i as int) =~= planned_budgets(*raw, zero));
    out
}

fn plan_margins<T: Copy>(
    raw: &RawForecast<T>,
    unattributed: &str,
    start: i64,
    lookback: u32,
    first: Option<i64>,
    zero: T,
) -> (r: Vec<MarginPlan<T>>)
    requires
        on_calendar(start as int),
        on_calendar(start + lookback),
    ensures
        margin_views(r@) == planned_margins(
            *raw,
            unattributed@,
            start as int,
            lookback as nat,
            day_opt(first),
            zero,
        ),
{
    let kept = forecast_rows(&raw.keys, unattributed);
    let ghost all = positions(raw.keys@, billable(unattributed@));
    let ghost want = planned_margins(
        *raw,
        unattributed@,
        start as int,
        lookback as nat,
        day_opt(first),
        zero,
    );
    let mut out: Vec<MarginPlan<T>> = Vec::new();
    let mut i: usize = 0;
    proof {
        crate::seqs::positions_are_exact(raw.keys@, billable(unattributed@));
    }
    while i < kept.len()
        invariant
            i <= kept.len(),
            on_calendar(start as int),
            on_calendar(start + lookback),
            all == positions(raw.keys@, billable(unattributed@)),
            ints(kept@) == at_most(all, MAX_DIM_FORECASTS as int),
            forall|k: int| 0 <= k < all.len() ==> 0 <= #[trigger] all[k] < raw.keys@.len(),
            want == planned_margins(
                *raw,
                unattributed@,
                start as int,
                lookback as nat,
                day_opt(first),
                zero,
            ),
            margin_views(out@) =~= want.take(i as int),
        decreases kept.len() - i,
    {
        assert(ints(kept@)[i as int] == kept@[i as int]);
        assert(ints(kept@).len() == kept@.len());
        assert(ints(kept@)[i as int] == all[i as int]);
        let k: usize = kept[i];
        let series = series_of(
            &raw.daily_dim,
            raw.keys[k].as_str(),
            unattributed,
            start,
            lookback,
            first,
            zero,
        );
        let ghost before = out@;
        out.push(MarginPlan { row: k, series });
        assert(margin_views(out@) =~= margin_views(before).push((k as int, series@)));
        i += 1;
    }
    assert(ints(kept@).len() == kept@.len());
    assert(want.take(i as int) =~= want);
    out
}

// ------------------------------------------------------------------ what is shown of it

/// A budget's forecast as it is shown: without a date where something stands against its trend.
pub open spec fn shown_budget() -> spec_fn(BudgetForecast) -> BudgetForecast {
    |b: BudgetForecast|
        if b.trend.objection is Some {
            BudgetForecast { eta: None, ..b }
        } else {
            b
        }
}

/// A margin's forecast as it is shown: without a date where something stands against its trend.
pub open spec fn shown_margin() -> spec_fn(MarginForecast) -> MarginForecast {
    |m: MarginForecast|
        if m.trend.objection is Some {
            MarginForecast { eta: None, ..m }
        } else {
            m
        }
}

/// The refusals of the budgets that something stands against, in order.
pub open spec fn budget_refusals(v: Seq<BudgetForecast>) -> Seq<(Seq<char>, Seq<char>)>
    decreases v.len(),
{
    if v.len() == 0 {
        seq![]
    } else {
        let rest = budget_refusals(v.drop_last());
        match v.last().trend.objection {
            Some(m) => rest.push((v.last().rule_id@, m@)),
            None => rest,
        }
    }
}

/// The refusals of the margins that something stands against, in order.
pub open spec fn margin_refusals(v: Seq<MarginForecast>) -> Seq<(Seq<char>, Seq<char>)>
    decreases v.len(),
{
    if v.len() == 0 {
        seq![]
    } else {
        let rest = margin_refusals(v.drop_last());
        match v.last().trend.objection {
            Some(m) => rest.push((v.last().key@, m@)),
            None => rest,
        }
    }
}

/// Every refusal of a forecast, in the order they are listed: the spend projection, the rules with
/// derived thresholds, then the budgets and the margins that something stands against.
pub open spec fn all_refusals(
    spend: Option<String>,
    rules: Seq<RuleKind>,
    budgets: Seq<BudgetForecast>,
    margins: Seq<MarginForecast>,
) -> Seq<(Seq<char>, Seq<char>)> {
    (match spend {
        Some(m) => seq![("spend"@, m@)],
        None => seq![],
    }) + derived_refusals(rules) + budget_refusals(budgets) + margin_refusals(margins)
}

/// What a forecast is about.
#[derive(Debug)]
pub struct ForecastHead {
    pub project_id: String,
    pub generated_at: Timestamp,
    /// Whether margins are told apart by customer or by product.
    pub dimension: String,
    pub horizon_days: u32,
    pub lookback_days: u32,
}

/// Where the spend is going.
#[derive(Debug)]
pub struct SpendProjection {
    pub projected_daily_cost: Real,
    pub projected_cost_next_7d: Real,
    pub projected_cost_next_30d: Real,
    pub confidence: Option<Real>,
    /// What stands against showing it: too little evidence, in words.
    pub objection: Option<String>,
}

/// What a forecast shows.
#[derive(Debug)]
pub struct Conclusion {
    pub head: ForecastHead,
    pub spend: SpendProjection,
    pub budgets: Vec<BudgetForecast>,
    pub margins: Vec<MarginForecast>,
    pub alerts: Vec<ForecastAlert>,
    pub refused: Vec<Refused>,
}

/// What a forecast shows of its projections: no date that the evidence does not carry, every refusal by
/// name, and the warnings that are left.
pub fn conclude(
    head: ForecastHead,
    spend: SpendProjection,
    rules: &Vec<RuleKind>,
    budgets: Vec<BudgetForecast>,
    margins: Vec<MarginForecast>,
) -> (r: Conclusion)
    ensures
        r.head == head,
        r.spend == spend,
        r.budgets@ == budgets@.map_values(shown_budget()),
        r.margins@ == margins@.map_values(shown_margin()),
        refused_views(r.refused@) == all_refusals(spend.objection, rules@, budgets@, margins@),
        alert_views(r.alerts@) == budget_alerts(head.project_id@, r.budgets@) + margin_alerts(
            head.project_id@,
            r.margins@,
        ),
{
    let mut refused: Vec<Refused> = Vec::new();
    if let Some(m) = &spend.objection {
        refused.push(Refused { subject: "spend".to_owned(), reason: m.clone() });
    }
    assert(refused_views(refused@) =~= (match spend.objection {
        Some(m) => seq![("spend"@, m@)],
        None => seq![],
    }));
    let (_, derived) = forecastable(rules);
    append_refused(&mut refused, derived);
    let mut budgets = budgets;
    withhold_budgets(&mut budgets, &mut refused);
    let mut margins = margins;
    withhold_margins(&mut margins, &mut refused);
    let alerts = build_alerts(head.project_id.as_str(), &budgets, &margins);
    Conclusion { head, spend, budgets, margins, alerts, refused }
}

fn append_refused(out: &mut Vec<Refused>, more: Vec<Refused>)
    ensures
        refused_views(final(out)@) == refused_views(old(out)@) + refused_views(more@),
{
    let ghost start = refused_views(out@);
    let ghost mv = refused_views(more@);
    let mut i: usize = 0;
    assert(start + mv.take(0) =~= start);
    while i < more.len()
        invariant
            i <= more.len(),
            mv == refused_views(more@),
            refused_views(out@) =~= start + mv.take(i as int),
        decreases more.len() - i,
    {
        let x = Refused { subject: more[i].subject.clone(), reason: more[i].reason.clone() };
        let ghost before = out@;
        out.push(x);
        assert(refused_views(out@) =~= refused_views(before).push((x.subject@, x.reason@)));
        assert(mv.take(i + 1) =~= mv.take(i as int).push(mv[i as int]));
        i += 1;
    }
    assert(mv.take(i as int) =~= mv);
}

fn withhold_budgets(v: &mut Vec<BudgetForecast>, refused: &mut Vec<Refused>)
    ensures
        final(v)@ == old(v)@.map_values(shown_budget()),
        refused_views(final(refused)@) == refused_views(old(refused)@) + budget_refusals(old(v)@),
{
    let ghost start = v@;
    let ghost base = refused_views(refused@);
    let mut i: usize = 0;
    assert(base + budget_refusals(start.take(0)) =~= base);
    while i < v.len()
        invariant
            i <= v@.len() == start.len(),
            forall|j: int| 0 <= j < i ==> (#[trigger] v@[j]) == shown_budget()(start[j]),
            forall|j: int| i <= j < start.len() ==> (#[trigger] v@[j]) == start[j],
            refused_views(refused@) == base + budget_refusals(start.take(i as int)),
        decreases v.len() - i,
    {
        assert(start.take(i + 1).drop_last() =~= start.take(i as int));
        let objection: Option<String> = v[i].trend.objection.clone();
        if let Some(m) = objection {
            let x = Refused { subject: v[i].rule_id.clone(), reason: m };
            let ghost before = refused@;
            refused.push(x);
            v[i].eta = None;
            assert(refused_views(refused@) =~= refused_views(before).push((x.subject@, x.reason@)));
            assert(refused_views(refused@) =~= base + budget_refusals(start.take(i + 1)));
        }
        i += 1;
    }
    assert(start.take(i as int) =~= start);
    assert(v@ =~= start.map_values(shown_budget()));
}

fn withhold_margins(v: &mut Vec<MarginForecast>, refused: &mut Vec<Refused>)
    ensures
        final(v)@ == old(v)@.map_values(shown_margin()),
        refused_views(final(refused)@) == refused_views(old(refused)@) + margin_refusals(old(v)@),
{
    let ghost start = v@;
    let ghost base = refused_views(refused@);
    let mut i: usize = 0;
    assert(base + margin_refusals(start.take(0)) =~= base);
    while i < v.len()
        invariant
            i <= v@.len() == start.len(),
            forall|j: int| 0 <= j < i ==> (#[trigger] v@[j]) == shown_margin()(start[j]),
            forall|j: int| i <= j < start.len() ==> (#[trigger] v@[j]) == start[j],
            refused_views(refused@) == base + margin_refusals(start.take(i as int)),
        decreases v.len() - i,
    {
        assert(start.take(i + 1).drop_last() =~= start.take(i as int));
        let objection: Option<String> = v[i].trend.objection.clone();
        if let Some(m) = objection {
            let x = Refused { subject: v[i].key.clone(), reason: m };
            let ghost before = refused@;
            refused.push(x);
            v[i].eta = None;
            assert(refused_views(refused@) =~= refused_views(before).push((x.subject@, x.reason@)));
            assert(refused_views(refused@) =~= base + margin_refusals(start.take(i + 1)));
        }
        i += 1;
    }
    assert(start.take(i as int) =~= start);
    assert(v@ =~= start.map_values(shown_margin()));
}

/// No risk and no evidence are told apart: a budget that something stands against is shown without a
/// date and is named among the refusals with that reason.
pub proof fn what_is_withheld_is_named(
    spend: Option<String>,
    rules: Seq<RuleKind>,
    budgets: Seq<BudgetForecast>,
    margins: Seq<MarginForecast>,
    i: int,
)
    requires
        0 <= i < budgets.len(),
        budgets[i].trend.objection is Some,
    ensures
        budgets.map_values(shown_budget())[i].eta is None,
        all_refusals(spend, rules, budgets, margins).contains(
            (budgets[i].rule_id@, budgets[i].trend.objection->0@),
        ),
{
    budget_refusal_listed(budgets, i);
    let x = (budgets[i].rule_id@, budgets[i].trend.objection->0@);
    let own = budget_refusals(budgets);
    let k = choose|k: int| 0 <= k < own.len() && own[k] == x;
    let before = (match spend {
        Some(m) => seq![("spend"@, m@)],
        None => seq![],
    }) + derived_refusals(rules);
    assert(all_refusals(spend, rules, budgets, margins)[before.len() + k] == x);
}

proof fn budget_refusal_listed(v: Seq<BudgetForecast>, i: int)
    requires
        0 <= i < v.len(),
        v[i].trend.objection is Some,
    ensures
        budget_refusals(v).contains((v[i].rule_id@, v[i].trend.objection->0@)),
    decreases v.len(),
{
    let x = (v[i].rule_id@, v[i].trend.objection->0@);
    let rest = budget_refusals(v.drop_last());
    if i == v.len() - 1 {
        assert(budget_refusals(v)[rest.len() as int] == x);
    } else {
        budget_refusal_listed(v.drop_last(), i);
        let k = choose|k: int| 0 <= k < rest.len() && rest[k] == x;
        assert(budget_refusals(v)[k] == x);
    }
}

/// The same holds of a customer or product that something stands against.
pub proof fn a_withheld_margin_is_named(
    spend: Option<String>,
    rules: Seq<RuleKind>,
    budgets: Seq<BudgetForecast>,
    margins: Seq<MarginForecast>,
    i: int,
)
    requires
        0 <= i < margins.len(),
        margins[i].trend.objection is Some,
    ensures
        margins.map_values(shown_margin())[i].eta is None,
        all_refusals(spend, rules, budgets, margins).contains(
            (margins[i].key@, margins[i].trend.objection->0@),
        ),
{
    margin_refusal_listed(margins, i);
    let x = (margins[i].key@, margins[i].trend.objection->0@);
    let own = margin_refusals(margins);
    let k = choose|k: int| 0 <= k < own.len() && own[k] == x;
    let before = (match spend {
        Some(m) => seq![("spend"@, m@)],
        None => seq![],
    }) + derived_refusals(rules) + budget_refusals(budgets);
    assert(all_refusals(spend, rules, budgets, margins)[before.len() + k] == x);
}

proof fn margin_refusal_listed(v: Seq<MarginForecast>, i: int)
    requires
        0 <= i < v.len(),
        v[i].trend.objection is Some,
    ensures
        margin_refusals(v).contains((v[i].key@, v[i].trend.objection->0@)),
    decreases v.len(),
{
    let x = (v[i].key@, v[i].trend.objection->0@);
    let rest = margin_refusals(v.drop_last());
    if i == v.len() - 1 {
        assert(margin_refusals(v)[rest.len() as int] == x);
    } else {
        margin_refusal_listed(v.drop_last(), i);
        let k = choose|k: int| 0 <= k < rest.len() && rest[k] == x;
        assert(margin_refusals(v)[k] == x);
    }
}

/// No rule is passed over in silence: each is projected or refused by name.
pub proof fn every_rule_is_projected_or_refused(rules: Seq<RuleKind>, i: int)
    requires
        0 <= i < rules.len(),
    ensures
        positions(rules, is_fixed()).contains(i) || derived_refusals(rules).contains(
            (rules[i].id@, DERIVED_MSG@),
        ),
    decreases rules.len(),
{
    if rules[i].fixed {
        crate::seqs::positions_are_exact(rules, is_fixed());
        assert(is_fixed()(rules[i]));
    } else {
        let x = (rules[i].id@, DERIVED_MSG@);
        let d = rules.drop_last();
        let rest = derived_refusals(d);
        if i == rules.len() - 1 {
            assert(derived_refusals(rules)[rest.len() as int] == x);
        } else {
            every_rule_is_projected_or_refused(d, i);
            crate::seqs::positions_are_exact(d, is_fixed());
            assert(d[i] == rules[i]);
            if positions(d, is_fixed()).contains(i) {
                let k = choose|k: int|
                    0 <= k < positions(d, is_fixed()).len() && positions(d, is_fixed())[k] == i;
                assert(is_fixed()(d[positions(d, is_fixed())[k]]));
            }
            let k = choose|k: int| 0 <= k < rest.len() && rest[k] == x;
            assert(derived_refusals(rules)[k] == x);
        }
    }
}

// ------------------------------------------------------------------ what a plan is made of

/// Each metric is read from its own figure: of a day, of a window, and of a plan's series.
pub proof fn each_metric_is_its_own<T: Copy>(
    u: &Usage<T>,
    m: LimitMetric,
    x: T,
    p: &ForecastPlan<T>,
    s: &Vec<T>,
    daily: &Vec<(String, Usage<T>)>,
    d: Vec<DayRow<T>>,
    i: int,
)
    requires
        call_ensures(Usage::<T>::metric_value, (u, m), x),
        call_ensures(ForecastPlan::<T>::series, (p, m), s),
        call_ensures(by_day::<T>, (daily, m), d),
        0 <= i < daily@.len(),
    ensures
        m is CostUsd ==> x == u.cost && s@ == p.cost@ && d@[i].value == daily@[i].1.cost,
        m is Calls ==> x == u.calls && s@ == p.calls@ && d@[i].value == daily@[i].1.calls,
        m is Tokens ==> x == u.tokens && s@ == p.tokens@ && d@[i].value == daily@[i].1.tokens,
        d@.len() == daily@.len(),
        d@[i].day@ == daily@[i].0@,
{
    assert(day_views(d@).len() == d@.len());
    assert(day_views(d@)[i] == (d@[i].day@, d@[i].value));
    assert(metric_days(daily@, m)[i] == (daily@[i].0@, daily@[i].1.of(m)));
}

/// What stands against a rule is its own metric over its own window, and nothing where that window is not
/// known.
pub proof fn a_rule_stands_against_its_own_window<T: Copy>(
    usage: &Vec<(LimitWindow, Usage<T>)>,
    w: LimitWindow,
    m: LimitMetric,
    zero: T,
    r: T,
    i: int,
)
    requires
        call_ensures(current_usage::<T>, (usage, w, m, zero), r),
    ensures
        0 <= i < usage@.len() && usage@[i].0 == w && (forall|j: int|
            0 <= j < i ==> (#[trigger] usage@[j]).0 != w) ==> {
            &&& m is CostUsd ==> r == usage@[i].1.cost
            &&& m is Calls ==> r == usage@[i].1.calls
            &&& m is Tokens ==> r == usage@[i].1.tokens
        },
        (forall|j: int| 0 <= j < usage@.len() ==> (#[trigger] usage@[j]).0 != w) ==> r == zero,
{
    let p = over::<T>(w);
    if 0 <= i < usage@.len() && usage@[i].0 == w && (forall|j: int|
        0 <= j < i ==> (#[trigger] usage@[j]).0 != w) {
        assert(p(usage@[i]));
        assert forall|j: int| 0 <= j < i implies !p(#[trigger] usage@[j]) by {}
        crate::seqs::first_where_is(usage@, p, i);
    }
    crate::seqs::first_where_tells(usage@, p);
}

/// Every metric is fitted over its own days, in the window that ends with the day of the forecast and from
/// the day that counts on.
pub proof fn each_metric_is_fitted_over_its_own_days<T: Copy>(
    raw: &RawForecast<T>,
    until: Timestamp,
    lookback: u32,
    unattributed: &str,
    zero: T,
    r: ForecastPlan<T>,
    m: LimitMetric,
    daily: &Vec<(String, Usage<T>)>,
    days: &Vec<DayRow<T>>,
    was: Vec<DayRow<T>>,
    names: &Vec<String>,
    first: Option<i64>,
    s: Vec<T>,
    today: i64,
)
    requires
        until.valid(),
        on_calendar(day_of(until) - 90),
        on_calendar(day_of(until) + 1),
        call_ensures(plan_forecast::<T>, (raw, until, lookback, unattributed, zero), r),
        *daily == raw.daily,
        call_ensures(by_day::<T>, (daily, m), was),
        *days == was,
        names@.len() == daily@.len(),
        forall|i: int| 0 <= i < names@.len() ==> (#[trigger] names@[i])@ == daily@[i].0@,
        call_ensures(first_observed, (raw.created, names, r.start), first),
        call_ensures(densify::<T>, (days, r.start, r.lookback, first, zero), s),
        call_ensures(crate::forecast::epoch_day, (until,), today),
    ensures
        4 <= r.lookback <= 90,
        4 <= lookback <= 90 ==> r.lookback == lookback,
        r.start + r.lookback == today + 1,
        m is CostUsd ==> r.cost@ == s@,
        m is Calls ==> r.calls@ == s@,
        m is Tokens ==> r.tokens@ == s@,
{
    assert(views(names@) =~= days_written(raw.daily@));
    assert(r.fitted(m) == s@);
}

/// The rules with a fixed figure are projected, in order, each against what stands against it; and the
/// customers or products that are forecast, in order, each over its own series.
pub proof fn what_is_projected_is_its_own<T: Copy>(
    raw: &RawForecast<T>,
    until: Timestamp,
    lookback: u32,
    unattributed: &str,
    zero: T,
    r: ForecastPlan<T>,
    rules: &Vec<RuleKind>,
    picked: (Vec<usize>, Vec<Refused>),
    keys: &Vec<String>,
    rows: Vec<usize>,
    i: int,
    j: int,
    usage: &Vec<(LimitWindow, Usage<T>)>,
    now: T,
)
    requires
        until.valid(),
        on_calendar(day_of(until) - 90),
        on_calendar(day_of(until) + 1),
        call_ensures(plan_forecast::<T>, (raw, until, lookback, unattributed, zero), r),
        *rules == raw.rules,
        call_ensures(forecastable, (rules,), picked),
        *keys == raw.keys,
        call_ensures(forecast_rows, (keys, unattributed), rows),
        *usage == raw.window_usage,
        0 <= i < r.budgets@.len(),
        r.budgets@[i].rule < rules@.len(),
        call_ensures(
            current_usage::<T>,
            (
                usage,
                rules@[r.budgets@[i].rule as int].window,
                rules@[r.budgets@[i].rule as int].metric,
                zero,
            ),
            now,
        ),
    ensures
        r.budgets@.len() == picked.0@.len(),
        r.budgets@[i].rule == picked.0@[i],
        r.budgets@[i].current == now,
        r.margins@.len() == rows@.len(),
        0 <= j < rows@.len() ==> r.margins@[j].row == rows@[j],
{
    let b = budget_views(r.budgets@);
    let fixed = positions(raw.rules@, is_fixed());
    assert(b.len() == r.budgets@.len());
    assert(planned_budgets(*raw, zero).len() == fixed.len());
    assert(ints(picked.0@).len() == picked.0@.len());
    assert(b[i] == (r.budgets@[i].rule as int, r.budgets@[i].current));
    assert(planned_budgets(*raw, zero)[i] == (
        fixed[i],
        used_now(raw.window_usage@, raw.rules@[fixed[i]].window, raw.rules@[fixed[i]].metric, zero),
    ));
    assert(ints(picked.0@)[i] == picked.0@[i]);
    let first = seam(day_opt(raw.created), days_written(raw.daily@), r.start as int);
    let m = margin_views(r.margins@);
    let pm = planned_margins(*raw, unattributed@, r.start as int, r.lookback as nat, first, zero);
    let top = at_most(positions(raw.keys@, billable(unattributed@)), MAX_DIM_FORECASTS as int);
    assert(m.len() == r.margins@.len());
    assert(pm.len() == top.len());
    assert(ints(rows@).len() == rows@.len());
    if 0 <= j < rows@.len() {
        assert(m[j] == (r.margins@[j].row as int, r.margins@[j].series@));
        assert(pm[j].0 == top[j]);
        assert(ints(rows@)[j] == rows@[j]);
    }
}

/// A customer's or product's projection is fitted over that very key's series.
pub proof fn a_margin_is_fitted_over_its_own_series<T: Copy>(
    raw: &RawForecast<T>,
    until: Timestamp,
    lookback: u32,
    unattributed: &str,
    zero: T,
    r: ForecastPlan<T>,
    j: int,
    names: &Vec<String>,
    first: Option<i64>,
    dims: &Vec<DimRow<T>>,
    key: &str,
    s: Vec<T>,
)
    requires
        until.valid(),
        on_calendar(day_of(until) - 90),
        on_calendar(day_of(until) + 1),
        call_ensures(plan_forecast::<T>, (raw, until, lookback, unattributed, zero), r),
        names@.len() == raw.daily@.len(),
        forall|i: int| 0 <= i < names@.len() ==> (#[trigger] names@[i])@ == raw.daily@[i].0@,
        call_ensures(first_observed, (raw.created, names, r.start), first),
        0 <= j < r.margins@.len(),
        r.margins@[j].row < raw.keys@.len(),
        key@ == raw.keys@[r.margins@[j].row as int]@,
        *dims == raw.daily_dim,
        call_ensures(
            series_of::<T>,
            (dims, key, unattributed, r.start, r.lookback, first, zero),
            s,
        ),
    ensures
        r.margins@[j].series@ == s@,
{
    assert(views(names@) =~= days_written(raw.daily@));
    let seam_day = seam(day_opt(raw.created), days_written(raw.daily@), r.start as int);
    let m = margin_views(r.margins@);
    let pm = planned_margins(*raw, unattributed@, r.start as int, r.lookback as nat, seam_day, zero);
    let top = at_most(positions(raw.keys@, billable(unattributed@)), MAX_DIM_FORECASTS as int);
    assert(m.len() == r.margins@.len());
    assert(m[j] == (r.margins@[j].row as int, r.margins@[j].series@));
    assert(pm[j] == (
        top[j],
        dim_series(
            raw.daily_dim@,
            raw.keys@[top[j]]@,
            unattributed@,
            r.start as int,
            r.lookback as nat,
            seam_day,
            zero,
        ),
    ));
}

/// A forecast shows its projections as they are but for the dates that something stands against, and warns
/// of exactly what it shows.
pub proof fn a_conclusion_shows_its_projections(
    head: ForecastHead,
    spend: SpendProjection,
    rules: &Vec<RuleKind>,
    budgets: Vec<BudgetForecast>,
    margins: Vec<MarginForecast>,
    r: Conclusion,
    i: int,
    j: int,
    project: &str,
    shown_budgets: &Vec<BudgetForecast>,
    shown_margins: &Vec<MarginForecast>,
    alerts: Vec<ForecastAlert>,
)
    requires
        call_ensures(conclude, (head, spend, rules, budgets, margins), r),
        project@ == head.project_id@,
        *shown_budgets == r.budgets,
        *shown_margins == r.margins,
        call_ensures(build_alerts, (project, shown_budgets, shown_margins), alerts),
    ensures
        r.head == head && r.spend == spend,
        r.budgets@.len() == budgets@.len() && r.margins@.len() == margins@.len(),
        0 <= i < budgets@.len() ==> {
            let x = r.budgets@[i];
            let y = budgets@[i];
            &&& y.trend.objection is Some ==> x.eta is None
            &&& y.trend.objection is None ==> x.eta == y.eta
            &&& x.rule_id == y.rule_id && x.metric == y.metric && x.window == y.window && x.threshold
                == y.threshold && x.projected_daily == y.projected_daily && x.current == y.current
                && x.trend == y.trend
        },
        0 <= j < margins@.len() ==> {
            let x = r.margins@[j];
            let y = margins@[j];
            &&& y.trend.objection is Some ==> x.eta is None
            &&& y.trend.objection is None ==> x.eta == y.eta
            &&& x.key == y.key && x.currently_profitable == y.currently_profitable && x.revenue_per_day
                == y.revenue_per_day && x.cost_per_day == y.cost_per_day && x.margin_usd == y.margin_usd
                && x.trend == y.trend
        },
        alert_views(r.alerts@) == alert_views(alerts@),
{
}

/// A spend projection that something stands against is named first among the refusals, with its reason;
/// and a forecast refuses nothing that nothing stands against.
pub proof fn refusals_have_their_reasons(
    head: ForecastHead,
    spend: SpendProjection,
    rules: &Vec<RuleKind>,
    budgets: Vec<BudgetForecast>,
    margins: Vec<MarginForecast>,
    r: Conclusion,
)
    requires
        call_ensures(conclude, (head, spend, rules, budgets, margins), r),
    ensures
        spend.objection is Some ==> r.refused@.len() > 0 && r.refused@[0].subject@ == "spend"@
            && r.refused@[0].reason@ == spend.objection->0@,
        spend.objection is None && (forall|i: int|
            0 <= i < rules@.len() ==> (#[trigger] rules@[i]).fixed) && (forall|i: int|
            0 <= i < budgets@.len() ==> (#[trigger] budgets@[i]).trend.objection is None) && (forall|
            i: int,
        |
            0 <= i < margins@.len() ==> (#[trigger] margins@[i]).trend.objection is None)
            ==> r.refused@.len() == 0,
{
    let w = refused_views(r.refused@);
    assert(w.len() == r.refused@.len());
    if spend.objection is Some {
        assert(w[0] == ("spend"@, spend.objection->0@));
        assert(w[0] == (r.refused@[0].subject@, r.refused@[0].reason@));
    }
    if forall|i: int| 0 <= i < rules@.len() ==> (#[trigger] rules@[i]).fixed {
        no_derived(rules@);
    }
    if forall|i: int| 0 <= i < budgets@.len() ==> (#[trigger] budgets@[i]).trend.objection is None {
        no_budget_refused(budgets@);
    }
    if forall|i: int| 0 <= i < margins@.len() ==> (#[trigger] margins@[i]).trend.objection is None {
        no_margin_refused(margins@);
    }
}

proof fn no_derived(v: Seq<RuleKind>)
    requires
        forall|i: int| 0 <= i < v.len() ==> (#[trigger] v[i]).fixed,
    ensures
        derived_refusals(v).len() == 0,
    decreases v.len(),
{
    if v.len() > 0 {
        let d = v.drop_last();
        assert forall|i: int| 0 <= i < d.len() implies (#[trigger] d[i]).fixed by {
            assert(d[i] == v[i]);
        }
        no_derived(d);
        assert(v[v.len() - 1].fixed);
    }
}

proof fn no_budget_refused(v: Seq<BudgetForecast>)
    requires
        forall|i: int| 0 <= i < v.len() ==> (#[trigger] v[i]).trend.objection is None,
    ensures
        budget_refusals(v).len() == 0,
    decreases v.len(),
{
    if v.len() > 0 {
        let d = v.drop_last();
        assert forall|i: int| 0 <= i < d.len() implies (#[trigger] d[i]).trend.objection is None by {
            assert(d[i] == v[i]);
        }
        no_budget_refused(d);
        assert(v[v.len() - 1].trend.objection is None);
    }
}

proof fn no_margin_refused(v: Seq<MarginForecast>)
    requires
        forall|i: int| 0 <= i < v.len() ==> (#[trigger] v[i]).trend.objection is None,
    ensures
        margin_refusals(v).len() == 0,
    decreases v.len(),
{
    if v.len() > 0 {
        let d = v.drop_last();
        assert forall|i: int| 0 <= i < d.len() implies (#[trigger] d[i]).trend.objection is None by {
            assert(d[i] == v[i]);
        }
        no_margin_refused(d);
        assert(v[v.len() - 1].trend.objection is None);
    }
}

/// The series that a metric is fitted over is that metric's own.
pub proof fn each_series_is_its_metrics_own<T: Copy>(p: &ForecastPlan<T>, m: LimitMetric, r: &Vec<T>)
    requires
        call_ensures(ForecastPlan::<T>::series, (p, m), r),
    ensures
        m == LimitMetric::CostUsd ==> r@ == p.cost@,
        m == LimitMetric::Calls ==> r@ == p.calls@,
        m == LimitMetric::Tokens ==> r@ == p.tokens@,
{
}

} // verus!
