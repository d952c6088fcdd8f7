//! Forecasts: which days a trend may be fitted over, which projections are made at all, and which are
//! withheld for want of evidence.
use vstd::prelude::*;

use crate::clock::{Timestamp, NANOS_PER_SEC};
use crate::dates::{
    calendar_day, date_text, epoch_day_of, show_day, DAY_SECS, EPOCH_DAY, FIRST_SECOND, LAST_SECOND,
};
use crate::error::{fails_with, ApiError, ErrorCode};
use crate::limit::{LimitMetric, LimitWindow};
use crate::seqs::{ints, positions, positions_step};
use crate::text::{same, views};

verus! {

/// The most customers or products that are forecast.
pub const MAX_DIM_FORECASTS: usize = 50;

/// Days of evidence below which no trend is presented; a shorter lookback is not accepted.
pub const MIN_LOOKBACK_DAYS: u32 = 4;

/// `n` held between two bounds.
pub open spec fn held(n: int, low: int, high: int) -> int {
    if n < low {
        low
    } else if n > high {
        high
    } else {
        n
    }
}

/// How far ahead a forecast looks: fourteen days unless asked otherwise, one to ninety.
pub fn horizon_days(asked: Option<u32>) -> (r: u32)
    ensures
        r == (match asked {
            None => 14,
            Some(n) => held(n as int, 1, 90),
        }),
{
    match asked {
        None => 14,
        Some(n) => if n < 1 {
            1
        } else if n > 90 {
            90
        } else {
            n
        },
    }
}

/// How far back a forecast looks: fourteen days unless asked otherwise, four to ninety.
pub fn lookback_days(asked: Option<u32>) -> (r: u32)
    ensures
        r == (match asked {
            None => 14,
            Some(n) => held(n as int, MIN_LOOKBACK_DAYS as int, 90),
        }),
{
    match asked {
        None => 14,
        Some(n) => if n < MIN_LOOKBACK_DAYS {
            MIN_LOOKBACK_DAYS
        } else if n > 90 {
            90
        } else {
            n
        },
    }
}

/// A forecast is about one project.
pub fn forecast_project(project: Option<String>) -> (r: Result<String, ApiError>)
    ensures
        match project {
            Some(p) => r == Ok::<String, ApiError>(p),
            None => fails_with(r, ErrorCode::BadRequest, "project is required"@),
        },
{
    match project {
        Some(p) => Ok(p),
        None => Err(ApiError::bad_request("project is required")),
    }
}

// ------------------------------------------------------------------ days

/// The day of an instant, counted from the Unix epoch.
pub open spec fn day_of(t: Timestamp) -> int {
    t.nanos as int / (DAY_SECS as int * NANOS_PER_SEC as int)
}

/// The day of an instant, counted from the Unix epoch.
pub fn epoch_day(t: Timestamp) -> (r: i64)
    requires
        t.valid(),
    ensures
        r == day_of(t),
{
    let per: i128 = 86_400_000_000_000;
    let q: i128 = if t.nanos >= 0 {
        t.nanos / per
    } else {
        let m: i128 = -(t.nanos + 1);
        -(m / per) - 1
    };
    assert(q == t.nanos as int / 86_400_000_000_000int);
    q as i64
}

/// The oldest day of a window of `lookback` days that ends today.
pub fn window_start(until: Timestamp, lookback: u32) -> (r: i64)
    requires
        until.valid(),
        1 <= lookback <= 90,
    ensures
        r == day_of(until) - (lookback - 1),
{
    epoch_day(until) - (lookback as i64 - 1)
}

/// Whether a day lies on the calendar.
pub open spec fn on_calendar(day: int) -> bool {
    FIRST_SECOND <= day * DAY_SECS && day * DAY_SECS <= LAST_SECOND
}

/// A day as it is written.
pub open spec fn day_text(day: int) -> Seq<char> {
    date_text((day * DAY_SECS) as i64)
}

/// The day that a text writes, counted from the Unix epoch.
pub open spec fn day_written(s: Seq<char>) -> Option<int> {
    match calendar_day(s) {
        Some(d) => Some(d - EPOCH_DAY),
        None => None,
    }
}

/// The earliest of the days that some texts write; texts that write none are passed over.
pub open spec fn earliest(days: Seq<Seq<char>>) -> Option<int>
    decreases days.len(),
{
    if days.len() == 0 {
        None
    } else {
        match (earliest(days.drop_last()), day_written(days.last())) {
            (Some(a), Some(b)) => Some(
                if b < a {
                    b
                } else {
                    a
                },
            ),
            (None, b) => b,
            (a, None) => a,
        }
    }
}

/// The first day on which silence means that nothing was spent. A project that was there before the
/// window has no such day: every day of it counts. One made within the window is observed from its
/// first traffic or its making, whichever came first.
pub open spec fn seam(created: Option<int>, days: Seq<Seq<char>>, start: int) -> Option<int> {
    match created {
        None => None,
        Some(c) => if c <= start {
            None
        } else {
            match earliest(days) {
                Some(t) => Some(
                    if t < c {
                        t
                    } else {
                        c
                    },
                ),
                None => Some(c),
            }
        },
    }
}

/// An optional day read as an integer.
pub open spec fn day_opt(d: Option<i64>) -> Option<int> {
    match d {
        Some(x) => Some(x as int),
        None => None,
    }
}

/// The first day on which silence means that nothing was spent.
pub fn first_observed(created: Option<i64>, days: &Vec<String>, start: i64) -> (r: Option<i64>)
    ensures
        day_opt(r) == seam(day_opt(created), views(days@), start as int),
{
    let c: i64 = match created {
        None => {
            return None;
        },
        Some(c) => c,
    };
    if c <= start {
        return None;
    }
    let mut best: Option<i64> = None;
    let mut i: usize = 0;
    let ghost dv = views(days@);
    while i < days.len()
        invariant
            dv == views(days@),
            i <= days.len(),
            day_opt(best) == earliest(dv.take(i as int)),
        decreases days.len() - i,
    {
        assert(dv.take(i + 1).drop_last() =~= dv.take(i as int));
        assert(dv.take(i + 1).last() == days@[i as int]@);
        if let Some(d) = epoch_day_of(days[i].as_str()) {
            best = match best {
                Some(a) => if d < a {
                    Some(d)
                } else {
                    Some(a)
                },
                None => Some(d),
            };
        }
        i += 1;
    }
    assert(dv.take(i as int) =~= dv);
    match best {
        Some(t) => if t < c {
            Some(t)
        } else {
            Some(c)
        },
        None => Some(c),
    }
}

// ------------------------------------------------------------------ series

/// A value of one day.
#[derive(Debug)]
pub struct DayRow<T> {
    pub day: String,
    pub value: T,
}

/// Days as plain values.
pub open spec fn day_views<T>(v: Seq<DayRow<T>>) -> Seq<(Seq<char>, T)> {
    v.map_values(|r: DayRow<T>| (r.day@, r.value))
}

/// The value of a day: the last one that is given for it, else `zero`.
pub open spec fn value_on<T>(rows: Seq<(Seq<char>, T)>, day: Seq<char>, zero: T) -> T
    decreases rows.len(),
{
    if rows.len() == 0 {
        zero
    } else if rows.last().0 == day {
        rows.last().1
    } else {
        value_on(rows.drop_last(), day, zero)
    }
}

fn find_value<T: Copy>(rows: &Vec<DayRow<T>>, day: &str, zero: T) -> (r: T)
    ensures
        r == value_on(day_views(rows@), day@, zero),
{
    let ghost v = day_views(rows@);
    let mut i: usize = rows.len();
    assert(v.take(i as int) =~= v);
    while i > 0
        invariant
            v == day_views(rows@),
            i <= rows.len(),
            value_on(v, day@, zero) == value_on(v.take(i as int), day@, zero),
        decreases i,
    {
        i -= 1;
        assert(v.take(i + 1).drop_last() =~= v.take(i as int));
        assert(v.take(i + 1).last() == (rows@[i as int].day@, rows@[i as int].value));
        if same(rows[i].day.as_str(), day) {
            return rows[i].value;
        }
    }
    zero
}

/// The values of `n` days from `start`, oldest first. A day without a value counts `zero`; a day before
/// the first observed one is left out.
pub open spec fn dense<T>(
    rows: Seq<(Seq<char>, T)>,
    start: int,
    n: nat,
    first: Option<int>,
    zero: T,
) -> Seq<T>
    decreases n,
{
    if n == 0 {
        seq![]
    } else {
        let rest = dense(rows, start, (n - 1) as nat, first, zero);
        let day = start + n - 1;
        if first is None || day >= first->0 {
            rest.push(value_on(rows, day_text(day), zero))
        } else {
            rest
        }
    }
}

/// The values of a window of days, oldest first.
pub fn densify<T: Copy>(rows: &Vec<DayRow<T>>, start: i64, days: u32, first: Option<i64>, zero: T) -> (r:
    Vec<T>)
    requires
        on_calendar(start as int),
        on_calendar(start + days),
    ensures
        r@ == dense(day_views(rows@), start as int, days as nat, day_opt(first), zero),
{
    let mut out: Vec<T> = Vec::new();
    let mut i: u32 = 0;
    while i < days
        invariant
            on_calendar(start as int),
            on_calendar(start + days),
            i <= days,
            out@ == dense(day_views(rows@), start as int, i as nat, day_opt(first), zero),
        decreases days - i,
    {
        let day: i64 = start + i as i64;
        let observed = match first {
            None => true,
            Some(f) => day >= f,
        };
        if observed {
            let t = show_day(day);
            out.push(find_value(rows, t.as_str(), zero));
        }
        i += 1;
    }
    out
}

/// A project that was there before the window is fitted over every day of it.
pub proof fn an_old_project_is_fitted_over_the_whole_window<T>(
    rows: Seq<(Seq<char>, T)>,
    start: int,
    n: nat,
    zero: T,
)
    ensures
        dense(rows, start, n, None, zero).len() == n,
        forall|i: int|
            0 <= i < n ==> (#[trigger] dense(rows, start, n, None, zero)[i]) == value_on(
                rows,
                day_text(start + i),
                zero,
            ),
    decreases n,
{
    if n > 0 {
        an_old_project_is_fitted_over_the_whole_window(rows, start, (n - 1) as nat, zero);
    }
}

/// The days before a young project was first observed are left out, and none other: the series has one
/// value for each day of the window from that day on.
pub proof fn no_day_before_the_seam_is_counted<T>(
    rows: Seq<(Seq<char>, T)>,
    start: int,
    n: nat,
    first: int,
    zero: T,
)
    requires
        start <= first,
    ensures
        dense(rows, start, n, Some(first), zero).len() == (if start + n <= first {
            0
        } else {
            start + n - first
        }),
        forall|i: int|
            0 <= i < dense(rows, start, n, Some(first), zero).len() ==> (#[trigger] dense(
                rows,
                start,
                n,
                Some(first),
                zero,
            )[i]) == value_on(rows, day_text(first + i), zero),
    decreases n,
{
    if n > 0 {
        no_day_before_the_seam_is_counted(rows, start, (n - 1) as nat, first, zero);
    }
}

// ------------------------------------------------------------------ per customer or product

/// A value of one day of one customer or product.
#[derive(Debug)]
pub struct DimRow<T> {
    /// Absent where the call named none.
    pub key: Option<String>,
    pub day: String,
    pub value: T,
}

/// Whether a row belongs to `key`; a row without one belongs to the unattributed bucket.
pub open spec fn belongs<T>(r: DimRow<T>, key: Seq<char>, unattributed: Seq<char>) -> bool {
    match r.key {
        Some(k) => k@ == key,
        None => unattributed == key,
    }
}

/// The days of one customer or product.
pub open spec fn days_of<T>(rows: Seq<DimRow<T>>, key: Seq<char>, unattributed: Seq<char>) -> Seq<
    (Seq<char>, T),
>
    decreases rows.len(),
{
    if rows.len() == 0 {
        seq![]
    } else {
        let rest = days_of(rows.drop_last(), key, unattributed);
        if belongs(rows.last(), key, unattributed) {
            rest.push((rows.last().day@, rows.last().value))
        } else {
            rest
        }
    }
}

/// The days of one customer or product.
pub fn select_days<T: Copy>(rows: &Vec<DimRow<T>>, key: &str, unattributed: &str) -> (r: Vec<DayRow<T>>)
    ensures
        day_views(r@) == days_of(rows@, key@, unattributed@),
{
    let mut out: Vec<DayRow<T>> = Vec::new();
    let mut i: usize = 0;
    assert(day_views(out@) =~= days_of(rows@.take(0), key@, unattributed@));
    while i < rows.len()
        invariant
            i <= rows.len(),
            day_views(out@) == days_of(rows@.take(i as int), key@, unattributed@),
        decreases rows.len() - i,
    {
        assert(rows@.take(i + 1).drop_last() =~= rows@.take(i as int));
        let hit = match &rows[i].key {
            Some(k) => same(k.as_str(), key),
            None => same(unattributed, key),
        };
        if hit {
            let ghost before = out@;
            let d = DayRow { day: rows[i].day.clone(), value: rows[i].value };
            out.push(d);
            assert(day_views(out@) =~= day_views(before).push((d.day@, d.value)));
        }
        i += 1;
    }
    assert(rows@.take(i as int) =~= rows@);
    out
}

/// The series of one customer or product: a value for each day that counts for the project, and `zero`
/// where it spent nothing.
pub open spec fn dim_series<T>(
    rows: Seq<DimRow<T>>,
    key: Seq<char>,
    unattributed: Seq<char>,
    start: int,
    n: nat,
    first: Option<int>,
    zero: T,
) -> Seq<T> {
    dense(days_of(rows, key, unattributed), start, n, first, zero)
}

/// The series of one customer or product.
pub fn series_of<T: Copy>(
    rows: &Vec<DimRow<T>>,
    key: &str,
    unattributed: &str,
    start: i64,
    days: u32,
    first: Option<i64>,
    zero: T,
) -> (r: Vec<T>)
    requires
        on_calendar(start as int),
        on_calendar(start + days),
    ensures
        r@ == dim_series(
            rows@,
            key@,
            unattributed@,
            start as int,
            days as nat,
            day_opt(first),
            zero,
        ),
{
    let v = select_days(rows, key, unattributed);
    densify(&v, start, days, first, zero)
}

/// A key other than the unattributed bucket's.
pub open spec fn billable(unattributed: Seq<char>) -> spec_fn(String) -> bool {
    |k: String| k@ != unattributed
}

/// The first `n` of a list, or all of it.
pub open spec fn at_most(v: Seq<int>, n: int) -> Seq<int> {
    if v.len() <= n {
        v
    } else {
        v.take(n)
    }
}

/// The positions of the rows that are forecast: those of a customer or product, the first fifty.
pub fn forecast_rows(keys: &Vec<String>, unattributed: &str) -> (r: Vec<usize>)
    ensures
        ints(r@) == at_most(
            positions(keys@, billable(unattributed@)),
            MAX_DIM_FORECASTS as int,
        ),
{
    let ghost p = billable(unattributed@);
    let mut out: Vec<usize> = Vec::new();
    let mut i: usize = 0;
    while i < keys.len()
        invariant
            p == billable(unattributed@),
            i <= keys.len(),
            out@.len() <= MAX_DIM_FORECASTS,
            ints(out@) == at_most(positions(keys@.take(i as int), p), MAX_DIM_FORECASTS as int),
        decreases keys.len() - i,
    {
        proof {
            positions_step(keys@, i as int, p);
        }
        let ghost before = ints(out@);
        let ghost pos = positions(keys@.take(i as int), p);
        if !same(keys[i].as_str(), unattributed) {
            if out.len() < MAX_DIM_FORECASTS {
                out.push(i);
                assert(ints(out@) =~= before.push(i as int));
            } else {
                assert(ints(out@).len() == out@.len());
                assert(pos.push(i as int).take(MAX_DIM_FORECASTS as int) =~= at_most(
                    pos,
                    MAX_DIM_FORECASTS as int,
                ));
            }
        }
        i += 1;
    }
    assert(keys@.take(i as int) =~= keys@);
    out
}

// ------------------------------------------------------------------ refusals

/// A projection that is not made, and why.
#[derive(Debug)]
pub struct Refused {
    pub subject: String,
    pub reason: String,
}

/// Why a rule with a derived threshold is not forecast.
pub const DERIVED_MSG: &'static str = "revenue-share threshold resolves per customer; not forecast from the                          project's daily series";

/// A refusal as plain values.
pub open spec fn refused_views(v: Seq<Refused>) -> Seq<(Seq<char>, Seq<char>)> {
    v.map_values(|r: Refused| (r.subject@, r.reason@))
}

/// A rule, as far as a forecast asks.
#[derive(Debug)]
pub struct RuleKind {
    pub id: String,
    /// Whether its threshold is a fixed figure.
    pub fixed: bool,
    pub metric: LimitMetric,
    pub window: LimitWindow,
}

/// A rule with a fixed threshold.
pub open spec fn is_fixed() -> spec_fn(RuleKind) -> bool {
    |r: RuleKind| r.fixed
}

/// The refusals of the rules with derived thresholds, in the rules' order.
pub open spec fn derived_refusals(rules: Seq<RuleKind>) -> Seq<(Seq<char>, Seq<char>)>
    decreases rules.len(),
{
    if rules.len() == 0 {
        seq![]
    } else {
        let rest = derived_refusals(rules.drop_last());
        if rules.last().fixed {
            rest
        } else {
            rest.push((rules.last().id@, DERIVED_MSG@))
        }
    }
}

/// Which rules are forecast, as positions: those with a fixed threshold. Every other is refused by name.
pub fn forecastable(rules: &Vec<RuleKind>) -> (r: (Vec<usize>, Vec<Refused>))
    ensures
        ints(r.0@) == positions(rules@, is_fixed()),
        refused_views(r.1@) == derived_refusals(rules@),
{
    let mut kept: Vec<usize> = Vec::new();
    let mut refused: Vec<Refused> = Vec::new();
    let mut i: usize = 0;
    assert(refused_views(refused@) =~= derived_refusals(rules@.take(0)));
    while i < rules.len()
        invariant
            i <= rules.len(),
            ints(kept@) == positions(rules@.take(i as int), is_fixed()),
            refused_views(refused@) == derived_refusals(rules@.take(i as int)),
        decreases rules.len() - i,
    {
        proof {
            positions_step(rules@, i as int, is_fixed());
            assert(rules@.take(i + 1).drop_last() =~= rules@.take(i as int));
        }
        if rules[i].fixed {
            let ghost before = kept@;
            kept.push(i);
            assert(ints(kept@) =~= ints(before).push(i as int));
        } else {
            let ghost before = refused@;
            let x = Refused { subject: rules[i].id.clone(), reason: DERIVED_MSG.to_owned() };
            refused.push(x);
            assert(refused_views(refused@) =~= refused_views(before).push((x.subject@, x.reason@)));
        }
        i += 1;
    }
    assert(rules@.take(i as int) =~= rules@);
    (kept, refused)
}

// ------------------------------------------------------------------ what a forecast looks at

/// A forecast looks fourteen days ahead and back unless asked otherwise, one to ninety ahead and four to
/// ninety back, and is about one project.
pub proof fn a_forecast_has_its_bounds(
    asked: Option<u32>,
    ahead: u32,
    back: u32,
    project: Option<String>,
    p: Result<String, ApiError>,
)
    requires
        call_ensures(horizon_days, (asked,), ahead),
        call_ensures(lookback_days, (asked,), back),
        call_ensures(forecast_project, (project,), p),
    ensures
        1 <= ahead <= 90 && 4 <= back <= 90,
        asked is None ==> ahead == 14 && back == 14,
        asked is Some && 1 <= asked->0 <= 90 ==> ahead == asked->0,
        asked is Some && 4 <= asked->0 <= 90 ==> back == asked->0,
        asked is Some && asked->0 < 4 ==> back == 4,
        asked is Some && asked->0 > 90 ==> ahead == 90 && back == 90,
        p is Ok <==> project is Some,
        p is Ok ==> p->Ok_0 == project->0,
        p is Err ==> p->Err_0.code is BadRequest,
{
}

/// The day of an instant is the one it lies in, and a window of some days ends with it.
pub proof fn a_day_holds_its_instants(t: Timestamp, lookback: u32, d: i64, start: i64)
    requires
        t.valid(),
        1 <= lookback <= 90,
        call_ensures(epoch_day, (t,), d),
        call_ensures(window_start, (t, lookback), start),
    ensures
        d * 86_400_000_000_000 <= t.nanos < (d + 1) * 86_400_000_000_000,
        start + lookback == d + 1,
{
    assert(DAY_SECS as int * NANOS_PER_SEC as int == 86_400_000_000_000);
    let n = t.nanos as int;
    assert(n / 86_400_000_000_000 * 86_400_000_000_000 <= n < (n / 86_400_000_000_000 + 1)
        * 86_400_000_000_000) by (nonlinear_arith);
}

proof fn earliest_is_least(days: Seq<Seq<char>>)
    ensures
        earliest(days) is None ==> forall|i: int|
            0 <= i < days.len() ==> day_written(#[trigger] days[i]) is None,
        earliest(days) is Some ==> (exists|i: int|
            0 <= i < days.len() && day_written(#[trigger] days[i]) == earliest(days)) && forall|i: int|
            0 <= i < days.len() && day_written(#[trigger] days[i]) is Some ==> earliest(days)->0
                <= day_written(days[i])->0,
    decreases days.len(),
{
    if days.len() > 0 {
        let d = days.drop_last();
        earliest_is_least(d);
        let last = days.len() - 1;
        assert(days[last] == days.last());
        assert forall|i: int| 0 <= i < d.len() implies #[trigger] days[i] == d[i] by {}
        if earliest(d) is Some {
            let i = choose|i: int| 0 <= i < d.len() && day_written(#[trigger] d[i]) == earliest(d);
            assert(days[i] == d[i]);
        }
        if earliest(days) is Some {
            if earliest(days) == day_written(days.last()) {
                assert(day_written(days[last]) == earliest(days));
            } else {
                let i = choose|i: int| 0 <= i < d.len() && day_written(#[trigger] d[i]) == earliest(d);
                assert(day_written(days[i]) == earliest(days));
            }
            assert forall|i: int| 0 <= i < days.len() && day_written(#[trigger] days[i]) is Some implies earliest(
                days,
            )->0 <= day_written(days[i])->0 by {
                if i < d.len() {
                    assert(days[i] == d[i]);
                }
            }
        } else {
            assert forall|i: int| 0 <= i < days.len() implies day_written(#[trigger] days[i]) is None by {
                if i < d.len() {
                    assert(days[i] == d[i]);
                }
            }
        }
    }
}

/// A project that was there before the window has no first day; one made within it is observed from its
/// making, or from its first traffic where that came earlier, and never later than either.
pub proof fn a_young_project_is_observed_from_its_start(
    created: Option<i64>,
    days: &Vec<String>,
    start: i64,
    r: Option<i64>,
    i: int,
)
    requires
        call_ensures(first_observed, (created, days, start), r),
    ensures
        created is None || created->0 <= start ==> r is None,
        created is Some && created->0 > start ==> {
            &&& r is Some && r->0 <= created->0
            &&& 0 <= i < days@.len() && day_written(days@[i]@) is Some ==> r->0 <= day_written(days@[i]@)->0
            &&& r->0 == created->0 || exists|k: int|
                0 <= k < days@.len() && day_written((#[trigger] days@[k])@) == Some(r->0 as int)
        },
{
    let w = views(days@);
    earliest_is_least(w);
    assert(w.len() == days@.len());
    assert(forall|k: int| 0 <= k < w.len() ==> w[k] == (#[trigger] days@[k])@);
    if earliest(w) is Some {
        let k = choose|k: int| 0 <= k < w.len() && day_written(#[trigger] w[k]) == earliest(w);
        assert(day_written(days@[k]@) == earliest(w));
    }
    if 0 <= i < days@.len() {
        assert(w[i] == days@[i]@);
    }
}

proof fn value_on_is_the_last<T>(rows: Seq<(Seq<char>, T)>, day: Seq<char>, zero: T, k: int)
    ensures
        0 <= k < rows.len() && rows[k].0 == day && (forall|j: int|
            k < j < rows.len() ==> (#[trigger] rows[j]).0 != day) ==> value_on(rows, day, zero)
            == rows[k].1,
        (forall|j: int| 0 <= j < rows.len() ==> (#[trigger] rows[j]).0 != day) ==> value_on(
            rows,
            day,
            zero,
        ) == zero,
    decreases rows.len(),
{
    if rows.len() > 0 {
        let d = rows.drop_last();
        value_on_is_the_last(d, day, zero, k);
        assert(rows[rows.len() - 1] == rows.last());
        assert forall|j: int| 0 <= j < d.len() implies #[trigger] d[j] == rows[j] by {}
    }
}

proof fn dense_at<T>(rows: Seq<(Seq<char>, T)>, start: int, n: nat, first: Option<int>, zero: T, skip: int, i: int)
    requires
        0 <= skip <= n,
        first is None ==> skip == 0,
        first is Some && first->0 <= start ==> skip == 0,
        first is Some && start < first->0 <= start + n ==> skip == first->0 - start,
        first is Some && first->0 > start + n ==> skip == n,
    ensures
        dense(rows, start, n, first, zero).len() == n - skip,
        0 <= i < n - skip ==> dense(rows, start, n, first, zero)[i] == value_on(
            rows,
            day_text(start + skip + i),
            zero,
        ),
    decreases n,
{
    if n > 0 {
        let m = (n - 1) as nat;
        let day = start + n - 1;
        if first is None || day >= first->0 {
            dense_at(rows, start, m, first, zero, skip, i);
        } else {
            dense_at(rows, start, m, first, zero, m as int, i);
        }
    }
}

/// A series has a value for each day of its window, from the first day that counts on, oldest first: the
/// last value given for that very day, or zero where none is.
pub proof fn a_series_has_a_value_for_each_day<T: Copy>(
    rows: &Vec<DayRow<T>>,
    start: i64,
    days: u32,
    first: Option<i64>,
    zero: T,
    r: Vec<T>,
    skip: int,
    i: int,
    k: int,
)
    requires
        on_calendar(start as int),
        on_calendar(start + days),
        call_ensures(densify::<T>, (rows, start, days, first, zero), r),
        0 <= skip <= days,
        first is None ==> skip == 0,
        first is Some && first->0 <= start ==> skip == 0,
        first is Some && start < first->0 <= start + days ==> skip == first->0 - start,
        first is Some && first->0 > start + days ==> skip == days,
    ensures
        r@.len() == days - skip,
        0 <= i < r@.len() && 0 <= k < rows@.len() && rows@[k].day@ == day_text(start + skip + i) && (
        forall|j: int| k < j < rows@.len() ==> (#[trigger] rows@[j]).day@ != day_text(start + skip + i))
            ==> r@[i] == rows@[k].value,
        0 <= i < r@.len() && (forall|j: int|
            0 <= j < rows@.len() ==> (#[trigger] rows@[j]).day@ != day_text(start + skip + i)) ==> r@[i]
            == zero,
{
    let v = day_views(rows@);
    assert(v.len() == rows@.len());
    assert(forall|j: int|
        0 <= j < v.len() ==> #[trigger] v[j] == (rows@[j].day@, rows@[j].value));
    dense_at(v, start as int, days as nat, day_opt(first), zero, skip, i);
    let day = day_text(start + skip + i);
    value_on_is_the_last(v, day, zero, k);
    if 0 <= k < rows@.len() && rows@[k].day@ == day && (forall|j: int|
        k < j < rows@.len() ==> (#[trigger] rows@[j]).day@ != day) {
        assert forall|j: int| k < j < v.len() implies (#[trigger] v[j]).0 != day by {
            assert(rows@[j].day@ != day);
        }
    }
    if forall|j: int| 0 <= j < rows@.len() ==> (#[trigger] rows@[j]).day@ != day {
        assert forall|j: int| 0 <= j < v.len() implies (#[trigger] v[j]).0 != day by {
            assert(rows@[j].day@ != day);
        }
    }
}

/// One more row adds its day and value to a customer's or product's days exactly where it names that key,
/// or names none and the key is the unattributed bucket's; and a series is that of those days.
pub proof fn a_row_counts_for_its_own_key<T: Copy>(
    before: &Vec<DimRow<T>>,
    after: &Vec<DimRow<T>>,
    key: &str,
    unattributed: &str,
    a: Vec<DayRow<T>>,
    b: Vec<DayRow<T>>,
)
    requires
        after@.len() > 0 && after@.drop_last() == before@,
        call_ensures(select_days::<T>, (before, key, unattributed), a),
        call_ensures(select_days::<T>, (after, key, unattributed), b),
    ensures
        before@.len() == 0 ==> a@.len() == 0,
        ({
            let x = after@.last();
            let own = (x.key is Some && x.key->0@ == key@) || (x.key is None && unattributed@ == key@);
            &&& !own ==> day_views(b@) == day_views(a@)
            &&& own ==> b@.len() == a@.len() + 1 && b@.last().day@ == x.day@ && b@.last().value == x.value
                && day_views(b@).drop_last() == day_views(a@)
        }),
{
    let x = after@.last();
    assert(day_views(a@).len() == a@.len());
    assert(day_views(b@).len() == b@.len());
    if belongs(x, key@, unattributed@) {
        let v = day_views(a@).push((x.day@, x.value));
        assert(day_views(b@) == v);
        assert(v.drop_last() =~= day_views(a@));
        assert(day_views(b@)[b@.len() - 1] == (b@.last().day@, b@.last().value));
    }
}

/// A customer's or product's series is the series of its days.
pub proof fn a_key_has_the_series_of_its_days<T: Copy>(
    rows: &Vec<DimRow<T>>,
    key: &str,
    unattributed: &str,
    start: i64,
    days: u32,
    first: Option<i64>,
    zero: T,
    own: &Vec<DayRow<T>>,
    was: Vec<DayRow<T>>,
    r: Vec<T>,
    s: Vec<T>,
)
    requires
        on_calendar(start as int),
        on_calendar(start + days),
        call_ensures(select_days::<T>, (rows, key, unattributed), was),
        *own == was,
        call_ensures(densify::<T>, (own, start, days, first, zero), r),
        call_ensures(series_of::<T>, (rows, key, unattributed, start, days, first, zero), s),
    ensures
        r@ == s@,
{
}

/// The first fifty customers or products are forecast, in order; the unattributed bucket is none.
pub proof fn fifty_keys_are_forecast(keys: &Vec<String>, unattributed: &str, r: Vec<usize>)
    requires
        call_ensures(forecast_rows, (keys, unattributed), r),
    ensures
        r@.len() <= 50,
        forall|i: int|
            0 <= i < r@.len() ==> (#[trigger] r@[i]) < keys@.len() && keys@[r@[i] as int]@ != unattributed@,
        forall|i: int, j: int| 0 <= i < j < r@.len() ==> #[trigger] r@[i] < #[trigger] r@[j],
        forall|k: int|
            0 <= k < keys@.len() && (#[trigger] keys@[k])@ != unattributed@ && !(exists|i: int|
                0 <= i < r@.len() && #[trigger] r@[i] == k) ==> r@.len() == 50 && r@[49] < k,
{
    let p = billable(unattributed@);
    let q = positions(keys@, p);
    crate::seqs::positions_are_exact(keys@, p);
    crate::seqs::positions_ascend(keys@, p);
    let v = ints(r@);
    assert(v.len() == r@.len());
    assert(forall|i: int| 0 <= i < r@.len() ==> v[i] == #[trigger] r@[i]);
    assert forall|i: int| 0 <= i < r@.len() implies (#[trigger] r@[i]) < keys@.len() && keys@[r@[i] as int]@
        != unattributed@ by {
        assert(v[i] == q[i]);
        assert(p(keys@[q[i]]));
    }
    assert forall|i: int, j: int| 0 <= i < j < r@.len() implies #[trigger] r@[i] < #[trigger] r@[j] by {
        assert(v[i] == q[i] && v[j] == q[j]);
    }
    assert forall|k: int|
        0 <= k < keys@.len() && (#[trigger] keys@[k])@ != unattributed@ && !(exists|i: int|
            0 <= i < r@.len() && #[trigger] r@[i] == k) implies r@.len() == 50 && r@[49] < k by {
        assert(p(keys@[k]));
        assert(q.contains(k));
        let i = choose|i: int| 0 <= i < q.len() && q[i] == k;
        if i < r@.len() {
            assert(v[i] == q[i]);
            assert(r@[i] == k);
        }
        assert(v[49] == q[49]);
    }
}

proof fn derived_are_refused(rules: Seq<RuleKind>)
    ensures
        forall|i: int|
            0 <= i < rules.len() && !(#[trigger] rules[i]).fixed ==> derived_refusals(rules).contains(
                (rules[i].id@, DERIVED_MSG@),
            ),
        forall|k: int|
            0 <= k < derived_refusals(rules).len() ==> exists|i: int|
                0 <= i < rules.len() && !(#[trigger] rules[i]).fixed && (#[trigger] derived_refusals(
                    rules,
                )[k]).0 == rules[i].id@,
    decreases rules.len(),
{
    if rules.len() > 0 {
        let d = rules.drop_last();
        derived_are_refused(d);
        let v = derived_refusals(d);
        let w = derived_refusals(rules);
        assert forall|i: int| 0 <= i < rules.len() && !(#[trigger] rules[i]).fixed implies w.contains(
            (rules[i].id@, DERIVED_MSG@),
        ) by {
            if i < d.len() {
                assert(d[i] == rules[i]);
                let k = choose|k: int| 0 <= k < v.len() && v[k] == (d[i].id@, DERIVED_MSG@);
                assert(w[k] == v[k]);
            } else {
                assert(w[w.len() - 1] == (rules[i].id@, DERIVED_MSG@));
            }
        }
        assert forall|k: int| 0 <= k < w.len() implies exists|i: int|
            0 <= i < rules.len() && !(#[trigger] rules[i]).fixed && (#[trigger] w[k]).0 == rules[i].id@ by {
            if k < v.len() {
                assert(w[k] == v[k]);
                let i = choose|i: int| 0 <= i < d.len() && !(#[trigger] d[i]).fixed && v[k].0 == d[i].id@;
                assert(rules[i] == d[i]);
            } else {
                assert(!rules[rules.len() - 1].fixed);
            }
        }
    }
}

/// A rule is forecast exactly where its threshold is a fixed figure; every other is refused by its own id.
pub proof fn a_rule_is_forecast_or_refused(
    rules: &Vec<RuleKind>,
    r: (Vec<usize>, Vec<Refused>),
)
    requires
        call_ensures(forecastable, (rules,), r),
    ensures
        crate::seqs::lists(r.0@, rules@, |x: RuleKind| x.fixed),
        forall|i: int|
            0 <= i < rules@.len() && !(#[trigger] rules@[i]).fixed ==> exists|k: int|
                0 <= k < r.1@.len() && (#[trigger] r.1@[k]).subject@ == rules@[i].id@,
        forall|k: int|
            0 <= k < r.1@.len() ==> exists|i: int|
                0 <= i < rules@.len() && !(#[trigger] rules@[i]).fixed && (#[trigger] r.1@[k]).subject@
                    == rules@[i].id@,
{
    crate::seqs::positions_list(r.0@, rules@, is_fixed());
    assert(is_fixed() =~= (|x: RuleKind| x.fixed));
    derived_are_refused(rules@);
    let w = refused_views(r.1@);
    assert(w.len() == r.1@.len());
    assert(forall|k: int| 0 <= k < w.len() ==> w[k] == ((#[trigger] r.1@[k]).subject@, r.1@[k].reason@));
    assert forall|i: int| 0 <= i < rules@.len() && !(#[trigger] rules@[i]).fixed implies exists|k: int|
        0 <= k < r.1@.len() && (#[trigger] r.1@[k]).subject@ == rules@[i].id@ by {
        assert(w.contains((rules@[i].id@, DERIVED_MSG@)));
        let k = choose|k: int| 0 <= k < w.len() && w[k] == (rules@[i].id@, DERIVED_MSG@);
        assert(r.1@[k].subject@ == rules@[i].id@);
    }
    assert forall|k: int| 0 <= k < r.1@.len() implies exists|i: int|
        0 <= i < rules@.len() && !(#[trigger] rules@[i]).fixed && (#[trigger] r.1@[k]).subject@
            == rules@[i].id@ by {
        assert(derived_refusals(rules@)[k] == w[k]);
        let i = choose|i: int|
            0 <= i < rules@.len() && !(#[trigger] rules@[i]).fixed && derived_refusals(rules@)[k].0
                == rules@[i].id@;
        assert(!rules@[i].fixed);
    }
}

} // verus!
