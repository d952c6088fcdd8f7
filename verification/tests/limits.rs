use lighttrack_api::auth::{Principal, Scope};
use lighttrack_api::clock::Timestamp;
use lighttrack_api::error::ErrorCode;
use lighttrack_api::figure::Real;
use lighttrack_api::forecast::{
    densify, epoch_day, first_observed, forecast_project, forecast_rows, forecastable, horizon_days, lookback_days,
    series_of, window_start, DayRow, DimRow, RuleKind,
};
use lighttrack_api::forecast_alerts::{
    attach_guardrails, build_alerts, AlertKind, BudgetForecast, Confidence, Eta, ForecastAlert,
    MarginForecast, Severity, Trend,
};
use lighttrack_api::forecast_plan::{
    by_day, conclude, current_usage, plan_forecast, ForecastHead, RawForecast, SpendProjection, Usage,
};
use lighttrack_api::guardrails::{
    claim_change, cooldown_of, default_cooldown, default_expiry, escalation_step, guardrail_for,
    EscalationStep, GuardrailOutcome, PolicyCooldown, PolicyCooldowns, PolicyReq, RuleChange,
};
use lighttrack_api::keys::ApiKey;
use lighttrack_api::limit::{LimitAction, LimitMetric, LimitScope, LimitWindow};
use lighttrack_api::limits::{
    cost_basis, default_true, delete_answer, ensure_valid, plan_usage, policy_delete_answer,
    updated_rule, CostEvidence, Escalation, LimitReq, LimitRule, StatusEvidence, Threshold,
};
use lighttrack_api::rejections::RejectionLedger;
use lighttrack_api::sweep::{describe, take_project, SweepConfig, SweepNote};
use lighttrack_api::usage::{
    compose, parse_dimension, parse_window, reads_roster, roster_for, row_limit, Breakdown, ScopeUsage,
};

const SEC: i128 = 1_000_000_000;

fn now() -> Timestamp {
    Timestamp { nanos: 1_790_000_000 * SEC }
}

fn t(base: Timestamp, secs: i128) -> Timestamp {
    Timestamp { nanos: base.nanos + secs * SEC }
}

fn key(x: f64) -> i64 {
    if x < 0.0 {
        -(x.abs().to_bits() as i64)
    } else {
        x.abs().to_bits() as i64
    }
}

fn figure(x: f64) -> Real {
    Real { key: key(x), wire: format!("{x}") }
}

/// Dollars as picodollars.
fn usd(x: f64) -> u64 {
    (x * 1e12).round() as u64
}

// ------------------------------------------------------------------ refusals

#[test]
fn record_increments_count_and_folds_cost() {
    let mut led = RejectionLedger::new();
    let now = now();
    assert_eq!(
        led.record("p", LimitMetric::CostUsd, LimitWindow::Day, &None, usd(0.10), now),
        1
    );
    assert_eq!(
        led.record("p", LimitMetric::CostUsd, LimitWindow::Day, &None, usd(0.05), t(now, 1)),
        2
    );
    let stats = led.snapshot("p", t(now, 2));
    assert_eq!(stats.len(), 1);
    assert_eq!(stats[0].count, 2);
    assert!((stats[0].est_missed_cost as f64 / 1e12 - 0.15).abs() < 1e-9);
}

#[test]
fn keys_are_isolated_by_project_metric_window_and_scope() {
    let mut led = RejectionLedger::new();
    let now = now();
    led.record("p", LimitMetric::CostUsd, LimitWindow::Day, &None, usd(1.0), now);
    led.record("p", LimitMetric::Calls, LimitWindow::Day, &None, 0, now);
    led.record("p", LimitMetric::CostUsd, LimitWindow::Hour, &None, usd(2.0), now);
    led.record(
        "p",
        LimitMetric::CostUsd,
        LimitWindow::Day,
        &Some(LimitScope::Model("gpt-4o".into())),
        usd(3.0),
        now,
    );
    led.record("q", LimitMetric::CostUsd, LimitWindow::Day, &None, usd(9.0), now);
    assert_eq!(led.snapshot("p", now).len(), 4, "scope splits the bucket");
    let q = led.snapshot("q", now);
    assert_eq!(q.len(), 1);
    assert!((q[0].est_missed_cost as f64 / 1e12 - 9.0).abs() < 1e-9);
}

#[test]
fn stale_entries_are_pruned() {
    let mut led = RejectionLedger::new();
    let base = now();
    led.record("p", LimitMetric::CostUsd, LimitWindow::Day, &None, usd(1.0), base);
    let count = led.record(
        "p",
        LimitMetric::CostUsd,
        LimitWindow::Day,
        &None,
        usd(1.0),
        t(base, 25 * 3600),
    );
    assert_eq!(count, 1, "stale bucket should have been pruned, restarting the count");
    assert!(led.snapshot("p", t(base, 60 * 3600)).is_empty());
}

#[test]
fn deltas_report_only_what_has_happened_since_the_last_flush() {
    let mut led = RejectionLedger::new();
    let now = now();
    led.record("p", LimitMetric::CostUsd, LimitWindow::Day, &None, usd(0.10), now);
    led.record("p", LimitMetric::CostUsd, LimitWindow::Day, &None, usd(0.10), now);
    let first = led.take_deltas(now);
    assert_eq!(first.len(), 1);
    assert_eq!(first[0].project, "p");
    assert_eq!(first[0].count, 2);
    assert!((first[0].cost as f64 / 1e12 - 0.20).abs() < 1e-9);

    assert!(
        led.take_deltas(now).is_empty(),
        "nothing new happened, so there is nothing to report"
    );

    led.record("p", LimitMetric::CostUsd, LimitWindow::Day, &None, usd(0.05), t(now, 1));
    let second = led.take_deltas(t(now, 1));
    assert_eq!(second[0].count, 1, "the delta, not the running total");
    assert!((second[0].cost as f64 / 1e12 - 0.05).abs() < 1e-9);
}

#[test]
fn reports_add_up_to_what_was_refused() {
    let mut led = RejectionLedger::new();
    let mut told = 0;
    for i in 0..9 {
        led.record("p", LimitMetric::Calls, LimitWindow::Hour, &None, 0, t(now(), i));
        if i % 4 == 3 {
            let before = led.snapshot("p", t(now(), i))[0].count;
            let lines = led.take_deltas(t(now(), i));
            assert!(lines.iter().all(|d| d.count > 0));
            told += lines.iter().map(|d| d.count).sum::<u64>();
            assert_eq!(led.snapshot("p", t(now(), i))[0].count, before);
        }
    }
    assert_eq!(told, 8, "the ninth came after the last report");
}

#[test]
fn a_scoped_rule_flushes_under_its_own_label() {
    let mut led = RejectionLedger::new();
    let now = now();
    led.record("p", LimitMetric::CostUsd, LimitWindow::Day, &None, usd(1.0), now);
    led.record(
        "p",
        LimitMetric::CostUsd,
        LimitWindow::Day,
        &Some(LimitScope::Model("gpt-4o".into())),
        usd(2.0),
        now,
    );
    let mut labels: Vec<String> = led.take_deltas(now).into_iter().map(|d| d.label).collect();
    labels.sort();
    assert_eq!(labels.len(), 2);
    assert!(labels[1].contains("gpt-4o"), "{labels:?}");
}

// ------------------------------------------------------------------ usage

fn row(value: Option<&str>, cost: f64, calls: i64) -> ScopeUsage {
    ScopeUsage { value: value.map(str::to_string), cost_key: key(cost), calls }
}

fn rule(id: &str, scope: Option<LimitScope>, threshold: f64) -> LimitRule {
    LimitRule {
        id: id.into(),
        project_id: "p".into(),
        metric: LimitMetric::CostUsd,
        window: LimitWindow::Day,
        threshold: Threshold::Fixed(figure(threshold)),
        action: LimitAction::Block,
        enabled: true,
        warn_at: None,
        scope,
        escalation: None,
        escalated_until: None,
        origin: None,
        expires_at: None,
    }
}

fn key_rule(id: &str, k: &str, threshold: f64) -> LimitRule {
    rule(id, Some(LimitScope::ApiKey(k.into())), threshold)
}

fn resp(rows: &Vec<ScopeUsage>, rules: &Vec<LimitRule>, keys: &Vec<ApiKey>, limit: usize) -> Breakdown {
    compose(key(10.0), rows, "api_key", rules, keys, limit)
}

#[test]
fn ranks_by_cost_and_computes_shares() {
    let rows =
        vec![row(Some("k-small"), 1.0, 1), row(Some("k-big"), 9.0, 3), row(None, 0.0, 0)];
    let costs = [1.0, 9.0, 0.0];
    let total: f64 = costs.iter().sum();
    let r = compose(key(total), &rows, "api_key", &vec![], &vec![], 10);
    let share = |p: usize| if r.has_cost { costs[r.entries[p].row] / total * 100.0 } else { 0.0 };
    assert_eq!(rows[r.entries[0].row].value.as_deref(), Some("k-big"));
    assert!((share(0) - 90.0).abs() < 1e-9);
    assert!((share(1) - 10.0).abs() < 1e-9);
    assert_eq!(rows[r.entries[1].row].value.as_deref(), Some("k-small"));
    assert_eq!(rows[r.entries[2].row].value, None);
    assert!(!r.truncated);
}

#[test]
fn attaches_only_the_rules_scoped_to_that_very_value() {
    let rules = vec![
        key_rule("r-staging", "k-staging", 5.0),
        key_rule("r-prod", "k-prod", 500.0),
        rule("r-model", Some(LimitScope::Model("gpt-4o".into())), 1.0),
        rule("r-all", None, 1.0),
    ];
    let rows = vec![row(Some("k-staging"), 6.0, 2), row(Some("k-prod"), 3.0, 1)];
    let r = resp(&rows, &rules, &vec![], 10);
    let staging = &r.entries[0];
    assert_eq!(rows[staging.row].value.as_deref(), Some("k-staging"));
    assert_eq!(staging.rules.len(), 1);
    assert_eq!(rules[staging.rules[0]].id, "r-staging");
    let prod = &r.entries[1];
    assert_eq!(prod.rules.len(), 1);
    assert_eq!(rules[prod.rules[0]].id, "r-prod");
}

fn api_key(id: &str, name: &str) -> ApiKey {
    ApiKey {
        id: id.into(),
        project_id: "p".into(),
        name: name.into(),
        prefix: "ab12cd".into(),
        key_hash: "salt:deadbeef".into(),
        created_at: now(),
        last_used_at: None,
        revoked: false,
        scopes: vec![],
        expires_at: None,
    }
}

#[test]
fn labels_are_resolved_only_from_the_supplied_roster() {
    let keys = vec![api_key("k-staging", "staging")];
    let rows = vec![row(Some("k-staging"), 1.0, 1), row(Some("k-gone"), 1.0, 1)];
    let r = resp(&rows, &vec![], &keys, 10);
    assert_eq!(r.entries[0].label.as_deref(), Some("staging (ab12cd)"));
    assert_eq!(r.entries[1].label, None, "an unknown id gets no invented label");
    let body = format!("{r:?}");
    assert!(!body.contains("deadbeef"), "key material must never reach this surface");
    assert!(!body.contains("key_hash"));
}

#[test]
fn a_roster_is_for_administrators_asking_about_keys() {
    let one = || Some(vec![api_key("k-staging", "staging")]);
    let own = Principal::Project { project_id: "p".into(), key_id: "k".into(), scopes: vec![Scope::Read] };
    assert!(reads_roster(&Principal::Admin, "api_key") && reads_roster(&Principal::Dev, "api_key"));
    assert!(!reads_roster(&Principal::Admin, "model"));
    assert!(!reads_roster(&own, "api_key"));
    assert_eq!(roster_for(&Principal::Admin, "api_key", one()).len(), 1);
    assert!(roster_for(&own, "api_key", one()).is_empty());
    assert!(roster_for(&Principal::Admin, "api_key", None).is_empty());
    let rows = vec![row(Some("k-staging"), 0.0, 1)];
    let r = compose(0, &rows, "api_key", &vec![], &roster_for(&own, "api_key", one()), 10);
    assert_eq!(r.entries[0].label, None);
    assert!(!r.has_cost, "a window without a cost has no shares");
}

#[test]
fn truncation_is_reported_rather_than_silent() {
    let rows: Vec<ScopeUsage> =
        (0..5).map(|i| row(Some(&format!("k{i}")), i as f64, 1)).collect();
    let r = resp(&rows, &vec![], &vec![], 2);
    assert_eq!(r.entries.len(), 2);
    assert!(r.truncated);
    assert_eq!(rows[r.entries[0].row].value.as_deref(), Some("k4"));
}

#[test]
fn equal_cost_is_ranked_by_calls_and_a_tie_keeps_its_order() {
    let rows = vec![
        row(Some("a"), 2.0, 1),
        row(Some("b"), 2.0, 5),
        row(Some("c"), 2.0, 5),
        row(Some("d"), 3.0, 0),
    ];
    let r = resp(&rows, &vec![], &vec![], 10);
    let order: Vec<usize> = r.entries.iter().map(|e| e.row).collect();
    assert_eq!(order, vec![3, 1, 2, 0]);
}

#[test]
fn usage_parameters_have_defaults_and_refusals() {
    assert_eq!(parse_dimension(None).unwrap(), "api_key");
    assert_eq!(parse_dimension(Some("model".into())).unwrap(), "model");
    assert_eq!(
        parse_dimension(Some("team".into())).unwrap_err().message,
        "unknown dimension 'team' (expected one of provider|model|name|api_key|customer)"
    );
    assert_eq!(parse_window(None).unwrap(), LimitWindow::Day);
    assert_eq!(parse_window(Some("month")).unwrap(), LimitWindow::Month);
    assert_eq!(parse_window(Some("hour")).unwrap(), LimitWindow::Hour);
    assert_eq!(
        parse_window(Some("year")).unwrap_err().message,
        "unknown window 'year' (expected hour|day|month)"
    );
    assert_eq!(
        [row_limit(None), row_limit(Some(0)), row_limit(Some(7)), row_limit(Some(9_999))],
        [20, 1, 7, 200]
    );
}

// ------------------------------------------------------------------ rules

fn request() -> LimitReq {
    LimitReq {
        metric: LimitMetric::Calls,
        window: LimitWindow::Hour,
        threshold: Threshold::Fixed(figure(10.0)),
        action: LimitAction::Throttle,
        enabled: false,
        warn_at: None,
        scope: None,
        escalation: None,
    }
}

#[test]
fn an_update_replaces_the_request_fields_and_keeps_the_rest() {
    let mut old = rule("r1", None, 5.0);
    old.escalated_until = Some(now());
    old.origin = Some("margin_policy:p:c".into());
    let r = updated_rule("r1", Some(old), request()).unwrap();
    assert_eq!((r.id.as_str(), r.project_id.as_str()), ("r1", "p"));
    assert_eq!(r.metric, LimitMetric::Calls);
    assert_eq!(r.action, LimitAction::Throttle);
    assert!(!r.enabled);
    assert_eq!(r.escalated_until, Some(now()));
    assert_eq!(r.origin.as_deref(), Some("margin_policy:p:c"));
    let e = updated_rule("r9", None, request()).unwrap_err();
    assert_eq!(e.code, ErrorCode::NotFound);
    assert!(e.message.contains("r9"));
    assert!(default_true());
    assert!(ensure_valid(&None).is_ok());
    assert_eq!(ensure_valid(&Some("bad".into())).unwrap_err().message, "bad");
    assert!(delete_answer("r", true).is_ok());
    assert_eq!(delete_answer("r", false).unwrap_err().code, ErrorCode::NotFound);
    assert_eq!(
        policy_delete_answer("m1", false).unwrap_err().message,
        "margin policy 'm1' not found"
    );
}

#[test]
fn usage_is_read_once_per_window_and_scope() {
    let rules = vec![
        rule("a", None, 1.0),
        key_rule("b", "k", 1.0),
        rule("c", None, 2.0),
        key_rule("d", "k", 2.0),
    ];
    let plan = plan_usage(&rules, &vec![true, true, true, false]);
    assert_eq!(plan.reads.len(), 2);
    assert_eq!(plan.figure[0], plan.figure[2]);
    assert_ne!(plan.figure[0], plan.figure[1]);
    assert_eq!(plan.figure[3], None);
}

#[test]
fn a_cost_basis_adds_up_what_the_caps_rest_on() {
    let with = |unpriced: u64, imputed: u64, unpriceable: bool| StatusEvidence {
        derived: false,
        inert: false,
        enforces: true,
        cost: Some(CostEvidence {
            unpriced_calls: unpriced,
            imputed_cost: imputed,
            client_reported_cost: 0,
            unpriceable,
        }),
    };
    let none = cost_basis(&vec![]);
    assert_eq!((none.unpriced_calls, none.imputed_cost, none.unpriceable), (0, 0, false));
    let b = cost_basis(&vec![with(3, 7, false), with(2, 1, true)]);
    assert!(b.unpriceable);
    assert_eq!((b.unpriced_calls, b.imputed_cost, b.client_reported_cost), (5, 8, 0));
    assert_eq!((b.derived_thresholds, b.inert_thresholds), (0, 0));
    assert_eq!(b.notes.len(), 6);
}

// ------------------------------------------------------------------ forecasts

fn eta(days: f64) -> Eta {
    Eta {
        key: key(days),
        days: format!("{days:.0}"),
        weeks: format!("{:.0}", days / 7.0),
        rounded: figure((days * 100.0).round() / 100.0),
    }
}

fn budget(e: Option<Eta>, presentable: bool, corroborated: bool, span: u64) -> BudgetForecast {
    BudgetForecast {
        rule_id: "r1".into(),
        metric: LimitMetric::CostUsd,
        window: LimitWindow::Day,
        threshold: "50.00".into(),
        projected_daily: "35.00".into(),
        current: "30.00".into(),
        eta: e,
        trend: Trend {
            objection: if presentable { None } else { Some("too young".to_string()) },
            corroborated,
            rising: true,
            confidence: Some(Confidence { r2: "1.00".into(), span_days: span }),
        },
    }
}

#[test]
fn a_thin_series_pages_nobody_however_steep_it_looks() {
    let b = budget(Some(eta(2.0)), false, true, 2);
    assert!(b.eta.is_some(), "the arithmetic still finds a crossing");
    assert!(
        build_alerts("p1", &vec![b], &vec![]).is_empty(),
        "what stands between that crossing and an operator's phone is the evidence floor"
    );
}

#[test]
fn an_old_spike_that_has_since_cooled_is_not_corroborated() {
    let b = budget(Some(eta(2.0)), true, false, 6);
    assert!(build_alerts("p1", &vec![b], &vec![]).is_empty());
}

#[test]
fn a_corroborated_rise_alerts_and_states_its_confidence() {
    let b = budget(Some(eta(4.0)), true, true, 6);
    let alerts = build_alerts("p1", &vec![b], &vec![]);
    let a = alerts.first().expect("a genuine ramp still pages");
    assert!(a.message.contains("r²=") && a.message.contains("over 6 days"), "{}", a.message);
    assert_eq!(a.severity, Severity::Warning);
}

#[test]
fn severity_turns_at_three_days() {
    for (days, want) in [(2.0, Severity::High), (3.0, Severity::High), (3.5, Severity::Warning)] {
        let b = budget(Some(eta(days)), true, true, 6);
        assert_eq!(build_alerts("p1", &vec![b], &vec![])[0].severity, want, "{days}");
    }
}

fn alert(kind: AlertKind, severity: Severity, subject: &str, days: f64) -> ForecastAlert {
    ForecastAlert {
        kind,
        severity,
        project_id: "p1".into(),
        subject: subject.into(),
        eta_days: figure(days),
        message: String::new(),
        policy_applied: None,
    }
}

#[test]
fn a_disabled_guardrail_is_not_reported_as_the_policy_in_force() {
    let mut alerts = vec![alert(AlertKind::MarginErosion, Severity::Warning, "acme", 5.0)];
    let mut guard = rule("g1", None, 50.0);
    guard.origin = Some("margin-policy:pol-1:acme".into());
    let mut rules = vec![guard];
    attach_guardrails(&mut alerts, &rules);
    assert_eq!(alerts[0].policy_applied.as_deref(), Some("g1"));
    rules[0].enabled = false;
    attach_guardrails(&mut alerts, &rules);
    assert!(
        alerts[0].policy_applied.is_none(),
        "a switched-off guardrail is a warning again, not a report"
    );
}

#[test]
fn the_dedup_key_lets_an_escalation_through_the_cooldown() {
    let mut a = alert(AlertKind::BudgetBreach, Severity::Warning, "r1", 9.0);
    let warned = a.dedup_key();
    a.severity = Severity::High;
    assert_ne!(
        warned,
        a.dedup_key(),
        "warning → high inside one cooldown is the message worth sending"
    );
}

#[test]
fn an_eroding_margin_is_told_apart_from_a_healthy_one() {
    let m = |presentable: bool| MarginForecast {
        key: "acme".into(),
        currently_profitable: true,
        revenue_per_day: "10.00".into(),
        cost_per_day: "9.00".into(),
        margin_usd: "1.00".into(),
        eta: Some(eta(5.0)),
        trend: Trend {
            objection: if presentable { None } else { Some("too young".to_string()) },
            corroborated: true,
            rising: true,
            confidence: None,
        },
    };
    let got = build_alerts("p1", &vec![], &vec![m(true)]);
    assert_eq!(got.len(), 1);
    assert_eq!(got[0].kind, AlertKind::MarginErosion);
    assert_eq!(got[0].subject, "acme");
    assert!(build_alerts("p1", &vec![], &vec![m(false)]).is_empty());
    let lost = MarginForecast { currently_profitable: false, ..m(true) };
    let got = build_alerts("p1", &vec![], &vec![lost]);
    assert_eq!((got[0].severity, got[0].eta_days.wire.as_str()), (Severity::High, "0.0"));
}

fn day(s: &str) -> i64 {
    lighttrack_api::dates::epoch_day_of(s).unwrap()
}

#[test]
fn a_window_is_dense_and_starts_where_history_does() {
    let until = Timestamp { nanos: (day("2026-03-10") as i128 * 86_400 + 3_600) * SEC };
    assert_eq!(epoch_day(until), day("2026-03-10"));
    let start = window_start(until, 4);
    assert_eq!(start, day("2026-03-07"));
    let rows = vec![
        DayRow { day: "2026-03-08".into(), value: 5u64 },
        DayRow { day: "2026-03-10".into(), value: 7u64 },
    ];
    assert_eq!(densify(&rows, start, 4, None, 0), vec![0, 5, 0, 7]);
    let days = vec!["2026-03-08".to_string(), "nonsense".to_string()];
    assert_eq!(first_observed(Some(start - 30), &days, start), None);
    assert_eq!(first_observed(None, &days, start), None);
    let first = first_observed(Some(day("2026-03-09")), &days, start);
    assert_eq!(first, Some(day("2026-03-08")));
    assert_eq!(densify(&rows, start, 4, first, 0), vec![5, 0, 7]);
    assert_eq!(first_observed(Some(day("2026-03-09")), &vec![], start), Some(day("2026-03-09")));
}

#[test]
fn a_dimension_reads_only_its_own_days() {
    let start = day("2026-03-07");
    let rows = vec![
        DimRow { key: Some("acme".to_string()), day: "2026-03-07".into(), value: 1u64 },
        DimRow { key: None, day: "2026-03-07".into(), value: 2u64 },
        DimRow { key: Some("acme".to_string()), day: "2026-03-08".into(), value: 3u64 },
    ];
    assert_eq!(series_of(&rows, "acme", "(unattributed)", start, 3, None, 0), vec![1, 3, 0]);
    assert_eq!(
        series_of(&rows, "(unattributed)", "(unattributed)", start, 3, None, 0),
        vec![2, 0, 0]
    );
    assert_eq!(series_of(&rows, "b", "(unattributed)", start, 3, None, 0), vec![0, 0, 0]);
    assert_eq!(series_of(&rows, "b", "(unattributed)", start, 3, Some(start + 2), 0), vec![0]);
    let keys = vec!["(unattributed)".to_string(), "acme".to_string(), "b".to_string()];
    assert_eq!(forecast_rows(&keys, "(unattributed)"), vec![1, 2]);
}

fn real_of(x: f64) -> Real {
    Real { key: key(x), wire: x.to_string() }
}

fn rule_kind(id: &str, fixed: bool) -> RuleKind {
    RuleKind { id: id.into(), fixed, metric: LimitMetric::Calls, window: LimitWindow::Day }
}

#[test]
fn a_forecast_is_planned_from_what_the_store_holds() {
    let at = |d: &str, n: u64| (d.to_string(), Usage { cost: n, calls: n * 10, tokens: n * 100 });
    let raw = RawForecast {
        created: Some(day("2026-03-09")),
        daily: vec![at("2026-03-08", 5), at("2026-03-10", 7)],
        rules: vec![rule_kind("share", false), rule_kind("fixed", true)],
        window_usage: vec![
            (LimitWindow::Hour, Usage { cost: 1, calls: 2, tokens: 3 }),
            (LimitWindow::Day, Usage { cost: 4, calls: 6, tokens: 8 }),
        ],
        keys: vec!["acme".to_string(), "(unattributed)".to_string(), "quiet".to_string()],
        daily_dim: vec![DimRow {
            key: Some("acme".to_string()),
            day: "2026-03-10".into(),
            value: 3u64,
        }],
    };
    let until = Timestamp { nanos: day("2026-03-10") as i128 * 86_400_000_000_000 + 1 };
    let plan = plan_forecast(&raw, until, 1, "(unattributed)", 0);
    assert_eq!((plan.lookback, plan.start), (4, day("2026-03-07")));
    assert_eq!(plan.series(LimitMetric::CostUsd), &vec![5, 0, 7]);
    assert_eq!(plan.series(LimitMetric::Calls), &vec![50, 0, 70]);
    assert_eq!(plan.series(LimitMetric::Tokens), &vec![500, 0, 700]);
    assert_eq!(plan.budgets.len(), 1);
    assert_eq!((plan.budgets[0].rule, plan.budgets[0].current), (1, 6));
    assert_eq!(plan.margins.len(), 2);
    assert_eq!((plan.margins[0].row, plan.margins[0].series.clone()), (0, vec![0, 0, 3]));
    assert_eq!((plan.margins[1].row, plan.margins[1].series.clone()), (2, vec![0, 0, 0]));
    assert_eq!(current_usage(&raw.window_usage, LimitWindow::Month, LimitMetric::CostUsd, 0), 0);
    assert_eq!(by_day(&raw.daily, LimitMetric::Tokens)[1].value, 700);
}

#[test]
fn what_is_not_forecast_is_named() {
    let rules = vec![
        rule_kind("fixed", true),
        rule_kind("share", false),
    ];
    let (take, refused) = forecastable(&rules);
    assert_eq!(take, vec![0]);
    assert_eq!(refused[0].subject, "share");
    let got = conclude(
        ForecastHead {
            project_id: "p1".into(),
            generated_at: now(),
            dimension: "customer".into(),
            horizon_days: 14,
            lookback_days: 7,
        },
        SpendProjection {
            projected_daily_cost: real_of(1.0),
            projected_cost_next_7d: real_of(7.0),
            projected_cost_next_30d: real_of(30.0),
            confidence: None,
            objection: Some("too young".to_string()),
        },
        &rules,
        vec![budget(Some(eta(2.0)), true, true, 14), budget(Some(eta(2.0)), false, true, 2)],
        vec![],
    );
    assert_eq!((got.head.project_id.as_str(), got.head.horizon_days), ("p1", 14));
    assert_eq!(got.spend.projected_cost_next_30d.key, key(30.0));
    assert!(got.budgets[0].eta.is_some());
    assert!(got.budgets[1].eta.is_none(), "no date that the evidence does not carry");
    let named: Vec<(&str, &str)> =
        got.refused.iter().map(|r| (r.subject.as_str(), r.reason.as_str())).collect();
    assert_eq!(named[0], ("spend", "too young"));
    assert_eq!(named[1].0, "share");
    assert_eq!(named[2], ("r1", "too young"));
    assert_eq!(named.len(), 3);
    assert_eq!(got.alerts.len(), 1);
    assert_eq!(forecast_project(Some("p1".into())).unwrap(), "p1");
    assert_eq!(forecast_project(None).unwrap_err().code, ErrorCode::BadRequest);
    assert_eq!([horizon_days(None), horizon_days(Some(0)), horizon_days(Some(500))], [14, 1, 90]);
    assert_eq!(
        [lookback_days(None), lookback_days(Some(1)), lookback_days(Some(500))],
        [14, 4, 90]
    );
}

#[test]
fn forecast_sweep_the_sweep_is_off_unless_explicitly_configured() {
    assert!(SweepConfig::from_raw(None, None, None).is_none());
    assert!(describe(None).starts_with("off"));
    assert!(describe(Some(SweepConfig { interval_secs: 300, horizon: 14, lookback: 14 }))
        .contains("every 300s"));
}

#[test]
fn a_sweep_is_floored_and_clamped() {
    assert!(SweepConfig::from_raw(Some("0"), None, None).is_none());
    assert!(SweepConfig::from_raw(Some("soon"), None, None).is_none());
    let c = SweepConfig::from_raw(Some(" 5 "), Some("0"), Some("1")).unwrap();
    assert_eq!((c.interval_secs, c.horizon, c.lookback), (60, 1, 2));
    let c = SweepConfig::from_raw(Some("900"), Some("400"), None).unwrap();
    assert_eq!((c.interval_secs, c.horizon, c.lookback), (900, 90, 14));
    assert_eq!(describe(Some(c)), "every 900s (horizon 90d, lookback 14d)");
    assert_eq!(SweepConfig::shape(None), (14, 14));
    assert_eq!(SweepConfig::shape(Some(c)), (90, 14));
}

#[test]
fn a_broken_project_does_not_stop_a_sweep() {
    assert_eq!(take_project(2, true, Some(3)), (5, SweepNote::Notify));
    assert_eq!(take_project(2, true, Some(0)), (2, SweepNote::Quiet));
    assert_eq!(take_project(2, true, None), (2, SweepNote::WarnProject));
    assert_eq!(take_project(2, false, Some(3)), (2, SweepNote::Quiet));
}

// ------------------------------------------------------------------ guardrails

#[test]
fn the_cooldown_blocks_a_repeat_and_releases_after_its_window() {
    let mut c = PolicyCooldowns::new();
    let t0 = now();
    assert!(c.allow("margin_policy:p:cus", 60, t0), "first pass applies");
    assert!(
        !c.allow("margin_policy:p:cus", 60, t(t0, 30)),
        "a repeat inside the cooldown is skipped, not applied"
    );
    assert!(c.allow("margin_policy:p:cus", 60, t(t0, 61)), "past the cooldown it applies again");
    assert!(c.allow("margin_policy:p:other", 60, t0), "a different subject is independent");
}

#[test]
fn a_zero_cooldown_never_blocks() {
    let mut c = PolicyCooldowns::new();
    let t0 = now();
    assert!(c.allow("o", 0, t0));
    assert!(c.allow("o", 0, t0));
}

#[test]
fn guardrail_for_matches_only_the_rule_raised_for_that_key() {
    let mut guard = rule("guard", None, 1.0);
    guard.origin = Some("margin_policy:pol-1:cus-a".into());
    let rules = vec![rule("hand-made", None, 1.0), guard];
    assert_eq!(guardrail_for(&rules, "cus-a").as_deref(), Some("guard"));
    assert_eq!(guardrail_for(&rules, "cus-b"), None);
    let mut team = rule("guard", None, 1.0);
    team.origin = Some("margin_policy:pol-1:team:cus-a".into());
    let rules = vec![team];
    assert_eq!(guardrail_for(&rules, "cus-a"), None);
    assert_eq!(guardrail_for(&rules, "team:cus-a").as_deref(), Some("guard"));
}

#[test]
fn an_escalation_starts_stands_and_ends() {
    let mut r = rule("r1", None, 1.0);
    let alerts = vec![alert(AlertKind::BudgetBreach, Severity::Warning, "r1", 4.0)];
    let until = t(now(), 3600);
    assert_eq!(escalation_step(&r, &alerts, now(), until), EscalationStep::Leave);
    r.escalation = Some(Escalation { to: LimitAction::Block, on_eta_days: figure(5.0) });
    assert_eq!(escalation_step(&r, &alerts, now(), until), EscalationStep::Escalate(until));
    r.escalated_until = Some(until);
    assert_eq!(escalation_step(&r, &alerts, now(), t(until, 60)), EscalationStep::Leave);
    assert_eq!(escalation_step(&r, &vec![], now(), until), EscalationStep::DeEscalate);
    assert_eq!(escalation_step(&r, &alerts, t(until, 1), t(until, 9)), EscalationStep::Escalate(t(until, 9)));
    let mut o = GuardrailOutcome::none();
    o.count_step(EscalationStep::Escalate(until), true);
    o.count_step(EscalationStep::DeEscalate, false);
    o.count_change(&RuleChange::Delete("x".into()));
    assert_eq!((o.escalated, o.de_escalated, o.rules_removed, o.total()), (1, 0, 1, 2));
}

#[test]
fn a_policy_acts_in_its_own_project_and_at_its_own_pace() {
    let policies = vec![
        PolicyCooldown { id: "a".into(), cooldown_secs: 10 },
        PolicyCooldown { id: "ab".into(), cooldown_secs: 20 },
    ];
    assert_eq!(cooldown_of(&policies, "margin_policy:ab:cus"), 20);
    assert_eq!(cooldown_of(&policies, "margin_policy:a:cus"), 10);
    assert_eq!(cooldown_of(&policies, "margin_policy:z:cus"), 0);
    match claim_change(RuleChange::Create(rule("n", None, 1.0)), "mine") {
        RuleChange::Create(r) => assert_eq!(r.project_id, "mine"),
        other => panic!("{other:?}"),
    }
    let p = PolicyReq {
        trigger: 1u8,
        action: 2u8,
        min_cost: figure(0.0),
        cooldown_secs: default_cooldown(),
        expiry_secs: default_expiry(),
        enabled: true,
    }
    .into_policy("id".into(), "proj".into());
    assert_eq!((p.id.as_str(), p.project_id.as_str()), ("id", "proj"));
    assert_eq!((p.cooldown_secs, p.expiry_secs), (3600, 86_400));
}
