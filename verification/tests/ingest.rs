use lighttrack_api::admission::{breach_reason, plan_admission, record_rejection};
use lighttrack_api::auth::{default_scopes, Principal};
use lighttrack_api::clock::Timestamp;
use lighttrack_api::dates::parse_rfc3339;
use lighttrack_api::error::{ApiError, ErrorCode, StoreFailure};
use lighttrack_api::event::{
    provider_name, same_logical_event, settle_cost, LlmEvent, Money, Operation, Status, TokenUsage,
};
use lighttrack_api::figure::Real;
use lighttrack_api::ingest::{
    answer_event, batch_slot, check_batch, ensure_enabled, item_project, ready_event, settle_batch,
    Admission, BatchItem, InsertOutcome, ProjectPolicy, Slot,
};
use lighttrack_api::json::{Json, Member, Number};
use lighttrack_api::limit::{LimitAction, LimitMetric, LimitScope, LimitStatus, LimitWindow};
use lighttrack_api::projects::Redaction;
use lighttrack_api::proximity::Proximity;
use lighttrack_api::redact::Redactor;
use lighttrack_api::rejections::RejectionLedger;
use lighttrack_api::scrub::Scrubbed;
use lighttrack_api::validate::{
    batch_body_limit_bytes, body_limit_bytes, max_batch, IngestPolicy, DEFAULT_SKEW_FUTURE_SECS,
    DEFAULT_SKEW_PAST_SECS,
};

const SEC: i128 = 1_000_000_000;

fn now() -> Timestamp {
    Timestamp { nanos: 1_790_000_000 * SEC }
}

fn later(secs: i128) -> Timestamp {
    Timestamp { nanos: now().nanos + secs * SEC }
}

fn at(s: &str) -> Timestamp {
    parse_rfc3339(s).unwrap()
}

fn event() -> LlmEvent {
    LlmEvent {
        id: "e1".into(),
        project_id: "demo".into(),
        trace_id: None,
        span_id: None,
        parent_span_id: None,
        ts: now(),
        received_at: now(),
        provider: "anthropic".into(),
        model: "haiku-4-5".into(),
        name: None,
        operation: Operation::Chat,
        usage: TokenUsage { input: 1, output: 1, cached_input: None, reasoning: None },
        cost: None,
        latency_ms: None,
        status: Status::Success,
        error: None,
        input: None,
        output: None,
        tags: vec![],
        source: None,
        metadata: Json::Null,
    }
}

fn disabled_skew() -> IngestPolicy {
    IngestPolicy { max_future_secs: 0, max_past_secs: 0 }
}

#[test]
fn accepts_a_well_formed_event() {
    assert!(disabled_skew().validate(&event(), now()).is_ok());
}

#[test]
fn rejects_empty_or_whitespace_model() {
    for m in ["", "   ", "\t"] {
        let mut e = event();
        e.model = m.to_string();
        let err = disabled_skew().validate(&e, now()).unwrap_err();
        assert_eq!(err.code, ErrorCode::BadRequest);
        assert!(err.message.contains("model"), "{}", err.message);
    }
}

#[test]
fn accepts_unmodeled_provider() {
    let mut e = event();
    e.provider = provider_name(Some("mistral"));
    assert_eq!(e.provider.as_str(), "mistral");
    assert!(disabled_skew().validate(&e, now()).is_ok());
    assert_eq!(provider_name(Some("  ")), "unknown");
    assert_eq!(provider_name(None), "unknown");
}

#[test]
fn ts_skew_disabled_accepts_ancient_and_future_events() {
    let mut ancient = event();
    ancient.ts = at("2000-01-01T00:00:00Z");
    let mut future = event();
    future.ts = at("2099-01-01T00:00:00Z");
    assert!(disabled_skew().validate(&ancient, now()).is_ok());
    assert!(disabled_skew().validate(&future, now()).is_ok());
}

#[test]
fn ts_skew_enforced_rejects_backdated_and_future_events_with_distinct_codes() {
    let pol = IngestPolicy { max_future_secs: 3600, max_past_secs: 3600 };
    let mut recent = event();
    recent.ts = later(-30 * 60);
    assert!(pol.validate(&recent, now()).is_ok());
    let mut old = event();
    old.ts = later(-5 * 3600);
    assert_eq!(pol.validate(&old, now()).unwrap_err().code, ErrorCode::TsTooOld);
    let mut ahead = event();
    ahead.ts = later(5 * 3600);
    assert_eq!(pol.validate(&ahead, now()).unwrap_err().code, ErrorCode::TsTooNew);
}

#[test]
fn skew_bounds_are_asymmetric_by_default() {
    let pol = IngestPolicy {
        max_future_secs: DEFAULT_SKEW_FUTURE_SECS,
        max_past_secs: DEFAULT_SKEW_PAST_SECS,
    };
    let mut day_old = event();
    day_old.ts = later(-24 * 3600);
    assert!(pol.validate(&day_old, now()).is_ok(), "a day-old backfill is legitimate");
    let mut hour_ahead = event();
    hour_ahead.ts = later(3600);
    assert_eq!(pol.validate(&hour_ahead, now()).unwrap_err().code, ErrorCode::TsTooNew);
    let mut ancient = event();
    ancient.ts = at("2000-01-01T00:00:00Z");
    assert_eq!(pol.validate(&ancient, now()).unwrap_err().code, ErrorCode::TsTooOld);
}

#[test]
fn a_skew_at_the_bound_passes_and_the_refusal_says_by_how_much() {
    let pol = IngestPolicy { max_future_secs: 300, max_past_secs: 600 };
    let mut e = event();
    e.ts = later(300);
    assert!(pol.validate(&e, now()).is_ok());
    e.ts = later(301);
    assert_eq!(
        pol.validate(&e, now()).unwrap_err().message,
        "`ts` is 301s ahead of server time, beyond the allowed 300s future skew (see LIGHTTRACK_MAX_TS_SKEW_FUTURE_SECS)"
    );
    e.ts = later(-601);
    assert_eq!(
        pol.validate(&e, now()).unwrap_err().message,
        "`ts` is 601s behind server time, beyond the allowed 600s past skew (see LIGHTTRACK_MAX_TS_SKEW_PAST_SECS)"
    );
}

#[test]
fn skew_settings_fall_back_one_by_one() {
    let p = IngestPolicy::from_raw(Some("0"), Some("10"), Some("20"));
    assert_eq!((p.max_future_secs, p.max_past_secs), (0, 0));
    let p = IngestPolicy::from_raw(None, Some("10"), None);
    assert_eq!((p.max_future_secs, p.max_past_secs), (10, DEFAULT_SKEW_PAST_SECS));
    let p = IngestPolicy::from_raw(Some("soon"), Some("-5"), Some(" 20 "));
    assert_eq!((p.max_future_secs, p.max_past_secs), (0, 20));
    assert_eq!(body_limit_bytes(None), 2 * 1024 * 1024);
    assert_eq!(body_limit_bytes(Some("1000")), 1000);
    assert_eq!(max_batch(None), 500);
    assert_eq!(max_batch(Some("junk")), 500);
    assert_eq!(batch_body_limit_bytes(None), 8 * 1024 * 1024);
}

// ------------------------------------------------------------------ positions

fn key(x: f64) -> i64 {
    if x < 0.0 {
        -(x.abs().to_bits() as i64)
    } else {
        x.abs().to_bits() as i64
    }
}

fn figure(x: f64) -> Real {
    Real { key: key(x), wire: format!("{x:.6}") }
}

fn status(rule: &str, ratio: f64, shed: f64, scope: Option<LimitScope>) -> LimitStatus {
    LimitStatus {
        rule_id: rule.to_string(),
        project_id: "demo".into(),
        metric: LimitMetric::CostUsd,
        window: LimitWindow::Day,
        action: LimitAction::Block,
        current: format!("{ratio:.4}"),
        threshold: "1.0000".into(),
        ratio: figure(ratio),
        percent: format!("{:.0}", ratio * 100.0),
        shed_fraction: figure(shed),
        shed_percent: format!("{:.0}", shed * 100.0),
        breached: ratio >= 1.0,
        warning: false,
        shedding: false,
        rejects_ingest: ratio >= 1.0,
        unpriceable: false,
        estimated: false,
        scope,
        basis: None,
        retry_after_secs: 60,
        alert_key: format!("limit:{rule}"),
    }
}

#[test]
fn binding_identity_is_the_worst_rule_not_the_first() {
    let p = Proximity::of(&vec![
        status("r-cheap", 0.10, 0.0, None),
        status("r-hot", 0.94, 0.4, Some(LimitScope::Model("gpt-4o".into()))),
    ]);
    assert_eq!(p.usage_ratio.unwrap().key, key(0.94));
    assert_eq!(p.shed_fraction.unwrap().key, key(0.4));
    assert_eq!(p.binding_rule.as_deref(), Some("r-hot"));
    let scope = p.binding_scope.unwrap();
    assert_eq!(scope.kind, "model");
    assert_eq!(scope.value, "gpt-4o");
}

#[test]
fn nothing_configured_emits_no_headers() {
    assert!(Proximity::of(&vec![]).headers().is_empty());
}

#[test]
fn merge_takes_the_worst_of_each_axis_and_the_longest_wait() {
    let mut a = Proximity::of(&vec![status("r-a", 0.2, 0.0, None)]);
    a.retry_after_secs = Some(5);
    let mut b = Proximity::of(&vec![status("r-b", 0.99, 0.9, None)]);
    b.retry_after_secs = Some(3600);
    a.merge(&b);
    assert_eq!(a.usage_ratio.unwrap().key, key(0.99));
    assert_eq!(a.shed_fraction.unwrap().key, key(0.9));
    assert_eq!(a.retry_after_secs, Some(3600));
    assert_eq!(a.binding_rule.as_deref(), Some("r-b"));
}

#[test]
fn a_tie_keeps_the_first_binding_rule() {
    let (a, b) = (|| status("r-a", 0.5, 0.0, None), || status("r-b", 0.5, 0.2, None));
    let mut merged = Proximity::of(&vec![a()]);
    merged.merge(&Proximity::of(&vec![b()]));
    let at_once = Proximity::of(&vec![a(), b()]);
    assert_eq!(merged.binding_rule.as_deref(), Some("r-a"));
    assert_eq!(merged.binding_rule, at_once.binding_rule);
    assert_eq!(merged.shed_fraction.map(|r| r.key), at_once.shed_fraction.map(|r| r.key));
}

#[test]
fn headers_are_exact_decimal_strings() {
    let mut p = Proximity::of(&vec![status("r", 0.82, 0.25, None)]);
    p.retry_after_secs = Some(30);
    let h: Vec<(String, String)> = p.headers().into_iter().map(|h| (h.name, h.value)).collect();
    assert_eq!(h[0], ("x-lighttrack-usage-ratio".to_string(), "0.820000".to_string()));
    assert_eq!(h[1], ("x-lighttrack-shed-fraction".to_string(), "0.250000".to_string()));
    assert_eq!(h[2], ("x-lighttrack-retry-after".to_string(), "30".to_string()));
}

// ------------------------------------------------------------------ preparing

fn plain(s: String) -> String {
    s
}

fn lower(s: String) -> String {
    s.to_lowercase()
}

fn digest(s: String) -> String {
    format!("{:064}", s.len())
}

fn hide_mail(s: String) -> Scrubbed {
    let mut redactions = 0;
    let words: Vec<String> = s
        .split(' ')
        .map(|w| {
            if w.contains('@') {
                redactions += 1;
                "<EMAIL>".to_string()
            } else {
                w.to_string()
            }
        })
        .collect();
    Scrubbed { text: words.join(" "), redactions, failed: false }
}

fn keyed(scopes: Vec<lighttrack_api::auth::Scope>) -> Principal {
    Principal::Project { project_id: "proj-a".into(), key_id: "key-1".into(), scopes }
}

fn policy(enabled: bool, redaction: Redaction) -> ProjectPolicy {
    ProjectPolicy { enabled, redaction }
}

fn make(ev: LlmEvent, p: &Principal, pol: ProjectPolicy, price: Option<Money>) -> Result<LlmEvent, ApiError> {
    ready_event(
        &disabled_skew(),
        &Redactor::all(),
        ev,
        p,
        "proj-a",
        pol,
        price,
        now(),
        "fresh-1".into(),
        &lower,
        &digest,
        &hide_mail,
        "v1",
    )
}

#[test]
fn a_ready_event_is_stamped_by_the_server() {
    let mut ev = event();
    ev.id = "  ".into();
    ev.project_id = "someone-else".into();
    ev.trace_id = Some("ABCDEF".into());
    ev.received_at = later(-9);
    ev.input = Some(Json::Str("mail jane@example.com".into()));
    ev.metadata = Json::Obj(vec![
        Member { name: "api_key_id".into(), value: Json::Str("another-key".into()) },
        Member { name: "customer_id".into(), value: Json::Str("c@d".into()) },
        Member { name: "redaction".into(), value: Json::Bool(true) },
    ]);
    let r = make(
        ev,
        &keyed(default_scopes()),
        policy(true, Redaction::Keep),
        Some(Money { pico: 5, wire: "0.000000000005".into() }),
    )
    .unwrap();
    assert_eq!(r.id, "fresh-1");
    assert_eq!(r.project_id, "proj-a");
    assert_eq!(r.trace_id.as_deref(), Some("abcdef"));
    assert_eq!(r.received_at, now());
    assert_eq!(r.input.as_ref().unwrap().as_str(), Some("mail <EMAIL>"));
    assert_eq!(r.metadata.get_str("api_key_id"), Some("key-1"));
    assert_eq!(r.metadata.get_str("customer_id"), Some("c@d"));
    assert_eq!(r.metadata.get_str("cost_source"), Some("book"));
    assert_eq!(r.cost.unwrap().pico, 5);
    let stamp = r.metadata.get("redaction").unwrap();
    assert_eq!(stamp.get_str("policy"), Some("none"));
    assert_eq!(stamp.get_str("rules"), Some("v1"));
    assert_eq!(stamp.get_u64("spans"), Some(1));
}

#[test]
fn a_keyless_caller_cannot_claim_a_key() {
    let mut ev = event();
    ev.metadata = Json::Obj(vec![Member {
        name: "api_key_id".into(),
        value: Json::Str("another-key".into()),
    }]);
    let r = make(ev, &Principal::Admin, policy(true, Redaction::Keep), None).unwrap();
    assert!(r.metadata.get("api_key_id").is_none());
    assert!(r.metadata.get("cost_source").is_none());
    assert!(r.cost.is_none());
}

#[test]
fn a_disabled_project_and_a_bad_event_are_refused_in_their_own_words() {
    let e = make(event(), &Principal::Admin, policy(false, Redaction::Keep), None).unwrap_err();
    assert_eq!(e.code, ErrorCode::ProjectDisabled);
    assert!(e.message.starts_with("project 'proj-a' is disabled: ingest refused."));
    assert_eq!(ensure_enabled("proj-a", false).unwrap_err().message, e.message);
    assert!(ensure_enabled("proj-a", true).is_ok());
    let mut bad = event();
    bad.model = " ".into();
    let e = make(bad, &Principal::Admin, policy(true, Redaction::Keep), None).unwrap_err();
    assert_eq!(e.code, ErrorCode::BadRequest);
}

#[test]
fn a_hashed_payload_is_stored_as_its_digest() {
    let mut ev = event();
    ev.input = Some(Json::Str("jane@example.com".into()));
    let r = make(ev, &Principal::Admin, policy(true, Redaction::Hash), None).unwrap();
    assert_eq!(
        r.input.unwrap().get_str("sha256").unwrap(),
        format!("{:064}", "\"jane@example.com\"".len())
    );
}

#[test]
fn a_client_cost_beats_the_book() {
    let mut ev = event();
    ev.cost = Some(Money { pico: 7, wire: "7".into() });
    let r = settle_cost(ev, Some(Money { pico: 9, wire: "9".into() }));
    assert_eq!(r.cost.unwrap().pico, 7);
    assert_eq!(r.metadata.get_str("cost_source"), Some("client"));
}

fn slot(ev: LlmEvent, pol: Result<ProjectPolicy, ApiError>) -> Slot {
    batch_slot(
        &disabled_skew(),
        &Redactor::off(),
        ev,
        &Principal::Admin,
        "proj-a",
        pol,
        None,
        now(),
        "fresh-1".into(),
        &plain,
        &digest,
        &hide_mail,
        "v1",
    )
}

fn refusal(s: &Slot) -> (Option<String>, ErrorCode, String) {
    match s {
        Slot::Refused { id, code, reason } => (id.clone(), *code, reason.clone()),
        Slot::Ready(_) => panic!("ready"),
    }
}

#[test]
fn an_item_is_refused_by_itself_with_its_own_code() {
    let mut nowhere = event();
    nowhere.project_id = "".into();
    nowhere.id = "".into();
    let s = item_project(&Principal::Admin, &nowhere).unwrap_err();
    assert_eq!(refusal(&s), (None, ErrorCode::BadRequest, "project_id is required".to_string()));
    assert_eq!(item_project(&keyed(default_scopes()), &nowhere).unwrap(), "proj-a");

    let s = slot(event(), Err(ApiError::internal("db is away")));
    assert_eq!(
        refusal(&s),
        (
            Some("e1".to_string()),
            ErrorCode::Internal,
            "could not resolve project policy: internal: db is away".to_string()
        )
    );
    let s = slot(event(), Ok(policy(false, Redaction::Keep)));
    assert_eq!(refusal(&s).1, ErrorCode::ProjectDisabled);
    let mut bad = event();
    bad.model = "".into();
    let s = slot(bad, Ok(policy(true, Redaction::Keep)));
    assert_eq!(refusal(&s).1, ErrorCode::BadRequest);
    assert!(matches!(slot(event(), Ok(policy(true, Redaction::Keep))), Slot::Ready(_)));
}

// ------------------------------------------------------------------ answering

fn admitted(statuses: Vec<LimitStatus>) -> InsertOutcome {
    InsertOutcome::Decided(Admission { admitted: true, statuses, retry_after_secs: None })
}

fn turned_away(statuses: Vec<LimitStatus>, wait: u64) -> InsertOutcome {
    InsertOutcome::Decided(Admission { admitted: false, statuses, retry_after_secs: Some(wait) })
}

#[test]
fn an_accepted_event_shows_its_position() {
    let r = answer_event(&event(), &admitted(vec![status("r", 0.5, 0.1, None)])).unwrap();
    assert_eq!((r.id.as_str(), r.project_id.as_str(), r.duplicate), ("e1", "demo", false));
    assert_eq!(r.proximity.usage_ratio.unwrap().wire, "0.500000");
    assert!(r.breached.is_empty());
}

#[test]
fn a_refused_event_says_which_cap_and_how_long() {
    let e = answer_event(&event(), &turned_away(vec![status("r", 1.5, 0.0, None)], 90)).unwrap_err();
    assert_eq!(e.code, ErrorCode::RateLimited);
    assert_eq!(e.retry_after, Some(90));
    assert_eq!(e.message, breach_reason(&vec![status("r", 1.5, 0.0, None)]));
    assert_eq!(e.proximity.unwrap().retry_after_secs, Some(90));
}

#[test]
fn a_replay_is_acknowledged_and_another_call_is_a_conflict() {
    let mut stored = event();
    stored.cost = Some(Money { pico: 3, wire: "3".into() });
    let r = answer_event(&event(), &InsertOutcome::Taken(Some(stored))).unwrap();
    assert!(r.duplicate);
    assert_eq!(r.cost.unwrap().pico, 3);
    let mut other = event();
    other.usage.input = 2;
    assert!(!same_logical_event(&other, &event()));
    let e = answer_event(&event(), &InsertOutcome::Taken(Some(other))).unwrap_err();
    assert_eq!(e.code, ErrorCode::Conflict);
    assert_eq!(e.message, "event 'e1' already exists with a different payload");
    let e = answer_event(&event(), &InsertOutcome::Taken(None)).unwrap_err();
    assert_eq!(e.code, ErrorCode::Conflict);
    let e = answer_event(&event(), &InsertOutcome::Failed(StoreFailure::Other("disk".into())))
        .unwrap_err();
    assert_eq!(e.code, ErrorCode::Internal);
}

#[test]
fn a_batch_is_bounded() {
    assert_eq!(check_batch(0, 500).unwrap_err().message, "batch must contain at least one event");
    assert_eq!(
        check_batch(501, 500).unwrap_err().message,
        "batch of 501 events exceeds the limit of 500 (see LIGHTTRACK_MAX_BATCH)"
    );
    assert!(check_batch(500, 500).is_ok());
}

#[test]
fn a_batch_answers_every_item_in_its_place() {
    let ready = |id: &str| {
        let mut e = event();
        e.id = id.into();
        Slot::Ready(e)
    };
    let slots = vec![
        ready("a"),
        Slot::Refused { id: None, code: ErrorCode::BadRequest, reason: "no".into() },
        ready("b"),
        ready("c"),
        ready("d"),
    ];
    let mut stored = event();
    stored.id = "c".into();
    let outcomes = vec![
        admitted(vec![status("r", 0.2, 0.0, None)]),
        turned_away(vec![status("r", 1.2, 0.0, None)], 30),
        InsertOutcome::Taken(Some(stored)),
        InsertOutcome::Failed(StoreFailure::Other("disk".into())),
    ];
    let r = settle_batch(&slots, &outcomes);
    assert_eq!((r.accepted, r.rejected, r.invalid), (2, 1, 2));
    assert_eq!(r.results.len(), 5);
    assert!(matches!(&r.results[0], BatchItem::Accepted { index: 0, duplicate: false, .. }));
    assert!(matches!(&r.results[1], BatchItem::Invalid { index: 1, id: None, .. }));
    assert!(matches!(
        &r.results[2],
        BatchItem::Rejected { index: 2, code: ErrorCode::RateLimited, .. }
    ));
    assert!(matches!(&r.results[3], BatchItem::Accepted { index: 3, duplicate: true, .. }));
    match &r.results[4] {
        BatchItem::Invalid { index, code, reason, .. } => {
            assert_eq!((*index, *code), (4, ErrorCode::Internal));
            assert_eq!(reason, "store error (see server logs)");
        }
        other => panic!("{other:?}"),
    }
    assert_eq!(r.proximity.usage_ratio.unwrap().wire, "1.200000");
    assert_eq!(r.proximity.retry_after_secs, Some(30));
}

#[test]
fn a_refused_event_is_filed_once_per_rule_that_refused_it() {
    let mut ledger = RejectionLedger::new();
    let statuses = vec![status("r", 1.5, 0.0, None), status("s", 0.4, 0.0, None)];
    let counts = record_rejection(&mut ledger, &statuses, 1_000, now());
    assert_eq!(counts.len(), 1);
    assert_eq!((counts[0].alert_key.as_str(), counts[0].count), ("limit:r", 1));
    let again = record_rejection(&mut ledger, &statuses, 1_000, now());
    assert_eq!(again[0].count, 2);
    let plan = plan_admission(&statuses, false, true);
    assert_eq!(plan.breached, vec![0]);
}

#[test]
fn numbers_of_a_document_compare_by_kind() {
    let a = Json::Num(Number::Pos(1));
    let b = Json::Num(Number::Pos(1));
    let c = Json::Num(Number::Float("1.0".into()));
    assert!(lighttrack_api::json::same_json(&a, &b));
    assert!(!lighttrack_api::json::same_json(&a, &c));
}
