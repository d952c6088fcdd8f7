use lighttrack_api::actions::{
    activity_order, as_text, check_snapshot, fold, next_page, scan_budget, snapshot_dataset,
    snapshot_item, snapshot_items, walk_over, ActionFingerprint, SnapshotTask,
};
use lighttrack_api::admission::throttled;
use lighttrack_api::auth::{Principal, Scope};
use lighttrack_api::canary::{
    describe, find, judge_prompt, pass_step, project_pass, prompt_step, regression, revert_target,
    rows_to_compare, versions_to_compare, CanaryPolicy, PassStep, ProjectOutcome, PromptOutcome,
    PromptStep, ScoreSummary, Sweep, SweepConfig, SweepNote, Versions,
};
use lighttrack_api::clock::Timestamp;
use lighttrack_api::datasets::{
    check_versions_name, ensure_importable, found_dataset, item_for, narrow, new_dataset,
    stated_tier, tier_filter, BenchmarkCase, Dataset, DatasetItem, Difficulty, StatedCase, StatedItem,
};
use lighttrack_api::error::ErrorCode;
use lighttrack_api::event::{LlmEvent, Money, Operation, Status, TokenUsage};
use lighttrack_api::figure::Real;
use lighttrack_api::gate::{
    ci95_upper, evidence_of, gate_promotion, version_scored_run, BenchmarkRun, Figure, GateEvidence,
    GateOutcome,
};
use lighttrack_api::jobs::{
    bench_run_payload, cancel_answer, check_declared, default_samples, default_stale_secs,
    finish_answer, new_job, parse_kind, renew_answer, sampling, stale_before, JobCancel, JobFinish,
};
use lighttrack_api::json::{Json, Member, Number};
use lighttrack_api::judges::{
    check_trust_query, policy_block, trust_of, Calibration, JudgeTrust,
};
use lighttrack_api::labels::{
    calibration_id, calibration_project, check_label, copied_label, find_label, item_from_label,
    new_label, plan_promotion, promote_event, promoted_event, stated_label, subject_filter,
    write_project, Label as Verdict, LabelReq, LabelSubject, Payloads,
};
use lighttrack_api::limit::{LimitAction, LimitMetric, LimitStatus, LimitWindow};
use lighttrack_api::projects::{new_project, Project, Redaction};
use lighttrack_api::prompts::{
    added_version, bench_payload, benchmark_resolves, check_canary, choose_version, latest_version,
    link_target, linked_prompt, new_prompt, next_version, promotion, prompt_not_found,
    resolve_prompt, run_on_new_version, validate_ident, with_canary, Label, PromptVersion,
    VersionBody, VersionChoice, MAX_IDENT_LEN,
};
use lighttrack_api::quality::{
    listing_order, quality_window, split_tag, tag, PromptQualityRow, ScoreSummaryRow,
};
use lighttrack_api::relay::{
    answer_replay, budget_allows, check_replay, check_task_status, ensure_routable, finish_enqueue,
    fleet_admission, new_task, plan_enqueue, requested_action, task_not_found, EnqueueReq, EnqueueStep,
    KeyLookup, RelayAdmission,
};

const SEC: i128 = 1_000_000_000;

fn now() -> Timestamp {
    Timestamp { nanos: 1_790_000_000 * SEC }
}

fn plus(t: Timestamp, secs: i128) -> Timestamp {
    Timestamp { nanos: t.nanos + secs * SEC }
}

fn of(v: &serde_json::Value) -> Json {
    match v {
        serde_json::Value::Null => Json::Null,
        serde_json::Value::Bool(b) => Json::Bool(*b),
        serde_json::Value::Number(n) => Json::Num(match (n.as_u64(), n.as_i64()) {
            (Some(u), _) => Number::Pos(u),
            (None, Some(i)) => Number::Neg(i),
            (None, None) => Number::Float(n.to_string()),
        }),
        serde_json::Value::String(s) => Json::Str(s.clone()),
        serde_json::Value::Array(a) => Json::Arr(a.iter().map(of).collect()),
        serde_json::Value::Object(m) => Json::Obj(
            m.iter().map(|(k, v)| Member { name: k.clone(), value: of(v) }).collect(),
        ),
    }
}

fn json(s: &str) -> Json {
    of(&serde_json::from_str(s).unwrap())
}

fn text(s: &str) -> Json {
    Json::Str(s.to_string())
}

fn key(x: f64) -> i64 {
    if x < 0.0 {
        -(x.abs().to_bits() as i64)
    } else {
        x.abs().to_bits() as i64
    }
}

// ------------------------------------------------------------------ tiers

#[test]
fn a_stated_tier_is_refused_where_a_stored_one_degrades() {
    let err = stated_tier(Some(&text("expert"))).expect_err("a fourth rung is not stated here");
    assert!(err.contains("expert"), "{err}");
    for rung in ["easy", "medium", "hard"] {
        assert!(err.contains(rung), "the refusal names {rung}: {err}");
    }
    assert_eq!(Difficulty::parse("expert"), None);
}

#[test]
fn every_shape_a_caller_can_state_has_a_settled_answer() {
    assert_eq!(stated_tier(None).expect("absent"), None);
    assert_eq!(stated_tier(Some(&Json::Null)).expect("null"), None);
    assert_eq!(stated_tier(Some(&text("easy"))).expect("easy"), Some(Difficulty::Easy));
    assert_eq!(
        stated_tier(Some(&text("HARD"))).expect("case-insensitive, as the filter is"),
        Some(Difficulty::Hard)
    );
    assert_eq!(stated_tier(Some(&text("  medium "))).expect("trimmed"), Some(Difficulty::Medium));
    for bad in [
        text("expert"),
        text(""),
        text("   "),
        json("3"),
        json("0.5"),
        json(r#"{ "tier": "hard" }"#),
        json(r#"["hard"]"#),
        json("true"),
    ] {
        let err = stated_tier(Some(&bad)).expect_err("refused");
        assert!(
            err.starts_with("unknown difficulty"),
            "{bad:?} → {err}: the message shape the listing filter returns"
        );
    }
    assert!(stated_tier(Some(&json("[1,\"x\"]"))).unwrap_err().contains("[1,\"x\"]"));
}

fn bare_item() -> DatasetItem {
    DatasetItem {
        id: "i1".into(),
        dataset_id: String::new(),
        input: "2+2".into(),
        output: Some("four".into()),
        expected: Some("4".into()),
        context: Some("arithmetic".into()),
        tags: vec!["golden".into()],
        difficulty: None,
        source_event_id: Some("e1".into()),
        anonymization: json(r#"{ "method": "regex", "redactions": 2 }"#),
        input_hash: None,
    }
}

#[test]
fn the_rest_of_the_body_survives_the_detour_through_raw_json() {
    let stated = StatedItem { difficulty: Some(text("Hard")), item: bare_item() };
    let item = stated.into_item().expect("graded");
    assert_eq!(item.difficulty, Some(Difficulty::Hard));
    assert_eq!(item.expected.as_deref(), Some("4"));
    assert_eq!(item.output.as_deref(), Some("four"));
    assert_eq!(item.context.as_deref(), Some("arithmetic"));
    assert_eq!(item.tags, ["golden"]);
    assert_eq!(item.source_event_id.as_deref(), Some("e1"));
    assert_eq!(item.anonymization.get_u64("redactions"), Some(2));
    assert_eq!(item.difficulty.unwrap().as_str(), "hard");

    let stated = StatedCase {
        difficulty: None,
        case: BenchmarkCase {
            input: "i".into(),
            expected: Some("e".into()),
            output: Some("o".into()),
            difficulty: None,
        },
    };
    let case = stated.into_case().expect("ungraded is fine");
    assert_eq!(case.difficulty, None);
    assert_eq!(case.expected.as_deref(), Some("e"));
    assert_eq!(case.output.as_deref(), Some("o"));
}

#[test]
fn a_frozen_dataset_takes_no_case_and_a_filter_narrows() {
    let mut ds = new_dataset("d1".into(), "p".into(), "golden".into(), None, now());
    assert_eq!((ds.version, ds.frozen), (1, false));
    let item =
        item_for(StatedItem { difficulty: Some(text("easy")), item: bare_item() }, &ds).unwrap();
    assert_eq!(item.dataset_id, "d1");
    ds.frozen = true;
    let refused = |d: Option<Json>, ds: &lighttrack_api::datasets::Dataset| {
        item_for(StatedItem { difficulty: d, item: bare_item() }, ds).unwrap_err()
    };
    assert_eq!(refused(None, &ds).message, "dataset is frozen");
    assert_eq!(refused(Some(text("x")), &ds).code, ErrorCode::BadRequest);
    assert_eq!(
        ensure_importable(&ds).unwrap_err().message,
        "dataset is frozen; fork it to add cases"
    );
    assert_eq!(found_dataset("zz", None).unwrap_err().message, "dataset 'zz' not found");
    assert_eq!(tier_filter(None).unwrap(), None);
    assert_eq!(tier_filter(Some("  ")).unwrap(), None);
    assert_eq!(tier_filter(Some("Hard")).unwrap(), Some(Difficulty::Hard));
    assert!(tier_filter(Some("expert")).unwrap_err().message.contains("\"expert\""));
    let grades = vec![None, Some(Difficulty::Hard), Some(Difficulty::Easy), Some(Difficulty::Hard)];
    assert_eq!(narrow(&grades, Some(Difficulty::Hard)), vec![1, 3]);
    assert_eq!(narrow(&grades, None), vec![0, 1, 2, 3]);
    assert_eq!(check_versions_name(" ").unwrap_err().message, "'name' is required");
}

// ------------------------------------------------------------------ judges

fn untrusted() -> Option<Calibration> {
    Some(Calibration {
        judge: "anthropic/haiku".into(),
        kappa: "0.100".into(),
        kappa_bar: "0.600".into(),
        n: 12,
        trusted: false,
        created_at: now(),
    })
}

fn project(require: bool) -> Project {
    Project {
        require_trusted_judge: require,
        ..new_project("p".into(), "p".into(), Redaction::Keep, false, now())
    }
}

#[test]
fn the_policy_is_off_until_a_project_turns_it_on() {
    assert!(policy_block(None, &untrusted()).is_none());
    assert!(policy_block(Some(&project(false)), &untrusted()).is_none());
    assert!(policy_block(Some(&project(false)), &None).is_none());
}

#[test]
fn both_untrusted_and_unknown_block_but_explain_themselves_differently() {
    let p = project(true);
    let failed = policy_block(Some(&p), &untrusted()).expect("untrusted blocks");
    assert!(failed.contains("not trusted"), "{failed}");
    assert!(failed.contains("n=12"), "{failed}");
    assert!(failed.contains("(measured 2026-09-21)"), "{failed}");

    let never = policy_block(Some(&p), &None).expect("unknown blocks");
    assert!(never.contains("never been calibrated"), "{never}");
    assert!(never.contains("require_trusted_judge"), "{never}");
}

#[test]
fn a_trusted_judge_is_never_blocked() {
    let mut v = untrusted();
    if let Some(c) = v.as_mut() {
        c.trusted = true;
        c.kappa = "0.900".into();
    }
    assert_eq!(trust_of(&v), JudgeTrust::Trusted);
    assert!(policy_block(Some(&project(true)), &v).is_none());
    assert_eq!(trust_of(&None), JudgeTrust::Unknown);
    assert_eq!(check_trust_query(Some("p".into()), "j").unwrap(), "p");
    assert_eq!(check_trust_query(Some("p".into()), " ").unwrap_err().message, "judge is required");
    assert!(check_trust_query(None, "j").is_err());
}

// ------------------------------------------------------------------ the canary

fn policy(auto_revert: bool) -> CanaryPolicy {
    CanaryPolicy {
        label: "canary".into(),
        production_label: "production".into(),
        min_n: 5,
        window_secs: 3_600,
        max_drop: key(0.05),
        auto_revert,
    }
}

fn row(n: u64, mean: f64, half: f64) -> (ScoreSummary, f64) {
    (
        ScoreSummary {
            key: None,
            n,
            mean: key(mean),
            ci95_low: key(mean - half),
            ci95_high: key(mean + half),
        },
        mean,
    )
}

fn regressed(p: &CanaryPolicy, canary: &(ScoreSummary, f64), production: &(ScoreSummary, f64)) -> bool {
    let drop = if production.1 > 0.0 { (production.1 - canary.1) / production.1 } else { 0.0 };
    regression(p, &canary.0, &production.0, key(drop))
}

#[test]
fn tests_the_sweep_is_off_unless_explicitly_configured() {
    assert!(SweepConfig::from_raw(None).is_none());
    assert!(describe(None).starts_with("off"));
    assert!(describe(Some(SweepConfig { interval_secs: 300 })).contains("every 300s"));
}

#[test]
fn the_gate_needs_evidence_separation_and_a_drop_worth_acting_on() {
    let p = policy(false);
    let production = row(100, 0.90, 0.02);
    assert!(regressed(&p, &row(20, 0.50, 0.03), &production));
    assert!(!regressed(&p, &row(20, 0.70, 0.30), &production));
    assert!(!regressed(&p, &row(20, 0.89, 0.001), &production));
    assert!(!regressed(&p, &row(4, 0.10, 0.01), &production));
    assert!(!regressed(&p, &row(20, 0.10, 0.01), &row(4, 0.90, 0.01)));
    assert!(!regressed(&p, &row(20, 0.99, 0.001), &production));
    assert!(!regressed(&p, &row(20, 0.0, 0.0), &row(20, 0.0, 0.0)));
}

fn labels(canary: u32, production: u32) -> Vec<Label> {
    vec![
        Label { name: "production".into(), version: production },
        Label { name: "canary".into(), version: canary },
    ]
}

#[test]
fn a_canary_is_compared_only_with_another_version() {
    let p = policy(true);
    let v = versions_to_compare(&p, &labels(2, 1)).unwrap();
    assert_eq!((v.canary, v.production), (2, 1));
    assert!(versions_to_compare(&p, &labels(1, 1)).is_none());
    assert!(versions_to_compare(&p, &vec![]).is_none());
    let mut a = row(9, 0.5, 0.1).0;
    a.key = Some("support@v2".into());
    let mut b = row(9, 0.9, 0.1).0;
    b.key = Some("support@v1".into());
    let rows = vec![b, a];
    assert_eq!(find(&rows, "support@v2"), Some(1));
    assert_eq!(rows_to_compare(&rows, "support", Versions { canary: 2, production: 1 }), Some((1, 0)));
    assert_eq!(rows_to_compare(&rows, "support", Versions { canary: 3, production: 1 }), None);
    assert_eq!(revert_target(&policy(true), Some(1)), Some(1));
    assert_eq!(revert_target(&policy(false), Some(1)), None);
}

#[test]
fn a_prompt_is_compared_judged_and_reverted() {
    let now = Timestamp { nanos: 1_790_000_000_000_000_000 };
    let idle = |p: Option<CanaryPolicy>, l: &Vec<Label>| {
        matches!(prompt_step(&p, None, l, now), PromptStep::Idle)
    };
    assert!(idle(None, &labels(2, 1)));
    assert!(idle(Some(policy(true)), &labels(1, 1)));
    match prompt_step(&Some(policy(true)), Some("min_n is zero".into()), &labels(2, 1), now) {
        PromptStep::Unusable(why) => assert_eq!(why, "min_n is zero"),
        other => panic!("{other:?}"),
    }
    let v = match prompt_step(&Some(policy(true)), None, &labels(2, 1), now) {
        PromptStep::Compare(v, since) => {
            let back = policy(true).window_secs as i128 * 1_000_000_000;
            assert_eq!(since.nanos, now.nanos - back);
            v
        }
        other => panic!("{other:?}"),
    };
    let rows = vec![row(50, 0.5, 0.01).0, row(50, 0.9, 0.01).0];
    let judge = |auto: bool, drop: f64| {
        judge_prompt("p1", "support", &policy(auto), v, &rows, (0, 1), key(drop), Some(1))
    };
    assert!(judge(true, 0.0).is_none(), "no drop past the tolerated one");
    assert_eq!(judge(false, 0.44).unwrap().reverted_to, None);
    let found = judge(true, 0.44).unwrap();
    assert_eq!((found.canary_label.as_str(), found.production_label.as_str()), ("canary", "production"));
    assert_eq!((found.canary_row, found.production_row, found.reverted_to), (0, 1, Some(1)));
    assert_eq!(found.after_revert(false).reverted_to, None, "a revert that was not written");
    assert_eq!(judge(true, 0.44).unwrap().after_revert(true).reverted_to, Some(1));
}

#[test]
fn a_new_prompt_starts_at_its_first_version() {
    let body = || VersionBody { content: "c".into(), config: Json::Null, note: Some("n".into()) };
    let at = Timestamp { nanos: 5 };
    let make = |name: &str, taken: bool| {
        new_prompt(
            "p".into(),
            "v".into(),
            "proj".into(),
            name.into(),
            Some("bench".into()),
            body(),
            taken,
            at,
        )
    };
    let (p, v) = make("support", false).unwrap();
    assert_eq!((v.version, v.prompt_id.as_str(), v.id.as_str()), (1, "p", "v"));
    assert!(p.labels.is_empty());
    assert_eq!(make("a/b", false).unwrap_err().code, ErrorCode::BadRequest);
    assert_eq!(make("support", true).unwrap_err().code, ErrorCode::Conflict);
    let (bench, payload) = run_on_new_version(&p, 1).unwrap();
    assert_eq!(bench, "bench");
    assert_eq!(
        lighttrack_api::wire::compact_text(&payload),
        r#"{"prompt_id":"p","prompt_name":"support","version":1}"#
    );
    let later = Timestamp { nanos: 9 };
    assert!(linked_prompt(make("support", false).unwrap().0, None, later).is_err());
    let p = linked_prompt(p, Some(None), later).unwrap();
    assert_eq!((p.benchmark_id.is_none(), p.updated_at, p.created_at), (true, later, at));
    assert!(run_on_new_version(&p, 1).is_none());
    assert!(with_canary(make("support", false).unwrap().0, Some(policy(true)), &None, later).is_err());
    let mut q = p;
    q.labels = labels(2, 1);
    let q = with_canary(q, Some(policy(true)), &None, later).unwrap();
    assert_eq!(q.canary.as_ref().map(|c| c.production_label.as_str()), Some("production"));
    assert_eq!(
        with_canary(q, Some(policy(true)), &Some("bad".into()), later).unwrap_err().message,
        "bad"
    );
    let next = added_version("v2".into(), "p", &vec![1, 4, 2], body(), at);
    assert_eq!((next.version, next.note.as_deref()), (5, Some("n")));
}

#[test]
fn what_is_missing_is_named() {
    let p = prompt_not_found("support");
    assert_eq!((p.code, p.message.as_str()), (ErrorCode::NotFound, "prompt 'support' not found"));
    let t = task_not_found("t1");
    assert_eq!((t.code, t.message.as_str()), (ErrorCode::NotFound, "relay task 't1' not found"));
    assert_eq!((default_stale_secs(), default_samples()), (120, 1));
}

#[test]
fn a_sweep_reports_an_unable_backend_once() {
    let mut off = Sweep::start();
    assert_eq!(off.take_project(false, ProjectOutcome::Found(3)), SweepNote::Quiet);
    assert_eq!(off, Sweep::start(), "a project that is switched off is passed over");
    assert_eq!(off.take_project(true, ProjectOutcome::Found(3)), SweepNote::Notify);
    assert_eq!(off.raised, 3);
    let (found, failed) = (PromptOutcome::Found, PromptOutcome::Failed);
    let (nothing, unsupported) = (PromptOutcome::Nothing, PromptOutcome::Unsupported);
    assert_eq!(project_pass(&vec![found, failed, nothing, found]), ProjectOutcome::Found(2));
    assert_eq!(project_pass(&vec![found, unsupported]), ProjectOutcome::Unsupported);
    assert_eq!(project_pass(&vec![]), ProjectOutcome::Found(0));
    assert_eq!((pass_step(failed), pass_step(unsupported)), (PassStep::Warn, PassStep::Stop));
    assert_eq!((pass_step(found), pass_step(nothing)), (PassStep::Collect, PassStep::GoOn));
    let mut s = Sweep::start();
    assert_eq!(s.take(ProjectOutcome::Unsupported), SweepNote::WarnUnsupported);
    assert_eq!(s.take(ProjectOutcome::Unsupported), SweepNote::Quiet);
    assert_eq!(s.take(ProjectOutcome::Failed), SweepNote::WarnProject);
    assert_eq!(s.take(ProjectOutcome::Found(2)), SweepNote::Notify);
    assert_eq!(s.raised, 2);
    assert_eq!(SweepConfig::from_raw(Some("5")).unwrap().interval_secs, 60);
    assert!(SweepConfig::from_raw(Some("0")).is_none());
}

// ------------------------------------------------------------------ prompts

#[test]
fn registry_identifiers_are_one_url_safe_token() {
    for ok in ["support-reply", "v2.final", "a@b", "prod_eu", "canary"] {
        assert!(validate_ident("prompt name", ok).is_ok(), "{ok:?}");
    }
    for bad in ["", "   ", "a b", "a/b", "a?b", "a#b", "100%", "\ta"] {
        assert!(validate_ident("label", bad).is_err(), "{bad:?}");
    }
    assert!(validate_ident("label", &"x".repeat(MAX_IDENT_LEN)).is_ok());
    assert!(validate_ident("label", &"x".repeat(MAX_IDENT_LEN + 1)).is_err());
    assert_eq!(
        validate_ident("label", "a/b").unwrap_err().message,
        "label may not contain whitespace or '/', '?', '#', '%' (found '/')"
    );
}

#[test]
fn an_absent_benchmark_id_is_not_an_unlink() {
    assert!(link_target(None).is_err(), "missing key");
    assert_eq!(link_target(Some(None)).unwrap(), None, "explicit unlink");
    assert_eq!(link_target(Some(Some("b1".into()))).unwrap(), Some("b1".to_string()));
}

#[test]
fn next_version_increments_from_max() {
    assert_eq!(next_version(&vec![]), 1, "first version is 1");
    assert_eq!(next_version(&vec![2, 1, 3]), 4);
}

#[test]
fn a_fetch_names_a_version_a_label_or_the_latest() {
    let l = labels(2, 1);
    assert!(matches!(choose_version(Some(7), Some("canary".into()), &l, "n"), Ok(VersionChoice::Exact(7))));
    assert!(matches!(
        choose_version(None, Some("canary".into()), &l, "n"),
        Ok(VersionChoice::Labelled(2, _))
    ));
    assert!(matches!(choose_version(None, None, &l, "n"), Ok(VersionChoice::Latest)));
    assert_eq!(
        choose_version(None, Some("qa".into()), &l, "n").unwrap_err().message,
        "label 'qa' is not set on 'n'"
    );
    assert_eq!(latest_version(&vec![3, 9, 4], "n").unwrap(), 9);
    assert_eq!(latest_version(&vec![], "n").unwrap_err().message, "'n' has no versions");
    let pv = PromptVersion {
        id: "v4".into(),
        prompt_id: "id".into(),
        version: 4,
        content: "c".into(),
        config: Json::Null,
        note: None,
        created_at: Timestamp { nanos: 0 },
    };
    let r = resolve_prompt("id".into(), "n".into(), 4, None, Some(pv)).unwrap();
    assert_eq!((r.tag.as_str(), r.version), ("n@v4", 4));
    assert!(resolve_prompt("id".into(), "n".into(), 4, None, None).is_err());
    assert!(benchmark_resolves(&vec![None, Some("n".into())], "n"));
    assert!(!benchmark_resolves(&vec![None], "n"));
    assert_eq!(bench_payload("p1", "n", 3).get_u64("version"), Some(3));
}

#[test]
fn a_promotion_needs_its_version_and_the_benchmark() {
    assert_eq!(promotion("n", 2, false, &None).unwrap_err().code, ErrorCode::NotFound);
    assert_eq!(promotion("n", 2, true, &None).unwrap(), None);
    let blocked = Some(GateOutcome::Block("worse".into()));
    assert_eq!(promotion("n", 2, true, &blocked).unwrap_err().message, "worse");
    let warned = Some(GateOutcome::AllowWithWarning("unsure".into()));
    assert_eq!(promotion("n", 2, true, &warned).unwrap(), Some("unsure".to_string()));
    let l = labels(2, 1);
    assert!(check_canary("n", &None, &Some("bad".into()), &l).is_ok());
    assert_eq!(
        check_canary("n", &Some("production".into()), &Some("bad".into()), &l).unwrap_err().message,
        "bad"
    );
    assert!(check_canary("n", &Some("live".into()), &None, &l).is_err());
    assert!(check_canary("n", &Some("production".into()), &None, &l).is_ok());
}

fn evidence(version: Option<u32>, below: bool, ci_below: Option<bool>) -> Option<GateEvidence> {
    Some(GateEvidence {
        mean: Some(Figure { text: "0.700".into(), below }),
        ci_upper: ci_below.map(|b| Figure { text: "0.720".into(), below: b }),
        runner_regressed: false,
        incomplete: None,
        resolved_version: version,
    })
}

#[test]
fn a_promotion_is_decided_by_trust_force_resolution_and_score() {
    let base = Some("0.800".to_string());
    let go = |e: &Option<GateEvidence>, force: bool, resolvable: bool| {
        gate_promotion(e, &base, force, 3, resolvable, &None)
    };
    assert!(matches!(go(&evidence(Some(3), false, None), false, true), GateOutcome::Allow));
    assert!(go(&evidence(Some(2), false, None), false, true).blocked().is_some());
    assert!(go(&None, false, true).blocked().is_some());
    assert!(matches!(go(&None, true, true), GateOutcome::Allow));
    assert!(go(&evidence(Some(3), true, None), false, true).blocked().unwrap().contains("0.700"));
    assert!(matches!(go(&evidence(Some(3), true, Some(false)), false, true), GateOutcome::Allow));
    assert!(go(&evidence(Some(3), true, Some(true)), false, true).blocked().is_some());
    let advised = go(&evidence(None, false, None), false, false);
    assert!(advised.warning().unwrap().contains("version 3's content"));
    let distrusted = gate_promotion(&None, &base, true, 3, true, &Some("judge".into()));
    assert_eq!(distrusted.blocked(), Some("judge"));
}

#[test]
fn a_run_is_evidence_for_the_version_it_scored() {
    let run = |status: &str, at: i128, report: &str| BenchmarkRun {
        status: status.into(),
        finished_at: Some(plus(now(), at)),
        mean: Some(Figure { text: "0.9".into(), below: false }),
        ci_upper: None,
        report: json(report),
    };
    let e = evidence_of(&run("regressed", 0, r#"{"resolved_prompt_version": 4}"#));
    assert!(e.runner_regressed);
    assert_eq!(e.resolved_version, Some(4));
    let e = evidence_of(&run("partial", 0, "{}"));
    assert_eq!(e.incomplete.as_deref(), Some("halted by the run budget ceiling"));
    let report = r#"{"prompt_id":"p1","prompt_version":4,"resolved_prompt_version":4}"#;
    let runs = vec![run("succeeded", 5, "{}"), run("succeeded", 1, report)];
    assert_eq!(version_scored_run(&runs, "p1", 4).unwrap().resolved_version, Some(4));
    assert_eq!(version_scored_run(&runs, "p1", 5).unwrap().resolved_version, None);
    let legacy = vec![run("succeeded", 1, "{}"), run("partial", 9, "{}"), run("aborted", 9, "{}")];
    let newest = version_scored_run(&legacy, "p1", 4).unwrap();
    assert_eq!(newest.incomplete.as_deref(), Some("halted by the run budget ceiling"));
    let wide = run("succeeded", 0, r#"{"resolved_prompt_version": 4294967300}"#);
    assert_eq!(evidence_of(&wide).resolved_version, None);
    let mut unscored = run("succeeded", 1, report);
    unscored.mean = None;
    assert!(version_scored_run(&vec![run("succeeded", 5, "{}"), unscored], "p1", 4).is_none());
    assert!(version_scored_run(&vec![], "p1", 4).is_none());
    assert!(ci95_upper(&json(r#"{"ci95":[0.1,0.2]}"#)).is_some());
    assert!(ci95_upper(&json(r#"{"ci95":[0.1]}"#)).is_none());
}

// ------------------------------------------------------------------ quality

#[test]
fn a_tag_splits_on_its_last_version_suffix() {
    assert_eq!(split_tag("support-reply@v12"), Some(("support-reply".into(), 12)));
    assert_eq!(split_tag("a@v1@v2"), Some(("a@v1".into(), 2)));
    assert_eq!(split_tag("support-reply"), None);
    assert_eq!(split_tag("support-reply@vX"), None);
    assert_eq!(split_tag("@v3"), None);
}

#[test]
fn a_tag_reads_back_what_it_was_made_of() {
    for (n, v) in [("a", 0), ("a@v1", 7), ("é", u32::MAX)] {
        assert_eq!(split_tag(&tag(n, v)), Some((n.to_string(), v)));
    }
    assert_eq!(tag("a", 12), "a@v12");
}

fn quality(k: Option<&str>) -> PromptQualityRow {
    let figure = |x: f64| Real { key: key(x), wire: x.to_string() };
    PromptQualityRow::of(ScoreSummaryRow {
        key: k.map(str::to_string),
        n: 3,
        mean: figure(0.8),
        pass_rate: figure(1.0),
        ci95_low: figure(0.7),
        ci95_high: figure(0.9),
        cost: Money { pico: 500_000_000_000, wire: "0.5".into() },
    })
}

#[test]
fn a_row_carries_both_the_tag_and_its_parts() {
    let r = quality(Some("support-reply@v4"));
    assert_eq!(r.tag.as_deref(), Some("support-reply@v4"));
    assert_eq!(r.name.as_deref(), Some("support-reply"));
    assert_eq!(r.version, Some(4));
    assert_eq!(r.n, 3);
    assert_eq!((r.mean.wire.as_str(), r.pass_rate.wire.as_str()), ("0.8", "1"));
    assert_eq!((r.ci95_low.wire.as_str(), r.ci95_high.wire.as_str()), ("0.7", "0.9"));
    assert_eq!((r.cost.pico, r.cost.wire.as_str()), (500_000_000_000, "0.5"));

    let u = quality(None);
    assert!(u.tag.is_none() && u.name.is_none() && u.version.is_none());
}

#[test]
fn an_unconventional_tag_survives_intact() {
    let r = quality(Some("legacy-prompt-id-7"));
    assert_eq!(r.tag.as_deref(), Some("legacy-prompt-id-7"));
    assert!(r.version.is_none());
}

#[test]
fn quality_rows_are_listed_newest_first() {
    let rows = vec![quality(Some("a@v1")), quality(Some("a@v10")), quality(Some("a@v9"))];
    assert_eq!(listing_order(&rows), vec![1, 2, 0]);
    let (since, until) = quality_window(None, None, now()).unwrap();
    assert_eq!((since, until), (plus(now(), -7 * 86_400), None));
    assert!(quality_window(Some(now()), Some(plus(now(), -1)), now()).is_err());
}

// ------------------------------------------------------------------ jobs

#[test]
fn a_job_is_claimed_renewed_and_finished_in_words() {
    let kinds = vec!["bench_run".to_string(), "score".to_string()];
    assert!(parse_kind("score", &kinds, "bench_run | score").is_ok());
    assert_eq!(
        parse_kind("nap", &kinds, "bench_run | score").unwrap_err().message,
        "unknown job type \"nap\": expected bench_run | score"
    );
    assert!(check_declared(&vec!["score".into()], &kinds, "v").is_ok());
    assert!(check_declared(&vec!["score".into(), "nap".into()], &kinds, "v").is_err());
    assert_eq!(stale_before(1, now()), plus(now(), -10));
    assert_eq!(stale_before(600, now()), plus(now(), -600));
    let j = new_job("j".into(), "score".into(), Json::Null, None, None, now()).unwrap();
    assert_eq!((j.status.as_str(), j.max_attempts), ("queued", 3));
    assert!(new_job("j".into(), "s".into(), Json::Null, Some("no".into()), None, now()).is_err());
    let p = bench_run_payload("b1", &sampling(3, true));
    assert_eq!(p.get_str("benchmark_id"), Some("b1"));
    assert_eq!(p.get_u64("samples"), Some(3));
    assert!(matches!(cancel_answer("j", Some(JobCancel::Cancelling)), Ok(JobCancel::Cancelling)));
    assert_eq!(
        cancel_answer("j", Some(JobCancel::AlreadyFinished("failed".into()))).unwrap_err().message,
        "job 'j' is already failed; nothing was cancelled"
    );
    assert_eq!(cancel_answer("j", None).unwrap_err().code, ErrorCode::NotFound);
    assert_eq!(renew_answer("j", Some(now())).unwrap(), now());
    assert_eq!(renew_answer("j", None).unwrap_err().code, ErrorCode::Conflict);
    assert!(finish_answer("j", JobFinish::Finished).is_ok());
    assert_eq!(finish_answer("j", JobFinish::NoSuchJob).unwrap_err().code, ErrorCode::NotFound);
    assert!(finish_answer("j", JobFinish::NotHeld { status: "queued".into(), lease: "none".into() })
        .unwrap_err()
        .message
        .ends_with("the verdict you sent was NOT recorded"));
}

// ------------------------------------------------------------------ verdicts

fn verdict(subject: LabelSubject) -> Verdict {
    Verdict {
        id: "l1".into(),
        project_id: "p".into(),
        subject,
        rubric_id: Some("rb".into()),
        value: "1".into(),
        pass: Some(true),
        dimensions: json(r#"{"tone":1}"#),
        labeler: "ana".into(),
        note: Some("should be 4".into()),
        created_at: now(),
    }
}

#[test]
fn a_graded_call_becomes_a_case_and_keeps_its_verdict() {
    let ds = new_dataset("d1".into(), "p".into(), "golden".into(), None, now());
    let l = verdict(LabelSubject::Event("e1".into()));
    assert_eq!(promoted_event(&l).unwrap(), "e1");
    assert!(promoted_event(&verdict(LabelSubject::Score("s".into()))).is_err());
    let item = item_from_label(
        "i1".into(),
        &ds,
        &l,
        "e1".into(),
        Some(&json(r#"{"q":"2+2"}"#)),
        Some(&text("5")),
    );
    assert_eq!(item.input, r#"{"q":"2+2"}"#);
    assert_eq!(item.output.as_deref(), Some("5"));
    assert_eq!(item.expected.as_deref(), Some("should be 4"));
    assert_eq!(item.tags, ["from-label"]);
    let c = copied_label("l2".into(), &ds, &l, "i1", plus(now(), 1));
    assert!(matches!(c.subject, LabelSubject::DatasetItem(ref x) if x == "i1"));
    assert_eq!(c.labeler, "ana");
    let rows = vec![verdict(LabelSubject::Event("e1".into()))];
    assert_eq!(find_label(&rows, "l1").unwrap(), 0);
    assert_eq!(plan_promotion(&ds, &rows, "l1").unwrap(), (0, "e1".to_string()));
    assert_eq!(plan_promotion(&ds, &rows, "l9").unwrap_err().code, ErrorCode::NotFound);
    let scores = vec![verdict(LabelSubject::Score("s".into()))];
    assert_eq!(plan_promotion(&ds, &scores, "l1").unwrap_err().code, ErrorCode::BadRequest);
    let frozen = Dataset {
        frozen: true,
        ..new_dataset("d1".into(), "p".into(), "golden".into(), None, now())
    };
    let e = plan_promotion(&frozen, &scores, "l9").unwrap_err();
    assert_eq!((e.code, e.message.as_str()), (ErrorCode::Conflict, "dataset is frozen"));
    let promote = |found: Option<Payloads>| {
        promote_event(&ds, &l, "e1".into(), &found, "i1".into(), "l2".into(), now())
    };
    assert_eq!(promote(None).unwrap_err().message, "event 'e1' not found");
    let (item, copy) = promote(Some(Payloads { input: Some(text("2+2")), output: None })).unwrap();
    assert_eq!((item.input.as_str(), item.source_event_id.as_deref()), ("2+2", Some("e1")));
    assert!(matches!(copy.subject, LabelSubject::DatasetItem(ref x) if *x == item.id));
    assert_eq!((copy.note.as_deref(), copy.pass), (Some("should be 4"), Some(true)));
    assert_eq!(
        find_label(&rows, "l9").unwrap_err().message,
        "label 'l9' not found in this project"
    );
}

#[test]
fn a_verdict_has_a_subject_a_name_and_a_project() {
    let manage = Principal::Project {
        project_id: "p".into(),
        key_id: "k".into(),
        scopes: vec![Scope::Manage],
    };
    let read = Principal::Project {
        project_id: "p".into(),
        key_id: "k".into(),
        scopes: vec![Scope::Read],
    };
    assert_eq!(write_project(&manage, None).unwrap(), "p");
    assert_eq!(write_project(&manage, Some("q")).unwrap_err().code, ErrorCode::Forbidden);
    assert!(write_project(&read, None).is_err());
    assert_eq!(
        write_project(&Principal::Admin, None).unwrap_err().message,
        "project_id is required with an admin key"
    );
    assert_eq!(calibration_project(&Principal::Admin, "q", "j").unwrap(), "q");
    assert_eq!(
        calibration_project(&Principal::Admin, "q", " ").unwrap_err().message,
        "judge is required"
    );
    assert_eq!(calibration_id("".into(), "fresh".into()), "fresh");
    assert_eq!(calibration_id("c1".into(), "fresh".into()), "c1");
    let said = |project: Option<&str>, labeler: &str| LabelReq {
        project_id: project.map(str::to_string),
        subject: Some(LabelSubject::Event("e1".into())),
        rubric_id: None,
        value: "0.5".into(),
        pass: Some(true),
        dimensions: Json::Null,
        labeler: labeler.into(),
        note: None,
    };
    let stated = stated_label(&Principal::Admin, "l".into(), said(Some("q"), "ana"), now()).unwrap();
    assert_eq!((stated.labeler.as_str(), stated.value.as_str()), ("ana", "0.5"));
    let cap = |l: Verdict| Verdict { labeler: l.labeler.chars().take(2).collect(), ..l };
    let new_label = |project: Option<&str>, labeler: &str| {
        new_label(&Principal::Admin, "l".into(), said(project, labeler), now(), &cap)
    };
    let made = new_label(Some("q"), "ana").unwrap();
    assert_eq!(made.labeler, "an", "a label is stored as it was cut");
    assert_eq!((made.id.as_str(), made.project_id.as_str(), made.pass), ("l", "q", Some(true)));
    assert!(new_label(None, "ana").is_err());
    assert!(new_label(Some("q"), " ").is_err());
    assert!(check_label(None, "ana").is_err());
    assert!(check_label(Some(LabelSubject::Score("s".into())), " ").is_err());
    assert!(check_label(Some(LabelSubject::Score("s".into())), "ana").is_ok());
    assert!(subject_filter(None, None).unwrap().is_none());
    assert!(subject_filter(Some("nope"), None).unwrap_err().message.contains("'nope'"));
}

// ------------------------------------------------------------------ the relay

fn ev(action_type: &str, sha: Option<&str>, ts: Timestamp, judgeable: bool) -> LlmEvent {
    let sha = match sha {
        Some(s) => text(s),
        None => Json::Null,
    };
    LlmEvent {
        id: "e".into(),
        project_id: "p".into(),
        trace_id: None,
        span_id: None,
        parent_span_id: None,
        ts,
        received_at: ts,
        provider: "anthropic".into(),
        model: "code".into(),
        name: Some("relay-run".into()),
        operation: Operation::Chat,
        usage: TokenUsage { input: 0, output: 0, cached_input: None, reasoning: None },
        cost: None,
        latency_ms: None,
        status: Status::Success,
        error: None,
        input: if judgeable { Some(text("in")) } else { None },
        output: if judgeable { Some(text("out")) } else { None },
        tags: vec!["relay".into()],
        source: None,
        metadata: Json::Obj(vec![
            Member { name: "action_type".into(), value: text(action_type) },
            Member { name: "prompt_sha256".into(), value: sha },
        ]),
    }
}

#[test]
fn a_changed_prompt_is_a_separate_row_with_its_own_window() {
    let t0 = plus(now(), -3 * 86_400);
    let t1 = plus(now(), -86_400);
    let mut acc: Vec<ActionFingerprint> = Vec::new();
    for e in [
        ev("ns/act", Some("aa"), t0, false),
        ev("ns/act", Some("aa"), t1, true),
        ev("ns/act", Some("bb"), t1, false),
        ev("", None, t1, false),
    ] {
        fold(&mut acc, &e);
    }
    assert_eq!(acc.len(), 2, "one row per prompt fingerprint");

    let row = acc.iter().find(|r| r.prompt_sha256.as_deref() == Some("aa")).expect("aa");
    assert_eq!(row.runs, 2);
    assert_eq!(row.judgeable, 1, "only the opted-in run can be judged");
    assert_eq!(row.first_seen, t0);
    assert_eq!(row.last_seen, t1);
}

#[test]
fn an_unfingerprinted_run_is_its_own_row() {
    let mut acc: Vec<ActionFingerprint> = Vec::new();
    fold(&mut acc, &ev("ns/act", None, now(), false));
    fold(&mut acc, &ev("ns/act", Some("aa"), now(), false));
    assert_eq!(acc.len(), 2);
    assert!(acc.iter().any(|r| r.prompt_sha256.is_none()));
    assert_eq!(activity_order(&acc).len(), 2);
}

#[test]
fn a_case_needs_text_on_both_sides() {
    assert_eq!(as_text(&json(r#"{ "text": "hi" }"#)).as_deref(), Some("hi"));
    assert_eq!(as_text(&text("hi")).as_deref(), Some("hi"));
    assert_eq!(as_text(&json(r#"{ "a": 1, "b": 2 }"#)), Some("{\"a\":1,\"b\":2}".into()));
    assert!(as_text(&Json::Null).is_none());
    assert!(as_text(&text("   ")).is_none());
    assert!(as_text(&json(r#"{ "text": "" }"#)).is_none());
    let upper = |s: String| s.to_uppercase();
    let task = |id: &str, payload: Json, result: Json| SnapshotTask { id: id.into(), payload, result };
    let good = task("t1", text("in"), json(r#"{"text":"out"}"#));
    let item = snapshot_item("i".into(), "d", "ns/act", &good, &upper).unwrap();
    assert_eq!((item.input.as_str(), item.output.as_deref()), ("in", Some("out")));
    assert_eq!(item.input_hash.as_deref(), Some("IN"));
    let bare = task("t2", Json::Null, text("x"));
    assert!(snapshot_item("i".into(), "d", "a", &bare, &upper).is_none());
    let ids = vec!["i0".to_string(), "i1".to_string()];
    let s = snapshot_items(&ids, "d", "ns/act", &vec![bare, good], &upper);
    assert_eq!((s.items.len(), s.skipped), (1, 1));
    assert_eq!((s.items[0].id.as_str(), s.items[0].source_event_id.as_deref()), ("i1", Some("t1")));
}

#[test]
fn a_walk_over_the_ledger_is_bounded() {
    assert_eq!([scan_budget(None), scan_budget(Some(7)), scan_budget(Some(99_999))], [1000, 7, 20_000]);
    assert_eq!(next_page(2500, 2000), 500);
    assert_eq!(next_page(5000, 0), 1000);
    assert_eq!(walk_over(false, 10, 100), Some(false));
    assert_eq!(walk_over(true, 100, 100), Some(true));
    assert_eq!(walk_over(true, 10, 100), None);
    assert!(check_snapshot("", "p", None).is_err());
    assert!(check_snapshot("ns/act", "p", None).is_ok());
    let d = snapshot_dataset("d".into(), "p".into(), None, "ns/act", now());
    assert!(d.name.contains("ns/act"));
}

fn status(percent: &str, rejects: bool, warning: bool, wait: u64) -> LimitStatus {
    LimitStatus {
        rule_id: "r".into(),
        project_id: "demo".into(),
        metric: LimitMetric::CostUsd,
        window: LimitWindow::Day,
        action: LimitAction::Block,
        current: "8.0000".into(),
        threshold: "10.0000".into(),
        ratio: lighttrack_api::figure::Real { key: key(0.8), wire: "0.800000".into() },
        percent: percent.into(),
        shed_fraction: lighttrack_api::figure::Real { key: 0, wire: "0.000000".into() },
        shed_percent: "0".into(),
        breached: rejects,
        warning,
        shedding: false,
        rejects_ingest: rejects,
        unpriceable: false,
        estimated: false,
        scope: None,
        basis: None,
        retry_after_secs: wait,
        alert_key: "k".into(),
    }
}

#[test]
fn a_task_is_queued_within_the_budget() {
    assert_eq!(budget_allows(&None).unwrap(), None);
    assert_eq!(budget_allows(&Some(vec![])).unwrap(), None);
    assert_eq!(
        budget_allows(&Some(vec![status("80", false, true, 60)])).unwrap().unwrap(),
        "project 'demo' is at 80% of its CostUsd/Day limit (8.0000 of 10.0000); relay runs count toward it"
    );
    let e = budget_allows(&Some(vec![status("120", true, false, 60), status("120", true, false, 90)]))
        .unwrap_err();
    assert_eq!((e.code, e.retry_after), (ErrorCode::RateLimited, Some(90)));
    assert!(e.message.starts_with("relay task refused: "));
    assert!(throttled(&vec![status("80", false, true, 60), status("120", true, false, 60)]));
    assert!(!throttled(&vec![status("80", false, true, 60)]));
}

fn request(key: Option<&str>) -> EnqueueReq {
    EnqueueReq {
        payload: json(r#"{"n":1}"#),
        source: None,
        idempotency_key: key.map(str::to_string),
        max_attempts: Some(0),
        retry_interval_secs: None,
    }
}

#[test]
fn an_enqueue_hears_of_the_route_before_the_budget() {
    let go = |answer: Option<RelayAdmission>, statuses: Option<Vec<LimitStatus>>| {
        finish_enqueue(
            answer,
            &statuses,
            "t1".into(),
            "p".into(),
            "ns/act".into(),
            request(None),
            "queued".into(),
            3,
            60,
            now(),
        )
    };
    let over = || Some(vec![status("120", true, false, 60), status("120", true, false, 90)]);
    let six = || Some(RelayAdmission::Queued { eligible_devices: 6 });
    let none = || Some(RelayAdmission::Refused { reason: "no device".into() });
    let e = go(none(), over()).unwrap_err();
    assert_eq!((e.code, e.message.as_str()), (ErrorCode::RelayUnroutable, "no device"));
    let e = go(six(), over()).unwrap_err();
    assert_eq!((e.code, e.retry_after), (ErrorCode::RateLimited, Some(90)));
    let r = go(six(), Some(vec![status("80", false, true, 60)])).unwrap();
    assert_eq!((r.task.id.as_str(), r.task.status.as_str()), ("t1", "queued"));
    assert!(r.warning.unwrap().contains("80%"));
    assert!(matches!(r.admission, RelayAdmission::Queued { eligible_devices: 6 }));
    let r = go(None, None).unwrap();
    assert!(r.warning.is_none());
    assert!(matches!(r.admission, RelayAdmission::Queued { eligible_devices: 0 }));
    let again = answer_replay(r.task, none());
    assert_eq!((again.task.id.as_str(), again.warning), ("t1", None));
    assert!(matches!(again.admission, RelayAdmission::Refused { .. }), "a replay is never refused");
}

#[test]
fn a_repeat_under_a_key_is_the_first_task_and_other_work_is_refused() {
    let task = |k: &str| {
        new_task(
            "t1".into(),
            "p".into(),
            "ns/act".into(),
            request(Some(k)),
            "queued".into(),
            3,
            60,
            now(),
        )
    };
    let t = task("k");
    assert_eq!((t.max_attempts, t.retry_interval_secs, t.attempts), (1, 60, 0));
    let key = Some("k".to_string());
    assert!(matches!(
        plan_enqueue(" ns/act ", &json(r#"{"n":1}"#), &key, KeyLookup::Used(task("k"))),
        Ok(EnqueueStep::Replay(_))
    ));
    let e = plan_enqueue("ns/act", &json(r#"{"n":2}"#), &key, KeyLookup::Used(task("k"))).unwrap_err();
    assert_eq!(e.code, ErrorCode::Conflict);
    assert!(e.message.contains("\"k\"") && e.message.contains("\"ns/act\""), "{}", e.message);
    assert!(matches!(
        plan_enqueue("ns/act", &Json::Null, &None, KeyLookup::Fresh),
        Ok(EnqueueStep::Admit(ref a)) if a == "ns/act"
    ));
    assert!(requested_action("  ").is_err());
    assert!(check_replay("k", "a", &Json::Null, "a", &Json::Null).is_ok());
    assert!(check_replay("k", "a", &Json::Null, "b", &Json::Null).is_err());
    assert!(matches!(fleet_admission(None), RelayAdmission::Queued { eligible_devices: 0 }));
    let refused = RelayAdmission::Refused { reason: "no device".into() };
    assert_eq!(ensure_routable(&refused).unwrap_err().code, ErrorCode::RelayUnroutable);
    let vocabulary = vec!["queued".to_string(), "leased".to_string()];
    assert!(check_task_status(Some("queued"), &vocabulary).is_ok());
    assert!(check_task_status(Some("gone"), &vocabulary).is_err());
    assert!(check_task_status(None, &vocabulary).is_ok());
}
