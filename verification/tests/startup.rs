use lighttrack_api::auth::AuthMode;
use lighttrack_api::boot::{backend_of, door_guard, set_value, Backend, BodyCap};
use lighttrack_api::boundary::{
    cap, check_boot, render_operator_record, Field, MAX_VALUE_LEN, OPT_OUT_ENV, OPT_OUT_PHRASE,
    REDACTED,
};
use lighttrack_api::health::{render_composite, render_ready, store_member, Member, Verdict};
use lighttrack_api::json::Json;
use lighttrack_api::logging::{directive, wants_json, DEFAULT_LEVEL};
use lighttrack_api::outbound::{answer_of, capped_body, Answer, MAX_BODY};
use lighttrack_api::seen::{touch_due, SeenWebhooks, Touch, KEY_TOUCH_MAX_TRACKED};

fn field(name: &str, value: &str) -> Field {
    Field { name: name.to_string(), value: value.to_string() }
}

#[test]
fn a_credential_bearing_header_and_an_unknown_field_both_fail_closed() {
    let rendered = render_operator_record(
        &vec![
            field("provider", "polar"),
            field("reason", "signature mismatch"),
            field("stripe_live_key", "sk_live_51NxSECRET"),
        ],
        &vec![
            field("authorization", "Bearer lt_abcd_TOPSECRET"),
            field("webhook-signature", "v1,whsec_DEADBEEF"),
            field("content-type", "application/json"),
        ],
    );
    assert!(rendered.contains("provider=polar"), "{rendered}");
    assert!(rendered.contains("reason=signature mismatch"), "{rendered}");
    assert!(rendered.contains(&format!("header.authorization={REDACTED}")), "{rendered}");
    assert!(rendered.contains(&format!("header.webhook-signature={REDACTED}")), "{rendered}");
    assert!(rendered.contains(&format!("header.content-type={REDACTED}")), "{rendered}");
    assert!(!rendered.contains("stripe_live_key"), "{rendered}");
    for secret in ["TOPSECRET", "whsec_DEADBEEF", "sk_live_51NxSECRET"] {
        assert!(!rendered.contains(secret), "{secret} survived: {rendered}");
    }
}

#[test]
fn long_values_are_capped_on_a_char_boundary() {
    let long = "é".repeat(MAX_VALUE_LEN + 50);
    let rendered = render_operator_record(&vec![field("reason", &long)], &vec![]);
    assert!(rendered.ends_with("[truncated]"), "{rendered}");
}

#[test]
fn a_value_at_the_bound_is_whole() {
    let at = "x".repeat(MAX_VALUE_LEN);
    assert_eq!(cap(&at), at);
    assert_eq!(cap(&format!("{at}y")), format!("{at}[truncated]"));
}

#[test]
fn an_unlisted_field_changes_nothing() {
    let with = render_operator_record(
        &vec![field("provider", "polar"), field("token", "abc"), field("reason", "late")],
        &vec![field("x", "1")],
    );
    let without = render_operator_record(
        &vec![field("provider", "polar"), field("reason", "late")],
        &vec![field("x", "1")],
    );
    assert_eq!(with, without);
    assert_eq!(without, "provider=polar reason=late header.x=[REDACTED]");
}

#[test]
fn an_unenforced_instance_with_no_admin_key_refuses_to_boot() {
    let err = check_boot(AuthMode::from_env(""), None, None).unwrap_err().to_string();
    assert!(err.contains("refusing to start"), "{err}");
    assert!(err.contains("LIGHTTRACK_AUTH_MODE=enforced"), "{err}");
    assert!(err.contains(OPT_OUT_ENV), "{err}");
    assert!(err.contains(OPT_OUT_PHRASE), "{err}");

    let with_key = check_boot(AuthMode::Dev, Some("s3cret"), None).unwrap_err().to_string();
    assert!(with_key.contains("gates nothing"), "{with_key}");
    let blank = check_boot(AuthMode::Dev, Some("  "), None).unwrap_err().to_string();
    assert!(!blank.contains("gates nothing"), "{blank}");
}

#[test]
fn enforced_mode_and_the_named_opt_out_are_the_only_ways_through() {
    assert!(check_boot(AuthMode::Enforced, Some("s3cret"), None).is_ok());
    assert!(check_boot(AuthMode::Enforced, None, None).is_ok());
    assert!(check_boot(AuthMode::Dev, None, Some(OPT_OUT_PHRASE)).is_ok());
    assert!(check_boot(AuthMode::Dev, None, Some(&format!("  {OPT_OUT_PHRASE}  "))).is_ok());
    assert!(check_boot(AuthMode::Dev, None, Some("1")).is_err());
    assert!(check_boot(AuthMode::Dev, None, Some("true")).is_err());
    assert!(check_boot(AuthMode::Dev, None, Some("yes")).is_err());
}

#[test]
fn a_backend_is_named_by_its_address() {
    assert_eq!(backend_of(Some("postgres://db")), Backend::Postgres);
    assert_eq!(backend_of(Some("postgresql://db")), Backend::Postgres);
    assert_eq!(backend_of(Some("firestore://p")), Backend::Firestore);
    assert_eq!(backend_of(Some("mysql://p")), Backend::Sqlite);
    assert_eq!(backend_of(None), Backend::Sqlite);
    assert_eq!(backend_of(None).name(), "sqlite");
    assert_eq!(set_value(Some(String::new())), None);
    assert_eq!(set_value(Some("k".to_string())), Some("k".to_string()));
    assert_eq!(set_value(None), None);
}

#[test]
fn only_ingest_writes_are_shed() {
    for path in ["/v1/events", "/v1/events/batch", "/v1/traces"] {
        assert!(door_guard(true, path).shed);
        assert!(!door_guard(false, path).shed);
    }
    assert_eq!(door_guard(true, "/v1/events").cap, BodyCap::Event);
    assert_eq!(door_guard(true, "/v1/traces").cap, BodyCap::Batch);
    assert!(!door_guard(true, "/v1/scores").shed);
    assert_eq!(door_guard(true, "/v1/scores").cap, BodyCap::Default);
}

fn member(name: &str, verdict: Verdict) -> Member {
    Member { name: name.to_string(), verdict }
}

fn status_of(body: &Json) -> String {
    body.get_str("status").unwrap().to_string()
}

#[test]
fn green_composite_is_still_the_literal_ok_every_deploy_surface_compares_against() {
    let (status, body) = render_composite(&vec![member("store", Verdict::Up)]);
    assert_eq!(status, 200);
    assert_eq!(status_of(&body), "ok", "scripts read this field");
}

#[test]
fn a_red_composite_names_the_member_and_the_reason() {
    let (status, body) =
        render_composite(&vec![member("store", Verdict::Down("pool is gone".into()))]);
    assert_eq!(status, 503);
    assert_eq!(status_of(&body), "degraded");
    let body = format!("{body:?}");
    assert!(body.contains("store: down (pool is gone)"), "body: {body}");
}

#[test]
fn could_not_determine_is_rendered_as_itself_not_as_down() {
    let (status, body) =
        render_ready(&vec![member("store", Verdict::Unknown("task cancelled".into()))]);
    assert_eq!(status, 503);
    assert!(body.contains("store: unknown (task cancelled)"), "body: {body}");
    assert!(!body.contains("down"), "an unknown must not be reported as an observation");
}

#[test]
fn readiness_needs_every_member_up() {
    let all_up = vec![member("store", Verdict::Up)];
    assert_eq!(render_ready(&all_up).0, 200);
    assert_eq!(render_ready(&all_up).1, "ready");
    let one_down =
        vec![member("store", Verdict::Up), member("prices", Verdict::Down("empty".into()))];
    assert_eq!(render_ready(&one_down).0, 503);
    assert_eq!(render_ready(&one_down).1, "not ready\nprices: down (empty)\n");
}

#[test]
fn a_probe_tells_a_failing_store_from_one_that_was_not_asked() {
    assert!(store_member(Ok(Ok(()))).is_up());
    assert_eq!(store_member(Ok(Err("locked".into()))).render(), "store: down (locked)");
    assert_eq!(
        store_member(Err("cancelled".into())).render(),
        "store: unknown (the probe task did not run: cancelled)"
    );
}

#[test]
fn only_a_2xx_counts_as_landed() {
    let a = |s: Option<u16>| Answer { status: s, body: String::new() };
    assert!(a(Some(200)).ok());
    assert!(a(Some(204)).ok());
    assert!(!a(Some(429)).ok(), "a min_interval refusal did not land");
    assert!(!a(Some(500)).ok());
    assert!(!a(Some(301)).ok(), "redirects are not followed, so not landed");
    assert!(!a(None).ok(), "no answer at all is not a landing");
}

#[test]
fn a_long_reply_is_cut_between_characters() {
    assert_eq!(capped_body("short".to_string()), "short");
    let at = "a".repeat(MAX_BODY);
    assert_eq!(capped_body(at.clone()), at);
    let over = format!("{}é", "a".repeat(MAX_BODY - 1));
    assert_eq!(capped_body(over), format!("{}…(truncated)", "a".repeat(MAX_BODY - 1)));
}

#[test]
fn a_reply_keeps_its_status_and_a_lost_one_its_reason() {
    let a = answer_of(Ok((201, Ok("made".into()))));
    assert_eq!((a.status, a.body.as_str()), (Some(201), "made"));
    let b = answer_of(Ok((200, Err("broken pipe".into()))));
    assert_eq!(
        (b.status, b.body.as_str()),
        (Some(200), "(unreadable response body: broken pipe)")
    );
    let c = answer_of(Err("refused".into()));
    assert_eq!((c.status, c.body.as_str()), (None, "refused"));
}

#[test]
fn explicit_beats_rust_log_and_blanks_fall_through() {
    assert_eq!(directive(Some("debug"), Some("trace")), "debug");
    assert_eq!(directive(None, Some("trace")), "trace");
    assert_eq!(directive(None, None), DEFAULT_LEVEL);
    assert_eq!(directive(Some("  "), Some("warn")), "warn");
    assert_eq!(directive(Some(""), None), DEFAULT_LEVEL);
    assert_eq!(
        directive(Some("info,lighttrack_api::events=debug"), None),
        "info,lighttrack_api::events=debug"
    );
}

#[test]
fn json_is_the_default_and_only_an_explicit_human_format_opts_out() {
    assert!(wants_json(None));
    assert!(wants_json(Some("json")));
    assert!(wants_json(Some("")));
    assert!(wants_json(Some("jsno")), "a typo must not silently break log ingestion");
    assert!(!wants_json(Some("text")));
    assert!(!wants_json(Some("TEXT")));
    assert!(!wants_json(Some(" pretty ")));
}

#[test]
fn the_default_directive_parses() {
    assert!(tracing_subscriber::EnvFilter::try_new(DEFAULT_LEVEL).is_ok());
}

#[test]
fn first_sight_is_new_repeat_is_duplicate() {
    let mut seen = SeenWebhooks::new(16);
    assert!(!seen.check_and_insert("wh_1"));
    assert!(seen.check_and_insert("wh_1"));
    assert!(!seen.check_and_insert("wh_2"));
}

#[test]
fn forget_allows_reprocessing() {
    let mut seen = SeenWebhooks::new(16);
    assert!(!seen.check_and_insert("wh_1"));
    seen.forget("wh_1");
    assert!(!seen.check_and_insert("wh_1"));
    assert!(seen.check_and_insert("wh_1"));
}

#[test]
fn evicts_oldest_over_capacity() {
    let mut seen = SeenWebhooks::new(2);
    assert!(!seen.check_and_insert("a"));
    assert!(!seen.check_and_insert("b"));
    assert!(!seen.check_and_insert("c"));
    assert!(seen.check_and_insert("c"));
    assert!(seen.check_and_insert("b"));
    assert!(!seen.check_and_insert("a"));
}

#[test]
fn a_key_is_touched_once_per_interval_and_the_map_stays_bounded() {
    let secs = |n: u64| n * 1_000_000_000;
    let every = secs(60);
    let t0 = secs(1_000);
    let mut m: Vec<Touch> = Vec::new();
    assert!(touch_due(&mut m, "k", t0, every));
    assert!(!touch_due(&mut m, "k", t0 + secs(30), every));
    assert!(touch_due(&mut m, "k", t0 + secs(61), every));

    let mut full: Vec<Touch> = (0..KEY_TOUCH_MAX_TRACKED)
        .map(|i| Touch { key: format!("old-{i}"), at: t0 })
        .collect();
    full.push(Touch { key: "fresh".into(), at: t0 + secs(100) });
    assert!(touch_due(&mut full, "new", t0 + secs(120), every));
    assert!(full.iter().any(|t| t.key == "fresh") && full.iter().any(|t| t.key == "new"));
    assert_eq!(full.len(), 2, "the stale entries were swept, the fresh one kept");
}
