use lighttrack_api::auth::{
    bearer, counts_as_failed_attempt, default_scopes, resolve_key, resolve_project, resolve_token,
    AuthMode, AuthStep, FoundKey, Principal, Scope,
};
use lighttrack_api::clock::Timestamp;
use lighttrack_api::dates::parse_rfc3339;
use lighttrack_api::devices::{
    door_step, new_device, resolve_enrolled, revoke_answer, view_device, warn_if_legacy_key, Device,
    DeviceIdentity, DoorStep,
};
use lighttrack_api::error::{ApiError, ErrorCode};
use lighttrack_api::guards::{
    ensure_can_admin, ensure_scope, needs_dev_default, resolve_ingest_project, resolve_read_project,
    DEV_DEFAULT_PROJECT, NO_PROJECT_MSG,
};
use lighttrack_api::keys::{
    check_expiry, default_key_name, find_key, list_keys, mint, parse_scopes, predecessor,
    retirement_for, rotation_grace, successor, ApiKey, KeyInfo, Retirement, DEFAULT_GRACE_SECS,
};
use lighttrack_api::projects::{
    dev_default_project, ensure_id_is_free, found_project, new_project, requested_project_id,
    update_project, validate_project_id, Redaction, UpdateProjectReq, MAX_PROJECT_ID_LEN,
};

const SEC: i128 = 1_000_000_000;
const DAY: i64 = 24 * 3600;

fn plus(t: Timestamp, secs: i64) -> Timestamp {
    Timestamp { nanos: t.nanos + secs as i128 * SEC }
}

fn t0() -> Timestamp {
    parse_rfc3339("2026-09-17T12:00:00Z").unwrap()
}

fn scoped(scopes: &[Scope]) -> Principal {
    Principal::Project {
        project_id: "proj-a".into(),
        key_id: "key-1".into(),
        scopes: scopes.to_vec(),
    }
}

fn resolved(p: &Principal, body: &str) -> Result<String, String> {
    resolve_ingest_project(p, body).map_err(|e| e.to_text())
}

#[test]
fn a_key_only_opens_the_doors_it_was_scoped_for() {
    let ingest_only = scoped(&[Scope::Ingest]);
    assert_eq!(resolved(&ingest_only, "").unwrap(), "proj-a");
    assert!(resolve_read_project(&ingest_only, None).is_err());

    let read_only = scoped(&[Scope::Read]);
    assert!(resolved(&read_only, "").is_err());
    assert_eq!(
        resolve_read_project(&read_only, None).map_err(|e| e.to_text()).unwrap(),
        Some("proj-a".to_string())
    );
}

#[test]
fn scopes_do_not_relax_the_cross_project_check() {
    let k = scoped(&[Scope::Read]);
    assert!(resolve_read_project(&k, Some("proj-b")).is_err());
}

#[test]
fn dev_principal_falls_back_to_the_default_project_but_admin_never_does() {
    assert_eq!(resolved(&Principal::Dev, "").unwrap(), DEV_DEFAULT_PROJECT);
    assert_eq!(resolved(&Principal::Dev, "   ").unwrap(), DEV_DEFAULT_PROJECT);
    assert_eq!(resolved(&Principal::Dev, "mine").unwrap(), "mine");

    assert_eq!(
        resolved(&Principal::Admin, "").unwrap_err(),
        format!("bad_request: {NO_PROJECT_MSG}")
    );
    assert!(resolved(&Principal::Admin, " ").is_err());
    assert_eq!(resolved(&Principal::Admin, "mine").unwrap(), "mine");
}

#[test]
fn a_project_key_forces_its_own_project() {
    let p = scoped(&default_scopes());
    assert_eq!(resolved(&p, "").unwrap(), "proj-a");
    assert_eq!(resolved(&p, "proj-b").unwrap(), "proj-a");
}

#[test]
fn only_an_operator_administers() {
    assert!(ensure_can_admin(&Principal::Admin).is_ok());
    assert!(ensure_can_admin(&Principal::Dev).is_ok());
    let e = ensure_can_admin(&scoped(&[Scope::Manage])).unwrap_err();
    assert_eq!((e.code, e.message.as_str()), (ErrorCode::Forbidden, "admin privileges required"));
    assert!(ensure_scope(&scoped(&[Scope::Manage]), Scope::Manage).is_ok());
    assert!(ensure_scope(&scoped(&[Scope::Read]), Scope::Manage).is_err());
    assert!(needs_dev_default(&Principal::Dev, " "));
    assert!(!needs_dev_default(&Principal::Admin, " "));
    let d = dev_default_project(t0());
    assert_eq!((d.id.as_str(), d.enabled, d.redaction), ("default", true, Redaction::Keep));
}

// ------------------------------------------------------------------ credentials

fn found(revoked: bool, expires_at: Option<Timestamp>) -> Option<FoundKey> {
    Some(FoundKey {
        id: "k1".into(),
        project_id: "proj-a".into(),
        scopes: vec![Scope::Ingest],
        revoked,
        expires_at,
    })
}

#[test]
fn a_token_is_read_out_of_its_header() {
    assert_eq!(bearer(Some("Bearer  abc ")).as_deref(), Some("abc"));
    assert_eq!(bearer(Some("bearer abc")).as_deref(), Some("abc"));
    assert_eq!(bearer(Some("Basic abc")), None);
    assert_eq!(bearer(None), None);
    assert_eq!(AuthMode::from_env("enforced"), AuthMode::Enforced);
    assert_eq!(AuthMode::from_env("enforcd"), AuthMode::Dev);
}

#[test]
fn an_unknown_credential_is_refused_only_where_one_is_demanded() {
    assert!(matches!(
        resolve_token(AuthMode::Dev, false, false, false),
        AuthStep::Grant(Principal::Dev)
    ));
    match resolve_token(AuthMode::Enforced, false, false, false) {
        AuthStep::Refuse(e) => {
            assert_eq!(e.message, "missing API key");
            assert!(counts_as_failed_attempt(&e));
        }
        other => panic!("{other:?}"),
    }
    assert!(matches!(
        resolve_token(AuthMode::Enforced, true, true, false),
        AuthStep::Grant(Principal::Admin)
    ));
    assert!(matches!(resolve_token(AuthMode::Enforced, true, false, true), AuthStep::LookUpKey));
    assert!(matches!(resolve_token(AuthMode::Enforced, true, false, false), AuthStep::Refuse(_)));
}

#[test]
fn a_key_out_of_time_is_refused_under_its_own_code() {
    let now = t0();
    let step = |k: &Option<FoundKey>, ok: bool| resolve_key(AuthMode::Enforced, k, ok, now);
    assert!(matches!(step(&found(false, None), true), AuthStep::CheckProject));
    assert!(matches!(step(&found(false, Some(plus(now, 1))), true), AuthStep::CheckProject));
    match step(&found(false, Some(now)), true) {
        AuthStep::Refuse(e) => {
            assert_eq!(e.code, ErrorCode::KeyExpired);
            assert_eq!(
                e.message,
                "API key 'k1' expired; rotate it with POST /v1/projects/proj-a/keys/k1/rotate"
            );
            assert!(!counts_as_failed_attempt(&e));
        }
        other => panic!("{other:?}"),
    }
    for bad in [step(&found(true, None), true), step(&found(false, None), false), step(&None, true)] {
        match bad {
            AuthStep::Refuse(e) => assert_eq!(e.message, "invalid API key"),
            other => panic!("{other:?}"),
        }
    }
    let k = found(false, None).unwrap();
    assert!(matches!(resolve_project(&k, true), Ok(Principal::Project { .. })));
    assert_eq!(resolve_project(&k, false).unwrap_err().code, ErrorCode::ProjectDisabled);
}

// ------------------------------------------------------------------ projects

#[test]
fn accepts_the_readable_ids_the_docs_promise() {
    for id in [
        "default",
        "qa-demo",
        "acme_prod",
        "team.eu",
        "p1",
        "A",
        &"a".repeat(MAX_PROJECT_ID_LEN),
    ] {
        assert!(validate_project_id(id).is_ok(), "should accept {id:?}");
    }
}

#[test]
fn a_minted_id_passes_the_same_rule() {
    let id = "0f8fad5b-d9cb-469f-a165-70867728950e";
    assert!(validate_project_id(id).is_ok(), "minted {id:?}");
}

#[test]
fn rejects_ids_that_are_unsafe_in_a_url_or_a_document_path() {
    for id in [
        "",
        &"a".repeat(MAX_PROJECT_ID_LEN + 1),
        "-leading-dash",
        ".",
        "..",
        "__proto__",
        "a/b",
        "a b",
        "a?b",
        "café",
    ] {
        assert!(validate_project_id(id).is_err(), "should reject {id:?}");
    }
}

#[test]
fn rejection_names_the_rule_that_failed() {
    assert!(validate_project_id("").unwrap_err().contains("1-64"));
    assert!(validate_project_id("-x").unwrap_err().contains("start with"));
    assert!(validate_project_id("a/b").unwrap_err().contains('/'));
}

#[test]
fn a_project_is_made_once_and_changed_field_by_field() {
    assert_eq!(requested_project_id(&None).unwrap(), None);
    assert_eq!(requested_project_id(&Some(" qa ".into())).unwrap(), Some("qa".to_string()));
    assert_eq!(requested_project_id(&Some("a b".into())).unwrap_err().code, ErrorCode::BadRequest);
    assert!(ensure_id_is_free("qa", false).is_ok());
    let e = ensure_id_is_free("qa", true).unwrap_err();
    assert_eq!(e.code, ErrorCode::Conflict);
    assert!(e.message.starts_with("project 'qa' already exists"));
    let p = new_project("qa".into(), "QA".into(), Redaction::Drop, false, t0());
    assert!(p.enabled);
    let p = update_project(
        p,
        UpdateProjectReq {
            name: None,
            enabled: Some(false),
            redaction: Some(Redaction::Hash),
            collective_opt_in: None,
        },
    );
    assert_eq!((p.name.as_str(), p.enabled, p.redaction), ("QA", false, Redaction::Hash));
    assert_eq!(found_project("qa", Some(p)).unwrap().id, "qa");
    assert_eq!(found_project("zz", None).unwrap_err().message, "project 'zz' not found");
}

// ------------------------------------------------------------------ keys

fn parsed(v: &[&str]) -> Result<Vec<Scope>, String> {
    parse_scopes(&Some(v.iter().map(|s| s.to_string()).collect())).map_err(|e| e.to_text())
}

#[test]
fn omitted_scopes_take_the_back_compat_default() {
    assert_eq!(parse_scopes(&None).map_err(|e| e.to_text()), Ok(default_scopes()));
}

#[test]
fn an_unknown_scope_is_refused_by_name() {
    let err = parsed(&["ingest", "reed"]).unwrap_err();
    assert!(err.contains("unknown scope 'reed'"), "{err}");
    assert!(parsed(&[]).unwrap_err().contains("at least one"));
}

#[test]
fn scopes_are_parsed_case_insensitively_and_deduplicated() {
    assert_eq!(
        parsed(&["INGEST", "ingest", "Manage"]),
        Ok(vec![Scope::Ingest, Scope::Manage])
    );
}

fn live_at(r: &Retirement, at: Timestamp) -> bool {
    match r {
        Retirement::Revoke => false,
        Retirement::ExpireAt(deadline) => deadline.nanos > at.nanos,
    }
}

fn cases(now: Timestamp) -> [Retirement; 3] {
    [
        retirement_for(None, 0, now),
        retirement_for(None, 7 * DAY, now),
        retirement_for(Some(plus(t0(), 3600)), 7 * DAY, now),
    ]
}

#[test]
fn a_non_zero_grace_window_is_stamped_exactly_as_before() {
    assert_eq!(
        retirement_for(None, 7 * DAY, t0()),
        Retirement::ExpireAt(plus(t0(), 7 * DAY))
    );
    assert_eq!(
        retirement_for(Some(plus(t0(), 3600)), 7 * DAY, t0()),
        Retirement::ExpireAt(plus(t0(), 3600))
    );
    assert_eq!(
        retirement_for(None, DEFAULT_GRACE_SECS, t0()),
        Retirement::ExpireAt(plus(t0(), DEFAULT_GRACE_SECS))
    );
}

#[test]
fn a_retirement_survives_a_backward_clock_step() {
    let stepped_back = plus(t0(), -8 * DAY);
    let survived = cases(t0()).iter().filter(|r| !live_at(r, stepped_back)).count();
    assert!(
        survived >= 1,
        "no rotation survives a backward clock step: all three predecessors authenticate again"
    );
    assert!(
        !live_at(&cases(t0())[0], stepped_back),
        "a grace window of zero came back to life when the clock stepped back"
    );
}

#[test]
fn count_the_outcomes_that_depend_on_the_stamping_clock() {
    let skewed = plus(t0(), -8 * DAY);
    let truthful = cases(t0());
    let off = cases(skewed);
    let dependent = truthful.iter().zip(off.iter()).filter(|(a, b)| a != b).count();
    assert!(
        dependent <= 2,
        "every rotation outcome is a function of the stamping clock ({dependent} of 3)"
    );
}

#[test]
fn an_explicit_grace_request_is_clamped_without_a_word() {
    let asked = 7 * DAY;
    let got = match retirement_for(Some(plus(t0(), 3600)), asked, t0()) {
        Retirement::ExpireAt(d) => (d.nanos - t0().nanos) / SEC,
        Retirement::Revoke => 0,
    };
    assert_eq!(got, 3600);
    assert!(got < asked as i128);
}

fn api_key(revoked: bool) -> ApiKey {
    let mut k = mint(
        "k1".into(),
        "proj-a".into(),
        "ci".into(),
        "ab12".into(),
        "salt:digest".into(),
        vec![Scope::Ingest],
        None,
        t0(),
    );
    k.revoked = revoked;
    k
}

#[test]
fn a_key_is_listed_without_its_digest() {
    assert_eq!(default_key_name(), "default");
    let listed = list_keys(vec![api_key(false), api_key(true)]);
    assert_eq!(listed.len(), 2);
    assert!(!listed[0].revoked && listed[1].revoked);
    assert!(!format!("{listed:?}").contains("salt:digest"));
    assert!(KeyInfo::revoked(api_key(false)).revoked);
    assert_eq!(find_key(&vec![api_key(false)], "k1", "proj-a").unwrap(), 0);
    assert_eq!(
        find_key(&vec![], "k9", "proj-a").unwrap_err().message,
        "key 'k9' not found on project 'proj-a'"
    );
}

#[test]
fn a_rotation_mints_a_successor_of_the_same_reach() {
    assert_eq!(rotation_grace(&api_key(false), "k1", "proj-a", None).unwrap(), DEFAULT_GRACE_SECS);
    assert_eq!(rotation_grace(&api_key(false), "k1", "proj-a", Some(0)).unwrap(), 0);
    assert_eq!(
        rotation_grace(&api_key(true), "k1", "proj-a", None).unwrap_err().code,
        ErrorCode::Conflict
    );
    assert_eq!(
        rotation_grace(&api_key(false), "k1", "proj-a", Some(-1)).unwrap_err().code,
        ErrorCode::BadRequest
    );
    let old = api_key(false);
    let new = successor(&old, "k2".into(), "cd34".into(), "salt:two".into(), plus(t0(), 5));
    assert_eq!((new.project_id.as_str(), new.name.as_str()), ("proj-a", "ci"));
    assert_eq!(new.scopes, vec![Scope::Ingest]);
    assert!(predecessor(api_key(false), Retirement::Revoke).revoked);
    assert_eq!(
        predecessor(api_key(false), Retirement::ExpireAt(plus(t0(), 9))).expires_at,
        Some(plus(t0(), 9))
    );
    assert!(check_expiry(None, t0()).is_ok());
    assert!(check_expiry(Some(plus(t0(), 1)), t0()).is_ok());
    assert!(check_expiry(Some(t0()), t0()).is_err());
}

// ------------------------------------------------------------------ devices

fn sample(last_seen: Option<Timestamp>, revoked: bool) -> Device {
    Device {
        id: "d1".into(),
        project_id: None,
        name: "laptop".into(),
        key_prefix: "abcd1234".into(),
        key_hash: "salt:digest".into(),
        capabilities: vec!["xprice/*".into()],
        last_seen_at: last_seen,
        agent_version: None,
        created_at: t0(),
        revoked,
    }
}

#[test]
fn liveness_is_last_contact_and_a_revoked_device_is_never_online() {
    let now = t0();
    let fresh = view_device(&sample(Some(plus(now, -30)), false), now);
    assert!(fresh.online);
    assert_eq!(fresh.seen_secs_ago, Some(30));

    let stale = view_device(&sample(Some(plus(now, -7200)), false), now);
    assert!(!stale.online, "two hours of silence is not a live device");

    let never = view_device(&sample(None, false), now);
    assert!(!never.online);
    assert!(never.seen_secs_ago.is_none());

    let revoked = view_device(&sample(Some(now), true), now);
    assert!(!revoked.online);
}

#[test]
fn the_stored_digest_never_reaches_a_response() {
    let v = view_device(&sample(None, false), t0());
    assert!(v.device.key_hash.is_empty());
    assert!(!format!("{v:?}").contains("salt:digest"));
}

#[test]
fn liveness_ends_after_five_minutes() {
    let now = t0();
    assert!(view_device(&sample(Some(plus(now, -300)), false), now).online);
    assert!(!view_device(&sample(Some(plus(now, -301)), false), now).online);
}

#[test]
fn a_device_key_opens_its_door_or_none() {
    assert_eq!(door_step(true, true, true), DoorStep::ResolveEnrolled);
    assert_eq!(door_step(true, false, true), DoorStep::Legacy);
    assert_eq!(door_step(false, false, false), DoorStep::Authenticate);
    match resolve_enrolled(Some(sample(None, false)), true).unwrap() {
        DeviceIdentity::Enrolled(d) => assert_eq!(d.id, "d1"),
        other => panic!("{other:?}"),
    }
    let why = |r: Result<DeviceIdentity, ApiError>| r.unwrap_err().message;
    assert_eq!(why(resolve_enrolled(None, false)), "unknown device key");
    assert_eq!(why(resolve_enrolled(Some(sample(None, false)), false)), "invalid device key");
    assert_eq!(
        why(resolve_enrolled(Some(sample(None, true)), true)),
        "device 'laptop' has been revoked"
    );
    assert_eq!(DeviceIdentity::Legacy.task_device(), "default");
    assert_eq!(DeviceIdentity::Enrolled(sample(None, false)).task_device(), "d1");
    assert!(warn_if_legacy_key(false).is_none());
    assert!(warn_if_legacy_key(true).unwrap().contains("DEPRECATED"));
}

#[test]
fn a_device_is_enrolled_with_a_name_and_tidy_capabilities() {
    let d = new_device(
        "d2".into(),
        " laptop ",
        Some("  ".into()),
        &vec![" a/b ".into(), "".into(), "c".into()],
        "pre".into(),
        "hash".into(),
        t0(),
    )
    .unwrap();
    assert_eq!(d.name, "laptop");
    assert_eq!(d.project_id, None);
    assert_eq!(d.capabilities, vec!["a/b".to_string(), "c".to_string()]);
    assert_eq!(
        new_device("d".into(), "  ", None, &vec![], "p".into(), "h".into(), t0())
            .unwrap_err()
            .message,
        "name is required"
    );
    let r = revoke_answer("d1", true, Some(sample(None, true))).unwrap();
    assert!(r.revoked && r.key_hash.is_empty());
    assert_eq!(revoke_answer("d9", false, None).unwrap_err().message, "device 'd9' not found");
}
