use lighttrack_api::clock::Timestamp;
use lighttrack_api::event::{LlmEvent, Operation, Status, TokenUsage};
use lighttrack_api::json::{same_json, Json, Member, Number};
use lighttrack_api::posture::{count_posture, Cohort};
use lighttrack_api::projects::Redaction;
use lighttrack_api::redact::{
    apply_policy, write_stamp, Redacted, Redactor, FAILED_ERROR, FAILED_PAYLOAD, REDACTION_KEY,
};
use lighttrack_api::scrub::{
    cut_at, scrub_value_capped, Scrubbed, MAX_BREADTH, MAX_DEPTH, MAX_STRING_BYTES,
};

fn of(v: &serde_json::Value) -> Json {
    match v {
        serde_json::Value::Null => Json::Null,
        serde_json::Value::Bool(b) => Json::Bool(*b),
        serde_json::Value::Number(n) => Json::Num(match (n.as_u64(), n.as_i64()) {
            (Some(u), _) => Number::Pos(u),
            (None, Some(i)) => Number::Neg(i),
            (None, None) => Number::Float(n.to_string()),
        }),
        serde_json::Value::String(s) => Json::Str(s.clone()),
        serde_json::Value::Array(a) => Json::Arr(a.iter().map(of).collect()),
        serde_json::Value::Object(m) => Json::Obj(
            m.iter().map(|(k, v)| Member { name: k.clone(), value: of(v) }).collect(),
        ),
    }
}

fn json(s: &str) -> Json {
    of(&serde_json::from_str(s).unwrap())
}

fn text(s: &str) -> Json {
    Json::Str(s.to_string())
}

fn shown(v: &Json) -> String {
    match v {
        Json::Null => "null".to_string(),
        Json::Bool(b) => b.to_string(),
        Json::Num(Number::Pos(n)) => n.to_string(),
        Json::Num(Number::Neg(n)) => n.to_string(),
        Json::Num(Number::Float(t)) => t.clone(),
        Json::Str(s) => serde_json::to_string(s).unwrap(),
        Json::Arr(a) => format!("[{}]", a.iter().map(shown).collect::<Vec<_>>().join(",")),
        Json::Obj(m) => format!(
            "{{{}}}",
            m.iter()
                .map(|x| format!("{}:{}", serde_json::to_string(&x.name).unwrap(), shown(&x.value)))
                .collect::<Vec<_>>()
                .join(",")
        ),
    }
}

fn event(project: &str, input: Json, output: Json) -> LlmEvent {
    LlmEvent {
        id: "e".into(),
        project_id: project.into(),
        trace_id: None,
        span_id: None,
        parent_span_id: None,
        ts: Timestamp { nanos: 0 },
        received_at: Timestamp { nanos: 0 },
        provider: "openai".into(),
        model: "gpt-4o".into(),
        name: None,
        operation: Operation::Chat,
        usage: TokenUsage { input: 0, output: 0, cached_input: None, reasoning: None },
        cost: None,
        latency_ms: None,
        status: Status::Success,
        error: None,
        input: Some(input),
        output: Some(output),
        tags: vec![],
        source: None,
        metadata: Json::Null,
    }
}

/// Replaces addresses by `<EMAIL>`, card numbers by `<CARD>` and telephone numbers by `<PHONE>`.
fn scrub(s: String) -> Scrubbed {
    let c: Vec<char> = s.chars().collect();
    let mut text = String::new();
    let mut redactions = 0;
    let mut i = 0;
    while i < c.len() {
        let mut end = i;
        while end < c.len() && (c[end].is_alphanumeric() || ".@_".contains(c[end])) {
            end += 1;
        }
        if c[i..end].contains(&'@') {
            text.push_str("<EMAIL>");
            redactions += 1;
            i = end;
            continue;
        }
        if c[i].is_ascii_digit() || c[i] == '+' {
            let mut end = i;
            while end < c.len() && (c[end].is_ascii_digit() || "+ ()-".contains(c[end])) {
                end += 1;
            }
            while c[end - 1] == ' ' {
                end -= 1;
            }
            let digits = c[i..end].iter().filter(|d| d.is_ascii_digit()).count();
            if digits >= 13 || (c[i] == '+' && digits >= 10) {
                text.push_str(if c[i] == '+' { "<PHONE>" } else { "<CARD>" });
                redactions += 1;
                i = end;
                continue;
            }
        }
        text.push(c[i]);
        i += 1;
        while i < c.len() && c[i - 1].is_alphanumeric() && c[i].is_alphanumeric() {
            text.push(c[i]);
            i += 1;
        }
    }
    Scrubbed { text, redactions, failed: false }
}

/// Sixty-four digits that depend on every byte.
fn digest(s: String) -> String {
    let mut out = String::new();
    for seed in 0..4u64 {
        let mut h = 0xcbf2_9ce4_8422_2325u64 ^ seed;
        for b in s.bytes() {
            h = (h ^ b as u64).wrapping_mul(0x0000_0100_0000_01b3);
        }
        out.push_str(&format!("{h:016x}"));
    }
    out
}

fn redact(r: &Redactor, ev: LlmEvent, policy: Redaction) -> Redacted {
    r.redact_event(ev, policy, &scrub, "test-rules")
}

fn policy_on(mut ev: LlmEvent, policy: Redaction) -> (LlmEvent, bool) {
    let p = apply_policy(ev.input, ev.output, policy, &digest);
    ev.input = p.input;
    ev.output = p.output;
    (ev, p.applied)
}

#[test]
fn an_unconfigured_instance_scrubs_and_only_an_explicit_off_stores_raw_pii() {
    for unset in [None, Some(""), Some("   ")] {
        let r = Redactor::from_raw(unset);
        assert!(r.enabled_for("anything"), "unset/blank must scrub: {unset:?}");
        assert!(r.defaulted, "{unset:?}");
        assert_eq!(r.describe(), "all projects (default)");
        let ev = event("p1", text("mail jane@example.com"), text("clean"));
        let out = redact(&r, ev, Redaction::Keep);
        assert!(out.spans > 0);
        assert!(!format!("{:?}", out.event).contains("jane@example.com"));
    }

    for off in ["off", "OFF", " Off ", "0"] {
        let r = Redactor::from_raw(Some(off));
        assert!(!r.enabled_for("anything"), "explicit off must not scrub: {off}");
        assert!(!r.defaulted);
        assert_eq!(r.describe(), "off");
        let ev = event("p1", text("mail jane@example.com"), text("clean"));
        let out = redact(&r, ev, Redaction::Keep);
        assert_eq!(out.spans, 0, "{off}");
        assert_eq!(out.event.input.unwrap().as_str(), Some("mail jane@example.com"));
    }

    for all in ["all", "ALL", "*", "1"] {
        let r = Redactor::from_raw(Some(all));
        assert!(r.enabled_for("anything"), "{all}");
        assert_eq!(r.describe(), "all projects");
    }

    let r = Redactor::from_raw(Some("p1, p2"));
    assert!(r.enabled_for("p1") && r.enabled_for("p2"));
    assert!(!r.enabled_for("p3"));
    assert_eq!(r.describe(), "2 project(s)");
}

#[test]
fn a_project_persistence_policy_still_overrides_the_env_floor() {
    let scrubbing = Redactor::from_raw(None);

    let (dropped, applied) =
        policy_on(event("p1", text("jane@example.com"), text("x")), Redaction::Drop);
    assert!(applied);
    let out = redact(&scrubbing, dropped, Redaction::Drop);
    assert_eq!(out.spans, 0, "nothing left to scrub");
    assert!(out.event.input.is_none() && out.event.output.is_none());

    let (hashed, applied) =
        policy_on(event("p1", text("jane@example.com"), text("x")), Redaction::Hash);
    assert!(applied);
    let out = redact(&scrubbing, hashed, Redaction::Hash);
    assert_eq!(out.spans, 0);
    assert!(out.event.input.unwrap().get("sha256").is_some());

    let (kept, applied) =
        policy_on(event("p1", text("jane@example.com"), text("x")), Redaction::Keep);
    assert!(!applied);
    let out = redact(&scrubbing, kept, Redaction::Keep);
    assert!(out.spans > 0);
    assert_eq!(out.event.input.unwrap().as_str(), Some("<EMAIL>"));
}

#[test]
fn redacts_strings_nested() {
    let ev = event(
        "p1",
        json(r#"{ "q": "email me at jane@example.com" }"#),
        text("call +1 (415) 555-2671 or card 4111 1111 1111 1111"),
    );
    let out = redact(&Redactor::all(), ev, Redaction::Keep);
    assert!(out.spans >= 3, "redactions={}", out.spans);
    let blob = format!("{:?}", out.event);
    assert!(!blob.contains("jane@example.com"), "{blob}");
    assert!(blob.contains("<EMAIL>"), "{blob}");
    assert!(!blob.contains("4111"), "{blob}");
}

#[test]
fn error_and_tags_are_scrubbed_too() {
    let mut ev = event("p1", text("clean"), text("clean"));
    ev.error = Some("upstream 400: invalid email jane@example.com in prompt".to_string());
    ev.tags = vec!["cust:jane@example.com".to_string(), "clean-tag".to_string()];
    let out = redact(&Redactor::all(), ev, Redaction::Keep);
    assert!(out.spans >= 2, "redactions={}", out.spans);
    let error = out.event.error.unwrap();
    assert!(!error.contains("jane@example.com"));
    assert!(error.contains("<EMAIL>"));
    assert!(!out.event.tags[0].contains("jane@example.com"));
    assert_eq!(out.event.tags[1], "clean-tag");
}

#[test]
fn policy_hash_replaces_payloads_with_digests() {
    let (ev, applied) = policy_on(
        event("p1", json(r#"{ "q": "secret prompt" }"#), text("secret answer")),
        Redaction::Hash,
    );
    assert!(applied);
    let ih = ev.input.as_ref().unwrap().get_str("sha256").expect("input digest").to_string();
    let oh = ev.output.as_ref().unwrap().get_str("sha256").expect("output digest").to_string();
    assert_eq!(ih.len(), 64);
    assert_ne!(ih, oh, "different payloads hash differently");
    let blob = format!("{ev:?}");
    assert!(!blob.contains("secret"), "no plaintext survives hashing: {blob}");
    let (ev2, _) =
        policy_on(event("p1", json(r#"{ "q": "secret prompt" }"#), text("x")), Redaction::Hash);
    assert_eq!(ev2.input.unwrap().get_str("sha256").unwrap(), ih);
    assert_eq!(ih, digest(r#"{"q":"secret prompt"}"#.to_string()), "the digest is of compact text");
}

#[test]
fn policy_drop_removes_payloads_and_none_is_a_noop() {
    let (ev, applied) = policy_on(event("p1", text("secret"), text("secret")), Redaction::Drop);
    assert!(applied);
    assert!(ev.input.is_none() && ev.output.is_none());
    let (_, applied) = policy_on(ev, Redaction::Drop);
    assert!(!applied);

    let (ev, applied) = policy_on(event("p1", text("as sent"), text("as sent")), Redaction::Keep);
    assert!(!applied);
    assert_eq!(ev.input.unwrap().as_str(), Some("as sent"));
}

#[test]
fn disabled_and_scoped() {
    let ev = event("p1", text("jane@example.com"), text("clean"));
    let out = redact(&Redactor::off(), ev, Redaction::Keep);
    assert_eq!(out.spans, 0);
    assert_eq!(out.event.input.unwrap().as_str(), Some("jane@example.com"));

    let scoped = Redactor::from_raw(Some("p1"));
    let a = event("p1", text("jane@example.com"), text("x"));
    let b = event("p2", text("jane@example.com"), text("x"));
    assert!(redact(&scoped, a, Redaction::Keep).spans > 0);
    assert_eq!(redact(&scoped, b, Redaction::Keep).spans, 0);
}

fn nest(depth: usize, leaf: Json) -> Json {
    (0..depth).fold(leaf, |acc, _| Json::Obj(vec![Member { name: "n".into(), value: acc }]))
}

#[test]
fn a_payload_deeper_than_the_cap_is_dropped_not_forwarded() {
    let ev = event("p1", nest(MAX_DEPTH + 5, text("mail jane@example.com")), text("ok"));
    let out = redact(&Redactor::all(), ev, Redaction::Keep);
    let stored = format!("{:?}", out.event);
    assert!(
        !stored.contains("jane@example.com"),
        "an un-inspected deep subtree must never reach storage: {stored}"
    );
    assert!(
        stored.contains("<UNSCANNED: depth>"),
        "and the reader must be told there is a blind spot at that path: {stored}"
    );
    assert_eq!(out.drops, 1);
}

#[test]
fn a_cap_marker_is_not_spelled_like_a_redaction() {
    let ev = event("p1", text("mail jane@example.com"), nest(MAX_DEPTH + 2, text("x")));
    let out = redact(&Redactor::all(), ev, Redaction::Keep);
    let input = shown(&out.event.input.unwrap());
    let output = shown(&out.event.output.unwrap());
    assert!(input.contains("<EMAIL>"), "{input}");
    assert!(!input.contains("UNSCANNED"), "{input}");
    assert!(output.contains("<UNSCANNED"), "{output}");
}

#[test]
fn breadth_and_the_node_budget_shed_the_tail_and_say_how_much() {
    let wide: Vec<Json> = (0..MAX_BREADTH + 40).map(|_| text("mail jane@example.com")).collect();
    let out = redact(&Redactor::all(), event("p1", Json::Arr(wide), text("ok")), Redaction::Keep);
    let stored = shown(&out.event.input.unwrap());
    assert!(!stored.contains("jane@example.com"), "{stored}");
    assert!(stored.contains("40 entries dropped"), "the count is the point: {stored}");

    let huge: Vec<Json> = (0..MAX_BREADTH)
        .map(|_| Json::Arr((0..MAX_BREADTH).map(|_| text("x")).collect()))
        .collect();
    let out = redact(&Redactor::all(), event("p1", Json::Arr(huge), text("ok")), Redaction::Keep);
    assert!(
        shown(&out.event.input.unwrap()).contains("<UNSCANNED: node-budget>"),
        "a payload wide enough to exhaust the budget must be capped, not walked forever"
    );
}

#[test]
fn a_wide_object_says_how_many_keys_were_dropped() {
    let m: Vec<Member> = (0..MAX_BREADTH + 3)
        .map(|i| Member { name: format!("k{i:04}"), value: text("v") })
        .collect();
    let (v, c) = scrub_value_capped(&Json::Obj(m), &scrub);
    assert!(shown(&v).contains("3 keys dropped"), "{}", shown(&v));
    assert_eq!(c.drops, 1);
}

#[test]
fn an_oversized_string_keeps_its_inspected_prefix_and_drops_the_rest() {
    let mut long = "mail jane@example.com ".to_string();
    long.push_str(&"a".repeat(MAX_STRING_BYTES));
    long.push_str(" bob@example.com");
    let out = redact(&Redactor::all(), event("p1", text(&long), text("ok")), Redaction::Keep);
    let stored = shown(&out.event.input.unwrap());
    assert!(
        stored.contains("<EMAIL>"),
        "the inspected prefix is still scrubbed: {}",
        &stored[..80]
    );
    assert!(!stored.contains("bob@example.com"), "the un-inspected tail is dropped");
    assert!(stored.contains("bytes dropped"), "and the cut is marked with its size");
}

#[test]
fn a_text_is_cut_after_the_last_character_that_fits() {
    assert_eq!(cut_at("abc", 3), None);
    assert_eq!(cut_at("abcd", 3), Some(3));
    assert_eq!(cut_at("aéb", 2), Some(1));
    assert_eq!(cut_at("€€", 5), Some(1));
}

#[test]
fn metadata_is_scrubbed_except_the_accounting_keys() {
    let mut ev = event("p1", text("clean"), text("clean"));
    ev.metadata = json(
        r#"{
            "note": "escalated by jane@example.com",
            "nested": { "ticket": "card 4111 1111 1111 1111" },
            "customer_id": "jane@example.com",
            "api_key_id": "key-123",
            "product_id": "pro@example.com",
            "cost_source": "client"
        }"#,
    );
    let out = redact(&Redactor::all(), ev, Redaction::Keep);
    assert!(out.spans > 0);
    let m = &out.event.metadata;
    assert_eq!(m.get_str("note"), Some("escalated by <EMAIL>"));
    assert!(
        !m.get("nested").unwrap().get_str("ticket").unwrap().contains("4111"),
        "the walk reaches nested metadata too: {m:?}"
    );
    assert_eq!(m.get_str("customer_id"), Some("jane@example.com"));
    assert_eq!(m.get_str("product_id"), Some("pro@example.com"));
    assert_eq!(m.get_str("api_key_id"), Some("key-123"));
    assert_eq!(m.get_str("cost_source"), Some("client"));
}

#[test]
fn name_and_source_are_dispositioned_rather_than_unmentioned() {
    let mut ev = event("p1", text("clean"), text("clean"));
    ev.name = Some("reply-to jane@example.com".into());
    ev.source = Some("agent-4111111111111111".into());
    let out = redact(&Redactor::all(), ev, Redaction::Keep);
    assert!(out.spans > 0);
    assert_eq!(out.event.name.as_deref(), Some("reply-to <EMAIL>"));
    assert!(!out.event.source.unwrap().contains("4111111111111111"));

    let mut ok = event("p1", text("clean"), text("clean"));
    ok.name = Some("summarize-email".into());
    ok.source = Some("checkout-api".into());
    let out = redact(&Redactor::all(), ok, Redaction::Keep);
    assert_eq!(out.event.name.as_deref(), Some("summarize-email"));
    assert_eq!(out.event.source.as_deref(), Some("checkout-api"));
}

#[test]
fn the_caps_leave_an_ordinary_payload_completely_alone() {
    let turns: Vec<String> = (0..40)
        .map(|i| format!(r#"{{ "role": "user", "content": "turn {i}" }}"#))
        .collect();
    let ordinary = format!(
        r#"{{
            "messages": [{}],
            "temperature": 0.0,
            "tools": [{{ "name": "search", "parameters": {{ "type": "object", "properties": {{ "q": {{ "type": "string" }} }} }} }}]
        }}"#,
        turns.join(",")
    );
    let ev = event("p1", json(&ordinary), text("a normal answer"));
    let out = redact(&Redactor::all(), ev, Redaction::Keep);
    assert!(
        same_json(&out.event.input.unwrap(), &json(&ordinary)),
        "no cap fires on realistic traffic"
    );
    assert_eq!((out.spans, out.drops), (0, 0));
}

#[test]
fn a_broken_scrub_discards_what_it_did_not_finish() {
    let broken = |s: String| Scrubbed {
        failed: s.contains("boom"),
        text: s,
        redactions: 0,
    };
    let mut ev = event("p1", text("boom"), text("fine"));
    ev.error = Some("raw".into());
    ev.tags = vec!["t".into()];
    ev.name = Some("boom too".into());
    ev.source = Some("checkout".into());
    ev.metadata = json(r#"{ "note": "raw" }"#);
    let out = Redactor::all().redact_event(ev, Redaction::Keep, &broken, "v1");
    assert!(out.failed);
    assert_eq!(out.event.input.unwrap().as_str(), Some(FAILED_PAYLOAD));
    assert_eq!(out.event.output.unwrap().as_str(), Some(FAILED_PAYLOAD));
    assert_eq!(out.event.error.as_deref(), Some(FAILED_ERROR));
    assert!(out.event.tags.is_empty());
    assert_eq!(out.event.name, None);
    assert_eq!(out.event.source.as_deref(), Some("checkout"));
    assert!(out.event.metadata.get("note").is_none());
    assert!(out.event.metadata.get(REDACTION_KEY).is_some());
}

#[test]
fn a_stamp_goes_beside_whatever_was_there() {
    let stamp = || Json::Bool(true);
    assert_eq!(shown(&write_stamp(Json::Null, stamp())), r#"{"redaction":true}"#);
    assert_eq!(
        shown(&write_stamp(json(r#"{"a":1,"z":2}"#), stamp())),
        r#"{"a":1,"redaction":true,"z":2}"#
    );
    assert_eq!(
        shown(&write_stamp(text("mine"), stamp())),
        r#"{"redaction":true,"value":"mine"}"#
    );
    let mut ev = event("p1", text("x"), text("y"));
    ev.metadata = json(r#"{"redaction":{"policy":"hash","scrub":true}}"#);
    let out = redact(&Redactor::off(), ev, Redaction::Keep);
    let s = out.event.metadata.get(REDACTION_KEY).unwrap();
    assert_eq!(shown(s), r#"{"policy":"none","rules":"","scrub":false,"spans":0}"#);
}

#[test]
fn the_posture_is_said_at_the_level_of_its_risk() {
    let off = Redactor::off().posture();
    assert!(off.warn && off.message.contains("OFF"));
    let on = Redactor::defaulted().posture();
    assert!(!on.warn && on.message.contains("default"));
    let all = Redactor::all().posture();
    assert!(all.message.contains("LIGHTTRACK_REDACT_INGEST=all"));
    let some = Redactor::from_raw(Some("b, a")).posture();
    assert!(some.projects.is_some());
}

#[test]
fn rows_without_a_stamp_are_counted_by_themselves() {
    let g = vec![
        Cohort { stamped: true, events: 5 },
        Cohort { stamped: false, events: 3 },
        Cohort { stamped: true, events: 2 },
    ];
    assert_eq!(count_posture(&g), (10, 3));
    assert_eq!(count_posture(&vec![]), (0, 0));
}
