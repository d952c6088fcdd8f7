use lighttrack_api::clock::Timestamp;
use lighttrack_api::error::ErrorCode;
use lighttrack_api::event::{same_logical_event, Operation, Status};
use lighttrack_api::ingest::BatchItem;
use lighttrack_api::json::Json;
use lighttrack_api::otlp::export::{
    finish, map_export, span_outcomes, SpanOutcome, SpanSlot, SpanState,
};
use lighttrack_api::otlp::linkage::{nearest_mapped_ancestor, reparent_past_dropped_spans, Link};
use lighttrack_api::otlp::proto::{
    flatten, AnyValue, ArrayValue, EnumValue, ExportTraceServiceRequest, Float, FlatSpan, KeyValue,
    KvList, Num, ResourceSpans, ScopeSpans, Span, SpanEvent, SpanStatus,
};
use lighttrack_api::otlp::semconv::{map_span, nonempty, operation_from};

const START: i64 = 1_790_000_000_000_000_000;

fn now() -> Timestamp {
    Timestamp { nanos: START as i128 + 60_000_000_000 }
}

fn nothing() -> AnyValue {
    AnyValue {
        string_value: None,
        int_value: None,
        double_value: None,
        bool_value: None,
        array_value: None,
        kvlist_value: None,
        amount: None,
    }
}

fn text(s: &str) -> AnyValue {
    AnyValue { string_value: Some(s.into()), ..nothing() }
}

fn number(n: Num) -> AnyValue {
    AnyValue { int_value: Some(n), ..nothing() }
}

fn kv(key: &str, value: AnyValue) -> KeyValue {
    KeyValue { key: key.into(), value: Some(value) }
}

fn at_ms(ms: i64) -> Option<Num> {
    Some(Num::Str((START + ms * 1_000_000).to_string()))
}

fn span(id: &str, parent: Option<&str>, attributes: Vec<KeyValue>) -> Span {
    Span {
        trace_id: Some("5b8efff798038103d269b633813fc60c".into()),
        span_id: Some(id.into()),
        parent_span_id: parent.map(str::to_string),
        name: Some("chat haiku-4-5".into()),
        start_time_unix_nano: at_ms(0),
        end_time_unix_nano: at_ms(1500),
        attributes,
        events: vec![],
        status: None,
    }
}

fn call() -> Vec<KeyValue> {
    vec![
        kv("gen_ai.system", text("anthropic")),
        kv("gen_ai.request.model", text("haiku-4-5")),
        kv("gen_ai.usage.input_tokens", number(Num::Str("10".into()))),
        kv("gen_ai.usage.output_tokens", number(Num::Int(5))),
    ]
}

fn other() -> Vec<KeyValue> {
    vec![kv("http.request.method", text("GET"))]
}

fn request(spans: Vec<Span>) -> ExportTraceServiceRequest {
    ExportTraceServiceRequest {
        resource_spans: vec![ResourceSpans {
            resource: vec![kv("service.name", text("checkout-api"))],
            scope_spans: vec![ScopeSpans {
                scope: Some("opentelemetry.instrumentation.anthropic".into()),
                spans,
            }],
        }],
    }
}

fn fresh(n: usize) -> Vec<String> {
    (0..n).map(|i| format!("fresh-{i}")).collect()
}

#[test]
fn a_call_maps_to_an_event() {
    let mut root = span("eee19b7ec3c1b174", None, call());
    root.attributes.push(kv("gen_ai.response.model", text("haiku-4-5-20260101")));
    root.attributes.push(kv("gen_ai.operation.name", text("chat")));
    root.attributes
        .push(kv("gen_ai.prompt", text("[{\"role\":\"user\",\"content\":\"mail jane@example.com\"}]")));
    root.status = Some(SpanStatus { code: Some(EnumValue::Num(1)), message: None });
    let mut child = span(
        "eee19b7ec3c1b175",
        Some("eee19b7ec3c1b174"),
        vec![
            kv("gen_ai.system", text("anthropic")),
            kv("gen_ai.request.model", text("haiku-4-5")),
            kv("gen_ai.usage.prompt_tokens", number(Num::Str("10".into()))),
            kv("gen_ai.usage.completion_tokens", number(Num::Str("5".into()))),
        ],
    );
    child.start_time_unix_nano = Some(Num::Int(START + 2_000_000_000));
    child.end_time_unix_nano = Some(Num::Int(START + 2_250_000_000));
    child.status = Some(SpanStatus {
        code: Some(EnumValue::Name("STATUS_CODE_ERROR".into())),
        message: Some("upstream request timed out".into()),
    });
    let req = request(vec![root, child, span("eee19b7ec3c1b176", None, other())]);
    let spans = flatten(&req);
    let m = map_export(&spans, None, &fresh(3), now());
    assert_eq!(m.events.len(), 2, "only the GenAI spans became events");
    assert!(matches!(m.slots[2], SpanSlot::Refused(_)));

    let root = &m.events[0];
    assert_eq!(root.trace_id.as_deref(), Some("5b8efff798038103d269b633813fc60c"));
    assert!(root.parent_span_id.is_none());
    assert_eq!(
        root.id, "5b8efff798038103d269b633813fc60c-eee19b7ec3c1b174",
        "deterministic id"
    );
    assert_eq!(root.provider.as_str(), "anthropic");
    assert_eq!(root.model, "haiku-4-5", "request model drives pricing");
    let otel = root.metadata.get("otel").unwrap();
    assert_eq!(otel.get_str("response_model"), Some("haiku-4-5-20260101"));
    assert_eq!(otel.get_str("service_name"), Some("checkout-api"));
    assert_eq!((root.usage.input, root.usage.output), (10, 5));
    assert_eq!(root.latency_ms, Some(1500));
    assert_eq!(root.status, Status::Success);
    assert_eq!(root.ts.nanos, START as i128);
    assert_eq!(root.source.as_deref(), Some("otlp"));
    match root.input.as_ref().unwrap() {
        Json::Arr(v) => assert_eq!(v[0].get_str("role"), Some("user")),
        other => panic!("{other:?}"),
    }

    let child = &m.events[1];
    assert_eq!(child.parent_span_id.as_deref(), Some("eee19b7ec3c1b174"));
    assert_eq!(child.usage.input, 10, "legacy gen_ai.usage.prompt_tokens accepted");
    assert_eq!(child.usage.output, 5, "legacy gen_ai.usage.completion_tokens accepted");
    assert_eq!(child.latency_ms, Some(250));
    assert_eq!(child.status, Status::Timeout);
    assert_eq!(child.error.as_deref(), Some("upstream request timed out"));
}

#[test]
fn a_span_that_is_no_call_is_refused_with_a_code() {
    let req = request(vec![
        span("b1", None, other()),
        span("b2", None, vec![kv("gen_ai.system", text("openai"))]),
    ]);
    let spans = flatten(&req);
    let m = map_export(&spans, None, &fresh(2), now());
    assert!(m.events.is_empty());
    let code = |s: &SpanSlot| match s {
        SpanSlot::Refused(r) => r.code.clone(),
        SpanSlot::Mapped => panic!("mapped"),
    };
    assert_eq!(code(&m.slots[0]), "not_genai");
    assert_eq!(code(&m.slots[1]), "bad_request", "GenAI-shaped but no model");
    let ids: Vec<Option<String>> = vec![Some("b1".into()), Some("b2".into())];
    let r = finish(span_outcomes(&ids, &m.slots, &vec![]));
    assert_eq!((r.accepted, r.unmapped), (0, 2));
    assert_eq!(r.results[0].status, SpanState::Unmapped);
    assert_eq!(r.results[0].index, 0);
    let p = r.partial_success.unwrap();
    assert_eq!(p.rejected_spans, 2);
    assert_eq!(
        p.error_message,
        "2 of 2 span(s) not recorded (2 unmapped, 0 limit-rejected, 0 invalid) — see the `lighttrack.results` field for per-span codes"
    );
}

#[test]
fn a_replayed_export_maps_to_the_same_events() {
    let req = request(vec![span("eee19b7ec3c1b174", None, call())]);
    let spans = flatten(&req);
    let a = map_span(&spans[0], Some("p"), "fresh-a".into(), now()).unwrap();
    let later = Timestamp { nanos: now().nanos + 7 };
    let b = map_span(&spans[0], Some("p"), "fresh-b".into(), later).unwrap();
    assert_eq!(a.id, b.id);
    assert!(same_logical_event(&a, &b));
}

#[test]
fn only_a_span_without_any_id_takes_the_fresh_one() {
    let mapped = |trace: Option<&str>, id: Option<&str>, start: Option<Num>, fresh: &str| {
        let mut s = span("x", None, call());
        s.trace_id = trace.map(str::to_string);
        s.span_id = id.map(str::to_string);
        s.start_time_unix_nano = start;
        let req = request(vec![s]);
        let spans = flatten(&req);
        map_span(&spans[0], None, fresh.into(), now()).unwrap().id
    };
    assert_eq!(mapped(None, Some("  "), None, "fresh-a"), "fresh-a");
    assert_eq!(mapped(None, Some("AB12"), None, "fresh-a"), "ab12");
    assert_eq!(mapped(Some(" T1"), None, None, "fresh-a"), "T1");
    let start = || Some(Num::Str("1790000000000000001".into()));
    assert_eq!(mapped(Some("AB12"), None, start(), "fresh-a"), "ab12@1790000000000000001");
    assert_eq!(
        mapped(Some("AB12"), None, start(), "fresh-a"),
        mapped(Some("AB12"), None, start(), "fresh-b"),
        "a retried export replays"
    );
}

#[test]
fn an_opaque_id_keeps_its_case() {
    let of = |s: &str| nonempty(&Some(s.to_string()));
    assert_eq!(of("7q4Zt/8QsXQ=").as_deref(), Some("7q4Zt/8QsXQ="));
    assert_eq!(of(" Order-7 ").as_deref(), Some("Order-7"));
    assert_eq!(of("5B8EFFF798038103").as_deref(), Some("5b8efff798038103"));
    assert_eq!(of("  "), None);
}

#[test]
fn the_project_is_the_spans_then_the_resources_then_the_querys() {
    let mut req = request(vec![span("a1", None, call())]);
    let project = |req: &ExportTraceServiceRequest| {
        map_span(&flatten(req)[0], Some("query"), "f".into(), now()).unwrap().project_id
    };
    assert_eq!(project(&req), "query");
    req.resource_spans[0].resource.push(kv("lighttrack.project_id", text("resource")));
    assert_eq!(project(&req), "resource");
    req.resource_spans[0].scope_spans[0].spans[0]
        .attributes
        .push(kv("lighttrack.project_id", text("span")));
    assert_eq!(project(&req), "span");
}

#[test]
fn a_namespaced_vendor_id_is_kept() {
    let mut attributes = call();
    attributes[0] = kv("gen_ai.system", text("az.ai.anthropic"));
    let req = request(vec![span("a1", None, attributes)]);
    let ev = map_span(&flatten(&req)[0], None, "f".into(), now()).unwrap();
    assert_eq!(ev.provider, "az.ai.anthropic");
}

#[test]
fn an_empty_export_is_a_clean_success() {
    let req = ExportTraceServiceRequest { resource_spans: vec![] };
    assert!(flatten(&req).is_empty());
    let r = finish(vec![]);
    assert!(r.partial_success.is_none());
    assert_eq!(r.accepted, 0);
}

#[test]
fn a_trace_keeps_its_shape_when_other_spans_are_dropped() {
    let req = request(vec![
        span("aaaa000000000001", None, other()),
        span("bbbb000000000002", Some("aaaa000000000001"), call()),
        span("cccc000000000003", Some("bbbb000000000002"), other()),
        span("dddd000000000004", Some("cccc000000000003"), call()),
    ]);
    let spans = flatten(&req);
    let m = map_export(&spans, None, &fresh(4), now());
    let events = reparent_past_dropped_spans(&spans, m.events);
    assert_eq!(events.len(), 2, "no phantom calls were invented");
    let plan = &events[0];
    assert!(
        plan.parent_span_id.is_none() || plan.parent_span_id.as_deref() == Some("aaaa000000000001")
    );
    let summarize = &events[1];
    assert_eq!(
        summarize.parent_span_id.as_deref(),
        Some("bbbb000000000002"),
        "parent chain must survive the dropped tool span"
    );
    assert_eq!(
        summarize.metadata.get("otel").unwrap().get_str("otlp_parent_span_id"),
        Some("cccc000000000003"),
        "the exporter's own parent is recorded"
    );
}

#[test]
fn a_circle_of_parents_leads_nowhere() {
    let link = |c: &str, p: &str| Link { child: c.into(), parent: p.into() };
    let circle = vec![link("a", "b"), link("b", "a")];
    assert_eq!(nearest_mapped_ancestor("a", &circle, &vec!["z".to_string()]), None);
    let chain = vec![link("a", "b"), link("b", "c")];
    assert_eq!(
        nearest_mapped_ancestor("a", &chain, &vec!["c".to_string()]).as_deref(),
        Some("c")
    );
}

#[test]
fn span_outcomes_follow_the_batch() {
    let ids: Vec<Option<String>> = (0..4).map(|i| Some(format!("s{i}"))).collect();
    let slots = vec![
        SpanSlot::Mapped,
        SpanSlot::Refused(lighttrack_api::otlp::semconv::SpanReject::new("not_genai", "no")),
        SpanSlot::Mapped,
        SpanSlot::Mapped,
    ];
    let items = vec![
        BatchItem::Accepted {
            index: 0,
            id: "e0".into(),
            cost: None,
            duplicate: true,
            breached: vec![],
        },
        BatchItem::Rejected {
            index: 1,
            id: "e1".into(),
            code: ErrorCode::RateLimited,
            reason: "over".into(),
            breached: vec![],
        },
        BatchItem::Invalid {
            index: 2,
            id: None,
            code: ErrorCode::BadRequest,
            reason: "project_id is required".into(),
        },
    ];
    let out: Vec<SpanOutcome> = span_outcomes(&ids, &slots, &items);
    let states: Vec<&str> = out.iter().map(|o| o.status.as_str()).collect();
    assert_eq!(states, vec!["accepted", "unmapped", "rejected", "invalid"]);
    assert_eq!(out[0].id.as_deref(), Some("e0"));
    assert_eq!(out[2].id, None, "nothing was stored for a span that was turned away");
    assert_eq!(out[2].code.as_deref(), Some("rate_limited"));
    assert_eq!(out[3].reason.as_deref(), Some("project_id is required"));
    let r = finish(out);
    assert_eq!((r.accepted, r.unmapped, r.rejected, r.invalid), (1, 1, 1, 1));
    assert_eq!(r.partial_success.unwrap().rejected_spans, 3);
}

fn float(x: f64) -> Float {
    Float {
        whole: x as i128,
        nonneg: x >= 0.0,
        text: if x.is_finite() { Some(serde_json::to_string(&x).unwrap()) } else { None },
    }
}

#[test]
fn numbers_come_as_numbers_floats_or_texts() {
    assert_eq!(Num::Int(-3).as_i128(), Some(-3));
    assert_eq!(Num::Str(" 42 ".into()).as_u64(), Some(42));
    assert_eq!(Num::Str("-1".into()).as_u64(), None);
    assert_eq!(Num::Float(float(2.9)).as_u64(), Some(2));
    assert_eq!(Num::Str("x".into()).as_i128(), None);
    assert_eq!(text("17").as_u64(), Some(17));
    assert_eq!(AnyValue { double_value: Some(float(-0.5)), ..nothing() }.as_u64(), None);
    assert_eq!(AnyValue { double_value: Some(float(3.7)), ..nothing() }.as_u64(), Some(3));
    assert_eq!(text("a").as_str(), Some("a"));
    assert_eq!(number(Num::Int(1)).as_str(), None);
}

#[test]
fn values_become_plain_documents() {
    let shown = |v: &AnyValue| format!("{:?}", v.to_json());
    assert_eq!(shown(&text("plain")), format!("{:?}", Json::Str("plain".into())));
    assert_eq!(text(" {\"a\":1} ").to_json().get_u64("a"), Some(1));
    assert_eq!(text("{broken").to_json().as_str(), Some("{broken"));
    assert!(matches!(AnyValue { bool_value: Some(true), ..nothing() }.to_json(), Json::Bool(true)));
    assert_eq!(number(Num::Str("7".into())).to_json().as_u64(), Some(7));
    assert!(matches!(number(Num::Str("x".into())).to_json(), Json::Null));
    assert!(matches!(
        AnyValue { double_value: Some(float(f64::NAN)), ..nothing() }.to_json(),
        Json::Null
    ));
    let list = AnyValue {
        array_value: Some(ArrayValue { values: vec![text("a"), nothing()] }),
        ..nothing()
    };
    assert!(matches!(list.to_json(), Json::Arr(ref v) if v.len() == 2));
    let map = AnyValue {
        kvlist_value: Some(KvList {
            values: vec![kv("k", text("v")), KeyValue { key: "n".into(), value: None }],
        }),
        ..nothing()
    };
    assert_eq!(map.to_json().get_str("k"), Some("v"));
    assert!(matches!(map.to_json().get("n"), Some(Json::Null)));
}

#[test]
fn a_span_attribute_beats_its_resource_and_the_last_one_wins() {
    let mut req = request(vec![span(
        "a",
        None,
        vec![kv("k", text("one")), kv("k", text("two")), KeyValue { key: "k".into(), value: None }],
    )]);
    req.resource_spans[0].resource.push(kv("k", text("resource")));
    req.resource_spans[0].resource.push(kv("only", text("here")));
    let spans = flatten(&req);
    let fs: &FlatSpan = &spans[0];
    assert_eq!(fs.attr("k").unwrap().as_str(), Some("two"));
    assert_eq!(fs.attr("only").unwrap().as_str(), Some("here"));
    assert!(fs.attr("none").is_none());
    assert_eq!(fs.first(&vec!["none", "only", "k"]).unwrap().as_str(), Some("here"));
    assert_eq!(fs.scope, Some("opentelemetry.instrumentation.anthropic"));
}

#[test]
fn only_a_status_of_two_is_an_error() {
    let s = |c: Option<EnumValue>| SpanStatus { code: c, message: None }.is_error();
    assert!(s(Some(EnumValue::Num(2))));
    assert!(s(Some(EnumValue::Name("status_code_error".into()))));
    assert!(!s(Some(EnumValue::Num(1))));
    assert!(!s(Some(EnumValue::Name("STATUS_CODE_OK".into()))));
    assert!(!s(None));
}

#[test]
fn an_exception_explains_a_failed_call() {
    let mut s = span("a", None, call());
    s.status = Some(SpanStatus { code: Some(EnumValue::Num(2)), message: None });
    s.events = vec![SpanEvent {
        name: Some("exception".into()),
        attributes: vec![kv("exception.message", text("boom"))],
    }];
    let req = request(vec![s]);
    let ev = map_span(&flatten(&req)[0], None, "f".into(), now()).unwrap();
    assert_eq!(ev.status, Status::Error);
    assert_eq!(ev.error.as_deref(), Some("boom"));
}

#[test]
fn operations_are_told_apart_by_name() {
    assert_eq!(operation_from(None), Operation::Chat);
    assert_eq!(operation_from(Some("Embeddings")), Operation::Embedding);
    assert_eq!(operation_from(Some("text_completion")), Operation::Completion);
    assert_eq!(operation_from(Some("generate_content")), Operation::Chat);
    assert_eq!(operation_from(Some("execute_tool")), Operation::Other);
}
