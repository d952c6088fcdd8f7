//! The GenAI conventions: which attributes say what about a model call, newest first, and how a span
//! becomes an event.
use vstd::prelude::*;

use crate::clock::Timestamp;
use crate::dates::{from_nanos, nanos_instant};
use crate::event::{
    copy_money, provider_name, provider_recorded, LlmEvent, Money, Operation, Status, TokenUsage,
};
use crate::json::{
    field, member_views, obj_view, put, put_member, put_reads_back, Json, JsonView, Member,
};
use crate::otlp::proto::{
    any_json, set_to, AnyValue, EnumValue, FlatSpan, KeyValue, Num, Span, SpanEvent,
};
use crate::seqs::{first_where, first_where_is, first_where_none};
use crate::text::{
    ascii_lower, blank, chars_of, contains, dec_int, has_prefix, has_within, same, same_opt, show_i128,
    starts_with, trimmed, trimmed_empty_iff_blank,
};

verus! {

/// Why a span did not become an event.
#[derive(Debug)]
pub struct SpanReject {
    pub code: String,
    pub reason: String,
}

impl SpanReject {
    /// A refusal with a code and words.
    pub fn new(code: &str, reason: &str) -> (r: SpanReject)
        ensures
            r.code@ == code@,
            r.reason@ == reason@,
    {
        SpanReject { code: code.to_owned(), reason: reason.to_owned() }
    }
}

/// How a span without GenAI attributes is refused.
pub const NOT_GENAI_MSG: &'static str = "span carries no GenAI attributes (expected at least one `gen_ai.*` / `llm.*` key)";

/// How a GenAI span without a model is refused.
pub const NO_MODEL_MSG: &'static str = "GenAI span has no model attribute (`gen_ai.request.model` / `gen_ai.response.model`)";

// ------------------------------------------------------------------ the accepted attributes

/// Attributes that name the provider.
pub open spec fn provider_names() -> Seq<&'static str> {
    seq!["gen_ai.provider.name", "gen_ai.system", "llm.provider", "llm.system", "ai.model.provider"]
}

/// Attributes that name the model.
pub open spec fn model_names() -> Seq<&'static str> {
    seq![
        "gen_ai.request.model",
        "gen_ai.response.model",
        "llm.model_name",
        "llm.request.model",
        "ai.model.id",
    ]
}

/// Attributes that name the operation.
pub open spec fn operation_names() -> Seq<&'static str> {
    seq!["gen_ai.operation.name", "llm.operation.name", "openinference.span.kind"]
}

/// Attributes that count the tokens that went in.
pub open spec fn input_token_names() -> Seq<&'static str> {
    seq![
        "gen_ai.usage.input_tokens",
        "gen_ai.usage.prompt_tokens",
        "llm.token_count.prompt",
        "llm.usage.prompt_tokens",
        "ai.usage.promptTokens",
    ]
}

/// Attributes that count the tokens that came out.
pub open spec fn output_token_names() -> Seq<&'static str> {
    seq![
        "gen_ai.usage.output_tokens",
        "gen_ai.usage.completion_tokens",
        "llm.token_count.completion",
        "llm.usage.completion_tokens",
        "ai.usage.completionTokens",
    ]
}

/// Attributes that count the tokens read from a cache.
pub open spec fn cached_token_names() -> Seq<&'static str> {
    seq![
        "gen_ai.usage.cached_input_tokens",
        "gen_ai.usage.cache_read_input_tokens",
        "llm.token_count.prompt_details.cache_read",
    ]
}

/// Attributes that count the tokens spent on reasoning.
pub open spec fn reasoning_token_names() -> Seq<&'static str> {
    seq![
        "gen_ai.usage.reasoning_tokens",
        "gen_ai.usage.output_reasoning_tokens",
        "llm.token_count.completion_details.reasoning",
    ]
}

/// Attributes that give the cost.
pub open spec fn cost_names() -> Seq<&'static str> {
    seq!["gen_ai.usage.cost", "gen_ai.usage.total_cost", "llm.usage.total_cost"]
}

/// Attributes that hold what went in.
pub open spec fn prompt_names() -> Seq<&'static str> {
    seq!["gen_ai.input.messages", "gen_ai.prompt", "llm.prompts", "input.value"]
}

/// Attributes that hold what came out.
pub open spec fn completion_names() -> Seq<&'static str> {
    seq!["gen_ai.output.messages", "gen_ai.completion", "llm.completions", "output.value"]
}

/// Attributes that name the kind of a failure.
pub open spec fn error_type_names() -> Seq<&'static str> {
    seq!["error.type", "exception.type"]
}

// ------------------------------------------------------------------ small readings

/// The text of an optional value.
pub open spec fn text_in(v: Option<AnyValue>) -> Option<Seq<char>> {
    match v {
        Some(x) => match x.string_value {
            Some(s) => Some(s@),
            None => None,
        },
        None => None,
    }
}

fn text_of<'a>(v: Option<&'a AnyValue>) -> (r: Option<&'a str>)
    ensures
        match r {
            Some(t) => v is Some && text_in(Some(*v->0)) == Some(t@),
            None => v is None || text_in(Some(*v->0)) is None,
        },
{
    match v {
        Some(x) => x.as_str(),
        None => None,
    }
}

/// Whether `c` is a hexadecimal digit.
pub open spec fn is_hex(c: char) -> bool {
    '0' <= c <= '9' || 'a' <= c <= 'f' || 'A' <= c <= 'F'
}

/// Whether every character is a hexadecimal digit.
pub open spec fn all_hex(s: Seq<char>) -> bool {
    forall|i: int| 0 <= i < s.len() ==> is_hex(#[trigger] s[i])
}

fn is_all_hex(s: &str) -> (r: bool)
    ensures
        r == all_hex(s@),
{
    let c = chars_of(s);
    let mut i: usize = 0;
    while i < c.len()
        invariant
            c@ == s@,
            i <= c.len(),
            forall|j: int| 0 <= j < i ==> is_hex(#[trigger] c@[j]),
        decreases c.len() - i,
    {
        let x: char = c[i];
        if !(('0' <= x && x <= '9') || ('a' <= x && x <= 'f') || ('A' <= x && x <= 'F')) {
            assert(!is_hex(s@[i as int]));
            return false;
        }
        i += 1;
    }
    true
}

/// An id in canonical form: trimmed, and in lower case where it is hexadecimal. Any other id, one in
/// base64 say, is opaque and keeps its case; a blank one is none.
pub open spec fn canonical(s: Option<Seq<char>>) -> Option<Seq<char>> {
    match s {
        Some(x) => if blank(x) {
            None
        } else if all_hex(trimmed(x)) {
            Some(ascii_lower(trimmed(x)))
        } else {
            Some(trimmed(x))
        },
        None => None,
    }
}

/// The view of an optional text.
pub open spec fn opt_view(s: Option<String>) -> Option<Seq<char>> {
    match s {
        Some(x) => Some(x@),
        None => None,
    }
}

/// An id in canonical form.
pub fn nonempty(s: &Option<String>) -> (r: Option<String>)
    ensures
        opt_view(r) == canonical(opt_view(*s)),
{
    match s {
        Some(x) => {
            proof {
                trimmed_empty_iff_blank(x@);
            }
            let t = x.as_str().trim();
            if t.is_empty() {
                None
            } else if is_all_hex(t) {
                Some(t.to_ascii_lowercase())
            } else {
                Some(t.to_owned())
            }
        },
        None => None,
    }
}

/// A key of the GenAI namespaces.
pub open spec fn genai_key(k: Seq<char>) -> bool {
    has_prefix(k, "gen_ai."@) || has_prefix(k, "llm."@) || has_prefix(k, "ai.model."@)
}

/// Whether some attribute of a list is set and its key is one of the GenAI namespaces.
pub open spec fn holds_genai(kvs: Seq<KeyValue>) -> bool {
    exists|i: int| 0 <= i < kvs.len() && genai_key((#[trigger] kvs[i]).key@) && kvs[i].value is Some
}

fn any_genai(kvs: &Vec<KeyValue>) -> (r: bool)
    ensures
        r == holds_genai(kvs@),
{
    let mut i: usize = 0;
    while i < kvs.len()
        invariant
            i <= kvs.len(),
            forall|j: int|
                0 <= j < i ==> !(genai_key((#[trigger] kvs@[j]).key@) && kvs@[j].value is Some),
        decreases kvs.len() - i,
    {
        let k = kvs[i].key.as_str();
        if kvs[i].value.is_some() && (starts_with(k, "gen_ai.") || starts_with(k, "llm.")
            || starts_with(k, "ai.model.")) {
            assert(genai_key(kvs@[i as int].key@));
            return true;
        }
        i += 1;
    }
    false
}

/// Whether a span follows the GenAI conventions: one of its attributes, or its resource's, is in their
/// namespaces.
pub open spec fn genai(fs: FlatSpan) -> bool {
    holds_genai(fs.span.attributes@) || holds_genai(fs.resource@)
}

/// Whether a span follows the GenAI conventions.
pub fn is_genai(fs: &FlatSpan) -> (r: bool)
    ensures
        r == genai(*fs),
{
    any_genai(&fs.span.attributes) || any_genai(fs.resource)
}

/// The id of a span's event: trace and span id, or the one of them that is there. Where the span has no
/// id of its own, its start tells it apart from the other spans of its trace. A fresh id is taken only
/// where the exporter gave neither.
pub open spec fn id_of(span: Span, fresh: Seq<char>) -> Seq<char> {
    match (canonical(opt_view(span.trace_id)), canonical(opt_view(span.span_id))) {
        (Some(t), Some(s)) => t + "-"@ + s,
        (None, Some(s)) => s,
        (Some(t), None) => match instant_in(span.start_time_unix_nano) {
            Some(n) => t + "@"@ + dec_int(n),
            None => t,
        },
        (None, None) => fresh,
    }
}

fn event_id(span: &Span, fresh: String) -> (r: String)
    ensures
        r@ == id_of(*span, fresh@),
{
    match (nonempty(&span.trace_id), nonempty(&span.span_id)) {
        (Some(t), Some(s)) => {
            let mut out = t;
            out.append("-");
            out.append(s.as_str());
            out
        },
        (None, Some(s)) => s,
        (Some(t), None) => match read_instant(&span.start_time_unix_nano) {
            Some(at) => {
                let n = show_i128(at.nanos);
                let mut out = t;
                out.append("@");
                out.append(n.as_str());
                out
            },
            None => t,
        },
        (None, None) => fresh,
    }
}

/// The instant that a number of the envelope names.
pub open spec fn instant_in(n: Option<Num>) -> Option<int> {
    match n {
        Some(x) => match x.whole() {
            Some(i) => nanos_instant(i),
            None => None,
        },
        None => None,
    }
}

fn read_instant(n: &Option<Num>) -> (r: Option<Timestamp>)
    ensures
        match r {
            Some(t) => instant_in(*n) == Some(t.nanos as int) && t.valid(),
            None => instant_in(*n) is None,
        },
{
    match n {
        Some(x) => match x.as_i128() {
            Some(i) => from_nanos(i),
            None => None,
        },
        None => None,
    }
}

/// How long a span took, in milliseconds; nothing where it ends before it begins.
pub open spec fn latency_of(span: Span) -> Option<int> {
    match (instant_in(span.start_time_unix_nano), instant_in(span.end_time_unix_nano)) {
        (Some(s), Some(e)) => if e >= s {
            Some((e - s) / 1_000_000)
        } else {
            None
        },
        _ => None,
    }
}

/// The provider a span names, as it was sent; `unknown` where none is named.
pub open spec fn provider_in(fs: FlatSpan) -> Seq<char> {
    provider_recorded(text_in(fs.first_of(provider_names())))
}

fn provider_of(fs: &FlatSpan) -> (r: String)
    ensures
        r@ == provider_in(*fs),
{
    let keys = vec![
        "gen_ai.provider.name",
        "gen_ai.system",
        "llm.provider",
        "llm.system",
        "ai.model.provider",
    ];
    assert(keys@ =~= provider_names());
    provider_name(text_of(fs.first(&keys)))
}

/// The kind of call that an operation's name means.
pub open spec fn operation_named(raw: Option<Seq<char>>) -> Operation {
    match raw {
        None => Operation::Chat,
        Some(s) => {
            let l = ascii_lower(s);
            if has_within(l, "embed"@) {
                Operation::Embedding
            } else if has_within(l, "text_completion"@) || l == "completion"@ {
                Operation::Completion
            } else if has_within(l, "chat"@) || has_within(l, "generate_content"@) || l == "llm"@ {
                Operation::Chat
            } else {
                Operation::Other
            }
        },
    }
}

/// The kind of call that an operation's name means.
pub fn operation_from(raw: Option<&str>) -> (r: Operation)
    ensures
        r == operation_named(crate::event::text_view(raw)),
{
    match raw {
        None => Operation::Chat,
        Some(s) => {
            let l = s.to_ascii_lowercase();
            let l = l.as_str();
            if contains(l, "embed") {
                Operation::Embedding
            } else if contains(l, "text_completion") || same(l, "completion") {
                Operation::Completion
            } else if contains(l, "chat") || contains(l, "generate_content") || same(l, "llm") {
                Operation::Chat
            } else {
                Operation::Other
            }
        },
    }
}

// ------------------------------------------------------------------ how a span ended

/// A recorded exception.
pub open spec fn is_exception() -> spec_fn(SpanEvent) -> bool {
    |e: SpanEvent| e.name is Some && e.name->0@ == "exception"@
}

/// An attribute that holds an exception's message.
pub open spec fn is_message() -> spec_fn(KeyValue) -> bool {
    |k: KeyValue| k.key@ == "exception.message"@
}

/// The message of the first recorded exception.
pub open spec fn exception_text(events: Seq<SpanEvent>) -> Option<Seq<char>> {
    match first_where(events, is_exception()) {
        Some(i) => match first_where(events[i].attributes@, is_message()) {
            Some(j) => text_in(events[i].attributes@[j].value),
            None => None,
        },
        None => None,
    }
}

fn message_in(kvs: &Vec<KeyValue>) -> (r: Option<String>)
    ensures
        opt_view(r) == (match first_where(kvs@, is_message()) {
            Some(j) => text_in(kvs@[j].value),
            None => None,
        }),
{
    let mut j: usize = 0;
    while j < kvs.len()
        invariant
            j <= kvs.len(),
            forall|k: int| 0 <= k < j ==> !is_message()(#[trigger] kvs@[k]),
        decreases kvs.len() - j,
    {
        if same(kvs[j].key.as_str(), "exception.message") {
            proof {
                first_where_is(kvs@, is_message(), j as int);
            }
            return match &kvs[j].value {
                Some(v) => match v.as_str() {
                    Some(s) => Some(s.to_owned()),
                    None => None,
                },
                None => None,
            };
        }
        j += 1;
    }
    proof {
        first_where_none(kvs@, is_message());
    }
    None
}

fn exception_message(events: &Vec<SpanEvent>) -> (r: Option<String>)
    ensures
        opt_view(r) == exception_text(events@),
{
    let mut i: usize = 0;
    while i < events.len()
        invariant
            i <= events.len(),
            forall|k: int| 0 <= k < i ==> !is_exception()(#[trigger] events@[k]),
        decreases events.len() - i,
    {
        if same_opt(&events[i].name, "exception") {
            proof {
                first_where_is(events@, is_exception(), i as int);
            }
            return message_in(&events[i].attributes);
        }
        i += 1;
    }
    proof {
        first_where_none(events@, is_exception());
    }
    None
}

/// The words of a failure: the status message, else the recorded exception's, else the failure's kind.
pub open spec fn failure_text(fs: FlatSpan) -> Option<Seq<char>> {
    let own = match fs.span.status {
        Some(s) => opt_view(s.message),
        None => None,
    };
    if own is Some && own->0.len() > 0 {
        own
    } else {
        match exception_text(fs.span.events@) {
            Some(m) => Some(m),
            None => text_in(fs.first_of(error_type_names())),
        }
    }
}

/// A text, or nothing at all.
pub open spec fn or_nothing(s: Option<Seq<char>>) -> Seq<char> {
    match s {
        Some(x) => x,
        None => seq![],
    }
}

/// Whether a failure reads as a timeout.
pub open spec fn reads_as_timeout(kind: Option<Seq<char>>, words: Option<Seq<char>>) -> bool {
    let hay = ascii_lower(or_nothing(kind) + " "@ + or_nothing(words));
    has_within(hay, "timeout"@) || has_within(hay, "timed out"@)
}

/// How a span's call ended.
pub open spec fn outcome_of(fs: FlatSpan) -> (Status, Option<Seq<char>>) {
    if fs.span.status is Some && fs.span.status->0.errored() {
        let kind = text_in(fs.first_of(error_type_names()));
        let words = failure_text(fs);
        (
            if reads_as_timeout(kind, words) {
                Status::Timeout
            } else {
                Status::Error
            },
            words,
        )
    } else {
        (Status::Success, None)
    }
}

fn status_of(fs: &FlatSpan) -> (r: (Status, Option<String>))
    ensures
        (r.0, opt_view(r.1)) == outcome_of(*fs),
{
    let st = match &fs.span.status {
        Some(s) => if s.is_error() {
            s
        } else {
            return (Status::Success, None);
        },
        None => {
            return (Status::Success, None);
        },
    };
    let keys = vec!["error.type", "exception.type"];
    assert(keys@ =~= error_type_names());
    let kind = text_of(fs.first(&keys));
    let own: Option<String> = match &st.message {
        Some(m) => if m.as_str().is_empty() {
            None
        } else {
            Some(m.clone())
        },
        None => None,
    };
    let words: Option<String> = match own {
        Some(m) => Some(m),
        None => match exception_message(&fs.span.events) {
            Some(m) => Some(m),
            None => match kind {
                Some(k) => Some(k.to_owned()),
                None => None,
            },
        },
    };
    let mut hay = match kind {
        Some(k) => k.to_owned(),
        None => String::new(),
    };
    hay.append(" ");
    if let Some(w) = &words {
        hay.append(w.as_str());
    }
    proof {
        assert(hay@ =~= or_nothing(text_in(fs.first_of(error_type_names()))) + " "@ + or_nothing(
            opt_view(words),
        ));
    }
    let l = hay.as_str().to_ascii_lowercase();
    let status = if contains(l.as_str(), "timeout") || contains(l.as_str(), "timed out") {
        Status::Timeout
    } else {
        Status::Error
    };
    (status, words)
}

// ------------------------------------------------------------------ provenance

/// Members with `k` set to a text, where there is one that is not empty.
pub open spec fn put_text(m: Seq<(Seq<char>, JsonView)>, k: Seq<char>, v: Option<Seq<char>>) -> Seq<
    (Seq<char>, JsonView),
> {
    if v is Some && v->0.len() > 0 {
        put(m, k, JsonView::Str(v->0))
    } else {
        m
    }
}

fn put_text_member(m: &mut Vec<Member>, k: &str, v: Option<&str>)
    ensures
        member_views(final(m)@) == put_text(
            member_views(old(m)@),
            k@,
            crate::event::text_view(v),
        ),
{
    if let Some(t) = v {
        if !t.is_empty() {
            put_member(m, k, Json::Str(t.to_owned()));
        }
    }
}

/// What is kept of a span that an event has no field for.
pub open spec fn otel_members(fs: FlatSpan) -> Seq<(Seq<char>, JsonView)> {
    let m = match fs.value_of("gen_ai.response.finish_reasons"@) {
        Some(v) => put(seq![], "finish_reasons"@, any_json(v)),
        None => seq![],
    };
    let m = put_text(m, "system"@, text_in(fs.first_of(provider_names())));
    let m = put_text(m, "request_model"@, text_in(fs.value_of("gen_ai.request.model"@)));
    let m = put_text(m, "response_model"@, text_in(fs.value_of("gen_ai.response.model"@)));
    let m = put_text(m, "response_id"@, text_in(fs.value_of("gen_ai.response.id"@)));
    let m = put_text(m, "operation"@, text_in(fs.first_of(operation_names())));
    let m = put_text(m, "scope"@, crate::event::text_view(fs.scope));
    let m = put_text(m, "service_name"@, text_in(fs.value_of("service.name"@)));
    put_text(m, "span_name"@, opt_view(fs.span.name))
}

/// An event's metadata: what is kept of the span, under `otel`.
pub open spec fn otel_metadata(fs: FlatSpan) -> JsonView {
    JsonView::Obj(seq![("otel"@, JsonView::Obj(otel_members(fs)))])
}

fn metadata_of(fs: &FlatSpan) -> (r: Json)
    ensures
        r@ == otel_metadata(*fs),
{
    let mut m: Vec<Member> = Vec::new();
    assert(member_views(m@) =~= seq![]);
    if let Some(v) = fs.attr("gen_ai.response.finish_reasons") {
        put_member(&mut m, "finish_reasons", v.to_json());
    }
    let providers = vec![
        "gen_ai.provider.name",
        "gen_ai.system",
        "llm.provider",
        "llm.system",
        "ai.model.provider",
    ];
    assert(providers@ =~= provider_names());
    put_text_member(&mut m, "system", text_of(fs.first(&providers)));
    put_text_member(&mut m, "request_model", text_of(fs.attr("gen_ai.request.model")));
    put_text_member(&mut m, "response_model", text_of(fs.attr("gen_ai.response.model")));
    put_text_member(&mut m, "response_id", text_of(fs.attr("gen_ai.response.id")));
    let operations = vec!["gen_ai.operation.name", "llm.operation.name", "openinference.span.kind"];
    assert(operations@ =~= operation_names());
    put_text_member(&mut m, "operation", text_of(fs.first(&operations)));
    put_text_member(&mut m, "scope", fs.scope);
    put_text_member(&mut m, "service_name", text_of(fs.attr("service.name")));
    put_text_member(
        &mut m,
        "span_name",
        match &fs.span.name {
            Some(n) => Some(n.as_str()),
            None => None,
        },
    );
    proof {
        obj_view(m);
    }
    let mut out: Vec<Member> = Vec::new();
    out.push(Member { name: "otel".to_owned(), value: Json::Obj(m) });
    proof {
        obj_view(out);
        assert(member_views(out@) =~= otel_metadata(*fs)->Obj_0);
    }
    Json::Obj(out)
}

// ------------------------------------------------------------------ the mapping

/// The model a span names, trimmed; nothing where it is blank.
pub open spec fn model_in(fs: FlatSpan) -> Option<Seq<char>> {
    match text_in(fs.first_of(model_names())) {
        Some(m) => if blank(m) {
            None
        } else {
            Some(trimmed(m))
        },
        None => None,
    }
}

/// The project a span belongs to: the one it names, else the default, else none.
pub open spec fn project_in(fs: FlatSpan, default: Option<Seq<char>>) -> Seq<char> {
    match text_in(fs.value_of("lighttrack.project_id"@)) {
        Some(p) => p,
        None => or_nothing(default),
    }
}

/// The name of a span's call: the one it is given, else the span's own; nothing where that is empty.
pub open spec fn name_in(fs: FlatSpan) -> Option<Seq<char>> {
    let n = match text_in(fs.value_of("lighttrack.name"@)) {
        Some(n) => Some(n),
        None => opt_view(fs.span.name),
    };
    if n is Some && n->0.len() > 0 {
        n
    } else {
        None
    }
}

/// The natural number of an optional value.
pub open spec fn natural_in(v: Option<AnyValue>) -> Option<int> {
    match v {
        Some(x) => x.natural(),
        None => None,
    }
}

/// The natural number of an optional value, zero where there is none.
pub open spec fn count_in(v: Option<AnyValue>) -> int {
    match natural_in(v) {
        Some(n) => n,
        None => 0,
    }
}

/// The plain JSON of an optional value.
pub open spec fn payload_in(v: Option<AnyValue>) -> Option<JsonView> {
    match v {
        Some(x) => Some(any_json(x)),
        None => None,
    }
}

/// The view of an optional payload.
pub open spec fn payload_view(v: Option<Json>) -> Option<JsonView> {
    match v {
        Some(x) => Some(x@),
        None => None,
    }
}

/// An optional count read as an integer.
pub open spec fn count_view(n: Option<u64>) -> Option<int> {
    match n {
        Some(x) => Some(x as int),
        None => None,
    }
}

/// Whether `ev` is the event of a span.
pub open spec fn is_event_of(
    ev: LlmEvent,
    fs: FlatSpan,
    default_project: Option<Seq<char>>,
    fresh: Seq<char>,
    now: Timestamp,
) -> bool {
    &&& ev.id@ == id_of(*fs.span, fresh)
    &&& ev.project_id@ == project_in(fs, default_project)
    &&& opt_view(ev.trace_id) == canonical(opt_view(fs.span.trace_id))
    &&& opt_view(ev.span_id) == canonical(opt_view(fs.span.span_id))
    &&& opt_view(ev.parent_span_id) == canonical(opt_view(fs.span.parent_span_id))
    &&& ev.ts.nanos == (match instant_in(fs.span.start_time_unix_nano) {
        Some(t) => t,
        None => now.nanos as int,
    })
    &&& ev.received_at == now
    &&& ev.provider@ == provider_in(fs)
    &&& Some(ev.model@) == model_in(fs)
    &&& opt_view(ev.name) == name_in(fs)
    &&& ev.operation == operation_named(text_in(fs.first_of(operation_names())))
    &&& ev.usage.input == count_in(fs.first_of(input_token_names()))
    &&& ev.usage.output == count_in(fs.first_of(output_token_names()))
    &&& count_view(ev.usage.cached_input) == natural_in(fs.first_of(cached_token_names()))
    &&& count_view(ev.usage.reasoning) == natural_in(fs.first_of(reasoning_token_names()))
    &&& ev.cost == (match fs.first_of(cost_names()) {
        Some(v) => v.amount,
        None => None,
    })
    &&& count_view(ev.latency_ms) == latency_of(*fs.span)
    &&& (ev.status, opt_view(ev.error)) == outcome_of(fs)
    &&& payload_view(ev.input) == payload_in(fs.first_of(prompt_names()))
    &&& payload_view(ev.output) == payload_in(fs.first_of(completion_names()))
    &&& ev.tags@.len() == 0
    &&& ev.source is Some && ev.source->0@ == "otlp"@
    &&& ev.metadata@ == otel_metadata(fs)
}

fn count_of(v: Option<&AnyValue>) -> (r: Option<u64>)
    ensures
        match v {
            Some(x) => count_view(r) == x.natural(),
            None => r is None,
        },
{
    match v {
        Some(x) => x.as_u64(),
        None => None,
    }
}

fn usage_of(fs: &FlatSpan) -> (r: TokenUsage)
    ensures
        r.input == count_in(fs.first_of(input_token_names())),
        r.output == count_in(fs.first_of(output_token_names())),
        count_view(r.cached_input) == natural_in(fs.first_of(cached_token_names())),
        count_view(r.reasoning) == natural_in(fs.first_of(reasoning_token_names())),
{
    let a = vec![
        "gen_ai.usage.input_tokens",
        "gen_ai.usage.prompt_tokens",
        "llm.token_count.prompt",
        "llm.usage.prompt_tokens",
        "ai.usage.promptTokens",
    ];
    let b = vec![
        "gen_ai.usage.output_tokens",
        "gen_ai.usage.completion_tokens",
        "llm.token_count.completion",
        "llm.usage.completion_tokens",
        "ai.usage.completionTokens",
    ];
    let c = vec![
        "gen_ai.usage.cached_input_tokens",
        "gen_ai.usage.cache_read_input_tokens",
        "llm.token_count.prompt_details.cache_read",
    ];
    let d = vec![
        "gen_ai.usage.reasoning_tokens",
        "gen_ai.usage.output_reasoning_tokens",
        "llm.token_count.completion_details.reasoning",
    ];
    assert(a@ =~= input_token_names());
    assert(b@ =~= output_token_names());
    assert(c@ =~= cached_token_names());
    assert(d@ =~= reasoning_token_names());
    TokenUsage {
        input: match count_of(fs.first(&a)) {
            Some(n) => n,
            None => 0,
        },
        output: match count_of(fs.first(&b)) {
            Some(n) => n,
            None => 0,
        },
        cached_input: count_of(fs.first(&c)),
        reasoning: count_of(fs.first(&d)),
    }
}

fn model_of(fs: &FlatSpan) -> (r: Option<String>)
    ensures
        opt_view(r) == model_in(*fs),
{
    let keys = vec![
        "gen_ai.request.model",
        "gen_ai.response.model",
        "llm.model_name",
        "llm.request.model",
        "ai.model.id",
    ];
    assert(keys@ =~= model_names());
    match text_of(fs.first(&keys)) {
        Some(m) => {
            proof {
                trimmed_empty_iff_blank(m@);
            }
            let t = m.trim();
            if t.is_empty() {
                None
            } else {
                Some(t.to_owned())
            }
        },
        None => None,
    }
}

fn name_of(fs: &FlatSpan) -> (r: Option<String>)
    ensures
        opt_view(r) == name_in(*fs),
{
    let n: Option<String> = match text_of(fs.attr("lighttrack.name")) {
        Some(n) => Some(n.to_owned()),
        None => crate::text::clone_opt(&fs.span.name),
    };
    match n {
        Some(x) => if x.as_str().is_empty() {
            None
        } else {
            Some(x)
        },
        None => None,
    }
}

fn payload_of(fs: &FlatSpan, keys: &Vec<&'static str>) -> (r: Option<Json>)
    ensures
        payload_view(r) == payload_in(fs.first_of(keys@)),
{
    match fs.first(keys) {
        Some(v) => Some(v.to_json()),
        None => None,
    }
}

/// Maps a span to an event, or refuses it: a span outside the conventions is not a model call, and one
/// without a model cannot be priced. `fresh_id` is used where the exporter gave no id, and `now` where
/// it gave no start.
pub fn map_span(fs: &FlatSpan, default_project: Option<&str>, fresh_id: String, now: Timestamp) -> (r:
    Result<LlmEvent, SpanReject>)
    requires
        now.valid(),
    ensures
        !genai(*fs) ==> r is Err && r->Err_0.code@ == "not_genai"@ && r->Err_0.reason@
            == NOT_GENAI_MSG@,
        genai(*fs) && model_in(*fs) is None ==> r is Err && r->Err_0.code@ == "bad_request"@
            && r->Err_0.reason@ == NO_MODEL_MSG@,
        genai(*fs) && model_in(*fs) is Some ==> r is Ok && r->Ok_0.ts.valid() && is_event_of(
            r->Ok_0,
            *fs,
            crate::event::text_view(default_project),
            fresh_id@,
            now,
        ),
{
    if !is_genai(fs) {
        return Err(SpanReject::new("not_genai", NOT_GENAI_MSG));
    }
    let model = match model_of(fs) {
        Some(m) => m,
        None => {
            return Err(SpanReject::new("bad_request", NO_MODEL_MSG));
        },
    };
    let start = read_instant(&fs.span.start_time_unix_nano);
    let end = read_instant(&fs.span.end_time_unix_nano);
    let latency_ms: Option<u64> = match (start, end) {
        (Some(s), Some(e)) => if e.nanos >= s.nanos {
            Some(((e.nanos - s.nanos) / 1_000_000) as u64)
        } else {
            None
        },
        _ => None,
    };
    let (status, error) = status_of(fs);
    let project_id = match text_of(fs.attr("lighttrack.project_id")) {
        Some(p) => p.to_owned(),
        None => match default_project {
            Some(p) => p.to_owned(),
            None => String::new(),
        },
    };
    let operations = vec!["gen_ai.operation.name", "llm.operation.name", "openinference.span.kind"];
    let costs = vec!["gen_ai.usage.cost", "gen_ai.usage.total_cost", "llm.usage.total_cost"];
    let prompts = vec!["gen_ai.input.messages", "gen_ai.prompt", "llm.prompts", "input.value"];
    let completions = vec![
        "gen_ai.output.messages",
        "gen_ai.completion",
        "llm.completions",
        "output.value",
    ];
    assert(operations@ =~= operation_names());
    assert(costs@ =~= cost_names());
    assert(prompts@ =~= prompt_names());
    assert(completions@ =~= completion_names());
    let cost: Option<Money> = match fs.first(&costs) {
        Some(v) => copy_money(&v.amount),
        None => None,
    };
    let ev = LlmEvent {
        id: event_id(fs.span, fresh_id),
        project_id,
        trace_id: nonempty(&fs.span.trace_id),
        span_id: nonempty(&fs.span.span_id),
        parent_span_id: nonempty(&fs.span.parent_span_id),
        ts: match start {
            Some(t) => t,
            None => now,
        },
        received_at: now,
        provider: provider_of(fs),
        model,
        name: name_of(fs),
        operation: operation_from(text_of(fs.first(&operations))),
        usage: usage_of(fs),
        cost,
        latency_ms,
        status,
        error,
        input: payload_of(fs, &prompts),
        output: payload_of(fs, &completions),
        tags: Vec::new(),
        source: Some("otlp".to_owned()),
        metadata: metadata_of(fs),
    };
    Ok(ev)
}

/// Exporting a span that has a trace or a span id again maps it to the same event id, whatever fresh id
/// and clock are at hand: a retried export replays instead of duplicating.
pub proof fn ids_are_deterministic(
    a: LlmEvent,
    b: LlmEvent,
    fs: FlatSpan,
    default_project: Option<Seq<char>>,
    fresh_a: Seq<char>,
    fresh_b: Seq<char>,
    now_a: Timestamp,
    now_b: Timestamp,
)
    requires
        canonical(opt_view(fs.span.trace_id)) is Some || canonical(opt_view(fs.span.span_id)) is Some,
        is_event_of(a, fs, default_project, fresh_a, now_a),
        is_event_of(b, fs, default_project, fresh_b, now_b),
    ensures
        a.id@ == b.id@,
{
}

/// A re-exported span is the same call as the one recorded, so it is acknowledged and not counted
/// again, wherever the exporter gave a start.
pub proof fn a_reexport_is_a_replay(
    a: LlmEvent,
    b: LlmEvent,
    fs: FlatSpan,
    default_project: Option<Seq<char>>,
    fresh_a: Seq<char>,
    fresh_b: Seq<char>,
    now_a: Timestamp,
    now_b: Timestamp,
)
    requires
        instant_in(fs.span.start_time_unix_nano) is Some,
        is_event_of(a, fs, default_project, fresh_a, now_a),
        is_event_of(b, fs, default_project, fresh_b, now_b),
    ensures
        crate::event::same_call(a, b),
{
}

// ------------------------------------------------------------------ what a mapped span says

/// Whether a list of attributes gives `key` the value `v`: some entry does, and none after it sets the
/// key again.
pub open spec fn gives(kvs: Seq<KeyValue>, key: Seq<char>, v: AnyValue) -> bool {
    exists|i: int|
        0 <= i < kvs.len() && (#[trigger] kvs[i]).key@ == key && kvs[i].value == Some(v) && forall|j: int|
            i < j < kvs.len() && (#[trigger] kvs[j]).key@ == key ==> kvs[j].value is None
}

/// Whether a list of attributes gives `key` no value.
pub open spec fn gives_none(kvs: Seq<KeyValue>, key: Seq<char>) -> bool {
    forall|j: int| 0 <= j < kvs.len() && (#[trigger] kvs[j]).key@ == key ==> kvs[j].value is None
}

/// Whether a span carries `v` under `key`: among its own attributes, or among its resource's where it
/// has none of its own.
pub open spec fn carries(fs: FlatSpan, key: Seq<char>, v: AnyValue) -> bool {
    gives(fs.span.attributes@, key, v) || (gives_none(fs.span.attributes@, key) && gives(
        fs.resource@,
        key,
        v,
    ))
}

/// Whether a span carries nothing under `key`.
pub open spec fn lacks(fs: FlatSpan, key: Seq<char>) -> bool {
    gives_none(fs.span.attributes@, key) && gives_none(fs.resource@, key)
}

/// Whether `v` is what a span carries under the first of some keys that it carries anything under.
pub open spec fn carries_first(fs: FlatSpan, keys: Seq<Seq<char>>, v: Option<AnyValue>) -> bool {
    match v {
        Some(x) => exists|i: int|
            0 <= i < keys.len() && carries(fs, #[trigger] keys[i], x) && forall|j: int|
                0 <= j < i ==> lacks(fs, #[trigger] keys[j]),
        None => forall|j: int| 0 <= j < keys.len() ==> lacks(fs, #[trigger] keys[j]),
    }
}

proof fn set_to_gives(kvs: Seq<KeyValue>, key: Seq<char>, v: AnyValue)
    ensures
        gives(kvs, key, v) ==> set_to(kvs, key) == Some(v),
        gives_none(kvs, key) ==> set_to(kvs, key) is None,
    decreases kvs.len(),
{
    if kvs.len() > 0 {
        let d = kvs.drop_last();
        set_to_gives(d, key, v);
        if gives_none(kvs, key) {
            assert(kvs.last() == kvs[kvs.len() - 1]);
            assert forall|j: int| 0 <= j < d.len() && (#[trigger] d[j]).key@ == key implies d[j].value is None by {
                assert(d[j] == kvs[j]);
            }
        }
        if gives(kvs, key, v) {
            let i = choose|i: int|
                0 <= i < kvs.len() && (#[trigger] kvs[i]).key@ == key && kvs[i].value == Some(v)
                    && forall|j: int| i < j < kvs.len() && (#[trigger] kvs[j]).key@ == key ==> kvs[j].value is None;
            if i < d.len() {
                assert(d[i] == kvs[i]);
                assert(kvs.last() == kvs[kvs.len() - 1]);
                assert forall|j: int| i < j < d.len() && (#[trigger] d[j]).key@ == key implies d[j].value is None by {
                    assert(d[j] == kvs[j]);
                }
                assert(gives(d, key, v));
            }
        }
    }
}

proof fn value_of_carries(fs: FlatSpan, key: Seq<char>, v: AnyValue)
    ensures
        carries(fs, key, v) ==> fs.value_of(key) == Some(v),
        lacks(fs, key) ==> fs.value_of(key) is None,
{
    set_to_gives(fs.span.attributes@, key, v);
    set_to_gives(fs.resource@, key, v);
}

proof fn first_of_carries(fs: FlatSpan, keys: Seq<&'static str>, names: Seq<Seq<char>>, v: Option<AnyValue>)
    requires
        names.len() == keys.len(),
        forall|i: int| 0 <= i < keys.len() ==> (#[trigger] keys[i])@ == names[i],
        carries_first(fs, names, v),
    ensures
        fs.first_of(keys) == v,
    decreases keys.len(),
{
    if keys.len() > 0 {
        let n = names.skip(1);
        let k = keys.skip(1);
        assert forall|i: int| 0 <= i < k.len() implies (#[trigger] k[i])@ == n[i] by {
            assert(k[i] == keys[i + 1]);
        }
        assert(keys[0]@ == names[0]);
        match v {
            Some(x) => {
                let i = choose|i: int|
                    0 <= i < names.len() && carries(fs, #[trigger] names[i], x) && forall|j: int|
                        0 <= j < i ==> lacks(fs, #[trigger] names[j]);
                if i == 0 {
                    value_of_carries(fs, names[0], x);
                } else {
                    value_of_carries(fs, names[0], x);
                    assert(lacks(fs, names[0]));
                    assert(carries(fs, n[i - 1], x));
                    assert forall|j: int| 0 <= j < i - 1 implies lacks(fs, #[trigger] n[j]) by {
                        assert(n[j] == names[j + 1]);
                    }
                    first_of_carries(fs, k, n, v);
                }
            },
            None => {
                assert(lacks(fs, names[0]));
                set_to_gives(fs.span.attributes@, names[0], arbitrary());
                set_to_gives(fs.resource@, names[0], arbitrary());
                assert forall|j: int| 0 <= j < n.len() implies lacks(fs, #[trigger] n[j]) by {
                    assert(n[j] == names[j + 1]);
                }
                first_of_carries(fs, k, n, v);
            },
        }
    }
}

/// What went in is read from the prompt attributes and what came out from the completion attributes,
/// the newest name first, and a payload whose attributes the span does not carry is absent.
pub proof fn payloads_are_read_from_their_own_attributes(
    fs: &FlatSpan,
    default_project: Option<&str>,
    fresh_id: String,
    now: Timestamp,
    ev: LlmEvent,
    prompt: Option<AnyValue>,
    completion: Option<AnyValue>,
)
    requires
        now.valid(),
        call_ensures(map_span, (fs, default_project, fresh_id, now), Ok(ev)),
        carries_first(
            *fs,
            seq!["gen_ai.input.messages"@, "gen_ai.prompt"@, "llm.prompts"@, "input.value"@],
            prompt,
        ),
        carries_first(
            *fs,
            seq!["gen_ai.output.messages"@, "gen_ai.completion"@, "llm.completions"@, "output.value"@],
            completion,
        ),
    ensures
        prompt is None ==> ev.input is None,
        prompt is Some ==> ev.input is Some && ev.input->0@ == any_json(prompt->0),
        completion is None ==> ev.output is None,
        completion is Some ==> ev.output is Some && ev.output->0@ == any_json(completion->0),
{
    first_of_carries(
        *fs,
        prompt_names(),
        seq!["gen_ai.input.messages"@, "gen_ai.prompt"@, "llm.prompts"@, "input.value"@],
        prompt,
    );
    first_of_carries(
        *fs,
        completion_names(),
        seq!["gen_ai.output.messages"@, "gen_ai.completion"@, "llm.completions"@, "output.value"@],
        completion,
    );
}

/// Each count of tokens is read from its own attributes, the newest name first. Tokens in and out that
/// are not counted are none; those from a cache or spent on reasoning are unknown.
pub proof fn tokens_are_read_from_their_own_attributes(
    fs: &FlatSpan,
    default_project: Option<&str>,
    fresh_id: String,
    now: Timestamp,
    ev: LlmEvent,
    input: Option<AnyValue>,
    output: Option<AnyValue>,
    cached: Option<AnyValue>,
    reasoning: Option<AnyValue>,
)
    requires
        now.valid(),
        call_ensures(map_span, (fs, default_project, fresh_id, now), Ok(ev)),
        carries_first(
            *fs,
            seq![
                "gen_ai.usage.input_tokens"@,
                "gen_ai.usage.prompt_tokens"@,
                "llm.token_count.prompt"@,
                "llm.usage.prompt_tokens"@,
                "ai.usage.promptTokens"@,
            ],
            input,
        ),
        carries_first(
            *fs,
            seq![
                "gen_ai.usage.output_tokens"@,
                "gen_ai.usage.completion_tokens"@,
                "llm.token_count.completion"@,
                "llm.usage.completion_tokens"@,
                "ai.usage.completionTokens"@,
            ],
            output,
        ),
        carries_first(
            *fs,
            seq![
                "gen_ai.usage.cached_input_tokens"@,
                "gen_ai.usage.cache_read_input_tokens"@,
                "llm.token_count.prompt_details.cache_read"@,
            ],
            cached,
        ),
        carries_first(
            *fs,
            seq![
                "gen_ai.usage.reasoning_tokens"@,
                "gen_ai.usage.output_reasoning_tokens"@,
                "llm.token_count.completion_details.reasoning"@,
            ],
            reasoning,
        ),
    ensures
        ev.usage.input == (if input is Some && input->0.natural() is Some {
            input->0.natural()->0
        } else {
            0
        }),
        ev.usage.output == (if output is Some && output->0.natural() is Some {
            output->0.natural()->0
        } else {
            0
        }),
        ev.usage.cached_input is Some <==> cached is Some && cached->0.natural() is Some,
        ev.usage.cached_input is Some ==> cached->0.natural() == Some(ev.usage.cached_input->0 as int),
        ev.usage.reasoning is Some <==> reasoning is Some && reasoning->0.natural() is Some,
        ev.usage.reasoning is Some ==> reasoning->0.natural() == Some(ev.usage.reasoning->0 as int),
{
    first_of_carries(
        *fs,
        input_token_names(),
        seq![
            "gen_ai.usage.input_tokens"@,
            "gen_ai.usage.prompt_tokens"@,
            "llm.token_count.prompt"@,
            "llm.usage.prompt_tokens"@,
            "ai.usage.promptTokens"@,
        ],
        input,
    );
    first_of_carries(
        *fs,
        output_token_names(),
        seq![
            "gen_ai.usage.output_tokens"@,
            "gen_ai.usage.completion_tokens"@,
            "llm.token_count.completion"@,
            "llm.usage.completion_tokens"@,
            "ai.usage.completionTokens"@,
        ],
        output,
    );
    first_of_carries(
        *fs,
        cached_token_names(),
        seq![
            "gen_ai.usage.cached_input_tokens"@,
            "gen_ai.usage.cache_read_input_tokens"@,
            "llm.token_count.prompt_details.cache_read"@,
        ],
        cached,
    );
    first_of_carries(
        *fs,
        reasoning_token_names(),
        seq![
            "gen_ai.usage.reasoning_tokens"@,
            "gen_ai.usage.output_reasoning_tokens"@,
            "llm.token_count.completion_details.reasoning"@,
        ],
        reasoning,
    );
}

/// Whether `s` is the text of an optional value.
pub open spec fn says(v: Option<AnyValue>, s: Option<Seq<char>>) -> bool {
    if v is Some && v->0.string_value is Some {
        s == Some(v->0.string_value->0@)
    } else {
        s is None
    }
}

/// Who was called, with which model, what for, at what cost: each is read from its own attributes, the
/// newest name first. The provider keeps the words it was sent in.
pub proof fn a_call_is_described_by_its_own_attributes(
    fs: &FlatSpan,
    default_project: Option<&str>,
    fresh_id: String,
    now: Timestamp,
    ev: LlmEvent,
    provider: Option<AnyValue>,
    model: Option<AnyValue>,
    operation: Option<AnyValue>,
    cost: Option<AnyValue>,
)
    requires
        now.valid(),
        call_ensures(map_span, (fs, default_project, fresh_id, now), Ok(ev)),
        carries_first(
            *fs,
            seq![
                "gen_ai.provider.name"@,
                "gen_ai.system"@,
                "llm.provider"@,
                "llm.system"@,
                "ai.model.provider"@,
            ],
            provider,
        ),
        carries_first(
            *fs,
            seq![
                "gen_ai.request.model"@,
                "gen_ai.response.model"@,
                "llm.model_name"@,
                "llm.request.model"@,
                "ai.model.id"@,
            ],
            model,
        ),
        carries_first(
            *fs,
            seq!["gen_ai.operation.name"@, "llm.operation.name"@, "openinference.span.kind"@],
            operation,
        ),
        carries_first(
            *fs,
            seq!["gen_ai.usage.cost"@, "gen_ai.usage.total_cost"@, "llm.usage.total_cost"@],
            cost,
        ),
    ensures
        says(provider, Some(ev.provider@)) || (ev.provider@ == "unknown"@ && forall|p: Seq<char>|
            says(provider, Some(p)) ==> blank(p)),
        model is Some && model->0.string_value is Some && !blank(model->0.string_value->0@)
            && ev.model@ == trimmed(model->0.string_value->0@),
        says(operation, None) ==> ev.operation == Operation::Chat,
        forall|o: Seq<char>| #[trigger]
            says(operation, Some(o)) ==> {
                let l = ascii_lower(o);
                &&& has_within(l, "embed"@) <==> ev.operation == Operation::Embedding
                &&& l == "completion"@ || has_within(l, "text_completion"@) ==> ev.operation
                    == Operation::Completion || ev.operation == Operation::Embedding
                &&& ev.operation == Operation::Completion ==> l == "completion"@ || has_within(
                    l,
                    "text_completion"@,
                )
                &&& ev.operation == Operation::Chat ==> has_within(l, "chat"@) || has_within(
                    l,
                    "generate_content"@,
                ) || l == "llm"@
                &&& ev.operation == Operation::Other ==> !has_within(l, "chat"@) && !has_within(
                    l,
                    "generate_content"@,
                ) && l != "llm"@
            },
        cost is None ==> ev.cost is None,
        cost is Some ==> ev.cost == cost->0.amount,
{
    first_of_carries(
        *fs,
        provider_names(),
        seq![
            "gen_ai.provider.name"@,
            "gen_ai.system"@,
            "llm.provider"@,
            "llm.system"@,
            "ai.model.provider"@,
        ],
        provider,
    );
    first_of_carries(
        *fs,
        model_names(),
        seq![
            "gen_ai.request.model"@,
            "gen_ai.response.model"@,
            "llm.model_name"@,
            "llm.request.model"@,
            "ai.model.id"@,
        ],
        model,
    );
    first_of_carries(
        *fs,
        operation_names(),
        seq!["gen_ai.operation.name"@, "llm.operation.name"@, "openinference.span.kind"@],
        operation,
    );
    first_of_carries(
        *fs,
        cost_names(),
        seq!["gen_ai.usage.cost"@, "gen_ai.usage.total_cost"@, "llm.usage.total_cost"@],
        cost,
    );
}

/// A call lands in the project that its span names, else in the default one; it goes by the name that it
/// is given, else by its span's; and it is marked as having come this way.
pub proof fn a_call_is_placed_by_its_span(
    fs: &FlatSpan,
    default_project: Option<&str>,
    fresh_id: String,
    now: Timestamp,
    ev: LlmEvent,
    project: Option<AnyValue>,
    name: Option<AnyValue>,
)
    requires
        now.valid(),
        call_ensures(map_span, (fs, default_project, fresh_id, now), Ok(ev)),
        carries_first(*fs, seq!["lighttrack.project_id"@], project),
        carries_first(*fs, seq!["lighttrack.name"@], name),
    ensures
        says(project, Some(ev.project_id@)) || says(project, None),
        says(project, None) && default_project is Some ==> ev.project_id@ == default_project->0@,
        says(project, None) && default_project is None ==> ev.project_id@.len() == 0,
        forall|n: Seq<char>| #[trigger]
            says(name, Some(n)) && n.len() > 0 ==> ev.name is Some && ev.name->0@ == n,
        says(name, None) && fs.span.name is Some && fs.span.name->0@.len() > 0 ==> ev.name is Some
            && ev.name->0@ == fs.span.name->0@,
        says(name, None) && fs.span.name is None ==> ev.name is None,
        ev.name is Some ==> ev.name->0@.len() > 0,
        ev.source is Some && ev.source->0@ == "otlp"@,
        ev.tags@.len() == 0,
{
    if project is Some {
        value_of_carries(*fs, seq!["lighttrack.project_id"@][0], project->0);
    } else {
        assert(lacks(*fs, seq!["lighttrack.project_id"@][0]));
        value_of_carries(*fs, "lighttrack.project_id"@, arbitrary());
    }
    if name is Some {
        value_of_carries(*fs, seq!["lighttrack.name"@][0], name->0);
    } else {
        assert(lacks(*fs, seq!["lighttrack.name"@][0]));
        value_of_carries(*fs, "lighttrack.name"@, arbitrary());
    }
}

/// Whether `r` is the id `sent` in its one form: a blank one is none, one of hexadecimal digits alone is
/// put into lower case, any other is only trimmed.
pub open spec fn one_form(sent: Option<String>, r: Option<String>) -> bool {
    if sent is None || blank(sent->0@) {
        r is None
    } else {
        let t = trimmed(sent->0@);
        &&& r is Some
        &&& (forall|i: int|
            0 <= i < t.len() ==> ('0' <= #[trigger] t[i] <= '9' || 'a' <= t[i] <= 'f' || 'A' <= t[i] <= 'F'))
            ==> r->0@ == ascii_lower(t)
        &&& (exists|i: int|
            0 <= i < t.len() && !('0' <= #[trigger] t[i] <= '9' || 'a' <= t[i] <= 'f' || 'A' <= t[i] <= 'F'))
            ==> r->0@ == t
    }
}

/// A span keeps its place in its trace: each of its three references is the one of the same name, in its
/// one form, and its event's id is made of its trace and span ids.
pub proof fn references_keep_their_names(
    fs: &FlatSpan,
    default_project: Option<&str>,
    fresh_id: String,
    now: Timestamp,
    ev: LlmEvent,
)
    requires
        now.valid(),
        call_ensures(map_span, (fs, default_project, fresh_id, now), Ok(ev)),
    ensures
        one_form(fs.span.trace_id, ev.trace_id),
        one_form(fs.span.span_id, ev.span_id),
        one_form(fs.span.parent_span_id, ev.parent_span_id),
        ev.trace_id is Some && ev.span_id is Some ==> ev.id@ == ev.trace_id->0@ + "-"@ + ev.span_id->0@,
        ev.trace_id is None && ev.span_id is Some ==> ev.id@ == ev.span_id->0@,
        ev.trace_id is Some && ev.span_id is None && instant_in(fs.span.start_time_unix_nano) is Some
            ==> ev.id@ == ev.trace_id->0@ + "@"@ + dec_int(ev.ts.nanos as int),
        ev.trace_id is Some && ev.span_id is None && instant_in(fs.span.start_time_unix_nano) is None
            ==> ev.id@ == ev.trace_id->0@,
        ev.trace_id is None && ev.span_id is None ==> ev.id@ == fresh_id@,
{
    canonical_forms(fs.span.trace_id, ev.trace_id);
    canonical_forms(fs.span.span_id, ev.span_id);
    canonical_forms(fs.span.parent_span_id, ev.parent_span_id);
}

proof fn canonical_forms(sent: Option<String>, r: Option<String>)
    requires
        opt_view(r) == canonical(opt_view(sent)),
    ensures
        one_form(sent, r),
{
    if sent is Some && !blank(sent->0@) {
        let t = trimmed(sent->0@);
        if exists|i: int|
            0 <= i < t.len() && !('0' <= #[trigger] t[i] <= '9' || 'a' <= t[i] <= 'f' || 'A' <= t[i]
                <= 'F') {
            let i = choose|i: int|
                0 <= i < t.len() && !('0' <= #[trigger] t[i] <= '9' || 'a' <= t[i] <= 'f' || 'A' <= t[i]
                    <= 'F');
            assert(!is_hex(t[i]));
        } else {
            assert forall|i: int| 0 <= i < t.len() implies is_hex(#[trigger] t[i]) by {}
        }
    }
}

/// A call is dated by its span's start, and took the time from there to the end, in whole milliseconds.
/// A span without a start is dated by the clock, and one that ends before it begins took no known time.
pub proof fn a_call_is_timed_by_its_span(
    fs: &FlatSpan,
    default_project: Option<&str>,
    fresh_id: String,
    now: Timestamp,
    ev: LlmEvent,
    start: i64,
    end: i64,
)
    requires
        now.valid(),
        call_ensures(map_span, (fs, default_project, fresh_id, now), Ok(ev)),
    ensures
        ev.received_at == now,
        fs.span.start_time_unix_nano is None ==> ev.ts == now && ev.latency_ms is None,
        fs.span.end_time_unix_nano is None ==> ev.latency_ms is None,
        fs.span.start_time_unix_nano == Some(Num::Int(start)) ==> ev.ts.nanos == start,
        fs.span.start_time_unix_nano == Some(Num::Int(start)) && fs.span.end_time_unix_nano == Some(
            Num::Int(end),
        ) && end < start ==> ev.latency_ms is None,
        fs.span.start_time_unix_nano == Some(Num::Int(start)) && fs.span.end_time_unix_nano == Some(
            Num::Int(end),
        ) && start <= end ==> ev.latency_ms is Some && ev.latency_ms->0 * 1_000_000 <= end - start
            < ev.latency_ms->0 * 1_000_000 + 1_000_000,
{
}

/// A call failed exactly where its span's status is the error's number or name; a failure that speaks of
/// a timeout, in its kind or in its words, is one; and the words are the status message where there is
/// one.
pub proof fn a_call_ends_as_its_span_did(
    fs: &FlatSpan,
    default_project: Option<&str>,
    fresh_id: String,
    now: Timestamp,
    ev: LlmEvent,
    kind: Option<AnyValue>,
    number: i64,
    word: String,
)
    requires
        now.valid(),
        call_ensures(map_span, (fs, default_project, fresh_id, now), Ok(ev)),
        carries_first(*fs, seq!["error.type"@, "exception.type"@], kind),
    ensures
        fs.span.status is None || fs.span.status->0.code is None ==> ev.status == Status::Success,
        fs.span.status is Some && fs.span.status->0.code == Some(EnumValue::Num(number)) ==> (ev.status
            == Status::Success <==> number != 2),
        fs.span.status is Some && fs.span.status->0.code == Some(EnumValue::Name(word)) ==> (ev.status
            == Status::Success <==> ascii_lower(word@) != "status_code_error"@),
        ev.status == Status::Success ==> ev.error is None,
        ev.status != Status::Success && fs.span.status->0.message is Some
            && fs.span.status->0.message->0@.len() > 0 ==> ev.error is Some && ev.error->0@
            == fs.span.status->0.message->0@,
        ev.status != Status::Success && fs.span.status->0.message is None && fs.span.events@.len() == 0
            ==> (says(kind, None) && ev.error is None) || (ev.error is Some && says(
            kind,
            Some(ev.error->0@),
        )),
        ev.status != Status::Success ==> (ev.status == Status::Timeout <==> {
            let k = if kind is Some && kind->0.string_value is Some {
                kind->0.string_value->0@
            } else {
                seq![]
            };
            let w = if ev.error is Some {
                ev.error->0@
            } else {
                seq![]
            };
            let l = ascii_lower(k + " "@ + w);
            has_within(l, "timeout"@) || has_within(l, "timed out"@)
        }),
{
    first_of_carries(*fs, error_type_names(), seq!["error.type"@, "exception.type"@], kind);
}

/// A span is taken for a model call exactly where it or its resource carries an attribute of the
/// `gen_ai.`, `llm.` or `ai.model.` names; a call that names no model is refused.
pub proof fn only_model_calls_are_mapped(
    fs: &FlatSpan,
    default_project: Option<&str>,
    fresh_id: String,
    now: Timestamp,
    r: Result<LlmEvent, SpanReject>,
    model: Option<AnyValue>,
    k: Seq<char>,
    rest: Seq<char>,
    v: AnyValue,
)
    requires
        now.valid(),
        call_ensures(map_span, (fs, default_project, fresh_id, now), r),
        carries_first(
            *fs,
            seq![
                "gen_ai.request.model"@,
                "gen_ai.response.model"@,
                "llm.model_name"@,
                "llm.request.model"@,
                "ai.model.id"@,
            ],
            model,
        ),
    ensures
        (forall|i: int|
            0 <= i < fs.span.attributes@.len() ==> !has_prefix(
                (#[trigger] fs.span.attributes@[i]).key@,
                "gen_ai."@,
            ) && !has_prefix(fs.span.attributes@[i].key@, "llm."@) && !has_prefix(
                fs.span.attributes@[i].key@,
                "ai.model."@,
            )) && fs.resource@.len() == 0 ==> r is Err && r->Err_0.code@ == "not_genai"@,
        (k == "gen_ai."@ || k == "llm."@ || k == "ai.model."@) && carries(*fs, k + rest, v) ==> {
            &&& r is Err ==> r->Err_0.code@ == "bad_request"@ && (says(model, None) || blank(
                model->0.string_value->0@,
            ))
            &&& says(model, None) ==> r is Err
            &&& !says(model, None) && blank(model->0.string_value->0@) ==> r is Err
        },
{
    first_of_carries(
        *fs,
        model_names(),
        seq![
            "gen_ai.request.model"@,
            "gen_ai.response.model"@,
            "llm.model_name"@,
            "llm.request.model"@,
            "ai.model.id"@,
        ],
        model,
    );
    if (k == "gen_ai."@ || k == "llm."@ || k == "ai.model."@) && carries(*fs, k + rest, v) {
        assert((k + rest).take(k.len() as int) =~= k);
        assert(genai_key(k + rest));
    }
}

proof fn put_text_reads(m: Seq<(Seq<char>, JsonView)>, k: Seq<char>, v: Option<Seq<char>>, other: Seq<char>)
    ensures
        v is Some && v->0.len() > 0 ==> field(JsonView::Obj(put_text(m, k, v)), k) == Some(
            JsonView::Str(v->0),
        ),
        !(v is Some && v->0.len() > 0) ==> put_text(m, k, v) == m,
        other != k ==> field(JsonView::Obj(put_text(m, k, v)), other) == field(JsonView::Obj(m), other),
{
    if v is Some && v->0.len() > 0 {
        put_reads_back(m, k, JsonView::Str(v->0), other);
    }
}

/// Whether a member holds a text, where there is one that is not empty, and is not there otherwise.
pub open spec fn holds_text(v: JsonView, k: Seq<char>, s: Option<Seq<char>>) -> bool {
    if s is Some && s->0.len() > 0 {
        field(v, k) == Some(JsonView::Str(s->0))
    } else {
        field(v, k) is None
    }
}

/// What an event has no field for is kept under `otel`, each piece under its own name.
pub proof fn provenance_is_kept_under_its_own_names(
    fs: &FlatSpan,
    default_project: Option<&str>,
    fresh_id: String,
    now: Timestamp,
    ev: LlmEvent,
    system: Option<AnyValue>,
    operation: Option<AnyValue>,
    request: Option<AnyValue>,
    response: Option<AnyValue>,
    id: Option<AnyValue>,
    service: Option<AnyValue>,
    reasons: Option<AnyValue>,
)
    requires
        now.valid(),
        call_ensures(map_span, (fs, default_project, fresh_id, now), Ok(ev)),
        carries_first(
            *fs,
            seq![
                "gen_ai.provider.name"@,
                "gen_ai.system"@,
                "llm.provider"@,
                "llm.system"@,
                "ai.model.provider"@,
            ],
            system,
        ),
        carries_first(
            *fs,
            seq!["gen_ai.operation.name"@, "llm.operation.name"@, "openinference.span.kind"@],
            operation,
        ),
        carries_first(*fs, seq!["gen_ai.request.model"@], request),
        carries_first(*fs, seq!["gen_ai.response.model"@], response),
        carries_first(*fs, seq!["gen_ai.response.id"@], id),
        carries_first(*fs, seq!["service.name"@], service),
        carries_first(*fs, seq!["gen_ai.response.finish_reasons"@], reasons),
    ensures
        field(ev.metadata@, "otel"@) is Some,
        ({
            let o = field(ev.metadata@, "otel"@)->0;
            &&& holds_text(o, "system"@, text_in(system))
            &&& holds_text(o, "operation"@, text_in(operation))
            &&& holds_text(o, "request_model"@, text_in(request))
            &&& holds_text(o, "response_model"@, text_in(response))
            &&& holds_text(o, "response_id"@, text_in(id))
            &&& holds_text(o, "service_name"@, text_in(service))
            &&& holds_text(o, "scope"@, crate::event::text_view(fs.scope))
            &&& holds_text(o, "span_name"@, opt_view(fs.span.name))
            &&& reasons is Some ==> field(o, "finish_reasons"@) == Some(any_json(reasons->0))
            &&& reasons is None ==> field(o, "finish_reasons"@) is None
        }),
{
    let f = *fs;
    first_of_carries(
        f,
        provider_names(),
        seq![
            "gen_ai.provider.name"@,
            "gen_ai.system"@,
            "llm.provider"@,
            "llm.system"@,
            "ai.model.provider"@,
        ],
        system,
    );
    first_of_carries(
        f,
        operation_names(),
        seq!["gen_ai.operation.name"@, "llm.operation.name"@, "openinference.span.kind"@],
        operation,
    );
    one_carried(f, "gen_ai.request.model"@, request);
    one_carried(f, "gen_ai.response.model"@, response);
    one_carried(f, "gen_ai.response.id"@, id);
    one_carried(f, "service.name"@, service);
    one_carried(f, "gen_ai.response.finish_reasons"@, reasons);
    let s = seq![("otel"@, JsonView::Obj(otel_members(f)))];
    first_where_is(s, crate::json::named("otel"@), 0);
    otel_names_differ();
    let m0 = match reasons {
        Some(v) => put(seq![], "finish_reasons"@, any_json(v)),
        None => seq![],
    };
    first_where_none(Seq::<(Seq<char>, JsonView)>::empty(), crate::json::named("finish_reasons"@));
    let ks = seq![
        "system"@,
        "request_model"@,
        "response_model"@,
        "response_id"@,
        "operation"@,
        "scope"@,
        "service_name"@,
        "span_name"@,
        "finish_reasons"@,
    ];
    let vs = seq![
        text_in(system),
        text_in(request),
        text_in(response),
        text_in(id),
        text_in(operation),
        crate::event::text_view(fs.scope),
        text_in(service),
        opt_view(fs.span.name),
    ];
    let m1 = put_text(m0, ks[0], vs[0]);
    let m2 = put_text(m1, ks[1], vs[1]);
    let m3 = put_text(m2, ks[2], vs[2]);
    let m4 = put_text(m3, ks[3], vs[3]);
    let m5 = put_text(m4, ks[4], vs[4]);
    let m6 = put_text(m5, ks[5], vs[5]);
    let m7 = put_text(m6, ks[6], vs[6]);
    let m8 = put_text(m7, ks[7], vs[7]);
    assert(otel_members(f) == m8);
    assert forall|x: int| 0 <= x < 9 implies {
        let k = #[trigger] ks[x];
        &&& x < 8 ==> holds_text(JsonView::Obj(m8), k, vs[x])
        &&& x == 8 ==> field(JsonView::Obj(m8), k) == field(JsonView::Obj(m0), k)
    } by {
        let k = ks[x];
        put_reads_back(seq![], "finish_reasons"@, any_json(reasons->0), k);
        first_where_none(Seq::<(Seq<char>, JsonView)>::empty(), crate::json::named(k));
        put_text_reads(m0, ks[0], vs[0], k);
        put_text_reads(m1, ks[1], vs[1], k);
        put_text_reads(m2, ks[2], vs[2], k);
        put_text_reads(m3, ks[3], vs[3], k);
        put_text_reads(m4, ks[4], vs[4], k);
        put_text_reads(m5, ks[5], vs[5], k);
        put_text_reads(m6, ks[6], vs[6], k);
        put_text_reads(m7, ks[7], vs[7], k);
    }
    assert(ks[0] == "system"@ && ks[1] == "request_model"@ && ks[2] == "response_model"@);
    assert(ks[3] == "response_id"@ && ks[4] == "operation"@ && ks[5] == "scope"@);
    assert(ks[6] == "service_name"@ && ks[7] == "span_name"@ && ks[8] == "finish_reasons"@);
    put_reads_back(seq![], "finish_reasons"@, any_json(reasons->0), "finish_reasons"@);
}

proof fn one_carried(fs: FlatSpan, k: Seq<char>, v: Option<AnyValue>)
    requires
        carries_first(fs, seq![k], v),
    ensures
        fs.value_of(k) == v,
{
    if v is Some {
        value_of_carries(fs, k, v->0);
    } else {
        assert(lacks(fs, seq![k][0]));
        value_of_carries(fs, k, arbitrary());
    }
}

proof fn otel_names_differ()
    ensures
        seq![
            "system"@,
            "request_model"@,
            "response_model"@,
            "response_id"@,
            "operation"@,
            "scope"@,
            "service_name"@,
            "span_name"@,
            "finish_reasons"@,
        ].no_duplicates(),
{
    reveal_strlit("system");
    reveal_strlit("request_model");
    reveal_strlit("response_model");
    reveal_strlit("response_id");
    reveal_strlit("operation");
    reveal_strlit("scope");
    reveal_strlit("service_name");
    reveal_strlit("span_name");
    reveal_strlit("finish_reasons");
    let s = seq![
        "system"@,
        "request_model"@,
        "response_model"@,
        "response_id"@,
        "operation"@,
        "scope"@,
        "service_name"@,
        "span_name"@,
        "finish_reasons"@,
    ];
    assert(s[4][0] == 'o' && s[7][0] == 's');
    assert(s[2][0] == 'r' && s[8][0] == 'f');
    assert(s[0].len() == 6 && s[1].len() == 13 && s[2].len() == 14 && s[3].len() == 11);
    assert(s[4].len() == 9 && s[5].len() == 5 && s[6].len() == 12 && s[7].len() == 9);
    assert(s[8].len() == 14);
    assert forall|i: int, j: int| 0 <= i < 9 && 0 <= j < 9 && i != j implies s[i] != s[j] by {
        if s[i] == s[j] {
            assert(s[i].len() == s[j].len());
            assert((i == 2 && j == 8) || (i == 8 && j == 2) || (i == 4 && j == 7) || (i == 7 && j == 4));
            assert(s[i][0] == s[j][0]);
        }
    }
}

/// A span is a model call exactly where it or its resource carries a set attribute of one of the three
/// conventions.
pub proof fn a_model_call_is_known_by_its_attributes(fs: &FlatSpan, r: bool)
    requires
        call_ensures(is_genai, (fs,), r),
    ensures
        r <==> (exists|i: int|
            0 <= i < fs.span.attributes@.len() && (#[trigger] fs.span.attributes@[i]).value is Some && (
            has_prefix(fs.span.attributes@[i].key@, "gen_ai."@) || has_prefix(
                fs.span.attributes@[i].key@,
                "llm."@,
            ) || has_prefix(fs.span.attributes@[i].key@, "ai.model."@))) || (exists|i: int|
            0 <= i < fs.resource@.len() && (#[trigger] fs.resource@[i]).value is Some && (has_prefix(
                fs.resource@[i].key@,
                "gen_ai."@,
            ) || has_prefix(fs.resource@[i].key@, "llm."@) || has_prefix(
                fs.resource@[i].key@,
                "ai.model."@,
            ))),
{
}

} // verus!
