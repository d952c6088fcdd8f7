//! One recorded model call, and the parts of it that the server owns whatever a client sent.
use vstd::prelude::*;

use crate::clock::Timestamp;
use crate::hook::{call_text, is_text_fn, text_fn_of, TextRule};
use crate::json::{
    drop_member, field, member_views, obj_view, put, put_member, put_reads_back, without,
    without_is_gone, Json, JsonView, Member,
};
use crate::text::{blank, same, trimmed_empty_iff_blank};

verus! {

/// How a call ended.
#[derive(Debug, Clone, Copy, PartialEq, Eq, Structural)]
pub enum Status {
    Success,
    Error,
    Timeout,
}

impl Status {
    /// The wire string.
    pub open spec fn wire(self) -> Seq<char> {
        match self {
            Status::Success => "success"@,
            Status::Error => "error"@,
            Status::Timeout => "timeout"@,
        }
    }

    /// The wire string.
    pub fn as_str(self) -> (r: &'static str)
        ensures
            r@ == self.wire(),
    {
        match self {
            Status::Success => "success",
            Status::Error => "error",
            Status::Timeout => "timeout",
        }
    }

    /// The outcome a wire string names.
    pub open spec fn named(s: Seq<char>) -> Option<Status> {
        if s == "success"@ {
            Some(Status::Success)
        } else if s == "error"@ {
            Some(Status::Error)
        } else if s == "timeout"@ {
            Some(Status::Timeout)
        } else {
            None
        }
    }

    /// The outcome a wire string names.
    pub fn from_wire(s: &str) -> (r: Option<Status>)
        ensures
            r == Status::named(s@),
    {
        if same(s, "success") {
            Some(Status::Success)
        } else if same(s, "error") {
            Some(Status::Error)
        } else if same(s, "timeout") {
            Some(Status::Timeout)
        } else {
            None
        }
    }
}

/// What kind of call it was.
#[derive(Debug, Clone, Copy, PartialEq, Eq, Structural)]
pub enum Operation {
    Chat,
    Completion,
    Embedding,
    Other,
}

/// Tokens a call used.
#[derive(Debug, Clone, Copy, PartialEq, Eq, Structural)]
pub struct TokenUsage {
    pub input: u64,
    pub output: u64,
    pub cached_input: Option<u64>,
    pub reasoning: Option<u64>,
}

/// An amount of dollars: in picodollars, as ledgers add it up, and as it is written.
#[derive(Debug)]
pub struct Money {
    pub pico: u64,
    pub wire: String,
}

/// One recorded model call.
#[derive(Debug)]
pub struct LlmEvent {
    pub id: String,
    pub project_id: String,
    pub trace_id: Option<String>,
    pub span_id: Option<String>,
    pub parent_span_id: Option<String>,
    pub ts: Timestamp,
    pub received_at: Timestamp,
    pub provider: String,
    pub model: String,
    pub name: Option<String>,
    pub operation: Operation,
    pub usage: TokenUsage,
    pub cost: Option<Money>,
    pub latency_ms: Option<u64>,
    pub status: Status,
    pub error: Option<String>,
    pub input: Option<Json>,
    pub output: Option<Json>,
    pub tags: Vec<String>,
    pub source: Option<String>,
    pub metadata: Json,
}

/// A provider as it is recorded: in the client's own words, and `unknown` only where there are none.
pub open spec fn provider_recorded(raw: Option<Seq<char>>) -> Seq<char> {
    match raw {
        Some(s) => if blank(s) {
            "unknown"@
        } else {
            s
        },
        None => "unknown"@,
    }
}

/// A provider as it is recorded.
pub fn provider_name(raw: Option<&str>) -> (r: String)
    ensures
        r@ == provider_recorded(text_view(raw)),
{
    match raw {
        Some(s) => {
            proof {
                trimmed_empty_iff_blank(s@);
            }
            if s.trim().is_empty() {
                "unknown".to_owned()
            } else {
                s.to_owned()
            }
        },
        None => "unknown".to_owned(),
    }
}

/// The same optional amount again.
pub fn copy_money(m: &Option<Money>) -> (r: Option<Money>)
    ensures
        r == *m,
{
    match m {
        Some(x) => Some(Money { pico: x.pico, wire: x.wire.clone() }),
        None => None,
    }
}

/// Metadata with a server-owned member set. An object takes it, absent metadata becomes an object of
/// it alone, and anything else is the client's own and is left as it is.
pub open spec fn with_meta(v: JsonView, k: Seq<char>, x: JsonView) -> JsonView {
    match v {
        JsonView::Obj(m) => JsonView::Obj(put(m, k, x)),
        JsonView::Null => JsonView::Obj(seq![(k, x)]),
        _ => v,
    }
}

/// Metadata without a member; only an object can hold one.
pub open spec fn without_meta(v: JsonView, k: Seq<char>) -> JsonView {
    match v {
        JsonView::Obj(m) => JsonView::Obj(without(m, k)),
        _ => v,
    }
}

/// Sets one server-owned member of metadata.
pub fn metadata_set(v: Json, key: &str, value: Json) -> (r: Json)
    ensures
        r@ == with_meta(v@, key@, value@),
{
    broadcast use obj_view;

    match v {
        Json::Obj(m) => {
            let mut m = m;
            put_member(&mut m, key, value);
            Json::Obj(m)
        },
        Json::Null => {
            let mut m: Vec<Member> = Vec::new();
            m.push(Member { name: key.to_owned(), value });
            assert(member_views(m@) =~= seq![(key@, value@)]);
            Json::Obj(m)
        },
        other => other,
    }
}

/// Takes one member out of metadata.
pub fn metadata_drop(v: Json, key: &str) -> (r: Json)
    ensures
        r@ == without_meta(v@, key@),
{
    broadcast use obj_view;

    match v {
        Json::Obj(m) => {
            let mut m = m;
            drop_member(&mut m, key);
            Json::Obj(m)
        },
        other => other,
    }
}

/// Metadata with the identity that stands behind the request: the key's id, or nothing at all, never
/// what the client wrote there.
pub open spec fn key_stamped(v: JsonView, key_id: Option<Seq<char>>) -> JsonView {
    match key_id {
        Some(id) => with_meta(v, "api_key_id"@, JsonView::Str(id)),
        None => without_meta(v, "api_key_id"@),
    }
}

/// An optional text as a sequence of characters.
pub open spec fn text_view(s: Option<&str>) -> Option<Seq<char>> {
    match s {
        Some(x) => Some(x@),
        None => None,
    }
}

/// Stamps the authenticated key's id on metadata, or strips what the client claimed when no key
/// stands behind the request.
pub fn stamp_api_key(metadata: Json, key_id: Option<&str>) -> (r: Json)
    ensures
        r@ == key_stamped(metadata@, text_view(key_id)),
{
    match key_id {
        Some(id) => metadata_set(metadata, "api_key_id", Json::Str(id.to_owned())),
        None => metadata_drop(metadata, "api_key_id"),
    }
}

/// Whose key is charged is never the client's choice: after stamping, an object's `api_key_id` is the
/// authenticated key's id, and absent where there is no key, whatever the client sent.
pub proof fn attribution_is_server_owned(v: JsonView, key_id: Option<Seq<char>>)
    ensures
        v is Obj || v is Null ==> field(key_stamped(v, key_id), "api_key_id"@) == (match key_id {
            Some(id) => Some(JsonView::Str(id)),
            None => None,
        }),
        !(v is Obj || v is Null) ==> key_stamped(v, key_id) == v && field(
            key_stamped(v, key_id),
            "api_key_id"@,
        ) is None,
{
    let k = "api_key_id"@;
    match v {
        JsonView::Obj(m) => {
            match key_id {
                Some(id) => put_reads_back(m, k, JsonView::Str(id), k),
                None => without_is_gone(m, k),
            }
        },
        JsonView::Null => {
            match key_id {
                Some(id) => {
                    let s = seq![(k, JsonView::Str(id))];
                    crate::seqs::first_where_is(s, crate::json::named(k), 0);
                },
                None => {},
            }
        },
        _ => {},
    }
}

/// An optional id in canonical form.
pub open spec fn canonical_id(id: Option<String>, g: TextRule, r: Option<String>) -> bool {
    match id {
        Some(x) => r is Some && r->0@ == g(x@),
        None => r is None,
    }
}

fn normalize_id<N: Fn(String) -> String>(id: &Option<String>, normalize: &N) -> (r: Option<String>)
    requires
        is_text_fn(*normalize),
    ensures
        canonical_id(*id, text_fn_of(*normalize), r),
{
    match id {
        Some(x) => Some(call_text(normalize, x.as_str())),
        None => None,
    }
}

/// Whether `r` is `ev` as the server takes it in: its project, its arrival time and the key behind it
/// are the server's, a blank id is replaced, its trace references are canonical, and nothing else is
/// changed.
pub open spec fn taken_in(
    r: LlmEvent,
    ev: LlmEvent,
    pid: Seq<char>,
    key_id: Option<Seq<char>>,
    fresh_id: Seq<char>,
    now: Timestamp,
    g: TextRule,
) -> bool {
    &&& r.project_id@ == pid
    &&& r.received_at == now
    &&& r.id@ == (if blank(ev.id@) {
        fresh_id
    } else {
        ev.id@
    })
    &&& canonical_id(ev.trace_id, g, r.trace_id)
    &&& canonical_id(ev.span_id, g, r.span_id)
    &&& canonical_id(ev.parent_span_id, g, r.parent_span_id)
    &&& r.metadata@ == key_stamped(ev.metadata@, key_id)
    &&& r == (LlmEvent {
        id: r.id,
        project_id: r.project_id,
        received_at: r.received_at,
        trace_id: r.trace_id,
        span_id: r.span_id,
        parent_span_id: r.parent_span_id,
        metadata: r.metadata,
        ..ev
    })
}

/// Takes an event in: what the server owns overwrites whatever the client sent.
pub fn take_in<N: Fn(String) -> String>(
    ev: LlmEvent,
    pid: &str,
    key_id: Option<&str>,
    fresh_id: String,
    now: Timestamp,
    normalize: &N,
) -> (r: LlmEvent)
    requires
        is_text_fn(*normalize),
    ensures
        taken_in(r, ev, pid@, text_view(key_id), fresh_id@, now, text_fn_of(*normalize)),
{
    proof {
        trimmed_empty_iff_blank(ev.id@);
    }
    let id = if ev.id.as_str().trim().is_empty() {
        fresh_id
    } else {
        ev.id
    };
    LlmEvent {
        id,
        project_id: pid.to_owned(),
        trace_id: normalize_id(&ev.trace_id, normalize),
        span_id: normalize_id(&ev.span_id, normalize),
        parent_span_id: normalize_id(&ev.parent_span_id, normalize),
        ts: ev.ts,
        received_at: now,
        provider: ev.provider,
        model: ev.model,
        name: ev.name,
        operation: ev.operation,
        usage: ev.usage,
        cost: ev.cost,
        latency_ms: ev.latency_ms,
        status: ev.status,
        error: ev.error,
        input: ev.input,
        output: ev.output,
        tags: ev.tags,
        source: ev.source,
        metadata: stamp_api_key(ev.metadata, key_id),
    }
}

/// Metadata with how the cost came about; nothing is said of an event without one.
pub open spec fn cost_marked(v: JsonView, has_cost: bool, client_supplied: bool) -> JsonView {
    if !has_cost {
        v
    } else if client_supplied {
        with_meta(v, "cost_source"@, JsonView::Str("client"@))
    } else {
        with_meta(v, "cost_source"@, JsonView::Str("book"@))
    }
}

/// Whether `r` is `ev` with its cost settled: the client's where it gave one, else the price book's
/// where it has one, with a record of which it was, and nothing else changed.
pub open spec fn cost_settled(r: LlmEvent, ev: LlmEvent, book_price: Option<Money>) -> bool {
    &&& r.cost == (if ev.cost is Some {
        ev.cost
    } else {
        book_price
    })
    &&& r.metadata@ == cost_marked(ev.metadata@, r.cost is Some, ev.cost is Some)
    &&& r == (LlmEvent { cost: r.cost, metadata: r.metadata, ..ev })
}

/// Settles an event's cost.
pub fn settle_cost(ev: LlmEvent, book_price: Option<Money>) -> (r: LlmEvent)
    ensures
        cost_settled(r, ev, book_price),
{
    let client_supplied = ev.cost.is_some();
    let cost = if client_supplied {
        ev.cost
    } else {
        book_price
    };
    let metadata = if cost.is_some() {
        let src = if client_supplied {
            "client"
        } else {
            "book"
        };
        metadata_set(ev.metadata, "cost_source", Json::Str(src.to_owned()))
    } else {
        ev.metadata
    };
    LlmEvent {
        id: ev.id,
        project_id: ev.project_id,
        trace_id: ev.trace_id,
        span_id: ev.span_id,
        parent_span_id: ev.parent_span_id,
        ts: ev.ts,
        received_at: ev.received_at,
        provider: ev.provider,
        model: ev.model,
        name: ev.name,
        operation: ev.operation,
        usage: ev.usage,
        cost,
        latency_ms: ev.latency_ms,
        status: ev.status,
        error: ev.error,
        input: ev.input,
        output: ev.output,
        tags: ev.tags,
        source: ev.source,
        metadata,
    }
}

/// Whether two events are the same call: one project, one time, one model, the same tokens. Cost and
/// payloads do not count, since the price book and the redaction policy may have changed between two
/// attempts.
pub open spec fn same_call(a: LlmEvent, b: LlmEvent) -> bool {
    &&& a.project_id@ == b.project_id@
    &&& a.ts == b.ts
    &&& a.provider@ == b.provider@
    &&& a.model@ == b.model@
    &&& a.usage.input == b.usage.input
    &&& a.usage.output == b.usage.output
}

/// Whether a stored event and an incoming one are the same call, sent again.
pub fn same_logical_event(stored: &LlmEvent, incoming: &LlmEvent) -> (r: bool)
    ensures
        r == same_call(*stored, *incoming),
{
    same(stored.project_id.as_str(), incoming.project_id.as_str()) && stored.ts == incoming.ts
        && same(stored.provider.as_str(), incoming.provider.as_str()) && same(
        stored.model.as_str(),
        incoming.model.as_str(),
    ) && stored.usage.input == incoming.usage.input && stored.usage.output == incoming.usage.output
}

/// A replay is recognised whatever became of its cost and its payloads meanwhile.
pub proof fn a_replay_ignores_cost_and_payload(
    stored: LlmEvent,
    incoming: LlmEvent,
    cost: Option<Money>,
    input: Option<Json>,
    output: Option<Json>,
)
    ensures
        same_call(stored, incoming) == same_call(
            stored,
            LlmEvent { cost, input, output, ..incoming },
        ),
{
}

// ------------------------------------------------------------------ what taking an event in keeps

/// Each trace reference depends on the one of the same name alone, and everything that the server does
/// not own stays as it was sent.
pub proof fn taking_in_keeps_each_field_its_own<N: Fn(String) -> String>(
    ev: LlmEvent,
    pid: &str,
    key_id: Option<&str>,
    fresh_id: String,
    now: Timestamp,
    normalize: &N,
    r: LlmEvent,
)
    requires
        is_text_fn(*normalize),
        call_ensures(take_in::<N>, (ev, pid, key_id, fresh_id, now, normalize), r),
    ensures
        ev.trace_id is Some <==> r.trace_id is Some,
        ev.span_id is Some <==> r.span_id is Some,
        ev.parent_span_id is Some <==> r.parent_span_id is Some,
        r.trace_id is Some ==> r.trace_id->0@ == text_fn_of(*normalize)(ev.trace_id->0@),
        r.span_id is Some ==> r.span_id->0@ == text_fn_of(*normalize)(ev.span_id->0@),
        r.parent_span_id is Some ==> r.parent_span_id->0@ == text_fn_of(*normalize)(
            ev.parent_span_id->0@,
        ),
        r.project_id@ == pid@,
        r.received_at == now,
        blank(ev.id@) ==> r.id@ == fresh_id@,
        !blank(ev.id@) ==> r.id@ == ev.id@,
        r.ts == ev.ts,
        r.provider == ev.provider,
        r.model == ev.model,
        r.name == ev.name,
        r.operation == ev.operation,
        r.usage == ev.usage,
        r.cost == ev.cost,
        r.latency_ms == ev.latency_ms,
        r.status == ev.status,
        r.error == ev.error,
        r.input == ev.input,
        r.output == ev.output,
        r.tags == ev.tags,
        r.source == ev.source,
{
}

/// A member that is set reads back, one that is dropped is gone, and no other member is touched; what is
/// no object takes no member.
pub proof fn metadata_members_are_kept_apart(
    v: Json,
    key: &str,
    value: Json,
    set: Json,
    dropped: Json,
    other: Seq<char>,
)
    requires
        call_ensures(metadata_set, (v, key, value), set),
        call_ensures(metadata_drop, (v, key), dropped),
        other != key@,
    ensures
        v@ is Obj || v@ is Null ==> field(set@, key@) == Some(value@),
        field(dropped@, key@) is None,
        v@ is Obj ==> field(set@, other) == field(v@, other),
        field(dropped@, other) == field(v@, other),
        !(v@ is Obj || v@ is Null) ==> set@ == v@,
        !(v@ is Obj) ==> dropped@ == v@,
{
    match v@ {
        JsonView::Obj(m) => {
            put_reads_back(m, key@, value@, key@);
            put_reads_back(m, key@, value@, other);
            without_is_gone(m, key@);
            crate::json::without_keeps_others(m, key@, other);
        },
        JsonView::Null => {
            let s = seq![(key@, value@)];
            crate::seqs::first_where_is(s, crate::json::named(key@), 0);
        },
        _ => {},
    }
}

/// A client's own price stands and is marked as theirs; the book's fills in where there is none and is
/// marked as the book's; and nothing else of the event is touched.
pub proof fn a_price_is_the_clients_before_the_books(
    ev: LlmEvent,
    book_price: Option<Money>,
    r: LlmEvent,
    other: Seq<char>,
)
    requires
        call_ensures(settle_cost, (ev, book_price), r),
        other != "cost_source"@,
    ensures
        ev.cost is Some ==> r.cost == ev.cost,
        ev.cost is None ==> r.cost == book_price,
        ev.metadata@ is Obj && ev.cost is Some ==> field(r.metadata@, "cost_source"@) == Some(
            JsonView::Str("client"@),
        ),
        ev.metadata@ is Obj && ev.cost is None && book_price is Some ==> field(
            r.metadata@,
            "cost_source"@,
        ) == Some(JsonView::Str("book"@)),
        ev.cost is None && book_price is None ==> r.metadata@ == ev.metadata@,
        ev.metadata@ is Obj ==> field(r.metadata@, other) == field(ev.metadata@, other),
        r.id == ev.id && r.project_id == ev.project_id && r.ts == ev.ts && r.usage == ev.usage,
        r.trace_id == ev.trace_id && r.span_id == ev.span_id && r.parent_span_id == ev.parent_span_id,
        r.provider == ev.provider && r.model == ev.model && r.name == ev.name,
        r.input == ev.input && r.output == ev.output && r.error == ev.error && r.status == ev.status,
        r.tags == ev.tags && r.source == ev.source && r.latency_ms == ev.latency_ms,
        r.received_at == ev.received_at && r.operation == ev.operation,
{
    if ev.metadata@ is Obj {
        let m = ev.metadata@->Obj_0;
        put_reads_back(m, "cost_source"@, JsonView::Str("client"@), "cost_source"@);
        put_reads_back(m, "cost_source"@, JsonView::Str("book"@), "cost_source"@);
        put_reads_back(m, "cost_source"@, JsonView::Str("client"@), other);
        put_reads_back(m, "cost_source"@, JsonView::Str("book"@), other);
    }
}

/// Two events are one call exactly where project, time, provider, model and both counts of tokens agree:
/// a difference in any one of them tells them apart, and no other difference does.
pub proof fn one_call_is_known_by_six_things(stored: &LlmEvent, incoming: &LlmEvent, r: bool)
    requires
        call_ensures(same_logical_event, (stored, incoming), r),
    ensures
        stored.project_id@ != incoming.project_id@ ==> !r,
        stored.ts != incoming.ts ==> !r,
        stored.provider@ != incoming.provider@ ==> !r,
        stored.model@ != incoming.model@ ==> !r,
        stored.usage.input != incoming.usage.input ==> !r,
        stored.usage.output != incoming.usage.output ==> !r,
        !r ==> stored.project_id@ != incoming.project_id@ || stored.ts != incoming.ts
            || stored.provider@ != incoming.provider@ || stored.model@ != incoming.model@
            || stored.usage.input != incoming.usage.input || stored.usage.output
            != incoming.usage.output,
{
}

/// An outcome's word reads back as the outcome, and no other word reads as one.
pub proof fn outcomes_read_back(s: Status, w: &'static str, back: Option<Status>, x: &str, y: Option<Status>)
    requires
        call_ensures(Status::as_str, (s,), w),
        call_ensures(Status::from_wire, (w,), back),
        call_ensures(Status::from_wire, (x,), y),
    ensures
        back == Some(s),
        s == Status::Success <==> w@ == "success"@,
        s == Status::Error <==> w@ == "error"@,
        s == Status::Timeout <==> w@ == "timeout"@,
        y is Some <==> x@ == "success"@ || x@ == "error"@ || x@ == "timeout"@,
{
    reveal_strlit("success");
    reveal_strlit("error");
    reveal_strlit("timeout");
    assert("success"@[0] == 's' && "error"@[0] == 'e' && "timeout"@[0] == 't');
}

/// A provider keeps the client's words; only where there are none is it unknown.
pub proof fn a_provider_keeps_its_words(raw: Option<&str>, r: String)
    requires
        call_ensures(provider_name, (raw,), r),
    ensures
        raw is Some && !blank(raw->0@) ==> r@ == raw->0@,
        raw is None || blank(raw->0@) ==> r@ == "unknown"@,
{
}

} // verus!
