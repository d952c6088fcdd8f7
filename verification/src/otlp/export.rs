//! One export from end to end: which spans go to the batch door, and what every span is answered with.
use vstd::prelude::*;

use crate::clock::Timestamp;
use crate::event::LlmEvent;
use crate::ingest::BatchItem;
use crate::otlp::linkage::{
    links_of, mapped_ids, mended, reparent_past_dropped_spans, spans_in,
};
use crate::otlp::proto::FlatSpan;
use crate::otlp::semconv::{
    genai, is_event_of, map_span, model_in, opt_view, SpanReject, NOT_GENAI_MSG, NO_MODEL_MSG,
};
use crate::text::{clone_opt, dec, has_within, pieces_stand, show_usize, strung, strung_on};

verus! {

/// What became of a span before the store was asked.
#[derive(Debug)]
pub enum SpanSlot {
    /// It is the next event of the batch.
    Mapped,
    /// It is no event.
    Refused(SpanReject),
}

/// An export, mapped.
#[derive(Debug)]
pub struct MappedExport {
    /// The events to hand to the batch door, in the spans' order.
    pub events: Vec<LlmEvent>,
    /// One per span.
    pub slots: Vec<SpanSlot>,
}

/// Whether a span becomes an event.
pub open spec fn maps(fs: FlatSpan) -> bool {
    genai(fs) && model_in(fs) is Some
}

/// Whether `s` is what becomes of a span before the store is asked.
pub open spec fn slot_is(s: SpanSlot, fs: FlatSpan) -> bool {
    match s {
        SpanSlot::Mapped => maps(fs),
        SpanSlot::Refused(rej) => if !genai(fs) {
            rej.code@ == "not_genai"@ && rej.reason@ == NOT_GENAI_MSG@
        } else {
            model_in(fs) is None && rej.code@ == "bad_request"@ && rej.reason@ == NO_MODEL_MSG@
        },
    }
}

/// How many of the first `n` spans become events.
pub open spec fn mapped_before(slots: Seq<SpanSlot>, n: int) -> int
    decreases n,
{
    if n <= 0 {
        0
    } else {
        mapped_before(slots, n - 1) + (if slots[n - 1] is Mapped {
            1int
        } else {
            0int
        })
    }
}

proof fn mapped_before_grows(slots: Seq<SpanSlot>, i: int, n: int)
    requires
        0 <= i <= n <= slots.len(),
    ensures
        0 <= mapped_before(slots, i) <= mapped_before(slots, n) <= n,
    decreases n,
{
    if i < n {
        mapped_before_grows(slots, i, n - 1);
    } else if n > 0 {
        mapped_before_grows(slots, i - 1, n - 1);
    }
}

proof fn mapped_before_prefix(a: Seq<SpanSlot>, b: Seq<SpanSlot>, n: int)
    requires
        0 <= n <= a.len(),
        n <= b.len(),
        forall|i: int| 0 <= i < n ==> a[i] == b[i],
    ensures
        mapped_before(a, n) == mapped_before(b, n),
    decreases n,
{
    if n > 0 {
        mapped_before_prefix(a, b, n - 1);
    }
}

/// Whether `raw` holds the events of the spans that map, in order.
pub open spec fn raw_events(
    raw: Seq<LlmEvent>,
    spans: Seq<FlatSpan>,
    slots: Seq<SpanSlot>,
    default_project: Option<Seq<char>>,
    fresh: Seq<String>,
    now: Timestamp,
) -> bool {
    &&& raw.len() == mapped_before(slots, slots.len() as int)
    &&& forall|i: int|
        0 <= i < slots.len() && (#[trigger] slots[i]) is Mapped ==> is_event_of(
            raw[mapped_before(slots, i)],
            spans[i],
            default_project,
            fresh[i]@,
            now,
        )
}

/// Maps an export: every span becomes an event or is refused, and the events' parents are mended past
/// the spans that were dropped. `fresh_ids` holds an id per span for exporters that give none.
pub fn map_export(
    spans: &Vec<FlatSpan>,
    default_project: Option<&str>,
    fresh_ids: &Vec<String>,
    now: Timestamp,
) -> (r: MappedExport)
    requires
        fresh_ids@.len() == spans@.len(),
        now.valid(),
    ensures
        r.slots@.len() == spans@.len(),
        forall|i: int| 0 <= i < spans@.len() ==> slot_is(#[trigger] r.slots@[i], spans@[i]),
        exists|raw: Seq<LlmEvent>| #[trigger]
            raw_events(
                raw,
                spans@,
                r.slots@,
                crate::event::text_view(default_project),
                fresh_ids@,
                now,
            ) && r.events@.len() == raw.len() && forall|k: int|
                0 <= k < raw.len() ==> mended(
                    #[trigger] r.events@[k],
                    raw[k],
                    links_of(spans_in(spans@)),
                    mapped_ids(raw),
                ),
{
    let ghost dp = crate::event::text_view(default_project);
    let mut events: Vec<LlmEvent> = Vec::new();
    let mut slots: Vec<SpanSlot> = Vec::new();
    let mut i: usize = 0;
    while i < spans.len()
        invariant
            fresh_ids@.len() == spans@.len(),
            now.valid(),
            dp == crate::event::text_view(default_project),
            i <= spans.len(),
            slots@.len() == i,
            forall|j: int| 0 <= j < i ==> slot_is(#[trigger] slots@[j], spans@[j]),
            raw_events(events@, spans@, slots@, dp, fresh_ids@, now),
        decreases spans.len() - i,
    {
        let ghost sb = slots@;
        let ghost eb = events@;
        match map_span(&spans[i], default_project, fresh_ids[i].clone(), now) {
            Ok(ev) => {
                events.push(ev);
                slots.push(SpanSlot::Mapped);
            },
            Err(rej) => {
                slots.push(SpanSlot::Refused(rej));
            },
        }
        proof {
            mapped_before_prefix(sb, slots@, i as int);
            assert forall|j: int| 0 <= j < slots@.len() && (#[trigger] slots@[j]) is Mapped implies is_event_of(
                events@[mapped_before(slots@, j)],
                spans@[j],
                dp,
                fresh_ids@[j]@,
                now,
            ) by {
                mapped_before_prefix(sb, slots@, j);
                if j < i {
                    assert(sb[j] is Mapped);
                    mapped_before_grows(sb, j, i as int);
                    mapped_before_grows(sb, j + 1, i as int);
                    assert(mapped_before(sb, j) < eb.len());
                }
            }
        }
        i += 1;
    }
    let ghost raw = events@;
    let events = reparent_past_dropped_spans(spans, events);
    assert(raw_events(raw, spans@, slots@, dp, fresh_ids@, now));
    MappedExport { events, slots }
}

/// How a span ended up.
#[derive(Debug, Clone, Copy, PartialEq, Eq, Structural)]
pub enum SpanState {
    Accepted,
    Rejected,
    Invalid,
    Unmapped,
}

impl SpanState {
    /// The wire string.
    pub open spec fn wire(self) -> Seq<char> {
        match self {
            SpanState::Accepted => "accepted"@,
            SpanState::Rejected => "rejected"@,
            SpanState::Invalid => "invalid"@,
            SpanState::Unmapped => "unmapped"@,
        }
    }

    /// The wire string.
    pub fn as_str(self) -> (r: &'static str)
        ensures
            r@ == self.wire(),
    {
        match self {
            SpanState::Accepted => "accepted",
            SpanState::Rejected => "rejected",
            SpanState::Invalid => "invalid",
            SpanState::Unmapped => "unmapped",
        }
    }
}

/// One span's outcome.
#[derive(Debug)]
pub struct SpanOutcome {
    pub index: usize,
    pub span_id: Option<String>,
    pub status: SpanState,
    pub code: Option<String>,
    pub reason: Option<String>,
    /// The stored event's id; none where nothing was stored.
    pub id: Option<String>,
}

/// The view of an optional text.
pub open spec fn text_opt(s: Option<String>) -> Option<Seq<char>> {
    match s {
        Some(x) => Some(x@),
        None => None,
    }
}

/// Whether `r` says of span `i` what the batch door said of its event.
pub open spec fn outcome_from(r: SpanOutcome, item: BatchItem) -> bool {
    match item {
        BatchItem::Accepted { id, .. } => r.status == SpanState::Accepted && r.code is None
            && r.reason is None && text_opt(r.id) == Some(id@),
        BatchItem::Rejected { code, reason, .. } => r.status == SpanState::Rejected && text_opt(r.code)
            == Some(code.wire()) && text_opt(r.reason) == Some(reason@) && r.id is None,
        BatchItem::Invalid { code, reason, .. } => r.status == SpanState::Invalid && text_opt(r.code)
            == Some(code.wire()) && text_opt(r.reason) == Some(reason@) && r.id is None,
    }
}

/// Whether `r` is the outcome of span `i`.
pub open spec fn outcome_is(
    r: SpanOutcome,
    i: int,
    span_ids: Seq<Option<String>>,
    slots: Seq<SpanSlot>,
    items: Seq<BatchItem>,
) -> bool {
    &&& r.index == i
    &&& text_opt(r.span_id) == text_opt(span_ids[i])
    &&& match slots[i] {
        SpanSlot::Mapped => outcome_from(r, items[mapped_before(slots, i)]),
        SpanSlot::Refused(rej) => r.status == SpanState::Unmapped && text_opt(r.code) == Some(
            rej.code@,
        ) && text_opt(r.reason) == Some(rej.reason@) && r.id is None,
    }
}

fn outcome_of(index: usize, span_id: Option<String>, item: &BatchItem) -> (r: SpanOutcome)
    ensures
        r.index == index,
        r.span_id == span_id,
        outcome_from(r, *item),
{
    match item {
        BatchItem::Accepted { id, .. } => SpanOutcome {
            index,
            span_id,
            status: SpanState::Accepted,
            code: None,
            reason: None,
            id: Some(id.clone()),
        },
        BatchItem::Rejected { code, reason, .. } => SpanOutcome {
            index,
            span_id,
            status: SpanState::Rejected,
            code: Some(code.as_str().to_owned()),
            reason: Some(reason.clone()),
            id: None,
        },
        BatchItem::Invalid { code, reason, .. } => SpanOutcome {
            index,
            span_id,
            status: SpanState::Invalid,
            code: Some(code.as_str().to_owned()),
            reason: Some(reason.clone()),
            id: None,
        },
    }
}

/// The outcome of every span of an export, in order: what mapping refused it for, or what the batch
/// door said of its event.
pub fn span_outcomes(
    span_ids: &Vec<Option<String>>,
    slots: &Vec<SpanSlot>,
    items: &Vec<BatchItem>,
) -> (r: Vec<SpanOutcome>)
    requires
        span_ids@.len() == slots@.len(),
        items@.len() == mapped_before(slots@, slots@.len() as int),
    ensures
        r@.len() == slots@.len(),
        forall|i: int|
            0 <= i < r@.len() ==> outcome_is(#[trigger] r@[i], i, span_ids@, slots@, items@),
{
    let mut out: Vec<SpanOutcome> = Vec::new();
    let mut k: usize = 0;
    let mut i: usize = 0;
    while i < slots.len()
        invariant
            span_ids@.len() == slots@.len(),
            items@.len() == mapped_before(slots@, slots@.len() as int),
            i <= slots.len(),
            k == mapped_before(slots@, i as int),
            out@.len() == i,
            forall|j: int|
                0 <= j < i ==> outcome_is(#[trigger] out@[j], j, span_ids@, slots@, items@),
        decreases slots.len() - i,
    {
        proof {
            mapped_before_grows(slots@, i as int, slots@.len() as int);
            mapped_before_grows(slots@, i + 1, slots@.len() as int);
        }
        let span_id = clone_opt(&span_ids[i]);
        match &slots[i] {
            SpanSlot::Mapped => {
                out.push(outcome_of(i, span_id, &items[k]));
                k += 1;
            },
            SpanSlot::Refused(rej) => {
                out.push(
                    SpanOutcome {
                        index: i,
                        span_id,
                        status: SpanState::Unmapped,
                        code: Some(rej.code.clone()),
                        reason: Some(rej.reason.clone()),
                        id: None,
                    },
                );
            },
        }
        i += 1;
    }
    out
}

/// How many outcomes are in a state.
pub open spec fn in_state(v: Seq<SpanOutcome>, s: SpanState) -> nat
    decreases v.len(),
{
    if v.len() == 0 {
        0
    } else {
        in_state(v.drop_last(), s) + (if v.last().status == s {
            1nat
        } else {
            0nat
        })
    }
}

/// What an exporter is told when not everything was recorded.
#[derive(Debug)]
pub struct PartialSuccess {
    pub rejected_spans: u64,
    pub error_message: String,
}

/// What an export is answered with.
#[derive(Debug)]
pub struct OtlpResponse {
    /// Absent on a clean export.
    pub partial_success: Option<PartialSuccess>,
    pub accepted: usize,
    pub unmapped: usize,
    pub rejected: usize,
    pub invalid: usize,
    pub results: Vec<SpanOutcome>,
}

/// What an exporter is told of the spans that were not recorded.
pub open spec fn partial_text(refused: nat, total: nat, unmapped: nat, rejected: nat, invalid: nat) -> Seq<
    char,
> {
    dec(refused) + " of "@ + dec(total) + " span(s) not recorded ("@ + dec(unmapped)
        + " unmapped, "@ + dec(rejected) + " limit-rejected, "@ + dec(invalid)
        + " invalid) — see the `lighttrack.results` field for per-span codes"@
}

fn partial_message(refused: usize, total: usize, unmapped: usize, rejected: usize, invalid: usize) -> (r:
    String)
    ensures
        r@ == partial_text(
            refused as nat,
            total as nat,
            unmapped as nat,
            rejected as nat,
            invalid as nat,
        ),
{
    let a = show_usize(refused);
    let b = show_usize(total);
    let c = show_usize(unmapped);
    let d = show_usize(rejected);
    let e = show_usize(invalid);
    let mut m = a;
    m.append(" of ");
    m.append(b.as_str());
    m.append(" span(s) not recorded (");
    m.append(c.as_str());
    m.append(" unmapped, ");
    m.append(d.as_str());
    m.append(" limit-rejected, ");
    m.append(e.as_str());
    m.append(" invalid) — see the `lighttrack.results` field for per-span codes");
    m
}

/// Tallies the outcomes. An export with nothing refused is a clean success; otherwise the exporter is
/// told how many spans were not recorded and why.
pub fn finish(results: Vec<SpanOutcome>) -> (r: OtlpResponse)
    ensures
        r.results == results,
        r.accepted == in_state(results@, SpanState::Accepted),
        r.unmapped == in_state(results@, SpanState::Unmapped),
        r.rejected == in_state(results@, SpanState::Rejected),
        r.invalid == in_state(results@, SpanState::Invalid),
        ({
            let refused = (results@.len() - in_state(results@, SpanState::Accepted)) as nat;
            &&& refused == 0 ==> r.partial_success is None
            &&& refused > 0 ==> r.partial_success is Some
                && r.partial_success->0.rejected_spans == refused
                && r.partial_success->0.error_message@ == partial_text(
                refused,
                results@.len(),
                r.unmapped as nat,
                r.rejected as nat,
                r.invalid as nat,
            )
        }),
{
    let mut accepted: usize = 0;
    let mut unmapped: usize = 0;
    let mut rejected: usize = 0;
    let mut invalid: usize = 0;
    let mut i: usize = 0;
    while i < results.len()
        invariant
            i <= results.len(),
            accepted == in_state(results@.take(i as int), SpanState::Accepted),
            unmapped == in_state(results@.take(i as int), SpanState::Unmapped),
            rejected == in_state(results@.take(i as int), SpanState::Rejected),
            invalid == in_state(results@.take(i as int), SpanState::Invalid),
            accepted + unmapped + rejected + invalid == i,
        decreases results.len() - i,
    {
        assert(results@.take(i + 1).drop_last() =~= results@.take(i as int));
        match results[i].status {
            SpanState::Accepted => {
                accepted += 1;
            },
            SpanState::Unmapped => {
                unmapped += 1;
            },
            SpanState::Rejected => {
                rejected += 1;
            },
            SpanState::Invalid => {
                invalid += 1;
            },
        }
        i += 1;
    }
    assert(results@.take(i as int) =~= results@);
    let refused: usize = unmapped + rejected + invalid;
    let partial_success = if refused > 0 {
        Some(
            PartialSuccess {
                rejected_spans: refused as u64,
                error_message: partial_message(
                    refused,
                    results.len(),
                    unmapped,
                    rejected,
                    invalid,
                ),
            },
        )
    } else {
        None
    };
    OtlpResponse { partial_success, accepted, unmapped, rejected, invalid, results }
}

/// Every span is in exactly one state: accepted, unmapped, rejected and invalid add up to the export.
pub proof fn span_states_add_up(v: Seq<SpanOutcome>)
    ensures
        in_state(v, SpanState::Accepted) + in_state(v, SpanState::Unmapped) + in_state(
            v,
            SpanState::Rejected,
        ) + in_state(v, SpanState::Invalid) == v.len(),
    decreases v.len(),
{
    if v.len() > 0 {
        span_states_add_up(v.drop_last());
    }
}

/// A span that did not become an event is never reported as recorded.
pub proof fn an_unmapped_span_is_never_accepted(
    r: SpanOutcome,
    i: int,
    span_ids: Seq<Option<String>>,
    slots: Seq<SpanSlot>,
    items: Seq<BatchItem>,
)
    requires
        outcome_is(r, i, span_ids, slots, items),
        slots[i] is Refused,
    ensures
        r.status == SpanState::Unmapped,
        r.id is None,
{
}

/// A span goes to the batch door exactly where it maps on its own; one that does not is refused for the
/// reason that mapping it gives.
pub proof fn a_span_goes_on_where_it_maps(
    spans: &Vec<FlatSpan>,
    default_project: Option<&str>,
    fresh_ids: &Vec<String>,
    now: Timestamp,
    r: MappedExport,
    i: int,
    fs: &FlatSpan,
    id: String,
    alone: Result<LlmEvent, SpanReject>,
)
    requires
        fresh_ids@.len() == spans@.len(),
        now.valid(),
        call_ensures(map_export, (spans, default_project, fresh_ids, now), r),
        0 <= i < spans@.len(),
        *fs == spans@[i],
        id@ == fresh_ids@[i]@,
        call_ensures(map_span, (fs, default_project, id, now), alone),
    ensures
        r.slots@.len() == spans@.len(),
        r.slots@[i] is Mapped <==> alone is Ok,
        r.slots@[i] matches SpanSlot::Refused(x) ==> x.code@ == alone->Err_0.code@ && x.reason@
            == alone->Err_0.reason@,
        alone matches Ok(ev) ==> {
            let k = mapped_before(r.slots@, i);
            let e = r.events@[k];
            &&& 0 <= k < r.events@.len()
            &&& e.id@ == ev.id@ && e.project_id@ == ev.project_id@ && e.model@ == ev.model@ && e.provider@
                == ev.provider@
            &&& e.ts == ev.ts && e.received_at == ev.received_at && e.operation == ev.operation
                && e.status == ev.status && e.cost == ev.cost
            &&& e.usage.input == ev.usage.input && e.usage.output == ev.usage.output
            &&& opt_view(e.trace_id) == opt_view(ev.trace_id) && opt_view(e.span_id) == opt_view(
                ev.span_id,
            ) && opt_view(e.name) == opt_view(ev.name) && opt_view(e.error) == opt_view(ev.error)
            &&& e.input is Some <==> ev.input is Some
            &&& e.input is Some ==> e.input->0@ == ev.input->0@
            &&& e.output is Some <==> ev.output is Some
            &&& e.output is Some ==> e.output->0@ == ev.output->0@
        },
{
    assert(slot_is(r.slots@[i], spans@[i]));
    let raw = choose|raw: Seq<LlmEvent>| #[trigger]
        raw_events(
            raw,
            spans@,
            r.slots@,
            crate::event::text_view(default_project),
            fresh_ids@,
            now,
        ) && r.events@.len() == raw.len() && forall|k: int|
            0 <= k < raw.len() ==> mended(
                #[trigger] r.events@[k],
                raw[k],
                links_of(spans_in(spans@)),
                mapped_ids(raw),
            );
    if alone is Ok {
        let k = mapped_before(r.slots@, i);
        mapped_before_grows(r.slots@, i, r.slots@.len() as int);
        mapped_before_grows(r.slots@, i + 1, r.slots@.len() as int);
        mapped_before_grows(r.slots@, 0, i);
        assert(0 <= k < raw.len());
        assert(is_event_of(
            raw[k],
            spans@[i],
            crate::event::text_view(default_project),
            fresh_ids@[i]@,
            now,
        ));
        assert(mended(r.events@[k], raw[k], links_of(spans_in(spans@)), mapped_ids(raw)));
    }
}

/// Every span is answered for in its own place: one that did not map by the reason it was refused for, one
/// that did by what the batch door said of its event, with an id exactly where it was recorded.
pub proof fn every_span_is_answered_for(
    span_ids: &Vec<Option<String>>,
    slots: &Vec<SpanSlot>,
    items: &Vec<BatchItem>,
    r: Vec<SpanOutcome>,
    i: int,
)
    requires
        span_ids@.len() == slots@.len(),
        items@.len() == mapped_before(slots@, slots@.len() as int),
        call_ensures(span_outcomes, (span_ids, slots, items), r),
        0 <= i < slots@.len(),
    ensures
        r@.len() == slots@.len(),
        r@[i].index == i,
        r@[i].span_id is Some <==> span_ids@[i] is Some,
        span_ids@[i] is Some ==> r@[i].span_id->0@ == span_ids@[i]->0@,
        slots@[i] matches SpanSlot::Refused(x) ==> r@[i].status is Unmapped && r@[i].id is None
            && r@[i].code is Some && r@[i].code->0@ == x.code@ && r@[i].reason is Some && r@[i].reason->0@
            == x.reason@,
        slots@[i] is Mapped ==> match items@[mapped_before(slots@, i)] {
            BatchItem::Accepted { id, .. } => r@[i].status is Accepted && r@[i].id is Some && r@[i].id->0@
                == id@ && r@[i].code is None && r@[i].reason is None,
            BatchItem::Rejected { code, reason, .. } => r@[i].status is Rejected && r@[i].id is None
                && r@[i].code is Some && r@[i].code->0@ == code.wire() && r@[i].reason is Some
                && r@[i].reason->0@ == reason@,
            BatchItem::Invalid { code, reason, .. } => r@[i].status is Invalid && r@[i].id is None
                && r@[i].code is Some && r@[i].code->0@ == code.wire() && r@[i].reason is Some
                && r@[i].reason->0@ == reason@,
        },
{
    assert(outcome_is(r@[i], i, span_ids@, slots@, items@));
}

/// The place of a span's event among the batch's is the number of spans before it that map.
pub proof fn places_count_the_mapped(slots: Seq<SpanSlot>, n: int)
    requires
        0 <= n < slots.len(),
    ensures
        mapped_before(slots, 0) == 0,
        slots[n] is Mapped ==> mapped_before(slots, n + 1) == mapped_before(slots, n) + 1,
        !(slots[n] is Mapped) ==> mapped_before(slots, n + 1) == mapped_before(slots, n),
{
}

proof fn states_are_of_filters(v: Seq<SpanOutcome>, s: SpanState)
    ensures
        in_state(v, s) == v.filter(|x: SpanOutcome| x.status == s).len(),
    decreases v.len(),
{
    reveal(Seq::filter);
    if v.len() > 0 {
        states_are_of_filters(v.drop_last(), s);
    }
}

/// An export is tallied state by state, and is a clean success exactly where every span was recorded;
/// otherwise the exporter is told how many were not.
pub proof fn an_export_is_tallied(results: Vec<SpanOutcome>, r: OtlpResponse)
    requires
        call_ensures(finish, (results,), r),
    ensures
        r.results == results,
        r.accepted == results@.filter(|x: SpanOutcome| x.status == SpanState::Accepted).len(),
        r.unmapped == results@.filter(|x: SpanOutcome| x.status == SpanState::Unmapped).len(),
        r.rejected == results@.filter(|x: SpanOutcome| x.status == SpanState::Rejected).len(),
        r.invalid == results@.filter(|x: SpanOutcome| x.status == SpanState::Invalid).len(),
        r.partial_success is None <==> r.accepted == results@.len(),
        r.partial_success is Some ==> r.partial_success->0.rejected_spans + r.accepted == results@.len(),
{
    states_are_of_filters(results@, SpanState::Accepted);
    states_are_of_filters(results@, SpanState::Unmapped);
    states_are_of_filters(results@, SpanState::Rejected);
    states_are_of_filters(results@, SpanState::Invalid);
    span_states_add_up(results@);
}

/// What an exporter is told counts each kind under its own word.
pub proof fn a_partial_success_counts_each_kind(results: Vec<SpanOutcome>, r: OtlpResponse)
    requires
        call_ensures(finish, (results,), r),
        r.partial_success is Some,
    ensures
        ({
            let m = r.partial_success->0.error_message@;
            &&& has_within(
                m,
                dec(r.partial_success->0.rejected_spans as nat) + " of "@ + dec(results@.len())
                    + " span(s) not recorded ("@,
            )
            &&& has_within(m, dec(r.unmapped as nat) + " unmapped, "@)
            &&& has_within(m, dec(r.rejected as nat) + " limit-rejected, "@)
            &&& has_within(
                m,
                dec(r.invalid as nat)
                    + " invalid) — see the `lighttrack.results` field for per-span codes"@,
            )
        }),
{
    let refused = (results@.len() - in_state(results@, SpanState::Accepted)) as nat;
    let v = strung_on(seq![], dec(refused));
    let v = strung_on(v, " of "@);
    let v = strung_on(v, dec(results@.len()));
    let v = strung_on(v, " span(s) not recorded ("@);
    let v = strung_on(v, dec(r.unmapped as nat));
    let v = strung_on(v, " unmapped, "@);
    let v = strung_on(v, dec(r.rejected as nat));
    let v = strung_on(v, " limit-rejected, "@);
    let v = strung_on(v, dec(r.invalid as nat));
    let v = strung_on(v, " invalid) — see the `lighttrack.results` field for per-span codes"@);
    assert(r.partial_success->0.error_message@ == strung(v));
    pieces_stand(v, 0);
    pieces_stand(v, 4);
    pieces_stand(v, 6);
    pieces_stand(v, 8);
}

/// A span's state goes by its own word.
pub proof fn states_go_by_their_words(s: SpanState, w: &'static str)
    requires
        call_ensures(SpanState::as_str, (s,), w),
    ensures
        s is Accepted ==> w@ == "accepted"@,
        s is Rejected ==> w@ == "rejected"@,
        s is Invalid ==> w@ == "invalid"@,
        s is Unmapped ==> w@ == "unmapped"@,
{
}

} // verus!
