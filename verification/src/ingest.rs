//! The ingest doors: how an event is prepared, and what one event or a batch is answered with once the
//! store has spoken.
use vstd::prelude::*;

use crate::admission::{breach_reason, over, reason_text};
use crate::auth::{disabled_project_msg, disabled_project_text, Principal};
use crate::clock::Timestamp;
use crate::error::{fails_with, ApiError, ErrorCode, StoreFailure};
use crate::event::{
    attribution_is_server_owned, copy_money, cost_settled, same_call, same_logical_event, settle_cost, take_in, taken_in, text_view,
    LlmEvent, Money,
};
use crate::guards::{ingest_target, resolve_ingest_project};
use crate::hook::{is_text_fn, text_fn_of, TextRule};
use crate::json::{field, named, put_reads_back, JsonView};
use crate::limit::LimitStatus;
use crate::projects::Redaction;
use crate::proximity::{merged, no_signal, ratio_view, signal_of, Proximity, ProximityView};
use crate::redact::{
    a_stamp_says_what_was_done, accounting_keys_pass, apply_policy, persisted, redacts, redacts_bare, unclaimed, Redacted, Redactor,
};
use crate::scrub::{is_scrubber, rule_of, Rule, Scrubbed};
use crate::seqs::{filter_keeps, filter_members, filter_step, first_where_none};
use crate::text::{blank, dec, has_within, show_usize, stands_between};
use crate::validate::{IngestPolicy, Rejection};

verus! {

/// Refuses the events of a project that is switched off.
pub fn ensure_enabled(pid: &str, enabled: bool) -> (r: Result<(), ApiError>)
    ensures
        enabled ==> r is Ok,
        !enabled ==> fails_with(r, ErrorCode::ProjectDisabled, disabled_project_text(pid@)),
{
    if enabled {
        return Ok(());
    }
    let m = disabled_project_msg(pid);
    Err(ApiError::project_disabled(m.as_str()))
}

/// An event ready to be priced and stored.
#[derive(Debug)]
pub struct Prepared {
    pub redacted: Redacted,
    /// Whether the persistence policy changed a payload.
    pub policy_applied: bool,
}

/// Whether `b` is `a` with a persistence policy applied to its payloads, and nothing else changed.
pub open spec fn policy_on(b: LlmEvent, a: LlmEvent, policy: Redaction, g: TextRule) -> bool {
    &&& persisted(a.input, policy, g, b.input)
    &&& persisted(a.output, policy, g, b.output)
    &&& b == (LlmEvent { input: b.input, output: b.output, ..a })
}

/// Whether `r` is `ev` prepared: what the server owns stamped over what was sent, then the persistence
/// policy applied to the payloads, then what is left scrubbed where the project is covered, and stamped
/// with what was done.
pub open spec fn prepared(
    r: Prepared,
    ev: LlmEvent,
    pid: Seq<char>,
    key_id: Option<Seq<char>>,
    persistence: Redaction,
    covered: bool,
    fresh_id: Seq<char>,
    now: Timestamp,
    normalize: TextRule,
    digest: TextRule,
    scrub: Rule,
    rules: Seq<char>,
) -> bool {
    &&& r.policy_applied == (persistence != Redaction::Keep && (ev.input is Some || ev.output is Some))
    &&& exists|a: LlmEvent, b: LlmEvent|
        taken_in(a, ev, pid, key_id, fresh_id, now, normalize) && #[trigger] policy_on(
            b,
            a,
            persistence,
            digest,
        ) && redacts(r.redacted, b, covered, persistence, scrub, rules)
}

/// Prepares an event: what the server owns is stamped, the event is validated, the project's
/// persistence policy is applied to its payloads, and what is left is scrubbed and stamped. An event
/// with something wrong with it is refused before any of its content is looked at.
pub fn prepare_event<N: Fn(String) -> String, D: Fn(String) -> String, F: Fn(String) -> Scrubbed>(
    rules_of_time: &IngestPolicy,
    redactor: &Redactor,
    ev: LlmEvent,
    pid: &str,
    key_id: Option<&str>,
    persistence: Redaction,
    now: Timestamp,
    fresh_id: String,
    normalize: &N,
    digest: &D,
    scrub: &F,
    rules: &str,
) -> (r: Result<Prepared, Rejection>)
    requires
        is_text_fn(*normalize),
        is_text_fn(*digest),
        is_scrubber(*scrub),
        ev.ts.valid(),
        now.valid(),
    ensures
        match rules_of_time.fault(ev, now) {
            Some((c, m)) => r is Err && r->Err_0.code == c && r->Err_0.message@ == m,
            None => r is Ok && prepared(
                r->Ok_0,
                ev,
                pid@,
                text_view(key_id),
                persistence,
                redactor.covers(pid@),
                fresh_id@,
                now,
                text_fn_of(*normalize),
                text_fn_of(*digest),
                rule_of(*scrub),
                rules@,
            ),
        },
{
    let a = take_in(ev, pid, key_id, fresh_id, now, normalize);
    let ghost ga = a;
    match rules_of_time.validate(&a, now) {
        Err(e) => {
            return Err(e);
        },
        Ok(_) => {},
    }
    let mut b = a;
    let input = b.input;
    let output = b.output;
    let p = apply_policy(input, output, persistence, digest);
    b.input = p.input;
    b.output = p.output;
    let ghost gb = b;
    assert(policy_on(gb, ga, persistence, text_fn_of(*digest)));
    let redacted = redactor.redact_event(b, persistence, scrub, rules);
    Ok(Prepared { redacted, policy_applied: p.applied })
}

/// Whether `r` is `ev` ready to be stored: prepared, and its cost settled.
pub open spec fn ready(
    r: LlmEvent,
    ev: LlmEvent,
    pid: Seq<char>,
    key_id: Option<Seq<char>>,
    persistence: Redaction,
    covered: bool,
    fresh_id: Seq<char>,
    now: Timestamp,
    normalize: TextRule,
    digest: TextRule,
    scrub: Rule,
    rules: Seq<char>,
    book_price: Option<Money>,
) -> bool {
    exists|p: Prepared|
        #[trigger] prepared(
            p,
            ev,
            pid,
            key_id,
            persistence,
            covered,
            fresh_id,
            now,
            normalize,
            digest,
            scrub,
            rules,
        ) && cost_settled(r, p.redacted.event, book_price)
}

/// What a project's row says about its events.
#[derive(Debug, Clone, Copy, PartialEq, Eq, Structural)]
pub struct ProjectPolicy {
    pub enabled: bool,
    pub redaction: Redaction,
}

/// The key a caller presented, by id.
pub open spec fn key_of(p: Principal) -> Option<Seq<char>> {
    match p {
        Principal::Project { key_id, .. } => Some(key_id@),
        _ => None,
    }
}

fn key_id_of(p: &Principal) -> (r: Option<&str>)
    ensures
        text_view(r) == key_of(*p),
{
    match p {
        Principal::Project { key_id, .. } => Some(key_id.as_str()),
        _ => None,
    }
}

/// Makes one event of one caller ready to be stored, on the single-event door: a project that is
/// switched off takes none, and an event with something wrong with it is refused in its own words.
pub fn ready_event<N: Fn(String) -> String, D: Fn(String) -> String, F: Fn(String) -> Scrubbed>(
    rules_of_time: &IngestPolicy,
    redactor: &Redactor,
    ev: LlmEvent,
    p: &Principal,
    pid: &str,
    policy: ProjectPolicy,
    book_price: Option<Money>,
    now: Timestamp,
    fresh_id: String,
    normalize: &N,
    digest: &D,
    scrub: &F,
    rules: &str,
) -> (r: Result<LlmEvent, ApiError>)
    requires
        is_text_fn(*normalize),
        is_text_fn(*digest),
        is_scrubber(*scrub),
        ev.ts.valid(),
        now.valid(),
    ensures
        !policy.enabled ==> fails_with(r, ErrorCode::ProjectDisabled, disabled_project_text(pid@)),
        policy.enabled ==> match rules_of_time.fault(ev, now) {
            Some((c, m)) => fails_with(r, c, m),
            None => r is Ok && ready(
                r->Ok_0,
                ev,
                pid@,
                key_of(*p),
                policy.redaction,
                redactor.covers(pid@),
                fresh_id@,
                now,
                text_fn_of(*normalize),
                text_fn_of(*digest),
                rule_of(*scrub),
                rules@,
                book_price,
            ),
        },
{
    match ensure_enabled(pid, policy.enabled) {
        Err(e) => {
            return Err(e);
        },
        Ok(_) => {},
    }
    let key_id = key_id_of(p);
    match prepare_event(
        rules_of_time,
        redactor,
        ev,
        pid,
        key_id,
        policy.redaction,
        now,
        fresh_id,
        normalize,
        digest,
        scrub,
        rules,
    ) {
        Err(e) => Err(e.into_error()),
        Ok(x) => Ok(settle_cost(x.redacted.event, book_price)),
    }
}

/// What the store decided about one event.
#[derive(Debug)]
pub struct Admission {
    pub admitted: bool,
    /// Every rule that applied.
    pub statuses: Vec<LimitStatus>,
    /// How long a refused caller should wait.
    pub retry_after_secs: Option<u64>,
}

/// What came of storing one event.
#[derive(Debug)]
pub enum InsertOutcome {
    /// The limits were evaluated; the event was stored where it was admitted.
    Decided(Admission),
    /// The id is taken. What a lookup under that id then found, if anything.
    Taken(Option<LlmEvent>),
    /// The store failed.
    Failed(StoreFailure),
}

/// The breached rules of an admission.
fn breached_of(statuses: &Vec<LimitStatus>) -> (r: Vec<LimitStatus>)
    ensures
        r@ == statuses@.filter(over()),
{
    let mut out: Vec<LimitStatus> = Vec::new();
    let mut i: usize = 0;
    proof {
        reveal(Seq::filter);
    }
    while i < statuses.len()
        invariant
            i <= statuses.len(),
            out@ == statuses@.take(i as int).filter(over()),
        decreases statuses.len() - i,
    {
        proof {
            filter_step(statuses@, i as int, over());
        }
        if statuses[i].breached {
            out.push(statuses[i].copied());
        }
        i += 1;
    }
    assert(statuses@.take(i as int) =~= statuses@);
    out
}

/// What a stored event is answered with.
#[derive(Debug)]
pub struct IngestResponse {
    pub id: String,
    pub project_id: String,
    pub cost: Option<Money>,
    pub ts: Timestamp,
    /// Breached rules that only observe.
    pub breached: Vec<LimitStatus>,
    /// Whether the event had been recorded before.
    pub duplicate: bool,
    /// The project's position against its caps.
    pub proximity: Proximity,
}

/// How an id that is taken by another call is refused.
pub open spec fn id_taken_text(id: Seq<char>) -> Seq<char> {
    "event '"@ + id + "' already exists with a different payload"@
}

fn id_taken_msg(id: &str) -> (r: String)
    ensures
        r@ == id_taken_text(id@),
{
    let mut m = "event '".to_owned();
    m.append(id);
    m.append("' already exists with a different payload");
    m
}

/// Whether `r` is the answer to an event that was stored, refused by a limit, sent before, or lost.
/// A refusal by a limit carries the wait and the position; a replay of the same call is acknowledged
/// with what was stored the first time; another call under the same id is a conflict.
pub open spec fn answers(r: Result<IngestResponse, ApiError>, ev: LlmEvent, o: InsertOutcome) -> bool {
    match o {
        InsertOutcome::Decided(a) => if a.admitted {
            &&& r is Ok
            &&& r->Ok_0.id == ev.id
            &&& r->Ok_0.project_id == ev.project_id
            &&& r->Ok_0.cost == ev.cost
            &&& r->Ok_0.ts == ev.ts
            &&& r->Ok_0.breached@ == a.statuses@.filter(over())
            &&& !r->Ok_0.duplicate
            &&& r->Ok_0.proximity@ == signal_of(a.statuses@)
        } else {
            &&& r is Err
            &&& r->Err_0.code == ErrorCode::RateLimited
            &&& r->Err_0.message@ == reason_text(a.statuses@)
            &&& r->Err_0.retry_after == a.retry_after_secs
            &&& r->Err_0.proximity is Some
            &&& r->Err_0.proximity->0@ == (ProximityView {
                retry_after_secs: a.retry_after_secs,
                ..signal_of(a.statuses@)
            })
        },
        InsertOutcome::Taken(found) => if found is Some && same_call(found->0, ev) {
            &&& r is Ok
            &&& r->Ok_0.id == ev.id
            &&& r->Ok_0.project_id == ev.project_id
            &&& r->Ok_0.cost == found->0.cost
            &&& r->Ok_0.ts == found->0.ts
            &&& r->Ok_0.breached@.len() == 0
            &&& r->Ok_0.duplicate
            &&& r->Ok_0.proximity@ == no_signal()
        } else {
            fails_with(r, ErrorCode::Conflict, id_taken_text(ev.id@))
        },
        InsertOutcome::Failed(f) => match f {
            StoreFailure::Conflict(m) => fails_with(r, ErrorCode::Conflict, m@),
            StoreFailure::Unsupported(what) => fails_with(
                r,
                ErrorCode::Unsupported,
                what@ + " is not supported by this store backend"@,
            ),
            StoreFailure::Other(m) => fails_with(r, ErrorCode::Internal, m@),
        },
    }
}

/// What an event is answered with once the store has spoken.
pub fn answer_event(ev: &LlmEvent, o: &InsertOutcome) -> (r: Result<IngestResponse, ApiError>)
    ensures
        answers(r, *ev, *o),
{
    match o {
        InsertOutcome::Decided(a) => {
            let mut prox = Proximity::of(&a.statuses);
            if !a.admitted {
                prox.retry_after_secs = a.retry_after_secs;
                let why = breach_reason(&a.statuses);
                return Err(
                    ApiError::rate_limited(why.as_str()).retry_after(a.retry_after_secs).proximity(
                        prox,
                    ),
                );
            }
            Ok(
                IngestResponse {
                    id: ev.id.clone(),
                    project_id: ev.project_id.clone(),
                    cost: copy_money(&ev.cost),
                    ts: ev.ts,
                    breached: breached_of(&a.statuses),
                    duplicate: false,
                    proximity: prox,
                },
            )
        },
        InsertOutcome::Taken(found) => {
            if let Some(s) = found {
                if same_logical_event(s, ev) {
                    return Ok(
                        IngestResponse {
                            id: ev.id.clone(),
                            project_id: ev.project_id.clone(),
                            cost: copy_money(&s.cost),
                            ts: s.ts,
                            breached: Vec::new(),
                            duplicate: true,
                            proximity: Proximity::none(),
                        },
                    );
                }
            }
            let m = id_taken_msg(ev.id.as_str());
            Err(ApiError::conflict(m.as_str()))
        },
        InsertOutcome::Failed(f) => Err(ApiError::from_store(f)),
    }
}

// ------------------------------------------------------------------ batches

/// How an empty batch is refused.
pub const EMPTY_BATCH_MSG: &'static str = "batch must contain at least one event";

/// How a batch over the limit is refused.
pub open spec fn large_batch_text(n: nat, cap: nat) -> Seq<char> {
    "batch of "@ + dec(n) + " events exceeds the limit of "@ + dec(cap)
        + " (see LIGHTTRACK_MAX_BATCH)"@
}

/// Refuses an empty batch and one over the limit, before any item is processed.
pub fn check_batch(n: usize, cap: usize) -> (r: Result<(), ApiError>)
    ensures
        n == 0 ==> fails_with(r, ErrorCode::BadRequest, EMPTY_BATCH_MSG@),
        n > 0 && n > cap ==> fails_with(
            r,
            ErrorCode::BadRequest,
            large_batch_text(n as nat, cap as nat),
        ),
        0 < n <= cap ==> r is Ok,
{
    if n == 0 {
        return Err(ApiError::bad_request(EMPTY_BATCH_MSG));
    }
    if n > cap {
        let a = show_usize(n);
        let b = show_usize(cap);
        let mut m = "batch of ".to_owned();
        m.append(a.as_str());
        m.append(" events exceeds the limit of ");
        m.append(b.as_str());
        m.append(" (see LIGHTTRACK_MAX_BATCH)");
        return Err(ApiError::bad_request(m.as_str()));
    }
    Ok(())
}

/// One item's outcome.
#[derive(Debug)]
#[allow(inconsistent_fields)]
pub enum BatchItem {
    /// Stored, or recorded before.
    Accepted {
        index: usize,
        id: String,
        cost: Option<Money>,
        duplicate: bool,
        breached: Vec<LimitStatus>,
    },
    /// Turned away by a limit.
    Rejected {
        index: usize,
        id: String,
        code: ErrorCode,
        reason: String,
        breached: Vec<LimitStatus>,
    },
    /// Refused for what it is, or not stored for another reason.
    Invalid { index: usize, id: Option<String>, code: ErrorCode, reason: String },
}

impl BatchItem {
    /// The item's position in the request.
    pub open spec fn at(self) -> usize {
        match self {
            BatchItem::Accepted { index, .. } => index,
            BatchItem::Rejected { index, .. } => index,
            BatchItem::Invalid { index, .. } => index,
        }
    }
}

/// An item of a batch after preparation.
#[derive(Debug)]
pub enum Slot {
    /// Goes to the store.
    Ready(LlmEvent),
    /// Does not.
    Refused { id: Option<String>, code: ErrorCode, reason: String },
}

/// The id an item is reported under: its own, where it has one.
pub fn item_id(ev: &LlmEvent) -> (r: Option<String>)
    ensures
        ev.id@.len() == 0 ==> r is None,
        ev.id@.len() > 0 ==> r is Some && r->0@ == ev.id@,
{
    if ev.id.as_str().is_empty() {
        None
    } else {
        Some(ev.id.clone())
    }
}

/// An item that belongs to no project.
pub fn no_project(id: Option<String>) -> (r: Slot)
    ensures
        r matches Slot::Refused { id: i, code, reason } && i == id && code == ErrorCode::BadRequest
            && reason@ == "project_id is required"@,
{
    Slot::Refused {
        id,
        code: ErrorCode::BadRequest,
        reason: "project_id is required".to_owned(),
    }
}

/// An item whose project could not be read.
pub fn no_policy(id: Option<String>, e: &ApiError) -> (r: Slot)
    ensures
        r matches Slot::Refused { id: i, code, reason } && i == id && code == ErrorCode::Internal
            && reason@ == "could not resolve project policy: "@ + (e.code.wire() + ": "@
            + e.message@),
{
    let t = e.to_text();
    let mut m = "could not resolve project policy: ".to_owned();
    m.append(t.as_str());
    Slot::Refused { id, code: ErrorCode::Internal, reason: m }
}

/// An item whose project is switched off.
pub fn disabled_item(id: Option<String>, pid: &str) -> (r: Slot)
    ensures
        r matches Slot::Refused { id: i, code, reason } && i == id && code
            == ErrorCode::ProjectDisabled && reason@ == disabled_project_text(pid@),
{
    Slot::Refused { id, code: ErrorCode::ProjectDisabled, reason: disabled_project_msg(pid) }
}

/// An item that did not pass validation: the rejection's own code and words.
pub fn rejected_item(id: Option<String>, e: Rejection) -> (r: Slot)
    ensures
        r == (Slot::Refused { id, code: e.code, reason: e.message }),
{
    Slot::Refused { id, code: e.code, reason: e.message }
}

/// Which project an item of a batch belongs to, or the item's outcome where it belongs to none.
pub fn item_project(p: &Principal, ev: &LlmEvent) -> (r: Result<String, Slot>)
    ensures
        match ingest_target(*p, ev.project_id@) {
            Some(pid) => r is Ok && r->Ok_0@ == pid,
            None => r is Err && (r->Err_0 matches Slot::Refused { id, code, reason } && is_item_id(
                id,
                *ev,
            ) && code == ErrorCode::BadRequest && reason@ == "project_id is required"@),
        },
{
    match resolve_ingest_project(p, ev.project_id.as_str()) {
        Ok(pid) => Ok(pid),
        Err(_) => Err(no_project(item_id(ev))),
    }
}

/// Whether `id` is what an item is reported under.
pub open spec fn is_item_id(id: Option<String>, ev: LlmEvent) -> bool {
    if ev.id@.len() == 0 {
        id is None
    } else {
        id is Some && id->0@ == ev.id@
    }
}

/// Makes one item of a batch ready to be stored, by the same rules as the single-event door. An item
/// that cannot be is refused by itself and leaves the others alone.
pub fn batch_slot<N: Fn(String) -> String, D: Fn(String) -> String, F: Fn(String) -> Scrubbed>(
    rules_of_time: &IngestPolicy,
    redactor: &Redactor,
    ev: LlmEvent,
    p: &Principal,
    pid: &str,
    policy: Result<ProjectPolicy, ApiError>,
    book_price: Option<Money>,
    now: Timestamp,
    fresh_id: String,
    normalize: &N,
    digest: &D,
    scrub: &F,
    rules: &str,
) -> (r: Slot)
    requires
        is_text_fn(*normalize),
        is_text_fn(*digest),
        is_scrubber(*scrub),
        ev.ts.valid(),
        now.valid(),
    ensures
        match policy {
            Err(e) => r matches Slot::Refused { id, code, reason } && is_item_id(id, ev) && code
                == ErrorCode::Internal && reason@ == "could not resolve project policy: "@ + (
            e.code.wire() + ": "@ + e.message@),
            Ok(policy) => if !policy.enabled {
                r matches Slot::Refused { id, code, reason } && is_item_id(id, ev) && code
                    == ErrorCode::ProjectDisabled && reason@ == disabled_project_text(pid@)
            } else {
                match rules_of_time.fault(ev, now) {
                    Some((c, m)) => r matches Slot::Refused { id, code, reason } && is_item_id(id, ev)
                        && code == c && reason@ == m,
                    None => r is Ready && ready(
                        r->Ready_0,
                        ev,
                        pid@,
                        key_of(*p),
                        policy.redaction,
                        redactor.covers(pid@),
                        fresh_id@,
                        now,
                        text_fn_of(*normalize),
                        text_fn_of(*digest),
                        rule_of(*scrub),
                        rules@,
                        book_price,
                    ),
                }
            },
        },
{
    let id = item_id(&ev);
    let policy = match policy {
        Err(e) => {
            return no_policy(id, &e);
        },
        Ok(x) => x,
    };
    if !policy.enabled {
        return disabled_item(id, pid);
    }
    let key_id = key_id_of(p);
    match prepare_event(
        rules_of_time,
        redactor,
        ev,
        pid,
        key_id,
        policy.redaction,
        now,
        fresh_id,
        normalize,
        digest,
        scrub,
        rules,
    ) {
        Err(e) => rejected_item(id, e),
        Ok(x) => Slot::Ready(settle_cost(x.redacted.event, book_price)),
    }
}

/// How a store failure is reported on an item: the detail stays in the log.
pub const STORE_ERROR_MSG: &'static str = "store error (see server logs)";

/// Whether `r` is what one item comes to: the same outcome as on the single-event door.
pub open spec fn item_answers(r: BatchItem, index: int, ev: LlmEvent, o: InsertOutcome) -> bool {
    match o {
        InsertOutcome::Decided(a) => if a.admitted {
            r matches BatchItem::Accepted { index: x, id, cost, duplicate, breached } && x == index
                && id == ev.id && cost == ev.cost && !duplicate && breached@
                == a.statuses@.filter(over())
        } else {
            r matches BatchItem::Rejected { index: x, id, code, reason, breached } && x == index
                && id == ev.id && code == ErrorCode::RateLimited && reason@ == reason_text(
                a.statuses@,
            ) && breached@ == a.statuses@.filter(over())
        },
        InsertOutcome::Taken(found) => if found is Some && same_call(found->0, ev) {
            r matches BatchItem::Accepted { index: x, id, cost, duplicate, breached } && x == index
                && id == ev.id && cost == found->0.cost && duplicate && breached@.len() == 0
        } else {
            r matches BatchItem::Invalid { index: x, id, code, reason } && x == index && id == Some(
                ev.id,
            ) && code == ErrorCode::Conflict && reason@ == id_taken_text(ev.id@)
        },
        InsertOutcome::Failed(_) => {
            r matches BatchItem::Invalid { index: x, id, code, reason } && x == index && id == Some(
                ev.id,
            ) && code == ErrorCode::Internal && reason@ == STORE_ERROR_MSG@
        },
    }
}

/// The position one item's admission shows; none where admission was not run.
pub open spec fn item_signal(o: InsertOutcome) -> ProximityView {
    match o {
        InsertOutcome::Decided(a) => if a.admitted {
            signal_of(a.statuses@)
        } else {
            ProximityView { retry_after_secs: a.retry_after_secs, ..signal_of(a.statuses@) }
        },
        _ => no_signal(),
    }
}

fn settle_item(index: usize, ev: &LlmEvent, o: &InsertOutcome) -> (r: (BatchItem, Proximity))
    ensures
        item_answers(r.0, index as int, *ev, *o),
        r.1@ == item_signal(*o),
{
    match o {
        InsertOutcome::Decided(a) => {
            let mut prox = Proximity::of(&a.statuses);
            let breached = breached_of(&a.statuses);
            if a.admitted {
                let item = BatchItem::Accepted {
                    index,
                    id: ev.id.clone(),
                    cost: copy_money(&ev.cost),
                    duplicate: false,
                    breached,
                };
                (item, prox)
            } else {
                prox.retry_after_secs = a.retry_after_secs;
                let item = BatchItem::Rejected {
                    index,
                    id: ev.id.clone(),
                    code: ErrorCode::RateLimited,
                    reason: breach_reason(&a.statuses),
                    breached,
                };
                (item, prox)
            }
        },
        InsertOutcome::Taken(found) => {
            if let Some(s) = found {
                if same_logical_event(s, ev) {
                    let item = BatchItem::Accepted {
                        index,
                        id: ev.id.clone(),
                        cost: copy_money(&s.cost),
                        duplicate: true,
                        breached: Vec::new(),
                    };
                    return (item, Proximity::none());
                }
            }
            let item = BatchItem::Invalid {
                index,
                id: Some(ev.id.clone()),
                code: ErrorCode::Conflict,
                reason: id_taken_msg(ev.id.as_str()),
            };
            (item, Proximity::none())
        },
        InsertOutcome::Failed(_) => {
            let item = BatchItem::Invalid {
                index,
                id: Some(ev.id.clone()),
                code: ErrorCode::Internal,
                reason: STORE_ERROR_MSG.to_owned(),
            };
            (item, Proximity::none())
        },
    }
}

/// How many of the first `n` items go to the store.
pub open spec fn ready_before(slots: Seq<Slot>, n: int) -> int
    decreases n,
{
    if n <= 0 {
        0
    } else {
        ready_before(slots, n - 1) + (if slots[n - 1] is Ready {
            1int
        } else {
            0int
        })
    }
}

proof fn ready_before_grows(slots: Seq<Slot>, i: int, n: int)
    requires
        0 <= i <= n <= slots.len(),
    ensures
        0 <= ready_before(slots, i) <= ready_before(slots, n) <= n,
    decreases n,
{
    if i < n {
        ready_before_grows(slots, i, n - 1);
    } else if n > 0 {
        ready_before_grows(slots, i - 1, n - 1);
    }
}

/// The position of a whole batch: every admission's, merged in order.
pub open spec fn batch_signal(o: Seq<InsertOutcome>) -> ProximityView
    decreases o.len(),
{
    if o.len() == 0 {
        no_signal()
    } else {
        merged(batch_signal(o.drop_last()), item_signal(o.last()))
    }
}

/// Whether `r` is the outcome of item `i`: what the store's outcome comes to, or the refusal that kept
/// it from the store.
pub open spec fn settles(r: BatchItem, i: int, slots: Seq<Slot>, o: Seq<InsertOutcome>) -> bool {
    match slots[i] {
        Slot::Ready(ev) => item_answers(r, i, ev, o[ready_before(slots, i)]),
        Slot::Refused { id, code, reason } => {
            r matches BatchItem::Invalid { index: x, id: d, code: c, reason: w } && x == i && d == id
                && c == code && w == reason
        },
    }
}

/// How many of `items` were accepted.
pub open spec fn accepted_in(items: Seq<BatchItem>) -> nat
    decreases items.len(),
{
    if items.len() == 0 {
        0
    } else {
        accepted_in(items.drop_last()) + (if items.last() is Accepted {
            1nat
        } else {
            0nat
        })
    }
}

/// How many of `items` were rejected by a limit.
pub open spec fn rejected_in(items: Seq<BatchItem>) -> nat
    decreases items.len(),
{
    if items.len() == 0 {
        0
    } else {
        rejected_in(items.drop_last()) + (if items.last() is Rejected {
            1nat
        } else {
            0nat
        })
    }
}

/// How many of `items` were invalid.
pub open spec fn invalid_in(items: Seq<BatchItem>) -> nat
    decreases items.len(),
{
    if items.len() == 0 {
        0
    } else {
        invalid_in(items.drop_last()) + (if items.last() is Invalid {
            1nat
        } else {
            0nat
        })
    }
}

/// What a batch is answered with.
#[derive(Debug)]
pub struct BatchResponse {
    pub accepted: usize,
    pub rejected: usize,
    pub invalid: usize,
    /// One outcome per item, in the items' order.
    pub results: Vec<BatchItem>,
    /// The project's position against its caps, over the whole batch.
    pub proximity: Proximity,
}

/// What a batch is answered with once the store has spoken about every item that went to it, in order.
pub fn settle_batch(slots: &Vec<Slot>, outcomes: &Vec<InsertOutcome>) -> (r: BatchResponse)
    requires
        outcomes@.len() == ready_before(slots@, slots@.len() as int),
    ensures
        r.results@.len() == slots@.len(),
        forall|i: int|
            0 <= i < slots@.len() ==> settles(#[trigger] r.results@[i], i, slots@, outcomes@),
        r.accepted == accepted_in(r.results@),
        r.rejected == rejected_in(r.results@),
        r.invalid == invalid_in(r.results@),
        r.proximity@ == batch_signal(outcomes@),
{
    let mut results: Vec<BatchItem> = Vec::new();
    let mut prox = Proximity::none();
    let mut accepted: usize = 0;
    let mut rejected: usize = 0;
    let mut invalid: usize = 0;
    let mut k: usize = 0;
    let mut i: usize = 0;
    assert(outcomes@.take(0) =~= seq![]);
    while i < slots.len()
        invariant
            i <= slots.len(),
            outcomes@.len() == ready_before(slots@, slots@.len() as int),
            k == ready_before(slots@, i as int),
            results@.len() == i,
            forall|j: int|
                0 <= j < i ==> settles(#[trigger] results@[j], j, slots@, outcomes@),
            accepted == accepted_in(results@),
            rejected == rejected_in(results@),
            invalid == invalid_in(results@),
            accepted + rejected + invalid == i,
            prox@ == batch_signal(outcomes@.take(k as int)),
            k <= outcomes@.len(),
        decreases slots.len() - i,
    {
        proof {
            ready_before_grows(slots@, i as int, slots@.len() as int);
            ready_before_grows(slots@, i + 1, slots@.len() as int);
        }
        let ghost before = results@;
        match &slots[i] {
            Slot::Ready(ev) => {
                let (item, p) = settle_item(i, ev, &outcomes[k]);
                assert(outcomes@.take(k + 1).drop_last() =~= outcomes@.take(k as int));
                prox.merge(&p);
                match &item {
                    BatchItem::Accepted { .. } => {
                        accepted += 1;
                    },
                    BatchItem::Rejected { .. } => {
                        rejected += 1;
                    },
                    BatchItem::Invalid { .. } => {
                        invalid += 1;
                    },
                }
                results.push(item);
                k += 1;
            },
            Slot::Refused { id, code, reason } => {
                invalid += 1;
                results.push(
                    BatchItem::Invalid {
                        index: i,
                        id: crate::text::clone_opt(id),
                        code: *code,
                        reason: reason.clone(),
                    },
                );
            },
        }
        assert(results@.drop_last() =~= before);
        i += 1;
    }
    assert(outcomes@.take(k as int) =~= outcomes@);
    BatchResponse { accepted, rejected, invalid, results, proximity: prox }
}

/// Every item of a batch is counted exactly once: accepted, rejected and invalid add up to the batch.
pub proof fn batch_counts_add_up(items: Seq<BatchItem>)
    ensures
        accepted_in(items) + rejected_in(items) + invalid_in(items) == items.len(),
    decreases items.len(),
{
    if items.len() > 0 {
        batch_counts_add_up(items.drop_last());
    }
}

/// Every outcome names the item it belongs to: the outcome in position `i` is about item `i`.
pub proof fn outcomes_are_positional(r: BatchItem, i: int, slots: Seq<Slot>, o: Seq<InsertOutcome>)
    requires
        0 <= i < slots.len(),
        settles(r, i, slots, o),
    ensures
        r.at() == i,
{
}

/// A batch cannot pass off a refused item: nothing that preparation refused is ever reported as
/// accepted.
pub proof fn a_refused_item_is_never_accepted(r: BatchItem, i: int, slots: Seq<Slot>, o: Seq<InsertOutcome>)
    requires
        0 <= i < slots.len(),
        slots[i] is Refused,
        settles(r, i, slots, o),
    ensures
        r is Invalid,
{
}

/// Resending a call that was recorded is acknowledged on both doors and never counted again.
pub proof fn a_replay_is_acknowledged(
    r: Result<IngestResponse, ApiError>,
    item: BatchItem,
    index: int,
    ev: LlmEvent,
    stored: LlmEvent,
)
    requires
        same_call(stored, ev),
        answers(r, ev, InsertOutcome::Taken(Some(stored))),
        item_answers(item, index, ev, InsertOutcome::Taken(Some(stored))),
    ensures
        r is Ok && r->Ok_0.duplicate && r->Ok_0.cost == stored.cost,
        item is Accepted && item->duplicate && item->Accepted_cost == stored.cost,
{
}

/// Where a ready event lands and when it arrived are the server's word, whatever the client sent.
pub proof fn a_ready_event_is_where_the_server_put_it(
    r: LlmEvent,
    ev: LlmEvent,
    pid: Seq<char>,
    key_id: Option<Seq<char>>,
    persistence: Redaction,
    covered: bool,
    fresh_id: Seq<char>,
    now: Timestamp,
    normalize: TextRule,
    digest: TextRule,
    scrub: Rule,
    rules: Seq<char>,
    book_price: Option<Money>,
)
    requires
        ready(
            r,
            ev,
            pid,
            key_id,
            persistence,
            covered,
            fresh_id,
            now,
            normalize,
            digest,
            scrub,
            rules,
            book_price,
        ),
    ensures
        r.project_id@ == pid,
        r.received_at == now,
        r.ts == ev.ts,
        r.usage == ev.usage,
        r.provider == ev.provider,
        r.model == ev.model,
{
    let p = choose|p: Prepared|
        #[trigger] prepared(
            p,
            ev,
            pid,
            key_id,
            persistence,
            covered,
            fresh_id,
            now,
            normalize,
            digest,
            scrub,
            rules,
        ) && cost_settled(r, p.redacted.event, book_price);
    let (a, b) = choose|a: LlmEvent, b: LlmEvent|
        taken_in(a, ev, pid, key_id, fresh_id, now, normalize) && #[trigger] policy_on(
            b,
            a,
            persistence,
            digest,
        ) && redacts(p.redacted, b, covered, persistence, scrub, rules);
    assert(redacts(p.redacted, b, covered, persistence, scrub, rules));
}

/// Nobody's spend can be put on another's account: a ready event names the key that sent it or names
/// none, whatever its metadata said when it arrived.
pub proof fn a_ready_event_names_no_other_key(
    r: LlmEvent,
    ev: LlmEvent,
    pid: Seq<char>,
    key_id: Option<Seq<char>>,
    persistence: Redaction,
    covered: bool,
    fresh_id: Seq<char>,
    now: Timestamp,
    normalize: TextRule,
    digest: TextRule,
    scrub: Rule,
    rules: Seq<char>,
    book_price: Option<Money>,
)
    requires
        ready(
            r,
            ev,
            pid,
            key_id,
            persistence,
            covered,
            fresh_id,
            now,
            normalize,
            digest,
            scrub,
            rules,
            book_price,
        ),
    ensures
        field(r.metadata@, "api_key_id"@) is None || (key_id is Some && field(
            r.metadata@,
            "api_key_id"@,
        ) == Some(JsonView::Str(key_id->0))),
{
    reveal_strlit("api_key_id");
    reveal_strlit("cost_source");
    let k = "api_key_id"@;
    assert(k.len() == 10 && "cost_source"@.len() == 11);
    let p = choose|p: Prepared|
        #[trigger] prepared(
            p,
            ev,
            pid,
            key_id,
            persistence,
            covered,
            fresh_id,
            now,
            normalize,
            digest,
            scrub,
            rules,
        ) && cost_settled(r, p.redacted.event, book_price);
    let (a, b) = choose|a: LlmEvent, b: LlmEvent|
        taken_in(a, ev, pid, key_id, fresh_id, now, normalize) && #[trigger] policy_on(
            b,
            a,
            persistence,
            digest,
        ) && redacts(p.redacted, b, covered, persistence, scrub, rules);
    attribution_is_server_owned(ev.metadata@, key_id);
    named_key_survives(p.redacted, b, covered, persistence, scrub, rules);
    let mid = p.redacted.event.metadata@;
    let m = mid->Obj_0;
    put_reads_back(m, "cost_source"@, JsonView::Str("client"@), k);
    put_reads_back(m, "cost_source"@, JsonView::Str("book"@), k);
}

/// What redaction leaves of the key an event names: what stood there, or nothing.
proof fn named_key_survives(
    r: Redacted,
    ev: LlmEvent,
    covered: bool,
    policy: Redaction,
    g: Rule,
    rules: Seq<char>,
)
    requires
        redacts(r, ev, covered, policy, g, rules),
    ensures
        r.event.metadata@ is Obj,
        field(r.event.metadata@, "api_key_id"@) is None || field(r.event.metadata@, "api_key_id"@)
            == field(ev.metadata@, "api_key_id"@),
{
    reveal_strlit("api_key_id");
    reveal_strlit("redaction");
    reveal_strlit("value");
    let k = "api_key_id"@;
    assert(k.len() == 10 && "redaction"@.len() == 9 && "value"@.len() == 5);
    let bare = choose|bare: LlmEvent| #[trigger]
        unclaimed(ev, bare) && redacts_bare(r, bare, covered, policy, g, rules);
    if ev.metadata@ is Obj && !r.failed {
        accounting_keys_pass(r, ev, covered, policy, g, rules, k);
    } else {
        let m = r.event.metadata@->Obj_0;
        assert(forall|j: int| 0 <= j < m.len() ==> !named(k)(#[trigger] m[j]));
        first_where_none(m, named(k));
    }
}

/// What is the server's business of a ready event, and what is not: each trace reference depends on the
/// reference of the same name alone, the cost is the client's before the book's, the id is the client's
/// unless it is blank, and what describes the call stays as it was sent.
pub proof fn a_ready_event_keeps_each_field_its_own<
    N: Fn(String) -> String,
    D: Fn(String) -> String,
    F: Fn(String) -> Scrubbed,
>(
    rules_of_time: &IngestPolicy,
    redactor: &Redactor,
    ev: LlmEvent,
    p: &Principal,
    pid: &str,
    policy: ProjectPolicy,
    book_price: Option<Money>,
    now: Timestamp,
    fresh_id: String,
    normalize: &N,
    digest: &D,
    scrub: &F,
    rules: &str,
    single: Result<LlmEvent, ApiError>,
    item: Slot,
    r: LlmEvent,
)
    requires
        is_text_fn(*normalize),
        is_text_fn(*digest),
        is_scrubber(*scrub),
        ev.ts.valid(),
        now.valid(),
        call_ensures(
            ready_event::<N, D, F>,
            (
                rules_of_time,
                redactor,
                ev,
                p,
                pid,
                policy,
                book_price,
                now,
                fresh_id,
                normalize,
                digest,
                scrub,
                rules,
            ),
            single,
        ),
        call_ensures(
            batch_slot::<N, D, F>,
            (
                rules_of_time,
                redactor,
                ev,
                p,
                pid,
                Ok(policy),
                book_price,
                now,
                fresh_id,
                normalize,
                digest,
                scrub,
                rules,
            ),
            item,
        ),
        single == Ok::<LlmEvent, ApiError>(r) || item == Slot::Ready(r),
    ensures
        policy.enabled,
        ev.trace_id is Some <==> r.trace_id is Some,
        ev.span_id is Some <==> r.span_id is Some,
        ev.parent_span_id is Some <==> r.parent_span_id is Some,
        r.trace_id is Some ==> r.trace_id->0@ == text_fn_of(*normalize)(ev.trace_id->0@),
        r.span_id is Some ==> r.span_id->0@ == text_fn_of(*normalize)(ev.span_id->0@),
        r.parent_span_id is Some ==> r.parent_span_id->0@ == text_fn_of(*normalize)(
            ev.parent_span_id->0@,
        ),
        r.project_id@ == pid@,
        r.received_at == now,
        blank(ev.id@) ==> r.id@ == fresh_id@,
        !blank(ev.id@) ==> r.id@ == ev.id@,
        ev.cost is Some ==> r.cost == ev.cost,
        ev.cost is None ==> r.cost == book_price,
        r.ts == ev.ts,
        r.provider == ev.provider,
        r.model == ev.model,
        r.operation == ev.operation,
        r.usage == ev.usage,
        r.latency_ms == ev.latency_ms,
        r.status == ev.status,
        !redactor.covers(pid@) ==> r.name == ev.name && r.source == ev.source && r.error == ev.error
            && r.tags == ev.tags,
        !redactor.covers(pid@) && policy.redaction == Redaction::Keep ==> r.input == ev.input && r.output
            == ev.output,
        !redactor.covers(pid@) && policy.redaction == Redaction::Drop ==> r.input is None && r.output is None,
        policy.redaction == Redaction::Hash && !redactor.covers(pid@) ==> (r.input is Some <==> ev.input is Some)
            && (r.output is Some <==> ev.output is Some),
        (single is Ok) <==> (item is Ready),
{
    if policy.enabled && rules_of_time.fault(ev, now) is None {
        ready_is_its_own(
            r,
            ev,
            pid@,
            key_of(*p),
            policy.redaction,
            redactor.covers(pid@),
            fresh_id@,
            now,
            text_fn_of(*normalize),
            text_fn_of(*digest),
            rule_of(*scrub),
            rules@,
            book_price,
        );
    }
}

proof fn ready_is_its_own(
    r: LlmEvent,
    ev: LlmEvent,
    pid: Seq<char>,
    key_id: Option<Seq<char>>,
    persistence: Redaction,
    covered: bool,
    fresh_id: Seq<char>,
    now: Timestamp,
    normalize: TextRule,
    digest: TextRule,
    scrub: Rule,
    rules: Seq<char>,
    book_price: Option<Money>,
)
    requires
        ready(
            r,
            ev,
            pid,
            key_id,
            persistence,
            covered,
            fresh_id,
            now,
            normalize,
            digest,
            scrub,
            rules,
            book_price,
        ),
    ensures
        ev.trace_id is Some <==> r.trace_id is Some,
        ev.span_id is Some <==> r.span_id is Some,
        ev.parent_span_id is Some <==> r.parent_span_id is Some,
        r.trace_id is Some ==> r.trace_id->0@ == normalize(ev.trace_id->0@),
        r.span_id is Some ==> r.span_id->0@ == normalize(ev.span_id->0@),
        r.parent_span_id is Some ==> r.parent_span_id->0@ == normalize(ev.parent_span_id->0@),
        r.project_id@ == pid,
        r.received_at == now,
        blank(ev.id@) ==> r.id@ == fresh_id,
        !blank(ev.id@) ==> r.id@ == ev.id@,
        ev.cost is Some ==> r.cost == ev.cost,
        ev.cost is None ==> r.cost == book_price,
        r.ts == ev.ts,
        r.provider == ev.provider,
        r.model == ev.model,
        r.operation == ev.operation,
        r.usage == ev.usage,
        r.latency_ms == ev.latency_ms,
        r.status == ev.status,
        !covered ==> r.name == ev.name && r.source == ev.source && r.error == ev.error && r.tags
            == ev.tags,
        !covered && persistence == Redaction::Keep ==> r.input == ev.input && r.output == ev.output,
        !covered && persistence == Redaction::Drop ==> r.input is None && r.output is None,
        !covered && persistence == Redaction::Hash ==> (r.input is Some <==> ev.input is Some) && (
        r.output is Some <==> ev.output is Some),
{
    let p = choose|p: Prepared|
        #[trigger] prepared(
            p,
            ev,
            pid,
            key_id,
            persistence,
            covered,
            fresh_id,
            now,
            normalize,
            digest,
            scrub,
            rules,
        ) && cost_settled(r, p.redacted.event, book_price);
    let (a, b) = choose|a: LlmEvent, b: LlmEvent|
        taken_in(a, ev, pid, key_id, fresh_id, now, normalize) && #[trigger] policy_on(
            b,
            a,
            persistence,
            digest,
        ) && redacts(p.redacted, b, covered, persistence, scrub, rules);
    assert(redacts(p.redacted, b, covered, persistence, scrub, rules));
}

/// How a ready event's price came about and what became of its payloads is recorded on it: the source of
/// the cost where it has one, and the stamp of the redaction always.
pub proof fn a_ready_event_says_what_was_done_to_it(
    r: LlmEvent,
    ev: LlmEvent,
    pid: Seq<char>,
    key_id: Option<Seq<char>>,
    persistence: Redaction,
    covered: bool,
    fresh_id: Seq<char>,
    now: Timestamp,
    normalize: TextRule,
    digest: TextRule,
    scrub: Rule,
    rules: Seq<char>,
    book_price: Option<Money>,
)
    requires
        ready(
            r,
            ev,
            pid,
            key_id,
            persistence,
            covered,
            fresh_id,
            now,
            normalize,
            digest,
            scrub,
            rules,
            book_price,
        ),
    ensures
        ev.cost is Some ==> field(r.metadata@, "cost_source"@) == Some(JsonView::Str("client"@)),
        ev.cost is None && book_price is Some ==> field(r.metadata@, "cost_source"@) == Some(
            JsonView::Str("book"@),
        ),
        field(r.metadata@, "redaction"@) is Some,
        ({
            let s = field(r.metadata@, "redaction"@)->0;
            &&& field(s, "scrub"@) == Some(JsonView::Bool(covered))
            &&& field(s, "policy"@) == Some(
                JsonView::Str(
                    match persistence {
                        Redaction::Keep => "none"@,
                        Redaction::Drop => "drop"@,
                        Redaction::Hash => "hash"@,
                    },
                ),
            )
            &&& covered ==> field(s, "rules"@) == Some(JsonView::Str(rules))
            &&& !covered ==> field(s, "rules"@) == Some(JsonView::Str(""@))
            &&& !covered ==> field(s, "spans"@) == Some(JsonView::Num(crate::json::NumberView::Pos(0)))
        }),
{
    reveal_strlit("redaction");
    reveal_strlit("cost_source");
    assert("redaction"@.len() == 9 && "cost_source"@.len() == 11);
    let p = choose|p: Prepared|
        #[trigger] prepared(
            p,
            ev,
            pid,
            key_id,
            persistence,
            covered,
            fresh_id,
            now,
            normalize,
            digest,
            scrub,
            rules,
        ) && cost_settled(r, p.redacted.event, book_price);
    let (a, b) = choose|a: LlmEvent, b: LlmEvent|
        taken_in(a, ev, pid, key_id, fresh_id, now, normalize) && #[trigger] policy_on(
            b,
            a,
            persistence,
            digest,
        ) && redacts(p.redacted, b, covered, persistence, scrub, rules);
    assert(redacts(p.redacted, b, covered, persistence, scrub, rules));
    assert(p.redacted.event.cost == ev.cost);
    named_key_survives(p.redacted, b, covered, persistence, scrub, rules);
    let mid = p.redacted.event.metadata@;
    let m = mid->Obj_0;
    let c = "cost_source"@;
    put_reads_back(m, c, JsonView::Str("client"@), c);
    put_reads_back(m, c, JsonView::Str("book"@), c);
    put_reads_back(m, c, JsonView::Str("client"@), "redaction"@);
    put_reads_back(m, c, JsonView::Str("book"@), "redaction"@);
    a_stamp_says_what_was_done(p.redacted, b, covered, persistence, scrub, rules);
}

// ------------------------------------------------------------------ what is answered

/// Whether a list holds the breached rules of some statuses: all of them, and nothing else.
pub open spec fn holds_breached(v: Seq<LimitStatus>, s: Seq<LimitStatus>) -> bool {
    &&& forall|i: int| 0 <= i < v.len() ==> (#[trigger] v[i]).breached && s.contains(v[i])
    &&& forall|i: int| 0 <= i < s.len() && (#[trigger] s[i]).breached ==> v.contains(s[i])
}

proof fn breached_are_held(s: Seq<LimitStatus>)
    ensures
        holds_breached(s.filter(over()), s),
{
    filter_members(s, over());
    let v = s.filter(over());
    assert forall|i: int| 0 <= i < v.len() implies (#[trigger] v[i]).breached && s.contains(v[i]) by {
        assert(v.contains(v[i]));
        assert(over()(v[i]));
    }
    assert forall|i: int| 0 <= i < s.len() && (#[trigger] s[i]).breached implies v.contains(s[i]) by {
        filter_keeps(s, over(), i);
    }
}

/// An event that was let in is answered with its own id, project, cost and time, with the caps it
/// crossed, and with the position its admission shows; one that was not is told to wait as long as the
/// store said, in the words of the rule that refused it.
pub proof fn a_decision_is_answered(
    ev: &LlmEvent,
    o: &InsertOutcome,
    a: Admission,
    r: Result<IngestResponse, ApiError>,
    statuses: &Vec<LimitStatus>,
    signal: Proximity,
    why: String,
)
    requires
        *o == InsertOutcome::Decided(a),
        *statuses == a.statuses,
        call_ensures(answer_event, (ev, o), r),
        call_ensures(Proximity::of, (statuses,), signal),
        call_ensures(breach_reason, (statuses,), why),
    ensures
        r is Ok <==> a.admitted,
        r is Ok ==> {
            let x = r->Ok_0;
            &&& x.id@ == ev.id@ && x.project_id@ == ev.project_id@ && x.cost == ev.cost && x.ts == ev.ts
            &&& !x.duplicate
            &&& holds_breached(x.breached@, a.statuses@)
            &&& x.proximity@ == signal@
        },
        r is Err ==> {
            let e = r->Err_0;
            &&& e.code is RateLimited && e.message@ == why@ && e.retry_after == a.retry_after_secs
            &&& e.proximity is Some
            &&& e.proximity->0.retry_after_secs == a.retry_after_secs
            &&& ratio_view(e.proximity->0.usage_ratio) == ratio_view(signal.usage_ratio)
            &&& ratio_view(e.proximity->0.shed_fraction) == ratio_view(signal.shed_fraction)
        },
{
    breached_are_held(a.statuses@);
    if r is Err {
        let p = r->Err_0.proximity->0;
        assert(p@.usage == signal@.usage && p@.shed == signal@.shed);
    }
}

/// An id that is taken is acknowledged, with the cost and time of the first recording, exactly where the
/// very same call was recorded under it; any other is a conflict; and a store that fails is told as it
/// is.
pub proof fn a_taken_id_is_answered(
    ev: &LlmEvent,
    o: &InsertOutcome,
    found: Option<LlmEvent>,
    stored: &LlmEvent,
    same_one: bool,
    r: Result<IngestResponse, ApiError>,
)
    requires
        *o == InsertOutcome::Taken(found),
        found is Some ==> *stored == found->0,
        call_ensures(same_logical_event, (stored, ev), same_one),
        call_ensures(answer_event, (ev, o), r),
    ensures
        r is Ok <==> found is Some && same_one,
        r is Ok ==> {
            let x = r->Ok_0;
            &&& x.duplicate
            &&& x.id@ == ev.id@ && x.project_id@ == ev.project_id@
            &&& x.cost == stored.cost && x.ts == stored.ts
            &&& x.breached@.len() == 0
            &&& x.proximity.usage_ratio is None && x.proximity.retry_after_secs is None
        },
        r is Err ==> r->Err_0.code is Conflict && has_within(r->Err_0.message@, "'"@ + ev.id@ + "'"@),
{
    if r is Err {
        reveal_strlit("event '");
        reveal_strlit("event ");
        reveal_strlit("' already exists with a different payload");
        reveal_strlit("'");
        reveal_strlit(" already exists with a different payload");
        let m = "'"@ + ev.id@ + "'"@;
        stands_between("event "@, m, " already exists with a different payload"@);
        assert("event '"@ =~= "event "@ + "'"@);
        assert("' already exists with a different payload"@ =~= "'"@
            + " already exists with a different payload"@);
        assert(r->Err_0.message@ =~= "event "@ + m + " already exists with a different payload"@);
    }
    if r is Ok {
        assert(r->Ok_0.proximity@ == no_signal());
    }
}

/// Each item of a batch comes to what it would have come to on its own: let in, refused or acknowledged
/// alike, with the same cost, the same words and the same caps crossed; and what was refused before the
/// store was asked is reported in its own words.
pub proof fn a_batch_answers_item_by_item(
    slots: &Vec<Slot>,
    outcomes: &Vec<InsertOutcome>,
    r: BatchResponse,
    i: int,
    ev: &LlmEvent,
    o: &InsertOutcome,
    alone: Result<IngestResponse, ApiError>,
)
    requires
        outcomes@.len() == ready_before(slots@, slots@.len() as int),
        call_ensures(settle_batch, (slots, outcomes), r),
        0 <= i < slots@.len(),
        slots@[i] is Ready ==> *ev == slots@[i]->Ready_0 && *o == outcomes@[ready_before(slots@, i)],
        call_ensures(answer_event, (ev, o), alone),
    ensures
        r.results@.len() == slots@.len(),
        match slots@[i] {
            Slot::Refused { id, code, reason } => r.results@[i] matches BatchItem::Invalid {
                index,
                id: d,
                code: c,
                reason: w,
            } && index == i && d == id && c == code && w == reason,
            Slot::Ready(_) => match alone {
                Ok(x) => r.results@[i] matches BatchItem::Accepted { index, id, cost, duplicate, breached }
                    && index == i && id@ == x.id@ && cost == x.cost && duplicate == x.duplicate && breached@
                    == x.breached@,
                Err(e) => match *o {
                    InsertOutcome::Decided(a) => r.results@[i] matches BatchItem::Rejected {
                        index,
                        id,
                        code,
                        reason,
                        breached,
                    } && index == i && id@ == ev.id@ && code == e.code && reason@ == e.message@
                        && holds_breached(breached@, a.statuses@),
                    InsertOutcome::Taken(_) => r.results@[i] matches BatchItem::Invalid {
                        index,
                        id,
                        code,
                        reason,
                    } && index == i && id is Some && id->0@ == ev.id@ && code == e.code && reason@
                        == e.message@,
                    InsertOutcome::Failed(_) => r.results@[i] matches BatchItem::Invalid {
                        index,
                        id,
                        code,
                        ..
                    } && index == i && id is Some && id->0@ == ev.id@ && code is Internal,
                },
            },
        },
{
    assert(settles(r.results@[i], i, slots@, outcomes@));
    if slots@[i] is Ready {
        match *o {
            InsertOutcome::Decided(a) => {
                breached_are_held(a.statuses@);
            },
            _ => {},
        }
        if let Ok(x) = alone {
            if let InsertOutcome::Taken(_) = *o {
                if let BatchItem::Accepted { breached, .. } = r.results@[i] {
                    assert(breached@ =~= x.breached@);
                }
            }
        }
    }
}

proof fn counts_are_of_filters(items: Seq<BatchItem>)
    ensures
        accepted_in(items) == items.filter(|x: BatchItem| x is Accepted).len(),
        rejected_in(items) == items.filter(|x: BatchItem| x is Rejected).len(),
        invalid_in(items) == items.filter(|x: BatchItem| x is Invalid).len(),
    decreases items.len(),
{
    reveal(Seq::filter);
    if items.len() > 0 {
        counts_are_of_filters(items.drop_last());
    }
}

/// A batch counts what its items came to, each kind by itself.
pub proof fn a_batch_counts_its_outcomes(
    slots: &Vec<Slot>,
    outcomes: &Vec<InsertOutcome>,
    r: BatchResponse,
)
    requires
        outcomes@.len() == ready_before(slots@, slots@.len() as int),
        call_ensures(settle_batch, (slots, outcomes), r),
    ensures
        r.accepted == r.results@.filter(|x: BatchItem| x is Accepted).len(),
        r.rejected == r.results@.filter(|x: BatchItem| x is Rejected).len(),
        r.invalid == r.results@.filter(|x: BatchItem| x is Invalid).len(),
        r.accepted + r.rejected + r.invalid == slots@.len(),
{
    counts_are_of_filters(r.results@);
    batch_counts_add_up(r.results@);
}

proof fn batch_signal_is_worst(o: Seq<InsertOutcome>, k: int)
    requires
        0 <= k < o.len(),
    ensures
        ({
            let b = batch_signal(o);
            let x = item_signal(o[k]);
            &&& x.usage is Some ==> b.usage is Some && x.usage->0.key <= b.usage->0.key
            &&& x.shed is Some ==> b.shed is Some && x.shed->0.key <= b.shed->0.key
            &&& x.retry_after_secs is Some ==> b.retry_after_secs is Some && x.retry_after_secs->0
                <= b.retry_after_secs->0
        }),
    decreases o.len(),
{
    if k < o.len() - 1 {
        batch_signal_is_worst(o.drop_last(), k);
        assert(o.drop_last()[k] == o[k]);
    }
}

/// A batch's position is the worst of its items': no admission in it is closer to a cap, sheds more, or
/// is told to wait longer, than the batch as a whole.
pub proof fn a_batch_is_as_close_as_its_worst_item(
    slots: &Vec<Slot>,
    outcomes: &Vec<InsertOutcome>,
    r: BatchResponse,
    k: int,
    a: Admission,
    statuses: &Vec<LimitStatus>,
    signal: Proximity,
)
    requires
        outcomes@.len() == ready_before(slots@, slots@.len() as int),
        call_ensures(settle_batch, (slots, outcomes), r),
        0 <= k < outcomes@.len(),
        outcomes@[k] == InsertOutcome::Decided(a),
        *statuses == a.statuses,
        call_ensures(Proximity::of, (statuses,), signal),
    ensures
        signal.usage_ratio is Some ==> r.proximity.usage_ratio is Some && signal.usage_ratio->0.key
            <= r.proximity.usage_ratio->0.key,
        signal.shed_fraction is Some ==> r.proximity.shed_fraction is Some && signal.shed_fraction->0.key
            <= r.proximity.shed_fraction->0.key,
        !a.admitted && a.retry_after_secs is Some ==> r.proximity.retry_after_secs is Some
            && a.retry_after_secs->0 <= r.proximity.retry_after_secs->0,
{
    batch_signal_is_worst(outcomes@, k);
    assert(r.proximity@ == batch_signal(outcomes@));
    assert(signal@ == signal_of(a.statuses@));
}

/// A batch is taken on exactly where it holds at least one event and no more than the cap.
pub proof fn a_batch_is_bounded(n: usize, cap: usize, r: Result<(), ApiError>)
    requires
        call_ensures(check_batch, (n, cap), r),
    ensures
        r is Ok <==> 1 <= n <= cap,
        r is Err ==> r->Err_0.code is BadRequest,
{
}

/// An item is refused for its own reason: no project, a project that could not be read, one that is
/// switched off, or what is wrong with the event; always under the item's own id where it has one.
pub proof fn an_item_is_refused_for_its_own_reason(
    p: &Principal,
    ev: &LlmEvent,
    r: Result<String, Slot>,
    target: Result<String, ApiError>,
    named: &str,
    id: Option<String>,
)
    requires
        named@ == ev.project_id@,
        call_ensures(item_project, (p, ev), r),
        call_ensures(resolve_ingest_project, (p, named), target),
        call_ensures(item_id, (ev,), id),
    ensures
        r is Ok <==> target is Ok,
        r is Ok ==> r->Ok_0@ == target->Ok_0@,
        r is Err ==> (r->Err_0 matches Slot::Refused { id: d, code, .. } && code is BadRequest && (
        d is Some <==> id is Some) && (d is Some ==> d->0@ == ev.id@)),
        id is Some <==> ev.id@.len() > 0,
        id is Some ==> id->0@ == ev.id@,
{
}

/// An item that is refused keeps its own id and is refused under the code of what is wrong with it: no
/// project as a bad request, a project without a policy as a fault, a disabled project as that, and a
/// rejection as what it says.
pub proof fn a_refused_item_keeps_its_id(
    id: Option<String>,
    pid: &str,
    e: &ApiError,
    x: Rejection,
    none: Slot,
    fault: Slot,
    disabled: Slot,
    rejected: Slot,
)
    requires
        call_ensures(no_project, (id,), none),
        call_ensures(no_policy, (id, e), fault),
        call_ensures(disabled_item, (id, pid), disabled),
        call_ensures(rejected_item, (id, x), rejected),
    ensures
        none matches Slot::Refused { id: i, code, reason } && i == id && code is BadRequest && reason@
            == "project_id is required"@,
        fault matches Slot::Refused { id: i, code, reason } && i == id && code is Internal,
        disabled matches Slot::Refused { id: i, code, reason } && i == id && code is ProjectDisabled,
        rejected matches Slot::Refused { id: i, code, reason } && i == id && code == x.code && reason
            == x.message,
{
}

} // verus!
