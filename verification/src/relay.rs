//! The cloud-to-device relay queue: what may be enqueued, what a replayed key is answered with, and
//! what a new task looks like.
use vstd::prelude::*;

use crate::admission::{breach_reason, first_refusing, reason_text, refuses, warns};
use crate::clock::Timestamp;
use crate::error::{fails_with, plain_error, ApiError, ErrorCode};
use crate::json::{alike, same_json, Json, JsonView};
use crate::limit::LimitStatus;
use crate::proximity::{signal_of, Proximity, ProximityView};
use crate::seqs::{first_where, first_where_is, first_where_none};
use crate::text::{
    any_same, blank, has_within, pieces_stand, quote, quoted, same, strung, strung_on, trim_owned, trimmed,
    trimmed_empty_iff_blank, views,
};

verus! {

/// The action a request names, trimmed once: what is admitted, matched and stored is the same text.
pub fn requested_action(raw: &str) -> (r: Result<String, ApiError>)
    ensures
        blank(raw@) ==> fails_with(r, ErrorCode::BadRequest, "action_type is required"@),
        !blank(raw@) ==> r is Ok && r->Ok_0@ == trimmed(raw@),
{
    proof {
        trimmed_empty_iff_blank(raw@);
    }
    let t = trim_owned(raw);
    if t.as_str().is_empty() {
        return Err(ApiError::bad_request("action_type is required"));
    }
    Ok(t)
}

/// How a key reused for different work is refused.
pub open spec fn key_reused_text(key: Seq<char>, action: Seq<char>) -> Seq<char> {
    "idempotency_key "@ + quoted(key)
        + " was already used for a different request (action                      "@ + quoted(action)
        + "); pick a new key for new work"@
}

/// Whether a request under a key that was used before is the same request again: same action, same
/// payload. Anything else is refused.
pub fn check_replay(
    key: &str,
    stored_action: &str,
    stored_payload: &Json,
    action: &str,
    payload: &Json,
) -> (r: Result<(), ApiError>)
    ensures
        stored_action@ == action@ && alike(stored_payload@, payload@) ==> r is Ok,
        !(stored_action@ == action@ && alike(stored_payload@, payload@)) ==> fails_with(
            r,
            ErrorCode::Conflict,
            key_reused_text(key@, stored_action@),
        ),
{
    if same(stored_action, action) && same_json(stored_payload, payload) {
        return Ok(());
    }
    let k = quote(key);
    let a = quote(stored_action);
    let mut m = "idempotency_key ".to_owned();
    m.append(k.as_str());
    m.append(" was already used for a different request (action                      ");
    m.append(a.as_str());
    m.append("); pick a new key for new work");
    Err(ApiError::conflict(m.as_str()))
}

/// Sending the very same request again under its key is never refused.
pub proof fn a_replay_is_never_a_conflict(payload: JsonView)
    ensures
        alike(payload, payload),
{
    crate::json::alike_reflexive(payload);
}

/// Whether anything could run an action.
#[derive(Debug)]
pub enum RelayAdmission {
    Queued { eligible_devices: u64 },
    Refused { reason: String },
}

/// What the fleet's answer means. A backend that does not serve the fleet admits, as does a
/// deployment with nobody enrolled.
pub open spec fn admission_of(answer: Option<RelayAdmission>) -> RelayAdmission {
    match answer {
        Some(a) => a,
        None => RelayAdmission::Queued { eligible_devices: 0 },
    }
}

/// What the fleet's answer means.
pub fn fleet_admission(answer: Option<RelayAdmission>) -> (r: RelayAdmission)
    ensures
        r == admission_of(answer),
{
    match answer {
        Some(a) => a,
        None => RelayAdmission::Queued { eligible_devices: 0 },
    }
}

/// Refuses an action that nothing enrolled could ever run.
pub fn ensure_routable(a: &RelayAdmission) -> (r: Result<(), ApiError>)
    ensures
        match *a {
            RelayAdmission::Queued { .. } => r is Ok,
            RelayAdmission::Refused { reason } => fails_with(
                r,
                ErrorCode::RelayUnroutable,
                reason@,
            ),
        },
{
    match a {
        RelayAdmission::Queued { .. } => Ok(()),
        RelayAdmission::Refused { reason } => Err(ApiError::relay_unroutable(reason.as_str())),
    }
}

/// What a project near its cap is told.
pub open spec fn near_cap_text(s: LimitStatus) -> Seq<char> {
    "project '"@ + s.project_id@ + "' is at "@ + s.percent@ + "% of its "@ + s.metric.name() + "/"@
        + s.window.name() + " limit ("@ + s.current@ + " of "@ + s.threshold@
        + "); relay runs count toward it"@
}

/// Whether `w` is the longest wait among the rules that refuse.
pub open spec fn longest_wait(s: Seq<LimitStatus>, w: u64) -> bool {
    &&& exists|i: int| 0 <= i < s.len() && refuses()(#[trigger] s[i]) && s[i].retry_after_secs == w
    &&& forall|i: int| 0 <= i < s.len() && refuses()(#[trigger] s[i]) ==> s[i].retry_after_secs <= w
}

/// Whether `r` is what the project's limits say of one more run. A rule that refuses is a 429 with the
/// longest wait among those that do; otherwise the first rule past its soft tier is a warning. Limits
/// that cannot be read say nothing.
pub open spec fn budget_says(statuses: Option<Vec<LimitStatus>>, r: Result<Option<String>, ApiError>) -> bool {
    match statuses {
        None => r == Ok::<Option<String>, ApiError>(None),
        Some(v) => if over_budget(statuses) {
            r is Err && is_over_budget(r->Err_0, v@)
        } else {
            match first_where(v@, warns()) {
                Some(i) => r is Ok && r->Ok_0 is Some && r->Ok_0->0@ == near_cap_text(v@[i]),
                None => r == Ok::<Option<String>, ApiError>(None),
            }
        },
    }
}

/// Whether a rule refuses one more run.
pub open spec fn over_budget(statuses: Option<Vec<LimitStatus>>) -> bool {
    statuses is Some && first_where(statuses->0@, refuses()) is Some
}

/// Whether `e` is how a run over the budget is refused.
pub open spec fn is_over_budget(e: ApiError, v: Seq<LimitStatus>) -> bool {
    &&& e.code == ErrorCode::RateLimited
    &&& e.message@ == "relay task refused: "@ + reason_text(v)
    &&& e.retry_after is Some && longest_wait(v, e.retry_after->0)
    &&& e.proximity is Some
    &&& e.proximity->0@ == (ProximityView { retry_after_secs: e.retry_after, ..signal_of(v) })
}

/// Whether the project's limits allow one more run to be queued. A rule that refuses is a 429 with
/// the longest wait among those that do; otherwise the first rule past its soft tier is passed on as a
/// warning. Limits that cannot be read admit.
pub fn budget_allows(statuses: &Option<Vec<LimitStatus>>) -> (r: Result<Option<String>, ApiError>)
    ensures
        budget_says(*statuses, r),
{
    let v = match statuses {
        None => {
            return Ok(None);
        },
        Some(v) => v,
    };
    if let Some(first) = first_refusing(v) {
        let mut wait: u64 = v[first].retry_after_secs;
        let mut i: usize = 0;
        let ghost mut at: int = first as int;
        proof {
            crate::seqs::first_where_some_at(v@, refuses(), first as int);
        }
        while i < v.len()
            invariant
                i <= v.len(),
                0 <= at < v@.len(),
                refuses()(v@[at]),
                v@[at].retry_after_secs == wait,
                forall|j: int|
                    0 <= j < i && refuses()(#[trigger] v@[j]) ==> v@[j].retry_after_secs <= wait,
            decreases v.len() - i,
        {
            if v[i].rejects_ingest && v[i].retry_after_secs > wait {
                wait = v[i].retry_after_secs;
                proof {
                    at = i as int;
                }
            }
            i += 1;
        }
        assert(longest_wait(v@, wait));
        let mut prox = Proximity::of(v);
        prox.retry_after_secs = Some(wait);
        let why = breach_reason(v);
        let mut m = "relay task refused: ".to_owned();
        m.append(why.as_str());
        return Err(ApiError::rate_limited(m.as_str()).retry_after(Some(wait)).proximity(prox));
    }
    let mut i: usize = 0;
    while i < v.len()
        invariant
            i <= v.len(),
            *statuses == Some(*v),
            first_where(v@, refuses()) is None,
            forall|j: int| 0 <= j < i ==> !warns()(#[trigger] v@[j]),
        decreases v.len() - i,
    {
        let s = &v[i];
        if s.warning {
            proof {
                first_where_is(v@, warns(), i as int);
            }
            let mut m = "project '".to_owned();
            m.append(s.project_id.as_str());
            m.append("' is at ");
            m.append(s.percent.as_str());
            m.append("% of its ");
            m.append(s.metric.show());
            m.append("/");
            m.append(s.window.show());
            m.append(" limit (");
            m.append(s.current.as_str());
            m.append(" of ");
            m.append(s.threshold.as_str());
            m.append("); relay runs count toward it");
            return Ok(Some(m));
        }
        i += 1;
    }
    proof {
        first_where_none(v@, warns());
    }
    Ok(None)
}

/// A task in the queue.
#[derive(Debug)]
pub struct RelayTask {
    pub id: String,
    pub project_id: String,
    pub source: Option<String>,
    pub action_type: String,
    pub payload: Json,
    pub status: String,
    pub attempts: u32,
    pub failures: u32,
    pub stale_reclaims: u32,
    /// Which lease holds the task.
    pub lease_fence: Option<u64>,
    /// What the device last said of its run.
    pub progress: Option<Json>,
    pub max_attempts: u32,
    pub retry_interval_secs: u32,
    pub idempotency_key: Option<String>,
    pub device: Option<String>,
    pub lease_deadline: Option<Timestamp>,
    pub next_attempt_at: Timestamp,
    pub result: Json,
    pub error: Option<String>,
    pub created_at: Timestamp,
    pub updated_at: Timestamp,
}

/// What an enqueue asks for beyond its project and action.
#[derive(Debug)]
pub struct EnqueueReq {
    pub payload: Json,
    pub source: Option<String>,
    pub idempotency_key: Option<String>,
    pub max_attempts: Option<u32>,
    pub retry_interval_secs: Option<u32>,
}

/// The given number or the default, and at least one: zero attempts would never run, and a zero
/// interval would be leased again the instant it was handed back.
pub open spec fn floored(given: Option<u32>, default: u32) -> u32 {
    let n = match given {
        Some(n) => n,
        None => default,
    };
    if n < 1 {
        1
    } else {
        n
    }
}

fn floor_one(given: Option<u32>, default: u32) -> (r: u32)
    ensures
        r == floored(given, default),
{
    let n: u32 = match given {
        Some(n) => n,
        None => default,
    };
    if n < 1 {
        1
    } else {
        n
    }
}

/// A freshly queued task: nothing attempted, nobody holding it, due at once.
pub open spec fn task_of(
    id: String,
    project_id: String,
    action_type: String,
    req: EnqueueReq,
    queued: String,
    default_max_attempts: u32,
    default_retry_interval_secs: u32,
    now: Timestamp,
) -> RelayTask {
    RelayTask {
        id,
        project_id,
        source: req.source,
        action_type,
        payload: req.payload,
        status: queued,
        attempts: 0,
        failures: 0,
        stale_reclaims: 0,
        lease_fence: None,
        progress: None,
        max_attempts: floored(req.max_attempts, default_max_attempts),
        retry_interval_secs: floored(req.retry_interval_secs, default_retry_interval_secs),
        idempotency_key: req.idempotency_key,
        device: None,
        lease_deadline: None,
        next_attempt_at: now,
        result: Json::Null,
        error: None,
        created_at: now,
        updated_at: now,
    }
}

/// A freshly queued task.
pub fn new_task(
    id: String,
    project_id: String,
    action_type: String,
    req: EnqueueReq,
    queued: String,
    default_max_attempts: u32,
    default_retry_interval_secs: u32,
    now: Timestamp,
) -> (r: RelayTask)
    ensures
        r == task_of(
            id,
            project_id,
            action_type,
            req,
            queued,
            default_max_attempts,
            default_retry_interval_secs,
            now,
        ),
{
    RelayTask {
        id,
        project_id,
        source: req.source,
        action_type,
        payload: req.payload,
        status: queued,
        attempts: 0,
        failures: 0,
        stale_reclaims: 0,
        lease_fence: None,
        progress: None,
        max_attempts: floor_one(req.max_attempts, default_max_attempts),
        retry_interval_secs: floor_one(req.retry_interval_secs, default_retry_interval_secs),
        idempotency_key: req.idempotency_key,
        device: None,
        lease_deadline: None,
        next_attempt_at: now,
        result: Json::Null,
        error: None,
        created_at: now,
        updated_at: now,
    }
}

/// What a lookup of the idempotency key found.
#[derive(Debug)]
pub enum KeyLookup {
    /// The request carries no key, or the key is new.
    Fresh,
    /// The key was used before; what it enqueued.
    Used(RelayTask),
}

/// What an enqueue does next.
#[derive(Debug)]
pub enum EnqueueStep {
    /// Go on with `answer_replay`: the task exists.
    Replay(RelayTask),
    /// Ask the fleet and the budget about new work of this action, and go on with `finish_enqueue`.
    Admit(String),
}

/// The first half of an enqueue: the action is required; a key that was used before answers with its
/// task when the request is the same, and is refused otherwise; anything else goes on to admission.
pub fn plan_enqueue(action_raw: &str, payload: &Json, key: &Option<String>, found: KeyLookup) -> (r: Result<
    EnqueueStep,
    ApiError,
>)
    requires
        found is Used ==> *key is Some,
    ensures
        if blank(action_raw@) {
            fails_with(r, ErrorCode::BadRequest, "action_type is required"@)
        } else {
            match found {
                KeyLookup::Fresh => r is Ok && r->Ok_0 is Admit && r->Ok_0->Admit_0@ == trimmed(
                    action_raw@,
                ),
                KeyLookup::Used(t) => if t.action_type@ == trimmed(action_raw@) && alike(
                    t.payload@,
                    payload@,
                ) {
                    r is Ok && r->Ok_0 == EnqueueStep::Replay(t)
                } else {
                    fails_with(
                        r,
                        ErrorCode::Conflict,
                        key_reused_text(key->0@, t.action_type@),
                    )
                },
            }
        },
{
    let action = match requested_action(action_raw) {
        Ok(a) => a,
        Err(e) => {
            return Err(e);
        },
    };
    match found {
        KeyLookup::Fresh => Ok(EnqueueStep::Admit(action)),
        KeyLookup::Used(t) => {
            let k = match key {
                Some(k) => k.as_str(),
                None => "",
            };
            match check_replay(k, t.action_type.as_str(), &t.payload, action.as_str(), payload) {
                Ok(_) => Ok(EnqueueStep::Replay(t)),
                Err(e) => Err(e),
            }
        },
    }
}

/// An accepted enqueue.
#[derive(Debug)]
pub struct EnqueueResp {
    pub task: RelayTask,
    /// Why it was accepted.
    pub admission: RelayAdmission,
    /// What the project is told as it nears a cap.
    pub warning: Option<String>,
}

/// The second half of an enqueue of new work. `answer` is what the fleet said, where it could be asked;
/// `statuses` is where the project stands, where that could be read. Work that nothing can run is
/// refused first, whatever the budget says; then work over the budget; otherwise the new task is
/// answered with, beside its admission and what the budget warns of.
pub fn finish_enqueue(
    answer: Option<RelayAdmission>,
    statuses: &Option<Vec<LimitStatus>>,
    id: String,
    project_id: String,
    action_type: String,
    req: EnqueueReq,
    queued: String,
    default_max_attempts: u32,
    default_retry_interval_secs: u32,
    now: Timestamp,
) -> (r: Result<EnqueueResp, ApiError>)
    ensures
        match admission_of(answer) {
            RelayAdmission::Refused { reason } => fails_with(
                r,
                ErrorCode::RelayUnroutable,
                reason@,
            ),
            RelayAdmission::Queued { .. } => if over_budget(*statuses) {
                r is Err && is_over_budget(r->Err_0, statuses->0@)
            } else {
                &&& r is Ok
                &&& r->Ok_0.task == task_of(
                    id,
                    project_id,
                    action_type,
                    req,
                    queued,
                    default_max_attempts,
                    default_retry_interval_secs,
                    now,
                )
                &&& r->Ok_0.admission == admission_of(answer)
                &&& budget_says(*statuses, Ok(r->Ok_0.warning))
            },
        },
{
    let admission = fleet_admission(answer);
    match ensure_routable(&admission) {
        Ok(_) => {},
        Err(e) => {
            return Err(e);
        },
    }
    let warning = match budget_allows(statuses) {
        Ok(w) => w,
        Err(e) => {
            return Err(e);
        },
    };
    let task = new_task(
        id,
        project_id,
        action_type,
        req,
        queued,
        default_max_attempts,
        default_retry_interval_secs,
        now,
    );
    Ok(EnqueueResp { task, admission, warning })
}

/// What a replay is answered with: the task that exists, as it is, beside what the fleet says of it now.
/// Nothing is enqueued, so neither the fleet nor the budget can refuse it, and there is nothing to warn
/// of.
pub fn answer_replay(existing: RelayTask, answer: Option<RelayAdmission>) -> (r: EnqueueResp)
    ensures
        r == (EnqueueResp { task: existing, admission: admission_of(answer), warning: None }),
{
    EnqueueResp { task: existing, admission: fleet_admission(answer), warning: None }
}

/// The words between the vocabulary's terms.
pub open spec fn joined(v: Seq<String>) -> Seq<char>
    decreases v.len(),
{
    if v.len() == 0 {
        ""@
    } else if v.len() == 1 {
        v[0]@
    } else {
        joined(v.drop_last()) + " | "@ + v.last()@
    }
}

fn join_bar(v: &Vec<String>) -> (r: String)
    ensures
        r@ == joined(v@),
{
    if v.len() == 0 {
        return "".to_owned();
    }
    let mut out = v[0].clone();
    let mut i: usize = 1;
    assert(v@.take(1)[0] == v@[0]);
    while i < v.len()
        invariant
            1 <= i <= v.len(),
            out@ == joined(v@.take(i as int)),
        decreases v.len() - i,
    {
        assert(v@.take(i + 1).drop_last() =~= v@.take(i as int));
        out.append(" | ");
        out.append(v[i].as_str());
        i += 1;
    }
    assert(v@.take(i as int) =~= v@);
    out
}

/// Refuses a status filter that is no word of the vocabulary.
pub fn check_task_status(s: Option<&str>, vocabulary: &Vec<String>) -> (r: Result<(), ApiError>)
    ensures
        s is None ==> r is Ok,
        s is Some && views(vocabulary@).contains(s->0@) ==> r is Ok,
        s is Some && !views(vocabulary@).contains(s->0@) ==> fails_with(
            r,
            ErrorCode::BadRequest,
            "invalid 'status' "@ + quoted(s->0@) + ": expected "@ + joined(vocabulary@),
        ),
{
    match s {
        None => Ok(()),
        Some(x) => {
            if any_same(vocabulary, x) {
                return Ok(());
            }
            let q = quote(x);
            let e = join_bar(vocabulary);
            let mut m = "invalid 'status' ".to_owned();
            m.append(q.as_str());
            m.append(": expected ");
            m.append(e.as_str());
            Err(ApiError::bad_request(m.as_str()))
        },
    }
}

/// How a task that is not there, or not the caller's, is reported.
pub fn task_not_found(id: &str) -> (r: ApiError)
    ensures
        plain_error(r, ErrorCode::NotFound, "relay task '"@ + id@ + "' not found"@),
{
    let mut m = "relay task '".to_owned();
    m.append(id);
    m.append("' not found");
    ApiError::not_found(m.as_str())
}

// ------------------------------------------------------------------ what an enqueue comes to

/// An action is named without the space around it, and has to be named.
pub proof fn an_action_has_to_be_named(raw: &str, r: Result<String, ApiError>)
    requires
        call_ensures(requested_action, (raw,), r),
    ensures
        r is Ok <==> !blank(raw@),
        r is Ok ==> r->Ok_0@ == trimmed(raw@),
        r is Err ==> r->Err_0.code is BadRequest,
{
}

/// A key that was used before answers with the task it enqueued exactly where action and payload are the
/// same; any other use of it is a conflict; and work under a fresh key, or none, goes on to be admitted
/// under its trimmed action.
pub proof fn a_used_key_answers_for_its_own_request(
    raw: &str,
    payload: &Json,
    key: &Option<String>,
    found: KeyLookup,
    t: RelayTask,
    r: Result<EnqueueStep, ApiError>,
)
    requires
        found is Used ==> *key is Some,
        call_ensures(plan_enqueue, (raw, payload, key, found), r),
        found is Used ==> found->Used_0 == t,
    ensures
        blank(raw@) ==> r is Err && r->Err_0.code is BadRequest,
        !blank(raw@) && found is Fresh ==> r is Ok && (r->Ok_0 matches EnqueueStep::Admit(a) && a@
            == trimmed(raw@)),
        !blank(raw@) && found is Used ==> {
            &&& r is Ok <==> t.action_type@ == trimmed(raw@) && alike(t.payload@, payload@)
            &&& r is Ok ==> (r->Ok_0 matches EnqueueStep::Replay(x) && x == t)
            &&& r is Err ==> r->Err_0.code is Conflict
        },
{
}

/// Whether a request may be replayed is told by its action and its payload, each against its own.
pub proof fn a_replay_is_the_same_request(
    key: &str,
    stored_action: &str,
    stored_payload: &Json,
    action: &str,
    payload: &Json,
    r: Result<(), ApiError>,
)
    requires
        call_ensures(check_replay, (key, stored_action, stored_payload, action, payload), r),
    ensures
        r is Ok <==> stored_action@ == action@ && alike(stored_payload@, payload@),
        r is Err ==> r->Err_0.code is Conflict,
{
}

/// New work that nothing could run is refused before the budget is asked; a fleet that did not answer
/// admits; and an answer is passed on as it was given.
pub proof fn the_fleet_has_the_first_word(
    answer: Option<RelayAdmission>,
    a: RelayAdmission,
    r: Result<(), ApiError>,
    why: String,
)
    requires
        call_ensures(fleet_admission, (answer,), a),
        call_ensures(ensure_routable, (&a,), r),
    ensures
        answer is Some ==> a == answer->0,
        answer is None ==> r is Ok && a == (RelayAdmission::Queued { eligible_devices: 0 }),
        r is Ok <==> a is Queued,
        a == (RelayAdmission::Refused { reason: why }) ==> r is Err && r->Err_0.code is RelayUnroutable
            && r->Err_0.message@ == why@,
{
}

/// One more run is refused exactly where some rule refuses, and then for the longest wait of the rules
/// that do; where none does, the project is warned exactly where some soft tier is crossed, in the words
/// of the first that is; and limits that cannot be read neither refuse nor warn.
pub proof fn the_budget_has_the_second_word(
    statuses: &Option<Vec<LimitStatus>>,
    r: Result<Option<String>, ApiError>,
    i: int,
)
    requires
        call_ensures(budget_allows, (statuses,), r),
    ensures
        *statuses is None ==> r is Ok && r->Ok_0 is None,
        r is Err ==> {
            let s = statuses->0@;
            &&& r->Err_0.code is RateLimited
            &&& r->Err_0.retry_after is Some
            &&& exists|j: int|
                0 <= j < s.len() && (#[trigger] s[j]).rejects_ingest && s[j].retry_after_secs
                    == r->Err_0.retry_after->0
            &&& forall|j: int|
                0 <= j < s.len() && (#[trigger] s[j]).rejects_ingest ==> s[j].retry_after_secs
                    <= r->Err_0.retry_after->0
            &&& r->Err_0.proximity is Some && r->Err_0.proximity->0.retry_after_secs
                == r->Err_0.retry_after
        },
        *statuses is Some && 0 <= i < statuses->0@.len() && statuses->0@[i].rejects_ingest ==> r is Err,
        *statuses is Some && 0 <= i < statuses->0@.len() && statuses->0@[i].warning && r is Ok
            ==> r->Ok_0 is Some,
        r is Ok && r->Ok_0 is Some ==> exists|j: int| #![trigger statuses->0@[j]]
            0 <= j < statuses->0@.len() && statuses->0@[j].warning && (forall|k: int|
                0 <= k < j ==> !(#[trigger] statuses->0@[k]).warning) && has_within(
                r->Ok_0->0@,
                "project '"@ + statuses->0@[j].project_id@,
            ) && has_within(r->Ok_0->0@, "' is at "@ + statuses->0@[j].percent@) && has_within(
                r->Ok_0->0@,
                " limit ("@ + statuses->0@[j].current@ + " of "@ + statuses->0@[j].threshold@,
            ),
{
    if *statuses is Some {
        let s = statuses->0@;
        let p = refuses();
        let q = warns();
        if r is Err {
            let w = r->Err_0.retry_after->0;
            let j = choose|j: int| 0 <= j < s.len() && refuses()(#[trigger] s[j]) && s[j].retry_after_secs == w;
            assert(s[j].rejects_ingest);
            assert forall|j: int| 0 <= j < s.len() && (#[trigger] s[j]).rejects_ingest implies s[j].retry_after_secs
                <= w by {
                assert(p(s[j]));
            }
            assert(r->Err_0.proximity->0@.retry_after_secs == r->Err_0.retry_after);
        }
        if 0 <= i < s.len() && s[i].rejects_ingest {
            assert(p(s[i]));
            crate::seqs::first_where_some(s, p, i);
        }
        if 0 <= i < s.len() && s[i].warning {
            assert(q(s[i]));
            crate::seqs::first_where_some(s, q, i);
        }
        if r is Ok && r->Ok_0 is Some {
            let j = first_where(s, q)->0;
            assert(crate::seqs::is_first(s, q, j));
            let x = s[j];
            let v = strung_on(seq![], "project '"@);
            let v = strung_on(v, x.project_id@);
            let v = strung_on(v, "' is at "@);
            let v = strung_on(v, x.percent@);
            let v = strung_on(v, "% of its "@);
            let v = strung_on(v, x.metric.name());
            let v = strung_on(v, "/"@);
            let v = strung_on(v, x.window.name());
            let v = strung_on(v, " limit ("@);
            let v = strung_on(v, x.current@);
            let v = strung_on(v, " of "@);
            let v = strung_on(v, x.threshold@);
            let v = strung_on(v, "); relay runs count toward it"@);
            assert(near_cap_text(x) == strung(v));
            pieces_stand(v, 0);
            pieces_stand(v, 2);
            pieces_stand(v, 8);
            assert forall|k: int| 0 <= k < j implies !(#[trigger] s[k]).warning by {
                assert(!q(s[k]));
            }
            assert(statuses->0@[j].warning);
        }
    }
}

/// A new task is queued as it was asked for, field by field: nothing tried, nobody on it, due at once,
/// and never with less than one attempt or one second between attempts.
pub proof fn a_new_task_is_as_asked(
    answer: Option<RelayAdmission>,
    statuses: &Option<Vec<LimitStatus>>,
    id: String,
    project_id: String,
    action_type: String,
    req: EnqueueReq,
    queued: String,
    attempts: u32,
    interval: u32,
    now: Timestamp,
    a: RelayAdmission,
    budget: Result<Option<String>, ApiError>,
    t: RelayTask,
    r: Result<EnqueueResp, ApiError>,
)
    requires
        call_ensures(fleet_admission, (answer,), a),
        call_ensures(budget_allows, (statuses,), budget),
        call_ensures(
            new_task,
            (id, project_id, action_type, req, queued, attempts, interval, now),
            t,
        ),
        call_ensures(
            finish_enqueue,
            (answer, statuses, id, project_id, action_type, req, queued, attempts, interval, now),
            r,
        ),
    ensures
        t.id == id && t.project_id == project_id && t.action_type == action_type && t.status == queued,
        t.payload == req.payload && t.source == req.source && t.idempotency_key == req.idempotency_key,
        t.attempts == 0 && t.failures == 0 && t.stale_reclaims == 0,
        t.lease_fence is None && t.progress is None && t.device is None && t.lease_deadline is None,
        t.error is None && t.result is Null,
        t.next_attempt_at == now && t.created_at == now && t.updated_at == now,
        t.max_attempts >= 1 && t.retry_interval_secs >= 1,
        req.max_attempts is Some && req.max_attempts->0 >= 1 ==> t.max_attempts == req.max_attempts->0,
        req.max_attempts is None && attempts >= 1 ==> t.max_attempts == attempts,
        req.retry_interval_secs is Some && req.retry_interval_secs->0 >= 1 ==> t.retry_interval_secs
            == req.retry_interval_secs->0,
        req.retry_interval_secs is None && interval >= 1 ==> t.retry_interval_secs == interval,
        r is Ok <==> a is Queued && budget is Ok,
        r is Ok ==> r->Ok_0.task == t && r->Ok_0.admission == a && (r->Ok_0.warning is Some
            <==> budget->Ok_0 is Some) && (r->Ok_0.warning is Some ==> r->Ok_0.warning->0@
            == budget->Ok_0->0@),
        r is Err && a is Refused ==> r->Err_0.code is RelayUnroutable,
        r is Err && a is Queued ==> r->Err_0.code is RateLimited,
{
}

/// A replay is answered with the task as it is, and refused for nothing.
pub proof fn a_replay_is_answered_with_its_task(
    existing: RelayTask,
    answer: Option<RelayAdmission>,
    a: RelayAdmission,
    r: EnqueueResp,
)
    requires
        call_ensures(fleet_admission, (answer,), a),
        call_ensures(answer_replay, (existing, answer), r),
    ensures
        r.task == existing,
        r.admission == a,
        r.warning is None,
{
}

/// Tasks are listed by a status of the vocabulary, or by none.
pub proof fn a_status_is_of_the_vocabulary(s: Option<&str>, v: &Vec<String>, r: Result<(), ApiError>)
    requires
        call_ensures(check_task_status, (s, v), r),
    ensures
        r is Ok <==> s is None || exists|i: int| 0 <= i < v@.len() && (#[trigger] v@[i])@ == s->0@,
        r is Err ==> r->Err_0.code is BadRequest,
{
    if s is Some {
        let w = views(v@);
        if w.contains(s->0@) {
            let i = choose|i: int| 0 <= i < w.len() && w[i] == s->0@;
            assert(v@[i]@ == s->0@);
        } else {
            assert forall|i: int| 0 <= i < v@.len() implies (#[trigger] v@[i])@ != s->0@ by {
                assert(w[i] == v@[i]@);
            }
        }
    }
}

} // verus!
