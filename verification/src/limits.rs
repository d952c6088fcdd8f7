//! Limit rules: how they are written, which usage they are evaluated against, and what a status page
//! says about the evidence behind them.
use vstd::prelude::*;

use crate::clock::Timestamp;
use crate::error::{fails_with, plain_error, ApiError, ErrorCode};
use crate::figure::Real;
use crate::limit::{copy_scope, LimitAction, LimitMetric, LimitScope, LimitWindow};
use crate::rejections::{same_scope, scope_view};
use crate::text::clone_opt;

verus! {

/// A cap: a figure, or a share of recognised revenue.
#[derive(Debug)]
pub enum Threshold {
    Fixed(Real),
    RevenueShare(Real),
}

/// How a rule is tightened when a breach is near.
#[derive(Debug)]
pub struct Escalation {
    pub to: LimitAction,
    /// How near, in days.
    pub on_eta_days: Real,
}

/// A limit rule.
#[derive(Debug)]
pub struct LimitRule {
    pub id: String,
    pub project_id: String,
    pub metric: LimitMetric,
    pub window: LimitWindow,
    pub threshold: Threshold,
    pub action: LimitAction,
    pub enabled: bool,
    pub warn_at: Option<Real>,
    pub scope: Option<LimitScope>,
    pub escalation: Option<Escalation>,
    /// Set by the sweep: until when the rule is tightened.
    pub escalated_until: Option<Timestamp>,
    /// Set by the sweep: the policy and subject that the rule was raised for.
    pub origin: Option<String>,
    /// Set by the sweep: when the rule ends.
    pub expires_at: Option<Timestamp>,
}

/// The part of a rule that a caller writes.
#[derive(Debug)]
pub struct LimitReq {
    pub metric: LimitMetric,
    pub window: LimitWindow,
    pub threshold: Threshold,
    pub action: LimitAction,
    pub enabled: bool,
    pub warn_at: Option<Real>,
    pub scope: Option<LimitScope>,
    pub escalation: Option<Escalation>,
}

/// A rule is on unless a caller says otherwise.
pub fn default_true() -> (r: bool)
    ensures
        r,
{
    true
}

impl LimitReq {
    /// The rule under an identity. What the sweep owns is carried over from the rule before, never
    /// taken from the caller.
    pub fn into_rule(self, id: String, project_id: String, prior: Option<&LimitRule>) -> (r: LimitRule)
        ensures
            r == (LimitRule {
                id,
                project_id,
                metric: self.metric,
                window: self.window,
                threshold: self.threshold,
                action: self.action,
                enabled: self.enabled,
                warn_at: self.warn_at,
                scope: self.scope,
                escalation: self.escalation,
                escalated_until: match prior {
                    Some(p) => p.escalated_until,
                    None => None,
                },
                origin: match prior {
                    Some(p) => p.origin,
                    None => None,
                },
                expires_at: match prior {
                    Some(p) => p.expires_at,
                    None => None,
                },
            }),
    {
        let (escalated_until, origin, expires_at) = match prior {
            Some(p) => (p.escalated_until, clone_opt(&p.origin), p.expires_at),
            None => (None, None, None),
        };
        LimitRule {
            id,
            project_id,
            metric: self.metric,
            window: self.window,
            threshold: self.threshold,
            action: self.action,
            enabled: self.enabled,
            warn_at: self.warn_at,
            scope: self.scope,
            escalation: self.escalation,
            escalated_until,
            origin,
            expires_at,
        }
    }
}

/// How a rule that is not there is reported.
pub open spec fn rule_not_found_text(id: Seq<char>) -> Seq<char> {
    "limit rule '"@ + id + "' not found"@
}

/// How a rule that is not there is reported.
pub fn rule_not_found(id: &str) -> (r: ApiError)
    ensures
        plain_error(r, ErrorCode::NotFound, rule_not_found_text(id@)),
{
    let mut m = "limit rule '".to_owned();
    m.append(id);
    m.append("' not found");
    ApiError::not_found(m.as_str())
}

/// The rule after an update: its identity kept, what the sweep owns kept, the rest as written. An unknown
/// rule is reported.
pub fn updated_rule(id: &str, existing: Option<LimitRule>, req: LimitReq) -> (r: Result<
    LimitRule,
    ApiError,
>)
    ensures
        match existing {
            None => fails_with(r, ErrorCode::NotFound, rule_not_found_text(id@)),
            Some(e) => {
                &&& r is Ok
                &&& r->Ok_0 == (LimitRule {
                    metric: req.metric,
                    window: req.window,
                    threshold: req.threshold,
                    action: req.action,
                    enabled: req.enabled,
                    warn_at: req.warn_at,
                    scope: req.scope,
                    escalation: req.escalation,
                    ..e
                })
            },
        },
{
    match existing {
        None => Err(rule_not_found(id)),
        Some(e) => {
            let rid = e.id.clone();
            let pid = e.project_id.clone();
            Ok(req.into_rule(rid, pid, Some(&e)))
        },
    }
}

/// Refuses a rule or policy that does not hold together, in the words of what is wrong with it.
pub fn ensure_valid(fault: &Option<String>) -> (r: Result<(), ApiError>)
    ensures
        fault is None ==> r is Ok,
        fault is Some ==> fails_with(r, ErrorCode::BadRequest, fault->0@),
{
    match fault {
        None => Ok(()),
        Some(m) => Err(ApiError::bad_request(m.as_str())),
    }
}

/// What a delete is answered with.
pub fn delete_answer(id: &str, deleted: bool) -> (r: Result<(), ApiError>)
    ensures
        deleted ==> r is Ok,
        !deleted ==> fails_with(r, ErrorCode::NotFound, rule_not_found_text(id@)),
{
    if deleted {
        Ok(())
    } else {
        Err(rule_not_found(id))
    }
}

/// What deleting a margin policy is answered with.
pub fn policy_delete_answer(id: &str, deleted: bool) -> (r: Result<(), ApiError>)
    ensures
        deleted ==> r is Ok,
        !deleted ==> fails_with(
            r,
            ErrorCode::NotFound,
            "margin policy '"@ + id@ + "' not found"@,
        ),
{
    if deleted {
        return Ok(());
    }
    let mut m = "margin policy '".to_owned();
    m.append(id);
    m.append("' not found");
    Err(ApiError::not_found(m.as_str()))
}

// ------------------------------------------------------------------ what is read to evaluate rules

/// A usage figure that has to be read: over a window, of the project or of one slice of it.
#[derive(Debug)]
pub struct UsageKey {
    pub window: LimitWindow,
    pub scope: Option<LimitScope>,
}

/// A usage figure as plain values.
pub open spec fn usage_id(window: LimitWindow, scope: Option<LimitScope>) -> (
    LimitWindow,
    Option<(Seq<char>, Seq<char>)>,
) {
    (window, scope_view(scope))
}

/// Which figures are read and which rule is evaluated against which.
#[derive(Debug)]
pub struct UsagePlan {
    /// The figures to read, each once.
    pub reads: Vec<UsageKey>,
    /// For each rule the position of its figure; absent for a rule that is not in force.
    pub figure: Vec<Option<usize>>,
}

/// Whether no figure is read twice.
pub open spec fn reads_distinct(v: Seq<UsageKey>) -> bool {
    forall|i: int, j: int|
        0 <= i < j < v.len() ==> usage_id((#[trigger] v[i]).window, v[i].scope) != usage_id(
            (#[trigger] v[j]).window,
            v[j].scope,
        )
}

/// Whether every rule in force has its own figure, and no other rule has one.
pub open spec fn figures_fit(
    rules: Seq<LimitRule>,
    active: Seq<bool>,
    reads: Seq<UsageKey>,
    figure: Seq<Option<usize>>,
) -> bool {
    forall|i: int|
        0 <= i < figure.len() ==> match #[trigger] figure[i] {
            None => !active[i],
            Some(k) => active[i] && k < reads.len() && usage_id(
                reads[k as int].window,
                reads[k as int].scope,
            ) == usage_id(rules[i].window, rules[i].scope),
        }
}

/// Whether some rule is evaluated against figure `k`.
pub open spec fn is_used(figure: Seq<Option<usize>>, k: int) -> bool {
    exists|i: int| 0 <= i < figure.len() && (#[trigger] figure[i]) == Some(k as usize)
}

/// Plans which usage figures to read for some rules: one for each window and slice that a rule in force
/// is about, each once. `active` says which rules are in force.
pub fn plan_usage(rules: &Vec<LimitRule>, active: &Vec<bool>) -> (r: UsagePlan)
    requires
        active@.len() == rules@.len(),
    ensures
        r.figure@.len() == rules@.len(),
        reads_distinct(r.reads@),
        figures_fit(rules@, active@, r.reads@, r.figure@),
        forall|k: int|
            0 <= k < r.reads@.len() ==> #[trigger] is_used(r.figure@, k),
{
    let mut reads: Vec<UsageKey> = Vec::new();
    let mut figure: Vec<Option<usize>> = Vec::new();
    let mut i: usize = 0;
    while i < rules.len()
        invariant
            active@.len() == rules@.len(),
            i <= rules.len(),
            figure@.len() == i,
            reads@.len() <= i,
            reads_distinct(reads@),
            figures_fit(rules@, active@, reads@, figure@),
            forall|k: int|
                0 <= k < reads@.len() ==> #[trigger] is_used(figure@, k),
        decreases rules.len() - i,
    {
        let ghost rb = reads@;
        let ghost fb = figure@;
        if !active[i] {
            figure.push(None);
            proof {
                kept_needed(rb, fb, figure@);
            }
        } else {
            let mut k: usize = 0;
            while k < reads.len() && !(reads[k].window == rules[i].window && same_scope(
                &reads[k].scope,
                &rules[i].scope,
            ))
                invariant
                    i < rules.len(),
                    k <= reads.len(),
                    reads@ == rb,
                    forall|j: int|
                        0 <= j < k ==> usage_id((#[trigger] rb[j]).window, rb[j].scope) != usage_id(
                            rules@[i as int].window,
                            rules@[i as int].scope,
                        ),
                decreases reads.len() - k,
            {
                k += 1;
            }
            if k == reads.len() {
                reads.push(
                    UsageKey { window: rules[i].window, scope: copy_scope(&rules[i].scope) },
                );
            }
            figure.push(Some(k));
            proof {
                assert forall|a: int, b: int| 0 <= a < b < reads@.len() implies usage_id(
                    (#[trigger] reads@[a]).window,
                    reads@[a].scope,
                ) != usage_id((#[trigger] reads@[b]).window, reads@[b].scope) by {
                    if b < rb.len() {
                        assert(reads@[a] == rb[a] && reads@[b] == rb[b]);
                    } else {
                        assert(reads@[a] == rb[a]);
                    }
                }
                assert forall|a: int| 0 <= a < figure@.len() implies match #[trigger] figure@[a] {
                    None => !active@[a],
                    Some(x) => active@[a] && x < reads@.len() && usage_id(
                        reads@[x as int].window,
                        reads@[x as int].scope,
                    ) == usage_id(rules@[a].window, rules@[a].scope),
                } by {
                    if a < i {
                        assert(figure@[a] == fb[a]);
                        if let Some(x) = fb[a] {
                            assert(reads@[x as int] == rb[x as int]);
                        }
                    }
                }
                assert forall|q: int| 0 <= q < reads@.len() implies #[trigger] is_used(figure@, q) by {
                    if q < rb.len() {
                        assert(is_used(fb, q));
                        let j = choose|j: int|
                            0 <= j < fb.len() && (#[trigger] fb[j]) == Some(q as usize);
                        assert(figure@[j] == Some(q as usize));
                    } else {
                        assert(figure@[i as int] == Some(q as usize));
                    }
                }
            }
        }
        i += 1;
    }
    UsagePlan { reads, figure }
}

proof fn kept_needed(reads: Seq<UsageKey>, before: Seq<Option<usize>>, after: Seq<Option<usize>>)
    requires
        after.len() >= before.len(),
        forall|j: int| 0 <= j < before.len() ==> after[j] == before[j],
        forall|k: int| 0 <= k < reads.len() ==> #[trigger] is_used(before, k),
    ensures
        forall|k: int| 0 <= k < reads.len() ==> #[trigger] is_used(after, k),
{
    assert forall|k: int| 0 <= k < reads.len() implies #[trigger] is_used(after, k) by {
        assert(is_used(before, k));
        let j = choose|j: int| 0 <= j < before.len() && (#[trigger] before[j]) == Some(k as usize);
        assert(after[j] == Some(k as usize));
    }
}

// ------------------------------------------------------------------ the evidence behind cost caps

/// What a cost figure rests on. Amounts are in picodollars.
#[derive(Debug, Clone, Copy, PartialEq, Eq, Structural)]
pub struct CostEvidence {
    pub unpriced_calls: u64,
    pub imputed_cost: u64,
    pub client_reported_cost: u64,
    pub unpriceable: bool,
}

/// A status, as far as its evidence goes.
#[derive(Debug, Clone, Copy, PartialEq, Eq, Structural)]
pub struct StatusEvidence {
    /// The threshold was derived from revenue.
    pub derived: bool,
    /// The threshold could not be resolved, so it never breaches.
    pub inert: bool,
    /// The rule refuses when it is crossed.
    pub enforces: bool,
    pub cost: Option<CostEvidence>,
}

/// How much of a project's cost caps rests on weak evidence. Amounts are in picodollars.
#[derive(Debug)]
pub struct CostBasis {
    pub unpriced_calls: u128,
    pub imputed_cost: u128,
    pub client_reported_cost: u128,
    pub unpriceable: bool,
    pub derived_thresholds: usize,
    pub inert_thresholds: usize,
    /// Standing caveats.
    pub notes: Vec<&'static str>,
}

/// The sum over some statuses.
pub open spec fn total(s: Seq<StatusEvidence>, f: spec_fn(StatusEvidence) -> nat) -> nat
    decreases s.len(),
{
    if s.len() == 0 {
        0
    } else {
        total(s.drop_last(), f) + f(s.last())
    }
}

/// A status's calls without a price.
pub open spec fn unpriced_in() -> spec_fn(StatusEvidence) -> nat {
    |s: StatusEvidence|
        match s.cost {
            Some(e) => e.unpriced_calls as nat,
            None => 0,
        }
}

/// A status's imputed cost.
pub open spec fn imputed_in() -> spec_fn(StatusEvidence) -> nat {
    |s: StatusEvidence|
        match s.cost {
            Some(e) => e.imputed_cost as nat,
            None => 0,
        }
}

/// A status's cost as the client gave it.
pub open spec fn client_in() -> spec_fn(StatusEvidence) -> nat {
    |s: StatusEvidence|
        match s.cost {
            Some(e) => e.client_reported_cost as nat,
            None => 0,
        }
}

/// One for a derived threshold.
pub open spec fn derived_in() -> spec_fn(StatusEvidence) -> nat {
    |s: StatusEvidence|
        if s.derived {
            1
        } else {
            0
        }
}

/// One for an inert threshold.
pub open spec fn inert_in() -> spec_fn(StatusEvidence) -> nat {
    |s: StatusEvidence|
        if s.inert {
            1
        } else {
            0
        }
}

/// Whether a status refuses for want of evidence.
pub open spec fn blind(s: StatusEvidence) -> bool {
    s.enforces && s.cost is Some && s.cost->0.unpriceable
}

/// The standing caveats.
pub open spec fn caveats() -> Seq<&'static str> {
    seq![
        "A `revenue_share` threshold is resolved at evaluation time from recognized revenue over the rule's own window (the same recognition the /v1/margin rollup uses), so it follows the invoice instead of going stale. Each status reports the figure it resolved against in `basis`.",
        "A derived threshold whose revenue cannot be measured — an un-invoiced customer, or a backend that does not serve revenue — resolves to infinity and never breaches, reported as `basis.kind = \"unknown\"`. A guardrail we cannot measure is inert by design; it is never a guess that could turn into a surprise 429.",
        "Unpriced calls (model absent from the price book) are charged against a cost cap at the mean cost of a priced call in the same window; the estimate is reported per rule in `cost_evidence`, never written onto the event.",
        "WHICH models are unpriced is answered by GET /v1/costs/unpriced, ranked by call count. Adding the rate there with `?fill_unpriced=1` prices the historical rows too, which is the only way the imputed share above ever reaches zero for past traffic.",
        "An enforcing cost cap whose window contains no priced call at all is unpriceable and refuses ingest — add a price for the model, or cap on `calls`/`tokens` instead.",
        "There is no repricing of history: an event's `cost_usd` is stamped once at ingest, so correcting a WRONG price-book entry does not restate spend already inside a window. The cap stays wrong until the window rolls. Only *unpriced* traffic self-corrects, because its charge is imputed at evaluation time.",
    ]
}

/// Rolls up what a project's cost caps rest on.
pub fn cost_basis(statuses: &Vec<StatusEvidence>) -> (r: CostBasis)
    ensures
        r.unpriced_calls == total(statuses@, unpriced_in()),
        r.imputed_cost == total(statuses@, imputed_in()),
        r.client_reported_cost == total(statuses@, client_in()),
        r.derived_thresholds == total(statuses@, derived_in()),
        r.inert_thresholds == total(statuses@, inert_in()),
        r.unpriceable <==> exists|i: int| 0 <= i < statuses@.len() && blind(#[trigger] statuses@[i]),
        r.notes@ == caveats(),
{
    let mut unpriced: u128 = 0;
    let mut imputed: u128 = 0;
    let mut client: u128 = 0;
    let mut derived: usize = 0;
    let mut inert: usize = 0;
    let mut unpriceable = false;
    let mut i: usize = 0;
    while i < statuses.len()
        invariant
            i <= statuses.len(),
            unpriced == total(statuses@.take(i as int), unpriced_in()),
            imputed == total(statuses@.take(i as int), imputed_in()),
            client == total(statuses@.take(i as int), client_in()),
            derived == total(statuses@.take(i as int), derived_in()),
            inert == total(statuses@.take(i as int), inert_in()),
            unpriced <= 0xffff_ffff_ffff_ffff * i,
            imputed <= 0xffff_ffff_ffff_ffff * i,
            client <= 0xffff_ffff_ffff_ffff * i,
            derived <= i,
            inert <= i,
            unpriceable <==> exists|j: int| 0 <= j < i && blind(#[trigger] statuses@[j]),
        decreases statuses.len() - i,
    {
        assert(statuses@.take(i + 1).drop_last() =~= statuses@.take(i as int));
        let s = statuses[i];
        assert(i < 0x1_0000_0000_0000_0000);
        if s.derived {
            derived += 1;
        }
        if s.inert {
            inert += 1;
        }
        if let Some(e) = s.cost {
            unpriced = unpriced + e.unpriced_calls as u128;
            imputed = imputed + e.imputed_cost as u128;
            client = client + e.client_reported_cost as u128;
            if e.unpriceable && s.enforces {
                assert(blind(statuses@[i as int]));
                unpriceable = true;
            }
        }
        i += 1;
    }
    assert(statuses@.take(i as int) =~= statuses@);
    let notes = vec![
        "A `revenue_share` threshold is resolved at evaluation time from recognized revenue over the rule's own window (the same recognition the /v1/margin rollup uses), so it follows the invoice instead of going stale. Each status reports the figure it resolved against in `basis`.",
        "A derived threshold whose revenue cannot be measured — an un-invoiced customer, or a backend that does not serve revenue — resolves to infinity and never breaches, reported as `basis.kind = \"unknown\"`. A guardrail we cannot measure is inert by design; it is never a guess that could turn into a surprise 429.",
        "Unpriced calls (model absent from the price book) are charged against a cost cap at the mean cost of a priced call in the same window; the estimate is reported per rule in `cost_evidence`, never written onto the event.",
        "WHICH models are unpriced is answered by GET /v1/costs/unpriced, ranked by call count. Adding the rate there with `?fill_unpriced=1` prices the historical rows too, which is the only way the imputed share above ever reaches zero for past traffic.",
        "An enforcing cost cap whose window contains no priced call at all is unpriceable and refuses ingest — add a price for the model, or cap on `calls`/`tokens` instead.",
        "There is no repricing of history: an event's `cost_usd` is stamped once at ingest, so correcting a WRONG price-book entry does not restate spend already inside a window. The cap stays wrong until the window rolls. Only *unpriced* traffic self-corrects, because its charge is imputed at evaluation time.",
    ];
    assert(notes@ =~= caveats());
    CostBasis {
        unpriced_calls: unpriced,
        imputed_cost: imputed,
        client_reported_cost: client,
        unpriceable,
        derived_thresholds: derived,
        inert_thresholds: inert,
        notes,
    }
}

/// What the sweep owns survives every update a caller writes: neither a tightening nor an origin nor an
/// end can be written away.
pub proof fn an_update_keeps_what_the_sweep_owns(existing: LimitRule, req: LimitReq, r: Result<LimitRule, ApiError>)
    requires
        r is Ok,
        r->Ok_0 == (LimitRule {
            metric: req.metric,
            window: req.window,
            threshold: req.threshold,
            action: req.action,
            enabled: req.enabled,
            warn_at: req.warn_at,
            scope: req.scope,
            escalation: req.escalation,
            ..existing
        }),
    ensures
        r->Ok_0.id == existing.id,
        r->Ok_0.project_id == existing.project_id,
        r->Ok_0.escalated_until == existing.escalated_until,
        r->Ok_0.origin == existing.origin,
        r->Ok_0.expires_at == existing.expires_at,
{
}

// ------------------------------------------------------------------ what rules are made of

/// A rule is made of what the caller wrote, field by field, under the identity it is given; what the
/// sweep owns comes from the rule before and is absent where there was none.
pub proof fn a_rule_is_what_was_written(
    req: LimitReq,
    id: String,
    project_id: String,
    prior: Option<&LimitRule>,
    r: LimitRule,
)
    requires
        call_ensures(LimitReq::into_rule, (req, id, project_id, prior), r),
    ensures
        r.id == id && r.project_id == project_id,
        r.metric == req.metric && r.window == req.window && r.threshold == req.threshold,
        r.action == req.action && r.enabled == req.enabled && r.warn_at == req.warn_at,
        r.scope == req.scope && r.escalation == req.escalation,
        prior is None ==> r.escalated_until is None && r.origin is None && r.expires_at is None,
        prior is Some ==> r.escalated_until == prior->0.escalated_until && r.origin == prior->0.origin
            && r.expires_at == prior->0.expires_at,
{
}

/// An update keeps the rule's identity and what the sweep owns, and takes everything else from what was
/// written; a rule that is not there cannot be updated.
pub proof fn an_update_replaces_what_was_written(
    id: &str,
    existing: Option<LimitRule>,
    req: LimitReq,
    r: Result<LimitRule, ApiError>,
)
    requires
        call_ensures(updated_rule, (id, existing, req), r),
    ensures
        r is Ok <==> existing is Some,
        r is Err ==> r->Err_0.code == ErrorCode::NotFound,
        r is Ok ==> {
            let e = existing->0;
            let n = r->Ok_0;
            &&& n.id == e.id && n.project_id == e.project_id
            &&& n.escalated_until == e.escalated_until && n.origin == e.origin && n.expires_at
                == e.expires_at
            &&& n.metric == req.metric && n.window == req.window && n.threshold == req.threshold
            &&& n.action == req.action && n.enabled == req.enabled && n.warn_at == req.warn_at
            &&& n.scope == req.scope && n.escalation == req.escalation
        },
{
}

/// What does not hold together is refused in the words of the fault, and what is not there to delete is
/// reported.
pub proof fn faults_and_absences_are_reported(
    fault: &Option<String>,
    a: Result<(), ApiError>,
    id: &str,
    deleted: bool,
    b: Result<(), ApiError>,
    c: Result<(), ApiError>,
)
    requires
        call_ensures(ensure_valid, (fault,), a),
        call_ensures(delete_answer, (id, deleted), b),
        call_ensures(policy_delete_answer, (id, deleted), c),
    ensures
        a is Ok <==> *fault is None,
        a is Err ==> a->Err_0.code == ErrorCode::BadRequest && a->Err_0.message@ == fault->0@,
        b is Ok <==> deleted,
        c is Ok <==> deleted,
        b is Err ==> b->Err_0.code == ErrorCode::NotFound,
        c is Err ==> c->Err_0.code == ErrorCode::NotFound,
{
}

/// Every rule in force is evaluated against a figure of its own window and its own slice, two rules that
/// agree in both share one, and nothing is read that no rule needs.
pub proof fn every_rule_reads_its_own_figure(
    rules: &Vec<LimitRule>,
    active: &Vec<bool>,
    r: UsagePlan,
    i: int,
    j: int,
)
    requires
        active@.len() == rules@.len(),
        call_ensures(plan_usage, (rules, active), r),
        0 <= i < rules@.len(),
        0 <= j < rules@.len(),
    ensures
        r.figure@.len() == rules@.len(),
        r.figure@[i] is Some <==> active@[i],
        r.figure@[i] is Some ==> {
            let k = r.figure@[i]->0 as int;
            &&& k < r.reads@.len()
            &&& r.reads@[k].window == rules@[i].window
            &&& r.reads@[k].scope is Some <==> rules@[i].scope is Some
            &&& rules@[i].scope is Some ==> r.reads@[k].scope->0.kind() == rules@[i].scope->0.kind()
                && r.reads@[k].scope->0.what() == rules@[i].scope->0.what()
        },
        active@[i] && active@[j] && rules@[i].window == rules@[j].window && rules@[i].scope
            == rules@[j].scope ==> r.figure@[i] == r.figure@[j],
        forall|k: int|
            0 <= k < r.reads@.len() ==> exists|l: int|
                0 <= l < r.figure@.len() && #[trigger] r.figure@[l] == Some(#[trigger] (k as usize)),
{
    assert(r.figure@[i] is Some || r.figure@[i] is None);
    assert(r.figure@[j] is Some || r.figure@[j] is None);
    if active@[i] && active@[j] && rules@[i].window == rules@[j].window && rules@[i].scope
        == rules@[j].scope {
        let x = r.figure@[i]->0 as int;
        let y = r.figure@[j]->0 as int;
        let u = r.reads@[x];
        let w = r.reads@[y];
        assert(x == y);
    }
    assert forall|k: int| 0 <= k < r.reads@.len() implies exists|l: int|
        0 <= l < r.figure@.len() && #[trigger] r.figure@[l] == Some(#[trigger] (k as usize)) by {
        assert(is_used(r.figure@, k));
    }
}

/// One more status adds its own figures to what a project's cost caps rest on, each to its own sum, and
/// a single status that refuses for want of evidence makes the whole unpriceable; nothing adds up to
/// nothing.
pub proof fn evidence_adds_up(
    before: &Vec<StatusEvidence>,
    after: &Vec<StatusEvidence>,
    a: CostBasis,
    b: CostBasis,
)
    requires
        call_ensures(cost_basis, (before,), a),
        call_ensures(cost_basis, (after,), b),
        after@.len() > 0,
        after@.drop_last() == before@,
    ensures
        before@.len() == 0 ==> a.unpriced_calls == 0 && a.imputed_cost == 0 && a.client_reported_cost == 0
            && a.derived_thresholds == 0 && a.inert_thresholds == 0 && !a.unpriceable,
        ({
            let x = after@.last();
            &&& x.cost is Some ==> b.unpriced_calls == a.unpriced_calls + x.cost->0.unpriced_calls
            &&& x.cost is Some ==> b.imputed_cost == a.imputed_cost + x.cost->0.imputed_cost
            &&& x.cost is Some ==> b.client_reported_cost == a.client_reported_cost
                + x.cost->0.client_reported_cost
            &&& x.cost is None ==> b.unpriced_calls == a.unpriced_calls && b.imputed_cost
                == a.imputed_cost && b.client_reported_cost == a.client_reported_cost
            &&& b.derived_thresholds == a.derived_thresholds + (if x.derived {
                1int
            } else {
                0
            })
            &&& b.inert_thresholds == a.inert_thresholds + (if x.inert {
                1int
            } else {
                0
            })
            &&& b.unpriceable <==> a.unpriceable || (x.enforces && x.cost is Some && x.cost->0.unpriceable)
        }),
{
    let x = after@.last();
    if b.unpriceable {
        let i = choose|i: int| 0 <= i < after@.len() && blind(#[trigger] after@[i]);
        if i < before@.len() {
            assert(before@[i] == after@[i]);
        }
    }
    if a.unpriceable {
        let i = choose|i: int| 0 <= i < before@.len() && blind(#[trigger] before@[i]);
        assert(after@[i] == before@[i]);
    }
    assert(after@[after@.len() - 1] == x);
}

/// A rule is enabled unless it says otherwise, and what a project's caps rest on is always told with all
/// six of its caveats.
pub proof fn a_rule_is_enabled_by_default(on: bool, statuses: &Vec<StatusEvidence>, r: CostBasis)
    requires
        call_ensures(default_true, (), on),
        call_ensures(cost_basis, (statuses,), r),
    ensures
        on,
        r.notes@.len() == 6,
{
}

} // verus!
