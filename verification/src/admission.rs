//! What follows from one admission: which rules to alert on, what to count as refused, and the words
//! in which a refusal is explained.
use vstd::prelude::*;

use crate::clock::Timestamp;
use crate::limit::{LimitScope, LimitStatus};
use crate::rejections::{counted, filed, key_of, BucketKey, LedgerView, RejectionLedger};
use crate::seqs::{
    first_where, first_where_is, first_where_none, ints, lists, positions, positions_list, positions_step,
};
use crate::text::{dec, has_within, pieces_stand, show_u64, strung, strung_on};

verus! {

/// A limit rule that refuses ingest.
pub open spec fn refuses() -> spec_fn(LimitStatus) -> bool {
    |s: LimitStatus| s.rejects_ingest
}

/// A rule that turned this very event away on the approach to its cap.
pub open spec fn sheds() -> spec_fn(LimitStatus) -> bool {
    |s: LimitStatus| s.shedding
}

/// A rule whose cap is crossed.
pub open spec fn over() -> spec_fn(LimitStatus) -> bool {
    |s: LimitStatus| s.breached
}

/// A rule whose soft tier is crossed.
pub open spec fn warns() -> spec_fn(LimitStatus) -> bool {
    |s: LimitStatus| s.warning
}

/// A rule that had any part in turning the event away.
pub open spec fn turned_away() -> spec_fn(LimitStatus) -> bool {
    |s: LimitStatus| s.rejects_ingest || s.shedding
}

/// What to do after one admission. The lists hold positions in the admission's statuses.
#[derive(Debug)]
pub struct AdmissionPlan {
    /// Breached rules: logged, and delivered as breach alerts.
    pub breached: Vec<usize>,
    /// Rules to count in the rejection ledger; empty for an admitted event.
    pub count_against: Vec<usize>,
    /// Rules throttling this event on the approach to their cap.
    pub throttling: Vec<usize>,
    /// Rules to warn about; empty unless the event was admitted.
    pub warnings: Vec<usize>,
    /// Whether the event feeds error-spike detection.
    pub feed_error_spike: bool,
}

fn pick(statuses: &Vec<LimitStatus>, which: u8) -> (r: Vec<usize>)
    ensures
        which == 0 ==> ints(r@) == positions(statuses@, over()),
        which == 1 ==> ints(r@) == positions(statuses@, turned_away()),
        which == 2 ==> ints(r@) == positions(statuses@, sheds()),
        which == 3 ==> ints(r@) == positions(statuses@, warns()),
{
    let mut out: Vec<usize> = Vec::new();
    let mut i: usize = 0;
    while i < statuses.len()
        invariant
            i <= statuses.len(),
            which == 0 ==> ints(out@) == positions(statuses@.take(i as int), over()),
            which == 1 ==> ints(out@) == positions(statuses@.take(i as int), turned_away()),
            which == 2 ==> ints(out@) == positions(statuses@.take(i as int), sheds()),
            which == 3 ==> ints(out@) == positions(statuses@.take(i as int), warns()),
        decreases statuses.len() - i,
    {
        proof {
            positions_step(statuses@, i as int, over());
            positions_step(statuses@, i as int, turned_away());
            positions_step(statuses@, i as int, sheds());
            positions_step(statuses@, i as int, warns());
        }
        let s = &statuses[i];
        let hit = if which == 0 {
            s.breached
        } else if which == 1 {
            s.rejects_ingest || s.shedding
        } else if which == 2 {
            s.shedding
        } else {
            s.warning
        };
        let ghost b = out@;
        if hit {
            out.push(i);
            assert(ints(out@) =~= ints(b).push(i as int));
        }
        i += 1;
    }
    assert(statuses@.take(i as int) =~= statuses@);
    out
}

/// Decides what follows from an admission: every breach is alerted on; a refused event is counted
/// against every rule that had a part in it; warnings go out only for an admitted event; and only an
/// admitted call that did not succeed feeds error-spike detection.
pub fn plan_admission(statuses: &Vec<LimitStatus>, admitted: bool, succeeded: bool) -> (r: AdmissionPlan)
    ensures
        ints(r.breached@) == positions(statuses@, over()),
        ints(r.throttling@) == positions(statuses@, sheds()),
        admitted ==> r.count_against@.len() == 0,
        !admitted ==> ints(r.count_against@) == positions(statuses@, turned_away()),
        admitted ==> ints(r.warnings@) == positions(statuses@, warns()),
        !admitted ==> r.warnings@.len() == 0,
        r.feed_error_spike == (admitted && !succeeded),
{
    AdmissionPlan {
        breached: pick(statuses, 0),
        count_against: if admitted {
            Vec::new()
        } else {
            pick(statuses, 1)
        },
        throttling: pick(statuses, 2),
        warnings: if admitted {
            pick(statuses, 3)
        } else {
            Vec::new()
        },
        feed_error_spike: admitted && !succeeded,
    }
}

/// How often a rule has refused lately, by the key its alerts are told apart by.
#[derive(Debug)]
pub struct RejectionCount {
    pub alert_key: String,
    pub count: u64,
}

/// The ledger identity a status is counted under.
pub open spec fn status_key(s: LimitStatus) -> BucketKey {
    key_of(s.project_id@, s.metric, s.window, s.scope)
}

/// The ledger after a refused event was filed against every rule of `s` that turned it away.
pub open spec fn filed_all(l: LedgerView, s: Seq<LimitStatus>, cost: int, now: int) -> LedgerView
    decreases s.len(),
{
    if s.len() == 0 {
        l
    } else {
        let before = filed_all(l, s.drop_last(), cost, now);
        if turned_away()(s.last()) {
            filed(before, status_key(s.last()), cost, now)
        } else {
            before
        }
    }
}

/// Files a refused event in the ledger once for every rule that turned it away, whether by a hard
/// stop or by throttling, and gives back the running count of each, in the rules' order.
pub fn record_rejection(
    ledger: &mut RejectionLedger,
    statuses: &Vec<LimitStatus>,
    cost: u64,
    now: Timestamp,
) -> (r: Vec<RejectionCount>)
    requires
        old(ledger).wf(),
        now.valid(),
        statuses@.len() <= isize::MAX,
        -9_000_000_000_000 <= old(ledger).last_prune <= 9_000_000_000_000,
        forall|i: int|
            0 <= i < old(ledger).buckets@.len() ==> (#[trigger] old(ledger).buckets@[i]).count
                + statuses@.len() < u64::MAX,
    ensures
        final(ledger).wf(),
        r@.len() == positions(statuses@, turned_away()).len(),
        forall|k: int|
            0 <= k < r@.len() ==> (#[trigger] r@[k]).alert_key
                == statuses@[positions(statuses@, turned_away())[k]].alert_key,
        forall|k: int|
            0 <= k < r@.len() ==> ({
                let at = positions(statuses@, turned_away())[k];
                (#[trigger] r@[k]).count == counted(
                    filed_all(old(ledger)@, statuses@.take(at + 1), cost as int, now.nanos as int),
                    status_key(statuses@[at]),
                )
            }),
        final(ledger)@ == filed_all(old(ledger)@, statuses@, cost as int, now.nanos as int),
{
    let mut out: Vec<RejectionCount> = Vec::new();
    let mut i: usize = 0;
    while i < statuses.len()
        invariant
            i <= statuses.len(),
            ledger.wf(),
            now.valid(),
            statuses@.len() <= isize::MAX,
            -9_000_000_000_000 <= ledger.last_prune <= 9_000_000_000_000,
            forall|j: int|
                0 <= j < ledger.buckets@.len() ==> (#[trigger] ledger.buckets@[j]).count
                    + (statuses@.len() - i) < u64::MAX,
            out@.len() == positions(statuses@.take(i as int), turned_away()).len(),
            forall|k: int|
                0 <= k < out@.len() ==> (#[trigger] out@[k]).alert_key
                    == statuses@[positions(statuses@.take(i as int), turned_away())[k]].alert_key,
            forall|k: int|
                0 <= k < out@.len() ==> ({
                    let at = positions(statuses@.take(i as int), turned_away())[k];
                    (#[trigger] out@[k]).count == counted(
                        filed_all(
                            old(ledger)@,
                            statuses@.take(at + 1),
                            cost as int,
                            now.nanos as int,
                        ),
                        status_key(statuses@[at]),
                    )
                }),
            ledger@ == filed_all(
                old(ledger)@,
                statuses@.take(i as int),
                cost as int,
                now.nanos as int,
            ),
        decreases statuses.len() - i,
    {
        proof {
            positions_step(statuses@, i as int, turned_away());
            assert(statuses@.take(i + 1).drop_last() =~= statuses@.take(i as int));
        }
        let s = &statuses[i];
        if s.rejects_ingest || s.shedding {
            let ghost prev = ledger.buckets@;
            let n: u64 = ledger.record(
                s.project_id.as_str(),
                s.metric,
                s.window,
                &s.scope,
                cost,
                now,
            );
            assert forall|j: int| 0 <= j < ledger.buckets@.len() implies (
            #[trigger] ledger.buckets@[j]).count + (statuses@.len() - (i + 1)) < u64::MAX by {
                if ledger.buckets@[j].count > 1 {
                    let m = choose|m: int|
                        0 <= m < prev.len() && ledger.buckets@[j].count <= (#[trigger] prev[m]).count
                            + 1;
                    assert(prev[m].count + (statuses@.len() - i) < u64::MAX);
                }
            }
            out.push(RejectionCount { alert_key: s.alert_key.clone(), count: n });
        }
        i += 1;
    }
    assert(statuses@.take(i as int) =~= statuses@);
    out
}

/// ` [scope kind=value]`, or nothing for a project-wide rule.
pub open spec fn scope_part(s: Option<LimitScope>) -> Seq<char> {
    match s {
        Some(sc) => " [scope "@ + sc.labelled() + "]"@,
        None => ""@,
    }
}

/// Why an event was turned away on the approach to a cap.
pub open spec fn throttle_text(s: LimitStatus) -> Seq<char> {
    "ingest throttled: project '"@ + s.project_id@ + "'"@ + scope_part(s.scope) + " is at "@
        + s.percent@ + "% of its "@ + s.metric.name() + "/"@ + s.window.name() + " limit ("@
        + s.current@ + " of "@ + s.threshold@ + "); "@ + s.shed_percent@
        + "% of ingest is being shed on the approach. Not over budget — slow down and retry in "@
        + dec(s.retry_after_secs as nat) + "s."@
}

/// Why an event was refused by a cost cap that cannot be measured.
pub open spec fn unpriceable_text(s: LimitStatus) -> Seq<char> {
    "ingest blocked: project '"@ + s.project_id@ + "'"@ + scope_part(s.scope)
        + " has an enforcing "@ + s.metric.name() + "/"@ + s.window.name()
        + " cost limit but no priced traffic in the window — this model is absent from the price book, so the cap cannot be measured. Add a price for it (POST /v1/prices) or cap on calls/tokens instead."@
}

/// Why an event was refused by a crossed cap.
pub open spec fn over_text(s: LimitStatus) -> Seq<char> {
    let basis = match s.basis {
        Some(d) => " — "@ + d@,
        None => ""@,
    };
    let estimated = if s.estimated {
        " (includes imputed cost for unpriced calls)"@
    } else {
        ""@
    };
    "ingest blocked: project '"@ + s.project_id@ + "'"@ + scope_part(s.scope) + " is over its "@
        + s.metric.name() + "/"@ + s.window.name() + " limit ("@ + s.current@ + " >= "@
        + s.threshold@ + ", action="@ + s.action.name() + ")"@ + estimated + basis
}

/// Why an admission was refused: the first rule that refuses outright, else the first that
/// throttles, else no more than that a limit was exceeded.
pub open spec fn reason_text(s: Seq<LimitStatus>) -> Seq<char> {
    match first_where(s, refuses()) {
        Some(i) => if s[i].unpriceable && !s[i].breached {
            unpriceable_text(s[i])
        } else {
            over_text(s[i])
        },
        None => match first_where(s, sheds()) {
            Some(i) => throttle_text(s[i]),
            None => "ingest blocked: usage limit exceeded"@,
        },
    }
}

fn show_scope(s: &Option<LimitScope>) -> (r: String)
    ensures
        r@ == scope_part(*s),
{
    match s {
        Some(sc) => {
            let l = sc.label();
            let mut out = " [scope ".to_owned();
            out.append(l.as_str());
            out.append("]");
            out
        },
        None => "".to_owned(),
    }
}

fn show_throttle(s: &LimitStatus) -> (r: String)
    ensures
        r@ == throttle_text(*s),
{
    let scope = show_scope(&s.scope);
    let wait = show_u64(s.retry_after_secs);
    let mut out = "ingest throttled: project '".to_owned();
    out.append(s.project_id.as_str());
    out.append("'");
    out.append(scope.as_str());
    out.append(" is at ");
    out.append(s.percent.as_str());
    out.append("% of its ");
    out.append(s.metric.show());
    out.append("/");
    out.append(s.window.show());
    out.append(" limit (");
    out.append(s.current.as_str());
    out.append(" of ");
    out.append(s.threshold.as_str());
    out.append("); ");
    out.append(s.shed_percent.as_str());
    out.append(
        "% of ingest is being shed on the approach. Not over budget — slow down and retry in ",
    );
    out.append(wait.as_str());
    out.append("s.");
    out
}

fn show_unpriceable(s: &LimitStatus) -> (r: String)
    ensures
        r@ == unpriceable_text(*s),
{
    let scope = show_scope(&s.scope);
    let mut out = "ingest blocked: project '".to_owned();
    out.append(s.project_id.as_str());
    out.append("'");
    out.append(scope.as_str());
    out.append(" has an enforcing ");
    out.append(s.metric.show());
    out.append("/");
    out.append(s.window.show());
    out.append(
        " cost limit but no priced traffic in the window — this model is absent from the price book, so the cap cannot be measured. Add a price for it (POST /v1/prices) or cap on calls/tokens instead.",
    );
    out
}

fn show_over(s: &LimitStatus) -> (r: String)
    ensures
        r@ == over_text(*s),
{
    let scope = show_scope(&s.scope);
    let mut out = "ingest blocked: project '".to_owned();
    out.append(s.project_id.as_str());
    out.append("'");
    out.append(scope.as_str());
    out.append(" is over its ");
    out.append(s.metric.show());
    out.append("/");
    out.append(s.window.show());
    out.append(" limit (");
    out.append(s.current.as_str());
    out.append(" >= ");
    out.append(s.threshold.as_str());
    out.append(", action=");
    out.append(s.action.show());
    out.append(")");
    out.append(
        if s.estimated {
            " (includes imputed cost for unpriced calls)"
        } else {
            ""
        },
    );
    let basis = match &s.basis {
        Some(d) => {
            let mut b = " — ".to_owned();
            b.append(d.as_str());
            b
        },
        None => "".to_owned(),
    };
    out.append(basis.as_str());
    out
}

/// The first status that refuses ingest outright.
pub fn first_refusing(statuses: &Vec<LimitStatus>) -> (r: Option<usize>)
    ensures
        match r {
            Some(i) => i < statuses@.len() && first_where(statuses@, refuses()) == Some(i as int),
            None => first_where(statuses@, refuses()) is None,
        },
{
    let mut i: usize = 0;
    while i < statuses.len()
        invariant
            i <= statuses.len(),
            forall|j: int| 0 <= j < i ==> !refuses()(#[trigger] statuses@[j]),
        decreases statuses.len() - i,
    {
        if statuses[i].rejects_ingest {
            proof {
                first_where_is(statuses@, refuses(), i as int);
            }
            return Some(i);
        }
        i += 1;
    }
    proof {
        first_where_none(statuses@, refuses());
    }
    None
}

/// The first status that throttles this event.
pub fn first_shedding(statuses: &Vec<LimitStatus>) -> (r: Option<usize>)
    ensures
        match r {
            Some(i) => i < statuses@.len() && first_where(statuses@, sheds()) == Some(i as int),
            None => first_where(statuses@, sheds()) is None,
        },
{
    let mut i: usize = 0;
    while i < statuses.len()
        invariant
            i <= statuses.len(),
            forall|j: int| 0 <= j < i ==> !sheds()(#[trigger] statuses@[j]),
        decreases statuses.len() - i,
    {
        if statuses[i].shedding {
            proof {
                first_where_is(statuses@, sheds(), i as int);
            }
            return Some(i);
        }
        i += 1;
    }
    proof {
        first_where_none(statuses@, sheds());
    }
    None
}

/// Why an admission was refused, in words. Takes the full set of statuses, since neither a cap that
/// cannot be measured nor a throttle reads as breached.
pub fn breach_reason(statuses: &Vec<LimitStatus>) -> (r: String)
    ensures
        r@ == reason_text(statuses@),
{
    match first_refusing(statuses) {
        Some(i) => {
            let s = &statuses[i];
            if s.unpriceable && !s.breached {
                show_unpriceable(s)
            } else {
                show_over(s)
            }
        },
        None => match first_shedding(statuses) {
            Some(i) => show_throttle(&statuses[i]),
            None => "ingest blocked: usage limit exceeded".to_owned(),
        },
    }
}

/// Whether a project's events are being turned away: some rule refuses them.
pub fn throttled(statuses: &Vec<LimitStatus>) -> (r: bool)
    ensures
        r <==> exists|i: int| 0 <= i < statuses@.len() && refuses()(#[trigger] statuses@[i]),
{
    match first_refusing(statuses) {
        Some(i) => {
            proof {
                crate::seqs::first_where_some_at(statuses@, refuses(), i as int);
            }
            true
        },
        None => {
            proof {
                if exists|i: int| 0 <= i < statuses@.len() && refuses()(#[trigger] statuses@[i]) {
                    let i = choose|i: int|
                        0 <= i < statuses@.len() && refuses()(#[trigger] statuses@[i]);
                    crate::seqs::first_where_some(statuses@, refuses(), i);
                }
            }
            false
        },
    }
}

/// A throttled event is never described as blocked while no rule refuses outright.
pub proof fn a_throttle_is_not_called_a_breach(s: Seq<LimitStatus>, k: int)
    requires
        0 <= k < s.len(),
        s[k].shedding,
        forall|j: int| 0 <= j < s.len() ==> !(#[trigger] s[j]).rejects_ingest,
    ensures
        first_where(s, sheds()) is Some,
        reason_text(s) == throttle_text(s[first_where(s, sheds())->0]),
{
    assert forall|j: int| 0 <= j < s.len() implies !refuses()(#[trigger] s[j]) by {
        assert(!s[j].rejects_ingest);
    }
    first_where_none(s, refuses());
    crate::seqs::first_where_some(s, sheds(), k);
}

// ------------------------------------------------------------------ what follows from an admission

/// Every crossed cap is alerted on and every throttle noted, whatever was decided; a refused event is
/// counted against exactly the rules that refuse or throttle it and warns of nothing; an admitted one is
/// counted against none, warns of every soft tier it crossed, and feeds error detection where it failed.
pub proof fn an_admission_is_followed_up(
    s: &Vec<LimitStatus>,
    admitted: bool,
    succeeded: bool,
    r: AdmissionPlan,
)
    requires
        call_ensures(plan_admission, (s, admitted, succeeded), r),
    ensures
        lists(r.breached@, s@, |x: LimitStatus| x.breached),
        lists(r.throttling@, s@, |x: LimitStatus| x.shedding),
        admitted ==> lists(r.warnings@, s@, |x: LimitStatus| x.warning),
        !admitted ==> lists(r.count_against@, s@, |x: LimitStatus| x.rejects_ingest || x.shedding),
        admitted ==> r.count_against@.len() == 0,
        !admitted ==> r.warnings@.len() == 0,
        r.feed_error_spike <==> admitted && !succeeded,
{
    positions_list(r.breached@, s@, over());
    positions_list(r.throttling@, s@, sheds());
    assert(over() =~= (|x: LimitStatus| x.breached));
    assert(sheds() =~= (|x: LimitStatus| x.shedding));
    assert(warns() =~= (|x: LimitStatus| x.warning));
    assert(turned_away() =~= (|x: LimitStatus| x.rejects_ingest || x.shedding));
    if admitted {
        positions_list(r.warnings@, s@, warns());
    } else {
        positions_list(r.count_against@, s@, turned_away());
    }
}

/// The first status found is the first that refuses, or sheds, and a project is throttled exactly where
/// one refuses.
pub proof fn the_first_of_each_is_found(
    s: &Vec<LimitStatus>,
    a: Option<usize>,
    b: Option<usize>,
    t: bool,
)
    requires
        call_ensures(first_refusing, (s,), a),
        call_ensures(first_shedding, (s,), b),
        call_ensures(throttled, (s,), t),
    ensures
        t <==> a is Some,
        t <==> exists|i: int| 0 <= i < s@.len() && (#[trigger] s@[i]).rejects_ingest,
        a is Some ==> a->0 < s@.len() && s@[a->0 as int].rejects_ingest && forall|j: int|
            0 <= j < a->0 ==> !(#[trigger] s@[j]).rejects_ingest,
        b is Some ==> b->0 < s@.len() && s@[b->0 as int].shedding && forall|j: int|
            0 <= j < b->0 ==> !(#[trigger] s@[j]).shedding,
        b is None ==> forall|j: int| 0 <= j < s@.len() ==> !(#[trigger] s@[j]).shedding,
{
    let p = refuses();
    let q = sheds();
    if a is Some {
        let i = a->0 as int;
        assert(crate::seqs::is_first(s@, p, i));
        assert(p(s@[i]));
        assert forall|j: int| 0 <= j < i implies !(#[trigger] s@[j]).rejects_ingest by {
            assert(!p(s@[j]));
        }
    } else {
        assert forall|j: int| 0 <= j < s@.len() implies !(#[trigger] s@[j]).rejects_ingest by {
            if p(s@[j]) {
                crate::seqs::first_where_some(s@, p, j);
            }
        }
    }
    if b is Some {
        let i = b->0 as int;
        assert(crate::seqs::is_first(s@, q, i));
        assert forall|j: int| 0 <= j < i implies !(#[trigger] s@[j]).shedding by {
            assert(!q(s@[j]));
        }
    } else {
        assert forall|j: int| 0 <= j < s@.len() implies !(#[trigger] s@[j]).shedding by {
            if q(s@[j]) {
                crate::seqs::first_where_some(s@, q, j);
            }
        }
    }
}

/// Why an event was refused is said of the first rule that refuses it, in that rule's own figures; a
/// cap that cannot be measured is called that, and not one that is crossed.
pub proof fn a_refusal_is_explained_by_the_rule(s: &Vec<LimitStatus>, i: int, r: String)
    requires
        call_ensures(breach_reason, (s,), r),
        0 <= i < s@.len(),
        s@[i].rejects_ingest,
        forall|j: int| 0 <= j < i ==> !(#[trigger] s@[j]).rejects_ingest,
    ensures
        has_within(r@, "ingest blocked: project '"@ + s@[i].project_id@),
        has_within(r@, s@[i].metric.name() + "/"@ + s@[i].window.name()),
        s@[i].scope is Some ==> has_within(
            r@,
            " [scope "@ + (s@[i].scope->0.kind() + "="@ + s@[i].scope->0.what()) + "]"@,
        ),
        s@[i].unpriceable && !s@[i].breached ==> has_within(r@, " has an enforcing "@),
        !(s@[i].unpriceable && !s@[i].breached) ==> {
            &&& has_within(r@, " is over its "@)
            &&& has_within(r@, " limit ("@ + s@[i].current@ + " >= "@ + s@[i].threshold@)
            &&& has_within(r@, ", action="@ + s@[i].action.name())
            &&& s@[i].estimated ==> has_within(r@, " (includes imputed cost for unpriced calls)"@)
            &&& s@[i].basis is Some ==> has_within(r@, " — "@ + s@[i].basis->0@)
        },
{
    let x = s@[i];
    assert(crate::seqs::is_first(s@, refuses(), i)) by {
        assert forall|j: int| 0 <= j < i implies !refuses()(#[trigger] s@[j]) by {
            assert(!s@[j].rejects_ingest);
        }
    }
    first_where_is(s@, refuses(), i);
    let v = strung_on(seq![], "ingest blocked: project '"@);
    let v = strung_on(v, x.project_id@);
    let v = strung_on(v, "'"@);
    let v = strung_on(v, scope_part(x.scope));
    if x.unpriceable && !x.breached {
        let v = strung_on(v, " has an enforcing "@);
        let v = strung_on(v, x.metric.name());
        let v = strung_on(v, "/"@);
        let v = strung_on(v, x.window.name());
        let v = strung_on(
            v,
            " cost limit but no priced traffic in the window — this model is absent from the price book, so the cap cannot be measured. Add a price for it (POST /v1/prices) or cap on calls/tokens instead."@,
        );
        assert(r@ == strung(v));
        pieces_stand(v, 0);
        pieces_stand(v, 3);
        pieces_stand(v, 4);
        pieces_stand(v, 5);
    } else {
        let v = strung_on(v, " is over its "@);
        let v = strung_on(v, x.metric.name());
        let v = strung_on(v, "/"@);
        let v = strung_on(v, x.window.name());
        let v = strung_on(v, " limit ("@);
        let v = strung_on(v, x.current@);
        let v = strung_on(v, " >= "@);
        let v = strung_on(v, x.threshold@);
        let v = strung_on(v, ", action="@);
        let v = strung_on(v, x.action.name());
        let v = strung_on(v, ")"@);
        let v = strung_on(
            v,
            if x.estimated {
                " (includes imputed cost for unpriced calls)"@
            } else {
                ""@
            },
        );
        let v = strung_on(
            v,
            match x.basis {
                Some(d) => " — "@ + d@,
                None => ""@,
            },
        );
        assert(r@ == strung(v));
        pieces_stand(v, 0);
        pieces_stand(v, 3);
        pieces_stand(v, 4);
        pieces_stand(v, 5);
        pieces_stand(v, 8);
        pieces_stand(v, 12);
        pieces_stand(v, 15);
        pieces_stand(v, 16);
    }
}

/// A throttle is explained by the first rule that sheds: how far along it is, what share is turned away
/// and how long to wait, each in its own place.
pub proof fn a_throttle_is_explained_by_the_rule(s: &Vec<LimitStatus>, i: int, r: String)
    requires
        call_ensures(breach_reason, (s,), r),
        0 <= i < s@.len(),
        s@[i].shedding,
        forall|j: int| 0 <= j < i ==> !(#[trigger] s@[j]).shedding,
        forall|j: int| 0 <= j < s@.len() ==> !(#[trigger] s@[j]).rejects_ingest,
    ensures
        has_within(r@, "ingest throttled: project '"@ + s@[i].project_id@),
        has_within(r@, " is at "@ + s@[i].percent@ + "% of its "@ + s@[i].metric.name()),
        has_within(r@, s@[i].metric.name() + "/"@ + s@[i].window.name()),
        has_within(r@, " limit ("@ + s@[i].current@ + " of "@ + s@[i].threshold@),
        has_within(r@, "); "@ + s@[i].shed_percent@),
        has_within(
            r@,
            "% of ingest is being shed on the approach. Not over budget — slow down and retry in "@
                + dec(s@[i].retry_after_secs as nat) + "s."@,
        ),
        s@[i].scope is Some ==> has_within(
            r@,
            " [scope "@ + (s@[i].scope->0.kind() + "="@ + s@[i].scope->0.what()) + "]"@,
        ),
{
    let x = s@[i];
    assert forall|j: int| 0 <= j < s@.len() implies !refuses()(#[trigger] s@[j]) by {
        assert(!s@[j].rejects_ingest);
    }
    first_where_none(s@, refuses());
    assert(crate::seqs::is_first(s@, sheds(), i)) by {
        assert forall|j: int| 0 <= j < i implies !sheds()(#[trigger] s@[j]) by {
            assert(!s@[j].shedding);
        }
    }
    first_where_is(s@, sheds(), i);
    let v = strung_on(seq![], "ingest throttled: project '"@);
    let v = strung_on(v, x.project_id@);
    let v = strung_on(v, "'"@);
    let v = strung_on(v, scope_part(x.scope));
    let v = strung_on(v, " is at "@);
    let v = strung_on(v, x.percent@);
    let v = strung_on(v, "% of its "@);
    let v = strung_on(v, x.metric.name());
    let v = strung_on(v, "/"@);
    let v = strung_on(v, x.window.name());
    let v = strung_on(v, " limit ("@);
    let v = strung_on(v, x.current@);
    let v = strung_on(v, " of "@);
    let v = strung_on(v, x.threshold@);
    let v = strung_on(v, "); "@);
    let v = strung_on(v, x.shed_percent@);
    let v = strung_on(
        v,
        "% of ingest is being shed on the approach. Not over budget — slow down and retry in "@,
    );
    let v = strung_on(v, dec(x.retry_after_secs as nat));
    let v = strung_on(v, "s."@);
    assert(r@ == strung(v));
    pieces_stand(v, 0);
    pieces_stand(v, 3);
    pieces_stand(v, 4);
    pieces_stand(v, 7);
    pieces_stand(v, 10);
    pieces_stand(v, 14);
    pieces_stand(v, 16);
}

} // verus!
