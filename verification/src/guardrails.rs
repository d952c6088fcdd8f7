//! The acting half of a forecast: when a rule is tightened and loosened again, which policy changes are
//! let through, and which rule stands for whom.
use vstd::prelude::*;

use crate::clock::{Timestamp, NANOS_PER_SEC};
use crate::figure::Real;
use crate::forecast_alerts::{AlertKind, ForecastAlert};
use crate::limits::LimitRule;
use crate::seqs::{first_where, first_where_is, first_where_none, first_where_tells};
use crate::text::{chars_of, has_prefix, same, slice_of, starts_with};

verus! {

/// Seconds between two changes of one policy, when nobody says.
pub fn default_cooldown() -> (r: u64)
    ensures
        r == 3600,
{
    3600
}

/// Seconds a policy's rule stands, when nobody says.
pub fn default_expiry() -> (r: u64)
    ensures
        r == 86_400,
{
    86_400
}

/// What an operator asks of a policy: when it acts and what it then does, over which cost it bothers,
/// how often it may act and how long what it did stands.
#[derive(Debug)]
pub struct PolicyReq<T, A> {
    pub trigger: T,
    pub action: A,
    pub min_cost: Real,
    pub cooldown_secs: u64,
    pub expiry_secs: u64,
    pub enabled: bool,
}

/// A policy of a project.
#[derive(Debug)]
pub struct MarginPolicy<T, A> {
    pub id: String,
    pub project_id: String,
    pub trigger: T,
    pub action: A,
    pub min_cost: Real,
    pub cooldown_secs: u64,
    pub expiry_secs: u64,
    pub enabled: bool,
}

impl<T, A> PolicyReq<T, A> {
    /// The policy that was asked for. Its id is the server's and its project the path's.
    pub fn into_policy(self, id: String, project_id: String) -> (r: MarginPolicy<T, A>)
        ensures
            r == (MarginPolicy {
                id,
                project_id,
                trigger: self.trigger,
                action: self.action,
                min_cost: self.min_cost,
                cooldown_secs: self.cooldown_secs,
                expiry_secs: self.expiry_secs,
                enabled: self.enabled,
            }),
    {
        MarginPolicy {
            id,
            project_id,
            trigger: self.trigger,
            action: self.action,
            min_cost: self.min_cost,
            cooldown_secs: self.cooldown_secs,
            expiry_secs: self.expiry_secs,
            enabled: self.enabled,
        }
    }
}

// ------------------------------------------------------------------ cooldowns

/// When a policy last acted on a subject.
#[derive(Debug)]
pub struct Acted {
    pub origin: String,
    pub at: Timestamp,
}

/// The entry of `origin`.
pub open spec fn acted_for(origin: Seq<char>) -> spec_fn(Acted) -> bool {
    |a: Acted| a.origin@ == origin
}

/// When a policy last acted on a subject.
pub open spec fn last_acted(m: Seq<Acted>, origin: Seq<char>) -> Option<int> {
    match first_where(m, acted_for(origin)) {
        Some(i) => Some(m[i].at.nanos as int),
        None => None,
    }
}

/// Whether a policy may act on a subject now: never within its cooldown.
pub open spec fn may_act(m: Seq<Acted>, origin: Seq<char>, cooldown_secs: int, now: Timestamp) -> bool {
    match last_acted(m, origin) {
        Some(t) => now.nanos - t >= cooldown_secs * NANOS_PER_SEC,
        None => true,
    }
}

/// When each policy last acted on each subject.
#[derive(Debug)]
pub struct PolicyCooldowns {
    pub seen: Vec<Acted>,
}

impl PolicyCooldowns {
    /// Nothing has acted yet.
    pub fn new() -> (r: PolicyCooldowns)
        ensures
            r.seen@.len() == 0,
    {
        PolicyCooldowns { seen: Vec::new() }
    }

    /// Whether a policy may act on a subject now, and records that it did where it may.
    pub fn allow(&mut self, origin: &str, cooldown_secs: u64, now: Timestamp) -> (r: bool)
        requires
            now.valid(),
            forall|i: int| 0 <= i < old(self).seen@.len() ==> (#[trigger] old(self).seen@[i]).at.valid(),
        ensures
            forall|i: int|
                0 <= i < final(self).seen@.len() ==> (#[trigger] final(self).seen@[i]).at.valid(),
            r == may_act(old(self).seen@, origin@, cooldown_secs as int, now),
            !r ==> *final(self) == *old(self),
            r ==> last_acted(final(self).seen@, origin@) == Some(now.nanos as int),
            forall|o: Seq<char>|
                o != origin@ ==> #[trigger] last_acted(final(self).seen@, o) == last_acted(
                    old(self).seen@,
                    o,
                ),
    {
        let ghost start = self.seen@;
        let mut i: usize = 0;
        while i < self.seen.len()
            invariant
                self.seen@ == start,
                *self == *old(self),
                now.valid(),
                forall|k: int| 0 <= k < start.len() ==> (#[trigger] start[k]).at.valid(),
                start == old(self).seen@,
                i <= self.seen.len(),
                forall|j: int| 0 <= j < i ==> !acted_for(origin@)(#[trigger] start[j]),
            decreases self.seen.len() - i,
        {
            if same(self.seen[i].origin.as_str(), origin) {
                proof {
                    first_where_is(start, acted_for(origin@), i as int);
                    assert(start[i as int].at.valid());
                }
                let gap: i128 = now.nanos - self.seen[i].at.nanos;
                let need: i128 = (cooldown_secs as i128) * NANOS_PER_SEC;
                if gap < need {
                    return false;
                }
                let fresh = Acted { origin: origin.to_owned(), at: now };
                self.seen.set(i, fresh);
                proof {
                    let a = self.seen@;
                    assert forall|j: int| 0 <= j < i implies !acted_for(origin@)(#[trigger] a[j]) by {
                        assert(a[j] == start[j]);
                    }
                    first_where_is(a, acted_for(origin@), i as int);
                    assert forall|o: Seq<char>| o != origin@ implies #[trigger] last_acted(a, o)
                        == last_acted(start, o) by {
                        same_elsewhere(start, a, i as int, o);
                    }
                    assert forall|k: int| 0 <= k < a.len() implies (#[trigger] a[k]).at.valid() by {
                        if k != i {
                            assert(a[k] == start[k]);
                        }
                    }
                }
                return true;
            }
            i += 1;
        }
        proof {
            first_where_none(start, acted_for(origin@));
        }
        let fresh = Acted { origin: origin.to_owned(), at: now };
        self.seen.push(fresh);
        proof {
            let a = self.seen@;
            assert forall|j: int| 0 <= j < start.len() implies !acted_for(origin@)(#[trigger] a[j]) by {
                assert(a[j] == start[j]);
            }
            first_where_is(a, acted_for(origin@), start.len() as int);
            assert forall|o: Seq<char>| o != origin@ implies #[trigger] last_acted(a, o) == last_acted(
                start,
                o,
            ) by {
                same_elsewhere(start, a, start.len() as int, o);
            }
            assert forall|k: int| 0 <= k < a.len() implies (#[trigger] a[k]).at.valid() by {
                if k < start.len() {
                    assert(a[k] == start[k]);
                }
            }
        }
        true
    }
}

proof fn same_elsewhere(a: Seq<Acted>, b: Seq<Acted>, i: int, o: Seq<char>)
    requires
        0 <= i < b.len(),
        a.len() <= b.len() <= a.len() + 1,
        b.len() == a.len() + 1 ==> i == a.len(),
        forall|j: int| 0 <= j < a.len() && j != i ==> (#[trigger] b[j]) == a[j],
        b[i].origin@ != o,
        i < a.len() ==> a[i].origin@ != o,
    ensures
        last_acted(b, o) == last_acted(a, o),
{
    let p = acted_for(o);
    if exists|k: int| 0 <= k < a.len() && p(#[trigger] a[k]) {
        let k = choose|k: int| 0 <= k < a.len() && p(#[trigger] a[k]);
        crate::seqs::first_where_some(a, p, k);
        let f = first_where(a, p)->0;
        assert(f != i);
        assert(b[f] == a[f]);
        assert forall|j: int| 0 <= j < f implies !p(#[trigger] b[j]) by {
            if j != i {
                assert(b[j] == a[j]);
                assert(!p(a[j]));
            }
        }
        first_where_is(b, p, f);
    } else {
        assert forall|j: int| 0 <= j < b.len() implies !p(#[trigger] b[j]) by {
            if j != i {
                assert(b[j] == a[j]);
                assert(!p(a[j]));
            }
        }
        first_where_none(b, p);
        first_where_none(a, p);
    }
}

/// A policy without a cooldown is never held back.
pub proof fn no_cooldown_never_blocks(m: Seq<Acted>, origin: Seq<char>, now: Timestamp)
    requires
        match last_acted(m, origin) {
            Some(t) => t <= now.nanos,
            None => true,
        },
    ensures
        may_act(m, origin, 0, now),
{
}

/// A policy, as far as its cooldown goes.
#[derive(Debug)]
pub struct PolicyCooldown {
    pub id: String,
    pub cooldown_secs: u64,
}

/// A policy whose changes bear this origin.
pub open spec fn owns(origin: Seq<char>) -> spec_fn(PolicyCooldown) -> bool {
    |p: PolicyCooldown| has_prefix(origin, "margin_policy:"@ + p.id@ + ":"@)
}

/// The cooldown of the policy behind a change; none where no policy owns it.
pub fn cooldown_of(policies: &Vec<PolicyCooldown>, origin: &str) -> (r: u64)
    ensures
        r == (match first_where(policies@, owns(origin@)) {
            Some(i) => policies@[i].cooldown_secs,
            None => 0,
        }),
{
    let mut i: usize = 0;
    while i < policies.len()
        invariant
            i <= policies.len(),
            forall|j: int| 0 <= j < i ==> !owns(origin@)(#[trigger] policies@[j]),
        decreases policies.len() - i,
    {
        let mut head = "margin_policy:".to_owned();
        head.append(policies[i].id.as_str());
        head.append(":");
        if starts_with(origin, head.as_str()) {
            proof {
                first_where_is(policies@, owns(origin@), i as int);
            }
            return policies[i].cooldown_secs;
        }
        i += 1;
    }
    proof {
        first_where_none(policies@, owns(origin@));
    }
    0
}

// ------------------------------------------------------------------ escalation

/// What happens to a rule.
#[derive(Debug, Clone, Copy, PartialEq, Eq, Structural)]
pub enum EscalationStep {
    /// Nothing: it stands as it should.
    Leave,
    /// It is tightened until this instant.
    Escalate(Timestamp),
    /// It is loosened again.
    DeEscalate,
}

/// Whether a warning says that a rule is about to be breached, near enough to tighten it.
pub open spec fn breaching(alerts: Seq<ForecastAlert>, rule_id: Seq<char>, on_eta_key: i64) -> bool {
    exists|i: int|
        0 <= i < alerts.len() && (#[trigger] alerts[i]).kind == AlertKind::BudgetBreach
            && alerts[i].subject@ == rule_id && alerts[i].eta_days.key <= on_eta_key
}

/// Whether a rule is tightened at the moment.
pub open spec fn live(rule: LimitRule, now: Timestamp) -> bool {
    rule.escalated_until is Some && rule.escalated_until->0.nanos > now.nanos
}

/// What happens to a rule: tightened when a breach is near and it is not tightened yet, loosened when no
/// breach is near any more. One that is tightened already is left alone, so that it lapses.
pub open spec fn step_for(
    rule: LimitRule,
    alerts: Seq<ForecastAlert>,
    now: Timestamp,
    until: Timestamp,
) -> EscalationStep {
    match rule.escalation {
        None => EscalationStep::Leave,
        Some(esc) => {
            let b = breaching(alerts, rule.id@, esc.on_eta_days.key);
            if b && !live(rule, now) {
                EscalationStep::Escalate(until)
            } else if !b && live(rule, now) {
                EscalationStep::DeEscalate
            } else {
                EscalationStep::Leave
            }
        },
    }
}

/// Decides what happens to a rule. `until` is when a tightening that starts now lapses.
pub fn escalation_step(rule: &LimitRule, alerts: &Vec<ForecastAlert>, now: Timestamp, until: Timestamp) -> (r:
    EscalationStep)
    ensures
        r == step_for(*rule, alerts@, now, until),
{
    let key: i64 = match &rule.escalation {
        None => {
            return EscalationStep::Leave;
        },
        Some(e) => e.on_eta_days.key,
    };
    let mut b = false;
    let mut i: usize = 0;
    while i < alerts.len()
        invariant
            i <= alerts.len(),
            b <==> exists|j: int|
                0 <= j < i && (#[trigger] alerts@[j]).kind == AlertKind::BudgetBreach
                    && alerts@[j].subject@ == rule.id@ && alerts@[j].eta_days.key <= key,
        decreases alerts.len() - i,
    {
        let a = &alerts[i];
        if a.kind == AlertKind::BudgetBreach && same(a.subject.as_str(), rule.id.as_str())
            && a.eta_days.key <= key {
            assert(alerts@[i as int].kind == AlertKind::BudgetBreach);
            b = true;
        }
        i += 1;
    }
    let on = match rule.escalated_until {
        Some(u) => u.nanos > now.nanos,
        None => false,
    };
    if b && !on {
        EscalationStep::Escalate(until)
    } else if !b && on {
        EscalationStep::DeEscalate
    } else {
        EscalationStep::Leave
    }
}

/// A tightening is bounded: while it lasts it is never extended.
pub proof fn a_live_escalation_is_never_extended(
    rule: LimitRule,
    alerts: Seq<ForecastAlert>,
    now: Timestamp,
    until: Timestamp,
)
    requires
        live(rule, now),
    ensures
        !(step_for(rule, alerts, now, until) is Escalate),
{
}

/// What a pass over one project did.
#[derive(Debug, Clone, Copy, PartialEq, Eq, Structural)]
pub struct GuardrailOutcome {
    pub escalated: u64,
    pub de_escalated: u64,
    pub rules_created: u64,
    pub rules_updated: u64,
    pub rules_removed: u64,
}

/// A change that a policy asks for.
#[derive(Debug)]
pub enum RuleChange {
    Create(LimitRule),
    Update(LimitRule),
    /// By id.
    Delete(String),
}

impl GuardrailOutcome {
    /// Nothing done.
    pub fn none() -> (r: GuardrailOutcome)
        ensures
            r == (GuardrailOutcome {
                escalated: 0,
                de_escalated: 0,
                rules_created: 0,
                rules_updated: 0,
                rules_removed: 0,
            }),
    {
        GuardrailOutcome {
            escalated: 0,
            de_escalated: 0,
            rules_created: 0,
            rules_updated: 0,
            rules_removed: 0,
        }
    }

    /// Everything that was done.
    pub fn total(&self) -> (r: u64)
        requires
            self.escalated + self.de_escalated + self.rules_created + self.rules_updated
                + self.rules_removed <= u64::MAX,
        ensures
            r == self.escalated + self.de_escalated + self.rules_created + self.rules_updated
                + self.rules_removed,
    {
        self.escalated + self.de_escalated + self.rules_created + self.rules_updated
            + self.rules_removed
    }

    /// What was done, with a step taken on a rule.
    pub open spec fn with_step(self, step: EscalationStep, written: bool) -> GuardrailOutcome {
        match step {
            EscalationStep::Escalate(_) => if written {
                GuardrailOutcome { escalated: (self.escalated + 1) as u64, ..self }
            } else {
                self
            },
            EscalationStep::DeEscalate => if written {
                GuardrailOutcome { de_escalated: (self.de_escalated + 1) as u64, ..self }
            } else {
                self
            },
            EscalationStep::Leave => self,
        }
    }

    /// What was done, with a change applied.
    pub open spec fn with_change(self, change: RuleChange) -> GuardrailOutcome {
        match change {
            RuleChange::Create(_) => GuardrailOutcome {
                rules_created: (self.rules_created + 1) as u64,
                ..self
            },
            RuleChange::Update(_) => GuardrailOutcome {
                rules_updated: (self.rules_updated + 1) as u64,
                ..self
            },
            RuleChange::Delete(_) => GuardrailOutcome {
                rules_removed: (self.rules_removed + 1) as u64,
                ..self
            },
        }
    }

    /// Counts a rule that was tightened or loosened and written; one that was gone counts nothing.
    pub fn count_step(&mut self, step: EscalationStep, written: bool)
        requires
            old(self).escalated < u64::MAX,
            old(self).de_escalated < u64::MAX,
        ensures
            *final(self) == old(self).with_step(step, written),
            *final(self) == (match step {
                EscalationStep::Escalate(_) => if written {
                    GuardrailOutcome { escalated: (old(self).escalated + 1) as u64, ..*old(self) }
                } else {
                    *old(self)
                },
                EscalationStep::DeEscalate => if written {
                    GuardrailOutcome {
                        de_escalated: (old(self).de_escalated + 1) as u64,
                        ..*old(self)
                    }
                } else {
                    *old(self)
                },
                EscalationStep::Leave => *old(self),
            }),
    {
        if written {
            match step {
                EscalationStep::Escalate(_) => {
                    self.escalated = self.escalated + 1;
                },
                EscalationStep::DeEscalate => {
                    self.de_escalated = self.de_escalated + 1;
                },
                EscalationStep::Leave => {},
            }
        }
    }

    /// Counts a change that was applied.
    pub fn count_change(&mut self, change: &RuleChange)
        requires
            old(self).rules_created < u64::MAX,
            old(self).rules_updated < u64::MAX,
            old(self).rules_removed < u64::MAX,
        ensures
            *final(self) == old(self).with_change(*change),
            *final(self) == (match *change {
                RuleChange::Create(_) => GuardrailOutcome {
                    rules_created: (old(self).rules_created + 1) as u64,
                    ..*old(self)
                },
                RuleChange::Update(_) => GuardrailOutcome {
                    rules_updated: (old(self).rules_updated + 1) as u64,
                    ..*old(self)
                },
                RuleChange::Delete(_) => GuardrailOutcome {
                    rules_removed: (old(self).rules_removed + 1) as u64,
                    ..*old(self)
                },
            }),
    {
        match change {
            RuleChange::Create(_) => {
                self.rules_created = self.rules_created + 1;
            },
            RuleChange::Update(_) => {
                self.rules_updated = self.rules_updated + 1;
            },
            RuleChange::Delete(_) => {
                self.rules_removed = self.rules_removed + 1;
            },
        }
    }
}

/// A change, held to the project it is applied to: a rule that a policy writes never lands in another.
pub fn claim_change(change: RuleChange, project: &str) -> (r: RuleChange)
    ensures
        match change {
            RuleChange::Create(x) => r matches RuleChange::Create(y) && y.project_id@ == project@ && y
                == (LimitRule { project_id: y.project_id, ..x }),
            RuleChange::Update(x) => r matches RuleChange::Update(y) && y.project_id@ == project@ && y
                == (LimitRule { project_id: y.project_id, ..x }),
            RuleChange::Delete(id) => r == RuleChange::Delete(id),
        },
{
    match change {
        RuleChange::Create(x) => {
            let mut y = x;
            y.project_id = project.to_owned();
            RuleChange::Create(y)
        },
        RuleChange::Update(x) => {
            let mut y = x;
            y.project_id = project.to_owned();
            RuleChange::Update(y)
        },
        RuleChange::Delete(id) => RuleChange::Delete(id),
    }
}

// ------------------------------------------------------------------ which rule stands for whom

/// The word that the origin of a policy's rule starts with, in its two spellings.
pub open spec fn is_policy_head(s: Seq<char>) -> bool {
    s == "margin_policy:"@ || s == "margin-policy:"@
}

/// The origin of a rule that the policy `id` raised for `key`.
pub open spec fn policy_origin(head: Seq<char>, id: Seq<char>, key: Seq<char>) -> Seq<char> {
    head + id + ":"@ + key
}

/// Whether an origin is that of a rule raised for exactly `key`. A policy's id holds no colon.
pub open spec fn names_key(origin: Seq<char>, key: Seq<char>) -> bool {
    exists|head: Seq<char>, id: Seq<char>|
        is_policy_head(head) && !id.contains(':') && origin == #[trigger] policy_origin(head, id, key)
}

/// A rule that a policy raised for exactly `key`.
pub open spec fn origin_of(key: Seq<char>) -> spec_fn(LimitRule) -> bool {
    |r: LimitRule| r.origin is Some && names_key(r.origin->0@, key)
}

/// An origin names one key: no rule stands for two.
pub proof fn an_origin_names_one_key(origin: Seq<char>, a: Seq<char>, b: Seq<char>)
    requires
        names_key(origin, a),
        names_key(origin, b),
    ensures
        a == b,
{
    reveal_strlit("margin_policy:");
    reveal_strlit("margin-policy:");
    reveal_strlit(":");
    let (g, x) = choose|head: Seq<char>, id: Seq<char>|
        is_policy_head(head) && !id.contains(':') && origin == #[trigger] policy_origin(head, id, a);
    let (h, y) = choose|head: Seq<char>, id: Seq<char>|
        is_policy_head(head) && !id.contains(':') && origin == #[trigger] policy_origin(head, id, b);
    assert(g.len() == 14 && h.len() == 14);
    let (m, n) = (x.len() as int, y.len() as int);
    assert(origin[14 + m] == ':' && origin[14 + n] == ':');
    if m < n {
        assert(y[m] == origin[14 + m]);
    } else if n < m {
        assert(x[n] == origin[14 + n]);
    }
    assert(a =~= origin.skip(15 + m));
    assert(b =~= origin.skip(15 + n));
}

fn origin_names_key(origin: &str, key: &str) -> (r: bool)
    ensures
        r == names_key(origin@, key@),
{
    proof {
        reveal_strlit("margin_policy:");
        reveal_strlit("margin-policy:");
        reveal_strlit(":");
        assert forall|head: Seq<char>, id: Seq<char>|
            is_policy_head(head) && origin@ == #[trigger] policy_origin(
                head,
                id,
                key@,
            ) implies origin@.len() >= 15 + key@.len() && head =~= origin@.take(14) && id
            =~= origin@.subrange(14, origin@.len() - 1 - key@.len()) by {
            assert(head.len() == 14);
        }
    }
    let c = chars_of(origin);
    let k = chars_of(key);
    if c.len() < 15 || c.len() - 15 < k.len() {
        return false;
    }
    let end: usize = c.len() - 1 - k.len();
    let head = slice_of(c.as_slice(), 0, 14);
    assert(head@ =~= origin@.take(14));
    if !same(head.as_str(), "margin_policy:") && !same(head.as_str(), "margin-policy:") {
        return false;
    }
    let id = slice_of(c.as_slice(), 14, end);
    let mut want = head.clone();
    want.append(id.as_str());
    want.append(":");
    want.append(key);
    assert(want@ =~= policy_origin(head@, id@, key@));
    if !same(want.as_str(), origin) {
        return false;
    }
    let mut i: usize = 14;
    while i < end
        invariant
            14 <= i <= end < c@.len(),
            id@ == c@.subrange(14, end as int),
            forall|j: int| 14 <= j < i ==> #[trigger] c@[j] != ':',
            origin@ == c@,
            forall|h: Seq<char>, x: Seq<char>|
                is_policy_head(h) && origin@ == #[trigger] policy_origin(h, x, key@) ==> x
                    == c@.subrange(14, end as int),
        decreases end - i,
    {
        if c[i] == ':' {
            assert(id@[i - 14] == ':');
            return false;
        }
        i += 1;
    }
    assert(!id@.contains(':')) by {
        if id@.contains(':') {
            let j = id@.index_of(':');
            assert(c@[14 + j] == ':');
        }
    }
    true
}

/// Whether a policy raised the rule for exactly `key`.
pub fn raised_for(rule: &LimitRule, key: &str) -> (r: bool)
    ensures
        r == origin_of(key@)(*rule),
{
    match &rule.origin {
        None => false,
        Some(o) => origin_names_key(o.as_str(), key),
    }
}

/// The id of the first rule that a policy raised for exactly `key`.
pub fn guardrail_for(rules: &Vec<LimitRule>, key: &str) -> (r: Option<String>)
    ensures
        match first_where(rules@, origin_of(key@)) {
            Some(i) => r is Some && r->0@ == rules@[i].id@,
            None => r is None,
        },
{
    let mut i: usize = 0;
    while i < rules.len()
        invariant
            i <= rules.len(),
            forall|j: int| 0 <= j < i ==> !origin_of(key@)(#[trigger] rules@[j]),
        decreases rules.len() - i,
    {
        if raised_for(&rules[i], key) {
            proof {
                first_where_is(rules@, origin_of(key@), i as int);
            }
            return Some(rules[i].id.clone());
        }
        i += 1;
    }
    proof {
        first_where_none(rules@, origin_of(key@));
    }
    None
}

// ------------------------------------------------------------------ what guardrails do

/// A policy is what was asked for, field by field, under the server's id and the path's project; left to
/// itself it acts at most once an hour, and what it did stands a day.
pub proof fn a_policy_is_what_was_asked<T, A>(
    req: PolicyReq<T, A>,
    id: String,
    project_id: String,
    r: MarginPolicy<T, A>,
    cooldown: u64,
    expiry: u64,
)
    requires
        call_ensures(PolicyReq::<T, A>::into_policy, (req, id, project_id), r),
        call_ensures(default_cooldown, (), cooldown),
        call_ensures(default_expiry, (), expiry),
    ensures
        r.id == id && r.project_id == project_id,
        r.trigger == req.trigger && r.action == req.action && r.min_cost == req.min_cost,
        r.cooldown_secs == req.cooldown_secs && r.expiry_secs == req.expiry_secs && r.enabled
            == req.enabled,
        cooldown == 60 * 60,
        expiry == 24 * 60 * 60,
{
}

/// A policy that has acted on a subject is held back for as long as its cooldown lasts and no longer; one
/// that has not is not held back.
pub proof fn a_cooldown_holds_back(m: Seq<Acted>, origin: Seq<char>, secs: int, now: Timestamp, i: int)
    ensures
        0 <= i < m.len() && m[i].origin@ == origin && (forall|j: int|
            0 <= j < i ==> (#[trigger] m[j]).origin@ != origin) ==> (may_act(m, origin, secs, now)
            <==> m[i].at.nanos + secs * 1_000_000_000 <= now.nanos),
        (forall|j: int| 0 <= j < m.len() ==> (#[trigger] m[j]).origin@ != origin) ==> may_act(
            m,
            origin,
            secs,
            now,
        ),
{
    let p = acted_for(origin);
    if 0 <= i < m.len() && m[i].origin@ == origin && (forall|j: int|
        0 <= j < i ==> (#[trigger] m[j]).origin@ != origin) {
        assert(p(m[i]));
        first_where_is(m, p, i);
    }
    first_where_tells(m, p);
}

/// The cooldown of a change is that of the first policy whose own name its origin bears, and none where no
/// policy's is.
pub proof fn a_change_has_its_policys_cooldown(policies: &Vec<PolicyCooldown>, origin: &str, r: u64)
    requires
        call_ensures(cooldown_of, (policies, origin), r),
    ensures
        (forall|i: int|
            0 <= i < policies@.len() ==> !has_prefix(
                origin@,
                "margin_policy:"@ + (#[trigger] policies@[i]).id@ + ":"@,
            )) ==> r == 0,
        forall|i: int|
            0 <= i < policies@.len() && has_prefix(
                origin@,
                "margin_policy:"@ + (#[trigger] policies@[i]).id@ + ":"@,
            ) && (forall|j: int|
                0 <= j < i ==> !has_prefix(
                    origin@,
                    "margin_policy:"@ + (#[trigger] policies@[j]).id@ + ":"@,
                )) ==> r == policies@[i].cooldown_secs,
{
    let p = owns(origin@);
    first_where_tells(policies@, p);
    assert forall|i: int|
        0 <= i < policies@.len() && has_prefix(
            origin@,
            "margin_policy:"@ + (#[trigger] policies@[i]).id@ + ":"@,
        ) && (forall|j: int|
            0 <= j < i ==> !has_prefix(
                origin@,
                "margin_policy:"@ + (#[trigger] policies@[j]).id@ + ":"@,
            )) implies r == policies@[i].cooldown_secs by {
        assert(p(policies@[i]));
        assert forall|j: int| 0 <= j < i implies !p(#[trigger] policies@[j]) by {}
        first_where_is(policies@, p, i);
    }
}

/// Whether some warning says that the rule's budget will be breached no later than `key` from now.
pub open spec fn breach_is_near(alerts: Seq<ForecastAlert>, rule: LimitRule, key: i64) -> bool {
    exists|i: int|
        0 <= i < alerts.len() && (#[trigger] alerts[i]).kind is BudgetBreach && alerts[i].subject@
            == rule.id@ && alerts[i].eta_days.key <= key
}

/// A rule is tightened exactly where it says when, a breach of its own budget is that near, and it is not
/// tightened already; it is loosened exactly where it is tightened and no breach is near; a rule that
/// does not say when is left alone.
pub proof fn a_rule_is_tightened_for_its_own_breach(
    rule: &LimitRule,
    alerts: &Vec<ForecastAlert>,
    now: Timestamp,
    until: Timestamp,
    r: EscalationStep,
)
    requires
        call_ensures(escalation_step, (rule, alerts, now, until), r),
    ensures
        rule.escalation is None ==> r is Leave,
        rule.escalation is Some ==> {
            let near = breach_is_near(alerts@, *rule, rule.escalation->0.on_eta_days.key);
            let tight = rule.escalated_until is Some && rule.escalated_until->0.nanos > now.nanos;
            &&& r is Escalate <==> near && !tight
            &&& r is DeEscalate <==> !near && tight
            &&& r is Escalate ==> r->Escalate_0 == until
        },
{
    if rule.escalation is Some {
        let key = rule.escalation->0.on_eta_days.key;
        if breach_is_near(alerts@, *rule, key) {
            let i = choose|i: int|
                0 <= i < alerts@.len() && (#[trigger] alerts@[i]).kind is BudgetBreach
                    && alerts@[i].subject@ == rule.id@ && alerts@[i].eta_days.key <= key;
            assert(alerts@[i].kind == AlertKind::BudgetBreach);
        }
        if breaching(alerts@, rule.id@, key) {
            let i = choose|i: int|
                0 <= i < alerts@.len() && (#[trigger] alerts@[i]).kind == AlertKind::BudgetBreach
                    && alerts@[i].subject@ == rule.id@ && alerts@[i].eta_days.key <= key;
            assert(alerts@[i].kind is BudgetBreach);
        }
    }
}

/// Whatever a policy writes lands in the project it is applied to, otherwise as the policy wrote it.
pub proof fn a_change_lands_in_its_project(change: RuleChange, project: &str, r: RuleChange)
    requires
        call_ensures(claim_change, (change, project), r),
    ensures
        change is Create <==> r is Create,
        change is Update <==> r is Update,
        change matches RuleChange::Create(x) ==> (r matches RuleChange::Create(y) && y.project_id@
            == project@ && y.id == x.id && y.metric == x.metric && y.window == x.window && y.threshold
            == x.threshold && y.action == x.action && y.enabled == x.enabled && y.scope == x.scope
            && y.origin == x.origin && y.expires_at == x.expires_at),
        change matches RuleChange::Update(x) ==> (r matches RuleChange::Update(y) && y.project_id@
            == project@ && y.id == x.id && y.metric == x.metric && y.window == x.window && y.threshold
            == x.threshold && y.action == x.action && y.enabled == x.enabled && y.scope == x.scope
            && y.origin == x.origin && y.expires_at == x.expires_at),
        change matches RuleChange::Delete(id) ==> (r matches RuleChange::Delete(d) && d@ == id@),
{
}

/// A rule stands for a subject exactly where its origin is a policy's word, an id without a colon, a colon
/// and the subject; the rule found for a subject is the first that does.
pub proof fn a_rule_stands_for_its_subject(
    rules: &Vec<LimitRule>,
    key: &str,
    found: Option<String>,
    rule: &LimitRule,
    raised: bool,
    id: Seq<char>,
)
    requires
        call_ensures(guardrail_for, (rules, key), found),
        call_ensures(raised_for, (rule, key), raised),
        !id.contains(':'),
    ensures
        rule.origin is None ==> !raised,
        rule.origin is Some && rule.origin->0@ == "margin_policy:"@ + id + ":"@ + key@ ==> raised,
        rule.origin is Some && rule.origin->0@ == "margin-policy:"@ + id + ":"@ + key@ ==> raised,
        raised ==> rule.origin is Some && (exists|x: Seq<char>|
            !x.contains(':') && (rule.origin->0@ == #[trigger] ("margin_policy:"@ + x + ":"@ + key@)
                || rule.origin->0@ == "margin-policy:"@ + x + ":"@ + key@)),
        found is Some ==> exists|i: int|
            0 <= i < rules@.len() && (#[trigger] rules@[i]).id@ == found->0@ && rules@[i].origin is Some
                && names_key(rules@[i].origin->0@, key@),
        found is None ==> forall|i: int|
            0 <= i < rules@.len() ==> !((#[trigger] rules@[i]).origin is Some && names_key(
                rules@[i].origin->0@,
                key@,
            )),
{
    assert(policy_origin("margin_policy:"@, id, key@) == "margin_policy:"@ + id + ":"@ + key@);
    assert(policy_origin("margin-policy:"@, id, key@) == "margin-policy:"@ + id + ":"@ + key@);
    if raised {
        let (h, x) = choose|head: Seq<char>, x: Seq<char>|
            is_policy_head(head) && !x.contains(':') && rule.origin->0@ == #[trigger] policy_origin(
                head,
                x,
                key@,
            );
        let w = "margin_policy:"@ + x + ":"@ + key@;
    }
    first_where_tells(rules@, origin_of(key@));
    if let Some(i) = first_where(rules@, origin_of(key@)) {
        assert(rules@[i].id@ == found->0@);
    }
}

/// What a sweep did is counted where it belongs: a rule tightened or loosened only where it was written, a
/// change by its kind, each once and nothing else with it; and the total is all of them together.
pub proof fn what_was_done_is_counted_once(
    o: GuardrailOutcome,
    step: EscalationStep,
    written: bool,
    change: RuleChange,
    n: u64,
    none: GuardrailOutcome,
)
    requires
        o.escalated < u64::MAX && o.de_escalated < u64::MAX,
        o.rules_created < u64::MAX && o.rules_updated < u64::MAX && o.rules_removed < u64::MAX,
        call_ensures(GuardrailOutcome::total, (&o,), n),
        call_ensures(GuardrailOutcome::none, (), none),
    ensures
        n == o.escalated + o.de_escalated + o.rules_created + o.rules_updated + o.rules_removed,
        none.escalated == 0 && none.de_escalated == 0 && none.rules_created == 0 && none.rules_updated
            == 0 && none.rules_removed == 0,
        !written || step is Leave ==> o.with_step(step, written) == o,
        ({
            let s = o.with_step(step, true);
            &&& s.escalated == o.escalated + (if step is Escalate {
                1int
            } else {
                0
            })
            &&& s.de_escalated == o.de_escalated + (if step is DeEscalate {
                1int
            } else {
                0
            })
            &&& s.rules_created == o.rules_created && s.rules_updated == o.rules_updated
                && s.rules_removed == o.rules_removed
        }),
        ({
            let c = o.with_change(change);
            &&& c.rules_created == o.rules_created + (if change is Create {
                1int
            } else {
                0
            })
            &&& c.rules_updated == o.rules_updated + (if change is Update {
                1int
            } else {
                0
            })
            &&& c.rules_removed == o.rules_removed + (if change is Delete {
                1int
            } else {
                0
            })
            &&& c.escalated == o.escalated && c.de_escalated == o.de_escalated
        }),
{
}

/// A policy is the request under its id and its project, field by field.
pub proof fn a_policy_keeps_each_field_its_own<T, A>(
    q: PolicyReq<T, A>,
    id: String,
    project: String,
    r: MarginPolicy<T, A>,
)
    requires
        call_ensures(PolicyReq::<T, A>::into_policy, (q, id, project), r),
    ensures
        r.id == id && r.project_id == project,
        r.trigger == q.trigger && r.action == q.action && r.min_cost == q.min_cost,
        r.cooldown_secs == q.cooldown_secs && r.expiry_secs == q.expiry_secs && r.enabled == q.enabled,
{
}

} // verus!
