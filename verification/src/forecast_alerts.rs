//! From a forecast to warnings: which projections page anyone, how urgent they are, and in which words.
use vstd::prelude::*;

use crate::figure::{Real, FOURTEEN, ONE, THREE};
use crate::guardrails::{names_key, origin_of, raised_for};
use crate::limit::{LimitMetric, LimitWindow};
use crate::limits::LimitRule;
use crate::seqs::first_where;
use crate::text::{dec, has_within, pieces_stand, show_u64, strung, strung_on};

verus! {

/// What a warning is about.
#[derive(Debug, Clone, Copy, PartialEq, Eq, Structural)]
pub enum AlertKind {
    BudgetBreach,
    MarginErosion,
}

/// How urgent a warning is.
#[derive(Debug, Clone, Copy, PartialEq, Eq, Structural)]
pub enum Severity {
    High,
    Warning,
}

impl AlertKind {
    /// The wire string.
    pub open spec fn wire(self) -> Seq<char> {
        match self {
            AlertKind::BudgetBreach => "budget_breach"@,
            AlertKind::MarginErosion => "margin_erosion"@,
        }
    }

    /// The wire string.
    pub fn as_str(self) -> (r: &'static str)
        ensures
            r@ == self.wire(),
    {
        match self {
            AlertKind::BudgetBreach => "budget_breach",
            AlertKind::MarginErosion => "margin_erosion",
        }
    }
}

impl Severity {
    /// The wire string.
    pub open spec fn wire(self) -> Seq<char> {
        match self {
            Severity::High => "high"@,
            Severity::Warning => "warning"@,
        }
    }

    /// The wire string.
    pub fn as_str(self) -> (r: &'static str)
        ensures
            r@ == self.wire(),
    {
        match self {
            Severity::High => "high",
            Severity::Warning => "warning",
        }
    }
}

/// When something is projected to happen.
#[derive(Debug)]
pub struct Eta {
    /// The days until then, by order key.
    pub key: i64,
    /// In whole days.
    pub days: String,
    /// In whole weeks.
    pub weeks: String,
    /// In days, rounded to two decimals.
    pub rounded: Real,
}

/// How well a trend fits, in words: its figure with two decimals and the days it spans.
#[derive(Debug)]
pub struct Confidence {
    pub r2: String,
    pub span_days: u64,
}

/// What is known of a trend.
#[derive(Debug)]
pub struct Trend {
    /// What stands against showing it: too little evidence, in words.
    pub objection: Option<String>,
    /// Whether the last days bear it out.
    pub corroborated: bool,
    /// Whether it rises.
    pub rising: bool,
    pub confidence: Option<Confidence>,
}

/// A budget's forecast. Figures are given with four decimals.
#[derive(Debug)]
pub struct BudgetForecast {
    pub rule_id: String,
    pub metric: LimitMetric,
    pub window: LimitWindow,
    pub threshold: String,
    pub projected_daily: String,
    pub current: String,
    pub eta: Option<Eta>,
    pub trend: Trend,
}

/// A customer's or product's forecast. Figures are given with two decimals.
#[derive(Debug)]
pub struct MarginForecast {
    pub key: String,
    pub currently_profitable: bool,
    pub revenue_per_day: String,
    pub cost_per_day: String,
    pub margin_usd: String,
    pub eta: Option<Eta>,
    pub trend: Trend,
}

/// A warning.
#[derive(Debug)]
pub struct ForecastAlert {
    pub kind: AlertKind,
    pub severity: Severity,
    pub project_id: String,
    /// The rule, or the customer or product.
    pub subject: String,
    /// Days until then, rounded to two decimals; zero where it has happened.
    pub eta_days: Real,
    pub message: String,
    /// The rule that a policy has standing for the subject.
    pub policy_applied: Option<String>,
}

/// How urgent something is that is so many days out: high at three days or fewer.
pub open spec fn severity_at(eta: Eta) -> Severity {
    if eta.key <= THREE {
        Severity::High
    } else {
        Severity::Warning
    }
}

fn severity(eta: &Eta) -> (r: Severity)
    ensures
        r == severity_at(*eta),
{
    if eta.key <= THREE {
        Severity::High
    } else {
        Severity::Warning
    }
}

/// When something happens, in words: imminently within a day, in days within two weeks, else in weeks.
pub open spec fn when(eta: Eta) -> Seq<char> {
    if eta.key < ONE {
        "imminently"@
    } else if eta.key < FOURTEEN {
        "in about "@ + eta.days@ + " days"@
    } else {
        "in about "@ + eta.weeks@ + " weeks"@
    }
}

fn humanize(eta: &Eta) -> (r: String)
    ensures
        r@ == when(*eta),
{
    if eta.key < ONE {
        "imminently".to_owned()
    } else if eta.key < FOURTEEN {
        let mut out = "in about ".to_owned();
        out.append(eta.days.as_str());
        out.append(" days");
        out
    } else {
        let mut out = "in about ".to_owned();
        out.append(eta.weeks.as_str());
        out.append(" weeks");
        out
    }
}

/// A metric in words.
pub open spec fn metric_name(m: LimitMetric) -> Seq<char> {
    match m {
        LimitMetric::CostUsd => "cost"@,
        LimitMetric::Calls => "calls"@,
        LimitMetric::Tokens => "tokens"@,
    }
}

fn metric_word(m: LimitMetric) -> (r: &'static str)
    ensures
        r@ == metric_name(m),
{
    match m {
        LimitMetric::CostUsd => "cost",
        LimitMetric::Calls => "calls",
        LimitMetric::Tokens => "tokens",
    }
}

/// A window in words.
pub open spec fn window_name(w: LimitWindow) -> Seq<char> {
    match w {
        LimitWindow::Hour => "hourly"@,
        LimitWindow::Day => "daily"@,
        LimitWindow::Month => "monthly"@,
    }
}

fn window_word(w: LimitWindow) -> (r: &'static str)
    ensures
        r@ == window_name(w),
{
    match w {
        LimitWindow::Hour => "hourly",
        LimitWindow::Day => "daily",
        LimitWindow::Month => "monthly",
    }
}

/// Whether a trend may page anyone: there is enough evidence, and the last days bear it out.
pub open spec fn pages(t: Trend) -> bool {
    t.objection is None && t.corroborated
}

fn may_page(t: &Trend) -> (r: bool)
    ensures
        r == pages(*t),
{
    t.objection.is_none() && t.corroborated
}

/// What is said of a trend's fit; nothing where it is not shown.
pub open spec fn fit_text(t: Trend) -> Seq<char> {
    match t.confidence {
        Some(c) => " (confidence r²="@ + c.r2@ + " over "@ + dec(c.span_days as nat) + " days)"@,
        None => ""@,
    }
}

fn confidence_note(t: &Trend) -> (r: String)
    ensures
        r@ == fit_text(*t),
{
    match &t.confidence {
        Some(c) => {
            let n = show_u64(c.span_days);
            let mut out = " (confidence r²=".to_owned();
            out.append(c.r2.as_str());
            out.append(" over ");
            out.append(n.as_str());
            out.append(" days)");
            out
        },
        None => "".to_owned(),
    }
}

/// The words of a budget's warning.
pub open spec fn breach_text(project: Seq<char>, b: BudgetForecast, eta: Eta) -> Seq<char> {
    "project '"@ + project + "' is on track to breach its "@ + window_name(b.window) + " "@
        + metric_name(b.metric) + " budget ("@ + b.threshold@ + ") "@ + when(eta)
        + " — projected ~"@ + b.projected_daily@ + "/day, current rolling "@ + b.current@ + fit_text(
        b.trend,
    )
}

/// The words of a margin's warning before it has turned.
pub open spec fn erosion_text(m: MarginForecast, eta: Eta) -> Seq<char> {
    "'"@ + m.key@ + "' is on track to turn unprofitable "@ + when(eta) + " — revenue ~$"@
        + m.revenue_per_day@ + "/day vs cost rising to ~$"@ + m.cost_per_day@ + "/day"@ + fit_text(
        m.trend,
    )
}

/// The words of a margin's warning after it has turned.
pub open spec fn lost_text(m: MarginForecast) -> Seq<char> {
    "'"@ + m.key@ + "' is already unprofitable (margin $"@ + m.margin_usd@
        + ") and cost is still rising"@ + fit_text(m.trend)
}

/// A warning as plain values.
pub struct AlertView {
    pub kind: AlertKind,
    pub severity: Severity,
    pub project: Seq<char>,
    pub subject: Seq<char>,
    pub eta_key: int,
    pub eta_wire: Seq<char>,
    pub message: Seq<char>,
    pub policy: Option<Seq<char>>,
}

impl View for ForecastAlert {
    type V = AlertView;

    open spec fn view(&self) -> AlertView {
        AlertView {
            kind: self.kind,
            severity: self.severity,
            project: self.project_id@,
            subject: self.subject@,
            eta_key: self.eta_days.key as int,
            eta_wire: self.eta_days.wire@,
            message: self.message@,
            policy: match self.policy_applied {
                Some(p) => Some(p@),
                None => None,
            },
        }
    }
}

/// Warnings as plain values.
pub open spec fn alert_views(v: Seq<ForecastAlert>) -> Seq<AlertView> {
    v.map_values(|a: ForecastAlert| a@)
}

/// The warning of a budget, if it gives rise to one.
pub open spec fn budget_alert(project: Seq<char>, b: BudgetForecast) -> Option<AlertView> {
    if !pages(b.trend) {
        None
    } else {
        match b.eta {
            None => None,
            Some(e) => Some(
                AlertView {
                    kind: AlertKind::BudgetBreach,
                    severity: severity_at(e),
                    project,
                    subject: b.rule_id@,
                    eta_key: e.rounded.key as int,
                    eta_wire: e.rounded.wire@,
                    message: breach_text(project, b, e),
                    policy: None,
                },
            ),
        }
    }
}

/// The warning of a customer or product, if it gives rise to one: a profitable one that is projected to
/// turn, or one that has turned and whose cost still rises.
pub open spec fn margin_alert(project: Seq<char>, m: MarginForecast) -> Option<AlertView> {
    if !pages(m.trend) {
        None
    } else if m.currently_profitable {
        match m.eta {
            None => None,
            Some(e) => Some(
                AlertView {
                    kind: AlertKind::MarginErosion,
                    severity: severity_at(e),
                    project,
                    subject: m.key@,
                    eta_key: e.rounded.key as int,
                    eta_wire: e.rounded.wire@,
                    message: erosion_text(m, e),
                    policy: None,
                },
            ),
        }
    } else if m.trend.rising {
        Some(
            AlertView {
                kind: AlertKind::MarginErosion,
                severity: Severity::High,
                project,
                subject: m.key@,
                eta_key: 0,
                eta_wire: "0.0"@,
                message: lost_text(m),
                policy: None,
            },
        )
    } else {
        None
    }
}

/// The warnings of some budgets, in order.
pub open spec fn budget_alerts(project: Seq<char>, v: Seq<BudgetForecast>) -> Seq<AlertView>
    decreases v.len(),
{
    if v.len() == 0 {
        seq![]
    } else {
        let rest = budget_alerts(project, v.drop_last());
        match budget_alert(project, v.last()) {
            Some(a) => rest.push(a),
            None => rest,
        }
    }
}

/// The warnings of some customers or products, in order.
pub open spec fn margin_alerts(project: Seq<char>, v: Seq<MarginForecast>) -> Seq<AlertView>
    decreases v.len(),
{
    if v.len() == 0 {
        seq![]
    } else {
        let rest = margin_alerts(project, v.drop_last());
        match margin_alert(project, v.last()) {
            Some(a) => rest.push(a),
            None => rest,
        }
    }
}

fn alert_for_budget(project: &str, b: &BudgetForecast) -> (r: Option<ForecastAlert>)
    ensures
        match budget_alert(project@, *b) {
            Some(a) => r is Some && r->0@ == a,
            None => r is None,
        },
{
    if !may_page(&b.trend) {
        return None;
    }
    match &b.eta {
        None => None,
        Some(e) => {
            let w = humanize(e);
            let fit = confidence_note(&b.trend);
            let mut m = "project '".to_owned();
            m.append(project);
            m.append("' is on track to breach its ");
            m.append(window_word(b.window));
            m.append(" ");
            m.append(metric_word(b.metric));
            m.append(" budget (");
            m.append(b.threshold.as_str());
            m.append(") ");
            m.append(w.as_str());
            m.append(" — projected ~");
            m.append(b.projected_daily.as_str());
            m.append("/day, current rolling ");
            m.append(b.current.as_str());
            m.append(fit.as_str());
            Some(
                ForecastAlert {
                    kind: AlertKind::BudgetBreach,
                    severity: severity(e),
                    project_id: project.to_owned(),
                    subject: b.rule_id.clone(),
                    eta_days: e.rounded.copied(),
                    message: m,
                    policy_applied: None,
                },
            )
        },
    }
}

fn alert_for_margin(project: &str, x: &MarginForecast) -> (r: Option<ForecastAlert>)
    ensures
        match margin_alert(project@, *x) {
            Some(a) => r is Some && r->0@ == a,
            None => r is None,
        },
{
    if !may_page(&x.trend) {
        return None;
    }
    let fit = confidence_note(&x.trend);
    if x.currently_profitable {
        match &x.eta {
            None => None,
            Some(e) => {
                let w = humanize(e);
                let mut m = "'".to_owned();
                m.append(x.key.as_str());
                m.append("' is on track to turn unprofitable ");
                m.append(w.as_str());
                m.append(" — revenue ~$");
                m.append(x.revenue_per_day.as_str());
                m.append("/day vs cost rising to ~$");
                m.append(x.cost_per_day.as_str());
                m.append("/day");
                m.append(fit.as_str());
                Some(
                    ForecastAlert {
                        kind: AlertKind::MarginErosion,
                        severity: severity(e),
                        project_id: project.to_owned(),
                        subject: x.key.clone(),
                        eta_days: e.rounded.copied(),
                        message: m,
                        policy_applied: None,
                    },
                )
            },
        }
    } else if x.trend.rising {
        let mut m = "'".to_owned();
        m.append(x.key.as_str());
        m.append("' is already unprofitable (margin $");
        m.append(x.margin_usd.as_str());
        m.append(") and cost is still rising");
        m.append(fit.as_str());
        Some(
            ForecastAlert {
                kind: AlertKind::MarginErosion,
                severity: Severity::High,
                project_id: project.to_owned(),
                subject: x.key.clone(),
                eta_days: Real { key: 0, wire: "0.0".to_owned() },
                message: m,
                policy_applied: None,
            },
        )
    } else {
        None
    }
}

/// The warnings that a forecast gives rise to: the budgets' first, then the margins'.
pub fn build_alerts(project: &str, budgets: &Vec<BudgetForecast>, margins: &Vec<MarginForecast>) -> (r:
    Vec<ForecastAlert>)
    ensures
        alert_views(r@) == budget_alerts(project@, budgets@) + margin_alerts(project@, margins@),
{
    let mut out: Vec<ForecastAlert> = Vec::new();
    let mut i: usize = 0;
    assert(alert_views(out@) =~= budget_alerts(project@, budgets@.take(0)));
    while i < budgets.len()
        invariant
            i <= budgets.len(),
            alert_views(out@) == budget_alerts(project@, budgets@.take(i as int)),
        decreases budgets.len() - i,
    {
        assert(budgets@.take(i + 1).drop_last() =~= budgets@.take(i as int));
        if let Some(a) = alert_for_budget(project, &budgets[i]) {
            let ghost before = out@;
            out.push(a);
            assert(alert_views(out@) =~= alert_views(before).push(a@));
        }
        i += 1;
    }
    assert(budgets@.take(i as int) =~= budgets@);
    let ghost base = alert_views(out@);
    let mut j: usize = 0;
    assert(base + margin_alerts(project@, margins@.take(0)) =~= base);
    while j < margins.len()
        invariant
            j <= margins.len(),
            alert_views(out@) == base + margin_alerts(project@, margins@.take(j as int)),
        decreases margins.len() - j,
    {
        assert(margins@.take(j + 1).drop_last() =~= margins@.take(j as int));
        if let Some(a) = alert_for_margin(project, &margins[j]) {
            let ghost before = out@;
            out.push(a);
            assert(alert_views(out@) =~= alert_views(before).push(a@));
            assert(base + margin_alerts(project@, margins@.take(j as int)).push(a@) =~= (base
                + margin_alerts(project@, margins@.take(j as int))).push(a@));
        }
        j += 1;
    }
    assert(margins@.take(j as int) =~= margins@);
    out
}

/// What a sustained warning is recognised by. It does not say how the forecast came about, so a sweep
/// and a request share it; and it says how urgent the warning is, so an escalation is news.
pub open spec fn dedup_text(a: AlertView) -> Seq<char> {
    "forecast:"@ + a.project + ":"@ + a.kind.wire() + ":"@ + a.subject + ":"@ + a.severity.wire()
}

impl ForecastAlert {
    /// What a sustained warning is recognised by.
    pub fn dedup_key(&self) -> (r: String)
        ensures
            r@ == dedup_text(self@),
    {
        let mut out = "forecast:".to_owned();
        out.append(self.project_id.as_str());
        out.append(":");
        out.append(self.kind.as_str());
        out.append(":");
        out.append(self.subject.as_str());
        out.append(":");
        out.append(self.severity.as_str());
        out
    }

    /// The same warning with its policy set.
    fn with_policy(&self, policy: Option<String>) -> (r: ForecastAlert)
        ensures
            r@ == (AlertView {
                policy: match policy {
                    Some(p) => Some(p@),
                    None => None,
                },
                ..self@
            }),
    {
        ForecastAlert {
            kind: self.kind,
            severity: self.severity,
            project_id: self.project_id.clone(),
            subject: self.subject.clone(),
            eta_days: self.eta_days.copied(),
            message: self.message.clone(),
            policy_applied: policy,
        }
    }
}

/// A standing rule that a policy raised for `key`.
pub open spec fn stands_for(key: Seq<char>) -> spec_fn(LimitRule) -> bool {
    |r: LimitRule| r.enabled && origin_of(key)(r)
}

/// A warning with the rule that stands for its subject. Only a margin's warning names one, and only an
/// enabled rule stands.
pub open spec fn reported(a: AlertView, rules: Seq<LimitRule>) -> AlertView {
    if a.kind == AlertKind::MarginErosion {
        AlertView {
            policy: match first_where(rules, stands_for(a.subject)) {
                Some(i) => Some(rules[i].id@),
                None => None,
            },
            ..a
        }
    } else {
        a
    }
}

fn standing_for(rules: &Vec<LimitRule>, key: &str) -> (r: Option<String>)
    ensures
        match first_where(rules@, stands_for(key@)) {
            Some(i) => r is Some && r->0@ == rules@[i].id@,
            None => r is None,
        },
{
    let mut i: usize = 0;
    while i < rules.len()
        invariant
            i <= rules.len(),
            forall|j: int| 0 <= j < i ==> !stands_for(key@)(#[trigger] rules@[j]),
        decreases rules.len() - i,
    {
        if rules[i].enabled && raised_for(&rules[i], key) {
            proof {
                crate::seqs::first_where_is(rules@, stands_for(key@), i as int);
            }
            return Some(rules[i].id.clone());
        }
        i += 1;
    }
    proof {
        crate::seqs::first_where_none(rules@, stands_for(key@));
    }
    None
}

/// Names the standing rule on every margin's warning.
pub fn attach_guardrails(alerts: &mut Vec<ForecastAlert>, rules: &Vec<LimitRule>)
    ensures
        alert_views(final(alerts)@) == alert_views(old(alerts)@).map_values(
            |a: AlertView| reported(a, rules@),
        ),
{
    let ghost start = alerts@;
    let ghost f = |a: AlertView| reported(a, rules@);
    let mut i: usize = 0;
    while i < alerts.len()
        invariant
            f == (|a: AlertView| reported(a, rules@)),
            i <= alerts@.len() == start.len(),
            forall|j: int| 0 <= j < i ==> (#[trigger] alerts@[j])@ == reported(start[j]@, rules@),
            forall|j: int| i <= j < start.len() ==> (#[trigger] alerts@[j]) == start[j],
        decreases alerts.len() - i,
    {
        if alerts[i].kind == AlertKind::MarginErosion {
            let p = standing_for(rules, alerts[i].subject.as_str());
            let a = alerts[i].with_policy(p);
            alerts.set(i, a);
        }
        i += 1;
    }
    assert(alert_views(alerts@) =~= alert_views(start).map_values(f));
}

/// A projection without enough evidence, or that the last days do not bear out, pages nobody.
pub proof fn thin_evidence_pages_nobody(project: Seq<char>, b: BudgetForecast, m: MarginForecast)
    ensures
        !pages(b.trend) ==> budget_alert(project, b) is None,
        !pages(m.trend) ==> margin_alert(project, m) is None,
{
}

/// A warning that becomes more urgent gets through: two warnings that differ in urgency alone are not
/// recognised as one.
pub proof fn an_escalation_is_news(a: AlertView, b: AlertView)
    requires
        a.severity != b.severity,
    ensures
        dedup_text(a) != dedup_text(b),
{
    reveal_strlit("high");
    reveal_strlit("warning");
    let x = dedup_text(a);
    let y = dedup_text(b);
    assert(x[x.len() - 1] == a.severity.wire()[a.severity.wire().len() - 1]);
    assert(y[y.len() - 1] == b.severity.wire()[b.severity.wire().len() - 1]);
}

// ------------------------------------------------------------------ what a forecast warns of

/// Whether `a` warns that a budget will be breached: there is evidence enough, the last days bear it
/// out, a date is projected, and the warning is urgent exactly where that date is at most three days
/// out.
pub open spec fn warns_of_breach(a: AlertView, project: Seq<char>, b: BudgetForecast) -> bool {
    &&& b.trend.objection is None && b.trend.corroborated && b.eta is Some
    &&& a.kind == AlertKind::BudgetBreach
    &&& a.project == project
    &&& a.subject == b.rule_id@
    &&& a.severity == Severity::High <==> b.eta->0.key <= 0x4008_0000_0000_0000
    &&& a.eta_key == b.eta->0.rounded.key
    &&& a.eta_wire == b.eta->0.rounded.wire@
    &&& a.policy is None
}

/// Whether `a` warns that a margin is being eaten up: there is evidence enough and the last days bear it
/// out; where it is still there, a date is projected, and the warning is urgent exactly where that date
/// is at most three days out; where it is gone, the cost still rises, and the warning is urgent.
pub open spec fn warns_of_erosion(a: AlertView, project: Seq<char>, m: MarginForecast) -> bool {
    &&& m.trend.objection is None && m.trend.corroborated
    &&& a.kind == AlertKind::MarginErosion
    &&& a.project == project
    &&& a.subject == m.key@
    &&& m.currently_profitable ==> {
        &&& m.eta is Some
        &&& a.severity == Severity::High <==> m.eta->0.key <= 0x4008_0000_0000_0000
        &&& a.eta_key == m.eta->0.rounded.key
        &&& a.eta_wire == m.eta->0.rounded.wire@
    }
    &&& !m.currently_profitable ==> m.trend.rising && a.severity == Severity::High && a.eta_key == 0
        && a.eta_wire == "0.0"@
    &&& a.policy is None
}

proof fn budget_alerts_warn(project: Seq<char>, v: Seq<BudgetForecast>, i: int)
    requires
        0 <= i < budget_alerts(project, v).len(),
    ensures
        exists|j: int|
            0 <= j < v.len() && warns_of_breach(
                budget_alerts(project, v)[i],
                project,
                #[trigger] v[j],
            ),
    decreases v.len(),
{
    let d = v.drop_last();
    let all = budget_alerts(project, v);
    let rest = budget_alerts(project, d);
    if i < rest.len() {
        budget_alerts_warn(project, d, i);
        let j = choose|j: int| 0 <= j < d.len() && warns_of_breach(rest[i], project, #[trigger] d[j]);
        assert(all[i] == rest[i]);
        assert(v[j] == d[j]);
    } else {
        assert(warns_of_breach(all[i], project, v[v.len() - 1]));
    }
}

proof fn margin_alerts_warn(project: Seq<char>, v: Seq<MarginForecast>, i: int)
    requires
        0 <= i < margin_alerts(project, v).len(),
    ensures
        exists|j: int|
            0 <= j < v.len() && warns_of_erosion(
                margin_alerts(project, v)[i],
                project,
                #[trigger] v[j],
            ),
    decreases v.len(),
{
    let d = v.drop_last();
    let all = margin_alerts(project, v);
    let rest = margin_alerts(project, d);
    if i < rest.len() {
        margin_alerts_warn(project, d, i);
        let j = choose|j: int| 0 <= j < d.len() && warns_of_erosion(rest[i], project, #[trigger] d[j]);
        assert(all[i] == rest[i]);
        assert(v[j] == d[j]);
    } else {
        assert(warns_of_erosion(all[i], project, v[v.len() - 1]));
    }
}

/// Every warning of a forecast is warranted: it warns of one of the budgets or of one of the margins,
/// and is as urgent as the date that is projected for it.
pub proof fn every_warning_is_warranted(
    project: &str,
    budgets: &Vec<BudgetForecast>,
    margins: &Vec<MarginForecast>,
    r: Vec<ForecastAlert>,
    i: int,
)
    requires
        call_ensures(build_alerts, (project, budgets, margins), r),
        0 <= i < r@.len(),
    ensures
        r@[i].kind == AlertKind::BudgetBreach ==> exists|j: int|
            0 <= j < budgets@.len() && warns_of_breach(r@[i]@, project@, #[trigger] budgets@[j]),
        r@[i].kind == AlertKind::MarginErosion ==> exists|j: int|
            0 <= j < margins@.len() && warns_of_erosion(r@[i]@, project@, #[trigger] margins@[j]),
{
    let b = budget_alerts(project@, budgets@);
    let m = margin_alerts(project@, margins@);
    assert(alert_views(r@).len() == r@.len());
    assert(alert_views(r@)[i] == r@[i]@);
    if i < b.len() {
        assert((b + m)[i] == b[i]);
        budget_alerts_warn(project@, budgets@, i);
        let j = choose|j: int| 0 <= j < budgets@.len() && warns_of_breach(b[i], project@, #[trigger] budgets@[j]);
        assert(warns_of_breach(r@[i]@, project@, budgets@[j]));
    } else {
        assert((b + m)[i] == m[i - b.len()]);
        margin_alerts_warn(project@, margins@, i - b.len());
        let j = choose|j: int|
            0 <= j < margins@.len() && warns_of_erosion(m[i - b.len()], project@, #[trigger] margins@[j]);
        assert(warns_of_erosion(r@[i]@, project@, margins@[j]));
    }
}

proof fn budget_is_warned_of(project: Seq<char>, v: Seq<BudgetForecast>, j: int) -> (i: int)
    requires
        0 <= j < v.len(),
        v[j].trend.objection is None && v[j].trend.corroborated && v[j].eta is Some,
    ensures
        0 <= i < budget_alerts(project, v).len(),
        warns_of_breach(budget_alerts(project, v)[i], project, v[j]),
    decreases v.len(),
{
    let d = v.drop_last();
    if j < d.len() {
        assert(d[j] == v[j]);
        budget_is_warned_of(project, d, j)
    } else {
        budget_alerts(project, d).len() as int
    }
}

proof fn margin_is_warned_of(project: Seq<char>, v: Seq<MarginForecast>, j: int) -> (i: int)
    requires
        0 <= j < v.len(),
        v[j].trend.objection is None && v[j].trend.corroborated,
        v[j].currently_profitable ==> v[j].eta is Some,
        !v[j].currently_profitable ==> v[j].trend.rising,
    ensures
        0 <= i < margin_alerts(project, v).len(),
        warns_of_erosion(margin_alerts(project, v)[i], project, v[j]),
    decreases v.len(),
{
    let d = v.drop_last();
    if j < d.len() {
        assert(d[j] == v[j]);
        margin_is_warned_of(project, d, j)
    } else {
        margin_alerts(project, d).len() as int
    }
}

/// Nothing that warrants a warning goes without one: a budget with a projected date, a margin with one,
/// and a lost margin whose cost still rises are each warned of wherever the evidence holds.
pub proof fn nothing_goes_unwarned(
    project: &str,
    budgets: &Vec<BudgetForecast>,
    margins: &Vec<MarginForecast>,
    r: Vec<ForecastAlert>,
)
    requires
        call_ensures(build_alerts, (project, budgets, margins), r),
    ensures
        forall|j: int|
            0 <= j < budgets@.len() && (#[trigger] budgets@[j]).trend.objection is None
                && budgets@[j].trend.corroborated && budgets@[j].eta is Some ==> exists|i: int|
                0 <= i < r@.len() && warns_of_breach((#[trigger] r@[i])@, project@, budgets@[j]),
        forall|j: int|
            0 <= j < margins@.len() && (#[trigger] margins@[j]).trend.objection is None
                && margins@[j].trend.corroborated && (if margins@[j].currently_profitable {
                margins@[j].eta is Some
            } else {
                margins@[j].trend.rising
            }) ==> exists|i: int|
                0 <= i < r@.len() && warns_of_erosion((#[trigger] r@[i])@, project@, margins@[j]),
{
    let b = budget_alerts(project@, budgets@);
    let m = margin_alerts(project@, margins@);
    assert(alert_views(r@).len() == r@.len());
    assert forall|j: int|
        0 <= j < budgets@.len() && (#[trigger] budgets@[j]).trend.objection is None
            && budgets@[j].trend.corroborated && budgets@[j].eta is Some implies exists|i: int|
        0 <= i < r@.len() && warns_of_breach((#[trigger] r@[i])@, project@, budgets@[j]) by {
        let i = budget_is_warned_of(project@, budgets@, j);
        assert((b + m)[i] == b[i]);
        assert(alert_views(r@)[i] == r@[i]@);
    }
    assert forall|j: int|
        0 <= j < margins@.len() && (#[trigger] margins@[j]).trend.objection is None
            && margins@[j].trend.corroborated && (if margins@[j].currently_profitable {
            margins@[j].eta is Some
        } else {
            margins@[j].trend.rising
        }) implies exists|i: int|
        0 <= i < r@.len() && warns_of_erosion((#[trigger] r@[i])@, project@, margins@[j]) by {
        let k = margin_is_warned_of(project@, margins@, j);
        let i = b.len() + k;
        assert((b + m)[i] == m[k]);
        assert(alert_views(r@)[i] == r@[i]@);
    }
}

/// Warnings come in the order of what they warn of, the budgets' before the margins': one more budget,
/// or one more margin, adds at most one warning, at the end of its kind.
pub proof fn warnings_keep_their_order(
    project: &str,
    budgets: &Vec<BudgetForecast>,
    more: &Vec<BudgetForecast>,
    none: &Vec<BudgetForecast>,
    margins: &Vec<MarginForecast>,
    more_margins: &Vec<MarginForecast>,
    nothing: &Vec<MarginForecast>,
    of_budgets: Vec<ForecastAlert>,
    of_more: Vec<ForecastAlert>,
    of_margins: Vec<ForecastAlert>,
    of_more_margins: Vec<ForecastAlert>,
    of_both: Vec<ForecastAlert>,
)
    requires
        none@.len() == 0,
        nothing@.len() == 0,
        more@.len() > 0 && more@.drop_last() == budgets@,
        more_margins@.len() > 0 && more_margins@.drop_last() == margins@,
        call_ensures(build_alerts, (project, budgets, nothing), of_budgets),
        call_ensures(build_alerts, (project, more, nothing), of_more),
        call_ensures(build_alerts, (project, none, margins), of_margins),
        call_ensures(build_alerts, (project, none, more_margins), of_more_margins),
        call_ensures(build_alerts, (project, budgets, margins), of_both),
    ensures
        alert_views(of_both@) == alert_views(of_budgets@) + alert_views(of_margins@),
        alert_views(of_more@) == alert_views(of_budgets@) || (of_more@.len() == of_budgets@.len() + 1
            && alert_views(of_more@).drop_last() == alert_views(of_budgets@) && warns_of_breach(
            alert_views(of_more@).last(),
            project@,
            more@.last(),
        )),
        alert_views(of_more_margins@) == alert_views(of_margins@) || (of_more_margins@.len()
            == of_margins@.len() + 1 && alert_views(of_more_margins@).drop_last() == alert_views(
            of_margins@,
        ) && warns_of_erosion(alert_views(of_more_margins@).last(), project@, more_margins@.last())),
{
    let e = Seq::<AlertView>::empty();
    assert(budget_alerts(project@, none@) == e);
    assert(margin_alerts(project@, nothing@) == e);
    assert(alert_views(of_budgets@) =~= budget_alerts(project@, budgets@));
    assert(alert_views(of_more@) =~= budget_alerts(project@, more@));
    assert(alert_views(of_margins@) =~= margin_alerts(project@, margins@));
    assert(alert_views(of_more_margins@) =~= margin_alerts(project@, more_margins@));
    assert(alert_views(of_more@).len() == of_more@.len());
    assert(alert_views(of_more_margins@).len() == of_more_margins@.len());
    assert(alert_views(of_budgets@).len() == of_budgets@.len());
    assert(alert_views(of_margins@).len() == of_margins@.len());
    match budget_alert(project@, more@.last()) {
        Some(a) => {
            assert(budget_alerts(project@, budgets@).push(a).drop_last() =~= budget_alerts(
                project@,
                budgets@,
            ));
        },
        None => {},
    }
    match margin_alert(project@, more_margins@.last()) {
        Some(a) => {
            assert(margin_alerts(project@, margins@).push(a).drop_last() =~= margin_alerts(
                project@,
                margins@,
            ));
        },
        None => {},
    }
}

/// A budget's warning says which project, which window and metric, what the threshold is, what is
/// projected and where it stands now, each figure in its own place.
pub proof fn a_breach_is_described(project: Seq<char>, b: BudgetForecast)
    requires
        budget_alert(project, b) is Some,
    ensures
        ({
            let m = budget_alert(project, b)->0.message;
            &&& has_within(m, "project '"@ + project)
            &&& has_within(m, " budget ("@ + b.threshold@)
            &&& has_within(m, " — projected ~"@ + b.projected_daily@)
            &&& has_within(m, "/day, current rolling "@ + b.current@)
            &&& b.metric == LimitMetric::CostUsd ==> has_within(m, "cost"@)
            &&& b.metric == LimitMetric::Calls ==> has_within(m, "calls"@)
            &&& b.metric == LimitMetric::Tokens ==> has_within(m, "tokens"@)
            &&& b.window == LimitWindow::Hour ==> has_within(m, "hourly"@)
            &&& b.window == LimitWindow::Day ==> has_within(m, "daily"@)
            &&& b.window == LimitWindow::Month ==> has_within(m, "monthly"@)
            &&& b.eta->0.key < 0x3ff0_0000_0000_0000 ==> has_within(m, "imminently"@)
            &&& 0x3ff0_0000_0000_0000 <= b.eta->0.key < 0x402c_0000_0000_0000 ==> has_within(
                m,
                "in about "@ + b.eta->0.days@ + " days"@,
            )
            &&& b.eta->0.key >= 0x402c_0000_0000_0000 ==> has_within(
                m,
                "in about "@ + b.eta->0.weeks@ + " weeks"@,
            )
        }),
{
    let e = b.eta->0;
    let v = strung_on(seq![], "project '"@);
    let v = strung_on(v, project);
    let v = strung_on(v, "' is on track to breach its "@);
    let v = strung_on(v, window_name(b.window));
    let v = strung_on(v, " "@);
    let v = strung_on(v, metric_name(b.metric));
    let v = strung_on(v, " budget ("@);
    let v = strung_on(v, b.threshold@);
    let v = strung_on(v, ") "@);
    let v = strung_on(v, when(e));
    let v = strung_on(v, " — projected ~"@);
    let v = strung_on(v, b.projected_daily@);
    let v = strung_on(v, "/day, current rolling "@);
    let v = strung_on(v, b.current@);
    let v = strung_on(v, fit_text(b.trend));
    assert(breach_text(project, b, e) == strung(v));
    pieces_stand(v, 0);
    pieces_stand(v, 3);
    pieces_stand(v, 5);
    pieces_stand(v, 6);
    pieces_stand(v, 9);
    pieces_stand(v, 10);
    pieces_stand(v, 12);
}

/// A margin's warning names the customer or product and puts revenue and cost each in its own place; one
/// that is lost says by how much.
pub proof fn an_erosion_is_described(project: Seq<char>, x: MarginForecast)
    requires
        margin_alert(project, x) is Some,
    ensures
        ({
            let m = margin_alert(project, x)->0.message;
            &&& has_within(m, "'"@ + x.key@)
            &&& x.currently_profitable ==> has_within(m, " — revenue ~$"@ + x.revenue_per_day@)
            &&& x.currently_profitable ==> has_within(m, "/day vs cost rising to ~$"@ + x.cost_per_day@)
            &&& !x.currently_profitable ==> has_within(
                m,
                "' is already unprofitable (margin $"@ + x.margin_usd@,
            )
        }),
{
    let v = strung_on(seq![], "'"@);
    let v = strung_on(v, x.key@);
    if x.currently_profitable {
        let e = x.eta->0;
        let v = strung_on(v, "' is on track to turn unprofitable "@);
        let v = strung_on(v, when(e));
        let v = strung_on(v, " — revenue ~$"@);
        let v = strung_on(v, x.revenue_per_day@);
        let v = strung_on(v, "/day vs cost rising to ~$"@);
        let v = strung_on(v, x.cost_per_day@);
        let v = strung_on(v, "/day"@);
        let v = strung_on(v, fit_text(x.trend));
        assert(erosion_text(x, e) == strung(v));
        pieces_stand(v, 0);
        pieces_stand(v, 3);
        pieces_stand(v, 4);
        pieces_stand(v, 6);
    } else {
        let v = strung_on(v, "' is already unprofitable (margin $"@);
        let v = strung_on(v, x.margin_usd@);
        let v = strung_on(v, ") and cost is still rising"@);
        let v = strung_on(v, fit_text(x.trend));
        assert(lost_text(x) == strung(v));
        pieces_stand(v, 0);
        pieces_stand(v, 2);
    }
}

/// A margin's warning names the first enabled rule that a policy raised for its subject, and none where
/// there is no such rule; a budget's warning names none; and naming one changes nothing else.
pub proof fn a_warning_names_the_rule_that_stands(a: AlertView, rules: Seq<LimitRule>)
    ensures
        a.kind == AlertKind::BudgetBreach ==> reported(a, rules) == a,
        reported(a, rules) == (AlertView { policy: reported(a, rules).policy, ..a }),
        a.kind == AlertKind::MarginErosion ==> match reported(a, rules).policy {
            Some(id) => exists|i: int|
                0 <= i < rules.len() && (#[trigger] rules[i]).id@ == id && rules[i].enabled
                    && rules[i].origin is Some && names_key(rules[i].origin->0@, a.subject) && forall|
                    j: int,
                |
                    0 <= j < i ==> !((#[trigger] rules[j]).enabled && rules[j].origin is Some && names_key(
                        rules[j].origin->0@,
                        a.subject,
                    )),
            None => forall|j: int|
                0 <= j < rules.len() ==> !((#[trigger] rules[j]).enabled && rules[j].origin is Some
                    && names_key(rules[j].origin->0@, a.subject)),
        },
{
    let p = stands_for(a.subject);
    match first_where(rules, p) {
        Some(i) => {
            assert(crate::seqs::is_first(rules, p, i));
            assert forall|j: int| 0 <= j < i implies !((#[trigger] rules[j]).enabled && rules[j].origin is Some
                && names_key(rules[j].origin->0@, a.subject)) by {
                assert(!p(rules[j]));
            }
            assert(rules[i].id@ == rules[i].id@);
        },
        None => {
            assert forall|j: int| 0 <= j < rules.len() implies !((#[trigger] rules[j]).enabled
                && rules[j].origin is Some && names_key(rules[j].origin->0@, a.subject)) by {
                if p(rules[j]) {
                    crate::seqs::first_where_some(rules, p, j);
                }
            }
        },
    }
}

/// A warning is recognised by its project, its kind, its subject and its urgency, each by its own word and
/// in that order.
pub proof fn a_warning_is_recognised_by_its_parts(a: &ForecastAlert, k: String, kind: &'static str, s: &'static str)
    requires
        call_ensures(ForecastAlert::dedup_key, (a,), k),
        call_ensures(AlertKind::as_str, (a.kind,), kind),
        call_ensures(Severity::as_str, (a.severity,), s),
    ensures
        a.kind == AlertKind::BudgetBreach ==> kind@ == "budget_breach"@,
        a.kind == AlertKind::MarginErosion ==> kind@ == "margin_erosion"@,
        a.severity == Severity::High ==> s@ == "high"@,
        a.severity == Severity::Warning ==> s@ == "warning"@,
        k@ == strung(
            seq![
                "forecast:"@,
                a.project_id@,
                ":"@,
                kind@,
                ":"@,
                a.subject@,
                ":"@,
                s@,
            ],
        ),
{
    let v = strung_on(seq![], "forecast:"@);
    let v = strung_on(v, a.project_id@);
    let v = strung_on(v, ":"@);
    let v = strung_on(v, kind@);
    let v = strung_on(v, ":"@);
    let v = strung_on(v, a.subject@);
    let v = strung_on(v, ":"@);
    let v = strung_on(v, s@);
    assert(v =~= seq![
        "forecast:"@,
        a.project_id@,
        ":"@,
        kind@,
        ":"@,
        a.subject@,
        ":"@,
        s@,
    ]);
}

} // verus!
