//! Usage limits as the ingest doors see them: one evaluated rule per status.
use vstd::prelude::*;

use crate::figure::Real;
use crate::text::clone_opt;

verus! {

/// What a limit counts.
#[derive(Debug, Clone, Copy, PartialEq, Eq, Structural)]
pub enum LimitMetric {
    CostUsd,
    Tokens,
    Calls,
}

/// The span a limit counts over.
#[derive(Debug, Clone, Copy, PartialEq, Eq, Structural)]
pub enum LimitWindow {
    Hour,
    Day,
    Month,
}

/// What happens when a limit is crossed.
#[derive(Debug, Clone, Copy, PartialEq, Eq, Structural)]
pub enum LimitAction {
    Alert,
    Throttle,
    Block,
}

/// The slice of traffic a limit is about.
#[derive(Debug)]
pub enum LimitScope {
    Provider(String),
    Model(String),
    Name(String),
    ApiKey(String),
    Customer(String),
}

impl LimitMetric {
    /// The variant's name.
    pub open spec fn name(self) -> Seq<char> {
        match self {
            LimitMetric::CostUsd => "CostUsd"@,
            LimitMetric::Tokens => "Tokens"@,
            LimitMetric::Calls => "Calls"@,
        }
    }

    /// The variant's name.
    pub fn show(self) -> (r: &'static str)
        ensures
            r@ == self.name(),
    {
        match self {
            LimitMetric::CostUsd => "CostUsd",
            LimitMetric::Tokens => "Tokens",
            LimitMetric::Calls => "Calls",
        }
    }
}

impl LimitWindow {
    /// The variant's name.
    pub open spec fn name(self) -> Seq<char> {
        match self {
            LimitWindow::Hour => "Hour"@,
            LimitWindow::Day => "Day"@,
            LimitWindow::Month => "Month"@,
        }
    }

    /// The variant's name.
    pub fn show(self) -> (r: &'static str)
        ensures
            r@ == self.name(),
    {
        match self {
            LimitWindow::Hour => "Hour",
            LimitWindow::Day => "Day",
            LimitWindow::Month => "Month",
        }
    }
}

impl LimitAction {
    /// The variant's name.
    pub open spec fn name(self) -> Seq<char> {
        match self {
            LimitAction::Alert => "Alert"@,
            LimitAction::Throttle => "Throttle"@,
            LimitAction::Block => "Block"@,
        }
    }

    /// The variant's name.
    pub fn show(self) -> (r: &'static str)
        ensures
            r@ == self.name(),
    {
        match self {
            LimitAction::Alert => "Alert",
            LimitAction::Throttle => "Throttle",
            LimitAction::Block => "Block",
        }
    }
}

impl LimitScope {
    /// The rollup dimension's own name.
    pub open spec fn kind(self) -> Seq<char> {
        match self {
            LimitScope::Provider(_) => "provider"@,
            LimitScope::Model(_) => "model"@,
            LimitScope::Name(_) => "name"@,
            LimitScope::ApiKey(_) => "api_key"@,
            LimitScope::Customer(_) => "customer"@,
        }
    }

    /// The value within that dimension.
    pub open spec fn what(self) -> Seq<char> {
        match self {
            LimitScope::Provider(s) => s@,
            LimitScope::Model(s) => s@,
            LimitScope::Name(s) => s@,
            LimitScope::ApiKey(s) => s@,
            LimitScope::Customer(s) => s@,
        }
    }

    /// `kind=value`.
    pub open spec fn labelled(self) -> Seq<char> {
        self.kind() + "="@ + self.what()
    }

    /// The rollup dimension's own name.
    pub fn kind_str(&self) -> (r: &'static str)
        ensures
            r@ == self.kind(),
    {
        match self {
            LimitScope::Provider(_) => "provider",
            LimitScope::Model(_) => "model",
            LimitScope::Name(_) => "name",
            LimitScope::ApiKey(_) => "api_key",
            LimitScope::Customer(_) => "customer",
        }
    }

    /// The value within that dimension.
    pub fn value(&self) -> (r: &str)
        ensures
            r@ == self.what(),
    {
        match self {
            LimitScope::Provider(s) => s.as_str(),
            LimitScope::Model(s) => s.as_str(),
            LimitScope::Name(s) => s.as_str(),
            LimitScope::ApiKey(s) => s.as_str(),
            LimitScope::Customer(s) => s.as_str(),
        }
    }

    /// `kind=value`, as an operator reads it.
    pub fn label(&self) -> (r: String)
        ensures
            r@ == self.labelled(),
    {
        let mut out = self.kind_str().to_owned();
        out.append("=");
        out.append(self.value());
        out
    }

    /// The same scope again.
    pub fn copied(&self) -> (r: LimitScope)
        ensures
            r == *self,
    {
        match self {
            LimitScope::Provider(s) => LimitScope::Provider(s.clone()),
            LimitScope::Model(s) => LimitScope::Model(s.clone()),
            LimitScope::Name(s) => LimitScope::Name(s.clone()),
            LimitScope::ApiKey(s) => LimitScope::ApiKey(s.clone()),
            LimitScope::Customer(s) => LimitScope::Customer(s.clone()),
        }
    }

    /// Whether two scopes name the same slice.
    pub open spec fn alike(self, other: LimitScope) -> bool {
        self.kind() == other.kind() && self.what() == other.what()
    }
}

/// The same optional scope again.
pub fn copy_scope(s: &Option<LimitScope>) -> (r: Option<LimitScope>)
    ensures
        r == *s,
{
    match s {
        Some(x) => Some(x.copied()),
        None => None,
    }
}

/// One rule, evaluated against the traffic of its window.
#[derive(Debug)]
pub struct LimitStatus {
    pub rule_id: String,
    pub project_id: String,
    pub metric: LimitMetric,
    pub window: LimitWindow,
    pub action: LimitAction,
    /// The usage so far, with four decimals.
    pub current: String,
    /// The cap, with four decimals.
    pub threshold: String,
    /// Usage over cap, written with six decimals.
    pub ratio: Real,
    /// Usage over cap in whole percent.
    pub percent: String,
    /// The share of traffic being turned away on the approach to the cap, written with six decimals.
    pub shed_fraction: Real,
    /// That share in whole percent.
    pub shed_percent: String,
    pub breached: bool,
    /// The soft tier was crossed and the cap was not.
    pub warning: bool,
    /// This very event is one of those turned away on the approach.
    pub shedding: bool,
    /// The rule refuses ingest outright.
    pub rejects_ingest: bool,
    /// A cost cap whose window holds nothing that could be priced.
    pub unpriceable: bool,
    /// The usage holds imputed cost.
    pub estimated: bool,
    pub scope: Option<LimitScope>,
    /// How a derived threshold came about.
    pub basis: Option<String>,
    /// How long a refused caller should wait.
    pub retry_after_secs: u64,
    /// What alerts about this rule are told apart by.
    pub alert_key: String,
}

impl LimitStatus {
    /// The same status again.
    pub fn copied(&self) -> (r: LimitStatus)
        ensures
            r == *self,
    {
        LimitStatus {
            rule_id: self.rule_id.clone(),
            project_id: self.project_id.clone(),
            metric: self.metric,
            window: self.window,
            action: self.action,
            current: self.current.clone(),
            threshold: self.threshold.clone(),
            ratio: self.ratio.copied(),
            percent: self.percent.clone(),
            shed_fraction: self.shed_fraction.copied(),
            shed_percent: self.shed_percent.clone(),
            breached: self.breached,
            warning: self.warning,
            shedding: self.shedding,
            rejects_ingest: self.rejects_ingest,
            unpriceable: self.unpriceable,
            estimated: self.estimated,
            scope: copy_scope(&self.scope),
            basis: clone_opt(&self.basis),
            retry_after_secs: self.retry_after_secs,
            alert_key: self.alert_key.clone(),
        }
    }
}

// ------------------------------------------------------------------ the words for rules

/// A scope is shown as its dimension, an equals sign and its value, each dimension by its own word; so
/// two scopes of different dimensions never look alike.
pub proof fn a_scope_is_shown_by_its_dimension(s: &LimitScope, k: &'static str, v: &str, l: String)
    requires
        call_ensures(LimitScope::kind_str, (s,), k),
        call_ensures(LimitScope::value, (s,), v),
        call_ensures(LimitScope::label, (s,), l),
    ensures
        l@ == k@ + "="@ + v@,
        match *s {
            LimitScope::Provider(x) => k@ == "provider"@ && v@ == x@,
            LimitScope::Model(x) => k@ == "model"@ && v@ == x@,
            LimitScope::Name(x) => k@ == "name"@ && v@ == x@,
            LimitScope::ApiKey(x) => k@ == "api_key"@ && v@ == x@,
            LimitScope::Customer(x) => k@ == "customer"@ && v@ == x@,
        },
{
}

/// Metrics, windows and actions go by their own names.
pub proof fn rules_go_by_their_names(
    m: LimitMetric,
    w: LimitWindow,
    a: LimitAction,
    x: &'static str,
    y: &'static str,
    z: &'static str,
)
    requires
        call_ensures(LimitMetric::show, (m,), x),
        call_ensures(LimitWindow::show, (w,), y),
        call_ensures(LimitAction::show, (a,), z),
    ensures
        m == LimitMetric::CostUsd ==> x@ == "CostUsd"@,
        m == LimitMetric::Tokens ==> x@ == "Tokens"@,
        m == LimitMetric::Calls ==> x@ == "Calls"@,
        w == LimitWindow::Hour ==> y@ == "Hour"@,
        w == LimitWindow::Day ==> y@ == "Day"@,
        w == LimitWindow::Month ==> y@ == "Month"@,
        a == LimitAction::Alert ==> z@ == "Alert"@,
        a == LimitAction::Throttle ==> z@ == "Throttle"@,
        a == LimitAction::Block ==> z@ == "Block"@,
{
}

} // verus!
