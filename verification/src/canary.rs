//! The canary sweep: when it runs, which versions it compares, and when the comparison is a
//! regression.
use vstd::prelude::*;

use crate::clock::{Timestamp, NANOS_PER_SEC};
use crate::prompts::{called, label_version, pointed_at, Label};
use crate::quality::{tag, tag_of};
use crate::seqs::{first_where, first_where_is, first_where_none, first_where_tells};
use crate::text::{dec, parse_uint, parsed_uint, same_opt, show_u64, trimmed};

verus! {

/// The least interval between two sweeps, in seconds.
pub const MIN_INTERVAL_SECS: u64 = 60;

/// When the sweep runs.
#[derive(Debug, Clone, Copy, PartialEq, Eq, Structural)]
pub struct SweepConfig {
    pub interval_secs: u64,
}

/// The interval that a setting names: none when it is unset, not a number, or zero; never less than a
/// minute.
pub open spec fn interval_of(raw: Option<Seq<char>>) -> Option<u64> {
    match raw {
        None => None,
        Some(s) => match parsed_uint(trimmed(s), u64::MAX as nat) {
            None => None,
            Some(n) => if n == 0 {
                None
            } else if n < MIN_INTERVAL_SECS {
                Some(MIN_INTERVAL_SECS)
            } else {
                Some(n as u64)
            },
        },
    }
}

impl SweepConfig {
    /// Reads the setting; nothing when the sweep is off.
    pub fn from_raw(raw: Option<&str>) -> (r: Option<SweepConfig>)
        ensures
            match raw {
                None => r is None,
                Some(s) => match interval_of(Some(s@)) {
                    None => r is None,
                    Some(n) => r == Some(SweepConfig { interval_secs: n }),
                },
            },
    {
        match raw {
            None => None,
            Some(s) => match parse_uint(s.trim(), u64::MAX) {
                None => None,
                Some(n) => if n == 0 {
                    None
                } else if n < MIN_INTERVAL_SECS {
                    Some(SweepConfig { interval_secs: MIN_INTERVAL_SECS })
                } else {
                    Some(SweepConfig { interval_secs: n })
                },
            },
        }
    }
}

/// One line that says whether anything is watching.
pub fn describe(cfg: Option<SweepConfig>) -> (r: String)
    ensures
        r@ == (match cfg {
            None => "off (set LIGHTTRACK_PROMPT_CANARY_SWEEP_SECS)"@,
            Some(c) => "every "@ + dec(c.interval_secs as nat) + "s (auto-revert is per-prompt)"@,
        }),
{
    match cfg {
        None => "off (set LIGHTTRACK_PROMPT_CANARY_SWEEP_SECS)".to_owned(),
        Some(c) => {
            let n = show_u64(c.interval_secs);
            let mut out = "every ".to_owned();
            out.append(n.as_str());
            out.append("s (auto-revert is per-prompt)");
            out
        },
    }
}

/// What a prompt's canary is allowed to do. Real numbers are given by a key that grows as they do and
/// is 0 for zero.
#[derive(Debug)]
pub struct CanaryPolicy {
    pub label: String,
    pub production_label: String,
    /// The least number of verdicts on either side.
    pub min_n: u32,
    /// How far the comparison looks back, in seconds.
    pub window_secs: u64,
    /// The relative drop that is still tolerated.
    pub max_drop: i64,
    pub auto_revert: bool,
}

/// The verdicts on one served version. Real numbers are given by a key that grows as they do and is 0
/// for zero.
#[derive(Debug)]
pub struct ScoreSummary {
    pub key: Option<String>,
    pub n: u64,
    pub mean: i64,
    pub ci95_low: i64,
    pub ci95_high: i64,
}

/// Whether the canary is measurably worse: enough verdicts on both sides, a production mean to
/// measure against, its whole interval below production's, and a drop past the tolerated one.
pub open spec fn regressed(p: CanaryPolicy, canary: ScoreSummary, production: ScoreSummary, drop: i64) -> bool {
    &&& canary.n >= p.min_n
    &&& production.n >= p.min_n
    &&& production.mean > 0
    &&& canary.ci95_high < production.ci95_low
    &&& drop > p.max_drop
}

/// Whether the comparison is a regression. `drop` is how far the canary's mean lies below
/// production's, relative to production's.
pub fn regression(policy: &CanaryPolicy, canary: &ScoreSummary, production: &ScoreSummary, drop: i64) -> (r:
    bool)
    ensures
        r == regressed(*policy, *canary, *production, drop),
{
    let min_n: u64 = policy.min_n as u64;
    if canary.n < min_n || production.n < min_n {
        return false;
    }
    if production.mean <= 0 {
        return false;
    }
    if canary.ci95_high >= production.ci95_low {
        return false;
    }
    drop > policy.max_drop
}

/// The two versions a sweep compares.
#[derive(Debug, Clone, Copy, PartialEq, Eq, Structural)]
pub struct Versions {
    pub canary: u32,
    pub production: u32,
}

/// The versions a policy compares: the two its labels point at, where both are set and differ.
pub open spec fn compared(p: CanaryPolicy, labels: Seq<Label>) -> Option<Versions> {
    match (pointed_at(labels, p.label@), pointed_at(labels, p.production_label@)) {
        (Some(c), Some(q)) => if c != q {
            Some(Versions { canary: c, production: q })
        } else {
            None
        },
        _ => None,
    }
}

/// The versions to compare, if there are two.
pub fn versions_to_compare(policy: &CanaryPolicy, labels: &Vec<Label>) -> (r: Option<Versions>)
    ensures
        r == compared(*policy, labels@),
{
    match (
        label_version(labels, policy.label.as_str()),
        label_version(labels, policy.production_label.as_str()),
    ) {
        (Some(c), Some(q)) => if c != q {
            Some(Versions { canary: c, production: q })
        } else {
            None
        },
        _ => None,
    }
}

/// A row filed under `t`.
pub open spec fn filed_under(t: Seq<char>) -> spec_fn(ScoreSummary) -> bool {
    |r: ScoreSummary| r.key is Some && r.key->0@ == t
}

/// The first row filed under a tag.
pub fn find(rows: &Vec<ScoreSummary>, t: &str) -> (r: Option<usize>)
    ensures
        match r {
            Some(i) => i < rows@.len() && first_where(rows@, filed_under(t@)) == Some(i as int),
            None => first_where(rows@, filed_under(t@)) is None,
        },
{
    let mut i: usize = 0;
    while i < rows.len()
        invariant
            i <= rows.len(),
            forall|j: int| 0 <= j < i ==> !filed_under(t@)(#[trigger] rows@[j]),
        decreases rows.len() - i,
    {
        if same_opt(&rows[i].key, t) {
            proof {
                first_where_is(rows@, filed_under(t@), i as int);
            }
            return Some(i);
        }
        i += 1;
    }
    proof {
        first_where_none(rows@, filed_under(t@));
    }
    None
}

/// The rows of the two versions, as positions; nothing unless both were judged.
pub fn rows_to_compare(rows: &Vec<ScoreSummary>, prompt: &str, v: Versions) -> (r: Option<(usize, usize)>)
    ensures
        ({
            let c = first_where(rows@, filed_under(tag_of(prompt@, v.canary as nat)));
            let p = first_where(rows@, filed_under(tag_of(prompt@, v.production as nat)));
            match r {
                Some((i, j)) => i < rows@.len() && j < rows@.len() && c == Some(i as int) && p == Some(
                    j as int,
                ),
                None => c is None || p is None,
            }
        }),
{
    let ct = tag(prompt, v.canary);
    let pt = tag(prompt, v.production);
    match (find(rows, ct.as_str()), find(rows, pt.as_str())) {
        (Some(i), Some(j)) => Some((i, j)),
        _ => None,
    }
}

/// Where a regressed canary's label is moved: back to the version it replaced, and only where the
/// policy asks for it and the ledger names one.
pub fn revert_target(policy: &CanaryPolicy, previous: Option<u32>) -> (r: Option<u32>)
    ensures
        r == (if policy.auto_revert {
            previous
        } else {
            None
        }),
{
    if policy.auto_revert {
        previous
    } else {
        None
    }
}

/// What a sweep does about one prompt.
#[derive(Debug)]
pub enum PromptStep {
    /// Nothing: there is no policy, or nothing is being canaried.
    Idle,
    /// Say that its policy can decide nothing, and why.
    Unusable(String),
    /// Compare these versions over what was judged since then.
    Compare(Versions, Timestamp),
}

/// The start of a policy's window.
pub open spec fn window_start(p: CanaryPolicy, now: Timestamp) -> Timestamp {
    Timestamp { nanos: (now.nanos - p.window_secs * NANOS_PER_SEC) as i128 }
}

/// What a sweep does about one prompt. `invalid` says why the policy can decide nothing, if it cannot.
pub fn prompt_step(
    policy: &Option<CanaryPolicy>,
    invalid: Option<String>,
    labels: &Vec<Label>,
    now: Timestamp,
) -> (r: PromptStep)
    requires
        now.valid(),
        *policy is Some ==> window_start(policy->0, now).valid(),
    ensures
        r == (match (*policy, invalid) {
            (None, _) => PromptStep::Idle,
            (Some(_), Some(why)) => PromptStep::Unusable(why),
            (Some(p), None) => match compared(p, labels@) {
                Some(v) => PromptStep::Compare(v, window_start(p, now)),
                None => PromptStep::Idle,
            },
        }),
{
    match policy {
        None => PromptStep::Idle,
        Some(p) => match invalid {
            Some(why) => PromptStep::Unusable(why),
            None => match versions_to_compare(p, labels) {
                Some(v) => {
                    let back: i128 = (p.window_secs as i128) * NANOS_PER_SEC;
                    PromptStep::Compare(v, Timestamp { nanos: now.nanos - back })
                },
                None => PromptStep::Idle,
            },
        },
    }
}

/// A canary that is measurably worse than production. Real numbers are given by a key that grows as
/// they do.
#[derive(Debug)]
pub struct CanaryRegression {
    pub project_id: String,
    pub prompt: String,
    pub canary_label: String,
    pub production_label: String,
    pub versions: Versions,
    /// The rows of the two versions, as positions.
    pub canary_row: usize,
    pub production_row: usize,
    pub drop: i64,
    pub max_drop: i64,
    /// The version the label is moved back to, if it is.
    pub reverted_to: Option<u32>,
}

/// What is made of a comparison: a regression, with the version to go back to where the policy asks for
/// that and the ledger names one; or nothing.
pub fn judge_prompt(
    project: &str,
    prompt: &str,
    policy: &CanaryPolicy,
    v: Versions,
    rows: &Vec<ScoreSummary>,
    found: (usize, usize),
    drop: i64,
    previous: Option<u32>,
) -> (r: Option<CanaryRegression>)
    requires
        found.0 < rows@.len(),
        found.1 < rows@.len(),
    ensures
        r is Some <==> regressed(*policy, rows@[found.0 as int], rows@[found.1 as int], drop),
        r is Some ==> {
            &&& r->0.project_id@ == project@
            &&& r->0.prompt@ == prompt@
            &&& r->0.canary_label@ == policy.label@
            &&& r->0.production_label@ == policy.production_label@
            &&& r->0.versions == v
            &&& r->0.canary_row == found.0
            &&& r->0.production_row == found.1
            &&& r->0.drop == drop
            &&& r->0.max_drop == policy.max_drop
            &&& r->0.reverted_to == (if policy.auto_revert {
                previous
            } else {
                None
            })
        },
{
    if !regression(policy, &rows[found.0], &rows[found.1], drop) {
        return None;
    }
    Some(
        CanaryRegression {
            project_id: project.to_owned(),
            prompt: prompt.to_owned(),
            canary_label: policy.label.clone(),
            production_label: policy.production_label.clone(),
            versions: v,
            canary_row: found.0,
            production_row: found.1,
            drop,
            max_drop: policy.max_drop,
            reverted_to: revert_target(policy, previous),
        },
    )
}

impl CanaryRegression {
    /// What is reported once the label was to be moved back: a revert that could not be written did not
    /// happen.
    pub fn after_revert(self, written: bool) -> (r: CanaryRegression)
        ensures
            r == (CanaryRegression {
                reverted_to: if written {
                    self.reverted_to
                } else {
                    None
                },
                ..self
            }),
    {
        if written {
            self
        } else {
            CanaryRegression { reverted_to: None, ..self }
        }
    }
}

/// What became of one project in a sweep.
#[derive(Debug, Clone, Copy, PartialEq, Eq, Structural)]
pub enum ProjectOutcome {
    /// This many regressions were found.
    Found(u64),
    /// The backend cannot canary at all.
    Unsupported,
    /// The project's check failed.
    Failed,
}

/// What a sweep says about one project.
#[derive(Debug, Clone, Copy, PartialEq, Eq, Structural)]
pub enum SweepNote {
    /// Hand the regressions to the alerter.
    Notify,
    /// Say once that the backend cannot canary.
    WarnUnsupported,
    /// Say that this project failed.
    WarnProject,
    /// Say nothing.
    Quiet,
}

/// A sweep under way.
#[derive(Debug, Clone, Copy, PartialEq, Eq, Structural)]
pub struct Sweep {
    pub raised: u64,
    pub unsupported_warned: bool,
}

impl Sweep {
    /// A sweep that has seen no project.
    pub fn start() -> (r: Sweep)
        ensures
            r == (Sweep { raised: 0, unsupported_warned: false }),
    {
        Sweep { raised: 0, unsupported_warned: false }
    }

    /// The sweep once a project's outcome was taken in.
    pub open spec fn after(self, o: ProjectOutcome) -> Sweep {
        Sweep {
            raised: (self.raised + match o {
                ProjectOutcome::Found(n) => n as int,
                _ => 0,
            }) as u64,
            unsupported_warned: self.unsupported_warned || o == ProjectOutcome::Unsupported,
        }
    }

    /// What is said of a project's outcome.
    pub open spec fn note(self, o: ProjectOutcome) -> SweepNote {
        match o {
            ProjectOutcome::Found(_) => SweepNote::Notify,
            ProjectOutcome::Unsupported => if self.unsupported_warned {
                SweepNote::Quiet
            } else {
                SweepNote::WarnUnsupported
            },
            ProjectOutcome::Failed => SweepNote::WarnProject,
        }
    }

    /// Takes one project's outcome in: regressions add up and are handed on; a backend that cannot
    /// canary is reported once per sweep; a failed project is reported and does not stop the sweep.
    pub fn take(&mut self, o: ProjectOutcome) -> (r: SweepNote)
        requires
            o matches ProjectOutcome::Found(n) ==> old(self).raised + n <= u64::MAX,
        ensures
            *final(self) == old(self).after(o),
            r == old(self).note(o),
    {
        match o {
            ProjectOutcome::Found(n) => {
                self.raised = self.raised + n;
                SweepNote::Notify
            },
            ProjectOutcome::Unsupported => {
                if self.unsupported_warned {
                    SweepNote::Quiet
                } else {
                    self.unsupported_warned = true;
                    SweepNote::WarnUnsupported
                }
            },
            ProjectOutcome::Failed => SweepNote::WarnProject,
        }
    }

    /// Takes one project in, where it is switched on; one that is switched off is passed over.
    pub fn take_project(&mut self, enabled: bool, o: ProjectOutcome) -> (r: SweepNote)
        requires
            enabled && o is Found ==> old(self).raised + o->Found_0 <= u64::MAX,
        ensures
            !enabled ==> *final(self) == *old(self) && r == SweepNote::Quiet,
            enabled ==> {
                &&& *final(self) == old(self).after(o)
                &&& r == old(self).note(o)
            },
    {
        if !enabled {
            return SweepNote::Quiet;
        }
        self.take(o)
    }
}

/// What became of one prompt in a project's pass.
#[derive(Debug, Clone, Copy, PartialEq, Eq, Structural)]
pub enum PromptOutcome {
    /// Its canary is worse.
    Found,
    /// There is nothing to say of it.
    Nothing,
    /// The backend cannot canary at all.
    Unsupported,
    /// Its check failed.
    Failed,
}

/// What a project's pass does after one prompt.
#[derive(Debug, Clone, Copy, PartialEq, Eq, Structural)]
pub enum PassStep {
    /// Keep the regression and go on.
    Collect,
    /// Go on.
    GoOn,
    /// Say that this prompt failed, and go on.
    Warn,
    /// Give the project up.
    Stop,
}

/// What a pass does after one prompt: one prompt's failure is reported and the next is still checked; a
/// backend that cannot canary ends the pass.
pub fn pass_step(o: PromptOutcome) -> (r: PassStep)
    ensures
        r == (match o {
            PromptOutcome::Found => PassStep::Collect,
            PromptOutcome::Nothing => PassStep::GoOn,
            PromptOutcome::Unsupported => PassStep::Stop,
            PromptOutcome::Failed => PassStep::Warn,
        }),
{
    match o {
        PromptOutcome::Found => PassStep::Collect,
        PromptOutcome::Nothing => PassStep::GoOn,
        PromptOutcome::Unsupported => PassStep::Stop,
        PromptOutcome::Failed => PassStep::Warn,
    }
}

/// How many canaries were found worse.
pub open spec fn found_in(v: Seq<PromptOutcome>) -> nat
    decreases v.len(),
{
    if v.len() == 0 {
        0
    } else {
        found_in(v.drop_last()) + if v.last() == PromptOutcome::Found {
            1nat
        } else {
            0
        }
    }
}

/// What a project's pass comes to: nothing but that the backend cannot canary, where a prompt showed it;
/// otherwise the regressions of all its prompts, whichever others failed.
pub open spec fn pass_comes_to(v: Seq<PromptOutcome>) -> ProjectOutcome {
    if v.contains(PromptOutcome::Unsupported) {
        ProjectOutcome::Unsupported
    } else {
        ProjectOutcome::Found(found_in(v) as u64)
    }
}

/// What a project's pass comes to, from what each prompt came to, in order.
pub fn project_pass(outcomes: &Vec<PromptOutcome>) -> (r: ProjectOutcome)
    ensures
        r == pass_comes_to(outcomes@),
        found_in(outcomes@) <= outcomes@.len(),
{
    let mut n: u64 = 0;
    let mut stopped = false;
    let mut i: usize = 0;
    assert(outcomes@.take(0) =~= seq![]);
    while i < outcomes.len()
        invariant
            i <= outcomes.len(),
            n == found_in(outcomes@.take(i as int)),
            n <= i,
            stopped == outcomes@.take(i as int).contains(PromptOutcome::Unsupported),
        decreases outcomes.len() - i,
    {
        let ghost before = outcomes@.take(i as int);
        let ghost x = outcomes@[i as int];
        assert(outcomes@.take(i + 1) =~= before.push(x));
        assert(before.push(x).drop_last() =~= before);
        match pass_step(outcomes[i]) {
            PassStep::Collect => {
                n += 1;
            },
            PassStep::Stop => {
                stopped = true;
            },
            _ => {},
        }
        proof {
            let after = before.push(x);
            if before.contains(PromptOutcome::Unsupported) {
                let k = choose|k: int| 0 <= k < before.len() && before[k] == PromptOutcome::Unsupported;
                assert(after[k] == PromptOutcome::Unsupported);
            }
            assert(after[before.len() as int] == x);
        }
        i += 1;
    }
    assert(outcomes@.take(i as int) =~= outcomes@);
    if stopped {
        ProjectOutcome::Unsupported
    } else {
        ProjectOutcome::Found(n)
    }
}

/// A prompt whose check failed takes nothing from the others: a pass comes to what it would without it.
pub proof fn a_failed_prompt_stops_nothing(before: Seq<PromptOutcome>, after: Seq<PromptOutcome>)
    ensures
        pass_comes_to(before.push(PromptOutcome::Failed) + after) == pass_comes_to(before + after),
{
    let with = before.push(PromptOutcome::Failed) + after;
    let without = before + after;
    found_without_the_failed(before, after);
    if with.contains(PromptOutcome::Unsupported) {
        let k = choose|k: int| 0 <= k < with.len() && with[k] == PromptOutcome::Unsupported;
        let j = if k < before.len() {
            k
        } else {
            k - 1
        };
        assert(without[j] == PromptOutcome::Unsupported);
    }
    if without.contains(PromptOutcome::Unsupported) {
        let k = choose|k: int| 0 <= k < without.len() && without[k] == PromptOutcome::Unsupported;
        let j = if k < before.len() {
            k
        } else {
            k + 1
        };
        assert(with[j] == PromptOutcome::Unsupported);
    }
}

proof fn found_without_the_failed(before: Seq<PromptOutcome>, after: Seq<PromptOutcome>)
    ensures
        found_in(before.push(PromptOutcome::Failed) + after) == found_in(before + after),
    decreases after.len(),
{
    let with = before.push(PromptOutcome::Failed) + after;
    let without = before + after;
    if after.len() == 0 {
        assert(with =~= before.push(PromptOutcome::Failed));
        assert(with.drop_last() =~= before);
        assert(without =~= before);
    } else {
        assert(with.drop_last() =~= before.push(PromptOutcome::Failed) + after.drop_last());
        assert(without.drop_last() =~= before + after.drop_last());
        found_without_the_failed(before, after.drop_last());
    }
}

/// Once a canary's label is back on the production version there is nothing left to compare.
pub proof fn a_reverted_canary_is_silent(p: CanaryPolicy, labels: Seq<Label>)
    requires
        pointed_at(labels, p.label@) == pointed_at(labels, p.production_label@),
    ensures
        compared(p, labels) is None,
{
}

/// Below the evidence floor nothing is concluded, however bad the canary looks.
pub proof fn a_thin_canary_decides_nothing(p: CanaryPolicy, canary: ScoreSummary, production: ScoreSummary, drop: i64)
    requires
        canary.n < p.min_n || production.n < p.min_n,
    ensures
        !regressed(p, canary, production, drop),
{
}

// ------------------------------------------------------------------ what a sweep concludes

/// A sweep runs exactly where its setting is a number above zero, at that many seconds, and never more
/// often than once a minute.
pub proof fn a_sweep_runs_at_its_setting(raw: Option<&str>, r: Option<SweepConfig>)
    requires
        call_ensures(SweepConfig::from_raw, (raw,), r),
    ensures
        r is Some <==> raw is Some && parsed_uint(trimmed(raw->0@), u64::MAX as nat) is Some && parsed_uint(
            trimmed(raw->0@),
            u64::MAX as nat,
        )->0 > 0,
        r is Some ==> r->0.interval_secs >= 60,
        r is Some && parsed_uint(trimmed(raw->0@), u64::MAX as nat)->0 >= 60 ==> r->0.interval_secs
            == parsed_uint(trimmed(raw->0@), u64::MAX as nat)->0,
        r is Some && parsed_uint(trimmed(raw->0@), u64::MAX as nat)->0 < 60 ==> r->0.interval_secs == 60,
{
}

/// A canary has regressed only on enough verdicts on both sides, against a production that scored at all,
/// with its best case below production's worst, and by more than is tolerated; and whenever all of that
/// holds, it has.
pub proof fn a_regression_is_measured_on_both_sides(
    policy: &CanaryPolicy,
    canary: &ScoreSummary,
    production: &ScoreSummary,
    drop: i64,
    r: bool,
)
    requires
        call_ensures(regression, (policy, canary, production, drop), r),
    ensures
        canary.n < policy.min_n ==> !r,
        production.n < policy.min_n ==> !r,
        production.mean <= 0 ==> !r,
        canary.ci95_high >= production.ci95_low ==> !r,
        drop <= policy.max_drop ==> !r,
        !r ==> canary.n < policy.min_n || production.n < policy.min_n || production.mean <= 0
            || canary.ci95_high >= production.ci95_low || drop <= policy.max_drop,
{
}

/// The versions compared are those that the policy's two labels point at, each under its own name, and
/// only where they differ.
pub proof fn a_canary_is_compared_with_production(
    policy: &CanaryPolicy,
    labels: &Vec<Label>,
    r: Option<Versions>,
    c: int,
    p: int,
)
    requires
        call_ensures(versions_to_compare, (policy, labels), r),
        0 <= c < labels@.len(),
        0 <= p < labels@.len(),
        labels@[c].name@ == policy.label@,
        labels@[p].name@ == policy.production_label@,
        forall|i: int| 0 <= i < c ==> (#[trigger] labels@[i]).name@ != policy.label@,
        forall|i: int| 0 <= i < p ==> (#[trigger] labels@[i]).name@ != policy.production_label@,
    ensures
        r is Some <==> labels@[c].version != labels@[p].version,
        r is Some ==> r->0.canary == labels@[c].version && r->0.production == labels@[p].version,
{
    let a = called(policy.label@);
    let b = called(policy.production_label@);
    assert forall|i: int| 0 <= i < c implies !a(#[trigger] labels@[i]) by {}
    assert forall|i: int| 0 <= i < p implies !b(#[trigger] labels@[i]) by {}
    first_where_is(labels@, a, c);
    first_where_is(labels@, b, p);
}

/// Without one of the two labels there is nothing to compare.
pub proof fn a_missing_label_compares_nothing(
    policy: &CanaryPolicy,
    labels: &Vec<Label>,
    r: Option<Versions>,
)
    requires
        call_ensures(versions_to_compare, (policy, labels), r),
        (forall|i: int| 0 <= i < labels@.len() ==> (#[trigger] labels@[i]).name@ != policy.label@) || (
        forall|i: int|
            0 <= i < labels@.len() ==> (#[trigger] labels@[i]).name@ != policy.production_label@),
    ensures
        r is None,
{
    let a = called(policy.label@);
    let b = called(policy.production_label@);
    first_where_tells(labels@, a);
    first_where_tells(labels@, b);
}

/// The rows compared are the first of each version, the canary's under the canary's tag and production's
/// under production's.
pub proof fn rows_are_those_of_the_versions(
    rows: &Vec<ScoreSummary>,
    prompt: &str,
    v: Versions,
    r: Option<(usize, usize)>,
    c: int,
    p: int,
)
    requires
        call_ensures(rows_to_compare, (rows, prompt, v), r),
        0 <= c < rows@.len(),
        0 <= p < rows@.len(),
        rows@[c].key is Some && rows@[c].key->0@ == prompt@ + "@v"@ + dec(v.canary as nat),
        rows@[p].key is Some && rows@[p].key->0@ == prompt@ + "@v"@ + dec(v.production as nat),
    ensures
        r matches Some((i, j)) && i <= c && j <= p && rows@[i as int].key is Some && rows@[j as int].key is Some
            && rows@[i as int].key->0@ == rows@[c].key->0@ && rows@[j as int].key->0@ == rows@[p].key->0@,
{
    let a = filed_under(tag_of(prompt@, v.canary as nat));
    let b = filed_under(tag_of(prompt@, v.production as nat));
    assert(a(rows@[c]) && b(rows@[p]));
    crate::seqs::first_where_some(rows@, a, c);
    crate::seqs::first_where_some(rows@, b, p);
}

/// A label is moved back only where its policy asks for it, and then to the version it replaced.
pub proof fn a_label_goes_back_where_it_came_from(
    policy: &CanaryPolicy,
    previous: Option<u32>,
    r: Option<u32>,
    g: CanaryRegression,
    written: bool,
    after: CanaryRegression,
)
    requires
        call_ensures(revert_target, (policy, previous), r),
        call_ensures(CanaryRegression::after_revert, (g, written), after),
    ensures
        !policy.auto_revert ==> r is None,
        policy.auto_revert ==> r == previous,
        written ==> after == g,
        !written ==> after.reverted_to is None,
        after.versions == g.versions && after.drop == g.drop && after.prompt == g.prompt,
        after.project_id == g.project_id && after.canary_label == g.canary_label && after.production_label
            == g.production_label,
{
}

/// A prompt with a policy that holds is compared over the policy's own window up to now; one whose policy
/// cannot decide says why; one without a policy is left alone.
pub proof fn a_prompt_is_compared_over_its_window(
    policy: &Option<CanaryPolicy>,
    invalid: Option<String>,
    labels: &Vec<Label>,
    now: Timestamp,
    r: PromptStep,
    pol: &CanaryPolicy,
    v: Option<Versions>,
)
    requires
        now.valid(),
        *policy is Some ==> window_start(policy->0, now).valid(),
        call_ensures(prompt_step, (policy, invalid, labels, now), r),
        *policy is Some ==> *pol == policy->0,
        call_ensures(versions_to_compare, (pol, labels), v),
    ensures
        *policy is None ==> r is Idle,
        *policy is Some && invalid is Some ==> r == PromptStep::Unusable(invalid->0),
        *policy is Some && invalid is None && v is None ==> r is Idle,
        *policy is Some && invalid is None && v is Some ==> (r matches PromptStep::Compare(w, since) && w
            == v->0 && since.nanos + pol.window_secs * 1_000_000_000 == now.nanos),
{
}

/// A regression that is reported names its own project, prompt, labels, versions and rows, and says where
/// the label goes back to only where the policy asks for that.
pub proof fn a_regression_names_what_regressed(
    project: &str,
    prompt: &str,
    policy: &CanaryPolicy,
    v: Versions,
    rows: &Vec<ScoreSummary>,
    found: (usize, usize),
    drop: i64,
    previous: Option<u32>,
    canary: &ScoreSummary,
    production: &ScoreSummary,
    worse: bool,
    r: Option<CanaryRegression>,
)
    requires
        found.0 < rows@.len(),
        found.1 < rows@.len(),
        *canary == rows@[found.0 as int],
        *production == rows@[found.1 as int],
        call_ensures(regression, (policy, canary, production, drop), worse),
        call_ensures(judge_prompt, (project, prompt, policy, v, rows, found, drop, previous), r),
    ensures
        r is Some <==> worse,
        r is Some ==> {
            &&& r->0.project_id@ == project@ && r->0.prompt@ == prompt@
            &&& r->0.canary_label@ == policy.label@ && r->0.production_label@ == policy.production_label@
            &&& r->0.versions.canary == v.canary && r->0.versions.production == v.production
            &&& r->0.canary_row == found.0 && r->0.production_row == found.1
            &&& r->0.drop == drop && r->0.max_drop == policy.max_drop
            &&& r->0.reverted_to is Some ==> policy.auto_revert && r->0.reverted_to == previous
            &&& policy.auto_revert ==> r->0.reverted_to == previous
        },
{
}

/// A backend that cannot canary ends a pass and makes it come to that alone; otherwise a pass comes to as
/// many regressions as its prompts showed.
pub proof fn a_pass_comes_to_what_its_prompts_showed(
    v: &Vec<PromptOutcome>,
    r: ProjectOutcome,
    o: PromptOutcome,
    step: PassStep,
)
    requires
        call_ensures(project_pass, (v,), r),
        call_ensures(pass_step, (o,), step),
    ensures
        r is Unsupported <==> v@.contains(PromptOutcome::Unsupported),
        !(r is Failed),
        r matches ProjectOutcome::Found(n) ==> n == v@.filter(
            |x: PromptOutcome| x == PromptOutcome::Found,
        ).len(),
        step is Collect <==> o is Found,
        step is GoOn <==> o is Nothing,
        step is Stop <==> o is Unsupported,
        step is Warn <==> o is Failed,
{
    found_is_of_a_filter(v@);
    assert(v.len() as nat == v@.len());
}

proof fn found_is_of_a_filter(v: Seq<PromptOutcome>)
    ensures
        found_in(v) == v.filter(|x: PromptOutcome| x == PromptOutcome::Found).len(),
    decreases v.len(),
{
    reveal(Seq::filter);
    if v.len() > 0 {
        found_is_of_a_filter(v.drop_last());
    }
}

/// A sweep adds up the regressions it is told of, and warns of a backend that cannot canary once.
pub proof fn a_sweep_adds_up(s: Sweep, o: ProjectOutcome)
    requires
        o matches ProjectOutcome::Found(n) ==> s.raised + n <= u64::MAX,
    ensures
        o matches ProjectOutcome::Found(n) ==> s.after(o).raised == s.raised + n && s.note(o) is Notify
            && s.after(o).unsupported_warned == s.unsupported_warned,
        o is Failed ==> s.after(o) == s && s.note(o) is WarnProject,
        o is Unsupported ==> s.after(o).raised == s.raised && s.after(o).unsupported_warned && (s.note(
            o,
        ) is WarnUnsupported <==> !s.unsupported_warned) && (s.note(o) is Quiet
            <==> s.unsupported_warned),
{
}

} // verus!
