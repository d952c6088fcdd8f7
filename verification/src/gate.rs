//! The promotion gate: whether a label may be pointed at a version, and why not.
use vstd::prelude::*;

use crate::clock::Timestamp;
use crate::json::{uint_field, Json, JsonView, NumberView};
use crate::seqs::{first_where, first_where_none};
use crate::text::{dec, has_within, same, show_u64, stands_between};

verus! {

/// The report member in which a run records the prompt version it generated with.
pub const RESOLVED_PROMPT_VERSION: &'static str = "resolved_prompt_version";

/// A score as a promotion reads it: with three decimals, and whether it lies below the baseline by more
/// than rounding can explain.
#[derive(Debug)]
pub struct Figure {
    pub text: String,
    pub below: bool,
}

/// What was decided about a promotion.
#[derive(Debug)]
pub enum GateOutcome {
    Allow,
    AllowWithWarning(String),
    Block(String),
}

impl GateOutcome {
    /// The reason for a refusal.
    pub fn blocked(&self) -> (r: Option<&str>)
        ensures
            match *self {
                GateOutcome::Block(x) => r is Some && r->0@ == x@,
                _ => r is None,
            },
    {
        match self {
            GateOutcome::Block(x) => Some(x.as_str()),
            _ => None,
        }
    }

    /// What could not be checked.
    pub fn warning(&self) -> (r: Option<&str>)
        ensures
            match *self {
                GateOutcome::AllowWithWarning(x) => r is Some && r->0@ == x@,
                _ => r is None,
            },
    {
        match self {
            GateOutcome::AllowWithWarning(x) => Some(x.as_str()),
            _ => None,
        }
    }
}

/// A finished run of a benchmark.
#[derive(Debug)]
pub struct BenchmarkRun {
    pub status: String,
    pub finished_at: Option<Timestamp>,
    /// The run's mean score.
    pub mean: Option<Figure>,
    /// The upper bound of the confidence interval on the mean, see `ci95_upper`.
    pub ci_upper: Option<Figure>,
    pub report: Json,
}

/// What is known about the run that scored the version being promoted.
#[derive(Debug)]
pub struct GateEvidence {
    pub mean: Option<Figure>,
    pub ci_upper: Option<Figure>,
    pub runner_regressed: bool,
    /// Why the run never covered its whole case set.
    pub incomplete: Option<String>,
    /// The version the run generated with.
    pub resolved_version: Option<u32>,
}

/// Why a run with this status is incomplete.
pub open spec fn incompleteness(status: Seq<char>) -> Option<Seq<char>> {
    if status == "cancelled"@ {
        Some("cancelled"@)
    } else if status == "partial"@ {
        Some("halted by the run budget ceiling"@)
    } else if status == "aborted"@ {
        Some("aborted"@)
    } else {
        None
    }
}

/// Whether `e` is what `run` shows. A recorded number that no version has is no version.
pub open spec fn is_evidence(e: GateEvidence, run: BenchmarkRun) -> bool {
    &&& e.mean == run.mean
    &&& e.ci_upper == run.ci_upper
    &&& e.runner_regressed == (run.status@ == "regressed"@)
    &&& match incompleteness(run.status@) {
        Some(w) => e.incomplete is Some && e.incomplete->0@ == w,
        None => e.incomplete is None,
    }
    &&& e.resolved_version == (match uint_field(run.report@, RESOLVED_PROMPT_VERSION@) {
        Some(n) => if n <= u32::MAX {
            Some(n as u32)
        } else {
            None
        },
        None => None,
    })
}

fn copy_figure(f: &Option<Figure>) -> (r: Option<Figure>)
    ensures
        r == *f,
{
    match f {
        Some(x) => Some(Figure { text: x.text.clone(), below: x.below }),
        None => None,
    }
}

/// Whether a report holds an upper confidence bound: the second item of its `ci95` list, where that
/// is a number.
pub open spec fn upper_bound_of(report: JsonView) -> Option<NumberView> {
    match crate::json::field(report, "ci95"@) {
        Some(JsonView::Arr(v)) => if v.len() > 1 {
            match v[1] {
                JsonView::Num(n) => Some(n),
                _ => None,
            }
        } else {
            None
        },
        _ => None,
    }
}

/// The upper confidence bound a report records.
pub fn ci95_upper(report: &Json) -> (r: Option<&crate::json::Number>)
    ensures
        match r {
            Some(n) => upper_bound_of(report@) == Some(n@),
            None => upper_bound_of(report@) is None,
        },
{
    match report.get("ci95") {
        Some(Json::Arr(v)) => {
            proof {
                crate::json::arr_view(*v);
            }
            if v.len() > 1 {
                assert(crate::json::item_views(v@)[1] == v@[1]@);
                match &v[1] {
                    Json::Num(n) => Some(n),
                    _ => None,
                }
            } else {
                None
            }
        },
        _ => None,
    }
}

/// Reads the evidence out of a run.
pub fn evidence_of(run: &BenchmarkRun) -> (r: GateEvidence)
    ensures
        is_evidence(r, *run),
{
    let s = run.status.as_str();
    GateEvidence {
        mean: copy_figure(&run.mean),
        ci_upper: copy_figure(&run.ci_upper),
        runner_regressed: same(s, "regressed"),
        incomplete: if same(s, "cancelled") {
            Some("cancelled".to_owned())
        } else if same(s, "partial") {
            Some("halted by the run budget ceiling".to_owned())
        } else if same(s, "aborted") {
            Some("aborted".to_owned())
        } else {
            None
        },
        resolved_version: match run.report.get_u64(RESOLVED_PROMPT_VERSION) {
            Some(n) => if n <= u32::MAX as u64 {
                Some(n as u32)
            } else {
                None
            },
            None => None,
        },
    }
}

/// A run whose report says that it scored `version` of `prompt`.
pub open spec fn tagged(prompt: Seq<char>, version: u32) -> spec_fn(BenchmarkRun) -> bool {
    |r: BenchmarkRun|
        crate::json::text_field(r.report@, "prompt_id"@) == Some(prompt) && uint_field(
            r.report@,
            "prompt_version"@,
        ) == Some(version as u64)
}

/// A run with a mean.
pub open spec fn scored() -> spec_fn(BenchmarkRun) -> bool {
    |r: BenchmarkRun| r.mean is Some
}

/// Whether a run that ended at `a` ended no later than one that ended at `b`; a run without an end
/// counts as earliest.
pub open spec fn ended_no_later(a: Option<Timestamp>, b: Option<Timestamp>) -> bool {
    match (a, b) {
        (None, _) => true,
        (Some(_), None) => false,
        (Some(x), Some(y)) => x.nanos <= y.nanos,
    }
}

/// Whether the run at `i` counts as no later than the one at `j`: it ended earlier, or at once with it
/// and is listed no later.
pub open spec fn no_later(runs: Seq<BenchmarkRun>, i: int, j: int) -> bool {
    if i <= j {
        ended_no_later(runs[i].finished_at, runs[j].finished_at)
    } else {
        !ended_no_later(runs[j].finished_at, runs[i].finished_at)
    }
}

/// Whether the run at `c` is the newest scored run of the version.
pub open spec fn newest_of_version(
    runs: Seq<BenchmarkRun>,
    prompt: Seq<char>,
    version: u32,
    c: int,
) -> bool {
    &&& 0 <= c < runs.len()
    &&& tagged(prompt, version)(runs[c])
    &&& scored()(runs[c])
    &&& forall|j: int|
        0 <= j < runs.len() && tagged(prompt, version)(#[trigger] runs[j]) && scored()(runs[j])
            ==> no_later(runs, j, c)
}

/// Whether the run at `c` is the newest scored run of any version; among equals, the first listed.
pub open spec fn newest_of_any(runs: Seq<BenchmarkRun>, c: int) -> bool {
    &&& 0 <= c < runs.len()
    &&& scored()(runs[c])
    &&& forall|j: int|
        0 <= j < runs.len() && scored()(#[trigger] runs[j]) ==> if j < c {
            !ended_no_later(runs[c].finished_at, runs[j].finished_at)
        } else {
            ended_no_later(runs[j].finished_at, runs[c].finished_at)
        }
}

/// Whether `r` is the position of the run that counts as evidence: the newest scored run of the
/// version where any run is tagged with it, else the newest scored run of any.
pub open spec fn evidence_run(
    runs: Seq<BenchmarkRun>,
    prompt: Seq<char>,
    version: u32,
    r: Option<int>,
) -> bool {
    if first_where(runs, tagged(prompt, version)) is None {
        match r {
            Some(c) => newest_of_any(runs, c),
            None => forall|j: int| 0 <= j < runs.len() ==> !scored()(#[trigger] runs[j]),
        }
    } else {
        match r {
            Some(c) => newest_of_version(runs, prompt, version, c),
            None => forall|j: int|
                0 <= j < runs.len() && tagged(prompt, version)(#[trigger] runs[j]) ==> !scored()(
                    runs[j],
                ),
        }
    }
}

fn no_later_end(a: Option<Timestamp>, b: Option<Timestamp>) -> (r: bool)
    ensures
        r == ended_no_later(a, b),
{
    match (a, b) {
        (None, _) => true,
        (Some(_), None) => false,
        (Some(x), Some(y)) => x.nanos <= y.nanos,
    }
}

/// The position of the run that counts as evidence for a version.
pub fn version_scored_at(runs: &Vec<BenchmarkRun>, prompt_id: &str, version: u32) -> (r: Option<usize>)
    ensures
        evidence_run(
            runs@,
            prompt_id@,
            version,
            match r {
                Some(i) => Some(i as int),
                None => None,
            },
        ),
        r is Some ==> r->0 < runs@.len(),
{
    let ghost t = tagged(prompt_id@, version);
    let mut any = false;
    let mut best: Option<usize> = None;
    let mut i: usize = 0;
    while i < runs.len()
        invariant
            i <= runs.len(),
            t == tagged(prompt_id@, version),
            any <==> exists|j: int| 0 <= j < i && t(#[trigger] runs@[j]),
            best is None ==> forall|j: int|
                0 <= j < i && t(#[trigger] runs@[j]) ==> !scored()(runs@[j]),
            best is Some ==> {
                &&& best->0 < i
                &&& t(runs@[best->0 as int])
                &&& scored()(runs@[best->0 as int])
                &&& forall|j: int|
                    0 <= j < i && t(#[trigger] runs@[j]) && scored()(runs@[j]) ==> no_later(
                        runs@,
                        j,
                        best->0 as int,
                    )
            },
        decreases runs.len() - i,
    {
        let x = &runs[i];
        let hit = match (x.report.get_str("prompt_id"), x.report.get_u64("prompt_version")) {
            (Some(p), Some(v)) => same(p, prompt_id) && v == version as u64,
            _ => false,
        };
        assert(hit == t(runs@[i as int]));
        if hit {
            any = true;
            if x.mean.is_some() {
                best = match best {
                    None => Some(i),
                    Some(b) => if no_later_end(runs[b].finished_at, x.finished_at) {
                        Some(i)
                    } else {
                        Some(b)
                    },
                };
            }
        }
        i += 1;
    }
    if any {
        proof {
            let j = choose|j: int| 0 <= j < i && t(#[trigger] runs@[j]);
            crate::seqs::first_where_some(runs@, t, j);
        }
        return best;
    }
    proof {
        first_where_none(runs@, t);
    }
    let mut newest: Option<usize> = None;
    let mut k: usize = 0;
    while k < runs.len()
        invariant
            k <= runs.len(),
            newest is None ==> forall|j: int| 0 <= j < k ==> !scored()(#[trigger] runs@[j]),
            newest is Some ==> newest->0 < k && newest_of_any(runs@.take(k as int), newest->0 as int),
        decreases runs.len() - k,
    {
        let ghost seen = runs@.take(k as int);
        assert(runs@.take(k + 1) =~= seen.push(runs@[k as int]));
        if runs[k].mean.is_some() {
            newest = match newest {
                None => Some(k),
                Some(b) => if no_later_end(runs[k].finished_at, runs[b].finished_at) {
                    Some(b)
                } else {
                    Some(k)
                },
            };
        }
        k += 1;
    }
    assert(runs@.take(k as int) =~= runs@);
    newest
}

/// The evidence of the run that counts for a version.
pub fn version_scored_run(runs: &Vec<BenchmarkRun>, prompt_id: &str, version: u32) -> (r: Option<
    GateEvidence,
>)
    ensures
        match r {
            None => evidence_run(runs@, prompt_id@, version, None),
            Some(e) => exists|i: int|
                0 <= i < runs@.len() && evidence_run(runs@, prompt_id@, version, Some(i))
                    && is_evidence(e, #[trigger] runs@[i]),
        },
{
    match version_scored_at(runs, prompt_id, version) {
        Some(i) => {
            let e = evidence_of(&runs[i]);
            assert(is_evidence(e, runs@[i as int]));
            Some(e)
        },
        None => None,
    }
}

/// Why the run does not show what the version does: there is none, or it generated with something
/// else, or it does not say with what.
pub open spec fn resolution_fault(latest: Option<GateEvidence>, promoting: u32) -> Option<Seq<char>> {
    let p = dec(promoting as nat);
    match latest {
        None => Some(
            "promotion blocked: the linked benchmark has no run that scored version "@ + p
                + " yet (run it before promoting, or pass force=true)"@,
        ),
        Some(ev) => match ev.resolved_version {
            Some(v) => if v == promoting {
                None
            } else {
                Some(
                    "promotion blocked: the benchmark run backing this promotion generated with prompt version "@
                        + dec(v as nat) + ", not the version "@ + p
                        + " being promoted — its score is evidence about different content (re-run the benchmark for v"@
                        + p + ", or pass force=true)"@,
                )
            },
            None => Some(
                "promotion blocked: the benchmark run backing this promotion reports no `"@
                    + RESOLVED_PROMPT_VERSION@ + "`, so it never fetched version "@ + p
                    + "'s content and its score says nothing about it. Re-run the benchmark with a worker that resolves prompt refs, or pass force=true."@,
            ),
        },
    }
}

fn resolution_refusal(latest: &Option<GateEvidence>, promoting: u32) -> (r: Option<String>)
    ensures
        match r {
            Some(m) => resolution_fault(*latest, promoting) == Some(m@),
            None => resolution_fault(*latest, promoting) is None,
        },
{
    let p = show_u64(promoting as u64);
    match latest {
        None => {
            let mut m =
                "promotion blocked: the linked benchmark has no run that scored version ".to_owned();
            m.append(p.as_str());
            m.append(" yet (run it before promoting, or pass force=true)");
            Some(m)
        },
        Some(ev) => match ev.resolved_version {
            Some(v) => {
                if v == promoting {
                    return None;
                }
                let w = show_u64(v as u64);
                let mut m =
                    "promotion blocked: the benchmark run backing this promotion generated with prompt version ".to_owned();
                m.append(w.as_str());
                m.append(", not the version ");
                m.append(p.as_str());
                m.append(
                    " being promoted — its score is evidence about different content (re-run the benchmark for v",
                );
                m.append(p.as_str());
                m.append(", or pass force=true)");
                Some(m)
            },
            None => {
                let mut m =
                    "promotion blocked: the benchmark run backing this promotion reports no `".to_owned();
                m.append(RESOLVED_PROMPT_VERSION);
                m.append("`, so it never fetched version ");
                m.append(p.as_str());
                m.append(
                    "'s content and its score says nothing about it. Re-run the benchmark with a worker that resolves prompt refs, or pass force=true.",
                );
                Some(m)
            },
        },
    }
}

/// How an unscored version is refused.
pub const UNSCORED_MSG: &'static str = "promotion blocked: linked benchmark has no scored run yet (run it before promoting, or pass force=true)";

/// Why the score is not good enough. Without a baseline there is nothing to compare against.
pub open spec fn regression_fault(
    latest: Option<GateEvidence>,
    baseline: Option<String>,
) -> Option<Seq<char>> {
    if baseline is None {
        None
    } else if latest is None || latest->0.mean is None {
        Some(UNSCORED_MSG@)
    } else {
        let ev = latest->0;
        let mean = ev.mean->0;
        let base = baseline->0@;
        if ev.runner_regressed {
            Some(
                "promotion blocked: the benchmark run that scored this version reported status 'regressed' (mean "@
                    + mean.text@ + " vs baseline "@ + base + ") (pass force=true to override)"@,
            )
        } else if ev.incomplete is Some {
            Some(
                "promotion blocked: the benchmark run that scored this version is incomplete ("@
                    + ev.incomplete->0@ + ") — its mean "@ + mean.text@
                    + " covers only the cases that ran (pass force=true to override, or re-run the benchmark to completion)"@,
            )
        } else if ev.ci_upper is Some {
            if ev.ci_upper->0.below {
                Some(
                    "promotion blocked: benchmark mean "@ + mean.text@ + " (95% CI upper "@
                        + ev.ci_upper->0.text@ + ") is significantly below baseline "@ + base
                        + " (pass force=true to override)"@,
                )
            } else {
                None
            }
        } else if mean.below {
            Some(
                "promotion blocked: benchmark mean "@ + mean.text@ + " regressed below baseline "@
                    + base
                    + " (no confidence interval recorded — scalar compare) (pass force=true to override)"@,
            )
        } else {
            None
        }
    }
}

fn regression_refusal(latest: &Option<GateEvidence>, baseline: &Option<String>) -> (r: Option<String>)
    ensures
        match r {
            Some(m) => regression_fault(*latest, *baseline) == Some(m@),
            None => regression_fault(*latest, *baseline) is None,
        },
{
    let base = match baseline {
        Some(b) => b.as_str(),
        None => {
            return None;
        },
    };
    let ev = match latest {
        Some(e) => e,
        None => {
            return Some(UNSCORED_MSG.to_owned());
        },
    };
    let mean = match &ev.mean {
        Some(m) => m,
        None => {
            return Some(UNSCORED_MSG.to_owned());
        },
    };
    if ev.runner_regressed {
        let mut m =
            "promotion blocked: the benchmark run that scored this version reported status 'regressed' (mean ".to_owned();
        m.append(mean.text.as_str());
        m.append(" vs baseline ");
        m.append(base);
        m.append(") (pass force=true to override)");
        return Some(m);
    }
    if let Some(why) = &ev.incomplete {
        let mut m =
            "promotion blocked: the benchmark run that scored this version is incomplete (".to_owned();
        m.append(why.as_str());
        m.append(") — its mean ");
        m.append(mean.text.as_str());
        m.append(
            " covers only the cases that ran (pass force=true to override, or re-run the benchmark to completion)",
        );
        return Some(m);
    }
    match &ev.ci_upper {
        Some(u) => {
            if !u.below {
                return None;
            }
            let mut m = "promotion blocked: benchmark mean ".to_owned();
            m.append(mean.text.as_str());
            m.append(" (95% CI upper ");
            m.append(u.text.as_str());
            m.append(") is significantly below baseline ");
            m.append(base);
            m.append(" (pass force=true to override)");
            Some(m)
        },
        None => {
            if !mean.below {
                return None;
            }
            let mut m = "promotion blocked: benchmark mean ".to_owned();
            m.append(mean.text.as_str());
            m.append(" regressed below baseline ");
            m.append(base);
            m.append(
                " (no confidence interval recorded — scalar compare) (pass force=true to override)",
            );
            Some(m)
        },
    }
}

/// What is said of a promotion whose benchmark cannot show what the version does.
pub open spec fn advisory_text(promoting: u32) -> Seq<char> {
    "promoted without a resolved-version check: the linked benchmark has no target with a `prompt_ref`, so its runs generate from each target's stored `system_prompt` and cannot certify version "@
        + dec(promoting as nat)
        + "'s content. Add a `prompt_ref` to the benchmark's targets to gate on what actually ran."@
}

/// What is decided: an untrusted judge blocks even a forced promotion; `force` overrides all
/// else; then the run has to have generated with the version, where the benchmark can show that;
/// then the score has to be good enough; and where the benchmark cannot show it, a warning goes
/// along.
pub open spec fn decides(
    r: GateOutcome,
    latest: Option<GateEvidence>,
    baseline: Option<String>,
    force: bool,
    promoting: u32,
    resolvable: bool,
    trust_refusal: Option<String>,
) -> bool {
    if trust_refusal is Some {
        r is Block && r->Block_0@ == trust_refusal->0@
    } else if force {
        r is Allow
    } else if resolvable && resolution_fault(latest, promoting) is Some {
        r is Block && r->Block_0@ == resolution_fault(latest, promoting)->0
    } else if regression_fault(latest, baseline) is Some {
        r is Block && r->Block_0@ == regression_fault(latest, baseline)->0
    } else if resolvable {
        r is Allow
    } else {
        r is AllowWithWarning && r->AllowWithWarning_0@ == advisory_text(promoting)
    }
}

/// Decides whether a label may be pointed at the version.
pub fn gate_promotion(
    latest: &Option<GateEvidence>,
    baseline: &Option<String>,
    force: bool,
    promoting: u32,
    resolvable: bool,
    trust_refusal: &Option<String>,
) -> (r: GateOutcome)
    ensures
        decides(r, *latest, *baseline, force, promoting, resolvable, *trust_refusal),
{
    if let Some(reason) = trust_refusal {
        return GateOutcome::Block(reason.clone());
    }
    if force {
        return GateOutcome::Allow;
    }
    if resolvable {
        if let Some(reason) = resolution_refusal(latest, promoting) {
            return GateOutcome::Block(reason);
        }
    }
    if let Some(reason) = regression_refusal(latest, baseline) {
        return GateOutcome::Block(reason);
    }
    if resolvable {
        return GateOutcome::Allow;
    }
    let p = show_u64(promoting as u64);
    let mut m =
        "promoted without a resolved-version check: the linked benchmark has no target with a `prompt_ref`, so its runs generate from each target's stored `system_prompt` and cannot certify version ".to_owned();
    m.append(p.as_str());
    m.append(
        "'s content. Add a `prompt_ref` to the benchmark's targets to gate on what actually ran.",
    );
    GateOutcome::AllowWithWarning(m)
}

/// Where the benchmark resolves the prompt, an unforced promotion passes only on a run that
/// generated with the very version being promoted.
pub proof fn only_its_own_run_certifies_a_version(
    r: GateOutcome,
    latest: Option<GateEvidence>,
    baseline: Option<String>,
    promoting: u32,
)
    requires
        decides(r, latest, baseline, false, promoting, true, None),
        !(r is Block),
    ensures
        latest is Some,
        latest->0.resolved_version == Some(promoting),
{
}

/// A run that the runner called regressed, or that did not finish, never promotes unforced once
/// there is a baseline.
pub proof fn a_bad_run_never_promotes(
    r: GateOutcome,
    ev: GateEvidence,
    baseline: Option<String>,
    promoting: u32,
    resolvable: bool,
)
    requires
        decides(r, Some(ev), baseline, false, promoting, resolvable, None),
        baseline is Some,
        ev.runner_regressed || ev.incomplete is Some,
    ensures
        r is Block,
{
}

/// Force never overrides a project's demand for a trusted judge.
pub proof fn force_does_not_override_trust(
    r: GateOutcome,
    latest: Option<GateEvidence>,
    baseline: Option<String>,
    promoting: u32,
    resolvable: bool,
    refusal: String,
)
    requires
        decides(r, latest, baseline, true, promoting, resolvable, Some(refusal)),
    ensures
        r is Block,
{
}

// ------------------------------------------------------------------ promotions decided on runs

/// A run that was cancelled, halted at its budget, aborted, or found to have regressed never promotes
/// unforced once there is a baseline, whatever its score and whatever the benchmark can show.
pub proof fn a_run_that_did_not_hold_up_never_promotes(
    run: &BenchmarkRun,
    ev: GateEvidence,
    latest: &Option<GateEvidence>,
    baseline: &Option<String>,
    promoting: u32,
    resolvable: bool,
    trust_refusal: &Option<String>,
    r: GateOutcome,
)
    requires
        run.status@ == "cancelled"@ || run.status@ == "partial"@ || run.status@ == "aborted"@
            || run.status@ == "regressed"@,
        call_ensures(evidence_of, (run,), ev),
        *latest == Some(ev),
        *baseline is Some,
        call_ensures(gate_promotion, (latest, baseline, false, promoting, resolvable, trust_refusal), r),
    ensures
        r is Block,
{
    status_words_differ();
}

/// A run that finished is judged by its score alone: by the upper bound of its interval where it has
/// one, by its mean where it has none.
pub proof fn a_finished_run_is_judged_by_its_score(
    run: &BenchmarkRun,
    ev: GateEvidence,
    latest: &Option<GateEvidence>,
    baseline: &Option<String>,
    promoting: u32,
    resolvable: bool,
    trust_refusal: &Option<String>,
    r: GateOutcome,
)
    requires
        run.status@ != "cancelled"@ && run.status@ != "partial"@ && run.status@ != "aborted"@
            && run.status@ != "regressed"@,
        call_ensures(evidence_of, (run,), ev),
        *latest == Some(ev),
        *baseline is Some,
        *trust_refusal is None,
        resolvable ==> uint_field(run.report@, "resolved_prompt_version"@) == Some(promoting as u64),
        call_ensures(gate_promotion, (latest, baseline, false, promoting, resolvable, trust_refusal), r),
    ensures
        run.mean is None ==> r is Block,
        run.mean is Some && run.ci_upper is Some ==> (r is Block <==> run.ci_upper->0.below),
        run.mean is Some && run.ci_upper is None ==> (r is Block <==> run.mean->0.below),
        !(r is Block) ==> (r is Allow <==> resolvable),
{
}

/// Where the benchmark resolves the prompt, an unforced promotion takes a run whose report names the
/// very version that is promoted; and without a run it is refused.
pub proof fn a_promotion_takes_a_run_of_its_version(
    run: &BenchmarkRun,
    ev: GateEvidence,
    latest: &Option<GateEvidence>,
    baseline: &Option<String>,
    promoting: u32,
    trust_refusal: &Option<String>,
    r: GateOutcome,
)
    requires
        call_ensures(evidence_of, (run,), ev),
        *latest is None || *latest == Some(ev),
        call_ensures(gate_promotion, (latest, baseline, false, promoting, true, trust_refusal), r),
    ensures
        *latest is None ==> r is Block,
        uint_field(run.report@, "resolved_prompt_version"@) != Some(promoting as u64) ==> r is Block,
        *latest == Some(ev) && *trust_refusal is None && *baseline is None && uint_field(
            run.report@,
            "resolved_prompt_version"@,
        ) == Some(promoting as u64) ==> r is Allow,
{
}

/// Force overrides everything but distrust of the judge, and distrust overrides everything.
pub proof fn force_overrides_all_but_distrust(
    latest: &Option<GateEvidence>,
    baseline: &Option<String>,
    force: bool,
    promoting: u32,
    resolvable: bool,
    trust_refusal: &Option<String>,
    r: GateOutcome,
)
    requires
        call_ensures(gate_promotion, (latest, baseline, force, promoting, resolvable, trust_refusal), r),
    ensures
        *trust_refusal is Some ==> r is Block && r->Block_0@ == trust_refusal->0@,
        *trust_refusal is None && force ==> r is Allow,
        *trust_refusal is None && !force && !resolvable && *baseline is None ==> r is AllowWithWarning,
        *trust_refusal is None && !force && *latest is None && *baseline is Some ==> r is Block,
{
}

/// Which reason is given: the words of a refused promotion quote the run's own figures and the reason
/// why it is incomplete.
pub proof fn a_refusal_quotes_the_run(
    run: &BenchmarkRun,
    ev: GateEvidence,
    latest: &Option<GateEvidence>,
    baseline: &Option<String>,
    promoting: u32,
    trust_refusal: &Option<String>,
    r: GateOutcome,
)
    requires
        call_ensures(evidence_of, (run,), ev),
        *latest == Some(ev),
        *baseline is Some,
        *trust_refusal is None,
        run.mean is Some,
        call_ensures(gate_promotion, (latest, baseline, false, promoting, false, trust_refusal), r),
    ensures
        run.status@ == "cancelled"@ ==> r is Block && has_within(r->Block_0@, "incomplete (cancelled"@),
        run.status@ == "partial"@ ==> r is Block && has_within(
            r->Block_0@,
            "incomplete (halted by the run budget ceiling"@,
        ),
        run.status@ == "aborted"@ ==> r is Block && has_within(r->Block_0@, "incomplete (aborted"@),
        run.status@ == "regressed"@ ==> r is Block && has_within(
            r->Block_0@,
            "status 'regressed' (mean "@ + run.mean->0.text@ + " vs baseline "@ + baseline->0@,
        ),
{
    status_words_differ();
    let mean = run.mean->0.text@;
    if run.status@ == "regressed"@ {
        let h = "promotion blocked: the benchmark run that scored this version reported "@;
        let w = "status 'regressed' (mean "@;
        let whole = "promotion blocked: the benchmark run that scored this version reported status 'regressed' (mean "@;
        reveal_strlit(
            "promotion blocked: the benchmark run that scored this version reported status 'regressed' (mean ",
        );
        reveal_strlit("promotion blocked: the benchmark run that scored this version reported ");
        reveal_strlit("status 'regressed' (mean ");
        assert(whole =~= h + w);
        let p = w + mean + " vs baseline "@ + baseline->0@;
        stands_between(h, p, ") (pass force=true to override)"@);
        assert(r->Block_0@ =~= h + p + ") (pass force=true to override)"@);
    } else if ev.incomplete is Some {
        let whole = "promotion blocked: the benchmark run that scored this version is incomplete ("@;
        let h = "promotion blocked: the benchmark run that scored this version is "@;
        reveal_strlit("promotion blocked: the benchmark run that scored this version is incomplete (");
        reveal_strlit("promotion blocked: the benchmark run that scored this version is ");
        reveal_strlit("incomplete (");
        reveal_strlit("incomplete (cancelled");
        reveal_strlit("incomplete (halted by the run budget ceiling");
        reveal_strlit("incomplete (aborted");
        reveal_strlit("halted by the run budget ceiling");
        reveal_strlit("cancelled");
        reveal_strlit("aborted");
        assert(whole =~= h + "incomplete ("@);
        let p = "incomplete ("@ + ev.incomplete->0@;
        let t = ") — its mean "@ + mean
            + " covers only the cases that ran (pass force=true to override, or re-run the benchmark to completion)"@;
        stands_between(h, p, t);
        assert(r->Block_0@ =~= h + p + t);
        if run.status@ == "cancelled"@ {
            assert(p =~= "incomplete (cancelled"@);
        }
        if run.status@ == "partial"@ {
            assert(p =~= "incomplete (halted by the run budget ceiling"@);
        }
        if run.status@ == "aborted"@ {
            assert(p =~= "incomplete (aborted"@);
        }
    }
}

proof fn status_words_differ()
    ensures
        "cancelled"@ != "partial"@,
        "cancelled"@ != "aborted"@,
        "cancelled"@ != "regressed"@,
        "partial"@ != "aborted"@,
        "partial"@ != "regressed"@,
        "aborted"@ != "regressed"@,
{
    reveal_strlit("cancelled");
    reveal_strlit("partial");
    reveal_strlit("aborted");
    reveal_strlit("regressed");
    assert("cancelled"@[0] == 'c' && "partial"@[0] == 'p' && "aborted"@[0] == 'a' && "regressed"@[0]
        == 'r');
}

/// Whether a run scored `version` of `prompt`, as its report says.
pub open spec fn scored_version(run: BenchmarkRun, prompt: Seq<char>, version: u32) -> bool {
    &&& crate::json::text_field(run.report@, "prompt_id"@) == Some(prompt)
    &&& uint_field(run.report@, "prompt_version"@) == Some(version as u64)
}

/// The run that counts is scored; it is the version's own wherever any run is; no run of the version
/// that is scored ended after it; and where one that is scored exists, one counts.
pub proof fn the_newest_scored_run_counts(
    runs: &Vec<BenchmarkRun>,
    prompt: &str,
    version: u32,
    r: Option<usize>,
    j: int,
)
    requires
        call_ensures(version_scored_at, (runs, prompt, version), r),
        0 <= j < runs@.len(),
        runs@[j].mean is Some,
    ensures
        r is Some ==> r->0 < runs@.len() && runs@[r->0 as int].mean is Some,
        scored_version(runs@[j], prompt@, version) ==> {
            &&& r is Some
            &&& scored_version(runs@[r->0 as int], prompt@, version)
            &&& runs@[j].finished_at is Some ==> runs@[r->0 as int].finished_at is Some
                && runs@[j].finished_at->0.nanos <= runs@[r->0 as int].finished_at->0.nanos
        },
        (forall|k: int| 0 <= k < runs@.len() ==> !scored_version(#[trigger] runs@[k], prompt@, version))
            ==> {
            &&& r is Some
            &&& runs@[j].finished_at is Some ==> runs@[r->0 as int].finished_at is Some
                && runs@[j].finished_at->0.nanos <= runs@[r->0 as int].finished_at->0.nanos
        },
{
    let t = tagged(prompt@, version);
    assert(forall|k: int|
        0 <= k < runs@.len() ==> t(#[trigger] runs@[k]) == scored_version(runs@[k], prompt@, version));
    if scored_version(runs@[j], prompt@, version) {
        crate::seqs::first_where_some(runs@, t, j);
    }
    if forall|k: int| 0 <= k < runs@.len() ==> !scored_version(#[trigger] runs@[k], prompt@, version) {
        first_where_none(runs@, t);
    }
    assert(scored()(runs@[j]));
}

/// The upper bound that a report records is the second figure of its `ci95`, and no other.
pub proof fn the_upper_bound_is_the_second(report: &Json, r: Option<&crate::json::Number>, v: Seq<JsonView>)
    requires
        call_ensures(ci95_upper, (report,), r),
        crate::json::field(report@, "ci95"@) == Some(JsonView::Arr(v)),
    ensures
        v.len() < 2 ==> r is None,
        v.len() >= 2 && v[1] is Num ==> r is Some && JsonView::Num(r->0@) == v[1],
        v.len() >= 2 && !(v[1] is Num) ==> r is None,
{
}

/// An outcome blocks or warns, never both, and quotes its own reason.
pub proof fn an_outcome_quotes_its_reason(o: &GateOutcome, b: Option<&str>, w: Option<&str>)
    requires
        call_ensures(GateOutcome::blocked, (o,), b),
        call_ensures(GateOutcome::warning, (o,), w),
    ensures
        b is None || w is None,
        b is Some <==> *o is Block,
        w is Some <==> *o is AllowWithWarning,
        o matches GateOutcome::Block(x) ==> b->0@ == x@,
        o matches GateOutcome::AllowWithWarning(x) ==> w->0@ == x@,
{
}

/// Of runs that ended at once, the last listed counts among those of the version, and the first listed
/// where no run is of it.
pub proof fn runs_that_ended_at_once_are_told_apart(
    runs: &Vec<BenchmarkRun>,
    prompt: &str,
    version: u32,
    r: Option<usize>,
    j: int,
)
    requires
        call_ensures(version_scored_at, (runs, prompt, version), r),
        0 <= j < runs@.len(),
        runs@[j].mean is Some,
        r is Some,
        runs@[j].finished_at == runs@[r->0 as int].finished_at,
    ensures
        scored_version(runs@[j], prompt@, version) ==> j <= r->0,
        (forall|k: int| 0 <= k < runs@.len() ==> !scored_version(#[trigger] runs@[k], prompt@, version))
            ==> r->0 <= j,
{
    let t = tagged(prompt@, version);
    assert(forall|k: int|
        0 <= k < runs@.len() ==> t(#[trigger] runs@[k]) == scored_version(runs@[k], prompt@, version));
    if scored_version(runs@[j], prompt@, version) {
        crate::seqs::first_where_some(runs@, t, j);
    }
    if forall|k: int| 0 <= k < runs@.len() ==> !scored_version(#[trigger] runs@[k], prompt@, version) {
        first_where_none(runs@, t);
    }
    assert(scored()(runs@[j]));
}

} // verus!
