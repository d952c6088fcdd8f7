//! Whether a judge may be believed for a rubric, and when a project refuses to promote on one that may
//! not.
use vstd::prelude::*;

use crate::clock::{Timestamp, NANOS_PER_SEC};
use crate::dates::{date_text, show_date, FIRST_SECOND, LAST_SECOND};
use crate::error::{fails_with, ApiError, ErrorCode};
use crate::guards::NO_PROJECT_MSG;
use crate::projects::Project;
use crate::text::{
    blank, dec, has_within, pieces_stand, show_u64, strung, strung_on, trimmed_empty_iff_blank,
};

verus! {

/// A judge's latest measurement against people. The figures are given with three decimals.
#[derive(Debug)]
pub struct Calibration {
    pub judge: String,
    pub kappa: String,
    pub kappa_bar: String,
    pub n: u64,
    pub trusted: bool,
    pub created_at: Timestamp,
}

impl Calibration {
    /// Whether the measurement lies on the calendar.
    pub open spec fn dated(self) -> bool {
        FIRST_SECOND * NANOS_PER_SEC <= self.created_at.nanos < (LAST_SECOND + 1) * NANOS_PER_SEC
    }
}

/// Whether a judge may be believed. One that nobody measured has failed no check.
#[derive(Debug, Clone, Copy, PartialEq, Eq, Structural)]
pub enum JudgeTrust {
    Trusted,
    Untrusted,
    Unknown,
}

/// The trust that a measurement, or the lack of one, leads to.
pub open spec fn trust_from(c: Option<Calibration>) -> JudgeTrust {
    match c {
        Some(x) => if x.trusted {
            JudgeTrust::Trusted
        } else {
            JudgeTrust::Untrusted
        },
        None => JudgeTrust::Unknown,
    }
}

/// The trust that a measurement, or the lack of one, leads to.
pub fn trust_of(c: &Option<Calibration>) -> (r: JudgeTrust)
    ensures
        r == trust_from(*c),
{
    match c {
        Some(x) => if x.trusted {
            JudgeTrust::Trusted
        } else {
            JudgeTrust::Untrusted
        },
        None => JudgeTrust::Unknown,
    }
}

/// What is said of a judge that nobody measured.
pub const NEVER_CALIBRATED_MSG: &'static str = "the project requires a trusted judge, and this judge has never been calibrated for this rubric — run `lt-runner calibrate` against a labelled set first, or clear `require_trusted_judge` on the project";

/// What is said of a judge that failed its measurement.
pub open spec fn not_trusted_text(c: Calibration) -> Seq<char> {
    "the project requires a trusted judge, and '"@ + c.judge@
        + "' is not trusted for this rubric: κ "@ + c.kappa@ + " < "@ + c.kappa_bar@ + " over n="@
        + dec(c.n as nat) + " (measured "@ + date_text(
        (c.created_at.nanos as int / NANOS_PER_SEC as int) as i64,
    ) + ")"@
}

/// Why a promotion is refused over its judge; never where the project does not demand a trusted one,
/// and never where the judge is trusted.
pub open spec fn refusal_over_judge(require: bool, c: Option<Calibration>) -> Option<Seq<char>> {
    if !require {
        None
    } else {
        match c {
            Some(x) => if x.trusted {
                None
            } else {
                Some(not_trusted_text(x))
            },
            None => Some(NEVER_CALIBRATED_MSG@),
        }
    }
}

/// Whether a project demands a trusted judge; one that is not there demands nothing.
pub open spec fn demands_trust(project: Option<&Project>) -> bool {
    project is Some && project->0.require_trusted_judge
}

/// Whether the project's policy refuses to promote on this judge, and in which words.
pub fn policy_block(project: Option<&Project>, c: &Option<Calibration>) -> (r: Option<String>)
    requires
        c is Some ==> c->0.dated(),
    ensures
        match refusal_over_judge(demands_trust(project), *c) {
            None => r is None,
            Some(m) => r is Some && r->0@ == m,
        },
{
    let demanded = match project {
        Some(p) => p.require_trusted_judge,
        None => false,
    };
    if !demanded {
        return None;
    }
    match trust_of(c) {
        JudgeTrust::Trusted => None,
        _ => match c {
            Some(x) => {
                let n = show_u64(x.n);
                let d = show_date(x.created_at);
                let mut m = "the project requires a trusted judge, and '".to_owned();
                m.append(x.judge.as_str());
                m.append("' is not trusted for this rubric: κ ");
                m.append(x.kappa.as_str());
                m.append(" < ");
                m.append(x.kappa_bar.as_str());
                m.append(" over n=");
                m.append(n.as_str());
                m.append(" (measured ");
                m.append(d.as_str());
                m.append(")");
                Some(m)
            },
            None => Some(NEVER_CALIBRATED_MSG.to_owned()),
        },
    }
}

/// A trust question has to name a project and a judge.
pub fn check_trust_query(project: Option<String>, judge: &str) -> (r: Result<String, ApiError>)
    ensures
        match project {
            None => fails_with(r, ErrorCode::BadRequest, NO_PROJECT_MSG@),
            Some(p) => if blank(judge@) {
                fails_with(r, ErrorCode::BadRequest, "judge is required"@)
            } else {
                r == Ok::<String, ApiError>(p)
            },
        },
{
    match project {
        None => Err(ApiError::bad_request(NO_PROJECT_MSG)),
        Some(p) => {
            proof {
                trimmed_empty_iff_blank(judge@);
            }
            if judge.trim().is_empty() {
                Err(ApiError::bad_request("judge is required"))
            } else {
                Ok(p)
            }
        },
    }
}

/// The demand is off until a project turns it on, and a trusted judge is never refused.
pub proof fn trusted_or_undemanded_passes(require: bool, c: Option<Calibration>)
    requires
        !require || trust_from(c) == JudgeTrust::Trusted,
    ensures
        refusal_over_judge(require, c) is None,
{
}

/// Where a trusted judge is demanded, both one that failed and one that nobody measured are refused.
pub proof fn untrusted_and_unknown_are_refused(c: Option<Calibration>)
    requires
        trust_from(c) != JudgeTrust::Trusted,
    ensures
        refusal_over_judge(true, c) is Some,
{
}

/// A judge is trusted exactly where its measurement says so, distrusted where one says otherwise, and
/// unknown where there is none; a project that demands a trusted judge refuses every other, and one that
/// does not refuses none.
pub proof fn only_a_trusted_judge_passes_a_demand(
    c: &Option<Calibration>,
    t: JudgeTrust,
    project: Option<&Project>,
    r: Option<String>,
)
    requires
        c is Some ==> c->0.dated(),
        call_ensures(trust_of, (c,), t),
        call_ensures(policy_block, (project, c), r),
    ensures
        t is Trusted <==> *c is Some && c->0.trusted,
        t is Untrusted <==> *c is Some && !c->0.trusted,
        t is Unknown <==> *c is None,
        r is Some <==> project is Some && project->0.require_trusted_judge && !(t is Trusted),
        r is Some && t is Untrusted ==> has_within(
            r->0@,
            "the project requires a trusted judge, and '"@ + c->0.judge@,
        ) && has_within(r->0@, c->0.kappa@ + " < "@ + c->0.kappa_bar@) && has_within(
            r->0@,
            " over n="@ + dec(c->0.n as nat),
        ),
{
    if r is Some && *c is Some {
        let x = c->0;
        let v = strung_on(seq![], "the project requires a trusted judge, and '"@);
        let v = strung_on(v, x.judge@);
        let v = strung_on(v, "' is not trusted for this rubric: κ "@);
        let v = strung_on(v, x.kappa@);
        let v = strung_on(v, " < "@);
        let v = strung_on(v, x.kappa_bar@);
        let v = strung_on(v, " over n="@);
        let v = strung_on(v, dec(x.n as nat));
        let v = strung_on(v, " (measured "@);
        let v = strung_on(v, date_text((x.created_at.nanos as int / NANOS_PER_SEC as int) as i64));
        let v = strung_on(v, ")"@);
        assert(not_trusted_text(x) == strung(v));
        pieces_stand(v, 0);
        pieces_stand(v, 3);
        pieces_stand(v, 6);
    }
}

/// A trust question names a project and a judge, and is about that project.
pub proof fn a_trust_question_is_complete(project: Option<String>, judge: &str, r: Result<String, ApiError>)
    requires
        call_ensures(check_trust_query, (project, judge), r),
    ensures
        r is Ok <==> project is Some && !blank(judge@),
        r is Ok ==> r->Ok_0 == project->0,
        r is Err ==> r->Err_0.code is BadRequest,
{
}

} // verus!
