//! People's verdicts: who may write one, and how a graded call becomes a case.
use vstd::prelude::*;

use crate::auth::{Principal, Scope};
use crate::clock::Timestamp;
use crate::datasets::{ensure_open, json_opt, Dataset, DatasetItem};
use crate::error::{fails_with, ApiError, ErrorCode};
use crate::guards::{ensure_scope, missing_scope_text};
use crate::json::{copy_json, Json, JsonView};
use crate::query::event_not_found_text;
use crate::seqs::{first_where, first_where_is, first_where_none};
use crate::text::{blank, clone_opt, same, trimmed_empty_iff_blank};
use crate::wire::{compact_text, json_text};

verus! {

/// What a verdict is about.
#[derive(Debug)]
pub enum LabelSubject {
    Event(String),
    DatasetItem(String),
    Score(String),
}

/// A person's verdict. The grade is given as it is written.
#[derive(Debug)]
pub struct Label {
    pub id: String,
    pub project_id: String,
    pub subject: LabelSubject,
    pub rubric_id: Option<String>,
    pub value: String,
    pub pass: Option<bool>,
    pub dimensions: Json,
    pub labeler: String,
    pub note: Option<String>,
    pub created_at: Timestamp,
}

/// Which project a verdict is written to: a key's own, where it may manage; for an operator the one that
/// is named.
pub fn write_project(p: &Principal, body_project: Option<&str>) -> (r: Result<String, ApiError>)
    ensures
        match *p {
            Principal::Project { project_id, scopes, .. } => {
                if !scopes@.contains(Scope::Manage) {
                    fails_with(r, ErrorCode::Forbidden, missing_scope_text(Scope::Manage))
                } else if body_project is Some && body_project->0@ != project_id@ {
                    fails_with(r, ErrorCode::Forbidden, "key not authorized for that project"@)
                } else {
                    r is Ok && r->Ok_0@ == project_id@
                }
            },
            _ => match body_project {
                Some(b) => r is Ok && r->Ok_0@ == b@,
                None => fails_with(
                    r,
                    ErrorCode::BadRequest,
                    "project_id is required with an admin key"@,
                ),
            },
        },
{
    match p {
        Principal::Project { project_id, .. } => {
            match ensure_scope(p, Scope::Manage) {
                Err(e) => {
                    return Err(e);
                },
                Ok(_) => {},
            }
            if let Some(b) = body_project {
                if !same(b, project_id.as_str()) {
                    return Err(ApiError::forbidden("key not authorized for that project"));
                }
            }
            Ok(project_id.clone())
        },
        _ => match body_project {
            Some(b) => Ok(b.to_owned()),
            None => Err(ApiError::bad_request("project_id is required with an admin key")),
        },
    }
}

/// How a subject that says nothing is refused.
pub const BAD_SUBJECT_MSG: &'static str = "subject must be '<kind>:<id>' with kind one of event, dataset_item, score";

/// How a verdict without a name is refused.
pub const NO_LABELER_MSG: &'static str = "labeler is required: a human verdict with no attribution cannot be audited";

/// A verdict has to be about something and to carry a name.
pub fn check_label(subject: Option<LabelSubject>, labeler: &str) -> (r: Result<LabelSubject, ApiError>)
    ensures
        match subject {
            None => fails_with(r, ErrorCode::BadRequest, BAD_SUBJECT_MSG@),
            Some(s) => if blank(labeler@) {
                fails_with(r, ErrorCode::BadRequest, NO_LABELER_MSG@)
            } else {
                r == Ok::<LabelSubject, ApiError>(s)
            },
        },
{
    match subject {
        None => Err(ApiError::bad_request(BAD_SUBJECT_MSG)),
        Some(s) => {
            proof {
                trimmed_empty_iff_blank(labeler@);
            }
            if labeler.trim().is_empty() {
                Err(ApiError::bad_request(NO_LABELER_MSG))
            } else {
                Ok(s)
            }
        },
    }
}

/// What a caller says of a verdict.
#[derive(Debug)]
pub struct LabelReq {
    pub project_id: Option<String>,
    /// What it is about, where the caller's text names a subject.
    pub subject: Option<LabelSubject>,
    pub rubric_id: Option<String>,
    pub value: String,
    pub pass: Option<bool>,
    pub dimensions: Json,
    pub labeler: String,
    pub note: Option<String>,
}

/// Whether `r` is what a request to label comes to, before its texts are cut to size.
pub open spec fn states_label(
    r: Result<Label, ApiError>,
    p: Principal,
    id: String,
    req: LabelReq,
    now: Timestamp,
) -> bool {
    match p {
        Principal::Project { project_id, scopes, .. } => {
            if !scopes@.contains(Scope::Manage) {
                fails_with(r, ErrorCode::Forbidden, missing_scope_text(Scope::Manage))
            } else if req.project_id is Some && req.project_id->0@ != project_id@ {
                fails_with(r, ErrorCode::Forbidden, "key not authorized for that project"@)
            } else {
                is_label(r, id, project_id@, req, now)
            }
        },
        _ => match req.project_id {
            Some(b) => is_label(r, id, b@, req, now),
            None => fails_with(
                r,
                ErrorCode::BadRequest,
                "project_id is required with an admin key"@,
            ),
        },
    }
}

/// The label that a request makes, as it is stored and answered with: its project has to be one that the
/// caller may write, its subject and its labeler have to be named, and then `cap` cuts it to size.
pub fn new_label<F: Fn(Label) -> Label>(
    p: &Principal,
    id: String,
    req: LabelReq,
    now: Timestamp,
    cap: &F,
) -> (r: Result<Label, ApiError>)
    requires
        forall|l: Label| cap.requires((l,)),
    ensures
        match r {
            Ok(l) => exists|s: Label|
                states_label(Ok(s), *p, id, req, now) && #[trigger] cap.ensures((s,), l),
            Err(_) => states_label(r, *p, id, req, now),
        },
{
    match stated_label(p, id, req, now) {
        Ok(s) => {
            let l = cap(s);
            assert(states_label(Ok(s), *p, id, req, now) && cap.ensures((s,), l));
            Ok(l)
        },
        Err(e) => Err(e),
    }
}

/// The label that a request states, with every text as long as it was given. It is not yet one to store:
/// that is `new_label`'s, which cuts it to size.
pub fn stated_label(p: &Principal, id: String, req: LabelReq, now: Timestamp) -> (r: Result<
    Label,
    ApiError,
>)
    ensures
        states_label(r, *p, id, req, now),
{
    let body: Option<&str> = match &req.project_id {
        Some(b) => Some(b.as_str()),
        None => None,
    };
    let project = match write_project(p, body) {
        Ok(x) => x,
        Err(e) => {
            return Err(e);
        },
    };
    let subject = match check_label(req.subject, req.labeler.as_str()) {
        Ok(s) => s,
        Err(e) => {
            return Err(e);
        },
    };
    Ok(
        Label {
            id,
            project_id: project,
            subject,
            rubric_id: req.rubric_id,
            value: req.value,
            pass: req.pass,
            dimensions: req.dimensions,
            labeler: req.labeler,
            note: req.note,
            created_at: now,
        },
    )
}

/// Whether `r` is what a verdict comes to once its project is settled.
pub open spec fn is_label(
    r: Result<Label, ApiError>,
    id: String,
    project: Seq<char>,
    req: LabelReq,
    now: Timestamp,
) -> bool {
    match req.subject {
        None => fails_with(r, ErrorCode::BadRequest, BAD_SUBJECT_MSG@),
        Some(s) => if blank(req.labeler@) {
            fails_with(r, ErrorCode::BadRequest, NO_LABELER_MSG@)
        } else {
            &&& r is Ok
            &&& r->Ok_0.project_id@ == project
            &&& r->Ok_0 == (Label {
                id,
                project_id: r->Ok_0.project_id,
                subject: s,
                rubric_id: req.rubric_id,
                value: req.value,
                pass: req.pass,
                dimensions: req.dimensions,
                labeler: req.labeler,
                note: req.note,
                created_at: now,
            })
        },
    }
}

/// The id of a calibration record: the one it came with, or a fresh one where that is empty.
pub fn calibration_id(id: String, fresh: String) -> (r: String)
    ensures
        r == (if id@.len() == 0 {
            fresh
        } else {
            id
        }),
{
    if id.as_str().is_empty() {
        fresh
    } else {
        id
    }
}

/// How a listing's subject that says nothing is refused.
pub open spec fn unknown_subject_text(s: Seq<char>) -> Seq<char> {
    "unknown subject '"@ + s
        + "'; expected '<kind>:<id>' with kind one of event, dataset_item, score"@
}

/// The subject that a listing is narrowed to. One that says nothing is refused, never answered with
/// everything.
pub fn subject_filter(raw: Option<&str>, parsed: Option<LabelSubject>) -> (r: Result<
    Option<LabelSubject>,
    ApiError,
>)
    ensures
        match raw {
            None => r == Ok::<Option<LabelSubject>, ApiError>(None),
            Some(s) => match parsed {
                Some(x) => r == Ok::<Option<LabelSubject>, ApiError>(Some(x)),
                None => fails_with(r, ErrorCode::BadRequest, unknown_subject_text(s@)),
            },
        },
{
    match raw {
        None => Ok(None),
        Some(s) => match parsed {
            Some(x) => Ok(Some(x)),
            None => {
                let mut m = "unknown subject '".to_owned();
                m.append(s);
                m.append("'; expected '<kind>:<id>' with kind one of event, dataset_item, score");
                Err(ApiError::bad_request(m.as_str()))
            },
        },
    }
}

/// The project of a calibration record: as a verdict's, where an empty one names none. Its judge has to
/// be named.
pub fn calibration_project(p: &Principal, body_project: &str, judge: &str) -> (r: Result<
    String,
    ApiError,
>)
    ensures
        match *p {
            Principal::Project { project_id, scopes, .. } => {
                if !scopes@.contains(Scope::Manage) {
                    fails_with(r, ErrorCode::Forbidden, missing_scope_text(Scope::Manage))
                } else if body_project@.len() > 0 && body_project@ != project_id@ {
                    fails_with(r, ErrorCode::Forbidden, "key not authorized for that project"@)
                } else if blank(judge@) {
                    fails_with(r, ErrorCode::BadRequest, "judge is required"@)
                } else {
                    r is Ok && r->Ok_0@ == project_id@
                }
            },
            _ => if body_project@.len() == 0 {
                fails_with(r, ErrorCode::BadRequest, "project_id is required with an admin key"@)
            } else if blank(judge@) {
                fails_with(r, ErrorCode::BadRequest, "judge is required"@)
            } else {
                r is Ok && r->Ok_0@ == body_project@
            },
        },
{
    let named = if body_project.is_empty() {
        None
    } else {
        Some(body_project)
    };
    let project = match write_project(p, named) {
        Err(e) => {
            return Err(e);
        },
        Ok(x) => x,
    };
    proof {
        trimmed_empty_iff_blank(judge@);
    }
    if judge.trim().is_empty() {
        return Err(ApiError::bad_request("judge is required"));
    }
    Ok(project)
}

// ------------------------------------------------------------------ from a verdict to a case

/// A payload as the text of a case: a text as it is, anything else but null as compact JSON.
pub open spec fn payload_text(v: Option<JsonView>) -> Option<Seq<char>> {
    match v {
        None => None,
        Some(JsonView::Null) => None,
        Some(JsonView::Str(s)) => Some(s),
        Some(other) => Some(json_text(other)),
    }
}

/// A payload as the text of a case.
pub fn as_text(v: Option<&Json>) -> (r: Option<String>)
    ensures
        match payload_text(json_opt(v)) {
            Some(t) => r is Some && r->0@ == t,
            None => r is None,
        },
{
    match v {
        None => None,
        Some(Json::Null) => None,
        Some(Json::Str(s)) => Some(s.clone()),
        Some(x) => Some(compact_text(x)),
    }
}

/// A verdict with the id `id`.
pub open spec fn has_label_id(id: Seq<char>) -> spec_fn(Label) -> bool {
    |l: Label| l.id@ == id
}

/// The position of a verdict among the project's, or that it is not there.
pub fn find_label(rows: &Vec<Label>, id: &str) -> (r: Result<usize, ApiError>)
    ensures
        match first_where(rows@, has_label_id(id@)) {
            Some(i) => r is Ok && r->Ok_0 == i && i < rows@.len(),
            None => fails_with(
                r,
                ErrorCode::NotFound,
                "label '"@ + id@ + "' not found in this project"@,
            ),
        },
{
    let mut i: usize = 0;
    while i < rows.len()
        invariant
            i <= rows.len(),
            forall|j: int| 0 <= j < i ==> !has_label_id(id@)(#[trigger] rows@[j]),
        decreases rows.len() - i,
    {
        if same(rows[i].id.as_str(), id) {
            proof {
                first_where_is(rows@, has_label_id(id@), i as int);
            }
            return Ok(i);
        }
        i += 1;
    }
    proof {
        first_where_none(rows@, has_label_id(id@));
    }
    let mut m = "label '".to_owned();
    m.append(id);
    m.append("' not found in this project");
    Err(ApiError::not_found(m.as_str()))
}

/// How a verdict on anything but a call is refused.
pub const ONLY_EVENTS_MSG: &'static str = "only a label on an event can be promoted into a dataset: a dataset_item label is already in a set, and a score label is a verdict rather than a case";

/// The call that a verdict to be promoted is about.
pub fn promoted_event(label: &Label) -> (r: Result<String, ApiError>)
    ensures
        match label.subject {
            LabelSubject::Event(e) => r is Ok && r->Ok_0 == e,
            _ => fails_with(r, ErrorCode::BadRequest, ONLY_EVENTS_MSG@),
        },
{
    match &label.subject {
        LabelSubject::Event(e) => Ok(e.clone()),
        _ => Err(ApiError::bad_request(ONLY_EVENTS_MSG)),
    }
}

/// The first half of a promotion: a frozen set takes no case; the verdict has to be among the project's
/// and about a call. Gives the verdict's position and the call that is to be read.
pub fn plan_promotion(ds: &Dataset, rows: &Vec<Label>, label_id: &str) -> (r: Result<
    (usize, String),
    ApiError,
>)
    ensures
        if ds.frozen {
            fails_with(r, ErrorCode::Conflict, "dataset is frozen"@)
        } else {
            match first_where(rows@, has_label_id(label_id@)) {
                None => fails_with(
                    r,
                    ErrorCode::NotFound,
                    "label '"@ + label_id@ + "' not found in this project"@,
                ),
                Some(i) => match rows@[i].subject {
                    LabelSubject::Event(e) => r is Ok && r->Ok_0 == (i as usize, e) && i < rows@.len(),
                    _ => fails_with(r, ErrorCode::BadRequest, ONLY_EVENTS_MSG@),
                },
            }
        },
{
    match ensure_open(ds) {
        Ok(_) => {},
        Err(e) => {
            return Err(e);
        },
    }
    let i = match find_label(rows, label_id) {
        Ok(i) => i,
        Err(e) => {
            return Err(e);
        },
    };
    match promoted_event(&rows[i]) {
        Ok(event) => Ok((i, event)),
        Err(e) => Err(e),
    }
}

/// A call's payloads, as they were stored.
#[derive(Debug)]
pub struct Payloads {
    pub input: Option<Json>,
    pub output: Option<Json>,
}

/// The second half of a promotion, once the call was looked up: a call that is gone is reported;
/// otherwise its case, and the verdict copied onto it.
pub fn promote_event(
    ds: &Dataset,
    label: &Label,
    event_id: String,
    found: &Option<Payloads>,
    item_id: String,
    copy_id: String,
    now: Timestamp,
) -> (r: Result<(DatasetItem, Label), ApiError>)
    ensures
        match *found {
            None => fails_with(r, ErrorCode::NotFound, event_not_found_text(event_id@)),
            Some(x) => {
                &&& r is Ok
                &&& is_case_of(
                    r->Ok_0.0,
                    item_id,
                    *ds,
                    *label,
                    event_id,
                    json_view_opt(x.input),
                    json_view_opt(x.output),
                )
                &&& is_copy_of(r->Ok_0.1, copy_id, *ds, *label, item_id@, now)
            },
        },
{
    match found {
        None => {
            let mut m = "event '".to_owned();
            m.append(event_id.as_str());
            m.append("' not found");
            Err(ApiError::not_found(m.as_str()))
        },
        Some(x) => {
            let copy = copied_label(copy_id, ds, label, item_id.as_str(), now);
            let item = item_from_label(
                item_id,
                ds,
                label,
                event_id,
                x.input.as_ref(),
                x.output.as_ref(),
            );
            Ok((item, copy))
        },
    }
}

/// An optional value's view.
pub open spec fn json_view_opt(v: Option<Json>) -> Option<JsonView> {
    match v {
        Some(x) => Some(x@),
        None => None,
    }
}

/// Whether `r` is the case that a graded call becomes: its input and output as text, the verdict's note
/// as what is expected, and the call as its origin.
pub open spec fn is_case_of(
    r: DatasetItem,
    id: String,
    ds: Dataset,
    label: Label,
    event_id: String,
    input: Option<JsonView>,
    output: Option<JsonView>,
) -> bool {
    &&& r.id == id
    &&& r.dataset_id == ds.id
    &&& r.input@ == (match payload_text(input) {
        Some(t) => t,
        None => seq![],
    })
    &&& match payload_text(output) {
        Some(t) => r.output is Some && r.output->0@ == t,
        None => r.output is None,
    }
    &&& r.expected == label.note
    &&& r.context is None
    &&& r.tags@.len() == 1 && r.tags@[0]@ == "from-label"@
    &&& r.difficulty is None
    &&& r.source_event_id == Some(event_id)
    &&& r.anonymization == Json::Null
    &&& r.input_hash is None
}

/// Whether `r` is the verdict copied onto a case: everything but its id, its subject and its time is the
/// verdict's own.
pub open spec fn is_copy_of(
    r: Label,
    id: String,
    ds: Dataset,
    label: Label,
    item_id: Seq<char>,
    now: Timestamp,
) -> bool {
    &&& r.id == id
    &&& r.project_id == ds.project_id
    &&& r.subject matches LabelSubject::DatasetItem(x) && x@ == item_id
    &&& r.rubric_id == label.rubric_id
    &&& r.value == label.value
    &&& r.pass == label.pass
    &&& r.dimensions@ == label.dimensions@
    &&& r.labeler == label.labeler
    &&& r.note == label.note
    &&& r.created_at == now
}

/// The case that a graded call becomes.
pub fn item_from_label(
    id: String,
    ds: &Dataset,
    label: &Label,
    event_id: String,
    input: Option<&Json>,
    output: Option<&Json>,
) -> (r: DatasetItem)
    ensures
        is_case_of(r, id, *ds, *label, event_id, json_opt(input), json_opt(output)),
{
    let text = match as_text(input) {
        Some(t) => t,
        None => String::new(),
    };
    let mut tags: Vec<String> = Vec::new();
    tags.push("from-label".to_owned());
    DatasetItem {
        id,
        dataset_id: ds.id.clone(),
        input: text,
        output: as_text(output),
        expected: clone_opt(&label.note),
        context: None,
        tags,
        difficulty: None,
        source_event_id: Some(event_id),
        anonymization: Json::Null,
        input_hash: None,
    }
}

/// The verdict copied onto the case that its call became; the call keeps its own.
pub fn copied_label(id: String, ds: &Dataset, label: &Label, item_id: &str, now: Timestamp) -> (r: Label)
    ensures
        is_copy_of(r, id, *ds, *label, item_id@, now),
{
    Label {
        id,
        project_id: ds.project_id.clone(),
        subject: LabelSubject::DatasetItem(item_id.to_owned()),
        rubric_id: clone_opt(&label.rubric_id),
        value: label.value.clone(),
        pass: label.pass,
        dimensions: copy_json(&label.dimensions),
        labeler: label.labeler.clone(),
        note: clone_opt(&label.note),
        created_at: now,
    }
}

// ------------------------------------------------------------------ what a verdict comes to

/// Where a verdict is written: a key that may manage writes to its own project and no other, anyone else
/// to the project that is named, which has to be.
pub proof fn a_verdict_is_written_where_its_author_may(
    p: &Principal,
    named: Option<&str>,
    r: Result<String, ApiError>,
)
    requires
        call_ensures(write_project, (p, named), r),
    ensures
        match *p {
            Principal::Project { project_id, scopes, .. } => {
                &&& r is Ok ==> r->Ok_0@ == project_id@
                &&& r is Ok <==> scopes@.contains(Scope::Manage) && (named is None || named->0@
                    == project_id@)
                &&& r is Err ==> r->Err_0.code is Forbidden
            },
            _ => {
                &&& r is Ok <==> named is Some
                &&& r is Ok ==> r->Ok_0@ == named->0@
                &&& r is Err ==> r->Err_0.code is BadRequest
            },
        },
{
}

/// A verdict is what was said, field by field, in the project it is written to; it has to be about
/// something, and someone has to stand by it.
pub proof fn a_verdict_is_what_was_said(
    p: &Principal,
    id: String,
    req: LabelReq,
    now: Timestamp,
    r: Result<Label, ApiError>,
    named: Option<&str>,
    project: Result<String, ApiError>,
)
    requires
        call_ensures(stated_label, (p, id, req, now), r),
        named is Some <==> req.project_id is Some,
        named is Some ==> named->0@ == req.project_id->0@,
        call_ensures(write_project, (p, named), project),
    ensures
        r is Ok <==> project is Ok && req.subject is Some && !blank(req.labeler@),
        r is Ok ==> {
            let l = r->Ok_0;
            &&& l.id == id && l.project_id@ == project->Ok_0@ && l.subject == req.subject->0
            &&& l.rubric_id == req.rubric_id && l.value == req.value && l.pass == req.pass
            &&& l.dimensions == req.dimensions && l.labeler == req.labeler && l.note == req.note
            &&& l.created_at == now
        },
        r is Err && project is Ok ==> r->Err_0.code is BadRequest,
        r is Err && project is Err ==> r->Err_0.code == project->Err_0.code,
{
}

/// What a verdict has to hold, and which subject a listing is narrowed to: one that cannot be read is
/// refused and never answered with everything.
pub proof fn a_subject_has_to_be_readable(
    subject: Option<LabelSubject>,
    labeler: &str,
    r: Result<LabelSubject, ApiError>,
    raw: Option<&str>,
    parsed: Option<LabelSubject>,
    f: Result<Option<LabelSubject>, ApiError>,
)
    requires
        call_ensures(check_label, (subject, labeler), r),
        call_ensures(subject_filter, (raw, parsed), f),
    ensures
        r is Ok <==> subject is Some && !blank(labeler@),
        r is Ok ==> r->Ok_0 == subject->0,
        r is Err ==> r->Err_0.code is BadRequest,
        raw is None ==> f is Ok && f->Ok_0 is None,
        raw is Some ==> (f is Ok <==> parsed is Some),
        raw is Some && f is Ok ==> f->Ok_0 == parsed,
        f is Err ==> f->Err_0.code is BadRequest,
{
}

/// A calibration record keeps an id it came with; its project is settled as a verdict's, and its judge has
/// to be named.
pub proof fn a_calibration_names_its_judge(
    p: &Principal,
    named: &str,
    judge: &str,
    r: Result<String, ApiError>,
    id: String,
    fresh: String,
    kept: String,
)
    requires
        call_ensures(calibration_project, (p, named, judge), r),
        call_ensures(calibration_id, (id, fresh), kept),
    ensures
        blank(judge@) ==> r is Err,
        match *p {
            Principal::Project { project_id, scopes, .. } => {
                &&& r is Ok ==> r->Ok_0@ == project_id@
                &&& r is Ok <==> !blank(judge@) && scopes@.contains(Scope::Manage) && (named@.len() == 0
                    || named@ == project_id@)
            },
            _ => {
                &&& r is Ok <==> !blank(judge@) && named@.len() > 0
                &&& r is Ok ==> r->Ok_0@ == named@
            },
        },
        id@.len() > 0 ==> kept == id,
        id@.len() == 0 ==> kept == fresh,
{
}

/// A case takes a text as it is and anything else as JSON; nothing, and null, give no text.
pub proof fn a_payload_becomes_text(v: Option<&Json>, r: Option<String>)
    requires
        call_ensures(as_text, (v,), r),
    ensures
        v is None ==> r is None,
        v is Some && v->0@ is Null ==> r is None,
        v is Some && !(v->0@ is Null) ==> r is Some,
        v is Some ==> (v->0@ matches JsonView::Str(s) ==> r is Some && r->0@ == s),
        v is Some && !(v->0@ is Null) && !(v->0@ is Str) ==> r->0@ == json_text(v->0@),
{
}

/// A verdict is promoted only into a set that is open, only where it is among the project's, and only
/// where it is about a call; then it is that verdict and that call.
pub proof fn only_a_verdict_on_a_call_is_promoted(
    ds: &Dataset,
    rows: &Vec<Label>,
    label_id: &str,
    r: Result<(usize, String), ApiError>,
    found: Result<usize, ApiError>,
)
    requires
        call_ensures(plan_promotion, (ds, rows, label_id), r),
        call_ensures(find_label, (rows, label_id), found),
    ensures
        ds.frozen ==> r is Err && r->Err_0.code is Conflict,
        found is Ok ==> found->Ok_0 < rows@.len() && rows@[found->Ok_0 as int].id@ == label_id@ && forall|
            j: int,
        |
            0 <= j < found->Ok_0 ==> (#[trigger] rows@[j]).id@ != label_id@,
        found is Err ==> found->Err_0.code is NotFound && forall|j: int|
            0 <= j < rows@.len() ==> (#[trigger] rows@[j]).id@ != label_id@,
        !ds.frozen && found is Err ==> r is Err && r->Err_0.code is NotFound,
        !ds.frozen && found is Ok ==> match rows@[found->Ok_0 as int].subject {
            LabelSubject::Event(e) => r is Ok && r->Ok_0.0 == found->Ok_0 && r->Ok_0.1@ == e@,
            _ => r is Err && r->Err_0.code is BadRequest,
        },
{
    let p = has_label_id(label_id@);
    crate::seqs::first_where_tells(rows@, p);
    match first_where(rows@, p) {
        Some(i) => {
            assert forall|j: int| 0 <= j < i implies (#[trigger] rows@[j]).id@ != label_id@ by {
                assert(!p(rows@[j]));
            }
        },
        None => {
            assert forall|j: int| 0 <= j < rows@.len() implies (#[trigger] rows@[j]).id@ != label_id@ by {
                assert(!p(rows@[j]));
            }
        },
    }
}

/// A promoted call becomes a case of the set with the call's own input and output, the verdict's note as
/// what is expected, and the call as its origin; the verdict goes along, about the case and no longer
/// about the call; and a call that is gone is reported.
pub proof fn a_promoted_call_becomes_a_case(
    ds: &Dataset,
    label: &Label,
    event_id: String,
    found: &Option<Payloads>,
    item_id: String,
    copy_id: String,
    now: Timestamp,
    r: Result<(DatasetItem, Label), ApiError>,
    sent: Option<&Json>,
    got: Option<&Json>,
    input: Option<String>,
    output: Option<String>,
)
    requires
        call_ensures(promote_event, (ds, label, event_id, found, item_id, copy_id, now), r),
        *found is Some ==> (sent is Some <==> found->0.input is Some) && (got is Some <==> found->0.output is Some),
        *found is Some && sent is Some ==> *sent->0 == found->0.input->0,
        *found is Some && got is Some ==> *got->0 == found->0.output->0,
        call_ensures(as_text, (sent,), input),
        call_ensures(as_text, (got,), output),
    ensures
        r is Ok <==> *found is Some,
        r is Err ==> r->Err_0.code is NotFound,
        r is Ok ==> {
            let (c, l) = r->Ok_0;
            &&& c.id == item_id && c.dataset_id == ds.id
            &&& input is Some ==> c.input@ == input->0@
            &&& input is None ==> c.input@.len() == 0
            &&& output is Some <==> c.output is Some
            &&& output is Some ==> c.output->0@ == output->0@
            &&& c.expected == label.note
            &&& c.source_event_id == Some(event_id)
            &&& c.context is None && c.difficulty is None
            &&& l.id == copy_id && l.project_id == ds.project_id && l.created_at == now
            &&& l.subject matches LabelSubject::DatasetItem(x) && x@ == item_id@
            &&& l.rubric_id == label.rubric_id && l.value == label.value && l.pass == label.pass
            &&& l.dimensions@ == label.dimensions@ && l.labeler == label.labeler && l.note == label.note
        },
{
}

/// A label that is stored is the stated one as it is cut to size: of the project that its author may write,
/// about what they named, with their own words in each field.
pub proof fn a_label_is_cut_from_what_was_said<F: Fn(Label) -> Label>(
    p: &Principal,
    id: String,
    req: LabelReq,
    now: Timestamp,
    cap: &F,
    r: Result<Label, ApiError>,
)
    requires
        forall|l: Label| cap.requires((l,)),
        call_ensures(new_label::<F>, (p, id, req, now, cap), r),
    ensures
        r is Ok ==> exists|s: Label| #[trigger]
            cap.ensures((s,), r->Ok_0) && s.id == id && s.value == req.value && s.pass == req.pass
                && s.labeler == req.labeler && s.note == req.note && s.rubric_id == req.rubric_id
                && s.created_at == now && Some(s.subject) == req.subject,
        r is Err ==> r->Err_0.code is Forbidden || r->Err_0.code is BadRequest,
{
    if r is Ok {
        let s = choose|s: Label|
            states_label(Ok(s), *p, id, req, now) && #[trigger] cap.ensures((s,), r->Ok_0);
        assert(cap.ensures((s,), r->Ok_0));
    }
}

} // verus!
