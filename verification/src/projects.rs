//! Projects: which ids are accepted, and what an update changes.
use vstd::prelude::*;

use crate::clock::Timestamp;
use crate::error::{fails_with, ApiError, ErrorCode};
use crate::guards::DEV_DEFAULT_PROJECT;
use crate::seqs::{first_where, first_where_is};
use crate::text::{chars_of, dec, show_usize, trim_owned, trimmed};

verus! {

/// Longest accepted project id.
pub const MAX_PROJECT_ID_LEN: usize = 64;

/// What is kept of a payload.
#[derive(Debug, Clone, Copy, PartialEq, Eq, Structural)]
pub enum Redaction {
    Keep,
    Hash,
    Drop,
}

/// A tenant.
#[derive(Debug)]
pub struct Project {
    pub id: String,
    pub name: String,
    pub enabled: bool,
    pub redaction: Redaction,
    pub collective_opt_in: bool,
    /// Whether promotions are refused on a judge that nobody has found trustworthy.
    pub require_trusted_judge: bool,
    /// When it was put away, if it was.
    pub archived_at: Option<Timestamp>,
    pub created_at: Timestamp,
}

/// An ASCII letter or digit.
pub open spec fn is_alphanumeric(c: char) -> bool {
    'a' <= c <= 'z' || 'A' <= c <= 'Z' || '0' <= c <= '9'
}

/// A character no project id may hold.
pub open spec fn unfit() -> spec_fn(char) -> bool {
    |c: char| !(is_alphanumeric(c) || c == '-' || c == '_' || c == '.')
}

/// Whether `s` is an acceptable project id: 1 to 64 characters, the first an ASCII letter or digit,
/// the others letters, digits, `-`, `_` or `.`.
pub open spec fn good_project_id(s: Seq<char>) -> bool {
    &&& 1 <= s.len() <= MAX_PROJECT_ID_LEN
    &&& is_alphanumeric(s[0])
    &&& forall|i: int| 0 <= i < s.len() ==> !unfit()(#[trigger] s[i])
}

/// The rule that `s` breaks first, in words.
pub open spec fn project_id_fault(s: Seq<char>) -> Seq<char> {
    if s.len() == 0 || s.len() > MAX_PROJECT_ID_LEN {
        "project id must be 1-64 characters (got "@ + dec(s.len()) + ")"@
    } else if !is_alphanumeric(s[0]) {
        "project id must start with an ASCII letter or digit"@
    } else {
        "project id may contain only ASCII letters, digits, '-', '_' and '.' (found '"@
            + seq![s[first_where(s, unfit())->0]] + "')"@
    }
}

fn alphanumeric(c: char) -> (r: bool)
    ensures
        r == is_alphanumeric(c),
{
    ('a' <= c && c <= 'z') || ('A' <= c && c <= 'Z') || ('0' <= c && c <= '9')
}

/// Whether `id` may name a project; otherwise which rule it breaks.
pub fn validate_project_id(id: &str) -> (r: Result<(), String>)
    ensures
        r is Ok <==> good_project_id(id@),
        r is Err ==> r->Err_0@ == project_id_fault(id@),
{
    let c = chars_of(id);
    if c.len() == 0 || c.len() > MAX_PROJECT_ID_LEN {
        let n = show_usize(c.len());
        let mut m = "project id must be 1-64 characters (got ".to_owned();
        m.append(n.as_str());
        m.append(")");
        return Err(m);
    }
    if !alphanumeric(c[0]) {
        return Err("project id must start with an ASCII letter or digit".to_owned());
    }
    let mut i: usize = 0;
    while i < c.len()
        invariant
            c@ == id@,
            i <= c.len(),
            1 <= c.len() <= MAX_PROJECT_ID_LEN,
            is_alphanumeric(c@[0]),
            forall|j: int| 0 <= j < i ==> !unfit()(#[trigger] c@[j]),
        decreases c.len() - i,
    {
        let x: char = c[i];
        if !(alphanumeric(x) || x == '-' || x == '_' || x == '.') {
            proof {
                first_where_is(id@, unfit(), i as int);
            }
            let mut m =
                "project id may contain only ASCII letters, digits, '-', '_' and '.' (found '".to_owned();
            let mut bad = String::new();
            bad.push(x);
            assert(bad@ =~= seq![x]);
            m.append(bad.as_str());
            m.append("')");
            assert(!good_project_id(id@));
            return Err(m);
        }
        i += 1;
    }
    Ok(())
}

/// The id a new project gets: the caller's own, trimmed and validated, or none, and one is minted.
pub fn requested_project_id(raw: &Option<String>) -> (r: Result<Option<String>, ApiError>)
    ensures
        match *raw {
            None => r is Ok && r->Ok_0 is None,
            Some(s) => if good_project_id(trimmed(s@)) {
                r is Ok && r->Ok_0 is Some && r->Ok_0->0@ == trimmed(s@)
            } else {
                fails_with(r, ErrorCode::BadRequest, project_id_fault(trimmed(s@)))
            },
        },
{
    match raw {
        None => Ok(None),
        Some(s) => {
            let id = trim_owned(s.as_str());
            match validate_project_id(id.as_str()) {
                Ok(_) => Ok(Some(id)),
                Err(m) => Err(ApiError::bad_request(m.as_str())),
            }
        },
    }
}

/// How an id that is taken is refused.
pub open spec fn project_exists_text(id: Seq<char>) -> Seq<char> {
    "project '"@ + id + "' already exists — pick another id, or PUT /v1/projects/"@ + id
        + " to change the existing one"@
}

/// Refuses an id that a lookup found taken.
pub fn ensure_id_is_free(id: &str, taken: bool) -> (r: Result<(), ApiError>)
    ensures
        !taken ==> r is Ok,
        taken ==> fails_with(r, ErrorCode::Conflict, project_exists_text(id@)),
{
    if !taken {
        return Ok(());
    }
    let mut m = "project '".to_owned();
    m.append(id);
    m.append("' already exists — pick another id, or PUT /v1/projects/");
    m.append(id);
    m.append(" to change the existing one");
    Err(ApiError::conflict(m.as_str()))
}

/// How an unknown project is reported.
pub open spec fn project_not_found_text(pid: Seq<char>) -> Seq<char> {
    "project '"@ + pid + "' not found"@
}

/// The project a lookup found, or that there is none.
pub fn found_project(pid: &str, found: Option<Project>) -> (r: Result<Project, ApiError>)
    ensures
        found is Some ==> r == Ok::<Project, ApiError>(found->0),
        found is None ==> fails_with(r, ErrorCode::NotFound, project_not_found_text(pid@)),
{
    match found {
        Some(p) => Ok(p),
        None => {
            let mut m = "project '".to_owned();
            m.append(pid);
            m.append("' not found");
            Err(ApiError::not_found(m.as_str()))
        },
    }
}

/// A project as it is first stored: enabled, with what the caller asked for, demanding nothing of its
/// judges.
pub fn new_project(
    id: String,
    name: String,
    redaction: Redaction,
    collective_opt_in: bool,
    now: Timestamp,
) -> (r: Project)
    ensures
        r == (Project {
            id,
            name,
            enabled: true,
            redaction,
            collective_opt_in,
            require_trusted_judge: false,
            archived_at: None,
            created_at: now,
        }),
{
    Project {
        id,
        name,
        enabled: true,
        redaction,
        collective_opt_in,
        require_trusted_judge: false,
        archived_at: None,
        created_at: now,
    }
}

/// The project that events without one land in, on an instance that demands no credentials: it keeps
/// payloads and shares nothing.
pub fn dev_default_project(now: Timestamp) -> (r: Project)
    ensures
        r.id@ == DEV_DEFAULT_PROJECT@,
        r.name@ == DEV_DEFAULT_PROJECT@,
        r.enabled,
        r.redaction == Redaction::Keep,
        !r.collective_opt_in,
        !r.require_trusted_judge,
        r.archived_at is None,
        r.created_at == now,
{
    new_project(
        DEV_DEFAULT_PROJECT.to_owned(),
        DEV_DEFAULT_PROJECT.to_owned(),
        Redaction::Keep,
        false,
        now,
    )
}

/// The fields of a project that can change; an absent one is left as it is.
#[derive(Debug)]
pub struct UpdateProjectReq {
    pub name: Option<String>,
    pub enabled: Option<bool>,
    pub redaction: Option<Redaction>,
    pub collective_opt_in: Option<bool>,
}

/// The given value, or the one that stood before.
pub open spec fn or_kept<T>(given: Option<T>, kept: T) -> T {
    match given {
        Some(x) => x,
        None => kept,
    }
}

/// The project with the given fields replaced; nothing else changes.
pub fn update_project(proj: Project, req: UpdateProjectReq) -> (r: Project)
    ensures
        r.id == proj.id,
        r.created_at == proj.created_at,
        r.name == or_kept(req.name, proj.name),
        r.enabled == or_kept(req.enabled, proj.enabled),
        r.redaction == or_kept(req.redaction, proj.redaction),
        r.collective_opt_in == or_kept(req.collective_opt_in, proj.collective_opt_in),
        r.require_trusted_judge == proj.require_trusted_judge,
        r.archived_at == proj.archived_at,
{
    Project {
        id: proj.id,
        name: match req.name {
            Some(x) => x,
            None => proj.name,
        },
        enabled: match req.enabled {
            Some(x) => x,
            None => proj.enabled,
        },
        redaction: match req.redaction {
            Some(x) => x,
            None => proj.redaction,
        },
        collective_opt_in: match req.collective_opt_in {
            Some(x) => x,
            None => proj.collective_opt_in,
        },
        require_trusted_judge: proj.require_trusted_judge,
        archived_at: proj.archived_at,
        created_at: proj.created_at,
    }
}

/// No accepted id can be read as a path, a query or a reserved document name: it holds no `/`, `?`,
/// `#`, `%` or blank, and is neither `.` nor `..`.
pub proof fn good_ids_are_url_safe(s: Seq<char>)
    requires
        good_project_id(s),
    ensures
        s[0] != '.' && s[0] != '_',
        forall|i: int|
            0 <= i < s.len() ==> {
                let c = #[trigger] s[i];
                c != '/' && c != '?' && c != '#' && c != '%' && c != ' '
            },
{
    assert forall|i: int| 0 <= i < s.len() implies {
        let c = #[trigger] s[i];
        c != '/' && c != '?' && c != '#' && c != '%' && c != ' '
    } by {
        assert(!unfit()(s[i]));
    }
}

// ------------------------------------------------------------------ what projects are made of

/// An id is accepted exactly where it is one to sixty-four characters long, begins with a letter or a
/// digit, and holds nothing but those, dashes, underscores and dots; one that is given is trimmed first,
/// and one that is taken is a conflict.
pub proof fn an_id_is_accepted_by_its_form(
    id: &str,
    r: Result<(), String>,
    raw: &Option<String>,
    asked: Result<Option<String>, ApiError>,
    taken: bool,
    free: Result<(), ApiError>,
)
    requires
        call_ensures(validate_project_id, (id,), r),
        call_ensures(requested_project_id, (raw,), asked),
        call_ensures(ensure_id_is_free, (id, taken), free),
        *raw is Some ==> trimmed(raw->0@) == id@,
    ensures
        r is Ok <==> 1 <= id@.len() <= 64 && ('a' <= id@[0] <= 'z' || 'A' <= id@[0] <= 'Z' || '0' <= id@[0]
            <= '9') && forall|i: int|
            0 <= i < id@.len() ==> ('a' <= #[trigger] id@[i] <= 'z' || 'A' <= id@[i] <= 'Z' || '0' <= id@[i]
                <= '9' || id@[i] == '-' || id@[i] == '_' || id@[i] == '.'),
        *raw is None ==> asked is Ok && asked->Ok_0 is None,
        *raw is Some ==> (asked is Ok <==> r is Ok),
        *raw is Some && asked is Ok ==> asked->Ok_0 is Some && asked->Ok_0->0@ == id@,
        asked is Err ==> asked->Err_0.code is BadRequest && asked->Err_0.message@ == r->Err_0@,
        free is Ok <==> !taken,
        free is Err ==> free->Err_0.code is Conflict,
{
    let u = unfit();
    let fit = forall|i: int|
        0 <= i < id@.len() ==> ('a' <= #[trigger] id@[i] <= 'z' || 'A' <= id@[i] <= 'Z' || '0' <= id@[i]
            <= '9' || id@[i] == '-' || id@[i] == '_' || id@[i] == '.');
    if good_project_id(id@) {
        assert forall|i: int| 0 <= i < id@.len() implies ('a' <= #[trigger] id@[i] <= 'z' || 'A' <= id@[i]
            <= 'Z' || '0' <= id@[i] <= '9' || id@[i] == '-' || id@[i] == '_' || id@[i] == '.') by {
            assert(!u(id@[i]));
        }
    }
    if fit {
        assert forall|i: int| 0 <= i < id@.len() implies !u(#[trigger] id@[i]) by {}
    }
}

/// A new project is enabled, keeps what its maker asked for and demands nothing of its judges; the one
/// that events without a project land in keeps payloads and shares nothing.
pub proof fn a_new_project_is_as_asked(
    id: String,
    name: String,
    redaction: Redaction,
    opt_in: bool,
    now: Timestamp,
    r: Project,
    d: Project,
)
    requires
        call_ensures(new_project, (id, name, redaction, opt_in, now), r),
        call_ensures(dev_default_project, (now,), d),
    ensures
        r.id == id && r.name == name && r.redaction == redaction && r.collective_opt_in == opt_in,
        r.enabled && !r.require_trusted_judge && r.archived_at is None && r.created_at == now,
        d.id@ == "default"@ && d.enabled && d.redaction is Keep && !d.collective_opt_in,
        !d.require_trusted_judge && d.archived_at is None && d.created_at == now,
{
}

/// An update changes exactly what it gives, each field by itself.
pub proof fn an_update_changes_what_it_gives(proj: Project, req: UpdateProjectReq, r: Project)
    requires
        call_ensures(update_project, (proj, req), r),
    ensures
        req.name is Some ==> r.name == req.name->0,
        req.name is None ==> r.name == proj.name,
        req.enabled is Some ==> r.enabled == req.enabled->0,
        req.enabled is None ==> r.enabled == proj.enabled,
        req.redaction is Some ==> r.redaction == req.redaction->0,
        req.redaction is None ==> r.redaction == proj.redaction,
        req.collective_opt_in is Some ==> r.collective_opt_in == req.collective_opt_in->0,
        req.collective_opt_in is None ==> r.collective_opt_in == proj.collective_opt_in,
        r.id == proj.id && r.created_at == proj.created_at && r.archived_at == proj.archived_at,
        r.require_trusted_judge == proj.require_trusted_judge,
{
}

/// A project that a lookup found is that project; one that it did not is not found.
pub proof fn a_project_is_found_or_reported(pid: &str, found: Option<Project>, r: Result<Project, ApiError>)
    requires
        call_ensures(found_project, (pid, found), r),
    ensures
        r is Ok <==> found is Some,
        r is Ok ==> r->Ok_0 == found->0,
        r is Err ==> r->Err_0.code is NotFound,
{
}

/// An id that is refused is told what is wrong with it: how long it is, how it begins, or the first
/// character that it may not hold.
pub proof fn a_bad_id_is_told_why(id: &str, r: Result<(), String>, i: int)
    requires
        call_ensures(validate_project_id, (id,), r),
        r is Err,
    ensures
        id@.len() == 0 || id@.len() > 64 ==> crate::text::has_within(r->Err_0@, dec(id@.len()) + ")"@),
        1 <= id@.len() <= 64 && !('a' <= id@[0] <= 'z' || 'A' <= id@[0] <= 'Z' || '0' <= id@[0] <= '9')
            ==> r->Err_0@ == "project id must start with an ASCII letter or digit"@,
        1 <= id@.len() <= 64 && ('a' <= id@[0] <= 'z' || 'A' <= id@[0] <= 'Z' || '0' <= id@[0] <= '9') && 0
            <= i < id@.len() && unfit()(id@[i]) && (forall|j: int|
            0 <= j < i ==> !unfit()(#[trigger] id@[j])) ==> crate::text::has_within(
            r->Err_0@,
            seq![id@[i]] + "')"@,
        ),
{
    if id@.len() == 0 || id@.len() > 64 {
        let v = crate::text::strung_on(seq![], "project id must be 1-64 characters (got "@);
        let v = crate::text::strung_on(v, dec(id@.len()));
        let v = crate::text::strung_on(v, ")"@);
        assert(r->Err_0@ == crate::text::strung(v));
        crate::text::pieces_stand(v, 1);
    } else if is_alphanumeric(id@[0]) && 0 <= i < id@.len() && unfit()(id@[i]) && (forall|j: int|
        0 <= j < i ==> !unfit()(#[trigger] id@[j])) {
        crate::seqs::first_where_is(id@, unfit(), i);
        let v = crate::text::strung_on(
            seq![],
            "project id may contain only ASCII letters, digits, '-', '_' and '.' (found '"@,
        );
        let v = crate::text::strung_on(v, seq![id@[i]]);
        let v = crate::text::strung_on(v, "')"@);
        assert(r->Err_0@ == crate::text::strung(v));
        crate::text::pieces_stand(v, 1);
    }
}

} // verus!
