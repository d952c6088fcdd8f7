//! Which project a request may write to and which it may read.
use vstd::prelude::*;

use crate::auth::{has_scope, Principal, Scope};
use crate::error::{fails_with, ApiError, ErrorCode};
use crate::text::{blank, same, trimmed_empty_iff_blank};

verus! {

/// Where a caller without a key lands, on an instance that demands none, when no project is named.
pub const DEV_DEFAULT_PROJECT: &'static str = "default";

/// How an event that belongs to no project is refused.
pub const NO_PROJECT_MSG: &'static str = "project_id is required: set it on the event (SDKs read LIGHTTRACK_PROJECT), or present a project API key — POST /v1/projects then POST /v1/projects/:id/keys — which derives the project server-side";

/// Only an operator, or anyone where no credentials are demanded, may administer.
pub fn ensure_can_admin(p: &Principal) -> (r: Result<(), ApiError>)
    ensures
        p is Project ==> fails_with(r, ErrorCode::Forbidden, "admin privileges required"@),
        !(p is Project) ==> r is Ok,
{
    match p {
        Principal::Admin | Principal::Dev => Ok(()),
        Principal::Project { .. } => Err(ApiError::forbidden("admin privileges required")),
    }
}

/// How a key without the scope is refused.
pub open spec fn missing_scope_text(s: Scope) -> Seq<char> {
    "this API key lacks the '"@ + s.wire() + "' scope"@
}

/// A project key must carry the scope; an operator carries them all.
pub fn ensure_scope(p: &Principal, s: Scope) -> (r: Result<(), ApiError>)
    ensures
        p matches Principal::Project { scopes, .. } && !scopes@.contains(s) ==> fails_with(
            r,
            ErrorCode::Forbidden,
            missing_scope_text(s),
        ),
        p matches Principal::Project { scopes, .. } && scopes@.contains(s) ==> r is Ok,
        !(p is Project) ==> r is Ok,
{
    match p {
        Principal::Admin | Principal::Dev => Ok(()),
        Principal::Project { scopes, .. } => {
            if has_scope(scopes, s) {
                Ok(())
            } else {
                let mut m = "this API key lacks the '".to_owned();
                m.append(s.as_str());
                m.append("' scope");
                Err(ApiError::forbidden(m.as_str()))
            }
        },
    }
}

/// Where an event goes: a key's own project whatever the event says, else the project it names. With
/// none named, a caller on an instance without credentials lands in the default project and the
/// operator is refused.
pub open spec fn ingest_target(p: Principal, named: Seq<char>) -> Option<Seq<char>> {
    match p {
        Principal::Project { project_id, scopes, .. } => if scopes@.contains(Scope::Ingest) {
            Some(project_id@)
        } else {
            None
        },
        Principal::Dev => if blank(named) {
            Some(DEV_DEFAULT_PROJECT@)
        } else {
            Some(named)
        },
        Principal::Admin => if blank(named) {
            None
        } else {
            Some(named)
        },
    }
}

/// Which project an event belongs to.
pub fn resolve_ingest_project(p: &Principal, body_project: &str) -> (r: Result<String, ApiError>)
    ensures
        match r {
            Ok(pid) => ingest_target(*p, body_project@) == Some(pid@),
            Err(e) => ingest_target(*p, body_project@) is None,
        },
        p is Project && r is Err ==> fails_with(
            r,
            ErrorCode::Forbidden,
            missing_scope_text(Scope::Ingest),
        ),
        !(p is Project) && r is Err ==> fails_with(r, ErrorCode::BadRequest, NO_PROJECT_MSG@),
{
    proof {
        trimmed_empty_iff_blank(body_project@);
    }
    match p {
        Principal::Project { project_id, .. } => {
            match ensure_scope(p, Scope::Ingest) {
                Err(e) => Err(e),
                Ok(_) => Ok(project_id.clone()),
            }
        },
        Principal::Dev => {
            if body_project.trim().is_empty() {
                Ok(DEV_DEFAULT_PROJECT.to_owned())
            } else {
                Ok(body_project.to_owned())
            }
        },
        Principal::Admin => {
            if body_project.trim().is_empty() {
                Err(ApiError::bad_request(NO_PROJECT_MSG))
            } else {
                Ok(body_project.to_owned())
            }
        },
    }
}

/// Whether the default project has to be made sure of before the event is stored.
pub fn needs_dev_default(p: &Principal, body_project: &str) -> (r: bool)
    ensures
        r == (p is Dev && blank(body_project@)),
{
    proof {
        trimmed_empty_iff_blank(body_project@);
    }
    match p {
        Principal::Dev => body_project.trim().is_empty(),
        _ => false,
    }
}

/// Which project a read may target: a key's own and no other; for an operator the one asked for, or
/// all of them.
pub fn resolve_read_project(p: &Principal, requested: Option<&str>) -> (r: Result<
    Option<String>,
    ApiError,
>)
    ensures
        match *p {
            Principal::Project { project_id, scopes, .. } => {
                if !scopes@.contains(Scope::Read) {
                    fails_with(r, ErrorCode::Forbidden, missing_scope_text(Scope::Read))
                } else if requested is Some && requested->0@ != project_id@ {
                    fails_with(r, ErrorCode::Forbidden, "key not authorized for that project"@)
                } else {
                    r is Ok && r->Ok_0 is Some && r->Ok_0->0@ == project_id@
                }
            },
            _ => r is Ok && match requested {
                None => r->Ok_0 is None,
                Some(q) => r->Ok_0 is Some && r->Ok_0->0@ == q@,
            },
        },
{
    match p {
        Principal::Project { project_id, .. } => {
            match ensure_scope(p, Scope::Read) {
                Err(e) => return Err(e),
                Ok(_) => {},
            }
            if let Some(q) = requested {
                if !same(q, project_id.as_str()) {
                    return Err(ApiError::forbidden("key not authorized for that project"));
                }
            }
            Ok(Some(project_id.clone()))
        },
        _ => match requested {
            Some(q) => Ok(Some(q.to_owned())),
            None => Ok(None),
        },
    }
}

/// A project key never reaches another project: whatever an event names, it lands in the key's own
/// project or nowhere.
pub proof fn a_key_never_writes_elsewhere(p: Principal, named: Seq<char>)
    requires
        p is Project,
    ensures
        ingest_target(p, named) is Some ==> ingest_target(p, named)->0 == p->project_id@,
{
}

/// Fewer scopes never open more: where the narrower key may write, the wider one writes to the same
/// project.
pub proof fn scopes_only_narrow(wide: Principal, narrow: Principal, named: Seq<char>)
    requires
        wide is Project,
        narrow is Project,
        wide->project_id@ == narrow->project_id@,
        forall|s: Scope| narrow->scopes@.contains(s) ==> wide->scopes@.contains(s),
    ensures
        ingest_target(narrow, named) is Some ==> ingest_target(wide, named) == ingest_target(
            narrow,
            named,
        ),
{
}

/// The default project is reachable only where no credentials are demanded: an operator who names no
/// project is refused.
pub proof fn admin_never_falls_back(named: Seq<char>)
    requires
        blank(named),
    ensures
        ingest_target(Principal::Admin, named) is None,
        ingest_target(Principal::Dev, named) == Some(DEV_DEFAULT_PROJECT@),
{
}

/// A project's key administers nothing and does only what its scopes say; anyone else may do both.
pub proof fn a_key_does_what_its_scopes_say(
    p: &Principal,
    s: Scope,
    admin: Result<(), ApiError>,
    scoped: Result<(), ApiError>,
)
    requires
        call_ensures(ensure_can_admin, (p,), admin),
        call_ensures(ensure_scope, (p, s), scoped),
    ensures
        admin is Ok <==> !(*p is Project),
        scoped is Ok <==> (*p matches Principal::Project { scopes, .. } ==> exists|i: int|
            0 <= i < scopes@.len() && #[trigger] scopes@[i] == s),
        admin is Err ==> admin->Err_0.code == ErrorCode::Forbidden,
        scoped is Err ==> scoped->Err_0.code == ErrorCode::Forbidden,
{
    if let Principal::Project { scopes, .. } = *p {
        if scopes@.contains(s) {
            let i = choose|i: int| 0 <= i < scopes@.len() && #[trigger] scopes@[i] == s;
            assert(scopes@[i] == s);
        }
    }
}

/// Where an event goes: a key that may write sends it to its own project, whatever the event names;
/// anyone else sends it where it says; and where it does not say, only a caller of whom no credentials
/// are demanded lands in `default`.
pub proof fn an_event_goes_where_its_sender_may_write(
    p: &Principal,
    named: &str,
    r: Result<String, ApiError>,
    fallback: bool,
)
    requires
        call_ensures(resolve_ingest_project, (p, named), r),
        call_ensures(needs_dev_default, (p, named), fallback),
    ensures
        match *p {
            Principal::Project { project_id, scopes, .. } => {
                &&& r is Ok <==> exists|i: int|
                    0 <= i < scopes@.len() && #[trigger] scopes@[i] == Scope::Ingest
                &&& r is Ok ==> r->Ok_0@ == project_id@
                &&& r is Err ==> r->Err_0.code == ErrorCode::Forbidden
            },
            Principal::Admin => {
                &&& r is Ok <==> !blank(named@)
                &&& r is Ok ==> r->Ok_0@ == named@
                &&& r is Err ==> r->Err_0.code == ErrorCode::BadRequest
            },
            Principal::Dev => {
                &&& r is Ok
                &&& !blank(named@) ==> r->Ok_0@ == named@
                &&& blank(named@) ==> r->Ok_0@ == "default"@
            },
        },
        fallback <==> *p is Dev && blank(named@),
{
    if let Principal::Project { scopes, .. } = *p {
        if scopes@.contains(Scope::Ingest) {
            let i = choose|i: int| 0 <= i < scopes@.len() && #[trigger] scopes@[i] == Scope::Ingest;
            assert(scopes@[i] == Scope::Ingest);
        }
    }
}

/// What may be read: a key that may read reads its own project and no other; anyone else reads what they
/// ask for, and everything where they ask for nothing.
pub proof fn a_read_stays_within_the_key(
    p: &Principal,
    asked: Option<&str>,
    r: Result<Option<String>, ApiError>,
)
    requires
        call_ensures(resolve_read_project, (p, asked), r),
    ensures
        match *p {
            Principal::Project { project_id, scopes, .. } => {
                &&& r is Ok ==> r->Ok_0 is Some && r->Ok_0->0@ == project_id@
                &&& r is Ok <==> (exists|i: int|
                    0 <= i < scopes@.len() && #[trigger] scopes@[i] == Scope::Read) && (asked is None
                    || asked->0@ == project_id@)
                &&& r is Err ==> r->Err_0.code == ErrorCode::Forbidden
            },
            _ => {
                &&& r is Ok
                &&& asked is None ==> r->Ok_0 is None
                &&& asked is Some ==> r->Ok_0 is Some && r->Ok_0->0@ == asked->0@
            },
        },
{
    if let Principal::Project { scopes, .. } = *p {
        if scopes@.contains(Scope::Read) {
            let i = choose|i: int| 0 <= i < scopes@.len() && #[trigger] scopes@[i] == Scope::Read;
            assert(scopes@[i] == Scope::Read);
        }
    }
}

} // verus!
