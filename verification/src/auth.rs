//! Who is asking: principals, what a key may do, and how a presented credential becomes a principal.
use vstd::prelude::*;

use crate::clock::Timestamp;
use crate::error::{fails_with, plain_error, ApiError, ErrorCode};
use crate::text::{ascii_lower, chars_of, has_prefix, same, slice_of, starts_with, trimmed};

verus! {

/// What a project key may do.
#[derive(Debug, Clone, Copy, PartialEq, Eq, Structural)]
pub enum Scope {
    Ingest,
    Read,
    Manage,
}

impl Scope {
    /// The scope's wire string.
    pub open spec fn wire(self) -> Seq<char> {
        match self {
            Scope::Ingest => "ingest"@,
            Scope::Read => "read"@,
            Scope::Manage => "manage"@,
        }
    }

    /// The scope's wire string.
    pub fn as_str(self) -> (r: &'static str)
        ensures
            r@ == self.wire(),
    {
        match self {
            Scope::Ingest => "ingest",
            Scope::Read => "read",
            Scope::Manage => "manage",
        }
    }

    /// The scope that a text names, in any ASCII case.
    pub open spec fn named(s: Seq<char>) -> Option<Scope> {
        let l = ascii_lower(s);
        if l == "ingest"@ {
            Some(Scope::Ingest)
        } else if l == "read"@ {
            Some(Scope::Read)
        } else if l == "manage"@ {
            Some(Scope::Manage)
        } else {
            None
        }
    }

    /// Reads a scope, in any ASCII case.
    pub fn parse(s: &str) -> (r: Option<Scope>)
        ensures
            r == Scope::named(s@),
    {
        let l = s.to_ascii_lowercase();
        if same(l.as_str(), "ingest") {
            Some(Scope::Ingest)
        } else if same(l.as_str(), "read") {
            Some(Scope::Read)
        } else if same(l.as_str(), "manage") {
            Some(Scope::Manage)
        } else {
            None
        }
    }
}

/// What a key may do when nobody said: write and read its own project.
pub fn default_scopes() -> (r: Vec<Scope>)
    ensures
        r@ == seq![Scope::Ingest, Scope::Read],
{
    let mut v: Vec<Scope> = Vec::new();
    v.push(Scope::Ingest);
    v.push(Scope::Read);
    assert(v@ =~= seq![Scope::Ingest, Scope::Read]);
    v
}

/// Whether `s` is among `scopes`.
pub fn has_scope(scopes: &Vec<Scope>, s: Scope) -> (r: bool)
    ensures
        r == scopes@.contains(s),
{
    let mut i: usize = 0;
    while i < scopes.len()
        invariant
            i <= scopes.len(),
            forall|j: int| 0 <= j < i ==> scopes@[j] != s,
        decreases scopes.len() - i,
    {
        if scopes[i] == s {
            return true;
        }
        i += 1;
    }
    false
}

/// The same scopes again.
pub fn copy_scopes(scopes: &Vec<Scope>) -> (r: Vec<Scope>)
    ensures
        r@ == scopes@,
{
    let mut out: Vec<Scope> = Vec::new();
    let mut i: usize = 0;
    while i < scopes.len()
        invariant
            i <= scopes.len(),
            out@ == scopes@.take(i as int),
        decreases scopes.len() - i,
    {
        out.push(scopes[i]);
        assert(scopes@.take(i as int).push(scopes@[i as int]) =~= scopes@.take(i as int + 1));
        i += 1;
    }
    assert(scopes@.take(i as int) =~= scopes@);
    out
}

/// Whether credentials are demanded.
#[derive(Debug, Clone, Copy, PartialEq, Eq, Structural)]
pub enum AuthMode {
    Dev,
    Enforced,
}

impl AuthMode {
    /// Reads the setting: `enforced` in any ASCII case demands credentials, and anything else, a
    /// misspelling included, does not.
    pub fn from_env(raw: &str) -> (r: AuthMode)
        ensures
            r == (if ascii_lower(trimmed(raw@)) == "enforced"@ {
                AuthMode::Enforced
            } else {
                AuthMode::Dev
            }),
    {
        let l = raw.trim().to_ascii_lowercase();
        if same(l.as_str(), "enforced") {
            AuthMode::Enforced
        } else {
            AuthMode::Dev
        }
    }
}

/// Who a request acts as.
#[derive(Debug)]
pub enum Principal {
    /// The operator.
    Admin,
    /// Anyone at all, on an instance that demands no credentials.
    Dev,
    /// A project's key.
    Project { project_id: String, key_id: String, scopes: Vec<Scope> },
}

/// The token in an `Authorization` header: what follows `Bearer ` or `bearer `, trimmed.
pub open spec fn token_in(h: Seq<char>) -> Option<Seq<char>> {
    if has_prefix(h, "Bearer "@) || has_prefix(h, "bearer "@) {
        Some(trimmed(h.skip(7)))
    } else {
        None
    }
}

/// Reads the token out of an `Authorization` header.
pub fn bearer(header: Option<&str>) -> (r: Option<String>)
    ensures
        match header {
            None => r is None,
            Some(h) => match r {
                Some(t) => token_in(h@) == Some(t@),
                None => token_in(h@) is None,
            },
        },
{
    match header {
        None => None,
        Some(h) => {
            proof {
                reveal_strlit("Bearer ");
                reveal_strlit("bearer ");
            }
            if starts_with(h, "Bearer ") || starts_with(h, "bearer ") {
                let c = chars_of(h);
                let rest = slice_of(c.as_slice(), 7, c.len());
                assert(h@.subrange(7, h@.len() as int) =~= h@.skip(7));
                Some(rest.trim().to_owned())
            } else {
                None
            }
        },
    }
}

/// A stored key that a token's prefix led to.
#[derive(Debug)]
pub struct FoundKey {
    pub id: String,
    pub project_id: String,
    pub scopes: Vec<Scope>,
    pub revoked: bool,
    pub expires_at: Option<Timestamp>,
}

impl FoundKey {
    /// Whether the key's time has run out at `now`.
    pub open spec fn expired(self, now: Timestamp) -> bool {
        self.expires_at is Some && self.expires_at->0.nanos <= now.nanos
    }

    /// Whether the key's time has run out at `now`.
    pub fn is_expired(&self, now: Timestamp) -> (r: bool)
        ensures
            r == self.expired(now),
    {
        match self.expires_at {
            Some(t) => t.nanos <= now.nanos,
            None => false,
        }
    }
}

/// What a credential leads to next.
#[derive(Debug)]
pub enum AuthStep {
    /// The request acts as this principal.
    Grant(Principal),
    /// The request is refused.
    Refuse(ApiError),
    /// The stored keys decide: look the token's prefix up.
    LookUpKey,
    /// The key's project decides: read whether it is enabled.
    CheckProject,
}

/// What an unrecognised credential leads to: nothing is demanded in dev mode, and in enforced mode
/// it is a refusal.
pub open spec fn unrecognised(mode: AuthMode, message: Seq<char>, r: AuthStep) -> bool {
    match mode {
        AuthMode::Dev => r is Grant && r->Grant_0 is Dev,
        AuthMode::Enforced => r is Refuse && plain_error(
            r->Refuse_0,
            ErrorCode::Unauthorized,
            message,
        ),
    }
}

fn fall_back(mode: AuthMode, message: &str) -> (r: AuthStep)
    ensures
        unrecognised(mode, message@, r),
{
    match mode {
        AuthMode::Dev => AuthStep::Grant(Principal::Dev),
        AuthMode::Enforced => AuthStep::Refuse(ApiError::unauthorized(message)),
    }
}

/// The first step: whether a token was presented, whether it is the operator's secret, and whether
/// it has the shape of a project key.
pub fn resolve_token(
    mode: AuthMode,
    presented: bool,
    is_admin_secret: bool,
    has_key_prefix: bool,
) -> (r: AuthStep)
    ensures
        !presented ==> unrecognised(mode, "missing API key"@, r),
        presented && is_admin_secret ==> r is Grant && r->Grant_0 is Admin,
        presented && !is_admin_secret && has_key_prefix ==> r is LookUpKey,
        presented && !is_admin_secret && !has_key_prefix ==> unrecognised(
            mode,
            "invalid API key"@,
            r,
        ),
{
    if !presented {
        fall_back(mode, "missing API key")
    } else if is_admin_secret {
        AuthStep::Grant(Principal::Admin)
    } else if has_key_prefix {
        AuthStep::LookUpKey
    } else {
        fall_back(mode, "invalid API key")
    }
}

/// How a key whose time has run out is refused.
pub open spec fn expired_text(k: FoundKey) -> Seq<char> {
    "API key '"@ + k.id@ + "' expired; rotate it with POST /v1/projects/"@ + k.project_id@
        + "/keys/"@ + k.id@ + "/rotate"@
}

/// The second step: what the store found under the token's prefix, and whether the secret matches
/// its digest. A revoked key and a wrong secret are unrecognised; a right secret out of time is
/// refused under a code of its own.
pub fn resolve_key(mode: AuthMode, found: &Option<FoundKey>, secret_matches: bool, now: Timestamp) -> (r:
    AuthStep)
    ensures
        ({
            let usable = found is Some && !found->0.revoked && secret_matches;
            &&& !usable ==> unrecognised(mode, "invalid API key"@, r)
            &&& usable && found->0.expired(now) ==> r is Refuse && plain_error(
                r->Refuse_0,
                ErrorCode::KeyExpired,
                expired_text(found->0),
            )
            &&& usable && !found->0.expired(now) ==> r is CheckProject
        }),
{
    match found {
        Some(k) => {
            if k.revoked || !secret_matches {
                return fall_back(mode, "invalid API key");
            }
            if k.is_expired(now) {
                let mut m = "API key '".to_owned();
                m.append(k.id.as_str());
                m.append("' expired; rotate it with POST /v1/projects/");
                m.append(k.project_id.as_str());
                m.append("/keys/");
                m.append(k.id.as_str());
                m.append("/rotate");
                return AuthStep::Refuse(ApiError::key_expired(m.as_str()));
            }
            AuthStep::CheckProject
        },
        None => fall_back(mode, "invalid API key"),
    }
}

/// How a disabled project's traffic is refused.
pub open spec fn disabled_project_text(project: Seq<char>) -> Seq<char> {
    "project '"@ + project + "' is disabled: ingest refused. Re-enable it with PUT /v1/projects/"@
        + project + " {\"enabled\": true}"@
}

/// How a disabled project's traffic is refused.
pub fn disabled_project_msg(project: &str) -> (r: String)
    ensures
        r@ == disabled_project_text(project@),
{
    let mut m = "project '".to_owned();
    m.append(project);
    m.append("' is disabled: ingest refused. Re-enable it with PUT /v1/projects/");
    m.append(project);
    m.append(" {\"enabled\": true}");
    m
}

/// The last step: a disabled project's keys open nothing; any other key acts as itself.
pub fn resolve_project(key: &FoundKey, enabled: bool) -> (r: Result<Principal, ApiError>)
    ensures
        !enabled ==> fails_with(
            r,
            ErrorCode::ProjectDisabled,
            disabled_project_text(key.project_id@),
        ),
        enabled ==> r is Ok && acts_as(r->Ok_0, *key),
{
    if !enabled {
        let m = disabled_project_msg(key.project_id.as_str());
        return Err(ApiError::project_disabled(m.as_str()));
    }
    Ok(
        Principal::Project {
            project_id: key.project_id.clone(),
            key_id: key.id.clone(),
            scopes: copy_scopes(&key.scopes),
        },
    )
}

/// Whether `p` is the principal behind `k`.
pub open spec fn acts_as(p: Principal, k: FoundKey) -> bool {
    match p {
        Principal::Project { project_id, key_id, scopes } => project_id == k.project_id && key_id
            == k.id && scopes@ == k.scopes@,
        _ => false,
    }
}

/// Whether a refusal counts against its source: only a credential that did not check out, never an
/// expired key, a disabled project or an outage.
pub fn counts_as_failed_attempt(e: &ApiError) -> (r: bool)
    ensures
        r == (e.code == ErrorCode::Unauthorized),
{
    e.code == ErrorCode::Unauthorized
}

// ------------------------------------------------------------------ what a credential is good for

/// A scope's word reads back as the scope, in any case; no other word reads as one; and a key of which
/// nobody said more may write and read, and not manage.
pub proof fn scopes_read_back(
    s: Scope,
    w: &'static str,
    x: &str,
    y: Option<Scope>,
    d: Vec<Scope>,
)
    requires
        call_ensures(Scope::as_str, (s,), w),
        call_ensures(Scope::parse, (x,), y),
        call_ensures(default_scopes, (), d),
    ensures
        s == Scope::Ingest ==> w@ == "ingest"@,
        s == Scope::Read ==> w@ == "read"@,
        s == Scope::Manage ==> w@ == "manage"@,
        y == Some(s) <==> ascii_lower(x@) == w@,
        y is None <==> ascii_lower(x@) != "ingest"@ && ascii_lower(x@) != "read"@ && ascii_lower(x@)
            != "manage"@,
        d@.contains(Scope::Ingest) && d@.contains(Scope::Read) && !d@.contains(Scope::Manage),
{
    reveal_strlit("ingest");
    reveal_strlit("read");
    reveal_strlit("manage");
    assert("ingest"@[0] == 'i' && "read"@[0] == 'r' && "manage"@[0] == 'm');
    assert(d@[0] == Scope::Ingest && d@[1] == Scope::Read && d@.len() == 2);
}

/// Credentials are demanded exactly where the setting says so, in any case and with space around it.
pub proof fn credentials_are_demanded_on_demand(raw: &str, r: AuthMode)
    requires
        call_ensures(AuthMode::from_env, (raw,), r),
    ensures
        r is Enforced <==> ascii_lower(trimmed(raw@)) == "enforced"@,
{
}

/// The token of a header is what follows the word, without the space around it; a header without the
/// word holds none.
pub proof fn a_token_follows_its_word(h: &str, r: Option<String>, word: Seq<char>, t: Seq<char>)
    requires
        call_ensures(bearer, (Some(h),), r),
        word == "Bearer "@ || word == "bearer "@,
    ensures
        h@ == word + t ==> r is Some && r->0@ == trimmed(t),
        r is Some ==> has_prefix(h@, "Bearer "@) || has_prefix(h@, "bearer "@),
{
    reveal_strlit("Bearer ");
    reveal_strlit("bearer ");
    assert(word.len() == 7);
    if h@ == word + t {
        assert(h@.take(7) =~= word);
        assert(h@.skip(7) =~= t);
    }
}

/// The operator's secret makes an operator, whatever the mode; where credentials are demanded, nothing
/// else gets through unseen: what is missing or unknown is refused as unauthorised; and where they are
/// not, nothing is refused for want of them.
pub proof fn only_the_secret_makes_an_operator(
    mode: AuthMode,
    presented: bool,
    secret: bool,
    prefixed: bool,
    r: AuthStep,
)
    requires
        call_ensures(resolve_token, (mode, presented, secret, prefixed), r),
    ensures
        presented && secret <==> (r is Grant && r->Grant_0 is Admin),
        presented && !secret && prefixed <==> r is LookUpKey,
        !(presented && (secret || prefixed)) && mode is Enforced ==> r is Refuse && r->Refuse_0.code
            == ErrorCode::Unauthorized,
        !(presented && (secret || prefixed)) && mode is Dev ==> r is Grant && r->Grant_0 is Dev,
        !(r is CheckProject),
{
}

/// A key opens its project exactly where it was found, was not revoked, its secret matches and its time
/// has not run out; a right secret out of time is told so; everything else is unknown.
pub proof fn a_key_opens_while_it_is_good(
    mode: AuthMode,
    found: &Option<FoundKey>,
    matches_digest: bool,
    now: Timestamp,
    r: AuthStep,
)
    requires
        call_ensures(resolve_key, (mode, found, matches_digest, now), r),
    ensures
        r is CheckProject <==> *found is Some && !found->0.revoked && matches_digest && (
        found->0.expires_at is None || now.nanos < found->0.expires_at->0.nanos),
        *found is Some && !found->0.revoked && matches_digest && found->0.expires_at is Some
            && found->0.expires_at->0.nanos <= now.nanos ==> r is Refuse && r->Refuse_0.code
            == ErrorCode::KeyExpired,
        *found is None || found->0.revoked || !matches_digest ==> (mode is Enforced ==> r is Refuse
            && r->Refuse_0.code == ErrorCode::Unauthorized) && (mode is Dev ==> r is Grant
            && r->Grant_0 is Dev),
        !(r is LookUpKey),
        !(r is Grant && r->Grant_0 is Admin),
{
}

/// A key acts as itself, in its own project and with its own scopes, and opens nothing of a project that
/// is switched off.
pub proof fn a_key_acts_as_itself(key: &FoundKey, enabled: bool, r: Result<Principal, ApiError>)
    requires
        call_ensures(resolve_project, (key, enabled), r),
    ensures
        r is Ok <==> enabled,
        r is Err ==> r->Err_0.code == ErrorCode::ProjectDisabled,
        r is Ok ==> match r->Ok_0 {
            Principal::Project { project_id, key_id, scopes } => project_id@ == key.project_id@ && key_id@
                == key.id@ && scopes@ == key.scopes@,
            _ => false,
        },
{
}

/// Only a credential that did not check out counts against its source.
pub proof fn only_bad_credentials_count(e: &ApiError, r: bool)
    requires
        call_ensures(counts_as_failed_attempt, (e,), r),
    ensures
        r <==> e.code is Unauthorized,
{
}

/// A key runs out at its own time and not before; one without a time never does. A scope is held exactly
/// where it is listed.
pub proof fn a_key_runs_out_at_its_time(
    k: &FoundKey,
    now: Timestamp,
    r: bool,
    scopes: &Vec<Scope>,
    s: Scope,
    has: bool,
)
    requires
        call_ensures(FoundKey::is_expired, (k, now), r),
        call_ensures(has_scope, (scopes, s), has),
    ensures
        k.expires_at is None ==> !r,
        k.expires_at is Some ==> (r <==> now.nanos >= k.expires_at->0.nanos),
        has <==> exists|i: int| 0 <= i < scopes@.len() && scopes@[i] == s,
{
}

/// A disabled project is named in its refusal, and so is the way to enable it.
pub proof fn a_disabled_project_is_named(project: &str, r: String)
    requires
        call_ensures(disabled_project_msg, (project,), r),
    ensures
        crate::text::has_within(r@, "project '"@ + project@ + "' is disabled"@),
        crate::text::has_within(r@, "PUT /v1/projects/"@ + project@),
{
    let a = "project '"@;
    let p = project@;
    reveal_strlit("' is disabled: ingest refused. Re-enable it with PUT /v1/projects/");
    reveal_strlit("' is disabled");
    reveal_strlit(": ingest refused. Re-enable it with ");
    reveal_strlit("PUT /v1/projects/");
    let b = "' is disabled"@;
    let c = ": ingest refused. Re-enable it with "@;
    let d = "PUT /v1/projects/"@;
    let e = " {\"enabled\": true}"@;
    assert("' is disabled: ingest refused. Re-enable it with PUT /v1/projects/"@ =~= b + c + d);
    crate::text::stands_between(seq![], a + p + b, c + d + p + e);
    crate::text::stands_between(a + p + b + c, d + p, e);
    assert(r@ =~= seq![] + (a + p + b) + (c + d + p + e));
    assert(r@ =~= (a + p + b + c) + (d + p) + e);
}

} // verus!
