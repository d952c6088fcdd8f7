//! API keys on a project: what may be minted, listed, revoked and rotated.
use vstd::prelude::*;

use crate::auth::{copy_scopes, default_scopes, has_scope, Scope};
use crate::clock::{Timestamp, NANOS_PER_SEC};
use crate::error::{fails_with, ApiError, ErrorCode};
use crate::seqs::{first_where, first_where_is, first_where_none};
use crate::text::{ascii_lower, dec_int, same, show_i64};

verus! {

/// How long a rotated key keeps working when nobody says.
pub const DEFAULT_GRACE_SECS: i64 = 3600;

/// The longest grace window: a week.
pub const MAX_GRACE_SECS: i64 = 604_800;

/// A key as it is stored.
#[derive(Debug)]
pub struct ApiKey {
    pub id: String,
    pub project_id: String,
    pub name: String,
    pub prefix: String,
    pub key_hash: String,
    pub created_at: Timestamp,
    pub last_used_at: Option<Timestamp>,
    pub revoked: bool,
    pub scopes: Vec<Scope>,
    pub expires_at: Option<Timestamp>,
}

/// A key as it is shown: everything but its digest.
#[derive(Debug)]
pub struct KeyInfo {
    pub id: String,
    pub name: String,
    pub prefix: String,
    pub created_at: Timestamp,
    pub last_used_at: Option<Timestamp>,
    pub revoked: bool,
    pub scopes: Vec<Scope>,
    pub expires_at: Option<Timestamp>,
}

/// The name a key gets when nobody gives one.
pub fn default_key_name() -> (r: String)
    ensures
        r@ == "default"@,
{
    "default".to_owned()
}

/// The scopes named by `raw`, each once, in the order they first come. `None` where a name is
/// unknown.
pub open spec fn scopes_named(raw: Seq<String>) -> Option<Seq<Scope>>
    decreases raw.len(),
{
    if raw.len() == 0 {
        Some(seq![])
    } else {
        match (scopes_named(raw.drop_last()), Scope::named(raw.last()@)) {
            (Some(rest), Some(s)) => Some(
                if rest.contains(s) {
                    rest
                } else {
                    rest.push(s)
                },
            ),
            _ => None,
        }
    }
}

/// A name that is no scope.
pub open spec fn not_a_scope() -> spec_fn(String) -> bool {
    |s: String| Scope::named(s@) is None
}

/// How a list without scopes is refused.
pub const NO_SCOPES_MSG: &'static str = "scopes must name at least one of ingest, read, manage — a key with none opens nothing";

/// How an unknown scope is refused.
pub open spec fn unknown_scope_text(s: Seq<char>) -> Seq<char> {
    "unknown scope '"@ + s + "': expected one of ingest, read, manage"@
}

proof fn scopes_named_is_some(raw: Seq<String>)
    ensures
        scopes_named(raw) is None <==> exists|i: int| 0 <= i < raw.len() && not_a_scope()(#[trigger] raw[i]),
    decreases raw.len(),
{
    if raw.len() > 0 {
        let d = raw.drop_last();
        scopes_named_is_some(d);
        if exists|i: int| 0 <= i < d.len() && not_a_scope()(#[trigger] d[i]) {
            let i = choose|i: int| 0 <= i < d.len() && not_a_scope()(#[trigger] d[i]);
            assert(not_a_scope()(raw[i]));
        }
        if exists|i: int| 0 <= i < raw.len() && not_a_scope()(#[trigger] raw[i]) {
            let i = choose|i: int| 0 <= i < raw.len() && not_a_scope()(#[trigger] raw[i]);
            if i < d.len() {
                assert(not_a_scope()(d[i]));
            }
        }
    }
}

/// Reads the requested scopes. None given means the default; an empty list and an unknown name are
/// refused, the first unknown name by name.
pub fn parse_scopes(raw: &Option<Vec<String>>) -> (r: Result<Vec<Scope>, ApiError>)
    ensures
        match *raw {
            None => r is Ok && r->Ok_0@ == seq![Scope::Ingest, Scope::Read],
            Some(v) => {
                &&& v@.len() == 0 ==> fails_with(r, ErrorCode::BadRequest, NO_SCOPES_MSG@)
                &&& v@.len() > 0 && scopes_named(v@) is Some ==> r is Ok && r->Ok_0@ == scopes_named(
                    v@,
                )->0
                &&& scopes_named(v@) is None ==> first_where(v@, not_a_scope()) is Some && fails_with(
                    r,
                    ErrorCode::BadRequest,
                    unknown_scope_text(v@[first_where(v@, not_a_scope())->0]@),
                )
            },
        },
{
    match raw {
        None => Ok(default_scopes()),
        Some(v) => {
            if v.len() == 0 {
                return Err(ApiError::bad_request(NO_SCOPES_MSG));
            }
            let mut out: Vec<Scope> = Vec::new();
            let mut i: usize = 0;
            proof {
                scopes_named_is_some(v@);
            }
            while i < v.len()
                invariant
                    i <= v.len(),
                    *raw == Some(*v),
                    v@.len() > 0,
                    scopes_named(v@) is None <==> exists|k: int|
                        0 <= k < v@.len() && not_a_scope()(#[trigger] v@[k]),
                    scopes_named(v@.take(i as int)) == Some(out@),
                    forall|j: int| 0 <= j < i ==> !not_a_scope()(#[trigger] v@[j]),
                decreases v.len() - i,
            {
                assert(v@.take(i + 1).drop_last() =~= v@.take(i as int));
                match Scope::parse(v[i].as_str()) {
                    None => {
                        proof {
                            assert(not_a_scope()(v@[i as int]));
                            first_where_is(v@, not_a_scope(), i as int);
                        }
                        let mut m = "unknown scope '".to_owned();
                        m.append(v[i].as_str());
                        m.append("': expected one of ingest, read, manage");
                        return Err(ApiError::bad_request(m.as_str()));
                    },
                    Some(s) => {
                        if !has_scope(&out, s) {
                            out.push(s);
                        }
                    },
                }
                i += 1;
            }
            assert(v@.take(i as int) =~= v@);
            Ok(out)
        },
    }
}

/// No scope is listed twice, and each listed scope was asked for.
pub proof fn parsed_scopes_are_distinct(raw: Seq<String>)
    requires
        scopes_named(raw) is Some,
    ensures
        scopes_named(raw)->0.no_duplicates(),
        forall|s: Scope|
            scopes_named(raw)->0.contains(s) <==> exists|i: int|
                0 <= i < raw.len() && Scope::named(#[trigger] raw[i]@) == Some(s),
    decreases raw.len(),
{
    if raw.len() > 0 {
        let d = raw.drop_last();
        parsed_scopes_are_distinct(d);
        let rest = scopes_named(d)->0;
        let all = scopes_named(raw)->0;
        let last = Scope::named(raw.last()@)->0;
        assert forall|s: Scope| all.contains(s) <==> exists|i: int|
            0 <= i < raw.len() && Scope::named(#[trigger] raw[i]@) == Some(s) by {
            if all.contains(s) {
                let k = all.index_of(s);
                if k < rest.len() {
                    assert(rest.contains(s)) by {
                        assert(rest[k] == s);
                    }
                    let i = choose|i: int|
                        0 <= i < d.len() && Scope::named(#[trigger] d[i]@) == Some(s);
                    assert(Scope::named(raw[i]@) == Some(s));
                } else {
                    assert(Scope::named(raw[raw.len() - 1]@) == Some(s));
                }
            }
            if exists|i: int| 0 <= i < raw.len() && Scope::named(#[trigger] raw[i]@) == Some(s) {
                let i = choose|i: int|
                    0 <= i < raw.len() && Scope::named(#[trigger] raw[i]@) == Some(s);
                if i < d.len() {
                    assert(Scope::named(d[i]@) == Some(s));
                    assert(rest.contains(s));
                    let k = rest.index_of(s);
                    assert(all[k] == s);
                } else {
                    assert(s == last);
                    if !rest.contains(s) {
                        assert(all[all.len() - 1] == s);
                    }
                }
            }
        }
    }
}

/// How an expiry that has already passed is refused.
pub const PAST_EXPIRY_MSG: &'static str = "expires_at is already in the past — the key would be dead on arrival";

/// Refuses an expiry that is not after `now`.
pub fn check_expiry(expires_at: Option<Timestamp>, now: Timestamp) -> (r: Result<(), ApiError>)
    ensures
        r is Ok <==> (expires_at is None || expires_at->0.nanos > now.nanos),
        r is Err ==> fails_with(r, ErrorCode::BadRequest, PAST_EXPIRY_MSG@),
{
    if let Some(e) = expires_at {
        if e.nanos <= now.nanos {
            return Err(ApiError::bad_request(PAST_EXPIRY_MSG));
        }
    }
    Ok(())
}

/// Whether `i` shows `k`: every field but the digest, none of them changed.
pub open spec fn shows_key(i: KeyInfo, k: ApiKey) -> bool {
    &&& i.id == k.id
    &&& i.name == k.name
    &&& i.prefix == k.prefix
    &&& i.created_at == k.created_at
    &&& i.last_used_at == k.last_used_at
    &&& i.revoked == k.revoked
    &&& i.scopes@ == k.scopes@
    &&& i.expires_at == k.expires_at
}

impl KeyInfo {
    /// What is shown of a key.
    pub fn of(k: ApiKey) -> (r: KeyInfo)
        ensures
            shows_key(r, k),
    {
        KeyInfo {
            id: k.id,
            name: k.name,
            prefix: k.prefix,
            created_at: k.created_at,
            last_used_at: k.last_used_at,
            revoked: k.revoked,
            scopes: k.scopes,
            expires_at: k.expires_at,
        }
    }

    /// What is shown of a key that has just been revoked.
    pub fn revoked(k: ApiKey) -> (r: KeyInfo)
        ensures
            r.revoked,
            shows_key(KeyInfo { revoked: k.revoked, ..r }, k),
    {
        let mut i = KeyInfo::of(k);
        i.revoked = true;
        i
    }
}

/// The keys of a list as they are shown, in order.
pub fn list_keys(keys: Vec<ApiKey>) -> (r: Vec<KeyInfo>)
    ensures
        r@.len() == keys@.len(),
        forall|i: int| 0 <= i < r@.len() ==> shows_key(#[trigger] r@[i], keys@[i]),
{
    let mut out: Vec<KeyInfo> = Vec::new();
    let mut i: usize = 0;
    while i < keys.len()
        invariant
            i <= keys.len(),
            out@.len() == i,
            forall|j: int| 0 <= j < i ==> shows_key(#[trigger] out@[j], keys@[j]),
        decreases keys.len() - i,
    {
        let k = &keys[i];
        out.push(
            KeyInfo {
                id: k.id.clone(),
                name: k.name.clone(),
                prefix: k.prefix.clone(),
                created_at: k.created_at,
                last_used_at: k.last_used_at,
                revoked: k.revoked,
                scopes: copy_scopes(&k.scopes),
                expires_at: k.expires_at,
            },
        );
        i += 1;
    }
    out
}

/// A key with the id `kid`.
pub open spec fn has_id(kid: Seq<char>) -> spec_fn(ApiKey) -> bool {
    |k: ApiKey| k.id@ == kid
}

/// How an unknown key is reported.
pub open spec fn key_not_found_text(kid: Seq<char>, pid: Seq<char>) -> Seq<char> {
    "key '"@ + kid + "' not found on project '"@ + pid + "'"@
}

/// The position of the key `kid` among the project's own keys, or that there is none.
pub fn find_key(keys: &Vec<ApiKey>, kid: &str, pid: &str) -> (r: Result<usize, ApiError>)
    ensures
        match first_where(keys@, has_id(kid@)) {
            Some(i) => r is Ok && r->Ok_0 == i && i < keys@.len(),
            None => fails_with(r, ErrorCode::NotFound, key_not_found_text(kid@, pid@)),
        },
{
    let mut i: usize = 0;
    while i < keys.len()
        invariant
            i <= keys.len(),
            forall|j: int| 0 <= j < i ==> !has_id(kid@)(#[trigger] keys@[j]),
        decreases keys.len() - i,
    {
        if same(keys[i].id.as_str(), kid) {
            proof {
                first_where_is(keys@, has_id(kid@), i as int);
            }
            return Ok(i);
        }
        i += 1;
    }
    proof {
        first_where_none(keys@, has_id(kid@));
    }
    let mut m = "key '".to_owned();
    m.append(kid);
    m.append("' not found on project '");
    m.append(pid);
    m.append("'");
    Err(ApiError::not_found(m.as_str()))
}

/// What a rotation does to the predecessor.
#[derive(Debug, Clone, Copy, PartialEq, Eq, Structural)]
pub enum Retirement {
    /// For good: no later reading of any clock can undo it.
    Revoke,
    /// From this instant on.
    ExpireAt(Timestamp),
}

impl Retirement {
    /// Whether a key retired this way still opens doors at `at`.
    pub open spec fn live_at(self, at: Timestamp) -> bool {
        match self {
            Retirement::Revoke => false,
            Retirement::ExpireAt(d) => d.nanos > at.nanos,
        }
    }
}

/// When the grace window closes: after `grace` seconds, or at the expiry the key already had if that
/// is sooner.
pub open spec fn window_end(old_expiry: Option<Timestamp>, grace: int, now: Timestamp) -> int {
    let end = now.nanos + grace * NANOS_PER_SEC;
    match old_expiry {
        Some(e) => if e.nanos < end {
            e.nanos as int
        } else {
            end
        },
        None => end,
    }
}

/// How a rotation retires the predecessor: at the end of the window, or at once and for good where
/// the window is already closed.
pub open spec fn retired(old_expiry: Option<Timestamp>, grace: int, now: Timestamp) -> Retirement {
    if grace <= 0 || window_end(old_expiry, grace, now) <= now.nanos {
        Retirement::Revoke
    } else {
        Retirement::ExpireAt(Timestamp { nanos: window_end(old_expiry, grace, now) as i128 })
    }
}

/// How the predecessor is retired. A window that is already closed is a revocation, not a date: a
/// date is read against the clock on every later request, and a clock can step back.
pub fn retirement_for(old_expiry: Option<Timestamp>, grace: i64, now: Timestamp) -> (r: Retirement)
    requires
        now.valid(),
        grace <= 9_000_000_000_000,
    ensures
        r == retired(old_expiry, grace as int, now),
{
    if grace <= 0 {
        return Retirement::Revoke;
    }
    let mut deadline = now.plus_secs(grace);
    if let Some(e) = old_expiry {
        if e.nanos < deadline.nanos {
            deadline = e;
        }
    }
    if deadline.nanos <= now.nanos {
        return Retirement::Revoke;
    }
    Retirement::ExpireAt(deadline)
}

/// How a rotation of a revoked key is refused.
pub open spec fn nothing_to_rotate_text(kid: Seq<char>, pid: Seq<char>) -> Seq<char> {
    "key '"@ + kid
        + "' is revoked; there is nothing to rotate — mint a new one with POST /v1/projects/"@ + pid
        + "/keys"@
}

/// How a grace window out of range is refused.
pub open spec fn bad_grace_text(grace: int) -> Seq<char> {
    "grace_secs must be between 0 and 604800 (got "@ + dec_int(grace) + ")"@
}

/// The grace window of a rotation: the one asked for, or an hour. A revoked key has nothing to rotate,
/// and a window below zero or beyond a week is refused.
pub fn rotation_grace(old: &ApiKey, kid: &str, pid: &str, asked: Option<i64>) -> (r: Result<
    i64,
    ApiError,
>)
    ensures
        ({
            let grace = match asked {
                Some(g) => g,
                None => DEFAULT_GRACE_SECS,
            };
            if old.revoked {
                fails_with(r, ErrorCode::Conflict, nothing_to_rotate_text(kid@, pid@))
            } else if 0 <= grace <= MAX_GRACE_SECS {
                r == Ok::<i64, ApiError>(grace)
            } else {
                fails_with(r, ErrorCode::BadRequest, bad_grace_text(grace as int))
            }
        }),
{
    if old.revoked {
        let mut m = "key '".to_owned();
        m.append(kid);
        m.append(
            "' is revoked; there is nothing to rotate — mint a new one with POST /v1/projects/",
        );
        m.append(pid);
        m.append("/keys");
        return Err(ApiError::conflict(m.as_str()));
    }
    let grace: i64 = match asked {
        Some(g) => g,
        None => DEFAULT_GRACE_SECS,
    };
    if grace < 0 || grace > MAX_GRACE_SECS {
        let n = show_i64(grace);
        let mut m = "grace_secs must be between 0 and 604800 (got ".to_owned();
        m.append(n.as_str());
        m.append(")");
        return Err(ApiError::bad_request(m.as_str()));
    }
    Ok(grace)
}

/// A freshly minted key: the secret's prefix and digest with what was asked for, never used and not
/// revoked.
pub fn mint(
    id: String,
    project_id: String,
    name: String,
    prefix: String,
    key_hash: String,
    scopes: Vec<Scope>,
    expires_at: Option<Timestamp>,
    now: Timestamp,
) -> (r: ApiKey)
    ensures
        r == (ApiKey {
            id,
            project_id,
            name,
            prefix,
            key_hash,
            created_at: now,
            last_used_at: None,
            revoked: false,
            scopes,
            expires_at,
        }),
{
    ApiKey {
        id,
        project_id,
        name,
        prefix,
        key_hash,
        created_at: now,
        last_used_at: None,
        revoked: false,
        scopes,
        expires_at,
    }
}

/// The successor of a rotated key: same project, name, scopes and expiry, under a new id and secret.
pub fn successor(old: &ApiKey, id: String, prefix: String, key_hash: String, now: Timestamp) -> (r:
    ApiKey)
    ensures
        r.project_id == old.project_id,
        r.name == old.name,
        r.scopes@ == old.scopes@,
        r.expires_at == old.expires_at,
        r.id == id,
        r.prefix == prefix,
        r.key_hash == key_hash,
        r.created_at == now,
        r.last_used_at is None,
        !r.revoked,
{
    mint(
        id,
        old.project_id.clone(),
        old.name.clone(),
        prefix,
        key_hash,
        copy_scopes(&old.scopes),
        old.expires_at,
        now,
    )
}

/// What is shown of the predecessor once it was retired.
pub fn predecessor(old: ApiKey, how: Retirement) -> (r: KeyInfo)
    ensures
        r.revoked == (how == Retirement::Revoke),
        r.expires_at == (match how {
            Retirement::Revoke => old.expires_at,
            Retirement::ExpireAt(d) => Some(d),
        }),
        shows_key(KeyInfo { revoked: old.revoked, expires_at: old.expires_at, ..r }, old),
{
    let mut i = KeyInfo::of(old);
    match how {
        Retirement::Revoke => {
            i.revoked = true;
        },
        Retirement::ExpireAt(d) => {
            i.revoked = false;
            i.expires_at = Some(d);
        },
    }
    i
}

/// Rotating a key never lengthens its life: at any later instant at which the retired key still opens
/// doors, it would have done so without the rotation.
pub proof fn rotation_only_shortens(old_expiry: Option<Timestamp>, grace: int, now: Timestamp, at: Timestamp)
    requires
        now.valid(),
        old_expiry is Some ==> old_expiry->0.valid(),
        grace <= MAX_GRACE_SECS,
    ensures
        retired(old_expiry, grace, now).live_at(at) ==> (old_expiry is None || old_expiry->0.nanos
            > at.nanos),
        retired(old_expiry, grace, now).live_at(at) ==> at.nanos < now.nanos + grace * NANOS_PER_SEC,
{
    if grace > 0 {
        assert(grace * NANOS_PER_SEC <= MAX_GRACE_SECS * NANOS_PER_SEC) by (nonlinear_arith)
            requires
                grace <= MAX_GRACE_SECS,
                NANOS_PER_SEC == 1_000_000_000i128,
        ;
    }
}

/// Retiring at once is for good: with no grace window the predecessor opens nothing at any reading of
/// any clock, one that stepped back included.
pub proof fn retiring_at_once_survives_any_clock(
    old_expiry: Option<Timestamp>,
    now: Timestamp,
    at: Timestamp,
)
    ensures
        !retired(old_expiry, 0, now).live_at(at),
{
}

// ------------------------------------------------------------------ what becomes of keys

proof fn named_scopes(raw: Seq<String>, i: int)
    requires
        scopes_named(raw) is Some,
        0 <= i < raw.len(),
    ensures
        Scope::named(raw[i]@) is Some,
        scopes_named(raw)->0.contains(Scope::named(raw[i]@)->0),
    decreases raw.len(),
{
    let d = raw.drop_last();
    let rest = scopes_named(d)->0;
    let s = Scope::named(raw.last()@)->0;
    let all = scopes_named(raw)->0;
    if i < d.len() {
        named_scopes(d, i);
        assert(d[i] == raw[i]);
        let x = Scope::named(raw[i]@)->0;
        let k = choose|k: int| 0 <= k < rest.len() && rest[k] == x;
        assert(all[k] == x);
    } else if !rest.contains(s) {
        assert(all[all.len() - 1] == s);
    }
}

/// A key gets exactly the scopes that were named for it, each once: every name is read, nothing is added,
/// a word that is no scope refuses the whole, and so does naming none; where nothing is said it may write
/// and read.
pub proof fn a_key_gets_the_scopes_named(raw: &Option<Vec<String>>, r: Result<Vec<Scope>, ApiError>, i: int)
    requires
        call_ensures(parse_scopes, (raw,), r),
    ensures
        *raw is None ==> r is Ok && r->Ok_0@ == seq![Scope::Ingest, Scope::Read],
        *raw is Some && raw->0@.len() == 0 ==> r is Err && r->Err_0.code is BadRequest,
        *raw is Some && 0 <= i < raw->0@.len() ==> {
            let w = ascii_lower(raw->0@[i]@);
            &&& w != "ingest"@ && w != "read"@ && w != "manage"@ ==> r is Err && r->Err_0.code is BadRequest
            &&& r is Ok && w == "ingest"@ ==> r->Ok_0@.contains(Scope::Ingest)
            &&& r is Ok && w == "read"@ ==> r->Ok_0@.contains(Scope::Read)
            &&& r is Ok && w == "manage"@ ==> r->Ok_0@.contains(Scope::Manage)
        },
        *raw is Some && r is Ok ==> r->Ok_0@.no_duplicates() && forall|k: int|
            0 <= k < r->Ok_0@.len() ==> exists|j: int|
                0 <= j < raw->0@.len() && Scope::named((#[trigger] raw->0@[j])@) == Some(
                    #[trigger] r->Ok_0@[k],
                ),
{
    reveal_strlit("ingest");
    reveal_strlit("read");
    reveal_strlit("manage");
    assert("ingest"@[0] == 'i' && "read"@[0] == 'r' && "manage"@[0] == 'm');
    if *raw is Some {
        let v = raw->0@;
        if scopes_named(v) is Some {
            if 0 <= i < v.len() {
                named_scopes(v, i);
            }
            scopes_come_from_names(v);
        }
    }
}

proof fn scopes_come_from_names(raw: Seq<String>)
    requires
        scopes_named(raw) is Some,
    ensures
        scopes_named(raw)->0.no_duplicates(),
        forall|k: int|
            0 <= k < scopes_named(raw)->0.len() ==> exists|j: int|
                0 <= j < raw.len() && Scope::named((#[trigger] raw[j])@) == Some(
                    #[trigger] scopes_named(raw)->0[k],
                ),
    decreases raw.len(),
{
    if raw.len() > 0 {
        let d = raw.drop_last();
        scopes_come_from_names(d);
        let rest = scopes_named(d)->0;
        let all = scopes_named(raw)->0;
        assert forall|k: int| 0 <= k < all.len() implies exists|j: int|
            0 <= j < raw.len() && Scope::named((#[trigger] raw[j])@) == Some(#[trigger] all[k]) by {
            if k < rest.len() {
                assert(all[k] == rest[k]);
                let j = choose|j: int|
                    0 <= j < d.len() && Scope::named((#[trigger] d[j])@) == Some(rest[k]);
                assert(raw[j] == d[j]);
            } else {
                assert(Scope::named(raw[raw.len() - 1]@) == Some(all[k]));
            }
        }
    }
}

/// A key is minted with what was asked for, never used and not revoked; and a key that would be dead on
/// arrival is refused.
pub proof fn a_key_is_minted_alive(
    id: String,
    project_id: String,
    name: String,
    prefix: String,
    key_hash: String,
    scopes: Vec<Scope>,
    expires_at: Option<Timestamp>,
    now: Timestamp,
    r: ApiKey,
    checked: Result<(), ApiError>,
)
    requires
        call_ensures(mint, (id, project_id, name, prefix, key_hash, scopes, expires_at, now), r),
        call_ensures(check_expiry, (expires_at, now), checked),
    ensures
        r.id == id && r.project_id == project_id && r.name == name && r.prefix == prefix,
        r.key_hash == key_hash && r.scopes == scopes && r.expires_at == expires_at,
        r.created_at == now && r.last_used_at is None && !r.revoked,
        checked is Ok <==> (expires_at is Some ==> now.nanos < expires_at->0.nanos),
        checked is Err ==> checked->Err_0.code is BadRequest,
{
}

/// A key is shown as it is, field by field, but for its digest; one that was just revoked is shown as
/// revoked.
pub proof fn a_key_is_shown_as_it_is(keys: Vec<ApiKey>, r: Vec<KeyInfo>, i: int, k: ApiKey, one: KeyInfo, gone: KeyInfo)
    requires
        call_ensures(list_keys, (keys,), r),
        call_ensures(KeyInfo::of, (k,), one),
        call_ensures(KeyInfo::revoked, (k,), gone),
        0 <= i < keys@.len(),
    ensures
        r@.len() == keys@.len(),
        ({
            let x = r@[i];
            let y = keys@[i];
            &&& x.id@ == y.id@ && x.name@ == y.name@ && x.prefix@ == y.prefix@
            &&& x.created_at == y.created_at && x.last_used_at == y.last_used_at && x.expires_at
                == y.expires_at
            &&& x.revoked == y.revoked && x.scopes@ == y.scopes@
        }),
        one.id@ == k.id@ && one.name@ == k.name@ && one.prefix@ == k.prefix@ && one.created_at
            == k.created_at && one.last_used_at == k.last_used_at && one.expires_at == k.expires_at
            && one.revoked == k.revoked && one.scopes@ == k.scopes@,
        gone.revoked,
        gone.id@ == k.id@ && gone.name@ == k.name@ && gone.prefix@ == k.prefix@ && gone.created_at
            == k.created_at && gone.last_used_at == k.last_used_at && gone.expires_at == k.expires_at
            && gone.scopes@ == k.scopes@,
{
    assert(shows_key(r@[i], keys@[i]));
}

/// A key is found by its id, the first that has it, and reported where none has.
pub proof fn a_key_is_found_by_its_id(keys: &Vec<ApiKey>, kid: &str, pid: &str, r: Result<usize, ApiError>)
    requires
        call_ensures(find_key, (keys, kid, pid), r),
    ensures
        r is Ok ==> r->Ok_0 < keys@.len() && keys@[r->Ok_0 as int].id@ == kid@ && forall|j: int|
            0 <= j < r->Ok_0 ==> (#[trigger] keys@[j]).id@ != kid@,
        r is Err ==> r->Err_0.code is NotFound && forall|j: int|
            0 <= j < keys@.len() ==> (#[trigger] keys@[j]).id@ != kid@,
{
    crate::seqs::first_where_tells(keys@, has_id(kid@));
    if r is Ok {
        let i = r->Ok_0 as int;
        assert forall|j: int| 0 <= j < i implies (#[trigger] keys@[j]).id@ != kid@ by {
            assert(!has_id(kid@)(keys@[j]));
        }
    } else {
        assert forall|j: int| 0 <= j < keys@.len() implies (#[trigger] keys@[j]).id@ != kid@ by {
            assert(!has_id(kid@)(keys@[j]));
        }
    }
}

/// A rotated key keeps working for its grace and no longer: it is revoked at once without one, or where
/// its own time has run out; otherwise it ends when the grace does, or at its own end where that comes
/// first.
pub proof fn a_rotated_key_ends_with_its_grace(
    old_expiry: Option<Timestamp>,
    grace: i64,
    now: Timestamp,
    r: Retirement,
)
    requires
        now.valid(),
        grace <= 9_000_000_000_000,
        call_ensures(retirement_for, (old_expiry, grace, now), r),
    ensures
        grace <= 0 ==> r is Revoke,
        old_expiry is Some && old_expiry->0.nanos <= now.nanos ==> r is Revoke,
        grace > 0 && (old_expiry is Some ==> now.nanos < old_expiry->0.nanos) ==> (
        r matches Retirement::ExpireAt(d) && d.nanos <= now.nanos + grace * 1_000_000_000 && (
        old_expiry is Some ==> d.nanos <= old_expiry->0.nanos) && (d.nanos == now.nanos + grace
            * 1_000_000_000 || (old_expiry is Some && d.nanos == old_expiry->0.nanos))),
{
}

/// A rotation's grace is an hour unless asked otherwise, never below zero nor beyond a week; and a revoked
/// key is not rotated.
pub proof fn a_grace_is_at_most_a_week(
    old: &ApiKey,
    kid: &str,
    pid: &str,
    asked: Option<i64>,
    r: Result<i64, ApiError>,
)
    requires
        call_ensures(rotation_grace, (old, kid, pid, asked), r),
    ensures
        old.revoked ==> r is Err && r->Err_0.code is Conflict,
        !old.revoked && asked is None ==> r is Ok && r->Ok_0 == 3600,
        !old.revoked && asked is Some ==> (r is Ok <==> 0 <= asked->0 <= 7 * 86_400),
        !old.revoked && asked is Some && r is Ok ==> r->Ok_0 == asked->0,
        !old.revoked && r is Err ==> r->Err_0.code is BadRequest,
{
}

/// A rotation hands everything a key may do on to its successor, under a new id and secret, and shows the
/// predecessor as it was but for how it ends.
pub proof fn a_rotation_hands_the_key_on(
    old: &ApiKey,
    was: ApiKey,
    id: String,
    prefix: String,
    key_hash: String,
    now: Timestamp,
    how: Retirement,
    next: ApiKey,
    prior: KeyInfo,
)
    requires
        *old == was,
        call_ensures(successor, (old, id, prefix, key_hash, now), next),
        call_ensures(predecessor, (was, how), prior),
    ensures
        next.project_id@ == old.project_id@ && next.name@ == old.name@ && next.scopes@ == old.scopes@,
        next.expires_at == old.expires_at,
        next.id == id && next.prefix == prefix && next.key_hash == key_hash && next.created_at == now,
        next.last_used_at is None && !next.revoked,
        prior.id@ == old.id@ && prior.name@ == old.name@ && prior.prefix@ == old.prefix@,
        prior.scopes@ == old.scopes@ && prior.created_at == old.created_at && prior.last_used_at
            == old.last_used_at,
        prior.revoked <==> how is Revoke,
        how matches Retirement::ExpireAt(d) ==> prior.expires_at == Some(d),
        how is Revoke ==> prior.expires_at == old.expires_at,
{
}

/// A key that is given no name is called `default`.
pub proof fn an_unnamed_key_is_the_default(r: String)
    requires
        call_ensures(default_key_name, (), r),
    ensures
        r@ == "default"@,
{
}

} // verus!
