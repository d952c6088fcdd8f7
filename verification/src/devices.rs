//! The relay's device fleet: who is at a device door, what enrolment stores, and what a listing shows.
use vstd::prelude::*;

use crate::clock::{toward_zero, Timestamp, NANOS_PER_SEC};
use crate::error::{fails_with, plain_error, ApiError, ErrorCode};
use crate::text::{
    blank, clone_opt, clone_texts, trim_owned, trimmed, trimmed_empty_iff_blank, views,
};

verus! {

/// Seconds after its last contact for which a device counts as online.
pub const ONLINE_WITHIN_SECS: i64 = 300;

/// The device that a task run under the shared key is filed under.
pub const LEGACY_DEVICE_NAME: &'static str = "default";

/// An enrolled device.
#[derive(Debug)]
pub struct Device {
    pub id: String,
    pub project_id: Option<String>,
    pub name: String,
    pub key_prefix: String,
    pub key_hash: String,
    pub capabilities: Vec<String>,
    pub last_seen_at: Option<Timestamp>,
    pub agent_version: Option<String>,
    pub created_at: Timestamp,
    pub revoked: bool,
}

/// Who is at a device door.
#[derive(Debug)]
pub enum DeviceIdentity {
    /// A device of the fleet.
    Enrolled(Device),
    /// The shared key, or an operator.
    Legacy,
}

impl DeviceIdentity {
    /// What a leased task is filed under.
    pub fn task_device(&self) -> (r: String)
        ensures
            match *self {
                DeviceIdentity::Enrolled(d) => r@ == d.id@,
                DeviceIdentity::Legacy => r@ == LEGACY_DEVICE_NAME@,
            },
    {
        match self {
            DeviceIdentity::Enrolled(d) => d.id.clone(),
            DeviceIdentity::Legacy => LEGACY_DEVICE_NAME.to_owned(),
        }
    }
}

/// What a device door does next.
#[derive(Debug, Clone, Copy, PartialEq, Eq, Structural)]
pub enum DoorStep {
    /// Look the device key up; it opens the door or it does not.
    ResolveEnrolled,
    /// The shared key opens it.
    Legacy,
    /// Ask for an operator.
    Authenticate,
}

/// What a device door does with what was presented: a device key is looked up and nothing else is tried
/// for it; the shared key opens; anything else, nothing included, has to be an operator.
pub fn door_step(presented: bool, is_device_key: bool, is_shared_key: bool) -> (r: DoorStep)
    ensures
        r == (if presented && is_device_key {
            DoorStep::ResolveEnrolled
        } else if presented && is_shared_key {
            DoorStep::Legacy
        } else {
            DoorStep::Authenticate
        }),
{
    if presented && is_device_key {
        DoorStep::ResolveEnrolled
    } else if presented && is_shared_key {
        DoorStep::Legacy
    } else {
        DoorStep::Authenticate
    }
}

/// What a device key comes to: the device it belongs to, or why it opens nothing.
pub fn resolve_enrolled(found: Option<Device>, verified: bool) -> (r: Result<DeviceIdentity, ApiError>)
    ensures
        match found {
            None => fails_with(r, ErrorCode::Unauthorized, "unknown device key"@),
            Some(d) => if !verified {
                fails_with(r, ErrorCode::Unauthorized, "invalid device key"@)
            } else if d.revoked {
                fails_with(
                    r,
                    ErrorCode::Unauthorized,
                    "device '"@ + d.name@ + "' has been revoked"@,
                )
            } else {
                r == Ok::<DeviceIdentity, ApiError>(DeviceIdentity::Enrolled(d))
            },
        },
{
    match found {
        None => Err(ApiError::unauthorized("unknown device key")),
        Some(d) => {
            if !verified {
                return Err(ApiError::unauthorized("invalid device key"));
            }
            if d.revoked {
                let mut m = "device '".to_owned();
                m.append(d.name.as_str());
                m.append("' has been revoked");
                return Err(ApiError::unauthorized(m.as_str()));
            }
            Ok(DeviceIdentity::Enrolled(d))
        },
    }
}

/// What is said at boot where the shared key is still set.
pub const LEGACY_KEY_WARNING: &'static str = "LIGHTTRACK_RELAY_DEVICE_KEY is set: this instance still accepts the DEPRECATED shared relay device key, which authenticates with every capability and cannot be revoked, routed, or told apart from any other device holding it. Enrol devices instead (POST /v1/relay/devices) and unset it — it is kept for one release.";

/// What to warn of at boot.
pub fn warn_if_legacy_key(configured: bool) -> (r: Option<&'static str>)
    ensures
        !configured ==> r is None,
        configured ==> r is Some && r->0@ == LEGACY_KEY_WARNING@,
{
    if configured {
        Some(LEGACY_KEY_WARNING)
    } else {
        None
    }
}

/// Capabilities as they are stored: trimmed, blank ones left out.
pub open spec fn tidy(v: Seq<String>) -> Seq<Seq<char>>
    decreases v.len(),
{
    if v.len() == 0 {
        seq![]
    } else if blank(v.last()@) {
        tidy(v.drop_last())
    } else {
        tidy(v.drop_last()).push(trimmed(v.last()@))
    }
}

fn tidy_capabilities(v: &Vec<String>) -> (r: Vec<String>)
    ensures
        views(r@) == tidy(v@),
{
    let mut out: Vec<String> = Vec::new();
    let mut i: usize = 0;
    assert(views(out@) =~= tidy(v@.take(0)));
    while i < v.len()
        invariant
            i <= v.len(),
            views(out@) == tidy(v@.take(i as int)),
        decreases v.len() - i,
    {
        assert(v@.take(i + 1).drop_last() =~= v@.take(i as int));
        proof {
            trimmed_empty_iff_blank(v@[i as int]@);
        }
        let t = trim_owned(v[i].as_str());
        let ghost before = out@;
        if !t.as_str().is_empty() {
            out.push(t);
            assert(views(out@) =~= views(before).push(t@));
        }
        i += 1;
    }
    assert(v@.take(i as int) =~= v@);
    out
}

/// A freshly enrolled device: named, never seen, not revoked.
pub fn new_device(
    id: String,
    name: &str,
    project_id: Option<String>,
    capabilities: &Vec<String>,
    key_prefix: String,
    key_hash: String,
    now: Timestamp,
) -> (r: Result<Device, ApiError>)
    ensures
        if blank(name@) {
            fails_with(r, ErrorCode::BadRequest, "name is required"@)
        } else {
            &&& r is Ok
            &&& r->Ok_0.id == id
            &&& r->Ok_0.name@ == trimmed(name@)
            &&& r->Ok_0.project_id == (if project_id is Some && !blank(project_id->0@) {
                project_id
            } else {
                None
            })
            &&& views(r->Ok_0.capabilities@) == tidy(capabilities@)
            &&& r->Ok_0.key_prefix == key_prefix
            &&& r->Ok_0.key_hash == key_hash
            &&& r->Ok_0.last_seen_at is None
            &&& r->Ok_0.agent_version is None
            &&& r->Ok_0.created_at == now
            &&& !r->Ok_0.revoked
        },
{
    proof {
        trimmed_empty_iff_blank(name@);
    }
    let name = trim_owned(name);
    if name.as_str().is_empty() {
        return Err(ApiError::bad_request("name is required"));
    }
    let project_id = match project_id {
        Some(p) => {
            proof {
                trimmed_empty_iff_blank(p@);
            }
            if p.as_str().trim().is_empty() {
                None
            } else {
                Some(p)
            }
        },
        None => None,
    };
    Ok(
        Device {
            id,
            project_id,
            name,
            key_prefix,
            key_hash,
            capabilities: tidy_capabilities(capabilities),
            last_seen_at: None,
            agent_version: None,
            created_at: now,
            revoked: false,
        },
    )
}

/// Whether `r` is a device without its digest.
pub open spec fn without_digest(r: Device, d: Device) -> bool {
    r.key_hash@.len() == 0 && r.capabilities@ == d.capabilities@ && r == (Device {
        key_hash: r.key_hash,
        capabilities: r.capabilities,
        ..d
    })
}

impl Device {
    /// The device without its digest, as any answer shows it.
    pub fn redacted(&self) -> (r: Device)
        ensures
            without_digest(r, *self),
    {
        Device {
            id: self.id.clone(),
            project_id: clone_opt(&self.project_id),
            name: self.name.clone(),
            key_prefix: self.key_prefix.clone(),
            key_hash: String::new(),
            capabilities: clone_texts(&self.capabilities),
            last_seen_at: self.last_seen_at,
            agent_version: clone_opt(&self.agent_version),
            created_at: self.created_at,
            revoked: self.revoked,
        }
    }
}

/// A device as an operator reads it.
#[derive(Debug)]
pub struct DeviceView {
    pub device: Device,
    /// Seconds since its last contact.
    pub seen_secs_ago: Option<i64>,
    pub online: bool,
}

/// Seconds since a device's last contact, rounded toward zero.
pub open spec fn seen_ago(d: Device, now: Timestamp) -> Option<int> {
    match d.last_seen_at {
        Some(t) => Some(toward_zero(now.nanos - t.nanos, NANOS_PER_SEC as int)),
        None => None,
    }
}

/// A device as an operator reads it: without its digest, and online where its last contact is recent and
/// it is not revoked.
pub fn view_device(d: &Device, now: Timestamp) -> (r: DeviceView)
    requires
        now.valid(),
        d.last_seen_at is Some ==> d.last_seen_at->0.valid(),
    ensures
        without_digest(r.device, *d),
        match seen_ago(*d, now) {
            Some(s) => r.seen_secs_ago is Some && r.seen_secs_ago->0 == s,
            None => r.seen_secs_ago is None,
        },
        r.online == (!d.revoked && seen_ago(*d, now) is Some && seen_ago(*d, now)->0
            <= ONLINE_WITHIN_SECS),
{
    let seen_secs_ago: Option<i64> = match d.last_seen_at {
        Some(t) => Some(now.secs_since(t)),
        None => None,
    };
    let recent = match seen_secs_ago {
        Some(s) => s <= ONLINE_WITHIN_SECS,
        None => false,
    };
    DeviceView { device: d.redacted(), seen_secs_ago, online: !d.revoked && recent }
}

/// How a device that is not there is reported.
pub fn device_not_found(id: &str) -> (r: ApiError)
    ensures
        plain_error(r, ErrorCode::NotFound, "device '"@ + id@ + "' not found"@),
{
    let mut m = "device '".to_owned();
    m.append(id);
    m.append("' not found");
    ApiError::not_found(m.as_str())
}

/// What revoking is answered with: the device read back, without its digest, or that there is none.
pub fn revoke_answer(id: &str, changed: bool, found: Option<Device>) -> (r: Result<Device, ApiError>)
    ensures
        changed && found is Some ==> r is Ok && without_digest(r->Ok_0, found->0),
        !(changed && found is Some) ==> fails_with(
            r,
            ErrorCode::NotFound,
            "device '"@ + id@ + "' not found"@,
        ),
{
    if !changed {
        return Err(device_not_found(id));
    }
    match found {
        Some(d) => Ok(d.redacted()),
        None => Err(device_not_found(id)),
    }
}

// ------------------------------------------------------------------ what the fleet's doors do

/// A device key is looked up and nothing else is tried for it; the shared key opens as such; anything
/// else has to be an operator's. A task is filed under the device that leased it.
pub proof fn a_door_opens_for_what_is_presented(
    presented: bool,
    device: bool,
    shared: bool,
    r: DoorStep,
    who: &DeviceIdentity,
    name: String,
)
    requires
        call_ensures(door_step, (presented, device, shared), r),
        call_ensures(DeviceIdentity::task_device, (who,), name),
    ensures
        r is ResolveEnrolled <==> presented && device,
        r is Legacy <==> presented && !device && shared,
        r is Authenticate <==> !presented || (!device && !shared),
        match *who {
            DeviceIdentity::Enrolled(d) => name@ == d.id@,
            DeviceIdentity::Legacy => name@ == "default"@,
        },
{
}

/// A device's key opens the door exactly where the device is known, its key checks out and it was not
/// revoked; then it is that device.
pub proof fn a_device_opens_for_itself(
    found: Option<Device>,
    verified: bool,
    r: Result<DeviceIdentity, ApiError>,
)
    requires
        call_ensures(resolve_enrolled, (found, verified), r),
    ensures
        r is Ok <==> found is Some && verified && !found->0.revoked,
        r is Ok ==> r->Ok_0 == DeviceIdentity::Enrolled(found->0),
        r is Err ==> r->Err_0.code is Unauthorized,
{
}

proof fn tidy_holds(v: Seq<String>)
    ensures
        forall|i: int|
            0 <= i < v.len() && !blank((#[trigger] v[i])@) ==> tidy(v).contains(trimmed(v[i]@)),
        forall|k: int|
            0 <= k < tidy(v).len() ==> exists|i: int|
                0 <= i < v.len() && !blank((#[trigger] v[i])@) && #[trigger] tidy(v)[k] == trimmed(v[i]@),
    decreases v.len(),
{
    if v.len() > 0 {
        let d = v.drop_last();
        tidy_holds(d);
        let t = tidy(d);
        let all = tidy(v);
        assert forall|i: int| 0 <= i < v.len() && !blank((#[trigger] v[i])@) implies all.contains(
            trimmed(v[i]@),
        ) by {
            if i < d.len() {
                assert(d[i] == v[i]);
                let k = choose|k: int| 0 <= k < t.len() && t[k] == trimmed(d[i]@);
                assert(all[k] == t[k]);
            } else {
                assert(all[all.len() - 1] == trimmed(v[i]@));
            }
        }
        assert forall|k: int| 0 <= k < all.len() implies exists|i: int|
            0 <= i < v.len() && !blank((#[trigger] v[i])@) && #[trigger] all[k] == trimmed(v[i]@) by {
            if k < t.len() {
                assert(all[k] == t[k]);
                let i = choose|i: int|
                    0 <= i < d.len() && !blank((#[trigger] d[i])@) && t[k] == trimmed(d[i]@);
                assert(v[i] == d[i]);
            } else {
                assert(!blank(v[v.len() - 1]@));
            }
        }
    }
}

/// A device is enrolled under its name, with the project it is for where one is named, and with every
/// capability that says anything, trimmed, and no other; it was never seen and is not revoked.
pub proof fn a_device_is_enrolled_as_asked(
    id: String,
    name: &str,
    project_id: Option<String>,
    capabilities: &Vec<String>,
    key_prefix: String,
    key_hash: String,
    now: Timestamp,
    r: Result<Device, ApiError>,
)
    requires
        call_ensures(
            new_device,
            (id, name, project_id, capabilities, key_prefix, key_hash, now),
            r,
        ),
    ensures
        r is Ok <==> !blank(name@),
        r is Err ==> r->Err_0.code is BadRequest,
        r is Ok ==> {
            let d = r->Ok_0;
            &&& d.id == id && d.name@ == trimmed(name@) && d.key_prefix == key_prefix && d.key_hash
                == key_hash
            &&& d.created_at == now && d.last_seen_at is None && d.agent_version is None && !d.revoked
            &&& project_id is Some && !blank(project_id->0@) ==> d.project_id == project_id
            &&& project_id is None || blank(project_id->0@) ==> d.project_id is None
            &&& forall|i: int|
                0 <= i < capabilities@.len() && !blank((#[trigger] capabilities@[i])@) ==> exists|k: int|
                    0 <= k < d.capabilities@.len() && (#[trigger] d.capabilities@[k])@ == trimmed(
                        capabilities@[i]@,
                    )
            &&& forall|k: int|
                0 <= k < d.capabilities@.len() ==> exists|i: int|
                    0 <= i < capabilities@.len() && !blank((#[trigger] capabilities@[i])@) && (
                    #[trigger] d.capabilities@[k])@ == trimmed(capabilities@[i]@)
        },
{
    if r is Ok {
        let d = r->Ok_0;
        tidy_holds(capabilities@);
        let w = views(d.capabilities@);
        let t = tidy(capabilities@);
        assert(w.len() == d.capabilities@.len());
        assert(forall|k: int| 0 <= k < w.len() ==> w[k] == (#[trigger] d.capabilities@[k])@);
        assert forall|i: int| 0 <= i < capabilities@.len() && !blank((#[trigger] capabilities@[i])@) implies exists|
            k: int,
        |
            0 <= k < d.capabilities@.len() && (#[trigger] d.capabilities@[k])@ == trimmed(
                capabilities@[i]@,
            ) by {
            assert(t.contains(trimmed(capabilities@[i]@)));
            let k = choose|k: int| 0 <= k < t.len() && t[k] == trimmed(capabilities@[i]@);
            assert(d.capabilities@[k]@ == t[k]);
        }
        assert forall|k: int| 0 <= k < d.capabilities@.len() implies exists|i: int|
            0 <= i < capabilities@.len() && !blank((#[trigger] capabilities@[i])@) && (
            #[trigger] d.capabilities@[k])@ == trimmed(capabilities@[i]@) by {
            assert(w[k] == t[k]);
            let i = choose|i: int|
                0 <= i < capabilities@.len() && !blank((#[trigger] capabilities@[i])@) && t[k] == trimmed(
                    capabilities@[i]@,
                );
            assert(!blank(capabilities@[i]@));
        }
    }
}

/// No answer shows a device's digest, and everything else of it is shown as it is; a device is online
/// exactly where it is not revoked and was seen within the last five minutes.
pub proof fn a_device_is_shown_without_its_digest(
    d: &Device,
    now: Timestamp,
    v: DeviceView,
    x: Device,
    id: &str,
    changed: bool,
    found: Option<Device>,
    a: Result<Device, ApiError>,
)
    requires
        now.valid(),
        d.last_seen_at is Some ==> d.last_seen_at->0.valid(),
        call_ensures(view_device, (d, now), v),
        call_ensures(Device::redacted, (d,), x),
        call_ensures(revoke_answer, (id, changed, found), a),
    ensures
        x.key_hash@.len() == 0 && v.device.key_hash@.len() == 0,
        x.id == d.id && x.name == d.name && x.project_id == d.project_id && x.key_prefix == d.key_prefix,
        x.capabilities@ == d.capabilities@ && x.last_seen_at == d.last_seen_at && x.agent_version
            == d.agent_version && x.created_at == d.created_at && x.revoked == d.revoked,
        v.device.id == d.id && v.device.name == d.name && v.device.capabilities@ == d.capabilities@
            && v.device.revoked == d.revoked && v.device.last_seen_at == d.last_seen_at,
        v.seen_secs_ago is Some <==> d.last_seen_at is Some,
        d.last_seen_at is Some && d.last_seen_at->0.nanos <= now.nanos ==> v.seen_secs_ago->0
            * 1_000_000_000 <= now.nanos - d.last_seen_at->0.nanos < (v.seen_secs_ago->0 + 1)
            * 1_000_000_000,
        v.online <==> !d.revoked && d.last_seen_at is Some && now.nanos - d.last_seen_at->0.nanos < 301
            * 1_000_000_000,
        a is Ok <==> changed && found is Some,
        a is Ok ==> a->Ok_0.key_hash@.len() == 0 && a->Ok_0.id == found->0.id,
        a is Err ==> a->Err_0.code is NotFound,
{
}

/// The old key is warned of exactly where it is configured.
pub proof fn the_old_key_is_warned_of_where_it_is_set(configured: bool, r: Option<&'static str>)
    requires
        call_ensures(warn_if_legacy_key, (configured,), r),
    ensures
        r is Some <==> configured,
{
}

} // verus!
