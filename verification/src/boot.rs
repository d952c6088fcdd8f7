//! What is settled before the first request: settings, the storage backend, and which doors are guarded.
use vstd::prelude::*;

use crate::text::{has_prefix, same, starts_with};

verus! {

/// Where events are stored.
#[derive(Debug, Clone, Copy, PartialEq, Eq, Structural)]
pub enum Backend {
    Postgres,
    Firestore,
    Sqlite,
}

impl Backend {
    /// The backend's name.
    pub fn name(self) -> (r: &'static str)
        ensures
            r@ == (match self {
                Backend::Postgres => "postgres"@,
                Backend::Firestore => "firestore"@,
                Backend::Sqlite => "sqlite"@,
            }),
    {
        match self {
            Backend::Postgres => "postgres",
            Backend::Firestore => "firestore",
            Backend::Sqlite => "sqlite",
        }
    }
}

/// Which backend a database address selects: the one it names, and the embedded one where it names none
/// of the others or there is no address.
pub fn backend_of(url: Option<&str>) -> (r: Backend)
    ensures
        r == (match url {
            Some(u) => if has_prefix(u@, "postgres"@) {
                Backend::Postgres
            } else if has_prefix(u@, "firestore"@) {
                Backend::Firestore
            } else {
                Backend::Sqlite
            },
            None => Backend::Sqlite,
        }),
{
    match url {
        Some(u) => {
            if starts_with(u, "postgres") {
                Backend::Postgres
            } else if starts_with(u, "firestore") {
                Backend::Firestore
            } else {
                Backend::Sqlite
            }
        },
        None => Backend::Sqlite,
    }
}

/// A setting that is there but empty is not set.
pub fn set_value(raw: Option<String>) -> (r: Option<String>)
    ensures
        r == (if raw is Some && raw->0@.len() > 0 {
            raw
        } else {
            None
        }),
{
    match raw {
        Some(s) => {
            if s.as_str().is_empty() {
                None
            } else {
                Some(s)
            }
        },
        None => None,
    }
}

/// Which bound holds for a request body.
#[derive(Debug, Clone, Copy, PartialEq, Eq, Structural)]
pub enum BodyCap {
    /// The transport's own.
    Default,
    /// That of one event.
    Event,
    /// That of a batch.
    Batch,
}

/// How a door is guarded.
#[derive(Debug, Clone, Copy, PartialEq, Eq, Structural)]
pub struct DoorGuard {
    /// Whether its requests are shed under load.
    pub shed: bool,
    pub cap: BodyCap,
}

/// Whether a path is one that events come in by.
pub open spec fn is_ingest_path(path: Seq<char>) -> bool {
    path == "/v1/events"@ || path == "/v1/events/batch"@ || path == "/v1/traces"@
}

/// How a door is guarded: writes on the three ingest paths are shed under load, so that everything else,
/// an operator's reads of those paths too, stays answerable; and those paths bound the request body.
pub open spec fn guarded(post: bool, path: Seq<char>) -> DoorGuard {
    DoorGuard {
        shed: post && is_ingest_path(path),
        cap: if path == "/v1/events"@ {
            BodyCap::Event
        } else if path == "/v1/events/batch"@ || path == "/v1/traces"@ {
            BodyCap::Batch
        } else {
            BodyCap::Default
        },
    }
}

/// How a door is guarded. `post` says whether it is the path's POST.
pub fn door_guard(post: bool, path: &str) -> (r: DoorGuard)
    ensures
        r == guarded(post, path@),
{
    let event = same(path, "/v1/events");
    let batch = same(path, "/v1/events/batch") || same(path, "/v1/traces");
    DoorGuard {
        shed: post && (event || batch),
        cap: if event {
            BodyCap::Event
        } else if batch {
            BodyCap::Batch
        } else {
            BodyCap::Default
        },
    }
}

/// Reads are never shed: an operator can always see what an overloaded instance is doing.
pub proof fn reads_are_never_shed(path: Seq<char>)
    ensures
        !guarded(false, path).shed,
{
}

/// Whatever is shed under load also has its body bounded.
pub proof fn what_is_shed_is_bounded(post: bool, path: Seq<char>)
    ensures
        guarded(post, path).shed ==> guarded(post, path).cap != BodyCap::Default,
{
}

/// An address that begins with a backend's name selects it, and anything else the embedded one; each
/// backend goes by its own name.
pub proof fn an_address_selects_its_backend(url: Option<&str>, r: Backend, b: Backend, n: &'static str)
    requires
        call_ensures(backend_of, (url,), r),
        call_ensures(Backend::name, (b,), n),
    ensures
        r is Postgres <==> url is Some && has_prefix(url->0@, "postgres"@),
        r is Firestore <==> url is Some && has_prefix(url->0@, "firestore"@),
        url is None ==> r is Sqlite,
        b is Postgres ==> n@ == "postgres"@,
        b is Firestore ==> n@ == "firestore"@,
        b is Sqlite ==> n@ == "sqlite"@,
{
    reveal_strlit("postgres");
    reveal_strlit("firestore");
    if url is Some && has_prefix(url->0@, "postgres"@) && has_prefix(url->0@, "firestore"@) {
        let u = url->0@;
        assert(u.take("postgres"@.len() as int)[0] == 'p');
        assert(u.take("firestore"@.len() as int)[0] == 'f');
    }
}

/// An empty setting is not set.
pub proof fn an_empty_setting_is_not_set(raw: Option<String>, r: Option<String>)
    requires
        call_ensures(set_value, (raw,), r),
    ensures
        r is Some <==> raw is Some && raw->0@.len() > 0,
        r is Some ==> r == raw,
{
}

/// Only writes on the three paths that events come in by are shed; the door of one event bounds its body
/// by one event's, the batch's and the traces' by a batch's, and no other door by either.
pub proof fn ingest_doors_are_shed_and_bounded(post: bool, path: &str, r: DoorGuard)
    requires
        call_ensures(door_guard, (post, path), r),
    ensures
        r.shed <==> post && (path@ == "/v1/events"@ || path@ == "/v1/events/batch"@ || path@
            == "/v1/traces"@),
        r.cap is Event <==> path@ == "/v1/events"@,
        r.cap is Batch <==> path@ == "/v1/events/batch"@ || path@ == "/v1/traces"@,
{
    reveal_strlit("/v1/events");
    reveal_strlit("/v1/events/batch");
    reveal_strlit("/v1/traces");
    assert("/v1/events"@.len() == 10 && "/v1/events/batch"@.len() == 16 && "/v1/traces"@.len() == 10);
    assert("/v1/events"@[4] == 'e' && "/v1/traces"@[4] == 't');
}

} // verus!
