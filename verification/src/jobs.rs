//! The job queue's doors: what may be enqueued, and what claiming, cancelling, renewing and finishing
//! are answered with.
use vstd::prelude::*;

use crate::clock::Timestamp;
use crate::error::{fails_with, plain_error, ApiError, ErrorCode};
use crate::json::{
    copy_json, field, member_views, obj_view, put, put_member, put_reads_back, Json, JsonView, Member,
    Number, NumberView,
};
use crate::text::{any_same, quote, quoted, views};

verus! {

/// Seconds after which a worker that was not heard of counts as dead, when nobody says.
pub fn default_stale_secs() -> (r: i64)
    ensures
        r == 120,
{
    120
}

/// Samples of a benchmark run, when nobody says.
pub fn default_samples() -> (r: u32)
    ensures
        r == 1,
{
    1
}

/// The shortest such span a claim may ask for.
pub const MIN_STALE_SECS: i64 = 10;

/// The instant before which a worker that was not heard of counts as dead: never less than the floor
/// ago.
pub fn stale_before(asked: i64, now: Timestamp) -> (r: Timestamp)
    requires
        now.valid(),
        asked <= 9_000_000_000_000,
    ensures
        r.nanos == now.nanos - (if asked < MIN_STALE_SECS {
            MIN_STALE_SECS
        } else {
            asked
        }) * crate::clock::NANOS_PER_SEC,
{
    let secs: i64 = if asked < MIN_STALE_SECS {
        MIN_STALE_SECS
    } else {
        asked
    };
    now.plus_secs(-secs)
}

/// How an unknown kind of job is refused.
pub open spec fn unknown_kind_text(s: Seq<char>, vocabulary: Seq<char>) -> Seq<char> {
    "unknown job type "@ + quoted(s) + ": expected "@ + vocabulary
}

/// Refuses a kind of job that this build does not know, naming those it does.
pub fn parse_kind(s: &str, kinds: &Vec<String>, vocabulary: &str) -> (r: Result<(), ApiError>)
    ensures
        r is Ok <==> views(kinds@).contains(s@),
        r is Err ==> fails_with(r, ErrorCode::BadRequest, unknown_kind_text(s@, vocabulary@)),
{
    if any_same(kinds, s) {
        return Ok(());
    }
    let q = quote(s);
    let mut m = "unknown job type ".to_owned();
    m.append(q.as_str());
    m.append(": expected ");
    m.append(vocabulary);
    Err(ApiError::bad_request(m.as_str()))
}

/// Whether every kind that a worker declares is known.
pub open spec fn all_known(declared: Seq<String>, kinds: Seq<String>) -> bool {
    forall|i: int| 0 <= i < declared.len() ==> views(kinds).contains((#[trigger] declared[i])@)
}

/// Refuses a claim that declares an unknown kind, rather than narrowing the worker to the ones it
/// spelled right.
pub fn check_declared(declared: &Vec<String>, kinds: &Vec<String>, vocabulary: &str) -> (r: Result<
    (),
    ApiError,
>)
    ensures
        r is Ok <==> all_known(declared@, kinds@),
        r is Err ==> exists|i: int|
            0 <= i < declared@.len() && fails_with(
                r,
                ErrorCode::BadRequest,
                unknown_kind_text((#[trigger] declared@[i])@, vocabulary@),
            ) && forall|j: int| 0 <= j < i ==> views(kinds@).contains((#[trigger] declared@[j])@),
{
    let mut i: usize = 0;
    while i < declared.len()
        invariant
            i <= declared.len(),
            forall|j: int| 0 <= j < i ==> views(kinds@).contains((#[trigger] declared@[j])@),
        decreases declared.len() - i,
    {
        match parse_kind(declared[i].as_str(), kinds, vocabulary) {
            Ok(_) => {},
            Err(e) => {
                let r: Result<(), ApiError> = Err(e);
                assert(fails_with(
                    r,
                    ErrorCode::BadRequest,
                    unknown_kind_text(declared@[i as int]@, vocabulary@),
                ));
                return r;
            },
        }
        i += 1;
    }
    Ok(())
}

/// A job in the queue.
#[derive(Debug)]
pub struct Job {
    pub id: String,
    pub job_type: String,
    pub payload: Json,
    pub status: String,
    pub project_id: Option<String>,
    pub attempts: u32,
    pub max_attempts: u32,
    pub failures: u32,
    pub stale_reclaims: u32,
    pub progress: Option<String>,
    pub error: Option<String>,
    pub result: Json,
    pub claimed_at: Option<Timestamp>,
    pub created_at: Timestamp,
    pub updated_at: Timestamp,
}

/// A freshly queued job, or why its payload does not fit its kind.
pub fn new_job(
    id: String,
    kind: String,
    payload: Json,
    payload_fault: Option<String>,
    project_id: Option<String>,
    now: Timestamp,
) -> (r: Result<Job, ApiError>)
    ensures
        match payload_fault {
            Some(m) => fails_with(r, ErrorCode::BadRequest, m@),
            None => {
                &&& r is Ok
                &&& r->Ok_0.id == id
                &&& r->Ok_0.job_type == kind
                &&& r->Ok_0.payload == payload
                &&& r->Ok_0.status@ == "queued"@
                &&& r->Ok_0.project_id == project_id
                &&& r->Ok_0.attempts == 0 && r->Ok_0.failures == 0 && r->Ok_0.stale_reclaims == 0
                &&& r->Ok_0.max_attempts == 3
                &&& r->Ok_0.progress is None && r->Ok_0.error is None
                &&& r->Ok_0.result == Json::Null
                &&& r->Ok_0.claimed_at is None
                &&& r->Ok_0.created_at == now && r->Ok_0.updated_at == now
            },
        },
{
    match payload_fault {
        Some(m) => Err(ApiError::bad_request(m.as_str())),
        None => Ok(
            Job {
                id,
                job_type: kind,
                payload,
                status: "queued".to_owned(),
                project_id,
                attempts: 0,
                max_attempts: 3,
                failures: 0,
                stale_reclaims: 0,
                progress: None,
                error: None,
                result: Json::Null,
                claimed_at: None,
                created_at: now,
                updated_at: now,
            },
        ),
    }
}

/// Members with others set on top, one after the other.
pub open spec fn put_onto(base: Seq<(Seq<char>, JsonView)>, extra: Seq<(Seq<char>, JsonView)>) -> Seq<
    (Seq<char>, JsonView),
>
    decreases extra.len(),
{
    if extra.len() == 0 {
        base
    } else {
        put(put_onto(base, extra.drop_last()), extra.last().0, extra.last().1)
    }
}

/// What a benchmark run is told: the benchmark, and what the caller adds where that is an object.
pub open spec fn bench_run_view(benchmark: Seq<char>, extra: JsonView) -> JsonView {
    let base = seq![("benchmark_id"@, JsonView::Str(benchmark))];
    match extra {
        JsonView::Obj(m) => JsonView::Obj(put_onto(base, m)),
        _ => JsonView::Obj(base),
    }
}

/// What a benchmark run is told.
pub fn bench_run_payload(benchmark_id: &str, extra: &Json) -> (r: Json)
    ensures
        r@ == bench_run_view(benchmark_id@, extra@),
{
    broadcast use obj_view;

    let mut out: Vec<Member> = Vec::new();
    out.push(
        Member { name: "benchmark_id".to_owned(), value: Json::Str(benchmark_id.to_owned()) },
    );
    let ghost base = seq![("benchmark_id"@, JsonView::Str(benchmark_id@))];
    assert(member_views(out@) =~= base);
    if let Json::Obj(m) = extra {
        let ghost mv = member_views(m@);
        let mut i: usize = 0;
        assert(put_onto(base, mv.take(0)) =~= base);
        while i < m.len()
            invariant
                i <= m.len(),
                mv == member_views(m@),
                member_views(out@) == put_onto(base, mv.take(i as int)),
            decreases m.len() - i,
        {
            assert(mv.take(i + 1).drop_last() =~= mv.take(i as int));
            put_member(&mut out, m[i].name.as_str(), copy_json(&m[i].value));
            i += 1;
        }
        assert(mv.take(i as int) =~= mv);
    }
    Json::Obj(out)
}

/// What a caller adds to a benchmark run.
pub fn sampling(samples: u32, heal: bool) -> (r: Json)
    ensures
        r@ == JsonView::Obj(
            seq![
                ("heal"@, JsonView::Bool(heal)),
                ("samples"@, JsonView::Num(NumberView::Pos(samples as u64))),
            ],
        ),
{
    let mut m: Vec<Member> = Vec::new();
    m.push(Member { name: "heal".to_owned(), value: Json::Bool(heal) });
    m.push(Member { name: "samples".to_owned(), value: Json::Num(Number::Pos(samples as u64)) });
    proof {
        obj_view(m);
        assert(member_views(m@) =~= seq![
            ("heal"@, JsonView::Bool(heal)),
            ("samples"@, JsonView::Num(NumberView::Pos(samples as u64))),
        ]);
    }
    Json::Obj(m)
}

/// How a job that is not there is reported.
pub open spec fn job_not_found_text(id: Seq<char>) -> Seq<char> {
    "job '"@ + id + "' not found"@
}

/// How a job that is not there is reported.
pub fn job_not_found(id: &str) -> (r: ApiError)
    ensures
        plain_error(r, ErrorCode::NotFound, job_not_found_text(id@)),
{
    let mut m = "job '".to_owned();
    m.append(id);
    m.append("' not found");
    ApiError::not_found(m.as_str())
}

/// What cancelling came to.
#[derive(Debug)]
pub enum JobCancel {
    /// It was still queued and is gone.
    Cancelled,
    /// It was running; its worker stops at the next case.
    Cancelling,
    /// It had already ended, in this state.
    AlreadyFinished(String),
}

/// What a cancel is answered with: one that stopped nothing is a conflict, not a success.
pub fn cancel_answer(id: &str, outcome: Option<JobCancel>) -> (r: Result<JobCancel, ApiError>)
    ensures
        match outcome {
            None => fails_with(r, ErrorCode::NotFound, job_not_found_text(id@)),
            Some(JobCancel::AlreadyFinished(s)) => fails_with(
                r,
                ErrorCode::Conflict,
                "job '"@ + id@ + "' is already "@ + s@ + "; nothing was cancelled"@,
            ),
            Some(o) => r == Ok::<JobCancel, ApiError>(o),
        },
{
    match outcome {
        None => Err(job_not_found(id)),
        Some(JobCancel::AlreadyFinished(s)) => {
            let mut m = "job '".to_owned();
            m.append(id);
            m.append("' is already ");
            m.append(s.as_str());
            m.append("; nothing was cancelled");
            Err(ApiError::conflict(m.as_str()))
        },
        Some(o) => Ok(o),
    }
}

/// What a heartbeat is answered with: the renewed lease, or that it is no longer the caller's.
pub fn renew_answer(id: &str, renewed: Option<Timestamp>) -> (r: Result<Timestamp, ApiError>)
    ensures
        match renewed {
            Some(t) => r == Ok::<Timestamp, ApiError>(t),
            None => fails_with(
                r,
                ErrorCode::Conflict,
                "job '"@ + id@ + "' is no longer held by that lease; stop working on it"@,
            ),
        },
{
    match renewed {
        Some(t) => Ok(t),
        None => {
            let mut m = "job '".to_owned();
            m.append(id);
            m.append("' is no longer held by that lease; stop working on it");
            Err(ApiError::conflict(m.as_str()))
        },
    }
}

/// What recording a verdict came to.
#[derive(Debug)]
pub enum JobFinish {
    Finished,
    NoSuchJob,
    /// The job is in this state and under this lease, in words, and the verdict was not recorded.
    NotHeld { status: String, lease: String },
}

/// What a verdict is answered with: one that was not recorded is never acknowledged.
pub fn finish_answer(id: &str, outcome: JobFinish) -> (r: Result<(), ApiError>)
    ensures
        match outcome {
            JobFinish::Finished => r is Ok,
            JobFinish::NoSuchJob => fails_with(r, ErrorCode::NotFound, job_not_found_text(id@)),
            JobFinish::NotHeld { status, lease } => fails_with(
                r,
                ErrorCode::Conflict,
                "job '"@ + id@ + "' is "@ + status@ + " and not held by that lease (its lease is "@
                    + lease@ + "); the verdict you sent was NOT recorded"@,
            ),
        },
{
    match outcome {
        JobFinish::Finished => Ok(()),
        JobFinish::NoSuchJob => Err(job_not_found(id)),
        JobFinish::NotHeld { status, lease } => {
            let mut m = "job '".to_owned();
            m.append(id);
            m.append("' is ");
            m.append(status.as_str());
            m.append(" and not held by that lease (its lease is ");
            m.append(lease.as_str());
            m.append("); the verdict you sent was NOT recorded");
            Err(ApiError::conflict(m.as_str()))
        },
    }
}

// ------------------------------------------------------------------ what jobs come to

/// A worker counts as dead once it was not heard of for as long as was asked, and never within ten
/// seconds; two minutes and one sample are asked where nobody says.
pub proof fn a_worker_is_given_time(asked: i64, now: Timestamp, r: Timestamp, secs: i64, n: u32)
    requires
        now.valid(),
        asked <= 9_000_000_000_000,
        call_ensures(stale_before, (asked, now), r),
        call_ensures(default_stale_secs, (), secs),
        call_ensures(default_samples, (), n),
    ensures
        asked >= 10 ==> r.nanos + asked * 1_000_000_000 == now.nanos,
        asked < 10 ==> r.nanos + 10 * 1_000_000_000 == now.nanos,
        secs == 120,
        n == 1,
{
}

/// A kind of job is taken exactly where it is known; and a claim that declares one that is not is refused
/// as a whole, naming the first.
pub proof fn a_kind_has_to_be_known(
    s: &str,
    kinds: &Vec<String>,
    vocabulary: &str,
    r: Result<(), ApiError>,
    declared: &Vec<String>,
    c: Result<(), ApiError>,
)
    requires
        call_ensures(parse_kind, (s, kinds, vocabulary), r),
        call_ensures(check_declared, (declared, kinds, vocabulary), c),
    ensures
        r is Ok <==> exists|i: int| 0 <= i < kinds@.len() && (#[trigger] kinds@[i])@ == s@,
        r is Err ==> r->Err_0.code is BadRequest,
        c is Err ==> c->Err_0.code is BadRequest,
        c is Ok ==> forall|j: int|
            0 <= j < declared@.len() ==> exists|i: int|
                0 <= i < kinds@.len() && (#[trigger] kinds@[i])@ == (#[trigger] declared@[j])@,
{
    let w = views(kinds@);
    assert(w.len() == kinds@.len());
    assert(forall|i: int| 0 <= i < kinds@.len() ==> w[i] == (#[trigger] kinds@[i])@);
    if w.contains(s@) {
        let i = choose|i: int| 0 <= i < w.len() && w[i] == s@;
        assert(kinds@[i]@ == s@);
    }
    if exists|i: int| 0 <= i < kinds@.len() && (#[trigger] kinds@[i])@ == s@ {
        let i = choose|i: int| 0 <= i < kinds@.len() && (#[trigger] kinds@[i])@ == s@;
        assert(w[i] == s@);
    }
    if c is Ok {
        assert forall|j: int| 0 <= j < declared@.len() implies exists|i: int|
            0 <= i < kinds@.len() && (#[trigger] kinds@[i])@ == (#[trigger] declared@[j])@ by {
            assert(w.contains(declared@[j]@));
            let i = choose|i: int| 0 <= i < w.len() && w[i] == declared@[j]@;
            assert(kinds@[i]@ == declared@[j]@);
        }
    }
}

/// A job is queued as it was asked for: nothing tried, three attempts to go, nobody on it; a payload that
/// does not fit is refused in its own words.
pub proof fn a_job_is_queued_as_asked(
    id: String,
    kind: String,
    payload: Json,
    fault: Option<String>,
    project_id: Option<String>,
    now: Timestamp,
    r: Result<Job, ApiError>,
)
    requires
        call_ensures(new_job, (id, kind, payload, fault, project_id, now), r),
    ensures
        r is Ok <==> fault is None,
        r is Err ==> r->Err_0.code is BadRequest && r->Err_0.message@ == fault->0@,
        r is Ok ==> {
            let j = r->Ok_0;
            &&& j.id == id && j.job_type == kind && j.payload == payload && j.project_id == project_id
            &&& j.status@ == "queued"@ && j.max_attempts == 3
            &&& j.attempts == 0 && j.failures == 0 && j.stale_reclaims == 0
            &&& j.progress is None && j.error is None && j.claimed_at is None && j.result is Null
            &&& j.created_at == now && j.updated_at == now
        },
{
}

proof fn put_onto_reads(
    base: Seq<(Seq<char>, JsonView)>,
    extra: Seq<(Seq<char>, JsonView)>,
    k: Seq<char>,
)
    ensures
        (forall|i: int| 0 <= i < extra.len() ==> (#[trigger] extra[i]).0 != k) ==> field(
            JsonView::Obj(put_onto(base, extra)),
            k,
        ) == field(JsonView::Obj(base), k),
        forall|i: int|
            0 <= i < extra.len() && (#[trigger] extra[i]).0 == k && (forall|j: int|
                i < j < extra.len() ==> (#[trigger] extra[j]).0 != k) ==> field(
                JsonView::Obj(put_onto(base, extra)),
                k,
            ) == Some(extra[i].1),
    decreases extra.len(),
{
    if extra.len() > 0 {
        let d = extra.drop_last();
        put_onto_reads(base, d, k);
        let last = extra.last();
        put_reads_back(put_onto(base, d), last.0, last.1, k);
        if forall|i: int| 0 <= i < extra.len() ==> (#[trigger] extra[i]).0 != k {
            assert(extra[extra.len() - 1].0 != k);
            assert forall|i: int| 0 <= i < d.len() implies (#[trigger] d[i]).0 != k by {
                assert(d[i] == extra[i]);
            }
        }
        assert forall|i: int|
            0 <= i < extra.len() && (#[trigger] extra[i]).0 == k && (forall|j: int|
                i < j < extra.len() ==> (#[trigger] extra[j]).0 != k) implies field(
            JsonView::Obj(put_onto(base, extra)),
            k,
        ) == Some(extra[i].1) by {
            if i < d.len() {
                assert(extra[extra.len() - 1].0 != k);
                assert(d[i] == extra[i]);
                assert forall|j: int| i < j < d.len() implies (#[trigger] d[j]).0 != k by {
                    assert(d[j] == extra[j]);
                }
            }
        }
    }
}

/// A benchmark run is told its benchmark and everything that the caller adds, each member under its own
/// name; only what the caller says of the benchmark itself takes its place.
pub proof fn a_run_is_told_its_benchmark(
    benchmark: &str,
    extra: &Json,
    r: Json,
    m: Seq<(Seq<char>, JsonView)>,
    i: int,
)
    requires
        call_ensures(bench_run_payload, (benchmark, extra), r),
    ensures
        !(extra@ is Obj) ==> field(r@, "benchmark_id"@) == Some(JsonView::Str(benchmark@)),
        extra@ == JsonView::Obj(m) && (forall|j: int|
            0 <= j < m.len() ==> (#[trigger] m[j]).0 != "benchmark_id"@) ==> field(r@, "benchmark_id"@)
            == Some(JsonView::Str(benchmark@)),
        extra@ == JsonView::Obj(m) && 0 <= i < m.len() && (forall|j: int|
            i < j < m.len() ==> (#[trigger] m[j]).0 != m[i].0) ==> field(r@, m[i].0) == Some(m[i].1),
{
    let base = seq![("benchmark_id"@, JsonView::Str(benchmark@))];
    crate::seqs::first_where_is(base, crate::json::named("benchmark_id"@), 0);
    if extra@ == JsonView::Obj(m) {
        put_onto_reads(base, m, "benchmark_id"@);
        if 0 <= i < m.len() {
            put_onto_reads(base, m, m[i].0);
        }
    }
}

/// Samples and healing are told under their own names.
pub proof fn sampling_is_told_by_name(samples: u32, heal: bool, r: Json)
    requires
        call_ensures(sampling, (samples, heal), r),
    ensures
        field(r@, "heal"@) == Some(JsonView::Bool(heal)),
        field(r@, "samples"@) == Some(JsonView::Num(NumberView::Pos(samples as u64))),
{
    reveal_strlit("heal");
    reveal_strlit("samples");
    assert("heal"@.len() == 4 && "samples"@.len() == 7);
    let m = r@->Obj_0;
    crate::seqs::first_where_is(m, crate::json::named("heal"@), 0);
    crate::seqs::first_where_is(m, crate::json::named("samples"@), 1);
}

/// What did not happen is never acknowledged: a cancel that stopped nothing, a lease that is not the
/// caller's, and a verdict that was not recorded are each refused; what is not there is not found.
pub proof fn only_what_happened_is_acknowledged(
    id: &str,
    outcome: Option<JobCancel>,
    c: Result<JobCancel, ApiError>,
    renewed: Option<Timestamp>,
    l: Result<Timestamp, ApiError>,
    finish: JobFinish,
    f: Result<(), ApiError>,
)
    requires
        call_ensures(cancel_answer, (id, outcome), c),
        call_ensures(renew_answer, (id, renewed), l),
        call_ensures(finish_answer, (id, finish), f),
    ensures
        c is Ok <==> outcome is Some && !(outcome->0 is AlreadyFinished),
        c is Ok ==> c->Ok_0 == outcome->0,
        outcome is None ==> c is Err && c->Err_0.code is NotFound,
        outcome is Some && outcome->0 is AlreadyFinished ==> c is Err && c->Err_0.code is Conflict,
        l is Ok <==> renewed is Some,
        l is Ok ==> l->Ok_0 == renewed->0,
        l is Err ==> l->Err_0.code is Conflict,
        f is Ok <==> finish is Finished,
        finish is NoSuchJob ==> f is Err && f->Err_0.code is NotFound,
        finish is NotHeld ==> f is Err && f->Err_0.code is Conflict,
{
}

} // verus!
