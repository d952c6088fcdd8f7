//! Reading events back: which filter a query means, which page it gets, and which events a caller may
//! see.
use vstd::prelude::*;

use crate::auth::Principal;
use crate::clock::{Timestamp, NANOS_PER_SEC};
use crate::dates::{bad_timestamp_text, instant_of, is_truthy, parse_opt_ts, rfc3339, says_yes};
use crate::error::{fails_with, ApiError, ErrorCode};
use crate::event::{LlmEvent, Status};
use crate::figure::Real;
use crate::json::{field, JsonView};
use crate::order::{
    goes_first, is_stable_order, key_views, ranked, stable_order, KeyView, SortKey,
};
use crate::seqs::{first_where, first_where_is, first_where_none, is_first};
use crate::text::{ascii_lower, chars_of, quote, quoted, same, slice_of, trimmed};

verus! {

/// Rows a page holds when nobody says, and the most it may hold.
pub const DEFAULT_PAGE: usize = 50;
pub const MAX_PAGE: usize = 1000;

/// How many rows a page holds: what was asked for, fifty by default, never more than a thousand.
pub fn page_limit(asked: Option<usize>) -> (r: usize)
    ensures
        r == (match asked {
            None => 50,
            Some(n) => if n < 1000 {
                n
            } else {
                1000
            },
        }),
{
    match asked {
        None => DEFAULT_PAGE,
        Some(n) => if n < MAX_PAGE {
            n
        } else {
            MAX_PAGE
        },
    }
}

/// An equals sign.
pub open spec fn equals_sign() -> spec_fn(char) -> bool {
    |c: char| c == '='
}

/// What a metadata predicate asks: a key that must be present, or a key and the value it must have.
/// It is split at its first `=`; one that begins with `=` is all key, and an empty one asks nothing.
pub open spec fn predicate(m: Seq<char>) -> Option<(Seq<char>, Option<Seq<char>>)> {
    match first_where(m, equals_sign()) {
        Some(i) => if i > 0 {
            Some((m.take(i), Some(m.skip(i + 1))))
        } else {
            Some((m, None))
        },
        None => if m.len() > 0 {
            Some((m, None))
        } else {
            None
        },
    }
}

/// How an empty metadata predicate is refused.
pub const BAD_META_MSG: &'static str = "'meta' must be `key` or `key=value`";

/// Reads a metadata predicate.
pub fn parse_meta(m: &str) -> (r: Result<(String, Option<String>), ApiError>)
    ensures
        match predicate(m@) {
            None => fails_with(r, ErrorCode::BadRequest, BAD_META_MSG@),
            Some((k, v)) => r is Ok && r->Ok_0.0@ == k && match v {
                None => r->Ok_0.1 is None,
                Some(x) => r->Ok_0.1 is Some && r->Ok_0.1->0@ == x,
            },
        },
{
    let c = chars_of(m);
    let mut i: usize = 0;
    while i < c.len()
        invariant
            c@ == m@,
            i <= c.len(),
            forall|j: int| 0 <= j < i ==> !equals_sign()(#[trigger] c@[j]),
        decreases c.len() - i,
    {
        if c[i] == '=' {
            proof {
                first_where_is(m@, equals_sign(), i as int);
            }
            if i == 0 {
                return Ok((m.to_owned(), None));
            }
            let k = slice_of(c.as_slice(), 0, i);
            let v = slice_of(c.as_slice(), i + 1, c.len());
            assert(m@.subrange(0, i as int) =~= m@.take(i as int));
            assert(m@.subrange(i + 1, m@.len() as int) =~= m@.skip(i + 1));
            return Ok((k, Some(v)));
        }
        i += 1;
    }
    proof {
        first_where_none(m@, equals_sign());
    }
    if m.is_empty() {
        return Err(ApiError::bad_request(BAD_META_MSG));
    }
    Ok((m.to_owned(), None))
}

/// How an unknown outcome is refused.
pub open spec fn bad_status_text(s: Seq<char>) -> Seq<char> {
    "invalid 'status' "@ + quoted(s) + ": expected "@ + "success | error | timeout"@
}

/// Refuses a status filter that names no outcome.
pub fn check_status(s: Option<&str>) -> (r: Result<(), ApiError>)
    ensures
        s is None ==> r is Ok,
        s is Some && Status::named(s->0@) is Some ==> r is Ok,
        s is Some && Status::named(s->0@) is None ==> fails_with(
            r,
            ErrorCode::BadRequest,
            bad_status_text(s->0@),
        ),
{
    match s {
        None => Ok(()),
        Some(x) => match Status::from_wire(x) {
            Some(_) => Ok(()),
            None => {
                let q = quote(x);
                let mut m = "invalid 'status' ".to_owned();
                m.append(q.as_str());
                m.append(": expected ");
                m.append("success | error | timeout");
                Err(ApiError::bad_request(m.as_str()))
            },
        },
    }
}

/// A listing query, as the caller wrote it.
#[derive(Debug)]
pub struct EventsParams {
    pub limit: Option<usize>,
    pub since: Option<String>,
    pub until: Option<String>,
    pub provider: Option<String>,
    pub model: Option<String>,
    pub trace_id: Option<String>,
    pub name: Option<String>,
    pub status: Option<String>,
    pub tag: Option<String>,
    pub meta: Option<String>,
    pub min_cost: Option<Real>,
    pub redaction_rules: Option<String>,
    pub min_redacted_spans: Option<u32>,
    pub count: Option<String>,
    pub cursor: Option<String>,
    pub unscored: Option<String>,
}

/// A listing query, as the store takes it.
#[derive(Debug)]
pub struct EventFilter {
    pub since: Option<Timestamp>,
    pub until: Option<Timestamp>,
    pub provider: Option<String>,
    pub model: Option<String>,
    pub trace_id: Option<String>,
    pub name: Option<String>,
    pub status: Option<String>,
    pub tag: Option<String>,
    pub metadata_key: Option<String>,
    pub metadata_value: Option<String>,
    pub min_cost: Option<Real>,
    pub redaction_rules: Option<String>,
    pub min_redacted_spans: Option<u32>,
    pub with_total: bool,
    pub cursor: Option<String>,
}

/// What a listing query asks the store for.
#[derive(Debug)]
pub enum EventsQuery {
    /// The newest events without a score: this many.
    Unscored(usize),
    /// A filtered page of this many.
    Page(EventFilter, usize),
}

/// The first thing wrong with a query: its metadata predicate, then its status, then its bounds.
pub open spec fn query_fault(q: EventsParams) -> Option<Seq<char>> {
    if q.meta is Some && predicate(q.meta->0@) is None {
        Some(BAD_META_MSG@)
    } else if q.status is Some && Status::named(q.status->0@) is None {
        Some(bad_status_text(q.status->0@))
    } else if q.since is Some && rfc3339(q.since->0@) is Err {
        Some(bad_timestamp_text("since"@, rfc3339(q.since->0@)->Err_0))
    } else if q.until is Some && rfc3339(q.until->0@) is Err {
        Some(bad_timestamp_text("until"@, rfc3339(q.until->0@)->Err_0))
    } else {
        None
    }
}

/// Whether an optional bound says what its text says.
pub open spec fn bound_is(t: Option<Timestamp>, raw: Option<String>) -> bool {
    match raw {
        None => t is None,
        Some(s) => t is Some && instant_of(s@) == Some(t->0.nanos as int),
    }
}

/// Whether `f` asks what `q` asks.
pub open spec fn asks(f: EventFilter, q: EventsParams) -> bool {
    &&& bound_is(f.since, q.since)
    &&& bound_is(f.until, q.until)
    &&& f.provider == q.provider
    &&& f.model == q.model
    &&& f.trace_id == q.trace_id
    &&& f.name == q.name
    &&& f.status == q.status
    &&& f.tag == q.tag
    &&& f.min_cost == q.min_cost
    &&& f.redaction_rules == q.redaction_rules
    &&& f.min_redacted_spans == q.min_redacted_spans
    &&& f.cursor == q.cursor
    &&& f.with_total == (q.count is Some && says_yes(q.count->0@))
    &&& match q.meta {
        None => f.metadata_key is None && f.metadata_value is None,
        Some(m) => {
            let p = predicate(m@)->0;
            &&& f.metadata_key is Some && f.metadata_key->0@ == p.0
            &&& match p.1 {
                None => f.metadata_value is None,
                Some(v) => f.metadata_value is Some && f.metadata_value->0@ == v,
            }
        },
    }
}

fn text_of(s: &Option<String>) -> (r: Option<&str>)
    ensures
        match *s {
            None => r is None,
            Some(x) => r is Some && r->0@ == x@,
        },
{
    match s {
        None => None,
        Some(x) => Some(x.as_str()),
    }
}

/// Reads a listing query: everything wrong with it is refused before the store is asked, also in the
/// unscored mode, which then ignores the filter.
pub fn plan_events(q: EventsParams) -> (r: Result<EventsQuery, ApiError>)
    ensures
        match query_fault(q) {
            Some(m) => fails_with(r, ErrorCode::BadRequest, m),
            None => {
                let n = match q.limit {
                    None => 50usize,
                    Some(n) => if n < 1000 {
                        n
                    } else {
                        1000
                    },
                };
                &&& r is Ok
                &&& if q.unscored is Some && says_yes(q.unscored->0@) {
                    r->Ok_0 == EventsQuery::Unscored(n)
                } else {
                    r->Ok_0 is Page && r->Ok_0->Page_1 == n && asks(r->Ok_0->Page_0, q)
                }
            },
        },
{
    let meta: (Option<String>, Option<String>) = match &q.meta {
        None => (None, None),
        Some(m) => match parse_meta(m.as_str()) {
            Err(e) => {
                return Err(e);
            },
            Ok((k, v)) => (Some(k), v),
        },
    };
    match check_status(text_of(&q.status)) {
        Err(e) => {
            return Err(e);
        },
        Ok(_) => {},
    }
    let since = match parse_opt_ts("since", text_of(&q.since)) {
        Err(e) => {
            return Err(e);
        },
        Ok(t) => t,
    };
    let until = match parse_opt_ts("until", text_of(&q.until)) {
        Err(e) => {
            return Err(e);
        },
        Ok(t) => t,
    };
    let n: usize = page_limit(q.limit);
    if is_truthy(text_of(&q.unscored)) {
        return Ok(EventsQuery::Unscored(n));
    }
    let with_total = is_truthy(text_of(&q.count));
    let f = EventFilter {
        since,
        until,
        provider: q.provider,
        model: q.model,
        trace_id: q.trace_id,
        name: q.name,
        status: q.status,
        tag: q.tag,
        metadata_key: meta.0,
        metadata_value: meta.1,
        min_cost: q.min_cost,
        redaction_rules: q.redaction_rules,
        min_redacted_spans: q.min_redacted_spans,
        with_total,
        cursor: q.cursor,
    };
    Ok(EventsQuery::Page(f, n))
}

/// The window of a cost rollup: up to the given end or `now`, from the given start or thirty days
/// before that end.
pub fn cost_window(since: Option<Timestamp>, until: Option<Timestamp>, now: Timestamp) -> (r: (
    Timestamp,
    Timestamp,
))
    requires
        now.valid(),
        until is Some ==> until->0.valid(),
    ensures
        r.1 == (match until {
            Some(u) => u,
            None => now,
        }),
        since is Some ==> r.0 == since->0,
        since is None ==> r.0.nanos == r.1.nanos - 2_592_000 * NANOS_PER_SEC,
{
    let end = match until {
        Some(u) => u,
        None => now,
    };
    let start = match since {
        Some(s) => s,
        None => end.plus_secs(-2_592_000),
    };
    (start, end)
}

/// How rows are ranked by cost: the dearest first.
pub open spec fn cost_keys(costs: Seq<i64>) -> Seq<KeyView> {
    costs.map_values(|c: i64| KeyView { major: -(c as int), text: ""@, minor: 0, tail: ""@ })
}

/// The order in which rows are listed by cost, the dearest first, as positions. Costs are given by a
/// key that grows as they do.
pub fn dearest_first(costs: &Vec<i64>) -> (r: Vec<usize>)
    ensures
        r@ == ranked(cost_keys(costs@)),
        is_stable_order(cost_keys(costs@), r@),
{
    let mut keys: Vec<SortKey> = Vec::new();
    let mut i: usize = 0;
    while i < costs.len()
        invariant
            i <= costs.len(),
            key_views(keys@) =~= cost_keys(costs@).take(i as int),
        decreases costs.len() - i,
    {
        let k = SortKey {
            major: -(costs[i] as i128),
            text: "".to_owned(),
            minor: 0,
            tail: "".to_owned(),
        };
        let ghost before = keys@;
        keys.push(k);
        assert(key_views(keys@) =~= key_views(before).push(k@));
        i += 1;
    }
    assert(cost_keys(costs@).take(i as int) =~= cost_keys(costs@));
    stable_order(&keys)
}

/// How a missing event is reported.
pub open spec fn event_not_found_text(id: Seq<char>) -> Seq<char> {
    "event '"@ + id + "' not found"@
}

/// Whether `p` may see an event of `project`: an operator every event, a key its own project's.
pub open spec fn may_see(p: Principal, project: Seq<char>) -> bool {
    p matches Principal::Project { project_id, .. } ==> project_id@ == project
}

/// What asking for an event by id is answered with, given the project of the event that was found: the
/// event, or these words.
pub open spec fn event_refusal(p: Principal, id: Seq<char>, found: Option<Seq<char>>) -> Option<Seq<char>> {
    if found is Some && may_see(p, found->0) {
        None
    } else {
        Some(event_not_found_text(id))
    }
}

/// Whether an event by id may be shown, given the project of the event that was found.
pub fn show_event(p: &Principal, id: &str, found: Option<&str>) -> (r: Result<(), ApiError>)
    ensures
        match event_refusal(
            *p,
            id@,
            match found {
                Some(o) => Some(o@),
                None => None,
            },
        ) {
            None => r is Ok,
            Some(m) => fails_with(r, ErrorCode::NotFound, m),
        },
{
    let ok = match found {
        None => false,
        Some(owner) => match p {
            Principal::Project { project_id, .. } => same(project_id.as_str(), owner),
            _ => true,
        },
    };
    if ok {
        return Ok(());
    }
    let mut m = "event '".to_owned();
    m.append(id);
    m.append("' not found");
    Err(ApiError::not_found(m.as_str()))
}

/// A key learns nothing about other projects' events: an id that hits one is answered exactly like an
/// id that hits nothing.
pub proof fn no_existence_oracle(p: Principal, id: Seq<char>, owner: Seq<char>)
    requires
        !may_see(p, owner),
    ensures
        event_refusal(p, id, Some(owner)) == event_refusal(p, id, None),
{
}

// ------------------------------------------------------------------ which events a query is about

/// Whether a text is the one asked for, where one is.
pub open spec fn is_asked(asked: Option<String>, s: Seq<char>) -> bool {
    asked is Some ==> asked->0@ == s
}

/// Whether an optional text is the one asked for, where one is.
pub open spec fn has_asked(asked: Option<String>, s: Option<String>) -> bool {
    asked is Some ==> s is Some && asked->0@ == s->0@
}

/// Whether some tag is the one asked for, where one is.
pub open spec fn tagged_as_asked(asked: Option<String>, tags: Seq<String>) -> bool {
    asked is Some ==> exists|i: int| 0 <= i < tags.len() && (#[trigger] tags[i])@ == asked->0@
}

/// Which events a filter selects: those from its start and before its end whose provider, model, trace,
/// name and outcome are the filter's, that carry its tag, and whose metadata has its key, with its value
/// where it has one.
pub open spec fn selects(f: EventFilter, e: LlmEvent) -> bool {
    &&& f.since is Some ==> f.since->0.nanos <= e.ts.nanos
    &&& f.until is Some ==> e.ts.nanos < f.until->0.nanos
    &&& is_asked(f.provider, e.provider@)
    &&& is_asked(f.model, e.model@)
    &&& has_asked(f.trace_id, e.trace_id)
    &&& has_asked(f.name, e.name)
    &&& is_asked(f.status, e.status.wire())
    &&& tagged_as_asked(f.tag, e.tags@)
    &&& f.metadata_key is Some ==> field(e.metadata@, f.metadata_key->0@) is Some
    &&& f.metadata_key is Some && f.metadata_value is Some ==> field(
        e.metadata@,
        f.metadata_key->0@,
    ) == Some(JsonView::Str(f.metadata_value->0@))
}

/// Whether an event's metadata is as a predicate asks: it has the key that is the whole predicate, or,
/// where the predicate holds an equals sign past its start, under what stands before the first one the
/// text that stands after it.
pub open spec fn meta_as_asked(m: Seq<char>, v: JsonView) -> bool {
    &&& m.len() > 0 && (m[0] == '=' || forall|i: int| 0 <= i < m.len() ==> #[trigger] m[i] != '=')
        ==> field(v, m) is Some
    &&& forall|i: int|
        0 < i < m.len() && #[trigger] m[i] == '=' && (forall|j: int| 0 <= j < i ==> #[trigger] m[j] != '=')
            ==> field(v, m.subrange(0, i)) == Some(JsonView::Str(m.subrange(i + 1, m.len() as int)))
}

/// Whether an event is one that a query is about: by each parameter, under its own name.
pub open spec fn meets(q: EventsParams, e: LlmEvent) -> bool {
    &&& q.since is Some ==> instant_of(q.since->0@)->0 <= e.ts.nanos
    &&& q.until is Some ==> e.ts.nanos < instant_of(q.until->0@)->0
    &&& q.provider is Some ==> e.provider@ == q.provider->0@
    &&& q.model is Some ==> e.model@ == q.model->0@
    &&& q.trace_id is Some ==> e.trace_id is Some && e.trace_id->0@ == q.trace_id->0@
    &&& q.name is Some ==> e.name is Some && e.name->0@ == q.name->0@
    &&& q.status is Some ==> match e.status {
        Status::Success => q.status->0@ == "success"@,
        Status::Error => q.status->0@ == "error"@,
        Status::Timeout => q.status->0@ == "timeout"@,
    }
    &&& q.tag is Some ==> exists|i: int| 0 <= i < e.tags@.len() && (#[trigger] e.tags@[i])@ == q.tag->0@
    &&& q.meta is Some ==> meta_as_asked(q.meta->0@, e.metadata@)
}

proof fn predicate_is_split_at_its_first_sign(m: Seq<char>)
    ensures
        m.len() == 0 <==> predicate(m) is None,
        m.len() > 0 && (m[0] == '=' || forall|i: int| 0 <= i < m.len() ==> #[trigger] m[i] != '=')
            ==> predicate(m) == Some((m, None::<Seq<char>>)),
        forall|i: int|
            0 < i < m.len() && #[trigger] m[i] == '=' && (forall|j: int|
                0 <= j < i ==> #[trigger] m[j] != '=') ==> predicate(m) == Some(
                (m.subrange(0, i), Some(m.subrange(i + 1, m.len() as int))),
            ),
        m.len() > 0 && m[0] != '=' && !(forall|i: int| 0 <= i < m.len() ==> #[trigger] m[i] != '=')
            ==> exists|i: int|
            0 < i < m.len() && #[trigger] m[i] == '=' && (forall|j: int|
                0 <= j < i ==> #[trigger] m[j] != '='),
{
    let p = equals_sign();
    if m.len() > 0 && m[0] == '=' {
        first_where_is(m, p, 0);
    }
    if forall|i: int| 0 <= i < m.len() ==> #[trigger] m[i] != '=' {
        first_where_none(m, p);
    } else {
        let k = choose|i: int| 0 <= i < m.len() && #[trigger] m[i] == '=';
        crate::seqs::first_where_some(m, p, k);
        let i = first_where(m, p)->0;
        assert(m[i] == '=');
        assert forall|j: int| 0 <= j < i implies #[trigger] m[j] != '=' by {
            assert(!p(m[j]));
        }
    }
    assert forall|i: int|
        0 < i < m.len() && #[trigger] m[i] == '=' && (forall|j: int| 0 <= j < i ==> #[trigger] m[j] != '=') implies predicate(
        m,
    ) == Some((m.subrange(0, i), Some(m.subrange(i + 1, m.len() as int)))) by {
        assert(is_first(m, p, i));
        first_where_is(m, p, i);
        assert(m.take(i) =~= m.subrange(0, i));
        assert(m.skip(i + 1) =~= m.subrange(i + 1, m.len() as int));
    }
}

/// A planned page selects exactly the events that the query is about, each parameter held against the
/// event's field of the same name; what the store alone can hold an event against is handed to it as it
/// was asked.
pub proof fn a_planned_page_is_the_query(q: EventsParams, f: EventFilter, n: usize, e: LlmEvent)
    requires
        call_ensures(plan_events, (q,), Ok(EventsQuery::Page(f, n))),
    ensures
        selects(f, e) <==> meets(q, e),
        f.min_cost == q.min_cost,
        f.redaction_rules == q.redaction_rules,
        f.min_redacted_spans == q.min_redacted_spans,
        f.cursor == q.cursor,
        f.with_total <==> q.count is Some && (ascii_lower(trimmed(q.count->0@)) == "1"@ || ascii_lower(
            trimmed(q.count->0@),
        ) == "true"@ || ascii_lower(trimmed(q.count->0@)) == "yes"@),
{
    if q.meta is Some {
        let m = q.meta->0@;
        predicate_is_split_at_its_first_sign(m);
        if m.len() > 0 && m[0] != '=' && !(forall|i: int| 0 <= i < m.len() ==> #[trigger] m[i] != '=') {
            let i = choose|i: int|
                0 < i < m.len() && #[trigger] m[i] == '=' && (forall|j: int|
                    0 <= j < i ==> #[trigger] m[j] != '=');
            assert(predicate(m) == Some((m.subrange(0, i), Some(m.subrange(i + 1, m.len() as int)))));
            assert forall|k: int|
                0 < k < m.len() && #[trigger] m[k] == '=' && (forall|j: int|
                    0 <= j < k ==> #[trigger] m[j] != '=') implies k == i by {
                if k < i {
                    assert(m[k] != '=');
                }
                if i < k {
                    assert(m[i] != '=');
                }
            }
        }
    }
}

/// A page holds what was asked for, fifty rows where nothing was, and never more than a thousand; asking
/// for unscored events gets those and no page; and a query is refused, as the caller's mistake, exactly
/// where its predicate is empty, its outcome is none, or a bound cannot be read.
pub proof fn a_query_is_planned_or_refused(q: EventsParams, r: Result<EventsQuery, ApiError>)
    requires
        call_ensures(plan_events, (q,), r),
    ensures
        r is Err ==> r->Err_0.code == ErrorCode::BadRequest,
        r is Err <==> (q.meta is Some && q.meta->0@.len() == 0) || (q.status is Some && q.status->0@
            != "success"@ && q.status->0@ != "error"@ && q.status->0@ != "timeout"@) || (q.since is Some
            && rfc3339(q.since->0@) is Err) || (q.until is Some && rfc3339(q.until->0@) is Err),
        r is Ok ==> (r->Ok_0 is Unscored <==> q.unscored is Some && (ascii_lower(
            trimmed(q.unscored->0@),
        ) == "1"@ || ascii_lower(trimmed(q.unscored->0@)) == "true"@ || ascii_lower(
            trimmed(q.unscored->0@),
        ) == "yes"@)),
        forall|n: usize| #[trigger]
            is_page_of(r, n) ==> n <= 1000 && (q.limit is None ==> n == 50) && (q.limit is Some ==> n
                <= q.limit->0 && (n == q.limit->0 || n == 1000)),
{
    if q.meta is Some {
        predicate_is_split_at_its_first_sign(q.meta->0@);
    }
}

/// Whether a query was planned as a page or list of `n` rows.
pub open spec fn is_page_of(r: Result<EventsQuery, ApiError>, n: usize) -> bool {
    match r {
        Ok(EventsQuery::Unscored(k)) => k == n,
        Ok(EventsQuery::Page(_, k)) => k == n,
        Err(_) => false,
    }
}

/// A rollup without bounds covers the thirty days up to now; a bound that is given is kept.
pub proof fn a_cost_window_ends_where_asked(
    since: Option<Timestamp>,
    until: Option<Timestamp>,
    now: Timestamp,
    r: (Timestamp, Timestamp),
)
    requires
        now.valid(),
        until is Some ==> until->0.valid(),
        call_ensures(cost_window, (since, until, now), r),
    ensures
        since is Some ==> r.0 == since->0,
        until is Some ==> r.1 == until->0,
        until is None ==> r.1 == now,
        since is None ==> r.0.nanos + 30 * 86_400 * 1_000_000_000 == r.1.nanos,
{
}

/// Rows are listed from the dearest down, every row once, and rows that cost the same as they came.
pub proof fn the_dearest_come_first(costs: &Vec<i64>, r: Vec<usize>)
    requires
        call_ensures(dearest_first, (costs,), r),
    ensures
        r@.len() == costs@.len(),
        forall|p: int| 0 <= p < r@.len() ==> 0 <= #[trigger] r@[p] < costs@.len(),
        forall|p: int, q: int|
            0 <= p < q < r@.len() ==> {
                let a = #[trigger] r@[p] as int;
                let b = #[trigger] r@[q] as int;
                costs@[a] > costs@[b] || (costs@[a] == costs@[b] && a < b)
            },
{
    let keys = cost_keys(costs@);
    assert(is_stable_order(keys, r@));
    assert forall|p: int, q: int| 0 <= p < q < r@.len() implies {
        let a = #[trigger] r@[p] as int;
        let b = #[trigger] r@[q] as int;
        costs@[a] > costs@[b] || (costs@[a] == costs@[b] && a < b)
    } by {
        let a = r@[p] as int;
        let b = r@[q] as int;
        assert(goes_first(keys, a, b));
        crate::text::sorts_before_total(""@, ""@);
    }
}

/// Anyone without a project sees every event; a key sees its own project's events and is told of every
/// other, in the words used for an id that hits nothing, that there is none.
pub proof fn a_key_sees_its_own_events(
    p: &Principal,
    id: &str,
    found: Option<&str>,
    r: Result<(), ApiError>,
    nothing: Result<(), ApiError>,
)
    requires
        call_ensures(show_event, (p, id, found), r),
        call_ensures(show_event, (p, id, None), nothing),
    ensures
        nothing is Err && nothing->Err_0.code == ErrorCode::NotFound,
        r is Err ==> r->Err_0.code == nothing->Err_0.code && r->Err_0.message@ == nothing->Err_0.message@,
        found is Some ==> match *p {
            Principal::Project { project_id, .. } => r is Ok <==> project_id@ == found->0@,
            _ => r is Ok,
        },
{
}

/// A page holds what was asked for, fifty where nothing was, and never more than a thousand.
pub proof fn a_page_is_as_asked_up_to_a_thousand(asked: Option<usize>, r: usize)
    requires
        call_ensures(page_limit, (asked,), r),
    ensures
        r <= 1000,
        asked is None ==> r == 50,
        asked is Some && asked->0 <= 1000 ==> r == asked->0,
        asked is Some && asked->0 > 1000 ==> r == 1000,
{
}

/// A metadata predicate is its key and its value on either side of the first equals sign, or a key alone;
/// and an empty one is refused. A status is one of the three that events have.
pub proof fn a_predicate_is_parted_at_its_first_equals_sign(
    m: &str,
    r: Result<(String, Option<String>), ApiError>,
    k: Seq<char>,
    v: Seq<char>,
    s: Option<&str>,
    st: Result<(), ApiError>,
)
    requires
        call_ensures(parse_meta, (m,), r),
        !k.contains('='),
        call_ensures(check_status, (s,), st),
    ensures
        m@.len() == 0 <==> r is Err,
        r is Err ==> r->Err_0.code is BadRequest,
        k.len() > 0 && m@ == k + seq!['='] + v ==> r is Ok && r->Ok_0.0@ == k && r->Ok_0.1 is Some
            && r->Ok_0.1->0@ == v,
        k.len() > 0 && m@ == k ==> r is Ok && r->Ok_0.0@ == k && r->Ok_0.1 is None,
        m@ == seq!['='] + v ==> r is Ok && r->Ok_0.0@ == m@ && r->Ok_0.1 is None,
        st is Ok <==> s is None || s->0@ == "success"@ || s->0@ == "error"@ || s->0@ == "timeout"@,
        st is Err ==> st->Err_0.code is BadRequest,
{
    if m@.len() == 0 {
        crate::seqs::first_where_none(m@, equals_sign());
    }
    if k.len() > 0 && m@ == k + seq!['='] + v {
        let i = k.len() as int;
        assert(m@[i] == '=');
        assert forall|j: int| 0 <= j < i implies m@[j] != '=' by {
            assert(k[j] == m@[j]);
            assert(k.contains(k[j]));
        }
        crate::seqs::first_where_is(m@, equals_sign(), i);
        assert(m@.take(i) =~= k);
        assert(m@.skip(i + 1) =~= v);
    }
    if k.len() > 0 && m@ == k {
        assert forall|j: int| 0 <= j < k.len() implies k[j] != '=' by {
            assert(k.contains(k[j]));
        }
        crate::seqs::first_where_none(m@, equals_sign());
    }
    if m@ == seq!['='] + v {
        assert(m@[0] == '=');
        crate::seqs::first_where_is(m@, equals_sign(), 0);
    }
}

/// A query is refused for the first thing wrong with it, and a bound that cannot be read is named: a bad
/// predicate and a bad status come before either bound, and the start before the end.
pub proof fn an_unreadable_bound_is_named(q: EventsParams, r: Result<EventsQuery, ApiError>)
    requires
        call_ensures(plan_events, (q,), r),
        q.meta is None && q.status is None,
    ensures
        q.since is Some && rfc3339(q.since->0@) is Err ==> r is Err && crate::text::has_within(
            r->Err_0.message@,
            "since"@,
        ),
        !(q.since is Some && rfc3339(q.since->0@) is Err) && q.until is Some && rfc3339(q.until->0@) is Err
            ==> r is Err && crate::text::has_within(r->Err_0.message@, "until"@),
{
    if q.since is Some && rfc3339(q.since->0@) is Err {
        let why = rfc3339(q.since->0@)->Err_0;
        crate::text::stands_between("invalid '"@, "since"@, "' timestamp: "@ + why);
        assert(r->Err_0.message@ =~= "invalid '"@ + "since"@ + ("' timestamp: "@ + why));
    } else if q.until is Some && rfc3339(q.until->0@) is Err {
        let why = rfc3339(q.until->0@)->Err_0;
        crate::text::stands_between("invalid '"@, "until"@, "' timestamp: "@ + why);
        assert(r->Err_0.message@ =~= "invalid '"@ + "until"@ + ("' timestamp: "@ + why));
    }
}

} // verus!
