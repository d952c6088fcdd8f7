//! Relay actions as subjects of evaluation: the ledger of which prompt text ran when, and a dataset of
//! what an action did.
use vstd::prelude::*;

use crate::clock::Timestamp;
use crate::datasets::{Dataset, DatasetItem};
use crate::error::{fails_with, ApiError, ErrorCode};
use crate::event::{LlmEvent, Status};
use crate::hook::{call_text, is_text_fn, text_fn_of, TextRule};
use crate::json::{member_views, obj_view, text_field, Json, JsonView};
use crate::order::{
    goes_first, is_stable_order, key_views, ranked, stable_order, KeyView, SortKey,
};
use crate::seqs::{first_where, first_where_is, first_where_none, positions, positions_step};
use crate::text::{
    any_same, blank, clone_opt, clone_texts, same, trimmed_empty_iff_blank, views,
};
use crate::wire::{compact_text, json_text};

verus! {

/// Settle events one ledger read walks when nobody says, and the most it may.
pub const DEFAULT_SCAN: usize = 1000;
pub const MAX_SCAN: usize = 20_000;

/// Settle events read at a time.
pub const PAGE: usize = 1000;

/// One action under one prompt text.
#[derive(Debug)]
pub struct ActionFingerprint {
    pub action_type: String,
    /// Absent for runs that reported none.
    pub prompt_sha256: Option<String>,
    /// Every version declared while this text ran, in the order they came.
    pub versions: Vec<String>,
    pub runs: u64,
    pub errors: u64,
    /// Runs with both input and output.
    pub judgeable: u64,
    pub first_seen: Timestamp,
    pub last_seen: Timestamp,
}

/// One action under one prompt text, as plain values.
pub struct FingerprintView {
    pub action: Seq<char>,
    pub sha: Option<Seq<char>>,
    pub versions: Seq<Seq<char>>,
    pub runs: int,
    pub errors: int,
    pub judgeable: int,
    pub first: int,
    pub last: int,
}

impl View for ActionFingerprint {
    type V = FingerprintView;

    open spec fn view(&self) -> FingerprintView {
        FingerprintView {
            action: self.action_type@,
            sha: match self.prompt_sha256 {
                Some(s) => Some(s@),
                None => None,
            },
            versions: views(self.versions@),
            runs: self.runs as int,
            errors: self.errors as int,
            judgeable: self.judgeable as int,
            first: self.first_seen.nanos as int,
            last: self.last_seen.nanos as int,
        }
    }
}

/// A ledger as plain values.
pub open spec fn ledger_view(v: Seq<ActionFingerprint>) -> Seq<FingerprintView> {
    v.map_values(|x: ActionFingerprint| x@)
}

/// The row of an action and a prompt text.
pub open spec fn row_for(action: Seq<char>, sha: Option<Seq<char>>) -> spec_fn(FingerprintView) -> bool {
    |r: FingerprintView| r.action == action && r.sha == sha
}

/// One if it holds, else none.
pub open spec fn tick(b: bool) -> int {
    if b {
        1
    } else {
        0
    }
}

/// A list of versions with one more, where it is not there yet.
pub open spec fn with_version(v: Seq<Seq<char>>, x: Option<Seq<char>>) -> Seq<Seq<char>> {
    match x {
        Some(s) => if v.contains(s) {
            v
        } else {
            v.push(s)
        },
        None => v,
    }
}

/// A row after one more run.
pub open spec fn counted_in(r: FingerprintView, ev: LlmEvent) -> FingerprintView {
    let t = ev.ts.nanos as int;
    FingerprintView {
        runs: r.runs + 1,
        errors: r.errors + tick(ev.status == Status::Error),
        judgeable: r.judgeable + tick(ev.input is Some && ev.output is Some),
        versions: with_version(r.versions, text_field(ev.metadata@, "action_version"@)),
        first: if t < r.first {
            t
        } else {
            r.first
        },
        last: if t > r.last {
            t
        } else {
            r.last
        },
        ..r
    }
}

/// A row before its first run.
pub open spec fn empty_row(action: Seq<char>, sha: Option<Seq<char>>, t: int) -> FingerprintView {
    FingerprintView {
        action,
        sha,
        versions: seq![],
        runs: 0,
        errors: 0,
        judgeable: 0,
        first: t,
        last: t,
    }
}

/// The ledger after one settle event. An event that names no action, or names it with an empty text, is
/// no relay run and changes nothing; a run under a new prompt text opens a row of its own.
pub open spec fn folded(l: Seq<FingerprintView>, ev: LlmEvent) -> Seq<FingerprintView> {
    match text_field(ev.metadata@, "action_type"@) {
        None => l,
        Some(action) => if action.len() == 0 {
            l
        } else {
            let sha = text_field(ev.metadata@, "prompt_sha256"@);
            match first_where(l, row_for(action, sha)) {
                Some(i) => l.update(i, counted_in(l[i], ev)),
                None => l.push(counted_in(empty_row(action, sha, ev.ts.nanos as int), ev)),
            }
        },
    }
}

fn same_sha(a: &Option<String>, b: Option<&str>) -> (r: bool)
    ensures
        r == ((match *a {
            Some(x) => Some(x@),
            None => None,
        }) == crate::event::text_view(b)),
{
    match (a, b) {
        (Some(x), Some(y)) => same(x.as_str(), y),
        (None, None) => true,
        _ => false,
    }
}

fn count_in(row: &ActionFingerprint, ev: &LlmEvent) -> (r: ActionFingerprint)
    requires
        row.runs < u64::MAX,
        row.errors <= row.runs,
        row.judgeable <= row.runs,
    ensures
        r@ == counted_in(row@, *ev),
{
    let mut versions = clone_texts(&row.versions);
    if let Some(v) = ev.metadata.get_str("action_version") {
        if !any_same(&versions, v) {
            let ghost before = versions@;
            versions.push(v.to_owned());
            assert(views(versions@) =~= views(before).push(v@));
        }
    }
    ActionFingerprint {
        action_type: row.action_type.clone(),
        prompt_sha256: clone_opt(&row.prompt_sha256),
        versions,
        runs: row.runs + 1,
        errors: row.errors + (if ev.status == Status::Error {
            1
        } else {
            0
        }),
        judgeable: row.judgeable + (if ev.input.is_some() && ev.output.is_some() {
            1
        } else {
            0
        }),
        first_seen: if ev.ts.nanos < row.first_seen.nanos {
            ev.ts
        } else {
            row.first_seen
        },
        last_seen: if ev.ts.nanos > row.last_seen.nanos {
            ev.ts
        } else {
            row.last_seen
        },
    }
}

/// Whether a ledger's counts fit together and one more run can be counted.
pub open spec fn has_room(l: Seq<ActionFingerprint>) -> bool {
    forall|i: int|
        0 <= i < l.len() ==> (#[trigger] l[i]).runs < u64::MAX && l[i].errors <= l[i].runs && l[i].judgeable
            <= l[i].runs
}

/// Folds one settle event into the ledger.
pub fn fold(l: &mut Vec<ActionFingerprint>, ev: &LlmEvent)
    requires
        has_room(old(l)@),
    ensures
        ledger_view(final(l)@) == folded(ledger_view(old(l)@), *ev),
        forall|i: int|
            0 <= i < final(l)@.len() ==> (#[trigger] final(l)@[i]).errors <= final(l)@[i].runs
                && final(l)@[i].judgeable <= final(l)@[i].runs && (final(l)@[i].runs <= 1 || (i < old(
                l,
            )@.len() && final(l)@[i].runs <= old(l)@[i].runs + 1)),
{
    let action = match ev.metadata.get_str("action_type") {
        Some(a) => a,
        None => {
            return;
        },
    };
    if action.is_empty() {
        return;
    }
    let sha = ev.metadata.get_str("prompt_sha256");
    let ghost start = l@;
    let ghost lv = ledger_view(l@);
    let ghost p = row_for(action@, crate::event::text_view(sha));
    let mut i: usize = 0;
    while i < l.len()
        invariant
            l@ == start,
            lv == ledger_view(start),
            has_room(start),
            start == old(l)@,
            p == row_for(action@, crate::event::text_view(sha)),
            text_field(ev.metadata@, "action_type"@) == Some(action@),
            action@.len() > 0,
            text_field(ev.metadata@, "prompt_sha256"@) == crate::event::text_view(sha),
            i <= l.len(),
            forall|j: int| 0 <= j < i ==> !p(#[trigger] lv[j]),
        decreases l.len() - i,
    {
        assert(lv[i as int] == start[i as int]@);
        if same(l[i].action_type.as_str(), action) && same_sha(&l[i].prompt_sha256, sha) {
            proof {
                first_where_is(lv, p, i as int);
            }
            let row = count_in(&l[i], ev);
            l.set(i, row);
            assert(ledger_view(l@) =~= lv.update(i as int, row@));
            assert(row@ == counted_in(start[i as int]@, *ev));
            return;
        }
        i += 1;
    }
    proof {
        first_where_none(lv, p);
    }
    let empty = ActionFingerprint {
        action_type: action.to_owned(),
        prompt_sha256: match sha {
            Some(s) => Some(s.to_owned()),
            None => None,
        },
        versions: Vec::new(),
        runs: 0,
        errors: 0,
        judgeable: 0,
        first_seen: ev.ts,
        last_seen: ev.ts,
    };
    assert(views(empty.versions@) =~= seq![]);
    let row = count_in(&empty, ev);
    l.push(row);
    assert(ledger_view(l@) =~= lv.push(row@));
}

/// How rows are ranked: what ran last first, then by action.
pub open spec fn activity_keys(l: Seq<FingerprintView>) -> Seq<KeyView> {
    l.map_values(
        |r: FingerprintView| KeyView { major: -r.last, text: r.action, minor: 0, tail: ""@ },
    )
}

/// The order in which the ledger is listed, as positions.
pub fn activity_order(l: &Vec<ActionFingerprint>) -> (r: Vec<usize>)
    requires
        forall|i: int| 0 <= i < l@.len() ==> (#[trigger] l@[i]).last_seen.valid(),
    ensures
        r@ == ranked(activity_keys(ledger_view(l@))),
        is_stable_order(activity_keys(ledger_view(l@)), r@),
{
    let ghost lv = ledger_view(l@);
    let mut keys: Vec<SortKey> = Vec::new();
    let mut i: usize = 0;
    while i < l.len()
        invariant
            lv == ledger_view(l@),
            forall|k: int| 0 <= k < l@.len() ==> (#[trigger] l@[k]).last_seen.valid(),
            i <= l.len(),
            key_views(keys@) =~= activity_keys(lv).take(i as int),
        decreases l.len() - i,
    {
        assert(l@[i as int].last_seen.valid());
        let k = SortKey {
            major: -l[i].last_seen.nanos,
            text: l[i].action_type.clone(),
            minor: 0,
            tail: "".to_owned(),
        };
        let ghost before = keys@;
        keys.push(k);
        assert(key_views(keys@) =~= key_views(before).push(k@));
        assert(activity_keys(lv)[i as int] == k@);
        i += 1;
    }
    assert(activity_keys(lv).take(i as int) =~= activity_keys(lv));
    stable_order(&keys)
}

/// How many settle events a read walks: what was asked for, a thousand by default, at least one and at
/// most twenty thousand.
pub fn scan_budget(asked: Option<usize>) -> (r: usize)
    ensures
        r == (match asked {
            None => 1000,
            Some(n) => if n < 1 {
                1
            } else if n > 20_000 {
                20_000
            } else {
                n
            },
        }),
{
    match asked {
        None => DEFAULT_SCAN,
        Some(n) => if n < 1 {
            1
        } else if n > MAX_SCAN {
            MAX_SCAN
        } else {
            n
        },
    }
}

/// How many settle events to read next.
pub fn next_page(budget: usize, scanned: usize) -> (r: usize)
    requires
        scanned <= budget,
    ensures
        r == (if budget - scanned < 1000 {
            budget - scanned
        } else {
            1000
        }),
{
    let left: usize = budget - scanned;
    if left < PAGE {
        left
    } else {
        PAGE
    }
}

/// Whether the walk is over, and then whether it stopped short: only running out of budget with events
/// left is worth saying.
pub fn walk_over(more: bool, scanned: usize, budget: usize) -> (r: Option<bool>)
    ensures
        r == (if !more {
            Some(false)
        } else if scanned >= budget {
            Some(true)
        } else {
            None
        }),
{
    if !more {
        Some(false)
    } else if scanned >= budget {
        Some(true)
    } else {
        None
    }
}

/// A run under another prompt text never changes a row: a changed prompt is a row of its own.
pub proof fn a_changed_prompt_is_a_separate_row(
    l: Seq<FingerprintView>,
    ev: LlmEvent,
    action: Seq<char>,
    sha: Option<Seq<char>>,
    i: int,
)
    requires
        0 <= i < l.len(),
        row_for(action, sha)(l[i]),
        text_field(ev.metadata@, "action_type"@) != Some(action) || text_field(
            ev.metadata@,
            "prompt_sha256"@,
        ) != sha,
    ensures
        i < folded(l, ev).len(),
        folded(l, ev)[i] == l[i],
{
    if let Some(a) = text_field(ev.metadata@, "action_type"@) {
        let s = text_field(ev.metadata@, "prompt_sha256"@);
        if first_where(l, row_for(a, s)) is Some {
            crate::seqs::first_where_some_at(l, row_for(a, s), first_where(l, row_for(a, s))->0);
        }
    }
}

// ------------------------------------------------------------------ cases from runs

/// A task's payload or result as the text of a case: a text as it is; the text inside an envelope that
/// holds nothing else; anything else as compact JSON; and nothing where that is null or blank.
pub open spec fn case_text(v: JsonView) -> Option<Seq<char>> {
    let s = match v {
        JsonView::Null => None,
        JsonView::Str(s) => Some(s),
        JsonView::Obj(m) => if m.len() == 1 && text_field(v, "text"@) is Some {
            text_field(v, "text"@)
        } else {
            Some(json_text(v))
        },
        _ => Some(json_text(v)),
    };
    if s is Some && !blank(s->0) {
        s
    } else {
        None
    }
}

/// A task's payload or result as the text of a case.
pub fn as_text(v: &Json) -> (r: Option<String>)
    ensures
        match case_text(v@) {
            Some(t) => r is Some && r->0@ == t,
            None => r is None,
        },
{
    broadcast use obj_view;

    let s: Option<String> = match v {
        Json::Null => None,
        Json::Str(s) => Some(s.clone()),
        Json::Obj(m) => {
            assert(member_views(m@).len() == m@.len());
            let inner: Option<String> = if m.len() == 1 {
                match v.get_str("text") {
                    Some(t) => Some(t.to_owned()),
                    None => None,
                }
            } else {
                None
            };
            match inner {
                Some(t) => Some(t),
                None => Some(compact_text(v)),
            }
        },
        _ => Some(compact_text(v)),
    };
    match s {
        Some(t) => {
            proof {
                trimmed_empty_iff_blank(t@);
            }
            if t.as_str().trim().is_empty() {
                None
            } else {
                Some(t)
            }
        },
        None => None,
    }
}

/// How many runs a snapshot takes: what was asked for, two hundred by default, at least one and at most
/// a thousand. It has to name an action and a project.
pub fn check_snapshot(action_type: &str, project_id: &str, asked: Option<usize>) -> (r: Result<
    usize,
    ApiError,
>)
    ensures
        if blank(action_type@) {
            fails_with(r, ErrorCode::BadRequest, "action_type is required"@)
        } else if blank(project_id@) {
            fails_with(r, ErrorCode::BadRequest, "project_id is required"@)
        } else {
            r == Ok::<usize, ApiError>(
                match asked {
                    None => 200,
                    Some(n) => if n < 1 {
                        1
                    } else if n > 1000 {
                        1000
                    } else {
                        n
                    },
                },
            )
        },
{
    proof {
        trimmed_empty_iff_blank(action_type@);
        trimmed_empty_iff_blank(project_id@);
    }
    if action_type.trim().is_empty() {
        return Err(ApiError::bad_request("action_type is required"));
    }
    if project_id.trim().is_empty() {
        return Err(ApiError::bad_request("project_id is required"));
    }
    Ok(
        match asked {
            None => 200,
            Some(n) => if n < 1 {
                1
            } else if n > 1000 {
                1000
            } else {
                n
            },
        },
    )
}

/// The dataset of a snapshot: named as asked, or after the action it was taken from.
pub fn snapshot_dataset(
    id: String,
    project_id: String,
    name: Option<String>,
    action_type: &str,
    now: Timestamp,
) -> (r: Dataset)
    ensures
        r.id == id,
        r.project_id == project_id,
        match name {
            Some(n) => r.name == n,
            None => r.name@ == "relay:"@ + action_type@,
        },
        r.version == 1,
        !r.frozen,
        r.source is Some && r.source->0@ == "relay:"@ + action_type@,
        r.created_at == now,
        r.parent_id is None,
{
    let mut source = "relay:".to_owned();
    source.append(action_type);
    let name = match name {
        Some(n) => n,
        None => source.clone(),
    };
    Dataset {
        id,
        project_id,
        name,
        version: 1,
        frozen: false,
        source: Some(source),
        created_at: now,
        parent_id: None,
    }
}

/// A run that a case may be made of.
#[derive(Debug)]
pub struct SnapshotTask {
    pub id: String,
    pub payload: Json,
    pub result: Json,
}

/// A run with a text on both sides.
pub open spec fn makes_case() -> spec_fn(SnapshotTask) -> bool {
    |t: SnapshotTask| case_text(t.payload@) is Some && case_text(t.result@) is Some
}

/// Whether `item` is the case of a run: its payload and its result as texts, with the run as its origin
/// and the fingerprint of its input.
pub open spec fn is_case_of(
    item: DatasetItem,
    id: Seq<char>,
    dataset_id: Seq<char>,
    action_type: Seq<char>,
    t: SnapshotTask,
    fingerprint: TextRule,
) -> bool {
    let i = case_text(t.payload@);
    let o = case_text(t.result@);
    &&& i is Some && o is Some
    &&& item.id@ == id
    &&& item.dataset_id@ == dataset_id
    &&& item.input@ == i->0
    &&& item.output is Some && item.output->0@ == o->0
    &&& item.expected is None && item.context is None && item.difficulty is None
    &&& views(item.tags@) == seq!["relay"@, action_type]
    &&& item.source_event_id is Some && item.source_event_id->0@ == t.id@
    &&& item.anonymization == Json::Null
    &&& item.input_hash is Some && item.input_hash->0@ == fingerprint(i->0)
}

/// The case of one run. Nothing where either side has no text.
pub fn snapshot_item<H: Fn(String) -> String>(
    id: String,
    dataset_id: &str,
    action_type: &str,
    t: &SnapshotTask,
    fingerprint: &H,
) -> (r: Option<DatasetItem>)
    requires
        is_text_fn(*fingerprint),
    ensures
        r is Some <==> makes_case()(*t),
        r is Some ==> is_case_of(
            r->0,
            id@,
            dataset_id@,
            action_type@,
            *t,
            text_fn_of(*fingerprint),
        ),
{
    match (as_text(&t.payload), as_text(&t.result)) {
        (Some(input), Some(output)) => {
            let mut tags: Vec<String> = Vec::new();
            tags.push("relay".to_owned());
            tags.push(action_type.to_owned());
            assert(views(tags@) =~= seq!["relay"@, action_type@]);
            let hash = call_text(fingerprint, input.as_str());
            Some(
                DatasetItem {
                    id,
                    dataset_id: dataset_id.to_owned(),
                    input,
                    output: Some(output),
                    expected: None,
                    context: None,
                    tags,
                    difficulty: None,
                    source_event_id: Some(t.id.clone()),
                    anonymization: Json::Null,
                    input_hash: Some(hash),
                },
            )
        },
        _ => None,
    }
}

/// The cases of a snapshot, and how many runs made none.
#[derive(Debug)]
pub struct Snapshot {
    pub items: Vec<DatasetItem>,
    pub skipped: usize,
}

/// The cases of some runs, in order: one for each run with a text on both sides. The others are counted.
pub fn snapshot_items<H: Fn(String) -> String>(
    fresh_ids: &Vec<String>,
    dataset_id: &str,
    action_type: &str,
    tasks: &Vec<SnapshotTask>,
    fingerprint: &H,
) -> (r: Snapshot)
    requires
        is_text_fn(*fingerprint),
        fresh_ids@.len() == tasks@.len(),
    ensures
        ({
            let taken = positions(tasks@, makes_case());
            &&& r.items@.len() == taken.len()
            &&& r.items@.len() + r.skipped == tasks@.len()
            &&& forall|k: int|
                0 <= k < taken.len() ==> is_case_of(
                    #[trigger] r.items@[k],
                    fresh_ids@[taken[k]]@,
                    dataset_id@,
                    action_type@,
                    tasks@[taken[k]],
                    text_fn_of(*fingerprint),
                )
        }),
{
    let mut items: Vec<DatasetItem> = Vec::new();
    let mut skipped: usize = 0;
    let mut i: usize = 0;
    while i < tasks.len()
        invariant
            is_text_fn(*fingerprint),
            fresh_ids@.len() == tasks@.len(),
            i <= tasks.len(),
            items@.len() == positions(tasks@.take(i as int), makes_case()).len(),
            items@.len() + skipped == i,
            forall|k: int|
                0 <= k < items@.len() ==> is_case_of(
                    #[trigger] items@[k],
                    fresh_ids@[positions(tasks@.take(i as int), makes_case())[k]]@,
                    dataset_id@,
                    action_type@,
                    tasks@[positions(tasks@.take(i as int), makes_case())[k]],
                    text_fn_of(*fingerprint),
                ),
        decreases tasks.len() - i,
    {
        proof {
            positions_step(tasks@, i as int, makes_case());
        }
        let made = snapshot_item(
            fresh_ids[i].clone(),
            dataset_id,
            action_type,
            &tasks[i],
            fingerprint,
        );
        match made {
            Some(item) => {
                items.push(item);
            },
            None => {
                skipped += 1;
            },
        }
        i += 1;
    }
    assert(tasks@.take(i as int) =~= tasks@);
    Snapshot { items, skipped }
}

// ------------------------------------------------------------------ what the ledger of runs counts

/// A settle event is counted in the row of its own action and prompt text and in no other: one run more,
/// one error more where it failed, one more to judge where both payloads are there, its version listed
/// once, and the row's span widened to its time. An event without an action is no run.
pub proof fn a_run_is_counted_in_its_own_row(l: Seq<FingerprintView>, ev: LlmEvent, i: int)
    requires
        forall|a: int, b: int|
            0 <= a < b < l.len() ==> (#[trigger] l[a]).action != (#[trigger] l[b]).action || l[a].sha
                != l[b].sha,
        0 <= i < folded(l, ev).len(),
    ensures
        ({
            let f = folded(l, ev);
            let action = text_field(ev.metadata@, "action_type"@);
            let sha = text_field(ev.metadata@, "prompt_sha256"@);
            let version = text_field(ev.metadata@, "action_version"@);
            &&& action is None || action->0.len() == 0 ==> f == l
            &&& i < l.len() && !(action == Some(l[i].action) && sha == l[i].sha) ==> f[i] == l[i]
            &&& action is Some && action->0.len() > 0 && i < l.len() && action->0 == l[i].action && sha
                == l[i].sha ==> {
                &&& f.len() == l.len()
                &&& f[i].action == l[i].action && f[i].sha == l[i].sha
                &&& f[i].runs == l[i].runs + 1
                &&& ev.status is Error ==> f[i].errors == l[i].errors + 1
                &&& !(ev.status is Error) ==> f[i].errors == l[i].errors
                &&& ev.input is Some && ev.output is Some ==> f[i].judgeable == l[i].judgeable + 1
                &&& ev.input is None || ev.output is None ==> f[i].judgeable == l[i].judgeable
                &&& f[i].first <= l[i].first && f[i].first <= ev.ts.nanos && (f[i].first == l[i].first
                    || f[i].first == ev.ts.nanos)
                &&& f[i].last >= l[i].last && f[i].last >= ev.ts.nanos && (f[i].last == l[i].last
                    || f[i].last == ev.ts.nanos)
                &&& version is None ==> f[i].versions == l[i].versions
                &&& version is Some ==> f[i].versions.contains(version->0)
                &&& version is Some && l[i].versions.contains(version->0) ==> f[i].versions
                    == l[i].versions
            }
            &&& i >= l.len() ==> {
                &&& i == l.len()
                &&& action == Some(f[i].action) && f[i].sha == sha
                &&& f[i].runs == 1
                &&& f[i].errors == (if ev.status is Error {
                    1int
                } else {
                    0
                })
                &&& f[i].judgeable == (if ev.input is Some && ev.output is Some {
                    1int
                } else {
                    0
                })
                &&& f[i].first == ev.ts.nanos && f[i].last == ev.ts.nanos
                &&& version is Some ==> f[i].versions == seq![version->0]
                &&& version is None ==> f[i].versions.len() == 0
            }
        }),
{
    let action = text_field(ev.metadata@, "action_type"@);
    let sha = text_field(ev.metadata@, "prompt_sha256"@);
    let version = text_field(ev.metadata@, "action_version"@);
    if action is Some && action->0.len() > 0 {
        let p = row_for(action->0, sha);
        if i < l.len() && action->0 == l[i].action && sha == l[i].sha {
            assert forall|j: int| 0 <= j < i implies !p(#[trigger] l[j]) by {
                assert(l[j].action != l[i].action || l[j].sha != l[i].sha);
            }
            first_where_is(l, p, i);
            if version is Some && !l[i].versions.contains(version->0) {
                let w = l[i].versions.push(version->0);
                assert(w[w.len() - 1] == version->0);
            }
        }
        crate::seqs::first_where_tells(l, p);
        if version is Some {
            assert(Seq::<Seq<char>>::empty().push(version->0) =~= seq![version->0]);
        }
    }
}

/// The ledger is listed by what ran last, rows of one time by action, every row once.
pub proof fn the_ledger_is_listed_by_what_ran_last(l: &Vec<ActionFingerprint>, r: Vec<usize>, p: int, q: int)
    requires
        forall|i: int| 0 <= i < l@.len() ==> (#[trigger] l@[i]).last_seen.valid(),
        call_ensures(activity_order, (l,), r),
        0 <= p < q < r@.len(),
    ensures
        r@.len() == l@.len(),
        r@[p] < l@.len() && r@[q] < l@.len() && r@[p] != r@[q],
        l@[r@[p] as int].last_seen.nanos >= l@[r@[q] as int].last_seen.nanos,
        l@[r@[p] as int].last_seen.nanos == l@[r@[q] as int].last_seen.nanos
            && l@[r@[p] as int].action_type@ != l@[r@[q] as int].action_type@
            ==> crate::text::sorts_before(
            l@[r@[p] as int].action_type@,
            l@[r@[q] as int].action_type@,
        ),
{
    let k = activity_keys(ledger_view(l@));
    assert(k.len() == l@.len());
    assert(goes_first(k, r@[p] as int, r@[q] as int));
    assert(ledger_view(l@)[r@[p] as int] == l@[r@[p] as int]@);
    assert(ledger_view(l@)[r@[q] as int] == l@[r@[q] as int]@);
}

/// A read walks a thousand events unless asked otherwise, one to twenty thousand, a thousand at a time and
/// never past its budget; it says that it stopped short exactly where its budget ran out with events
/// left.
pub proof fn a_read_walks_within_its_budget(
    asked: Option<usize>,
    b: usize,
    budget: usize,
    scanned: usize,
    n: usize,
    more: bool,
    over: Option<bool>,
)
    requires
        scanned <= budget,
        call_ensures(scan_budget, (asked,), b),
        call_ensures(next_page, (budget, scanned), n),
        call_ensures(walk_over, (more, scanned, budget), over),
    ensures
        1 <= b <= 20_000,
        asked is None ==> b == 1000,
        asked is Some && 1 <= asked->0 <= 20_000 ==> b == asked->0,
        asked is Some && asked->0 > 20_000 ==> b == 20_000,
        n <= 1000 && scanned + n <= budget,
        n == 1000 || scanned + n == budget,
        over is None <==> more && scanned < budget,
        over == Some(true) <==> more && scanned >= budget,
        over == Some(false) <==> !more,
{
}

/// A case takes a text as it is, the text of an envelope that holds nothing else, and anything else as
/// JSON; null and what is blank give none.
pub proof fn a_run_becomes_text(v: &Json, r: Option<String>)
    requires
        call_ensures(as_text, (v,), r),
    ensures
        v@ is Null ==> r is None,
        r is Some ==> !blank(r->0@),
        v@ matches JsonView::Str(s) ==> (r is Some <==> !blank(s)) && (r is Some ==> r->0@ == s),
        v@ matches JsonView::Obj(m) ==> (m.len() == 1 && text_field(v@, "text"@) is Some && !blank(
            text_field(v@, "text"@)->0,
        ) ==> r is Some && r->0@ == text_field(v@, "text"@)->0),
        v@ matches JsonView::Obj(m) ==> (m.len() != 1 || text_field(v@, "text"@) is None ==> (r is Some
            ==> r->0@ == json_text(v@))),
{
}

/// A snapshot names its action and its project, takes two hundred runs unless asked otherwise, one to a
/// thousand, and is called as asked or after the action.
pub proof fn a_snapshot_is_asked_for(
    action: &str,
    project: &str,
    asked: Option<usize>,
    r: Result<usize, ApiError>,
    id: String,
    project_id: String,
    name: Option<String>,
    now: Timestamp,
    d: Dataset,
)
    requires
        call_ensures(check_snapshot, (action, project, asked), r),
        call_ensures(snapshot_dataset, (id, project_id, name, action, now), d),
    ensures
        r is Ok <==> !blank(action@) && !blank(project@),
        r is Err ==> r->Err_0.code is BadRequest,
        r is Ok ==> 1 <= r->Ok_0 <= 1000,
        r is Ok && asked is None ==> r->Ok_0 == 200,
        r is Ok && asked is Some && 1 <= asked->0 <= 1000 ==> r->Ok_0 == asked->0,
        d.id == id && d.project_id == project_id && d.version == 1 && !d.frozen && d.parent_id is None,
        d.created_at == now && d.source is Some && d.source->0@ == "relay:"@ + action@,
        name is Some ==> d.name == name->0,
        name is None ==> d.name@ == "relay:"@ + action@,
{
}

/// A run with a text on both sides becomes a case of what went in and what came out, under its own id and
/// with the run as its origin; one without makes none.
pub proof fn a_run_becomes_a_case<H: Fn(String) -> String>(
    id: String,
    dataset_id: &str,
    action: &str,
    t: &SnapshotTask,
    fingerprint: &H,
    payload: &Json,
    result: &Json,
    sent: Option<String>,
    got: Option<String>,
    r: Option<DatasetItem>,
)
    requires
        is_text_fn(*fingerprint),
        call_ensures(snapshot_item::<H>, (id, dataset_id, action, t, fingerprint), r),
        *payload == t.payload,
        *result == t.result,
        call_ensures(as_text, (payload,), sent),
        call_ensures(as_text, (result,), got),
    ensures
        r is Some <==> sent is Some && got is Some,
        r is Some ==> {
            &&& r->0.id@ == id@ && r->0.dataset_id@ == dataset_id@
            &&& r->0.input@ == sent->0@
            &&& r->0.output is Some && r->0.output->0@ == got->0@
            &&& r->0.source_event_id is Some && r->0.source_event_id->0@ == t.id@
            &&& r->0.input_hash is Some && r->0.input_hash->0@ == text_fn_of(*fingerprint)(sent->0@)
            &&& r->0.tags@.len() == 2 && r->0.tags@[0]@ == "relay"@ && r->0.tags@[1]@ == action@
            &&& r->0.expected is None && r->0.context is None && r->0.difficulty is None
        },
{
    if r is Some {
        let w = views(r->0.tags@);
        assert(w.len() == r->0.tags@.len());
        assert(w[0] == r->0.tags@[0]@ && w[1] == r->0.tags@[1]@);
    }
}

/// A snapshot holds a case for each run that makes one, in the runs' order and each under the id set aside
/// for it, and counts the rest.
pub proof fn a_snapshot_holds_the_cases<H: Fn(String) -> String>(
    ids: &Vec<String>,
    dataset_id: &str,
    action: &str,
    tasks: &Vec<SnapshotTask>,
    fingerprint: &H,
    r: Snapshot,
)
    requires
        is_text_fn(*fingerprint),
        ids@.len() == tasks@.len(),
        call_ensures(snapshot_items::<H>, (ids, dataset_id, action, tasks, fingerprint), r),
    ensures
        r.items@.len() + r.skipped == tasks@.len(),
        forall|k: int|
            0 <= k < r.items@.len() ==> exists|i: int|
                0 <= i < tasks@.len() && (#[trigger] r.items@[k]).source_event_id is Some
                    && r.items@[k].source_event_id->0@ == (#[trigger] tasks@[i]).id@ && r.items@[k].id@
                    == ids@[i]@ && case_text(tasks@[i].payload@) == Some(r.items@[k].input@)
                    && r.items@[k].output is Some && case_text(tasks@[i].result@) == Some(
                    r.items@[k].output->0@,
                ),
        forall|i: int|
            0 <= i < tasks@.len() && case_text((#[trigger] tasks@[i]).payload@) is Some && case_text(
                tasks@[i].result@,
            ) is Some ==> exists|k: int|
                0 <= k < r.items@.len() && (#[trigger] r.items@[k]).id@ == ids@[i]@,
{
    let taken = positions(tasks@, makes_case());
    crate::seqs::positions_are_exact(tasks@, makes_case());
    assert forall|k: int| 0 <= k < r.items@.len() implies exists|i: int|
        0 <= i < tasks@.len() && (#[trigger] r.items@[k]).source_event_id is Some
            && r.items@[k].source_event_id->0@ == (#[trigger] tasks@[i]).id@ && r.items@[k].id@ == ids@[i]@
            && case_text(tasks@[i].payload@) == Some(r.items@[k].input@) && r.items@[k].output is Some
            && case_text(tasks@[i].result@) == Some(r.items@[k].output->0@) by {
        let i = taken[k];
        assert(0 <= i < tasks@.len());
        assert(r.items@[k].source_event_id->0@ == tasks@[i].id@);
    }
    assert forall|i: int|
        0 <= i < tasks@.len() && case_text((#[trigger] tasks@[i]).payload@) is Some && case_text(
            tasks@[i].result@,
        ) is Some implies exists|k: int|
        0 <= k < r.items@.len() && (#[trigger] r.items@[k]).id@ == ids@[i]@ by {
        assert(makes_case()(tasks@[i]));
        assert(taken.contains(i));
        let k = choose|k: int| 0 <= k < taken.len() && taken[k] == i;
        assert(r.items@[k].id@ == ids@[i]@);
    }
}

} // verus!
