//! Evaluation corpora: datasets, their cases, how a case is graded, and how a graded call becomes one.
use vstd::prelude::*;

use crate::clock::Timestamp;
use crate::error::{fails_with, ApiError, ErrorCode};
use crate::json::{Json, JsonView};
use crate::text::{ascii_lower, blank, quote, quoted, same, trimmed, trimmed_empty_iff_blank};
use crate::wire::{compact_text, json_text};

verus! {

// ------------------------------------------------------------------ difficulty

/// A rung of the ladder.
#[derive(Debug, Clone, Copy, PartialEq, Eq, Structural)]
pub enum Difficulty {
    Easy,
    Medium,
    Hard,
}

/// The rungs, as they are listed in a refusal.
pub const RUNGS: &'static str = "[\"easy\", \"medium\", \"hard\"]";

impl Difficulty {
    /// The wire string.
    pub open spec fn wire(self) -> Seq<char> {
        match self {
            Difficulty::Easy => "easy"@,
            Difficulty::Medium => "medium"@,
            Difficulty::Hard => "hard"@,
        }
    }

    /// The wire string.
    pub fn as_str(self) -> (r: &'static str)
        ensures
            r@ == self.wire(),
    {
        match self {
            Difficulty::Easy => "easy",
            Difficulty::Medium => "medium",
            Difficulty::Hard => "hard",
        }
    }

    /// The rung a text names, in any ASCII case and with white space around it.
    pub open spec fn named(s: Seq<char>) -> Option<Difficulty> {
        let l = ascii_lower(trimmed(s));
        if l == "easy"@ {
            Some(Difficulty::Easy)
        } else if l == "medium"@ {
            Some(Difficulty::Medium)
        } else if l == "hard"@ {
            Some(Difficulty::Hard)
        } else {
            None
        }
    }

    /// The rung a text names.
    pub fn parse(s: &str) -> (r: Option<Difficulty>)
        ensures
            r == Difficulty::named(s@),
    {
        let l = s.trim().to_ascii_lowercase();
        let l = l.as_str();
        if same(l, "easy") {
            Some(Difficulty::Easy)
        } else if same(l, "medium") {
            Some(Difficulty::Medium)
        } else if same(l, "hard") {
            Some(Difficulty::Hard)
        } else {
            None
        }
    }
}

/// How a tier that the ladder does not name is refused.
pub open spec fn unknown_tier_text(stated: Seq<char>) -> Seq<char> {
    "unknown difficulty "@ + stated + ": expected one of "@ + RUNGS@
}

fn unknown_tier(stated: &str) -> (r: String)
    ensures
        r@ == unknown_tier_text(stated@),
{
    let mut m = "unknown difficulty ".to_owned();
    m.append(stated);
    m.append(": expected one of ");
    m.append(RUNGS);
    m
}

/// Reads a tier that a caller stated; anything the ladder does not name is refused.
pub fn parse_stated_tier(s: &str) -> (r: Result<Difficulty, String>)
    ensures
        match Difficulty::named(s@) {
            Some(d) => r == Ok::<Difficulty, String>(d),
            None => r is Err && r->Err_0@ == unknown_tier_text(quoted(s@)),
        },
{
    match Difficulty::parse(s) {
        Some(d) => Ok(d),
        None => {
            let q = quote(s);
            Err(unknown_tier(q.as_str()))
        },
    }
}

/// The tier that a write states: none where it is absent or null, a rung where it names one, and a
/// refusal for every other shape.
pub open spec fn tier_stated(v: Option<JsonView>) -> Result<Option<Difficulty>, Seq<char>> {
    match v {
        None => Ok(None),
        Some(JsonView::Null) => Ok(None),
        Some(JsonView::Str(s)) => match Difficulty::named(s) {
            Some(d) => Ok(Some(d)),
            None => Err(unknown_tier_text(quoted(s))),
        },
        Some(other) => Err(unknown_tier_text(json_text(other))),
    }
}

/// The view of an optional document.
pub open spec fn json_opt(v: Option<&Json>) -> Option<JsonView> {
    match v {
        Some(x) => Some(x@),
        None => None,
    }
}

/// Whether `r` is a tier, or a refusal, as `tier_stated` says.
pub open spec fn tier_result(r: Result<Option<Difficulty>, String>, v: Option<JsonView>) -> bool {
    match tier_stated(v) {
        Ok(d) => r == Ok::<Option<Difficulty>, String>(d),
        Err(m) => r is Err && r->Err_0@ == m,
    }
}

/// Reads the tier that a write states, given the compact text of a value that is no text.
pub fn settle_tier(stated: Option<&Json>, rendered: &str) -> (r: Result<Option<Difficulty>, String>)
    ensures
        match json_opt(stated) {
            None => r == Ok::<Option<Difficulty>, String>(None),
            Some(JsonView::Null) => r == Ok::<Option<Difficulty>, String>(None),
            Some(JsonView::Str(s)) => match Difficulty::named(s) {
                Some(d) => r == Ok::<Option<Difficulty>, String>(Some(d)),
                None => r is Err && r->Err_0@ == unknown_tier_text(quoted(s)),
            },
            Some(_) => r is Err && r->Err_0@ == unknown_tier_text(rendered@),
        },
{
    match stated {
        None => Ok(None),
        Some(Json::Null) => Ok(None),
        Some(Json::Str(s)) => match parse_stated_tier(s.as_str()) {
            Ok(d) => Ok(Some(d)),
            Err(m) => Err(m),
        },
        Some(_) => Err(unknown_tier(rendered)),
    }
}

/// Reads the tier that a write states.
pub fn stated_tier(stated: Option<&Json>) -> (r: Result<Option<Difficulty>, String>)
    ensures
        tier_result(r, json_opt(stated)),
{
    let rendered = match stated {
        Some(v) => compact_text(v),
        None => String::new(),
    };
    settle_tier(stated, rendered.as_str())
}

/// A write is graded or refused, never quietly ungraded: only an absent tier and a null one leave a
/// case without a grade.
pub proof fn only_silence_is_ungraded(v: JsonView)
    requires
        tier_stated(Some(v)) == Ok::<Option<Difficulty>, Seq<char>>(None),
    ensures
        v is Null,
{
}

// ------------------------------------------------------------------ datasets and cases

/// A corpus.
#[derive(Debug)]
pub struct Dataset {
    pub id: String,
    pub project_id: String,
    pub name: String,
    pub version: u32,
    pub frozen: bool,
    pub source: Option<String>,
    pub created_at: Timestamp,
    pub parent_id: Option<String>,
}

/// A case of a corpus.
#[derive(Debug)]
pub struct DatasetItem {
    pub id: String,
    pub dataset_id: String,
    pub input: String,
    pub output: Option<String>,
    pub expected: Option<String>,
    pub context: Option<String>,
    pub tags: Vec<String>,
    pub difficulty: Option<Difficulty>,
    pub source_event_id: Option<String>,
    pub anonymization: Json,
    pub input_hash: Option<String>,
}

/// A case given inline with a benchmark.
#[derive(Debug)]
pub struct BenchmarkCase {
    pub input: String,
    pub expected: Option<String>,
    pub output: Option<String>,
    pub difficulty: Option<Difficulty>,
}

/// A case as it arrives: its tier is not read yet.
#[derive(Debug)]
pub struct StatedItem {
    pub difficulty: Option<Json>,
    pub item: DatasetItem,
}

/// An inline case as it arrives: its tier is not read yet.
#[derive(Debug)]
pub struct StatedCase {
    pub difficulty: Option<Json>,
    pub case: BenchmarkCase,
}

fn opt_ref(v: &Option<Json>) -> (r: Option<&Json>)
    ensures
        json_opt(r) == (match *v {
            Some(x) => Some(x@),
            None => None,
        }),
{
    match v {
        Some(x) => Some(x),
        None => None,
    }
}

/// The view of an optional document.
pub open spec fn json_opt_view(v: Option<Json>) -> Option<JsonView> {
    match v {
        Some(x) => Some(x@),
        None => None,
    }
}

impl StatedItem {
    /// The case with the tier it states; everything else as it came.
    pub fn into_item(self) -> (r: Result<DatasetItem, String>)
        ensures
            match tier_stated(json_opt_view(self.difficulty)) {
                Ok(d) => r == Ok::<DatasetItem, String>(DatasetItem { difficulty: d, ..self.item }),
                Err(m) => r is Err && r->Err_0@ == m,
            },
    {
        match stated_tier(opt_ref(&self.difficulty)) {
            Ok(d) => {
                let mut item = self.item;
                item.difficulty = d;
                Ok(item)
            },
            Err(m) => Err(m),
        }
    }
}

impl StatedCase {
    /// The case with the tier it states; everything else as it came.
    pub fn into_case(self) -> (r: Result<BenchmarkCase, String>)
        ensures
            match tier_stated(json_opt_view(self.difficulty)) {
                Ok(d) => r == Ok::<BenchmarkCase, String>(
                    BenchmarkCase { difficulty: d, ..self.case },
                ),
                Err(m) => r is Err && r->Err_0@ == m,
            },
    {
        match stated_tier(opt_ref(&self.difficulty)) {
            Ok(d) => {
                let mut case = self.case;
                case.difficulty = d;
                Ok(case)
            },
            Err(m) => Err(m),
        }
    }
}

/// A fresh dataset: the root of its own lineage, open.
pub fn new_dataset(id: String, project_id: String, name: String, source: Option<String>, now: Timestamp) -> (r:
    Dataset)
    ensures
        r == (Dataset {
            id,
            project_id,
            name,
            version: 1,
            frozen: false,
            source,
            created_at: now,
            parent_id: None,
        }),
{
    Dataset {
        id,
        project_id,
        name,
        version: 1,
        frozen: false,
        source,
        created_at: now,
        parent_id: None,
    }
}

/// The dataset a lookup found, or that there is none.
pub fn found_dataset(id: &str, found: Option<Dataset>) -> (r: Result<Dataset, ApiError>)
    ensures
        match found {
            Some(d) => r == Ok::<Dataset, ApiError>(d),
            None => fails_with(r, ErrorCode::NotFound, "dataset '"@ + id@ + "' not found"@),
        },
{
    match found {
        Some(d) => Ok(d),
        None => {
            let mut m = "dataset '".to_owned();
            m.append(id);
            m.append("' not found");
            Err(ApiError::not_found(m.as_str()))
        },
    }
}

/// Refuses to add a case to a frozen dataset.
pub fn ensure_open(ds: &Dataset) -> (r: Result<(), ApiError>)
    ensures
        !ds.frozen ==> r is Ok,
        ds.frozen ==> fails_with(r, ErrorCode::Conflict, "dataset is frozen"@),
{
    if ds.frozen {
        Err(ApiError::conflict("dataset is frozen"))
    } else {
        Ok(())
    }
}

/// Refuses to import cases into a frozen dataset.
pub fn ensure_importable(ds: &Dataset) -> (r: Result<(), ApiError>)
    ensures
        !ds.frozen ==> r is Ok,
        ds.frozen ==> fails_with(
            r,
            ErrorCode::Conflict,
            "dataset is frozen; fork it to add cases"@,
        ),
{
    if ds.frozen {
        Err(ApiError::conflict("dataset is frozen; fork it to add cases"))
    } else {
        Ok(())
    }
}

/// The case as it is added: graded, and belonging to the dataset it is added to. The tier is read before
/// the dataset is looked at.
pub fn item_for(stated: StatedItem, ds: &Dataset) -> (r: Result<DatasetItem, ApiError>)
    ensures
        match tier_stated(json_opt_view(stated.difficulty)) {
            Err(m) => fails_with(r, ErrorCode::BadRequest, m),
            Ok(d) => if ds.frozen {
                fails_with(r, ErrorCode::Conflict, "dataset is frozen"@)
            } else {
                r == Ok::<DatasetItem, ApiError>(
                    DatasetItem { difficulty: d, dataset_id: ds.id, ..stated.item },
                )
            },
        },
{
    let mut item = match stated.into_item() {
        Ok(i) => i,
        Err(m) => {
            return Err(ApiError::bad_request(m.as_str()));
        },
    };
    match ensure_open(ds) {
        Err(e) => {
            return Err(e);
        },
        Ok(_) => {},
    }
    item.dataset_id = ds.id.clone();
    Ok(item)
}

/// The tier that a listing is narrowed to: none where the query says nothing, a refusal where it names
/// no rung.
pub fn tier_filter(raw: Option<&str>) -> (r: Result<Option<Difficulty>, ApiError>)
    ensures
        match raw {
            None => r == Ok::<Option<Difficulty>, ApiError>(None),
            Some(s) => if blank(s@) {
                r == Ok::<Option<Difficulty>, ApiError>(None)
            } else {
                match Difficulty::named(trimmed(s@)) {
                    Some(d) => r == Ok::<Option<Difficulty>, ApiError>(Some(d)),
                    None => fails_with(
                        r,
                        ErrorCode::BadRequest,
                        unknown_tier_text(quoted(trimmed(s@))),
                    ),
                }
            },
        },
{
    match raw {
        None => Ok(None),
        Some(s) => {
            proof {
                trimmed_empty_iff_blank(s@);
            }
            let t = s.trim();
            if t.is_empty() {
                return Ok(None);
            }
            match parse_stated_tier(t) {
                Ok(d) => Ok(Some(d)),
                Err(m) => Err(ApiError::bad_request(m.as_str())),
            }
        },
    }
}

/// A case of a tier.
pub open spec fn of_tier(t: Difficulty) -> spec_fn(Option<Difficulty>) -> bool {
    |d: Option<Difficulty>| d == Some(t)
}

/// The positions of the cases that a listing shows: all of them, or those of the tier. A case without a
/// grade belongs to no tier.
pub fn narrow(grades: &Vec<Option<Difficulty>>, tier: Option<Difficulty>) -> (r: Vec<usize>)
    ensures
        match tier {
            None => crate::seqs::ints(r@) == Seq::new(grades@.len(), |i: int| i),
            Some(t) => crate::seqs::ints(r@) == crate::seqs::positions(grades@, of_tier(t)),
        },
{
    let mut out: Vec<usize> = Vec::new();
    let mut i: usize = 0;
    while i < grades.len()
        invariant
            i <= grades.len(),
            match tier {
                None => crate::seqs::ints(out@) =~= Seq::new(i as nat, |k: int| k),
                Some(t) => crate::seqs::ints(out@) =~= crate::seqs::positions(
                    grades@.take(i as int),
                    of_tier(t),
                ),
            },
        decreases grades.len() - i,
    {
        let hit = match tier {
            None => true,
            Some(t) => match grades[i] {
                Some(d) => d == t,
                None => false,
            },
        };
        proof {
            if let Some(t) = tier {
                crate::seqs::positions_step(grades@, i as int, of_tier(t));
            }
        }
        let ghost before = out@;
        if hit {
            out.push(i);
            assert(crate::seqs::ints(out@) =~= crate::seqs::ints(before).push(i as int));
        }
        i += 1;
    }
    assert(grades@.take(i as int) =~= grades@);
    out
}

/// A version history has to name a dataset.
pub fn check_versions_name(name: &str) -> (r: Result<(), ApiError>)
    ensures
        blank(name@) ==> fails_with(r, ErrorCode::BadRequest, "'name' is required"@),
        !blank(name@) ==> r is Ok,
{
    proof {
        trimmed_empty_iff_blank(name@);
    }
    if name.trim().is_empty() {
        Err(ApiError::bad_request("'name' is required"))
    } else {
        Ok(())
    }
}

// ------------------------------------------------------------------ how cases are graded and kept

/// A rung's word reads back as the rung, in any case and with space around it; no other word reads as
/// one.
pub proof fn rungs_read_back(d: Difficulty, w: &'static str, s: &str, r: Option<Difficulty>)
    requires
        call_ensures(Difficulty::as_str, (d,), w),
        call_ensures(Difficulty::parse, (s,), r),
    ensures
        d is Easy ==> w@ == "easy"@,
        d is Medium ==> w@ == "medium"@,
        d is Hard ==> w@ == "hard"@,
        r == Some(d) <==> ascii_lower(trimmed(s@)) == w@,
        r is None <==> ascii_lower(trimmed(s@)) != "easy"@ && ascii_lower(trimmed(s@)) != "medium"@
            && ascii_lower(trimmed(s@)) != "hard"@,
{
    reveal_strlit("easy");
    reveal_strlit("medium");
    reveal_strlit("hard");
    assert("easy"@[0] == 'e' && "medium"@[0] == 'm' && "hard"@[0] == 'h');
}

/// A case is graded by the tier it states and otherwise kept as it came, in the set it is added to; a
/// tier that names no rung is the caller's mistake, and a frozen set takes no case.
pub proof fn a_case_is_kept_as_it_came(
    stated: StatedItem,
    ds: &Dataset,
    r: Result<DatasetItem, ApiError>,
    tier: Option<&Json>,
    t: Result<Option<Difficulty>, String>,
)
    requires
        call_ensures(item_for, (stated, ds), r),
        tier is Some <==> stated.difficulty is Some,
        tier is Some ==> *tier->0 == stated.difficulty->0,
        call_ensures(stated_tier, (tier,), t),
    ensures
        r is Ok <==> t is Ok && !ds.frozen,
        t is Err ==> r is Err && r->Err_0.code is BadRequest,
        t is Ok && ds.frozen ==> r is Err && r->Err_0.code is Conflict,
        r is Ok ==> {
            let x = r->Ok_0;
            let y = stated.item;
            &&& x.difficulty == t->Ok_0 && x.dataset_id == ds.id
            &&& x.id == y.id && x.input == y.input && x.output == y.output && x.expected == y.expected
            &&& x.context == y.context && x.tags == y.tags && x.source_event_id == y.source_event_id
            &&& x.anonymization == y.anonymization && x.input_hash == y.input_hash
        },
{
}

/// The tier a write states is none where it says nothing, and otherwise the rung its text names; every
/// other shape is refused.
pub proof fn a_tier_is_stated_by_its_word(v: Option<&Json>, r: Result<Option<Difficulty>, String>)
    requires
        call_ensures(stated_tier, (v,), r),
    ensures
        v is None ==> r is Ok && r->Ok_0 is None,
        v is Some && v->0@ is Null ==> r is Ok && r->Ok_0 is None,
        v is Some && !(v->0@ is Null) && !(v->0@ is Str) ==> r is Err,
        v is Some ==> (v->0@ matches JsonView::Str(s) ==> {
            let l = ascii_lower(trimmed(s));
            &&& l == "easy"@ ==> r is Ok && r->Ok_0 == Some(Difficulty::Easy)
            &&& l == "medium"@ ==> r is Ok && r->Ok_0 == Some(Difficulty::Medium)
            &&& l == "hard"@ ==> r is Ok && r->Ok_0 == Some(Difficulty::Hard)
            &&& l != "easy"@ && l != "medium"@ && l != "hard"@ ==> r is Err
        }),
{
    reveal_strlit("easy");
    reveal_strlit("medium");
    reveal_strlit("hard");
    assert("easy"@[0] == 'e' && "medium"@[0] == 'm' && "hard"@[0] == 'h');
}

/// An inline case, and one that is not added yet, keeps everything but the tier it states.
pub proof fn an_inline_case_is_kept_as_it_came(
    case: StatedCase,
    item: StatedItem,
    a: Result<BenchmarkCase, String>,
    b: Result<DatasetItem, String>,
)
    requires
        call_ensures(StatedCase::into_case, (case,), a),
        call_ensures(StatedItem::into_item, (item,), b),
    ensures
        a is Ok ==> a->Ok_0.input == case.case.input && a->Ok_0.expected == case.case.expected
            && a->Ok_0.output == case.case.output,
        case.difficulty is None ==> a is Ok && a->Ok_0.difficulty is None,
        b is Ok ==> b->Ok_0.id == item.item.id && b->Ok_0.dataset_id == item.item.dataset_id
            && b->Ok_0.input == item.item.input && b->Ok_0.output == item.item.output && b->Ok_0.expected
            == item.item.expected && b->Ok_0.context == item.item.context && b->Ok_0.tags
            == item.item.tags && b->Ok_0.source_event_id == item.item.source_event_id,
        item.difficulty is None ==> b is Ok && b->Ok_0.difficulty is None,
{
}

/// A new set is the first version of its own lineage and open; a set is found or reported; and a frozen
/// one takes nothing in.
pub proof fn a_set_is_open_until_frozen(
    id: String,
    project_id: String,
    name: String,
    source: Option<String>,
    now: Timestamp,
    r: Dataset,
    ds: &Dataset,
    a: Result<(), ApiError>,
    b: Result<(), ApiError>,
    key: &str,
    found: Option<Dataset>,
    f: Result<Dataset, ApiError>,
)
    requires
        call_ensures(new_dataset, (id, project_id, name, source, now), r),
        call_ensures(ensure_open, (ds,), a),
        call_ensures(ensure_importable, (ds,), b),
        call_ensures(found_dataset, (key, found), f),
    ensures
        r.id == id && r.project_id == project_id && r.name == name && r.source == source,
        r.version == 1 && !r.frozen && r.parent_id is None && r.created_at == now,
        a is Ok <==> !ds.frozen,
        b is Ok <==> !ds.frozen,
        a is Err ==> a->Err_0.code is Conflict,
        b is Err ==> b->Err_0.code is Conflict,
        f is Ok <==> found is Some,
        f is Ok ==> f->Ok_0 == found->0,
        f is Err ==> f->Err_0.code is NotFound,
{
}

/// A listing is narrowed to the tier it names, and a blank one to none; narrowed to a tier it shows
/// exactly the cases of that grade, and otherwise all.
pub proof fn a_listing_shows_its_tier(
    raw: Option<&str>,
    f: Result<Option<Difficulty>, ApiError>,
    grades: &Vec<Option<Difficulty>>,
    tier: Option<Difficulty>,
    r: Vec<usize>,
)
    requires
        call_ensures(tier_filter, (raw,), f),
        call_ensures(narrow, (grades, tier), r),
    ensures
        raw is None || blank(raw->0@) ==> f is Ok && f->Ok_0 is None,
        raw is Some && !blank(raw->0@) && f is Ok ==> f->Ok_0 is Some,
        f is Err ==> f->Err_0.code is BadRequest,
        tier is Some ==> crate::seqs::lists(r@, grades@, |d: Option<Difficulty>| d == tier),
        tier is None ==> r@.len() == grades@.len() && forall|i: int|
            0 <= i < r@.len() ==> #[trigger] r@[i] == i,
{
    match tier {
        Some(t) => {
            crate::seqs::positions_list(r@, grades@, of_tier(t));
            assert(of_tier(t) =~= (|d: Option<Difficulty>| d == tier));
        },
        None => {
            let v = crate::seqs::ints(r@);
            assert(v.len() == r@.len());
            assert forall|i: int| 0 <= i < r@.len() implies #[trigger] r@[i] == i by {
                assert(v[i] == r@[i]);
            }
        },
    }
}

/// A version history has to name its set.
pub proof fn a_history_names_its_set(name: &str, r: Result<(), ApiError>)
    requires
        call_ensures(check_versions_name, (name,), r),
    ensures
        r is Ok <==> !blank(name@),
        r is Err ==> r->Err_0.code is BadRequest,
{
}

} // verus!
