//! The prompt registry: names and labels, which version a fetch resolves to, and what a promotion
//! or a canary setting needs.
use vstd::prelude::*;

use crate::canary::CanaryPolicy;
use crate::clock::Timestamp;
use crate::error::{fails_with, plain_error, ApiError, ErrorCode};
use crate::gate::GateOutcome;
use crate::json::{member_views, obj_view, Json, JsonView, Member, Number, NumberView};
use crate::quality::{tag, tag_of};
use crate::seqs::{first_where, first_where_is, first_where_none};
use crate::text::{
    chars_of, dec, is_white_space, quote_char, quoted_char, same, show_u64, show_usize,
};

verus! {

/// Longest accepted name or label.
pub const MAX_IDENT_LEN: usize = 128;

/// A character no name or label may hold: white space, or one with a meaning in a URL.
pub open spec fn unsafe_in_url() -> spec_fn(char) -> bool {
    |c: char| is_white_space(c) || c == '/' || c == '?' || c == '#' || c == '%'
}

/// Whether `s` is one token that can stand in a URL: 1 to 128 characters, none of them unsafe.
pub open spec fn good_ident(s: Seq<char>) -> bool {
    1 <= s.len() <= MAX_IDENT_LEN && forall|i: int| 0 <= i < s.len() ==> !unsafe_in_url()(#[trigger] s[i])
}

/// The rule that `s` breaks, in words.
pub open spec fn ident_fault(kind: Seq<char>, s: Seq<char>) -> Seq<char> {
    if s.len() == 0 || s.len() > MAX_IDENT_LEN {
        kind + " must be 1-128 characters (got "@ + dec(s.len()) + ")"@
    } else {
        kind + " may not contain whitespace or '/', '?', '#', '%' (found "@ + quoted_char(
            s[first_where(s, unsafe_in_url())->0],
        ) + ")"@
    }
}

/// Refuses a name or label that is not one URL-safe token, naming the rule it breaks.
pub fn validate_ident(kind: &str, s: &str) -> (r: Result<(), ApiError>)
    ensures
        r is Ok <==> good_ident(s@),
        r is Err ==> fails_with(r, ErrorCode::BadRequest, ident_fault(kind@, s@)),
{
    let c = chars_of(s);
    if c.len() == 0 || c.len() > MAX_IDENT_LEN {
        let n = show_usize(c.len());
        let mut m = kind.to_owned();
        m.append(" must be 1-128 characters (got ");
        m.append(n.as_str());
        m.append(")");
        return Err(ApiError::bad_request(m.as_str()));
    }
    let mut i: usize = 0;
    while i < c.len()
        invariant
            c@ == s@,
            i <= c.len(),
            1 <= c.len() <= MAX_IDENT_LEN,
            forall|j: int| 0 <= j < i ==> !unsafe_in_url()(#[trigger] c@[j]),
        decreases c.len() - i,
    {
        let x: char = c[i];
        if x.is_whitespace() || x == '/' || x == '?' || x == '#' || x == '%' {
            proof {
                first_where_is(s@, unsafe_in_url(), i as int);
                assert(unsafe_in_url()(s@[i as int]));
            }
            let q = quote_char(x);
            let mut m = kind.to_owned();
            m.append(" may not contain whitespace or '/', '?', '#', '%' (found ");
            m.append(q.as_str());
            m.append(")");
            return Err(ApiError::bad_request(m.as_str()));
        }
        i += 1;
    }
    Ok(())
}

/// Refuses a name that a lookup found taken.
pub fn ensure_name_is_free(name: &str, taken: bool) -> (r: Result<(), ApiError>)
    ensures
        !taken ==> r is Ok,
        taken ==> fails_with(r, ErrorCode::Conflict, "prompt '"@ + name@ + "' already exists"@),
{
    if !taken {
        return Ok(());
    }
    let mut m = "prompt '".to_owned();
    m.append(name);
    m.append("' already exists");
    Err(ApiError::conflict(m.as_str()))
}

/// How an unknown prompt is reported.
pub fn prompt_not_found(name: &str) -> (r: ApiError)
    ensures
        plain_error(r, ErrorCode::NotFound, "prompt '"@ + name@ + "' not found"@),
{
    let mut m = "prompt '".to_owned();
    m.append(name);
    m.append("' not found");
    ApiError::not_found(m.as_str())
}

/// Where a label points.
#[derive(Debug)]
pub struct Label {
    pub name: String,
    pub version: u32,
}

/// A label called `l`.
pub open spec fn called(l: Seq<char>) -> spec_fn(Label) -> bool {
    |x: Label| x.name@ == l
}

/// The version a label points at.
pub open spec fn pointed_at(labels: Seq<Label>, l: Seq<char>) -> Option<u32> {
    match first_where(labels, called(l)) {
        Some(i) => Some(labels[i].version),
        None => None,
    }
}

/// The version a label points at.
pub fn label_version(labels: &Vec<Label>, l: &str) -> (r: Option<u32>)
    ensures
        r == pointed_at(labels@, l@),
{
    let mut i: usize = 0;
    while i < labels.len()
        invariant
            i <= labels.len(),
            forall|j: int| 0 <= j < i ==> !called(l@)(#[trigger] labels@[j]),
        decreases labels.len() - i,
    {
        if same(labels[i].name.as_str(), l) {
            proof {
                first_where_is(labels@, called(l@), i as int);
            }
            return Some(labels[i].version);
        }
        i += 1;
    }
    proof {
        first_where_none(labels@, called(l@));
    }
    None
}

/// What a fetch asked for.
#[derive(Debug)]
pub enum VersionChoice {
    /// This version.
    Exact(u32),
    /// The version this label points at.
    Labelled(u32, String),
    /// The latest there is.
    Latest,
}

/// How a label that points nowhere is reported.
pub open spec fn label_not_set_text(label: Seq<char>, name: Seq<char>) -> Seq<char> {
    "label '"@ + label + "' is not set on '"@ + name + "'"@
}

/// Which version a fetch means: the one named, else the one the label points at, else the latest.
pub fn choose_version(
    version: Option<u32>,
    label: Option<String>,
    labels: &Vec<Label>,
    name: &str,
) -> (r: Result<VersionChoice, ApiError>)
    ensures
        match (version, label) {
            (Some(v), _) => r == Ok::<VersionChoice, ApiError>(VersionChoice::Exact(v)),
            (None, Some(l)) => match pointed_at(labels@, l@) {
                Some(v) => r == Ok::<VersionChoice, ApiError>(VersionChoice::Labelled(v, l)),
                None => fails_with(r, ErrorCode::NotFound, label_not_set_text(l@, name@)),
            },
            (None, None) => r == Ok::<VersionChoice, ApiError>(VersionChoice::Latest),
        },
{
    if let Some(v) = version {
        return Ok(VersionChoice::Exact(v));
    }
    match label {
        Some(l) => match label_version(labels, l.as_str()) {
            Some(v) => Ok(VersionChoice::Labelled(v, l)),
            None => {
                let mut m = "label '".to_owned();
                m.append(l.as_str());
                m.append("' is not set on '");
                m.append(name);
                m.append("'");
                Err(ApiError::not_found(m.as_str()))
            },
        },
        None => Ok(VersionChoice::Latest),
    }
}

/// Whether `m` is the largest of `v`.
pub open spec fn is_largest(v: Seq<u32>, m: u32) -> bool {
    v.contains(m) && forall|i: int| 0 <= i < v.len() ==> #[trigger] v[i] <= m
}

/// The largest of some versions; none of none.
pub fn largest(v: &Vec<u32>) -> (r: Option<u32>)
    ensures
        match r {
            Some(m) => is_largest(v@, m),
            None => v@.len() == 0,
        },
{
    let mut best: Option<u32> = None;
    let mut i: usize = 0;
    while i < v.len()
        invariant
            i <= v.len(),
            best is None ==> i == 0,
            best is Some ==> v@.take(i as int).contains(best->0) && forall|j: int|
                0 <= j < i ==> #[trigger] v@[j] <= best->0,
        decreases v.len() - i,
    {
        let x: u32 = v[i];
        let ghost prev = v@.take(i as int);
        assert(v@.take(i + 1) =~= prev.push(x));
        assert(v@.take(i + 1)[i as int] == x);
        match best {
            Some(b) => {
                assert(prev.contains(b));
                let ghost k = prev.index_of(b);
                assert(v@.take(i + 1)[k] == b);
                if x >= b {
                    best = Some(x);
                }
            },
            None => {
                best = Some(x);
            },
        }
        i += 1;
    }
    assert(v@.take(i as int) =~= v@);
    best
}

/// The latest version of a prompt, or that it has none.
pub fn latest_version(versions: &Vec<u32>, name: &str) -> (r: Result<u32, ApiError>)
    ensures
        versions@.len() > 0 ==> r is Ok && is_largest(versions@, r->Ok_0),
        versions@.len() == 0 ==> fails_with(
            r,
            ErrorCode::NotFound,
            "'"@ + name@ + "' has no versions"@,
        ),
{
    match largest(versions) {
        Some(v) => Ok(v),
        None => {
            let mut m = "'".to_owned();
            m.append(name);
            m.append("' has no versions");
            Err(ApiError::not_found(m.as_str()))
        },
    }
}

/// The next version of a prompt: one past the largest there is, or the first.
pub fn next_version(existing: &Vec<u32>) -> (r: u32)
    requires
        forall|i: int| 0 <= i < existing@.len() ==> #[trigger] existing@[i] < u32::MAX,
    ensures
        existing@.len() == 0 ==> r == 1,
        existing@.len() > 0 ==> is_largest(existing@, (r - 1) as u32) && r >= 1,
{
    match largest(existing) {
        Some(v) => {
            assert(existing@.contains(v));
            let ghost k = existing@.index_of(v);
            assert(existing@[k] < u32::MAX);
            v + 1
        },
        None => 1,
    }
}

/// A new version is larger than every version before it.
pub proof fn next_version_is_new(existing: Seq<u32>, next: u32)
    requires
        existing.len() > 0 ==> next >= 1 && is_largest(existing, (next - 1) as u32),
    ensures
        forall|i: int| 0 <= i < existing.len() ==> #[trigger] existing[i] < next,
        !existing.contains(next),
{
    if existing.contains(next) {
        let k = existing.index_of(next);
        assert(existing[k] <= next - 1);
    }
}

/// How a version that does not exist is reported.
pub open spec fn no_version_text(name: Seq<char>, version: u32) -> Seq<char> {
    "'"@ + name + "' has no version "@ + dec(version as nat)
}

/// How a version that does not exist is reported.
pub fn no_such_version(name: &str, version: u32) -> (r: ApiError)
    ensures
        plain_error(r, ErrorCode::NotFound, no_version_text(name@, version)),
{
    let v = show_u64(version as u64);
    let mut m = "'".to_owned();
    m.append(name);
    m.append("' has no version ");
    m.append(v.as_str());
    ApiError::not_found(m.as_str())
}

/// A version of a prompt.
#[derive(Debug)]
pub struct PromptVersion {
    pub id: String,
    pub prompt_id: String,
    pub version: u32,
    pub content: String,
    pub config: Json,
    pub note: Option<String>,
    pub created_at: Timestamp,
}

/// A prompt.
#[derive(Debug)]
pub struct Prompt {
    pub id: String,
    pub project_id: String,
    pub name: String,
    /// The benchmark that its promotions are held to.
    pub benchmark_id: Option<String>,
    pub labels: Vec<Label>,
    /// What the sweep may do about its canary.
    pub canary: Option<CanaryPolicy>,
    /// How the labels came to point where they do, oldest first.
    pub label_history: Vec<LabelChange>,
    pub created_at: Timestamp,
    pub updated_at: Timestamp,
}

/// One move of a label.
#[derive(Debug)]
pub struct LabelChange {
    pub label: String,
    pub version: u32,
    pub reason: String,
    pub at: Timestamp,
}

/// What a version is made of.
#[derive(Debug)]
pub struct VersionBody {
    pub content: String,
    pub config: Json,
    pub note: Option<String>,
}

/// A version made of `b`.
pub open spec fn is_version(
    v: PromptVersion,
    id: String,
    prompt_id: Seq<char>,
    n: u32,
    b: VersionBody,
    now: Timestamp,
) -> bool {
    &&& v.id == id
    &&& v.prompt_id@ == prompt_id
    &&& v.version == n
    &&& v.content == b.content
    &&& v.config == b.config
    &&& v.note == b.note
    &&& v.created_at == now
}

/// A new prompt and its first version. The name has to be one URL-safe token that is not taken; no label
/// points anywhere yet.
pub fn new_prompt(
    id: String,
    version_id: String,
    project_id: String,
    name: String,
    benchmark_id: Option<String>,
    body: VersionBody,
    taken: bool,
    now: Timestamp,
) -> (r: Result<(Prompt, PromptVersion), ApiError>)
    ensures
        if !good_ident(name@) {
            fails_with(r, ErrorCode::BadRequest, ident_fault("prompt name"@, name@))
        } else if taken {
            fails_with(r, ErrorCode::Conflict, "prompt '"@ + name@ + "' already exists"@)
        } else {
            &&& r matches Ok((p, v))
            &&& p.id == id
            &&& p.project_id == project_id
            &&& p.name == name
            &&& p.benchmark_id == benchmark_id
            &&& p.labels@.len() == 0
            &&& p.canary is None
            &&& p.label_history@.len() == 0
            &&& p.created_at == now
            &&& p.updated_at == now
            &&& is_version(v, version_id, id@, 1, body, now)
        },
{
    if let Err(e) = validate_ident("prompt name", name.as_str()) {
        return Err(e);
    }
    if let Err(e) = ensure_name_is_free(name.as_str(), taken) {
        return Err(e);
    }
    let version = PromptVersion {
        id: version_id,
        prompt_id: id.clone(),
        version: 1,
        content: body.content,
        config: body.config,
        note: body.note,
        created_at: now,
    };
    let prompt = Prompt {
        id,
        project_id,
        name,
        benchmark_id,
        labels: Vec::new(),
        canary: None,
        label_history: Vec::new(),
        created_at: now,
        updated_at: now,
    };
    Ok((prompt, version))
}

/// The version that follows the ones there are.
pub fn added_version(
    id: String,
    prompt_id: &str,
    existing: &Vec<u32>,
    body: VersionBody,
    now: Timestamp,
) -> (r: PromptVersion)
    requires
        forall|i: int| 0 <= i < existing@.len() ==> #[trigger] existing@[i] < u32::MAX,
    ensures
        is_version(r, id, prompt_id@, r.version, body, now),
        existing@.len() == 0 ==> r.version == 1,
        existing@.len() > 0 ==> r.version >= 1 && is_largest(existing@, (r.version - 1) as u32),
{
    PromptVersion {
        id,
        prompt_id: prompt_id.to_owned(),
        version: next_version(existing),
        content: body.content,
        config: body.config,
        note: body.note,
        created_at: now,
    }
}

/// The benchmark run that a new version sets off, if the prompt is held to a benchmark: its benchmark
/// and what the run is told about the version.
pub fn run_on_new_version(prompt: &Prompt, version: u32) -> (r: Option<(String, Json)>)
    ensures
        match (prompt.benchmark_id, r) {
            (Some(b), Some((benchmark, payload))) => benchmark@ == b@ && payload@
                == bench_payload_view(prompt.id@, prompt.name@, version),
            (None, None) => true,
            _ => false,
        },
{
    match &prompt.benchmark_id {
        Some(b) => Some(
            (b.clone(), bench_payload(prompt.id.as_str(), prompt.name.as_str(), version)),
        ),
        None => None,
    }
}

/// What a fetch returns.
#[derive(Debug)]
pub struct ResolvedPrompt {
    pub id: String,
    pub name: String,
    pub version: u32,
    pub label: Option<String>,
    /// What to stamp on every event this prompt produces.
    pub tag: String,
    pub content: String,
    pub config: Json,
    pub note: Option<String>,
}

/// What a fetch returns for the version that was found, or that there is none.
pub fn resolve_prompt(
    id: String,
    name: String,
    version: u32,
    label: Option<String>,
    found: Option<PromptVersion>,
) -> (r: Result<ResolvedPrompt, ApiError>)
    ensures
        match found {
            None => fails_with(r, ErrorCode::NotFound, no_version_text(name@, version)),
            Some(pv) => {
                &&& r is Ok
                &&& r->Ok_0.id == id
                &&& r->Ok_0.name == name
                &&& r->Ok_0.version == pv.version
                &&& r->Ok_0.label == label
                &&& r->Ok_0.tag@ == tag_of(name@, pv.version as nat)
                &&& r->Ok_0.content == pv.content
                &&& r->Ok_0.config == pv.config
                &&& r->Ok_0.note == pv.note
            },
        },
{
    match found {
        None => Err(no_such_version(name.as_str(), version)),
        Some(pv) => {
            let t = tag(name.as_str(), pv.version);
            Ok(
                ResolvedPrompt {
                    id,
                    name,
                    version: pv.version,
                    label,
                    tag: t,
                    content: pv.content,
                    config: pv.config,
                    note: pv.note,
                },
            )
        },
    }
}

/// How a link request that says nothing is refused.
pub const LINK_REQUIRED_MSG: &'static str = "benchmark_id is required: a benchmark id links it, an explicit null unlinks it";

/// What a link request means: a benchmark to link, or none to unlink. A request that says neither is
/// refused, so that an empty body never removes the check.
pub fn link_target(asked: Option<Option<String>>) -> (r: Result<Option<String>, ApiError>)
    ensures
        match asked {
            Some(b) => r == Ok::<Option<String>, ApiError>(b),
            None => fails_with(r, ErrorCode::BadRequest, LINK_REQUIRED_MSG@),
        },
{
    match asked {
        Some(b) => Ok(b),
        None => Err(ApiError::bad_request(LINK_REQUIRED_MSG)),
    }
}

/// A prompt linked to a benchmark, or unlinked; nothing else of it changes.
pub fn linked_prompt(prompt: Prompt, asked: Option<Option<String>>, now: Timestamp) -> (r: Result<
    Prompt,
    ApiError,
>)
    ensures
        match asked {
            Some(b) => r == Ok::<Prompt, ApiError>(
                Prompt { benchmark_id: b, updated_at: now, ..prompt },
            ),
            None => fails_with(r, ErrorCode::BadRequest, LINK_REQUIRED_MSG@),
        },
{
    match link_target(asked) {
        Ok(b) => Ok(Prompt { benchmark_id: b, updated_at: now, ..prompt }),
        Err(e) => Err(e),
    }
}

/// Whether a benchmark resolves the prompt: whether any of its targets refers to it by name.
pub fn benchmark_resolves(target_refs: &Vec<Option<String>>, prompt_name: &str) -> (r: bool)
    ensures
        r <==> exists|i: int|
            0 <= i < target_refs@.len() && (#[trigger] target_refs@[i]) is Some
                && target_refs@[i]->0@ == prompt_name@,
{
    let mut i: usize = 0;
    while i < target_refs.len()
        invariant
            i <= target_refs.len(),
            forall|j: int|
                0 <= j < i ==> !((#[trigger] target_refs@[j]) is Some && target_refs@[j]->0@
                    == prompt_name@),
        decreases target_refs.len() - i,
    {
        if let Some(n) = &target_refs[i] {
            if same(n.as_str(), prompt_name) {
                assert(target_refs@[i as int] is Some);
                return true;
            }
        }
        i += 1;
    }
    false
}

/// What a promotion comes to: the version has to exist and the benchmark has to let it pass; a warning
/// goes along.
pub fn promotion(name: &str, version: u32, version_exists: bool, gate: &Option<GateOutcome>) -> (r:
    Result<Option<String>, ApiError>)
    ensures
        if !version_exists {
            fails_with(r, ErrorCode::NotFound, no_version_text(name@, version))
        } else {
            match *gate {
                Some(GateOutcome::Block(m)) => fails_with(r, ErrorCode::Conflict, m@),
                Some(GateOutcome::AllowWithWarning(w)) => r is Ok && r->Ok_0 is Some && r->Ok_0->0@
                    == w@,
                Some(GateOutcome::Allow) => r is Ok && r->Ok_0 is None,
                None => r is Ok && r->Ok_0 is None,
            }
        },
{
    if !version_exists {
        return Err(no_such_version(name, version));
    }
    match gate {
        Some(g) => {
            if let Some(reason) = g.blocked() {
                return Err(ApiError::conflict(reason));
            }
            match g.warning() {
                Some(w) => Ok(Some(w.to_owned())),
                None => Ok(None),
            }
        },
        None => Ok(None),
    }
}

/// What a benchmark run of one version is told about it: the members in the order of their names.
pub open spec fn bench_payload_view(prompt_id: Seq<char>, name: Seq<char>, version: u32) -> JsonView {
    JsonView::Obj(
        seq![
            ("prompt_id"@, JsonView::Str(prompt_id)),
            ("prompt_name"@, JsonView::Str(name)),
            ("version"@, JsonView::Num(NumberView::Pos(version as u64))),
        ],
    )
}

/// What a benchmark run of one version is told about it.
pub fn bench_payload(prompt_id: &str, name: &str, version: u32) -> (r: Json)
    ensures
        r@ == bench_payload_view(prompt_id@, name@, version),
{
    let mut m: Vec<Member> = Vec::new();
    m.push(Member { name: "prompt_id".to_owned(), value: Json::Str(prompt_id.to_owned()) });
    m.push(Member { name: "prompt_name".to_owned(), value: Json::Str(name.to_owned()) });
    m.push(Member { name: "version".to_owned(), value: Json::Num(Number::Pos(version as u64)) });
    proof {
        obj_view(m);
        assert(member_views(m@) =~= bench_payload_view(prompt_id@, name@, version)->Obj_0);
    }
    Json::Obj(m)
}

/// How a canary without a production label to measure against is refused.
pub open spec fn no_production_label_text(name: Seq<char>, label: Seq<char>) -> Seq<char> {
    "'"@ + name + "' has no '"@ + label + "' label to measure against — promote one first"@
}

/// Refuses a canary policy that could never decide anything: one that is invalid in itself, or whose
/// production label is not set. Clearing the policy is always accepted.
pub fn check_canary(
    name: &str,
    production_label: &Option<String>,
    invalid: &Option<String>,
    labels: &Vec<Label>,
) -> (r: Result<(), ApiError>)
    ensures
        match *production_label {
            None => r is Ok,
            Some(l) => if *invalid is Some {
                fails_with(r, ErrorCode::BadRequest, invalid->0@)
            } else if pointed_at(labels@, l@) is None {
                fails_with(r, ErrorCode::BadRequest, no_production_label_text(name@, l@))
            } else {
                r is Ok
            },
        },
{
    match production_label {
        None => Ok(()),
        Some(l) => {
            if let Some(why) = invalid {
                return Err(ApiError::bad_request(why.as_str()));
            }
            match label_version(labels, l.as_str()) {
                Some(_) => Ok(()),
                None => {
                    let mut m = "'".to_owned();
                    m.append(name);
                    m.append("' has no '");
                    m.append(l.as_str());
                    m.append("' label to measure against — promote one first");
                    Err(ApiError::bad_request(m.as_str()))
                },
            }
        },
    }
}

/// A prompt with its canary policy set or cleared; nothing else of it changes. `invalid` says why the
/// policy could never decide anything, if it could not.
pub fn with_canary(
    prompt: Prompt,
    canary: Option<CanaryPolicy>,
    invalid: &Option<String>,
    now: Timestamp,
) -> (r: Result<Prompt, ApiError>)
    ensures
        match canary {
            Some(p) if *invalid is Some => fails_with(r, ErrorCode::BadRequest, invalid->0@),
            Some(p) if pointed_at(prompt.labels@, p.production_label@) is None => fails_with(
                r,
                ErrorCode::BadRequest,
                no_production_label_text(prompt.name@, p.production_label@),
            ),
            _ => r == Ok::<Prompt, ApiError>(Prompt { canary, updated_at: now, ..prompt }),
        },
{
    let production: Option<String> = match &canary {
        Some(p) => Some(p.production_label.clone()),
        None => None,
    };
    match check_canary(prompt.name.as_str(), &production, invalid, &prompt.labels) {
        Ok(_) => Ok(Prompt { canary, updated_at: now, ..prompt }),
        Err(e) => Err(e),
    }
}

// ------------------------------------------------------------------ what the registry answers

/// A name or label is one token of up to 128 characters without white space and without what means
/// something in a URL; a name that is taken is a conflict.
pub proof fn a_name_is_one_token(kind: &str, s: &str, r: Result<(), ApiError>, taken: bool, free: Result<(), ApiError>)
    requires
        call_ensures(validate_ident, (kind, s), r),
        call_ensures(ensure_name_is_free, (s, taken), free),
    ensures
        r is Ok <==> 1 <= s@.len() <= 128 && forall|i: int|
            0 <= i < s@.len() ==> !is_white_space(#[trigger] s@[i]) && s@[i] != '/' && s@[i] != '?'
                && s@[i] != '#' && s@[i] != '%',
        r is Err ==> r->Err_0.code is BadRequest,
        free is Ok <==> !taken,
        free is Err ==> free->Err_0.code is Conflict,
{
    let u = unsafe_in_url();
    if good_ident(s@) {
        assert forall|i: int| 0 <= i < s@.len() implies !is_white_space(#[trigger] s@[i]) && s@[i] != '/'
            && s@[i] != '?' && s@[i] != '#' && s@[i] != '%' by {
            assert(!u(s@[i]));
        }
    }
    if forall|i: int|
        0 <= i < s@.len() ==> !is_white_space(#[trigger] s@[i]) && s@[i] != '/' && s@[i] != '?' && s@[i]
            != '#' && s@[i] != '%' {
        assert forall|i: int| 0 <= i < s@.len() implies !u(#[trigger] s@[i]) by {}
    }
}

/// A fetch by version gets that version, whatever label comes with it; one by label alone gets what the
/// first label of that name points at, and is told where none does; one by neither gets the latest.
pub proof fn a_fetch_gets_what_it_names(
    version: Option<u32>,
    label: Option<String>,
    labels: &Vec<Label>,
    name: &str,
    r: Result<VersionChoice, ApiError>,
    i: int,
)
    requires
        call_ensures(choose_version, (version, label, labels, name), r),
    ensures
        version is Some ==> r is Ok && r->Ok_0 == VersionChoice::Exact(version->0),
        version is None && label is None ==> r is Ok && r->Ok_0 is Latest,
        version is None && label is Some && 0 <= i < labels@.len() && labels@[i].name@ == label->0@ && (
        forall|j: int| 0 <= j < i ==> (#[trigger] labels@[j]).name@ != label->0@) ==> r is Ok && r->Ok_0
            == VersionChoice::Labelled(labels@[i].version, label->0),
        version is None && label is Some && (forall|j: int|
            0 <= j < labels@.len() ==> (#[trigger] labels@[j]).name@ != label->0@) ==> r is Err
            && r->Err_0.code is NotFound,
{
    if label is Some {
        let p = called(label->0@);
        if 0 <= i < labels@.len() && labels@[i].name@ == label->0@ && (forall|j: int|
            0 <= j < i ==> (#[trigger] labels@[j]).name@ != label->0@) {
            assert(p(labels@[i]));
            assert forall|j: int| 0 <= j < i implies !p(#[trigger] labels@[j]) by {}
            first_where_is(labels@, p, i);
        }
        crate::seqs::first_where_tells(labels@, p);
    }
}

/// The latest version is one there is and none is later; the next is one past every version there is, the
/// first where there is none.
pub proof fn versions_count_up(
    v: &Vec<u32>,
    name: &str,
    r: Result<u32, ApiError>,
    m: Option<u32>,
    next: u32,
    i: int,
)
    requires
        forall|k: int| 0 <= k < v@.len() ==> #[trigger] v@[k] < u32::MAX,
        call_ensures(latest_version, (v, name), r),
        call_ensures(largest, (v,), m),
        call_ensures(next_version, (v,), next),
    ensures
        r is Ok <==> v@.len() > 0,
        m is Some <==> v@.len() > 0,
        r is Ok ==> v@.contains(r->Ok_0) && m == Some(r->Ok_0) && next == r->Ok_0 + 1,
        r is Err ==> r->Err_0.code is NotFound && next == 1,
        0 <= i < v@.len() ==> v@[i] <= r->Ok_0 && v@[i] < next,
{
    if v@.len() > 0 {
        let a = r->Ok_0;
        let b = m->0;
        let c = (next - 1) as u32;
        let ia = choose|k: int| 0 <= k < v@.len() && v@[k] == a;
        let ib = choose|k: int| 0 <= k < v@.len() && v@[k] == b;
        let ic = choose|k: int| 0 <= k < v@.len() && v@[k] == c;
        assert(v@[ia] <= b && v@[ib] <= a && v@[ia] <= c && v@[ic] <= a);
    }
}

/// A new prompt is as it was asked for, with nothing labelled and nothing canaried, and its first version
/// holds what was written; its name has to be one token and free.
pub proof fn a_prompt_begins_with_its_first_version(
    id: String,
    version_id: String,
    project_id: String,
    name: String,
    benchmark_id: Option<String>,
    body: VersionBody,
    taken: bool,
    now: Timestamp,
    r: Result<(Prompt, PromptVersion), ApiError>,
    kind: &str,
    token: &str,
    valid: Result<(), ApiError>,
)
    requires
        call_ensures(
            new_prompt,
            (id, version_id, project_id, name, benchmark_id, body, taken, now),
            r,
        ),
        token@ == name@,
        call_ensures(validate_ident, (kind, token), valid),
    ensures
        r is Ok <==> valid is Ok && !taken,
        valid is Err ==> r is Err && r->Err_0.code is BadRequest,
        valid is Ok && taken ==> r is Err && r->Err_0.code is Conflict,
        r matches Ok((p, v)) ==> {
            &&& p.id == id && p.project_id == project_id && p.name == name && p.benchmark_id
                == benchmark_id
            &&& p.labels@.len() == 0 && p.label_history@.len() == 0 && p.canary is None
            &&& p.created_at == now && p.updated_at == now
            &&& v.id == version_id && v.prompt_id@ == id@ && v.version == 1
            &&& v.content == body.content && v.config == body.config && v.note == body.note
            &&& v.created_at == now
        },
{
}

/// A version that is added holds what was written and comes after every version before it.
pub proof fn an_added_version_comes_last(
    id: String,
    prompt_id: &str,
    existing: &Vec<u32>,
    body: VersionBody,
    now: Timestamp,
    r: PromptVersion,
    next: u32,
)
    requires
        forall|i: int| 0 <= i < existing@.len() ==> #[trigger] existing@[i] < u32::MAX,
        call_ensures(added_version, (id, prompt_id, existing, body, now), r),
        call_ensures(next_version, (existing,), next),
    ensures
        r.version == next,
        r.id == id && r.prompt_id@ == prompt_id@ && r.content == body.content && r.config == body.config,
        r.note == body.note && r.created_at == now,
{
    if existing@.len() > 0 {
        let a = (r.version - 1) as u32;
        let b = (next - 1) as u32;
        let i = choose|k: int| 0 <= k < existing@.len() && existing@[k] == a;
        let j = choose|k: int| 0 <= k < existing@.len() && existing@[k] == b;
        assert(existing@[i] <= b && existing@[j] <= a);
    }
}

/// A new version sets its own benchmark going, if the prompt is held to one, and tells it the prompt's id
/// and name and the version, each under its own name.
pub proof fn a_new_version_is_put_to_the_test(prompt: &Prompt, version: u32, r: Option<(String, Json)>)
    requires
        call_ensures(run_on_new_version, (prompt, version), r),
    ensures
        r is Some <==> prompt.benchmark_id is Some,
        r matches Some((b, v)) ==> {
            &&& b@ == prompt.benchmark_id->0@
            &&& crate::json::field(v@, "prompt_id"@) == Some(JsonView::Str(prompt.id@))
            &&& crate::json::field(v@, "prompt_name"@) == Some(JsonView::Str(prompt.name@))
            &&& crate::json::field(v@, "version"@) == Some(
                JsonView::Num(NumberView::Pos(version as u64)),
            )
        },
{
    reveal_strlit("prompt_id");
    reveal_strlit("prompt_name");
    reveal_strlit("version");
    assert("prompt_id"@.len() == 9 && "prompt_name"@.len() == 11 && "version"@.len() == 7);
    let m = bench_payload_view(prompt.id@, prompt.name@, version)->Obj_0;
    first_where_is(m, crate::json::named("prompt_id"@), 0);
    first_where_is(m, crate::json::named("prompt_name"@), 1);
    first_where_is(m, crate::json::named("version"@), 2);
}

/// A fetch returns the version that was found, whole, under the tag that its events are to carry; one
/// that was not found is reported.
pub proof fn a_fetch_returns_what_was_found(
    id: String,
    name: String,
    version: u32,
    label: Option<String>,
    found: Option<PromptVersion>,
    r: Result<ResolvedPrompt, ApiError>,
)
    requires
        call_ensures(resolve_prompt, (id, name, version, label, found), r),
    ensures
        r is Ok <==> found is Some,
        r is Err ==> r->Err_0.code is NotFound,
        r is Ok ==> {
            let x = r->Ok_0;
            &&& x.id == id && x.name == name && x.label == label
            &&& x.version == found->0.version && x.content == found->0.content && x.config
                == found->0.config && x.note == found->0.note
            &&& x.tag@ == name@ + "@v"@ + dec(found->0.version as nat)
        },
{
}

/// A prompt is linked to what is named and unlinked only by saying so; nothing else of it changes.
pub proof fn a_link_is_changed_only_by_saying_so(
    prompt: Prompt,
    asked: Option<Option<String>>,
    now: Timestamp,
    r: Result<Prompt, ApiError>,
    t: Result<Option<String>, ApiError>,
)
    requires
        call_ensures(linked_prompt, (prompt, asked, now), r),
        call_ensures(link_target, (asked,), t),
    ensures
        r is Ok <==> asked is Some,
        t is Ok <==> asked is Some,
        t is Ok ==> t->Ok_0 == asked->0,
        r is Err ==> r->Err_0.code is BadRequest,
        r is Ok ==> {
            let p = r->Ok_0;
            &&& p.benchmark_id == asked->0 && p.updated_at == now
            &&& p.id == prompt.id && p.project_id == prompt.project_id && p.name == prompt.name
            &&& p.labels == prompt.labels && p.canary == prompt.canary && p.label_history
                == prompt.label_history && p.created_at == prompt.created_at
        },
{
}

/// A promotion goes through exactly where the version exists and no outcome blocks it, and a warning goes
/// along with it.
pub proof fn a_promotion_goes_through_unblocked(
    name: &str,
    version: u32,
    exists_it: bool,
    gate: &Option<GateOutcome>,
    r: Result<Option<String>, ApiError>,
)
    requires
        call_ensures(promotion, (name, version, exists_it, gate), r),
    ensures
        !exists_it ==> r is Err && r->Err_0.code is NotFound,
        r is Ok <==> exists_it && !(*gate is Some && gate->0 is Block),
        exists_it && *gate is Some ==> (gate->0 matches GateOutcome::Block(m) ==> r is Err && r->Err_0.code is Conflict
            && r->Err_0.message@ == m@),
        r is Ok ==> (r->Ok_0 is Some <==> *gate is Some && gate->0 is AllowWithWarning),
        exists_it && *gate is Some ==> (gate->0 matches GateOutcome::AllowWithWarning(w) ==> r is Ok
            && r->Ok_0 is Some && r->Ok_0->0@ == w@),
{
}

/// A canary can be cleared at any time; it can be set only where its policy can decide something and its
/// production label points somewhere; and setting it changes nothing else.
pub proof fn a_canary_needs_something_to_measure_against(
    prompt: Prompt,
    canary: Option<CanaryPolicy>,
    invalid: &Option<String>,
    now: Timestamp,
    r: Result<Prompt, ApiError>,
    labels: &Vec<Label>,
    l: &str,
    at: Option<u32>,
)
    requires
        call_ensures(with_canary, (prompt, canary, invalid, now), r),
        *labels == prompt.labels,
        canary is Some ==> l@ == canary->0.production_label@,
        call_ensures(label_version, (labels, l), at),
    ensures
        r is Ok <==> (canary is Some ==> *invalid is None && at is Some),
        r is Err ==> r->Err_0.code is BadRequest,
        r is Ok ==> {
            let p = r->Ok_0;
            &&& p.canary == canary && p.updated_at == now
            &&& p.id == prompt.id && p.project_id == prompt.project_id && p.name == prompt.name
            &&& p.labels == prompt.labels && p.benchmark_id == prompt.benchmark_id && p.label_history
                == prompt.label_history && p.created_at == prompt.created_at
        },
{
}

/// A policy is checked as it is set: clearing it is always fine.
pub proof fn a_canary_is_checked_before_it_is_set(
    name: &str,
    production: &Option<String>,
    invalid: &Option<String>,
    labels: &Vec<Label>,
    r: Result<(), ApiError>,
    l: &str,
    at: Option<u32>,
)
    requires
        call_ensures(check_canary, (name, production, invalid, labels), r),
        *production is Some ==> l@ == production->0@,
        call_ensures(label_version, (labels, l), at),
    ensures
        r is Ok <==> (*production is Some ==> *invalid is None && at is Some),
        r is Err ==> r->Err_0.code is BadRequest,
        *production is Some && *invalid is Some ==> r->Err_0.message@ == invalid->0@,
{
}

/// A benchmark is about a prompt exactly where one of its targets names it, and a run is told the prompt's
/// id, its name and the version, each under its own name.
pub proof fn a_benchmark_is_told_its_prompt(
    refs: &Vec<Option<String>>,
    name: &str,
    resolves: bool,
    id: &str,
    version: u32,
    r: Json,
)
    requires
        call_ensures(benchmark_resolves, (refs, name), resolves),
        call_ensures(bench_payload, (id, name, version), r),
    ensures
        resolves <==> exists|i: int|
            0 <= i < refs@.len() && (#[trigger] refs@[i]) is Some && refs@[i]->0@ == name@,
        crate::json::field(r@, "prompt_id"@) == Some(JsonView::Str(id@)),
        crate::json::field(r@, "prompt_name"@) == Some(JsonView::Str(name@)),
        crate::json::field(r@, "version"@) == Some(JsonView::Num(NumberView::Pos(version as u64))),
{
    reveal_strlit("prompt_id");
    reveal_strlit("prompt_name");
    reveal_strlit("version");
    assert("prompt_id"@[0] == 'p' && "version"@[0] == 'v' && "prompt_name"@[0] == 'p');
    assert("prompt_id"@.len() != "prompt_name"@.len());
    let m = r@->Obj_0;
    crate::seqs::first_where_is(m, crate::json::named("prompt_id"@), 0);
    crate::seqs::first_where_is(m, crate::json::named("prompt_name"@), 1);
    crate::seqs::first_where_is(m, crate::json::named("version"@), 2);
}

} // verus!
