//! What is done to client text before it is stored: the project's persistence policy, then the scrub,
//! then a stamp that records both.
use vstd::prelude::*;

use crate::event::{metadata_drop, metadata_set, without_meta, LlmEvent};
use crate::hook::{call_text, is_text_fn, text_fn_of, TextRule};
use crate::json::{
    field, member_views, named, obj_view, put, put_reads_back, without,
    without_keeps_others, Json, JsonView, Member, Number, NumberView,
};
use crate::order::{key_views, ranked, stable_order, KeyView, SortKey};
use crate::projects::Redaction;
use crate::scrub::{
    cleaned, fresh_tally, is_scrubber, json_count, nothing_uninspected_survives, rule_of,
    scrub_string, scrub_value_capped, scrubbed, text_count, vetted, Count, CountView, Rule, Scrubbed,
};
use crate::seqs::{first_where, first_where_is, first_where_none, first_where_some, is_first};
use crate::text::{
    any_same, ascii_lower, chars_of, dec, same, show_usize, slice_of, trim_owned, trimmed, views,
};
use crate::wire::{compact_text, json_text};

verus! {

/// The metadata member in which a row records what was done to it.
pub const REDACTION_KEY: &'static str = "redaction";

// ------------------------------------------------------------------ which projects are scrubbed

/// Which projects are scrubbed.
#[derive(Debug)]
pub enum Mode {
    Off,
    All,
    /// Only these, each listed once.
    Projects(Vec<String>),
}

/// The scrub's configuration.
#[derive(Debug)]
pub struct Redactor {
    pub mode: Mode,
    /// Whether nobody said anything.
    pub defaulted: bool,
}

/// The parts of a text between its commas.
pub open spec fn comma_parts(s: Seq<char>) -> Seq<Seq<char>>
    decreases s.len(),
{
    if s.len() == 0 {
        seq![seq![]]
    } else {
        let p = comma_parts(s.drop_last());
        if s.last() == ',' {
            p.push(seq![])
        } else {
            p.drop_last().push(p.last().push(s.last()))
        }
    }
}

/// Whether `p` is among the projects that a list names: a part of it, trimmed, and not empty.
pub open spec fn lists_project(parts: Seq<Seq<char>>, p: Seq<char>) -> bool {
    p.len() > 0 && exists|i: int| 0 <= i < parts.len() && trimmed(#[trigger] parts[i]) == p
}

/// Whether a mode covers exactly the projects that the list `t` names, each once.
pub open spec fn covers_list(mode: Mode, t: Seq<char>) -> bool {
    &&& mode is Projects
    &&& views(mode->Projects_0@).no_duplicates()
    &&& forall|p: Seq<char>|
        views(mode->Projects_0@).contains(p) <==> #[trigger] lists_project(comma_parts(t), p)
}

/// Whether `r` is the configuration that a setting names. Unset and blank scrub everything.
pub open spec fn configures(r: Redactor, raw: Option<Seq<char>>) -> bool {
    let t = match raw {
        Some(s) => trimmed(s),
        None => seq![],
    };
    if t.len() == 0 {
        r.mode is All && r.defaulted
    } else if ascii_lower(t) == "off"@ || t == "0"@ {
        r.mode is Off && !r.defaulted
    } else if ascii_lower(t) == "all"@ || t == "*"@ || t == "1"@ {
        r.mode is All && !r.defaulted
    } else {
        !r.defaulted && covers_list(r.mode, t)
    }
}

/// The projects that a list names, each once.
fn listed_projects(t: &str) -> (r: Vec<String>)
    ensures
        views(r@).no_duplicates(),
        forall|p: Seq<char>|
            views(r@).contains(p) <==> #[trigger] lists_project(comma_parts(t@), p),
{
    let c = chars_of(t);
    let mut out: Vec<String> = Vec::new();
    let ghost mut done: Seq<Seq<char>> = seq![];
    let mut from: usize = 0;
    let mut i: usize = 0;
    assert(t@.subrange(0, 0) =~= seq![]);
    assert(t@.take(0) =~= seq![]);
    assert(comma_parts(t@.take(0)) =~= done.push(t@.subrange(0, 0)));
    while i < c.len()
        invariant
            c@ == t@,
            from <= i <= c.len(),
            comma_parts(t@.take(i as int)) == done.push(t@.subrange(from as int, i as int)),
            views(out@).no_duplicates(),
            forall|p: Seq<char>| views(out@).contains(p) <==> #[trigger] lists_project(done, p),
        decreases c.len() - i,
    {
        let ghost cur = t@.subrange(from as int, i as int);
        assert(t@.take(i + 1).drop_last() =~= t@.take(i as int));
        assert(done.push(cur).drop_last() =~= done);
        if c[i] == ',' {
            let part = slice_of(c.as_slice(), from, i);
            add_project(&mut out, part.as_str(), Ghost(done));
            proof {
                done = done.push(cur);
            }
            from = i + 1;
            assert(t@.subrange(from as int, i + 1) =~= seq![]);
        } else {
            assert(t@.subrange(from as int, i + 1) =~= cur.push(c@[i as int]));
        }
        i += 1;
    }
    assert(t@.take(i as int) =~= t@);
    let part = slice_of(c.as_slice(), from, c.len());
    add_project(&mut out, part.as_str(), Ghost(done));
    out
}

fn add_project(out: &mut Vec<String>, part: &str, Ghost(done): Ghost<Seq<Seq<char>>>)
    requires
        views(old(out)@).no_duplicates(),
        forall|p: Seq<char>| views(old(out)@).contains(p) <==> #[trigger] lists_project(done, p),
    ensures
        views(final(out)@).no_duplicates(),
        forall|p: Seq<char>|
            views(final(out)@).contains(p) <==> #[trigger] lists_project(done.push(part@), p),
{
    let t = trim_owned(part);
    let ghost before = out@;
    let ghost next = done.push(part@);
    assert forall|p: Seq<char>| lists_project(next, p) <==> lists_project(done, p) || (p.len() > 0
        && p == t@) by {
        if lists_project(done, p) {
            let i = choose|i: int| 0 <= i < done.len() && trimmed(#[trigger] done[i]) == p;
            assert(trimmed(next[i]) == p);
        }
        if p.len() > 0 && p == t@ {
            assert(trimmed(next[done.len() as int]) == p);
        }
        if lists_project(next, p) {
            let i = choose|i: int| 0 <= i < next.len() && trimmed(#[trigger] next[i]) == p;
            if i < done.len() {
                assert(trimmed(done[i]) == p);
            }
        }
    }
    if !t.as_str().is_empty() && !any_same(out, t.as_str()) {
        out.push(t);
        assert(views(out@) =~= views(before).push(t@));
        assert forall|p: Seq<char>| views(out@).contains(p) <==> views(before).contains(p) || p == t@ by {
            let a = views(before).push(t@);
            if views(before).contains(p) {
                let i = views(before).index_of(p);
                assert(a[i] == p);
            }
            if p == t@ {
                assert(a[before.len() as int] == p);
            }
            if a.contains(p) {
                let i = a.index_of(p);
                if i < before.len() {
                    assert(views(before)[i] == p);
                }
            }
        }
    }
}

impl Redactor {
    /// Reads the setting; an unset or blank one scrubs every project.
    pub fn from_raw(raw: Option<&str>) -> (r: Redactor)
        ensures
            configures(r, crate::event::text_view(raw)),
    {
        let t = match raw {
            Some(s) => trim_owned(s),
            None => String::new(),
        };
        let s = t.as_str();
        if s.is_empty() {
            return Redactor { mode: Mode::All, defaulted: true };
        }
        let l = s.to_ascii_lowercase();
        if same(l.as_str(), "off") || same(s, "0") {
            Redactor { mode: Mode::Off, defaulted: false }
        } else if same(l.as_str(), "all") || same(s, "*") || same(s, "1") {
            Redactor { mode: Mode::All, defaulted: false }
        } else {
            Redactor { mode: Mode::Projects(listed_projects(s)), defaulted: false }
        }
    }

    /// A configuration that scrubs nothing.
    pub fn off() -> (r: Redactor)
        ensures
            r.mode is Off && !r.defaulted,
    {
        Redactor { mode: Mode::Off, defaulted: false }
    }

    /// A configuration that scrubs every project, by choice.
    pub fn all() -> (r: Redactor)
        ensures
            r.mode is All && !r.defaulted,
    {
        Redactor { mode: Mode::All, defaulted: false }
    }

    /// What an operator gets who configured nothing.
    pub fn defaulted() -> (r: Redactor)
        ensures
            r.mode is All && r.defaulted,
    {
        Redactor::from_raw(None)
    }

    /// Whether a project is scrubbed.
    pub open spec fn covers(self, project: Seq<char>) -> bool {
        match self.mode {
            Mode::Off => false,
            Mode::All => true,
            Mode::Projects(v) => views(v@).contains(project),
        }
    }

    /// Whether a project is scrubbed.
    pub fn enabled_for(&self, project: &str) -> (r: bool)
        ensures
            r == self.covers(project@),
    {
        match &self.mode {
            Mode::Off => false,
            Mode::All => true,
            Mode::Projects(v) => any_same(v, project),
        }
    }

    /// The configuration in words.
    pub open spec fn described(self) -> Seq<char> {
        let base = match self.mode {
            Mode::Off => "off"@,
            Mode::All => "all projects"@,
            Mode::Projects(v) => dec(v@.len()) + " project(s)"@,
        };
        if self.defaulted {
            base + " (default)"@
        } else {
            base
        }
    }

    /// One line for the startup banner.
    pub fn describe(&self) -> (r: String)
        ensures
            r@ == self.described(),
    {
        let mut base = match &self.mode {
            Mode::Off => "off".to_owned(),
            Mode::All => "all projects".to_owned(),
            Mode::Projects(v) => {
                let mut n = show_usize(v.len());
                n.append(" project(s)");
                n
            },
        };
        if self.defaulted {
            base.append(" (default)");
        }
        base
    }
}

/// An instance that nobody configured scrubs every project.
pub proof fn unconfigured_scrubs_everything(r: Redactor, project: Seq<char>)
    requires
        configures(r, None),
    ensures
        r.covers(project),
{
}

/// A setting that is a list scrubs exactly the projects that it names.
pub proof fn a_list_scrubs_exactly_what_it_names(r: Redactor, raw: Seq<char>, project: Seq<char>)
    requires
        configures(r, Some(raw)),
        r.mode is Projects,
    ensures
        r.covers(project) <==> lists_project(comma_parts(trimmed(raw)), project),
{
}

// ------------------------------------------------------------------ the boot line

/// How names are ranked.
pub open spec fn name_keys(v: Seq<String>) -> Seq<KeyView> {
    v.map_values(|s: String| KeyView { major: 0, text: s@, minor: 0, tail: ""@ })
}

/// The first `n` names of a listing, in the given order, with commas between them.
pub open spec fn joined_in_order(v: Seq<String>, order: Seq<usize>, n: nat) -> Seq<char>
    decreases n,
{
    if n == 0 {
        seq![]
    } else if n == 1 {
        v[order[0] as int]@
    } else {
        joined_in_order(v, order, (n - 1) as nat) + ","@ + v[order[n - 1] as int]@
    }
}

/// The names sorted, with commas between them.
pub open spec fn sorted_names(v: Seq<String>) -> Seq<char> {
    joined_in_order(v, ranked(name_keys(v)), v.len())
}

fn sort_names(v: &Vec<String>) -> (r: String)
    ensures
        r@ == sorted_names(v@),
{
    let mut keys: Vec<SortKey> = Vec::new();
    let mut i: usize = 0;
    while i < v.len()
        invariant
            i <= v.len(),
            key_views(keys@) =~= name_keys(v@).take(i as int),
        decreases v.len() - i,
    {
        let k = SortKey { major: 0, text: v[i].clone(), minor: 0, tail: "".to_owned() };
        let ghost before = keys@;
        keys.push(k);
        assert(key_views(keys@) =~= key_views(before).push(k@));
        i += 1;
    }
    assert(name_keys(v@).take(i as int) =~= name_keys(v@));
    let order = stable_order(&keys);
    assert(key_views(keys@).len() == v@.len());
    let mut out = String::new();
    let mut j: usize = 0;
    while j < order.len()
        invariant
            j <= order.len() == v.len(),
            forall|p: int| 0 <= p < order@.len() ==> (#[trigger] order@[p]) < v@.len(),
            out@ == joined_in_order(v@, order@, j as nat),
        decreases order.len() - j,
    {
        if j > 0 {
            out.append(",");
        }
        out.append(v[order[j]].as_str());
        proof {
            if j == 0 {
                assert(out@ =~= v@[order@[0] as int]@);
            }
        }
        j += 1;
    }
    out
}

/// What is said at boot about the scrub.
#[derive(Debug)]
pub struct Posture {
    /// Whether it is said as a warning.
    pub warn: bool,
    /// The mode in one word.
    pub redact: String,
    /// The projects that are scrubbed, where only some are.
    pub projects: Option<String>,
    pub message: String,
    /// Whether the rule set in force is named too.
    pub name_rules: bool,
}

/// What is said when the scrub is off.
pub const POSTURE_OFF: &'static str = "PII scrubbing on ingest is OFF: captured input/output/error/tags are stored exactly as the client sent them, PII included. Unset LIGHTTRACK_REDACT_INGEST to scrub every project.";

/// What is said when nobody said anything.
pub const POSTURE_DEFAULT: &'static str = "PII scrubbing on ingest is ON for every project (the default since v0.1: LIGHTTRACK_REDACT_INGEST is unset). Emails, cards, SSNs, IPs, phones and secrets are replaced with markers before storage. Set LIGHTTRACK_REDACT_INGEST=off to store client text verbatim.";

/// What is said when every project is scrubbed by choice.
pub const POSTURE_ALL: &'static str = "PII scrubbing on ingest is ON for every project (LIGHTTRACK_REDACT_INGEST=all).";

/// What is said when only some projects are scrubbed.
pub open spec fn posture_some(n: nat) -> Seq<char> {
    "PII scrubbing on ingest is ON for "@ + dec(n)
        + " named project(s) only — every OTHER project stores client text verbatim. Unset LIGHTTRACK_REDACT_INGEST to scrub all of them."@
}

impl Redactor {
    /// What is said at boot: a warning wherever some client text is stored verbatim, a plain line
    /// otherwise.
    pub fn posture(&self) -> (r: Posture)
        ensures
            match self.mode {
                Mode::Off => r.warn && r.redact@ == "off"@ && r.projects is None && r.message@
                    == POSTURE_OFF@ && !r.name_rules,
                Mode::All => !r.warn && r.redact@ == "all"@ && r.projects is None && r.message@
                    == (if self.defaulted {
                    POSTURE_DEFAULT@
                } else {
                    POSTURE_ALL@
                }) && r.name_rules,
                Mode::Projects(v) => r.warn && r.redact@ == "projects"@ && r.projects is Some
                    && r.projects->0@ == sorted_names(v@) && r.message@ == posture_some(v@.len())
                    && r.name_rules,
            },
    {
        match &self.mode {
            Mode::Off => Posture {
                warn: true,
                redact: "off".to_owned(),
                projects: None,
                message: POSTURE_OFF.to_owned(),
                name_rules: false,
            },
            Mode::All => Posture {
                warn: false,
                redact: "all".to_owned(),
                projects: None,
                message: if self.defaulted {
                    POSTURE_DEFAULT.to_owned()
                } else {
                    POSTURE_ALL.to_owned()
                },
                name_rules: true,
            },
            Mode::Projects(v) => {
                let n = show_usize(v.len());
                let mut m = "PII scrubbing on ingest is ON for ".to_owned();
                m.append(n.as_str());
                m.append(
                    " named project(s) only — every OTHER project stores client text verbatim. Unset LIGHTTRACK_REDACT_INGEST to scrub all of them.",
                );
                Posture {
                    warn: true,
                    redact: "projects".to_owned(),
                    projects: Some(sort_names(v)),
                    message: m,
                    name_rules: true,
                }
            },
        }
    }
}

// ------------------------------------------------------------------ the persistence policy

/// A payload's digest in place of the payload.
pub open spec fn digested(v: JsonView, g: TextRule) -> JsonView {
    JsonView::Obj(seq![("sha256"@, JsonView::Str(g(json_text(v))))])
}

/// Whether `r` is an optional payload as a policy leaves it.
pub open spec fn persisted(p: Option<Json>, policy: Redaction, g: TextRule, r: Option<Json>) -> bool {
    match policy {
        Redaction::Keep => r == p,
        Redaction::Drop => r is None,
        Redaction::Hash => match p {
            Some(v) => r is Some && r->0@ == digested(v@, g),
            None => r is None,
        },
    }
}

fn digest_payload<D: Fn(String) -> String>(p: Option<Json>, digest: &D) -> (r: Option<Json>)
    requires
        is_text_fn(*digest),
    ensures
        persisted(p, Redaction::Hash, text_fn_of(*digest), r),
{
    broadcast use obj_view;

    match p {
        Some(v) => {
            let t = compact_text(&v);
            let d = call_text(digest, t.as_str());
            let mut m: Vec<Member> = Vec::new();
            m.push(Member { name: "sha256".to_owned(), value: Json::Str(d) });
            assert(member_views(m@) =~= seq![("sha256"@, JsonView::Str(d@))]);
            Some(Json::Obj(m))
        },
        None => None,
    }
}

/// The payloads of an event.
#[derive(Debug)]
pub struct Payloads {
    pub input: Option<Json>,
    pub output: Option<Json>,
    /// Whether a policy changed either of them.
    pub applied: bool,
}

/// Applies a project's persistence policy to an event's payloads: kept as they are, replaced by a
/// digest of their compact JSON, or dropped. Says whether any payload was there to change.
pub fn apply_policy<D: Fn(String) -> String>(
    input: Option<Json>,
    output: Option<Json>,
    policy: Redaction,
    digest: &D,
) -> (r: Payloads)
    requires
        is_text_fn(*digest),
    ensures
        persisted(input, policy, text_fn_of(*digest), r.input),
        persisted(output, policy, text_fn_of(*digest), r.output),
        r.applied == (policy != Redaction::Keep && (input is Some || output is Some)),
{
    let had = input.is_some() || output.is_some();
    match policy {
        Redaction::Keep => Payloads { input, output, applied: false },
        Redaction::Hash => Payloads {
            input: digest_payload(input, digest),
            output: digest_payload(output, digest),
            applied: had,
        },
        Redaction::Drop => Payloads { input: None, output: None, applied: had },
    }
}

/// No payload survives hashing or dropping as it was sent: what is stored depends on its digest alone.
pub proof fn hashing_forgets_the_payload(
    a: Option<Json>,
    b: Option<Json>,
    g: TextRule,
    x: Option<Json>,
    y: Option<Json>,
)
    requires
        a is Some && b is Some,
        g(json_text(a->0@)) == g(json_text(b->0@)),
        persisted(a, Redaction::Hash, g, x),
        persisted(b, Redaction::Hash, g, y),
    ensures
        x->0@ == y->0@,
{
}

// ------------------------------------------------------------------ the scrub of an event

/// Whether a metadata member passes the scrub unchanged: a key that accounts are joined on.
pub open spec fn passes(k: Seq<char>) -> bool {
    ||| k == "api_key_id"@
    ||| k == "customer_id"@
    ||| k == "product_id"@
    ||| k == "cost_source"@
    ||| k == "pricing_mode"@
    ||| k == "prompt_sha256"@
    ||| k == REDACTION_KEY@
}

/// Whether a metadata member passes the scrub unchanged.
pub fn is_passthrough(k: &str) -> (r: bool)
    ensures
        r == passes(k@),
{
    same(k, "api_key_id") || same(k, "customer_id") || same(k, "product_id") || same(
        k,
        "cost_source",
    ) || same(k, "pricing_mode") || same(k, "prompt_sha256") || same(k, REDACTION_KEY)
}

/// One metadata member as the scrub leaves it.
pub open spec fn member_scrubbed(m: (Seq<char>, JsonView), g: Rule) -> (Seq<char>, JsonView) {
    if passes(m.0) {
        m
    } else {
        (m.0, scrubbed(m.1, g))
    }
}

/// What is counted over one metadata member.
pub open spec fn member_count(m: (Seq<char>, JsonView), g: Rule) -> CountView {
    if passes(m.0) {
        CountView::zero()
    } else {
        json_count(m.1, g)
    }
}

/// What is counted over metadata members.
pub open spec fn members_count(m: Seq<(Seq<char>, JsonView)>, g: Rule) -> CountView
    decreases m.len(),
{
    if m.len() == 0 {
        CountView::zero()
    } else {
        members_count(m.drop_last(), g).plus(member_count(m.last(), g))
    }
}

/// Metadata as the scrub leaves it: an object member by member, anything else but null as a document.
pub open spec fn metadata_scrubbed(v: JsonView, g: Rule) -> JsonView {
    match v {
        JsonView::Obj(m) => JsonView::Obj(
            m.map_values(|x: (Seq<char>, JsonView)| member_scrubbed(x, g)),
        ),
        JsonView::Null => v,
        _ => scrubbed(v, g),
    }
}

/// What is counted over metadata.
pub open spec fn metadata_count(v: JsonView, g: Rule) -> CountView {
    match v {
        JsonView::Obj(m) => members_count(m, g),
        JsonView::Null => CountView::zero(),
        _ => json_count(v, g),
    }
}

/// What is counted over an optional text.
pub open spec fn opt_text_count(s: Option<String>, g: Rule) -> CountView {
    match s {
        Some(x) => text_count(x@, g),
        None => CountView::zero(),
    }
}

/// What is counted over an optional payload.
pub open spec fn opt_json_count(v: Option<Json>, g: Rule) -> CountView {
    match v {
        Some(x) => json_count(x@, g),
        None => CountView::zero(),
    }
}

/// What is counted over tags.
pub open spec fn tags_count(v: Seq<String>, g: Rule) -> CountView
    decreases v.len(),
{
    if v.len() == 0 {
        CountView::zero()
    } else {
        tags_count(v.drop_last(), g).plus(text_count(v.last()@, g))
    }
}

/// Whether `r` is an optional text as the scrub leaves it.
pub open spec fn opt_cleaned(s: Option<String>, g: Rule, r: Option<String>) -> bool {
    match s {
        Some(x) => r is Some && r->0@ == cleaned(g, x@),
        None => r is None,
    }
}

/// Whether `r` is an optional payload as the scrub leaves it.
pub open spec fn opt_scrubbed(v: Option<Json>, g: Rule, r: Option<Json>) -> bool {
    match v {
        Some(x) => r is Some && r->0@ == scrubbed(x@, g),
        None => r is None,
    }
}

/// What is counted over a whole event. Payloads that a policy has already hashed or dropped are not
/// looked at.
pub open spec fn event_count(ev: LlmEvent, policy: Redaction, g: Rule) -> CountView {
    let payloads = if policy == Redaction::Keep {
        opt_json_count(ev.input, g).plus(opt_json_count(ev.output, g))
    } else {
        CountView::zero()
    };
    payloads.plus(opt_text_count(ev.error, g)).plus(tags_count(ev.tags@, g)).plus(
        opt_text_count(ev.name, g),
    ).plus(opt_text_count(ev.source, g)).plus(metadata_count(ev.metadata@, g))
}

/// Whether `r` is `ev` with every text a client can write scrubbed, and nothing else changed.
pub open spec fn event_scrubbed(r: LlmEvent, ev: LlmEvent, policy: Redaction, g: Rule) -> bool {
    &&& if policy == Redaction::Keep {
        opt_scrubbed(ev.input, g, r.input) && opt_scrubbed(ev.output, g, r.output)
    } else {
        r.input == ev.input && r.output == ev.output
    }
    &&& opt_cleaned(ev.error, g, r.error)
    &&& r.tags@.len() == ev.tags@.len()
    &&& forall|i: int| 0 <= i < r.tags@.len() ==> (#[trigger] r.tags@[i])@ == cleaned(g, ev.tags@[i]@)
    &&& opt_cleaned(ev.name, g, r.name)
    &&& opt_cleaned(ev.source, g, r.source)
    &&& r.metadata@ == metadata_scrubbed(ev.metadata@, g)
    &&& r == (LlmEvent {
        input: r.input,
        output: r.output,
        error: r.error,
        tags: r.tags,
        name: r.name,
        source: r.source,
        metadata: r.metadata,
        ..ev
    })
}

fn scrub_opt_text<F: Fn(String) -> Scrubbed>(s: Option<String>, scrub: &F) -> (r: (
    Option<String>,
    Count,
))
    requires
        is_scrubber(*scrub),
    ensures
        opt_cleaned(s, rule_of(*scrub), r.0),
        r.1@ == opt_text_count(s, rule_of(*scrub)),
        r.1.spans < 0x1_0000_0000,
        r.1.drops == 0,
{
    match s {
        Some(x) => {
            let (t, n, failed) = scrub_string(x.as_str(), scrub);
            (Some(t), Count { spans: n as u128, drops: 0, failed })
        },
        None => (None, Count { spans: 0, drops: 0, failed: false }),
    }
}

fn scrub_opt_json<F: Fn(String) -> Scrubbed>(v: Option<Json>, scrub: &F) -> (r: (
    Option<Json>,
    Count,
))
    requires
        is_scrubber(*scrub),
    ensures
        opt_scrubbed(v, rule_of(*scrub), r.0),
        r.1@ == opt_json_count(v, rule_of(*scrub)),
        r.1.spans < 0x1_0000_0000_0000,
        r.1.drops < 0x1_0000_0000_0000,
{
    match v {
        Some(x) => {
            let (y, c) = scrub_value_capped(&x, scrub);
            (Some(y), c)
        },
        None => (None, Count { spans: 0, drops: 0, failed: false }),
    }
}

fn scrub_tags<F: Fn(String) -> Scrubbed>(tags: &Vec<String>, scrub: &F) -> (r: (
    Vec<String>,
    Count,
))
    requires
        is_scrubber(*scrub),
    ensures
        r.0@.len() == tags@.len(),
        forall|i: int|
            0 <= i < r.0@.len() ==> (#[trigger] r.0@[i])@ == cleaned(rule_of(*scrub), tags@[i]@),
        r.1@ == tags_count(tags@, rule_of(*scrub)),
        r.1.spans <= 0x1_0000_0000 * 0x1_0000_0000_0000_0000,
        r.1.drops == 0,
{
    let mut out: Vec<String> = Vec::new();
    let mut c = Count { spans: 0, drops: 0, failed: false };
    let mut i: usize = 0;
    while i < tags.len()
        invariant
            is_scrubber(*scrub),
            i <= tags.len(),
            out@.len() == i,
            forall|j: int|
                0 <= j < i ==> (#[trigger] out@[j])@ == cleaned(rule_of(*scrub), tags@[j]@),
            c@ == tags_count(tags@.take(i as int), rule_of(*scrub)),
            c.spans <= 0x1_0000_0000 * i,
            c.drops == 0,
        decreases tags.len() - i,
    {
        assert(tags@.take(i + 1).drop_last() =~= tags@.take(i as int));
        let (t, n, failed) = scrub_string(tags[i].as_str(), scrub);
        out.push(t);
        c = Count { spans: c.spans + n as u128, drops: 0, failed: c.failed || failed };
        i += 1;
    }
    assert(tags@.take(i as int) =~= tags@);
    assert(i <= 0x1_0000_0000_0000_0000);
    (out, c)
}

fn scrub_metadata<F: Fn(String) -> Scrubbed>(v: Json, scrub: &F) -> (r: (Json, Count))
    requires
        is_scrubber(*scrub),
    ensures
        r.0@ == metadata_scrubbed(v@, rule_of(*scrub)),
        r.1@ == metadata_count(v@, rule_of(*scrub)),
        r.1.spans <= 0x1_0000_0000_0000_0000_0000_0000_0000,
        r.1.drops <= 0x1_0000_0000_0000_0000_0000_0000_0000,
{
    let ghost g = rule_of(*scrub);
    match v {
        Json::Null => (Json::Null, Count { spans: 0, drops: 0, failed: false }),
        Json::Obj(m) => {
            let ghost mv = member_views(m@);
            let ghost f = |x: (Seq<char>, JsonView)| member_scrubbed(x, g);
            proof {
                obj_view(m);
            }
            let mut out: Vec<Member> = Vec::new();
            let mut c = Count { spans: 0, drops: 0, failed: false };
            let mut i: usize = 0;
            while i < m.len()
                invariant
                    is_scrubber(*scrub),
                    g == rule_of(*scrub),
                    mv == member_views(m@),
                    f == (|x: (Seq<char>, JsonView)| member_scrubbed(x, g)),
                    i <= m.len(),
                    member_views(out@) =~= mv.take(i as int).map_values(f),
                    c@ == members_count(mv.take(i as int), g),
                    c.spans <= 0x1_0000_0000_0000 * i,
                    c.drops <= 0x1_0000_0000_0000 * i,
                decreases m.len() - i,
            {
                let x = &m[i];
                assert(mv.take(i + 1).drop_last() =~= mv.take(i as int));
                assert(mv[i as int] == (x.name@, x.value@));
                let (y, d) = if is_passthrough(x.name.as_str()) {
                    (
                        crate::json::copy_json(&x.value),
                        Count { spans: 0, drops: 0, failed: false },
                    )
                } else {
                    scrub_value_capped(&x.value, scrub)
                };
                let ghost before = out@;
                let member = Member { name: x.name.clone(), value: y };
                out.push(member);
                assert(member_views(out@) =~= member_views(before).push((member.name@, y@)));
                assert(mv.take(i + 1).map_values(f) =~= mv.take(i as int).map_values(f).push(
                    member_scrubbed(mv[i as int], g),
                ));
                c = Count {
                    spans: c.spans + d.spans,
                    drops: c.drops + d.drops,
                    failed: c.failed || d.failed,
                };
                i += 1;
            }
            assert(mv.take(i as int) =~= mv);
            proof {
                obj_view(out);
            }
            (Json::Obj(out), c)
        },
        other => scrub_value_capped(&other, scrub),
    }
}

fn sum(a: Count, b: Count) -> (r: Count)
    requires
        a.spans + b.spans <= u128::MAX,
        a.drops + b.drops <= u128::MAX,
    ensures
        r@ == a@.plus(b@),
        r.spans == a.spans + b.spans,
        r.drops == a.drops + b.drops,
{
    Count { spans: a.spans + b.spans, drops: a.drops + b.drops, failed: a.failed || b.failed }
}

/// Scrubs every text of an event that a client can write, and counts.
pub fn scrub_all<F: Fn(String) -> Scrubbed>(ev: LlmEvent, policy: Redaction, scrub: &F) -> (r: (
    LlmEvent,
    Count,
))
    requires
        is_scrubber(*scrub),
    ensures
        event_scrubbed(r.0, ev, policy, rule_of(*scrub)),
        r.1@ == event_count(ev, policy, rule_of(*scrub)),
{
    let (input, output, payloads) = match policy {
        Redaction::Keep => {
            let (i, a) = scrub_opt_json(ev.input, scrub);
            let (o, b) = scrub_opt_json(ev.output, scrub);
            (i, o, sum(a, b))
        },
        _ => (ev.input, ev.output, Count { spans: 0, drops: 0, failed: false }),
    };
    let (error, c) = scrub_opt_text(ev.error, scrub);
    let (tags, d) = scrub_tags(&ev.tags, scrub);
    let (name, e) = scrub_opt_text(ev.name, scrub);
    let (source, f) = scrub_opt_text(ev.source, scrub);
    let (metadata, h) = scrub_metadata(ev.metadata, scrub);
    let total = sum(sum(sum(sum(sum(payloads, c), d), e), f), h);
    (
        LlmEvent {
            id: ev.id,
            project_id: ev.project_id,
            trace_id: ev.trace_id,
            span_id: ev.span_id,
            parent_span_id: ev.parent_span_id,
            ts: ev.ts,
            received_at: ev.received_at,
            provider: ev.provider,
            model: ev.model,
            name,
            operation: ev.operation,
            usage: ev.usage,
            cost: ev.cost,
            latency_ms: ev.latency_ms,
            status: ev.status,
            error,
            input,
            output,
            tags,
            source,
            metadata,
        },
        total,
    )
}

// ------------------------------------------------------------------ the stamp

/// A policy's wire string.
pub open spec fn policy_wire(p: Redaction) -> Seq<char> {
    match p {
        Redaction::Keep => "none"@,
        Redaction::Hash => "hash"@,
        Redaction::Drop => "drop"@,
    }
}

/// What a row records of what was done to it: the policy, the rule set where it was scrubbed, whether
/// it was, and how many spans were replaced.
pub open spec fn stamp_view(policy: Redaction, scrub: bool, spans: u32, rules: Seq<char>) -> JsonView {
    JsonView::Obj(
        seq![
            ("policy"@, JsonView::Str(policy_wire(policy))),
            (
                "rules"@,
                JsonView::Str(
                    if scrub {
                        rules
                    } else {
                        ""@
                    },
                ),
            ),
            ("scrub"@, JsonView::Bool(scrub)),
            ("spans"@, JsonView::Num(NumberView::Pos(spans as u64))),
        ],
    )
}

/// Metadata with a stamp: a member of an object; an object of its own where there was nothing; and
/// beside the client's value where that is no object.
pub open spec fn stamped(v: JsonView, stamp: JsonView) -> JsonView {
    match v {
        JsonView::Obj(m) => JsonView::Obj(put(m, REDACTION_KEY@, stamp)),
        JsonView::Null => JsonView::Obj(seq![(REDACTION_KEY@, stamp)]),
        _ => JsonView::Obj(seq![(REDACTION_KEY@, stamp), ("value"@, v)]),
    }
}

fn make_stamp(policy: Redaction, scrub: bool, spans: u32, rules: &str) -> (r: Json)
    ensures
        r@ == stamp_view(policy, scrub, spans, rules@),
{
    let p = match policy {
        Redaction::Keep => "none",
        Redaction::Hash => "hash",
        Redaction::Drop => "drop",
    };
    let mut m: Vec<Member> = Vec::new();
    m.push(Member { name: "policy".to_owned(), value: Json::Str(p.to_owned()) });
    m.push(
        Member {
            name: "rules".to_owned(),
            value: Json::Str(
                if scrub {
                    rules.to_owned()
                } else {
                    "".to_owned()
                },
            ),
        },
    );
    m.push(Member { name: "scrub".to_owned(), value: Json::Bool(scrub) });
    m.push(Member { name: "spans".to_owned(), value: Json::Num(Number::Pos(spans as u64)) });
    proof {
        obj_view(m);
        assert(member_views(m@) =~= stamp_view(policy, scrub, spans, rules@)->Obj_0);
    }
    Json::Obj(m)
}

/// Puts a stamp on metadata without destroying what a client put there.
pub fn write_stamp(v: Json, stamp: Json) -> (r: Json)
    ensures
        r@ == stamped(v@, stamp@),
{
    match v {
        Json::Obj(_) | Json::Null => metadata_set(v, REDACTION_KEY, stamp),
        other => {
            let mut m: Vec<Member> = Vec::new();
            m.push(Member { name: REDACTION_KEY.to_owned(), value: stamp });
            m.push(Member { name: "value".to_owned(), value: other });
            proof {
                obj_view(m);
                assert(member_views(m@) =~= seq![(REDACTION_KEY@, stamp@), ("value"@, other@)]);
            }
            Json::Obj(m)
        },
    }
}

/// What stands in place of a payload whose scrub broke down.
pub const FAILED_PAYLOAD: &'static str = "<REDACTION FAILED: payload discarded>";

/// What stands in place of an error text whose scrub broke down.
pub const FAILED_ERROR: &'static str = "<REDACTION FAILED>";

/// Whether `r` is an optional label as a broken-down scrub leaves it: scrubbed, or gone where the scrub
/// broke down over it.
pub open spec fn label_left(s: Option<String>, g: Rule, r: Option<String>) -> bool {
    if s is Some && g(s->0@).failed {
        r is None
    } else {
        opt_cleaned(s, g, r)
    }
}

/// Whether `r` is `ev` as it is stored when the scrub broke down: payloads, error, tags and metadata are
/// discarded, and nothing is left that was not scrubbed.
pub open spec fn discarded(r: LlmEvent, ev: LlmEvent, policy: Redaction, g: Rule, rules: Seq<char>) -> bool {
    &&& r.input is Some && r.input->0@ == JsonView::Str(FAILED_PAYLOAD@)
    &&& r.output is Some && r.output->0@ == JsonView::Str(FAILED_PAYLOAD@)
    &&& r.error is Some && r.error->0@ == FAILED_ERROR@
    &&& r.tags@.len() == 0
    &&& r.metadata@ == stamped(JsonView::Null, stamp_view(policy, true, 0, rules))
    &&& label_left(ev.name, g, r.name)
    &&& label_left(ev.source, g, r.source)
    &&& r == (LlmEvent {
        input: r.input,
        output: r.output,
        error: r.error,
        tags: r.tags,
        name: r.name,
        source: r.source,
        metadata: r.metadata,
        ..ev
    })
}

/// What became of an event.
#[derive(Debug)]
pub struct Redacted {
    pub event: LlmEvent,
    /// The spans replaced.
    pub spans: u128,
    /// The values dropped without being inspected.
    pub drops: u128,
    /// Whether the scrub broke down and the payloads were discarded.
    pub failed: bool,
}

/// An event without the stamp a client may have claimed.
pub open spec fn unclaimed(ev: LlmEvent, r: LlmEvent) -> bool {
    r.metadata@ == without_meta(ev.metadata@, REDACTION_KEY@) && r == (LlmEvent {
        metadata: r.metadata,
        ..ev
    })
}

/// Whether `r` is what redacting an event without a client's stamp comes to.
pub open spec fn redacts_bare(
    r: Redacted,
    bare: LlmEvent,
    covered: bool,
    policy: Redaction,
    g: Rule,
    rules: Seq<char>,
) -> bool {
    let c = event_count(bare, policy, g);
    if !covered {
        &&& r.spans == 0 && r.drops == 0 && !r.failed
        &&& r.event.metadata@ == stamped(bare.metadata@, stamp_view(policy, false, 0, rules))
        &&& r.event == (LlmEvent { metadata: r.event.metadata, ..bare })
    } else if c.failed {
        &&& r.spans == 0 && r.drops == 0 && r.failed
        &&& discarded(r.event, bare, policy, g, rules)
    } else {
        &&& r.spans == c.spans && r.drops == c.drops && !r.failed
        &&& r.event.metadata@ == stamped(
            metadata_scrubbed(bare.metadata@, g),
            stamp_view(policy, true, c.spans as u32, rules),
        )
        &&& exists|mid: LlmEvent| #[trigger]
            event_scrubbed(mid, bare, policy, g) && r.event == (LlmEvent {
                metadata: r.event.metadata,
                ..mid
            })
    }
}

/// Whether `r` is what redacting `ev` comes to. The client's stamp is taken off first. A project that
/// is not scrubbed still gets a stamp that says so; one that is scrubbed gets its texts scrubbed and
/// then the stamp; and where the scrub breaks down everything it should have looked at is discarded.
pub open spec fn redacts(
    r: Redacted,
    ev: LlmEvent,
    covered: bool,
    policy: Redaction,
    g: Rule,
    rules: Seq<char>,
) -> bool {
    exists|bare: LlmEvent| #[trigger]
        unclaimed(ev, bare) && redacts_bare(r, bare, covered, policy, g, rules)
}

fn label_after_failure<F: Fn(String) -> Scrubbed>(s: Option<String>, scrub: &F) -> (r: Option<String>)
    requires
        is_scrubber(*scrub),
    ensures
        label_left(s, rule_of(*scrub), r),
{
    let (t, c) = scrub_opt_text(s, scrub);
    if c.failed {
        None
    } else {
        t
    }
}

impl Redactor {
    /// Scrubs an event where its project is covered, and stamps it either way. `policy` is the
    /// persistence policy already applied to the payloads; hashed ones are left alone. `rules` names
    /// the rule set that `scrub` applies.
    pub fn redact_event<F: Fn(String) -> Scrubbed>(
        &self,
        ev: LlmEvent,
        policy: Redaction,
        scrub: &F,
        rules: &str,
    ) -> (r: Redacted)
        requires
            is_scrubber(*scrub),
        ensures
            redacts(r, ev, self.covers(ev.project_id@), policy, rule_of(*scrub), rules@),
    {
        let ghost g = rule_of(*scrub);
        let ghost whole = ev;
        let mut ev = ev;
        let client = ev.metadata;
        ev.metadata = metadata_drop(client, REDACTION_KEY);
        let ghost bare = ev;
        assert(unclaimed(whole, bare));
        if !self.enabled_for(ev.project_id.as_str()) {
            let stamp = make_stamp(policy, false, 0, rules);
            let own = ev.metadata;
            ev.metadata = write_stamp(own, stamp);
            let r = Redacted { event: ev, spans: 0, drops: 0, failed: false };
            assert(redacts_bare(r, bare, false, policy, g, rules@));
            return r;
        }
        let name = crate::text::clone_opt(&ev.name);
        let source = crate::text::clone_opt(&ev.source);
        let (mid, c) = scrub_all(ev, policy, scrub);
        let ghost gmid = mid;
        let mut out = mid;
        if c.failed {
            let stamp = make_stamp(policy, true, 0, rules);
            out.input = Some(Json::Str(FAILED_PAYLOAD.to_owned()));
            out.output = Some(Json::Str(FAILED_PAYLOAD.to_owned()));
            out.error = Some(FAILED_ERROR.to_owned());
            out.tags = Vec::new();
            out.name = label_after_failure(name, scrub);
            out.source = label_after_failure(source, scrub);
            out.metadata = write_stamp(Json::Null, stamp);
            let r = Redacted { event: out, spans: 0, drops: 0, failed: true };
            assert(redacts_bare(r, bare, true, policy, g, rules@));
            return r;
        }
        let stamp = make_stamp(policy, true, #[verifier::truncate] (c.spans as u32), rules);
        let own = out.metadata;
        out.metadata = write_stamp(own, stamp);
        let r = Redacted { event: out, spans: c.spans, drops: c.drops, failed: false };
        assert(event_scrubbed(gmid, bare, policy, g));
        assert(redacts_bare(r, bare, true, policy, g, rules@));
        r
    }
}

// ------------------------------------------------------------------ what redaction promises

/// A stamp that was put on metadata reads back, whatever was there before.
pub proof fn a_stamp_reads_back(v: JsonView, stamp: JsonView)
    ensures
        field(stamped(v, stamp), REDACTION_KEY@) == Some(stamp),
{
    let k = REDACTION_KEY@;
    match v {
        JsonView::Obj(m) => {
            put_reads_back(m, k, stamp, k);
        },
        JsonView::Null => {
            first_where_is(seq![(k, stamp)], named(k), 0);
        },
        _ => {
            first_where_is(seq![(k, stamp), ("value"@, v)], named(k), 0);
        },
    }
}

/// Every row carries the server's own stamp, whatever a client sent under that name: it says whether
/// the row was scrubbed, under which policy and by which rules.
pub proof fn every_row_is_stamped(
    r: Redacted,
    ev: LlmEvent,
    covered: bool,
    policy: Redaction,
    g: Rule,
    rules: Seq<char>,
)
    requires
        redacts(r, ev, covered, policy, g, rules),
    ensures
        exists|spans: u32|
            field(r.event.metadata@, REDACTION_KEY@) == Some(
                #[trigger] stamp_view(policy, covered, spans, rules),
            ),
{
    let bare = choose|bare: LlmEvent| #[trigger]
        unclaimed(ev, bare) && redacts_bare(r, bare, covered, policy, g, rules);
    let c = event_count(bare, policy, g);
    if !covered {
        a_stamp_reads_back(bare.metadata@, stamp_view(policy, false, 0, rules));
    } else if c.failed {
        a_stamp_reads_back(JsonView::Null, stamp_view(policy, true, 0, rules));
    } else {
        a_stamp_reads_back(
            metadata_scrubbed(bare.metadata@, g),
            stamp_view(policy, true, c.spans as u32, rules),
        );
    }
}

/// The keys that accounts are joined on come through the scrub unchanged, for every event whose scrub
/// did not break down.
pub proof fn accounting_keys_pass(
    r: Redacted,
    ev: LlmEvent,
    covered: bool,
    policy: Redaction,
    g: Rule,
    rules: Seq<char>,
    k: Seq<char>,
)
    requires
        redacts(r, ev, covered, policy, g, rules),
        !r.failed,
        ev.metadata@ is Obj,
        passes(k),
        k != REDACTION_KEY@,
    ensures
        field(r.event.metadata@, k) == field(ev.metadata@, k),
{
    let bare = choose|bare: LlmEvent| #[trigger]
        unclaimed(ev, bare) && redacts_bare(r, bare, covered, policy, g, rules);
    let m = ev.metadata@->Obj_0;
    let b = without(m, REDACTION_KEY@);
    without_keeps_others(m, REDACTION_KEY@, k);
    let c = event_count(bare, policy, g);
    if covered {
        let f = |x: (Seq<char>, JsonView)| member_scrubbed(x, g);
        let s = b.map_values(f);
        passing_member_survives(b, g, k);
        put_reads_back(s, REDACTION_KEY@, stamp_view(policy, true, c.spans as u32, rules), k);
    } else {
        put_reads_back(b, REDACTION_KEY@, stamp_view(policy, false, 0, rules), k);
    }
}

proof fn passing_member_survives(m: Seq<(Seq<char>, JsonView)>, g: Rule, k: Seq<char>)
    requires
        passes(k),
    ensures
        field(JsonView::Obj(m.map_values(|x: (Seq<char>, JsonView)| member_scrubbed(x, g))), k)
            == field(JsonView::Obj(m), k),
{
    let s = m.map_values(|x: (Seq<char>, JsonView)| member_scrubbed(x, g));
    let p = named(k);
    if first_where(m, p) is Some {
        let i = first_where(m, p)->0;
        assert(is_first(m, p, i));
        assert forall|j: int| 0 <= j < i implies !p(#[trigger] s[j]) by {
            assert(!p(m[j]));
        }
        assert(s[i] == m[i]);
        first_where_is(s, p, i);
    } else {
        assert forall|j: int| 0 <= j < s.len() implies !p(#[trigger] s[j]) by {
            if p(m[j]) {
                first_where_some(m, p, j);
            }
        }
        first_where_none(s, p);
    }
}

/// A payload that a policy has hashed or dropped is never rewritten by the scrub: two different
/// payloads keep two different digests.
pub proof fn hashed_payloads_are_not_scrubbed(
    r: Redacted,
    ev: LlmEvent,
    covered: bool,
    policy: Redaction,
    g: Rule,
    rules: Seq<char>,
)
    requires
        redacts(r, ev, covered, policy, g, rules),
        !r.failed,
        policy != Redaction::Keep,
    ensures
        r.event.input == ev.input,
        r.event.output == ev.output,
{
}

/// Whether an optional text may be stored: it is absent, the marker of a discarded text, or what the
/// scrub left of the text that was sent.
pub open spec fn text_clean(r: Option<String>, sent: Option<String>, g: Rule) -> bool {
    r is Some ==> r->0@ == FAILED_ERROR@ || (sent is Some && r->0@ == cleaned(g, sent->0@))
}

/// Whether an optional payload may be stored: it is absent, the marker of a discarded payload, or was
/// inspected throughout.
pub open spec fn payload_clean(r: Option<Json>, g: Rule) -> bool {
    r is Some ==> r->0@ == JsonView::Str(FAILED_PAYLOAD@) || vetted(r->0@, g)
}

/// Whether metadata may be stored: but for the keys that accounts are joined on and the stamp, every
/// member was inspected throughout.
pub open spec fn metadata_clean(v: JsonView, g: Rule) -> bool {
    v is Obj && forall|i: int|
        0 <= i < v->Obj_0.len() ==> passes((#[trigger] v->Obj_0[i]).0) || vetted(v->Obj_0[i].1, g)
}

proof fn put_stays_clean(m: Seq<(Seq<char>, JsonView)>, k: Seq<char>, x: JsonView, g: Rule)
    requires
        metadata_clean(JsonView::Obj(m), g),
        passes(k),
    ensures
        metadata_clean(JsonView::Obj(put(m, k, x)), g),
    decreases m.len(),
{
    let v = JsonView::Obj(m);
    assert(v->Obj_0 == m);
    let out = put(m, k, x);
    if m.len() > 0 && m[0].0 != k && !crate::text::sorts_before(k, m[0].0) {
        let rest = m.skip(1);
        assert forall|i: int| 0 <= i < rest.len() implies passes((#[trigger] rest[i]).0) || vetted(
            rest[i].1,
            g,
        ) by {
            assert(rest[i] == v->Obj_0[i + 1]);
        }
        put_stays_clean(rest, k, x, g);
        let tail = JsonView::Obj(put(rest, k, x));
        assert forall|i: int| 0 <= i < out.len() implies passes((#[trigger] out[i]).0) || vetted(
            out[i].1,
            g,
        ) by {
            if i == 0 {
                assert(out[0] == v->Obj_0[0]);
            } else {
                assert(out[i] == tail->Obj_0[i - 1]);
            }
        }
    } else {
        assert forall|i: int| 0 <= i < out.len() implies passes((#[trigger] out[i]).0) || vetted(
            out[i].1,
            g,
        ) by {
            if i > 0 {
                if m[0].0 == k {
                    assert(out[i] == v->Obj_0[i]);
                } else {
                    assert(out[i] == v->Obj_0[i - 1]);
                }
            }
        }
    }
}

/// Where a project is scrubbed, no text that a client can write is stored without having been through
/// the scrub: not in a payload that is kept, nor in the error, the tags, the labels or the metadata.
pub proof fn nothing_unscrubbed_is_stored(
    r: Redacted,
    ev: LlmEvent,
    policy: Redaction,
    g: Rule,
    rules: Seq<char>,
)
    requires
        redacts(r, ev, true, policy, g, rules),
    ensures
        policy == Redaction::Keep ==> payload_clean(r.event.input, g) && payload_clean(
            r.event.output,
            g,
        ),
        text_clean(r.event.error, ev.error, g),
        text_clean(r.event.name, ev.name, g),
        text_clean(r.event.source, ev.source, g),
        forall|i: int|
            0 <= i < r.event.tags@.len() ==> (#[trigger] r.event.tags@[i])@ == cleaned(
                g,
                ev.tags@[i]@,
            ),
        metadata_clean(r.event.metadata@, g),
{
    let bare = choose|bare: LlmEvent| #[trigger]
        unclaimed(ev, bare) && redacts_bare(r, bare, true, policy, g, rules);
    let c = event_count(bare, policy, g);
    assert(passes(REDACTION_KEY@));
    if !c.failed {
        let mid = choose|mid: LlmEvent| #[trigger]
            event_scrubbed(mid, bare, policy, g) && r.event == (LlmEvent {
                metadata: r.event.metadata,
                ..mid
            });
        if policy == Redaction::Keep {
            if bare.input is Some {
                nothing_uninspected_survives(bare.input->0@, 0, fresh_tally(), g);
            }
            if bare.output is Some {
                nothing_uninspected_survives(bare.output->0@, 0, fresh_tally(), g);
            }
        }
        let stamp = stamp_view(policy, true, c.spans as u32, rules);
        match bare.metadata@ {
            JsonView::Obj(m) => {
                let s = m.map_values(|x: (Seq<char>, JsonView)| member_scrubbed(x, g));
                let v = JsonView::Obj(s);
                assert forall|i: int| 0 <= i < v->Obj_0.len() implies passes(
                    (#[trigger] v->Obj_0[i]).0,
                ) || vetted(v->Obj_0[i].1, g) by {
                    nothing_uninspected_survives(m[i].1, 0, fresh_tally(), g);
                }
                put_stays_clean(s, REDACTION_KEY@, stamp, g);
            },
            JsonView::Null => {},
            other => {
                nothing_uninspected_survives(other, 0, fresh_tally(), g);
            },
        }
    }
}

/// What a row's stamp says: the policy by its own word, whether the row was scrubbed, by which rules
/// where it was, and how many spans were replaced.
pub proof fn a_stamp_says_what_was_done(
    r: Redacted,
    ev: LlmEvent,
    covered: bool,
    policy: Redaction,
    g: Rule,
    rules: Seq<char>,
)
    requires
        redacts(r, ev, covered, policy, g, rules),
    ensures
        field(r.event.metadata@, "redaction"@) is Some,
        ({
            let s = field(r.event.metadata@, "redaction"@)->0;
            &&& field(s, "scrub"@) == Some(JsonView::Bool(covered))
            &&& policy == Redaction::Keep ==> field(s, "policy"@) == Some(JsonView::Str("none"@))
            &&& policy == Redaction::Hash ==> field(s, "policy"@) == Some(JsonView::Str("hash"@))
            &&& policy == Redaction::Drop ==> field(s, "policy"@) == Some(JsonView::Str("drop"@))
            &&& covered ==> field(s, "rules"@) == Some(JsonView::Str(rules))
            &&& !covered ==> field(s, "rules"@) == Some(JsonView::Str(""@))
            &&& r.spans <= u32::MAX ==> field(s, "spans"@) == Some(
                JsonView::Num(NumberView::Pos(r.spans as u64)),
            )
        }),
        !covered ==> r.spans == 0 && r.drops == 0 && !r.failed,
        r.failed ==> r.spans == 0,
{
    let bare = choose|bare: LlmEvent| #[trigger]
        unclaimed(ev, bare) && redacts_bare(r, bare, covered, policy, g, rules);
    let c = event_count(bare, policy, g);
    stamp_members(policy, covered, r.spans as u32, rules);
    if !covered {
        a_stamp_reads_back(bare.metadata@, stamp_view(policy, false, 0, rules));
    } else if c.failed {
        a_stamp_reads_back(JsonView::Null, stamp_view(policy, true, 0, rules));
    } else {
        a_stamp_reads_back(
            metadata_scrubbed(bare.metadata@, g),
            stamp_view(policy, true, c.spans as u32, rules),
        );
    }
}

proof fn stamp_members(policy: Redaction, scrub: bool, spans: u32, rules: Seq<char>)
    ensures
        ({
            let s = stamp_view(policy, scrub, spans, rules);
            &&& field(s, "scrub"@) == Some(JsonView::Bool(scrub))
            &&& field(s, "policy"@) == Some(JsonView::Str(policy_wire(policy)))
            &&& field(s, "rules"@) == Some(
                JsonView::Str(
                    if scrub {
                        rules
                    } else {
                        ""@
                    },
                ),
            )
            &&& field(s, "spans"@) == Some(JsonView::Num(NumberView::Pos(spans as u64)))
        }),
{
    reveal_strlit("policy");
    reveal_strlit("rules");
    reveal_strlit("scrub");
    reveal_strlit("spans");
    assert("policy"@[0] == 'p' && "rules"@[0] == 'r' && "scrub"@[1] == 'c' && "spans"@[1] == 'p');
    assert("scrub"@[0] == 's' && "spans"@[0] == 's');
    let m = stamp_view(policy, scrub, spans, rules)->Obj_0;
    first_where_is(m, named("policy"@), 0);
    first_where_is(m, named("rules"@), 1);
    first_where_is(m, named("scrub"@), 2);
    first_where_is(m, named("spans"@), 3);
}

// ------------------------------------------------------------------ what a setting and a policy mean

proof fn comma_parts_some(s: Seq<char>)
    ensures
        comma_parts(s).len() > 0,
    decreases s.len(),
{
    if s.len() > 0 {
        comma_parts_some(s.drop_last());
    }
}

/// Texts with a comma between each and the next.
pub open spec fn with_commas(v: Seq<Seq<char>>) -> Seq<char>
    decreases v.len(),
{
    if v.len() == 0 {
        seq![]
    } else if v.len() == 1 {
        v[0]
    } else {
        with_commas(v.drop_last()).push(',') + v.last()
    }
}

/// The parts of a list are what stands between its commas: none holds a comma, and with commas between
/// them they are the list again.
pub proof fn a_list_is_parted_at_its_commas(s: Seq<char>)
    ensures
        forall|i: int| 0 <= i < comma_parts(s).len() ==> !(#[trigger] comma_parts(s)[i]).contains(','),
        with_commas(comma_parts(s)) == s,
    decreases s.len(),
{
    if s.len() == 0 {
        assert(comma_parts(s)[0] =~= seq![]);
    } else {
        let t = s.drop_last();
        let p = comma_parts(t);
        let q = comma_parts(s);
        comma_parts_some(t);
        a_list_is_parted_at_its_commas(t);
        assert(s =~= t.push(s.last()));
        if s.last() == ',' {
            assert(q.drop_last() =~= p);
            assert(with_commas(q) =~= s);
            assert forall|i: int| 0 <= i < q.len() implies !(#[trigger] q[i]).contains(',') by {
                if i < p.len() {
                    assert(q[i] == p[i]);
                } else {
                    assert(q[i] =~= seq![]);
                }
            }
        } else {
            let l = p.last().push(s.last());
            assert(q.drop_last() =~= p.drop_last());
            assert(q.last() == l);
            assert(with_commas(q) =~= with_commas(p).push(s.last()));
            assert forall|i: int| 0 <= i < q.len() implies !(#[trigger] q[i]).contains(',') by {
                if i < p.len() - 1 {
                    assert(q[i] == p[i]);
                } else {
                    assert(!p[p.len() - 1].contains(','));
                    assert(q[i] == l);
                    if l.contains(',') {
                        let j = choose|j: int| 0 <= j < l.len() && l[j] == ',';
                        assert(p.last()[j] == ',');
                    }
                }
            }
        }
    }
}

/// What a setting means for a project: unset and blank scrub it, `off` and `0` do not, `all`, `*` and `1`
/// do, and any other setting is a list that scrubs it exactly where it names it.
pub proof fn a_setting_says_who_is_scrubbed(
    raw: Option<&str>,
    r: Redactor,
    project: &str,
    e: bool,
)
    requires
        call_ensures(Redactor::from_raw, (raw,), r),
        call_ensures(Redactor::enabled_for, (&r, project), e),
    ensures
        raw is None ==> e && r.defaulted,
        raw is Some ==> {
            let t = trimmed(raw->0@);
            let w = ascii_lower(t);
            &&& t.len() == 0 ==> e && r.defaulted
            &&& t.len() > 0 ==> !r.defaulted
            &&& t.len() > 0 && (w == "off"@ || t == "0"@) ==> !e
            &&& t.len() > 0 && w != "off"@ && t != "0"@ && (w == "all"@ || t == "*"@ || t == "1"@) ==> e
            &&& t.len() > 0 && w != "off"@ && t != "0"@ && w != "all"@ && t != "*"@ && t != "1"@ ==> (e
                <==> project@.len() > 0 && exists|i: int|
                0 <= i < comma_parts(t).len() && trimmed(#[trigger] comma_parts(t)[i]) == project@)
        },
{
    if raw is Some {
        let t = trimmed(raw->0@);
        if r.mode is Projects {
            assert(r.covers(project@) <==> lists_project(comma_parts(t), project@));
        }
    }
}

/// What is said at boot warns exactly where some project goes unscrubbed, names the mode in one word, and
/// says which setting is to be unset where it warns.
pub proof fn the_boot_line_warns_of_verbatim_text(s: &Redactor, r: Posture, d: String)
    requires
        call_ensures(Redactor::posture, (s,), r),
        call_ensures(Redactor::describe, (s,), d),
    ensures
        s.mode is All ==> !r.warn && r.redact@ == "all"@ && r.projects is None && r.name_rules,
        s.mode is Off ==> r.warn && r.redact@ == "off"@ && r.projects is None && !r.name_rules,
        s.mode is Projects ==> r.warn && r.redact@ == "projects"@ && r.projects is Some && r.name_rules,
        s.mode is Projects ==> crate::text::has_within(r.message@, dec(s.mode->Projects_0@.len())),
        s.mode is All && s.defaulted ==> r.message@ == POSTURE_DEFAULT@ && d@ == "all projects (default)"@,
        s.mode is All && !s.defaulted ==> r.message@ == POSTURE_ALL@ && d@ == "all projects"@,
        s.mode is Off && !s.defaulted ==> r.message@ == POSTURE_OFF@ && d@ == "off"@,
        s.mode is Projects && !s.defaulted ==> d@ == dec(s.mode->Projects_0@.len()) + " project(s)"@,
{
    reveal_strlit("all projects (default)");
    reveal_strlit("all projects");
    reveal_strlit(" (default)");
    if s.mode is All && s.defaulted {
        assert(d@ =~= "all projects (default)"@);
    }
    if s.mode is Projects {
        crate::text::stands_between(
            "PII scrubbing on ingest is ON for "@,
            dec(s.mode->Projects_0@.len()),
            " named project(s) only — every OTHER project stores client text verbatim. Unset LIGHTTRACK_REDACT_INGEST to scrub all of them."@,
        );
    }
}

/// What a policy leaves of each payload: the payload itself, nothing, or an object whose one member is the
/// digest of that same payload's compact text.
pub proof fn a_policy_acts_on_each_payload_by_itself<D: Fn(String) -> String>(
    input: Option<Json>,
    output: Option<Json>,
    policy: Redaction,
    digest: &D,
    r: Payloads,
)
    requires
        is_text_fn(*digest),
        call_ensures(apply_policy::<D>, (input, output, policy, digest), r),
    ensures
        policy == Redaction::Keep ==> r.input == input && r.output == output && !r.applied,
        policy == Redaction::Drop ==> r.input is None && r.output is None,
        policy == Redaction::Hash ==> (r.input is Some <==> input is Some) && (r.output is Some
            <==> output is Some),
        policy == Redaction::Hash && input is Some ==> field(r.input->0@, "sha256"@) == Some(
            JsonView::Str(text_fn_of(*digest)(json_text(input->0@))),
        ),
        policy == Redaction::Hash && output is Some ==> field(r.output->0@, "sha256"@) == Some(
            JsonView::Str(text_fn_of(*digest)(json_text(output->0@))),
        ),
        policy != Redaction::Keep ==> (r.applied <==> input is Some || output is Some),
{
    if policy == Redaction::Hash && input is Some {
        first_where_is(r.input->0@->Obj_0, named("sha256"@), 0);
    }
    if policy == Redaction::Hash && output is Some {
        first_where_is(r.output->0@->Obj_0, named("sha256"@), 0);
    }
}

/// The members that pass the scrub are exactly the keys that accounts are joined on, and the stamp.
pub proof fn only_accounting_keys_pass(k: &str, r: bool)
    requires
        call_ensures(is_passthrough, (k,), r),
    ensures
        r <==> k@ == "api_key_id"@ || k@ == "customer_id"@ || k@ == "product_id"@ || k@ == "cost_source"@
            || k@ == "pricing_mode"@ || k@ == "prompt_sha256"@ || k@ == "redaction"@,
{
}

/// Whether `r` is what a scrub leaves of an optional text: what the scrub gives back where it replaced
/// anything, and the same text where it did not.
pub open spec fn text_left(r: Option<String>, sent: Option<String>, g: Rule) -> bool {
    &&& r is Some <==> sent is Some
    &&& sent is Some && g(sent->0@).spans > 0 ==> r->0@ == g(sent->0@).text
    &&& sent is Some && g(sent->0@).spans == 0 ==> r->0@ == sent->0@
}

/// Redaction keeps each field its own: every text is what the scrub leaves of the text under the same
/// name, and whatever is no client text is as it was.
pub proof fn redaction_keeps_each_field_its_own(
    r: Redacted,
    ev: LlmEvent,
    covered: bool,
    policy: Redaction,
    g: Rule,
    rules: Seq<char>,
)
    requires
        redacts(r, ev, covered, policy, g, rules),
    ensures
        r.event.id == ev.id && r.event.project_id == ev.project_id,
        r.event.trace_id == ev.trace_id && r.event.span_id == ev.span_id && r.event.parent_span_id
            == ev.parent_span_id,
        r.event.model == ev.model && r.event.provider == ev.provider,
        r.event.status == ev.status,
        !covered ==> r.event.input == ev.input && r.event.output == ev.output && r.event.error == ev.error
            && r.event.tags == ev.tags && r.event.name == ev.name && r.event.source == ev.source,
        covered && !r.failed ==> text_left(r.event.error, ev.error, g) && text_left(
            r.event.name,
            ev.name,
            g,
        ) && text_left(r.event.source, ev.source, g),
        covered && !r.failed ==> r.event.tags@.len() == ev.tags@.len() && forall|i: int|
            0 <= i < ev.tags@.len() ==> text_left(Some(#[trigger] r.event.tags@[i]), Some(ev.tags@[i]), g),
        covered && !r.failed && policy == Redaction::Keep ==> (r.event.input is Some <==> ev.input is Some)
            && (r.event.output is Some <==> ev.output is Some),
        covered && !r.failed && policy == Redaction::Keep && ev.input is Some ==> r.event.input->0@
            == scrubbed(ev.input->0@, g),
        covered && !r.failed && policy == Redaction::Keep && ev.output is Some ==> r.event.output->0@
            == scrubbed(ev.output->0@, g),
        r.failed ==> r.event.tags@.len() == 0 && r.event.error is Some && r.event.error->0@
            == "<REDACTION FAILED>"@ && r.event.input is Some && r.event.input->0@ == JsonView::Str(
            "<REDACTION FAILED: payload discarded>"@,
        ) && r.event.output is Some && r.event.output->0@ == r.event.input->0@,
        r.failed ==> (r.event.name is Some ==> text_left(r.event.name, ev.name, g) && !g(
            ev.name->0@,
        ).failed),
        r.failed ==> (r.event.source is Some ==> text_left(r.event.source, ev.source, g) && !g(
            ev.source->0@,
        ).failed),
{
    let bare = choose|bare: LlmEvent| #[trigger]
        unclaimed(ev, bare) && redacts_bare(r, bare, covered, policy, g, rules);
    let c = event_count(bare, policy, g);
    if covered && !c.failed {
        let mid = choose|mid: LlmEvent| #[trigger]
            event_scrubbed(mid, bare, policy, g) && r.event == (LlmEvent {
                metadata: r.event.metadata,
                ..mid
            });
        assert(event_scrubbed(mid, bare, policy, g));
        assert forall|i: int| 0 <= i < ev.tags@.len() implies text_left(
            Some(#[trigger] r.event.tags@[i]),
            Some(ev.tags@[i]),
            g,
        ) by {
            assert(mid.tags@[i]@ == cleaned(g, bare.tags@[i]@));
        }
    }
}

/// What is counted over an event whose only client texts are its error and its labels: the spans of each
/// of them together, and a breakdown over any of them is one of the whole.
pub proof fn spans_are_counted_over_every_text(
    r: Redacted,
    ev: LlmEvent,
    policy: Redaction,
    g: Rule,
    rules: Seq<char>,
)
    requires
        redacts(r, ev, true, policy, g, rules),
        ev.input is None && ev.output is None && ev.tags@.len() == 0 && ev.metadata@ is Null,
        ev.error is Some && ev.name is Some && ev.source is Some,
    ensures
        r.failed <==> g(ev.error->0@).failed || g(ev.name->0@).failed || g(ev.source->0@).failed,
        !r.failed ==> r.spans == g(ev.error->0@).spans + g(ev.name->0@).spans + g(ev.source->0@).spans,
        !r.failed ==> r.drops == 0,
{
}

/// What is counted over an event whose only client texts are its payloads: what is counted over each of
/// them together where they are kept, and nothing where a policy has replaced them.
pub proof fn kept_payloads_are_counted(
    r: Redacted,
    ev: LlmEvent,
    policy: Redaction,
    g: Rule,
    rules: Seq<char>,
)
    requires
        redacts(r, ev, true, policy, g, rules),
        ev.input is Some && ev.output is Some && ev.tags@.len() == 0 && ev.metadata@ is Null,
        ev.error is None && ev.name is None && ev.source is None,
    ensures
        policy != Redaction::Keep ==> r.spans == 0 && r.drops == 0 && !r.failed,
        policy == Redaction::Keep ==> (r.failed <==> json_count(ev.input->0@, g).failed || json_count(
            ev.output->0@,
            g,
        ).failed),
        policy == Redaction::Keep && !r.failed ==> r.spans == json_count(ev.input->0@, g).spans + json_count(
            ev.output->0@,
            g,
        ).spans && r.drops == json_count(ev.input->0@, g).drops + json_count(ev.output->0@, g).drops,
{
}

/// The three configurations that need no setting: one scrubs nothing, two scrub every project, and only
/// the last says that nobody chose it.
pub proof fn ready_made_configurations(
    off: Redactor,
    all: Redactor,
    unset: Redactor,
    project: Seq<char>,
)
    requires
        call_ensures(Redactor::off, (), off),
        call_ensures(Redactor::all, (), all),
        call_ensures(Redactor::defaulted, (), unset),
    ensures
        !off.covers(project) && all.covers(project) && unset.covers(project),
        !off.defaulted && !all.defaulted && unset.defaulted,
{
}

} // verus!
