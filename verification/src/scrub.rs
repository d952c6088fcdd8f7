//! The bounded walk that scrubs a document: every text it keeps was inspected, and whatever lies
//! beyond a bound is dropped and marked rather than passed on.
use vstd::prelude::*;

use crate::json::{
    arr_view, copy_json, copy_number, item_views, member_views, obj_view, put, put_member, Json,
    JsonView, Member,
};
use crate::text::{chars_of, dec, show_u128, slice_of};

verus! {

/// Nesting depth at which a subtree is dropped rather than walked.
pub const MAX_DEPTH: usize = 12;

/// Children walked per array or object; the rest are dropped as one marker.
pub const MAX_BREADTH: usize = 512;

/// Bytes of one text that are inspected; the tail is dropped with a marker.
pub const MAX_STRING_BYTES: usize = 32_768;

/// Values that one document may take up altogether.
pub const MAX_NODES: usize = 20_000;

/// What a scrub gives back: the text with what it found replaced, how many spans it replaced, and
/// whether it broke down over the text.
#[derive(Debug)]
pub struct Scrubbed {
    pub text: String,
    pub redactions: u32,
    pub failed: bool,
}

/// What a scrub gives back, as plain values.
pub struct Verdict {
    pub text: Seq<char>,
    pub spans: nat,
    pub failed: bool,
}

impl View for Scrubbed {
    type V = Verdict;

    open spec fn view(&self) -> Verdict {
        Verdict { text: self.text@, spans: self.redactions as nat, failed: self.failed }
    }
}

/// A scrub as a function of the text.
pub type Rule = spec_fn(Seq<char>) -> Verdict;

/// Whether calling `f` always gives what `g` says.
pub open spec fn computes<F: Fn(String) -> Scrubbed>(f: F, g: Rule) -> bool {
    &&& forall|s: String| f.requires((s,))
    &&& forall|s: String, r: Scrubbed| #[trigger]
        f.ensures((s,), r) ==> r@ == g(s@)
}

/// Whether `f` can be called on every text and gives back the same for the same text.
pub open spec fn is_scrubber<F: Fn(String) -> Scrubbed>(f: F) -> bool {
    exists|g: Rule| computes(f, g)
}

/// What `f` computes.
pub open spec fn rule_of<F: Fn(String) -> Scrubbed>(f: F) -> Rule {
    choose|g: Rule| computes(f, g)
}

/// A text as the scrub leaves it: replaced where anything was found, untouched where nothing was.
pub open spec fn cleaned(g: Rule, s: Seq<char>) -> Seq<char> {
    if g(s).spans > 0 {
        g(s).text
    } else {
        s
    }
}

/// Scrubs one text, counts the spans replaced and says whether the scrub broke down.
pub fn scrub_string<F: Fn(String) -> Scrubbed>(s: &str, scrub: &F) -> (r: (String, u32, bool))
    requires
        is_scrubber(*scrub),
    ensures
        r.0@ == cleaned(rule_of(*scrub), s@),
        r.1 == rule_of(*scrub)(s@).spans,
        r.2 == rule_of(*scrub)(s@).failed,
{
    let x = scrub(s.to_owned());
    if x.redactions > 0 {
        (x.text, x.redactions, x.failed)
    } else {
        (s.to_owned(), 0, x.failed)
    }
}

// ------------------------------------------------------------------ markers

/// The marker of a value that was not inspected, naming the bound that was met.
pub open spec fn unscanned_text(cap: Seq<char>) -> Seq<char> {
    "<UNSCANNED: "@ + cap + ">"@
}

/// What stands in place of an array's tail.
pub open spec fn entries_dropped(shed: nat) -> Seq<char> {
    unscanned_text("breadth, "@ + dec(shed) + " entries dropped"@)
}

/// What stands in place of an object's tail.
pub open spec fn keys_dropped(shed: nat) -> Seq<char> {
    unscanned_text("breadth, "@ + dec(shed) + " keys dropped"@)
}

/// What stands in place of a text's tail.
pub open spec fn bytes_dropped(shed: nat) -> Seq<char> {
    "<UNSCANNED: string, "@ + dec(shed) + " bytes dropped>"@
}

fn unscanned(cap: &str) -> (r: String)
    ensures
        r@ == unscanned_text(cap@),
{
    let mut out = "<UNSCANNED: ".to_owned();
    out.append(cap);
    out.append(">");
    out
}

fn breadth_marker(shed: usize, what: &str) -> (r: String)
    ensures
        r@ == unscanned_text("breadth, "@ + dec(shed as nat) + what@),
{
    let n = show_u128(shed as u128);
    let mut cap = "breadth, ".to_owned();
    cap.append(n.as_str());
    cap.append(what);
    unscanned(cap.as_str())
}

// ------------------------------------------------------------------ texts

/// The bytes a character takes up in UTF-8.
pub open spec fn char_bytes(c: char) -> nat {
    if (c as u32) < 0x80 {
        1
    } else if (c as u32) < 0x800 {
        2
    } else if (c as u32) < 0x10000 {
        3
    } else {
        4
    }
}

/// The bytes a text takes up in UTF-8.
pub open spec fn byte_len(s: Seq<char>) -> nat
    decreases s.len(),
{
    if s.len() == 0 {
        0
    } else {
        byte_len(s.drop_last()) + char_bytes(s.last())
    }
}

/// How many characters of `s` fit into `max` bytes.
pub open spec fn fitting(s: Seq<char>, max: nat) -> nat
    decreases s.len(),
{
    if byte_len(s) <= max || s.len() == 0 {
        s.len()
    } else {
        fitting(s.drop_last(), max)
    }
}

/// A longer text takes up more bytes.
proof fn byte_len_grows(s: Seq<char>, i: int)
    requires
        0 <= i <= s.len(),
    ensures
        byte_len(s.take(i)) + (s.len() - i) <= byte_len(s),
    decreases s.len() - i,
{
    if i == s.len() {
        assert(s.take(i) =~= s);
    } else {
        assert(s.take(i + 1).drop_last() =~= s.take(i));
        byte_len_grows(s, i + 1);
    }
}

/// What fits is a prefix that fits, and one character more would not.
pub proof fn fitting_is_longest(s: Seq<char>, max: nat)
    ensures
        fitting(s, max) <= s.len(),
        byte_len(s.take(fitting(s, max) as int)) <= max,
        fitting(s, max) < s.len() ==> byte_len(s.take(fitting(s, max) as int + 1)) > max,
    decreases s.len(),
{
    if byte_len(s) <= max || s.len() == 0 {
        assert(s.take(s.len() as int) =~= s);
    } else {
        let d = s.drop_last();
        fitting_is_longest(d, max);
        let k = fitting(d, max) as int;
        assert(s.take(k) =~= d.take(k));
        if k < d.len() {
            assert(s.take(k + 1) =~= d.take(k + 1));
        } else {
            assert(s.take(k + 1) =~= s);
        }
    }
}

proof fn fitting_at(s: Seq<char>, max: nat, k: int)
    requires
        0 <= k < s.len(),
        byte_len(s.take(k)) <= max,
        byte_len(s.take(k + 1)) > max,
    ensures
        fitting(s, max) == k,
{
    fitting_is_longest(s, max);
    let f = fitting(s, max) as int;
    if f < k {
        byte_len_grows(s.take(k), f + 1);
        assert(s.take(k).take(f + 1) =~= s.take(f + 1));
    } else if k < f {
        byte_len_grows(s.take(f), k + 1);
        assert(s.take(f).take(k + 1) =~= s.take(k + 1));
    }
}

/// A text as the walk leaves it: scrubbed whole, or its inspected prefix scrubbed and the rest
/// dropped with a marker.
pub open spec fn leaf(s: Seq<char>, g: Rule) -> Seq<char> {
    if byte_len(s) <= MAX_STRING_BYTES {
        cleaned(g, s)
    } else {
        let k = fitting(s, MAX_STRING_BYTES as nat) as int;
        cleaned(g, s.take(k)) + bytes_dropped((byte_len(s) - byte_len(s.take(k))) as nat)
    }
}

/// The part of a text that the walk inspects.
pub open spec fn inspected_part(s: Seq<char>) -> Seq<char> {
    if byte_len(s) <= MAX_STRING_BYTES {
        s
    } else {
        s.take(fitting(s, MAX_STRING_BYTES as nat) as int)
    }
}

fn bytes_of(c: char) -> (r: u128)
    ensures
        r == char_bytes(c),
{
    let n: u32 = c as u32;
    if n < 0x80 {
        1
    } else if n < 0x800 {
        2
    } else if n < 0x10000 {
        3
    } else {
        4
    }
}

/// The bytes of a text, and where to cut it to `max` bytes: after the last character that fits.
fn measure(s: &str, max: usize) -> (r: (u128, usize, u128))
    ensures
        r.0 == byte_len(s@),
        r.0 > max ==> r.1 == fitting(s@, max as nat) && r.1 <= s@.len() && r.2 == byte_len(
            s@.take(r.1 as int),
        ) && r.2 <= r.0,
{
    let c = chars_of(s);
    let mut total: u128 = 0;
    let mut head: u128 = 0;
    let mut cut: usize = 0;
    let mut i: usize = 0;
    while i < c.len()
        invariant
            c@ == s@,
            i <= c.len(),
            total == byte_len(s@.take(i as int)),
            total <= 4 * i,
            head <= total,
            cut <= i,
            head == byte_len(s@.take(cut as int)),
            total <= max ==> cut == i,
            total > max ==> cut < i && head <= max && byte_len(s@.take(cut + 1)) > max,
        decreases c.len() - i,
    {
        assert(s@.take(i + 1).drop_last() =~= s@.take(i as int));
        let b: u128 = bytes_of(c[i]);
        total = total + b;
        i += 1;
        if total <= max as u128 {
            head = total;
            cut = i;
        }
    }
    assert(s@.take(i as int) =~= s@);
    proof {
        if total > max {
            fitting_at(s@, max as nat, cut as int);
        }
    }
    (total, cut, head)
}

/// How many characters of a text fit into `max` bytes; nothing where it fits whole.
pub fn cut_at(s: &str, max: usize) -> (r: Option<usize>)
    ensures
        byte_len(s@) <= max ==> r is None,
        byte_len(s@) > max ==> r is Some && r->0 == fitting(s@, max as nat) && r->0 <= s@.len(),
{
    let (total, cut, _) = measure(s, max);
    if total <= max as u128 {
        None
    } else {
        Some(cut)
    }
}

/// The scrubbed text, the spans replaced, whether the scrub broke down, and whether a tail was dropped.
fn scrub_leaf<F: Fn(String) -> Scrubbed>(s: &str, scrub: &F) -> (r: (String, u32, bool, bool))
    requires
        is_scrubber(*scrub),
    ensures
        r.0@ == leaf(s@, rule_of(*scrub)),
        r.1 == rule_of(*scrub)(inspected_part(s@)).spans,
        r.2 == rule_of(*scrub)(inspected_part(s@)).failed,
        r.3 == (byte_len(s@) > MAX_STRING_BYTES),
{
    let (total, cut, head) = measure(s, MAX_STRING_BYTES);
    if total <= MAX_STRING_BYTES as u128 {
        let (t, n, failed) = scrub_string(s, scrub);
        return (t, n, failed, false);
    }
    let c = chars_of(s);
    let prefix = slice_of(c.as_slice(), 0, cut);
    assert(prefix@ =~= s@.take(cut as int));
    let (mut t, n, failed) = scrub_string(prefix.as_str(), scrub);
    let shed = show_u128(total - head);
    let mut tail = "<UNSCANNED: string, ".to_owned();
    tail.append(shed.as_str());
    tail.append(" bytes dropped>");
    t.append(tail.as_str());
    (t, n, failed, true)
}

// ------------------------------------------------------------------ the walk

/// How far a walk has come.
pub struct Tally {
    /// Values that may still be walked.
    pub left: nat,
    /// Spans replaced.
    pub redactions: nat,
    /// Values dropped without being inspected.
    pub capped: nat,
    /// Whether the scrub broke down over some text.
    pub failed: bool,
}

impl Tally {
    /// One value dropped.
    pub open spec fn drop_one(self) -> Tally {
        Tally { capped: self.capped + 1, ..self }
    }
}

/// An array's children as they are walked: the first of them, and a marker for the rest.
pub open spec fn shown_items(x: Seq<JsonView>) -> Seq<JsonView> {
    if x.len() > MAX_BREADTH {
        x.take(MAX_BREADTH as int).push(
            JsonView::Str(entries_dropped((x.len() - MAX_BREADTH) as nat)),
        )
    } else {
        x
    }
}

/// An object's members as they are walked: the first of them, and a marker for the rest.
pub open spec fn shown_members(m: Seq<(Seq<char>, JsonView)>) -> Seq<(Seq<char>, JsonView)> {
    if m.len() > MAX_BREADTH {
        put(
            m.take(MAX_BREADTH as int),
            "<UNSCANNED>"@,
            JsonView::Str(keys_dropped((m.len() - MAX_BREADTH) as nat)),
        )
    } else {
        m
    }
}

/// What the walk makes of a value at a depth, and how far it has come then.
pub open spec fn walked(v: JsonView, depth: nat, t: Tally, g: Rule) -> (JsonView, Tally)
    decreases MAX_DEPTH - depth, 0nat, 0nat,
{
    if depth >= MAX_DEPTH {
        (JsonView::Str(unscanned_text("depth"@)), t.drop_one())
    } else if t.left == 0 {
        (JsonView::Str(unscanned_text("node-budget"@)), t.drop_one())
    } else {
        let t1 = Tally { left: (t.left - 1) as nat, ..t };
        match v {
            JsonView::Str(s) => (
                JsonView::Str(leaf(s, g)),
                Tally {
                    redactions: t1.redactions + g(inspected_part(s)).spans,
                    capped: t1.capped + (if byte_len(s) > MAX_STRING_BYTES {
                        1nat
                    } else {
                        0nat
                    }),
                    failed: t1.failed || g(inspected_part(s)).failed,
                    ..t1
                },
            ),
            JsonView::Arr(x) => {
                let t2 = if x.len() > MAX_BREADTH {
                    t1.drop_one()
                } else {
                    t1
                };
                let s = shown_items(x);
                let r = walked_items(s, s.len(), depth + 1, t2, g);
                (JsonView::Arr(r.0), r.1)
            },
            JsonView::Obj(m) => {
                let t2 = if m.len() > MAX_BREADTH {
                    t1.drop_one()
                } else {
                    t1
                };
                let s = shown_members(m);
                let r = walked_members(s, s.len(), depth + 1, t2, g);
                (JsonView::Obj(r.0), r.1)
            },
            _ => (v, t1),
        }
    }
}

/// What the walk makes of the first `n` children.
pub open spec fn walked_items(x: Seq<JsonView>, n: nat, depth: nat, t: Tally, g: Rule) -> (
    Seq<JsonView>,
    Tally,
)
    decreases MAX_DEPTH - depth, 1nat, n,
{
    if n == 0 || depth > MAX_DEPTH {
        (seq![], t)
    } else {
        let before = walked_items(x, (n - 1) as nat, depth, t, g);
        let r = walked(x[n - 1], depth, before.1, g);
        (before.0.push(r.0), r.1)
    }
}

/// What the walk makes of the first `n` members; their names stay.
pub open spec fn walked_members(
    m: Seq<(Seq<char>, JsonView)>,
    n: nat,
    depth: nat,
    t: Tally,
    g: Rule,
) -> (Seq<(Seq<char>, JsonView)>, Tally)
    decreases MAX_DEPTH - depth, 1nat, n,
{
    if n == 0 || depth > MAX_DEPTH {
        (seq![], t)
    } else {
        let before = walked_members(m, (n - 1) as nat, depth, t, g);
        let r = walked(m[n - 1].1, depth, before.1, g);
        (before.0.push((m[n - 1].0, r.0)), r.1)
    }
}

/// A walk under way.
struct Walk {
    nodes_left: usize,
    redactions: u64,
    capped: u64,
    failed: bool,
}

impl Walk {
    spec fn tally(self) -> Tally {
        Tally {
            left: self.nodes_left as nat,
            redactions: self.redactions as nat,
            capped: self.capped as nat,
            failed: self.failed,
        }
    }

    /// Whether `next` came from here with no more counted than the values walked explain.
    spec fn leads_to(self, next: Walk, drops: int) -> bool {
        &&& next.nodes_left <= self.nodes_left
        &&& next.redactions <= self.redactions + 0xffff_ffff * (self.nodes_left - next.nodes_left)
        &&& next.capped <= self.capped + drops + 514 * (self.nodes_left - next.nodes_left)
    }
}

fn walk<F: Fn(String) -> Scrubbed>(v: &Json, depth: usize, w: &mut Walk, scrub: &F) -> (r: Json)
    requires
        is_scrubber(*scrub),
        depth <= MAX_DEPTH,
        old(w).nodes_left <= MAX_NODES,
        old(w).redactions + 0xffff_ffff * old(w).nodes_left < 0x1_0000_0000_0000,
        old(w).capped + 1 + 514 * old(w).nodes_left < 0x1000_0000,
    ensures
        (r@, final(w).tally()) == walked(v@, depth as nat, old(w).tally(), rule_of(*scrub)),
        old(w).leads_to(*final(w), 1),
    decreases MAX_DEPTH - depth,
{
    let ghost g = rule_of(*scrub);
    let ghost start = *w;
    if depth >= MAX_DEPTH {
        w.capped = w.capped + 1;
        return Json::Str(unscanned("depth"));
    }
    if w.nodes_left == 0 {
        w.capped = w.capped + 1;
        return Json::Str(unscanned("node-budget"));
    }
    w.nodes_left = w.nodes_left - 1;
    match v {
        Json::Null => Json::Null,
        Json::Bool(b) => Json::Bool(*b),
        Json::Num(n) => Json::Num(copy_number(n)),
        Json::Str(s) => {
            let (t, n, failed, cut) = scrub_leaf(s.as_str(), scrub);
            w.failed = w.failed || failed;
            w.redactions = w.redactions + n as u64;
            if cut {
                w.capped = w.capped + 1;
            }
            Json::Str(t)
        },
        Json::Arr(x) => {
            proof {
                arr_view(*x);
            }
            let ghost items = item_views(x@);
            let ghost shown = shown_items(items);
            let broad = x.len() > MAX_BREADTH;
            let n: usize = if broad {
                MAX_BREADTH
            } else {
                x.len()
            };
            if broad {
                w.capped = w.capped + 1;
            }
            let ghost t2 = w.tally();
            let mut out: Vec<Json> = Vec::new();
            let mut i: usize = 0;
            while i < n
                invariant
                    is_scrubber(*scrub),
                    g == rule_of(*scrub),
                    depth < MAX_DEPTH,
                    n <= x.len(),
                    n <= MAX_BREADTH,
                    i <= n,
                    items == item_views(x@),
                    shown == shown_items(items),
                    shown.len() == n + (if broad {
                        1int
                    } else {
                        0int
                    }),
                    forall|j: int| 0 <= j < n ==> #[trigger] shown[j] == items[j],
                    start.nodes_left <= MAX_NODES,
                    start.nodes_left >= 1,
                    start.redactions + 0xffff_ffff * start.nodes_left < 0x1_0000_0000_0000,
                    start.capped + 1 + 514 * start.nodes_left < 0x1000_0000,
                    w.nodes_left < start.nodes_left,
                    w.redactions <= start.redactions + 0xffff_ffff * (start.nodes_left - 1
                        - w.nodes_left),
                    w.capped <= start.capped + 1 + i + 514 * (start.nodes_left - 1 - w.nodes_left),
                    (item_views(out@), w.tally()) == walked_items(
                        shown,
                        i as nat,
                        (depth + 1) as nat,
                        t2,
                        g,
                    ),
                decreases n - i,
            {
                assert(shown[i as int] == x@[i as int]@);
                let c = walk(&x[i], depth + 1, w, scrub);
                let ghost before = out@;
                out.push(c);
                assert(item_views(out@) =~= item_views(before).push(c@));
                i += 1;
            }
            if broad {
                let m = breadth_marker(x.len() - MAX_BREADTH, " entries dropped");
                let marker = Json::Str(m);
                assert(shown[n as int] == marker@);
                let c = walk(&marker, depth + 1, w, scrub);
                let ghost before = out@;
                out.push(c);
                assert(item_views(out@) =~= item_views(before).push(c@));
            }
            proof {
                arr_view(out);
            }
            Json::Arr(out)
        },
        Json::Obj(x) => {
            proof {
                obj_view(*x);
            }
            let ghost members = member_views(x@);
            let ghost shown = shown_members(members);
            let broad = x.len() > MAX_BREADTH;
            let mut list: Vec<Member> = Vec::new();
            let cut: usize = if broad {
                MAX_BREADTH
            } else {
                x.len()
            };
            let mut k: usize = 0;
            while k < cut
                invariant
                    k <= cut <= x.len(),
                    members == member_views(x@),
                    member_views(list@) =~= members.take(k as int),
                decreases cut - k,
            {
                let c = Member { name: x[k].name.clone(), value: copy_json(&x[k].value) };
                let ghost before = list@;
                list.push(c);
                assert(member_views(list@) =~= member_views(before).push((c.name@, c.value@)));
                k += 1;
            }
            if broad {
                w.capped = w.capped + 1;
                let m = breadth_marker(x.len() - MAX_BREADTH, " keys dropped");
                put_member(&mut list, "<UNSCANNED>", Json::Str(m));
            } else {
                assert(members.take(k as int) =~= members);
            }
            assert(member_views(list@) == shown);
            proof {
                put_len(
                    members.take(k as int),
                    "<UNSCANNED>"@,
                    JsonView::Str(keys_dropped((members.len() - MAX_BREADTH) as nat)),
                );
                assert(member_views(list@).len() == list@.len());
            }
            let ghost t2 = w.tally();
            let mut out: Vec<Member> = Vec::new();
            let mut i: usize = 0;
            while i < list.len()
                invariant
                    is_scrubber(*scrub),
                    g == rule_of(*scrub),
                    depth < MAX_DEPTH,
                    list.len() <= MAX_BREADTH + 1,
                    i <= list.len(),
                    shown == member_views(list@),
                    start.nodes_left <= MAX_NODES,
                    start.nodes_left >= 1,
                    start.redactions + 0xffff_ffff * start.nodes_left < 0x1_0000_0000_0000,
                    start.capped + 1 + 514 * start.nodes_left < 0x1000_0000,
                    w.nodes_left < start.nodes_left,
                    w.redactions <= start.redactions + 0xffff_ffff * (start.nodes_left - 1
                        - w.nodes_left),
                    w.capped <= start.capped + 1 + i + 514 * (start.nodes_left - 1 - w.nodes_left),
                    (member_views(out@), w.tally()) == walked_members(
                        shown,
                        i as nat,
                        (depth + 1) as nat,
                        t2,
                        g,
                    ),
                decreases list.len() - i,
            {
                let v2 = walk(&list[i].value, depth + 1, w, scrub);
                let c = Member { name: list[i].name.clone(), value: v2 };
                let ghost before = out@;
                out.push(c);
                assert(member_views(out@) =~= member_views(before).push((c.name@, c.value@)));
                i += 1;
            }
            proof {
                obj_view(out);
            }
            Json::Obj(out)
        },
    }
}

proof fn put_len(m: Seq<(Seq<char>, JsonView)>, k: Seq<char>, v: JsonView)
    ensures
        m.len() <= put(m, k, v).len() <= m.len() + 1,
    decreases m.len(),
{
    if m.len() > 0 {
        put_len(m.skip(1), k, v);
    }
}

/// The walk's start: nothing counted, the whole budget left.
pub open spec fn fresh_tally() -> Tally {
    Tally { left: MAX_NODES as nat, redactions: 0, capped: 0, failed: false }
}

/// A document as the scrub leaves it.
pub open spec fn scrubbed(v: JsonView, g: Rule) -> JsonView {
    walked(v, 0, fresh_tally(), g).0
}

/// What was counted over a document or an event: the spans replaced, the values dropped without being
/// inspected, and whether the scrub broke down.
#[derive(Debug)]
pub struct Count {
    pub spans: u128,
    pub drops: u128,
    pub failed: bool,
}

/// What was counted, as plain values.
pub struct CountView {
    pub spans: nat,
    pub drops: nat,
    pub failed: bool,
}

impl View for Count {
    type V = CountView;

    open spec fn view(&self) -> CountView {
        CountView { spans: self.spans as nat, drops: self.drops as nat, failed: self.failed }
    }
}

impl CountView {
    /// Both counts together.
    pub open spec fn plus(self, other: CountView) -> CountView {
        CountView {
            spans: self.spans + other.spans,
            drops: self.drops + other.drops,
            failed: self.failed || other.failed,
        }
    }

    /// Nothing counted.
    pub open spec fn zero() -> CountView {
        CountView { spans: 0, drops: 0, failed: false }
    }
}

/// What is counted over a document.
pub open spec fn json_count(v: JsonView, g: Rule) -> CountView {
    let t = walked(v, 0, fresh_tally(), g).1;
    CountView { spans: t.redactions, drops: t.capped, failed: t.failed }
}

/// What is counted over a text that stands alone.
pub open spec fn text_count(s: Seq<char>, g: Rule) -> CountView {
    CountView { spans: g(s).spans, drops: 0, failed: g(s).failed }
}

/// Scrubs every text of a document within the bounds, and counts.
pub fn scrub_value_capped<F: Fn(String) -> Scrubbed>(v: &Json, scrub: &F) -> (r: (Json, Count))
    requires
        is_scrubber(*scrub),
    ensures
        r.0@ == scrubbed(v@, rule_of(*scrub)),
        r.1@ == json_count(v@, rule_of(*scrub)),
        r.1.spans < 0x1_0000_0000_0000,
        r.1.drops < 0x1_0000_0000_0000,
{
    let mut w = Walk { nodes_left: MAX_NODES, redactions: 0, capped: 0, failed: false };
    let out = walk(v, 0, &mut w, scrub);
    (out, Count { spans: w.redactions as u128, drops: w.capped as u128, failed: w.failed })
}

// ------------------------------------------------------------------ what the walk promises

/// Whether a text may be stored: it is the marker of a dropped value, or the scrub inspected all that
/// is left of it.
pub open spec fn inspected(s: Seq<char>, g: Rule) -> bool {
    ||| s == unscanned_text("depth"@)
    ||| s == unscanned_text("node-budget"@)
    ||| exists|x: Seq<char>| #[trigger]
        byte_len(x) <= MAX_STRING_BYTES && (s == cleaned(g, x) || exists|n: nat|
            s == cleaned(g, x) + #[trigger] bytes_dropped(n))
}

/// Whether every text of a document may be stored.
pub open spec fn vetted(v: JsonView, g: Rule) -> bool
    decreases v,
{
    match v {
        JsonView::Str(s) => inspected(s, g),
        JsonView::Arr(x) => forall|i: int| 0 <= i < x.len() ==> vetted(#[trigger] x[i], g),
        JsonView::Obj(m) => forall|i: int| 0 <= i < m.len() ==> vetted((#[trigger] m[i]).1, g),
        _ => true,
    }
}

/// Nothing that was not inspected survives: whatever a document holds, at whatever depth and however
/// far the walk has come, every text that is left was scrubbed or is a marker.
pub proof fn nothing_uninspected_survives(v: JsonView, depth: nat, t: Tally, g: Rule)
    ensures
        vetted(walked(v, depth, t, g).0, g),
    decreases MAX_DEPTH - depth, 0nat, 0nat,
{
    if depth < MAX_DEPTH && t.left > 0 {
        let t1 = Tally { left: (t.left - 1) as nat, ..t };
        match v {
            JsonView::Str(s) => {
                if byte_len(s) > MAX_STRING_BYTES {
                    fitting_is_longest(s, MAX_STRING_BYTES as nat);
                    let x = s.take(fitting(s, MAX_STRING_BYTES as nat) as int);
                    assert(byte_len(x) <= MAX_STRING_BYTES);
                    let n = (byte_len(s) - byte_len(x)) as nat;
                    byte_len_grows(s, fitting(s, MAX_STRING_BYTES as nat) as int);
                    assert(leaf(s, g) == cleaned(g, x) + bytes_dropped(n));
                }
                assert(inspected(leaf(s, g), g));
                assert(walked(v, depth, t, g).0 == JsonView::Str(leaf(s, g)));
            },
            JsonView::Arr(x) => {
                let s = shown_items(x);
                let t2 = if x.len() > MAX_BREADTH {
                    t1.drop_one()
                } else {
                    t1
                };
                items_are_vetted(s, s.len(), depth + 1, t2, g);
                assert(walked(v, depth, t, g).0 == JsonView::Arr(
                    walked_items(s, s.len(), depth + 1, t2, g).0,
                ));
            },
            JsonView::Obj(m) => {
                let s = shown_members(m);
                let t2 = if m.len() > MAX_BREADTH {
                    t1.drop_one()
                } else {
                    t1
                };
                members_are_vetted(s, s.len(), depth + 1, t2, g);
                assert(walked(v, depth, t, g).0 == JsonView::Obj(
                    walked_members(s, s.len(), depth + 1, t2, g).0,
                ));
            },
            _ => {},
        }
    }
}

proof fn items_are_vetted(x: Seq<JsonView>, n: nat, depth: nat, t: Tally, g: Rule)
    requires
        n <= x.len(),
    ensures
        ({
            let r = walked_items(x, n, depth, t, g).0;
            forall|i: int| 0 <= i < r.len() ==> vetted(#[trigger] r[i], g)
        }),
    decreases MAX_DEPTH - depth, 1nat, n,
{
    if n > 0 && depth <= MAX_DEPTH {
        items_are_vetted(x, (n - 1) as nat, depth, t, g);
        let before = walked_items(x, (n - 1) as nat, depth, t, g);
        nothing_uninspected_survives(x[n - 1], depth, before.1, g);
        let r = walked_items(x, n, depth, t, g).0;
        assert forall|i: int| 0 <= i < r.len() implies vetted(#[trigger] r[i], g) by {
            if i < before.0.len() {
                assert(r[i] == before.0[i]);
            }
        }
    }
}

proof fn members_are_vetted(m: Seq<(Seq<char>, JsonView)>, n: nat, depth: nat, t: Tally, g: Rule)
    requires
        n <= m.len(),
    ensures
        ({
            let r = walked_members(m, n, depth, t, g).0;
            forall|i: int| 0 <= i < r.len() ==> vetted((#[trigger] r[i]).1, g)
        }),
    decreases MAX_DEPTH - depth, 1nat, n,
{
    if n > 0 && depth <= MAX_DEPTH {
        members_are_vetted(m, (n - 1) as nat, depth, t, g);
        let before = walked_members(m, (n - 1) as nat, depth, t, g);
        nothing_uninspected_survives(m[n - 1].1, depth, before.1, g);
        let r = walked_members(m, n, depth, t, g).0;
        assert forall|i: int| 0 <= i < r.len() implies vetted((#[trigger] r[i]).1, g) by {
            if i < before.0.len() {
                assert(r[i] == before.0[i]);
            }
        }
    }
}

/// Whether a document meets no bound of depth, breadth or text length and holds nothing the scrub
/// finds.
pub open spec fn ordinary(v: JsonView, depth: nat, g: Rule) -> bool
    decreases MAX_DEPTH - depth,
{
    depth < MAX_DEPTH && match v {
        JsonView::Str(s) => byte_len(s) <= MAX_STRING_BYTES && g(s).spans == 0 && !g(s).failed,
        JsonView::Arr(x) => x.len() <= MAX_BREADTH && forall|i: int|
            0 <= i < x.len() ==> ordinary(#[trigger] x[i], depth + 1, g),
        JsonView::Obj(m) => m.len() <= MAX_BREADTH && forall|i: int|
            0 <= i < m.len() ==> ordinary((#[trigger] m[i]).1, depth + 1, g),
        _ => true,
    }
}

/// The values a document is made of, down to the depth bound.
pub open spec fn nodes(v: JsonView, depth: nat) -> nat
    decreases MAX_DEPTH - depth, 0nat, 0nat,
{
    if depth >= MAX_DEPTH {
        1
    } else {
        match v {
            JsonView::Arr(x) => 1 + nodes_of_items(x, x.len(), depth + 1),
            JsonView::Obj(m) => 1 + nodes_of_members(m, m.len(), depth + 1),
            _ => 1,
        }
    }
}

/// The values the first `n` children are made of.
pub open spec fn nodes_of_items(x: Seq<JsonView>, n: nat, depth: nat) -> nat
    decreases MAX_DEPTH - depth, 1nat, n,
{
    if n == 0 || depth > MAX_DEPTH {
        0
    } else {
        nodes_of_items(x, (n - 1) as nat, depth) + nodes(x[n - 1], depth)
    }
}

/// The values the first `n` members are made of.
pub open spec fn nodes_of_members(m: Seq<(Seq<char>, JsonView)>, n: nat, depth: nat) -> nat
    decreases MAX_DEPTH - depth, 1nat, n,
{
    if n == 0 || depth > MAX_DEPTH {
        0
    } else {
        nodes_of_members(m, (n - 1) as nat, depth) + nodes(m[n - 1].1, depth)
    }
}

/// The bounds leave an ordinary document alone: one that meets none of them, fits the budget and
/// holds nothing the scrub finds comes out as it went in, with nothing counted.
pub proof fn an_ordinary_document_is_left_alone(v: JsonView, depth: nat, t: Tally, g: Rule)
    requires
        ordinary(v, depth, g),
        nodes(v, depth) <= t.left,
    ensures
        walked(v, depth, t, g) == (v, Tally { left: (t.left - nodes(v, depth)) as nat, ..t }),
    decreases MAX_DEPTH - depth, 0nat, 0nat,
{
    let t1 = Tally { left: (t.left - 1) as nat, ..t };
    match v {
        JsonView::Arr(x) => {
            ordinary_items(x, x.len(), depth + 1, t1, g);
            assert(x.take(x.len() as int) =~= x);
        },
        JsonView::Obj(m) => {
            ordinary_members(m, m.len(), depth + 1, t1, g);
            assert(m.take(m.len() as int) =~= m);
        },
        _ => {},
    }
}

proof fn ordinary_items(x: Seq<JsonView>, n: nat, depth: nat, t: Tally, g: Rule)
    requires
        n <= x.len(),
        depth <= MAX_DEPTH,
        forall|i: int| 0 <= i < x.len() ==> ordinary(#[trigger] x[i], depth, g),
        nodes_of_items(x, n, depth) <= t.left,
    ensures
        walked_items(x, n, depth, t, g) == (
            x.take(n as int),
            Tally { left: (t.left - nodes_of_items(x, n, depth)) as nat, ..t },
        ),
    decreases MAX_DEPTH - depth, 1nat, n,
{
    if n > 0 {
        ordinary_items(x, (n - 1) as nat, depth, t, g);
        let before = walked_items(x, (n - 1) as nat, depth, t, g);
        an_ordinary_document_is_left_alone(x[n - 1], depth, before.1, g);
        assert(x.take(n as int) =~= x.take(n - 1).push(x[n - 1]));
    } else {
        assert(x.take(0) =~= seq![]);
    }
}

proof fn ordinary_members(m: Seq<(Seq<char>, JsonView)>, n: nat, depth: nat, t: Tally, g: Rule)
    requires
        n <= m.len(),
        depth <= MAX_DEPTH,
        forall|i: int| 0 <= i < m.len() ==> ordinary((#[trigger] m[i]).1, depth, g),
        nodes_of_members(m, n, depth) <= t.left,
    ensures
        walked_members(m, n, depth, t, g) == (
            m.take(n as int),
            Tally { left: (t.left - nodes_of_members(m, n, depth)) as nat, ..t },
        ),
    decreases MAX_DEPTH - depth, 1nat, n,
{
    if n > 0 {
        ordinary_members(m, (n - 1) as nat, depth, t, g);
        let before = walked_members(m, (n - 1) as nat, depth, t, g);
        assert(ordinary(m[n - 1].1, depth, g));
        an_ordinary_document_is_left_alone(m[n - 1].1, depth, before.1, g);
        assert(m.take(n as int) =~= m.take(n - 1).push(m[n - 1]));
    } else {
        assert(m.take(0) =~= seq![]);
    }
}

/// A text within the bound is what the scrub gives back where it replaced anything and the same text where
/// it did not; of a longer one, a prefix within the bound is kept and the rest is marked by its bytes.
pub proof fn a_text_is_scrubbed_or_cut<F: Fn(String) -> Scrubbed>(v: &Json, scrub: &F, r: (Json, Count))
    requires
        is_scrubber(*scrub),
        call_ensures(scrub_value_capped::<F>, (v, scrub), r),
        v@ is Str,
    ensures
        ({
            let s = v@->Str_0;
            let g = rule_of(*scrub);
            &&& byte_len(s) <= 32_768 ==> r.1.spans == g(s).spans && r.1.drops == 0 && r.1.failed
                == g(s).failed
            &&& byte_len(s) <= 32_768 && g(s).spans > 0 ==> r.0@ == JsonView::Str(g(s).text)
            &&& byte_len(s) <= 32_768 && g(s).spans == 0 ==> r.0@ == JsonView::Str(s)
            &&& byte_len(s) > 32_768 ==> r.1.drops == 1 && exists|k: int|
                #![trigger s.take(k)]
                0 <= k < s.len() && byte_len(s.take(k)) <= 32_768 && byte_len(s.take(k + 1)) > 32_768
                    && r.1.spans == g(s.take(k)).spans && r.0@ == JsonView::Str(
                    cleaned(g, s.take(k)) + ("<UNSCANNED: string, "@ + dec(
                        (byte_len(s) - byte_len(s.take(k))) as nat,
                    ) + " bytes dropped>"@),
                )
        }),
{
    let s = v@->Str_0;
    if byte_len(s) > 32_768 {
        fitting_is_longest(s, 32_768);
        let k = fitting(s, 32_768) as int;
        assert(s.take(s.len() as int) =~= s);
        assert(0 <= k < s.len());
        assert(byte_len(s.take(k)) <= 32_768);
    }
}

/// The bytes of a text: one for each character of plain ASCII, up to four for any other; and a text put
/// after another adds its own.
pub proof fn bytes_of_a_character(s: Seq<char>, c: char)
    ensures
        byte_len(s.push(c)) > byte_len(s),
        (c as u32) < 0x80 ==> byte_len(s.push(c)) == byte_len(s) + 1,
        0x80 <= c as u32 && (c as u32) < 0x800 ==> byte_len(s.push(c)) == byte_len(s) + 2,
        0x800 <= c as u32 && (c as u32) < 0x10000 ==> byte_len(s.push(c)) == byte_len(s) + 3,
        0x10000 <= c as u32 ==> byte_len(s.push(c)) == byte_len(s) + 4,
        byte_len(seq![]) == 0,
{
    assert(s.push(c).drop_last() =~= s);
}

/// Where a text is cut: after the last character with which it still fits, and nowhere where it fits.
pub proof fn a_cut_is_the_last_that_fits(s: &str, max: usize, r: Option<usize>)
    requires
        call_ensures(cut_at, (s, max), r),
    ensures
        r is None <==> byte_len(s@) <= max,
        r is Some ==> r->0 < s@.len() && byte_len(s@.take(r->0 as int)) <= max && byte_len(
            s@.take(r->0 + 1),
        ) > max,
{
    if r is Some {
        fitting_is_longest(s@, max as nat);
        assert(s@.take(s@.len() as int) =~= s@);
    }
}

proof fn walked_items_len(x: Seq<JsonView>, n: nat, depth: nat, t: Tally, g: Rule)
    requires
        depth <= MAX_DEPTH,
        n <= x.len(),
    ensures
        walked_items(x, n, depth, t, g).0.len() == n,
    decreases n,
{
    if n > 0 {
        walked_items_len(x, (n - 1) as nat, depth, t, g);
    }
}

proof fn walked_members_names(m: Seq<(Seq<char>, JsonView)>, n: nat, depth: nat, t: Tally, g: Rule)
    requires
        depth <= MAX_DEPTH,
        n <= m.len(),
    ensures
        walked_members(m, n, depth, t, g).0.len() == n,
        forall|i: int| 0 <= i < n ==> (#[trigger] walked_members(m, n, depth, t, g).0[i]).0 == m[i].0,
    decreases n,
{
    if n > 0 {
        walked_members_names(m, (n - 1) as nat, depth, t, g);
    }
}

/// The scrub keeps a document's shape: what holds no text is as it was, a list keeps its items' number and
/// an object its members' names, up to the first five hundred and twelve and one marker for the rest.
pub proof fn a_document_keeps_its_shape<F: Fn(String) -> Scrubbed>(v: &Json, scrub: &F, r: (Json, Count))
    requires
        is_scrubber(*scrub),
        call_ensures(scrub_value_capped::<F>, (v, scrub), r),
    ensures
        v@ is Null || v@ is Bool || v@ is Num ==> r.0@ == v@ && r.1.spans == 0 && r.1.drops == 0
            && !r.1.failed,
        v@ is Arr && v@->Arr_0.len() <= 512 ==> r.0@ is Arr && r.0@->Arr_0.len() == v@->Arr_0.len(),
        v@ is Arr && v@->Arr_0.len() > 512 ==> r.0@ is Arr && r.0@->Arr_0.len() == 513,
        v@ is Obj && v@->Obj_0.len() <= 512 ==> r.0@ is Obj && r.0@->Obj_0.len() == v@->Obj_0.len()
            && forall|i: int|
            0 <= i < v@->Obj_0.len() ==> (#[trigger] r.0@->Obj_0[i]).0 == v@->Obj_0[i].0,
{
    let g = rule_of(*scrub);
    let t = fresh_tally();
    let t1 = Tally { left: (t.left - 1) as nat, ..t };
    match v@ {
        JsonView::Arr(x) => {
            let s = shown_items(x);
            let t2 = if x.len() > MAX_BREADTH {
                t1.drop_one()
            } else {
                t1
            };
            walked_items_len(s, s.len(), 1, t2, g);
        },
        JsonView::Obj(m) => {
            if m.len() <= 512 {
                walked_members_names(m, m.len(), 1, t1, g);
            }
        },
        _ => {},
    }
}

/// A value twelve levels down, or past twenty thousand values, is never walked: a marker that names the
/// bound stands in its place, and it is counted as dropped.
pub proof fn what_lies_beyond_a_bound_is_dropped(v: JsonView, depth: nat, t: Tally, g: Rule)
    ensures
        fresh_tally().left == 20_000,
        depth >= 12 ==> walked(v, depth, t, g).0 == JsonView::Str("<UNSCANNED: "@ + "depth"@ + ">"@),
        depth < 12 && t.left == 0 ==> walked(v, depth, t, g).0 == JsonView::Str(
            "<UNSCANNED: "@ + "node-budget"@ + ">"@,
        ),
        depth >= 12 || t.left == 0 ==> walked(v, depth, t, g).1.capped == t.capped + 1 && walked(
            v,
            depth,
            t,
            g,
        ).1.redactions == t.redactions,
        depth < 12 && t.left > 0 && (v is Null || v is Bool || v is Num || v is Str) ==> walked(
            v,
            depth,
            t,
            g,
        ).1.left == t.left - 1,
{
}

} // verus!
