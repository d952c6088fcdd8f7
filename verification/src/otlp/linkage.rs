//! Keeping a trace in one piece when the spans between its model calls are dropped: an event whose
//! parent did not become one is hung below its nearest ancestor that did.
use vstd::prelude::*;

use crate::event::LlmEvent;
use crate::json::{
    field, find_member, member_views, obj_view, put, put_member, Json, JsonView, Member,
};
use crate::otlp::proto::{FlatSpan, Span};
use crate::otlp::semconv::{canonical, nonempty, opt_view};
use crate::text::{any_same, same, views};

verus! {

/// The most links that are climbed.
pub const MAX_ANCESTOR_HOPS: usize = 64;

/// One link of the exporter's own topology.
#[derive(Debug)]
pub struct Link {
    pub child: String,
    pub parent: String,
}

/// A link as plain values.
pub open spec fn link_views(v: Seq<Link>) -> Seq<(Seq<char>, Seq<char>)> {
    v.map_values(|x: Link| (x.child@, x.parent@))
}

/// The links among some spans: one for each span that has an id and a parent.
pub open spec fn links_of(spans: Seq<Span>) -> Seq<(Seq<char>, Seq<char>)>
    decreases spans.len(),
{
    if spans.len() == 0 {
        seq![]
    } else {
        let rest = links_of(spans.drop_last());
        match (
            canonical(opt_view(spans.last().span_id)),
            canonical(opt_view(spans.last().parent_span_id)),
        ) {
            (Some(c), Some(p)) => rest.push((c, p)),
            _ => rest,
        }
    }
}

/// The parent of a span; the last link counts.
pub open spec fn parent_of(links: Seq<(Seq<char>, Seq<char>)>, id: Seq<char>) -> Option<Seq<char>>
    decreases links.len(),
{
    if links.len() == 0 {
        None
    } else if links.last().0 == id {
        Some(links.last().1)
    } else {
        parent_of(links.drop_last(), id)
    }
}

/// The nearest ancestor of `from` that became an event, at most `hops` links up.
pub open spec fn nearest(
    links: Seq<(Seq<char>, Seq<char>)>,
    mapped: Seq<Seq<char>>,
    from: Seq<char>,
    hops: nat,
) -> Option<Seq<char>>
    decreases hops,
{
    if hops == 0 {
        None
    } else {
        match parent_of(links, from) {
            None => None,
            Some(p) => if mapped.contains(p) {
                Some(p)
            } else {
                nearest(links, mapped, p, (hops - 1) as nat)
            },
        }
    }
}

fn find_parent<'a>(links: &'a Vec<Link>, id: &str) -> (r: Option<&'a str>)
    ensures
        crate::event::text_view(r) == parent_of(link_views(links@), id@),
{
    let mut i: usize = links.len();
    let ghost lv = link_views(links@);
    assert(lv.take(i as int) =~= lv);
    while i > 0
        invariant
            lv == link_views(links@),
            i <= links.len(),
            parent_of(lv, id@) == parent_of(lv.take(i as int), id@),
        decreases i,
    {
        i -= 1;
        assert(lv.take(i + 1).drop_last() =~= lv.take(i as int));
        assert(lv.take(i + 1).last() == lv[i as int]);
        if same(links[i].child.as_str(), id) {
            return Some(links[i].parent.as_str());
        }
    }
    None
}

/// The nearest ancestor that became an event.
pub fn nearest_mapped_ancestor(from: &str, links: &Vec<Link>, mapped: &Vec<String>) -> (r: Option<String>)
    ensures
        opt_view(r) == nearest(
            link_views(links@),
            views(mapped@),
            from@,
            MAX_ANCESTOR_HOPS as nat,
        ),
{
    let mut cur = from.to_owned();
    let mut hops: usize = MAX_ANCESTOR_HOPS;
    while hops > 0
        invariant
            hops <= MAX_ANCESTOR_HOPS,
            nearest(link_views(links@), views(mapped@), from@, MAX_ANCESTOR_HOPS as nat) == nearest(
                link_views(links@),
                views(mapped@),
                cur@,
                hops as nat,
            ),
        decreases hops,
    {
        match find_parent(links, cur.as_str()) {
            None => {
                return None;
            },
            Some(p) => {
                if any_same(mapped, p) {
                    return Some(p.to_owned());
                }
                cur = p.to_owned();
            },
        }
        hops -= 1;
    }
    None
}

/// The links among the spans of an export.
fn collect_links(spans: &Vec<FlatSpan>) -> (r: Vec<Link>)
    ensures
        link_views(r@) == links_of(spans@.map_values(|x: FlatSpan| *x.span)),
{
    let ghost f = |x: FlatSpan| *x.span;
    let ghost all = spans@.map_values(f);
    let mut out: Vec<Link> = Vec::new();
    let mut i: usize = 0;
    assert(link_views(out@) =~= links_of(all.take(0)));
    while i < spans.len()
        invariant
            all == spans@.map_values(|x: FlatSpan| *x.span),
            i <= spans.len(),
            link_views(out@) == links_of(all.take(i as int)),
        decreases spans.len() - i,
    {
        let s = spans[i].span;
        assert(all.take(i + 1).drop_last() =~= all.take(i as int));
        assert(all.take(i + 1).last() == *s);
        let ghost before = out@;
        if let (Some(child), Some(parent)) = (nonempty(&s.span_id), nonempty(&s.parent_span_id)) {
            let l = Link { child, parent };
            out.push(l);
            assert(link_views(out@) =~= link_views(before).push((l.child@, l.parent@)));
        }
        i += 1;
    }
    assert(all.take(i as int) =~= all);
    out
}

/// The ids of the spans that became events.
pub open spec fn mapped_ids(events: Seq<LlmEvent>) -> Seq<Seq<char>>
    decreases events.len(),
{
    if events.len() == 0 {
        seq![]
    } else {
        let rest = mapped_ids(events.drop_last());
        match events.last().span_id {
            Some(s) => rest.push(s@),
            None => rest,
        }
    }
}

fn collect_mapped(events: &Vec<LlmEvent>) -> (r: Vec<String>)
    ensures
        views(r@) == mapped_ids(events@),
{
    let mut out: Vec<String> = Vec::new();
    let mut i: usize = 0;
    assert(views(out@) =~= mapped_ids(events@.take(0)));
    while i < events.len()
        invariant
            i <= events.len(),
            views(out@) == mapped_ids(events@.take(i as int)),
        decreases events.len() - i,
    {
        assert(events@.take(i + 1).drop_last() =~= events@.take(i as int));
        let ghost before = out@;
        if let Some(s) = &events[i].span_id {
            out.push(s.clone());
            assert(views(out@) =~= views(before).push(s@));
        }
        i += 1;
    }
    assert(events@.take(i as int) =~= events@);
    out
}

/// Metadata with the exporter's own parent recorded among what is kept of the span.
pub open spec fn with_original_parent(v: JsonView, original: Seq<char>) -> JsonView {
    match v {
        JsonView::Obj(m) => {
            let otel = match field(v, "otel"@) {
                Some(o) => o,
                None => JsonView::Obj(seq![]),
            };
            match otel {
                JsonView::Obj(o) => JsonView::Obj(
                    put(
                        m,
                        "otel"@,
                        JsonView::Obj(put(o, "otlp_parent_span_id"@, JsonView::Str(original))),
                    ),
                ),
                _ => v,
            }
        },
        _ => v,
    }
}

/// Records the exporter's own parent, so that a link that was made up is visible as such.
pub fn record_original_parent(v: Json, original: &str) -> (r: Json)
    ensures
        r@ == with_original_parent(v@, original@),
{
    broadcast use obj_view;

    match v {
        Json::Obj(m) => {
            let otel: Json = match find_member(&m, "otel") {
                Some(i) => {
                    assert(member_views(m@)[i as int].1 == m@[i as int].value@);
                    crate::json::copy_json(&m[i].value)
                },
                None => {
                    let empty: Vec<Member> = Vec::new();
                    assert(member_views(empty@) =~= seq![]);
                    Json::Obj(empty)
                },
            };
            match otel {
                Json::Obj(o) => {
                    let mut o = o;
                    put_member(&mut o, "otlp_parent_span_id", Json::Str(original.to_owned()));
                    let mut m = m;
                    put_member(&mut m, "otel", Json::Obj(o));
                    Json::Obj(m)
                },
                _ => Json::Obj(m),
            }
        },
        other => other,
    }
}

/// Where an event is moved to, if anywhere: its parent did not become an event and an ancestor did.
pub open spec fn moves_to(
    ev: LlmEvent,
    links: Seq<(Seq<char>, Seq<char>)>,
    mapped: Seq<Seq<char>>,
) -> Option<Seq<char>> {
    match ev.parent_span_id {
        None => None,
        Some(p) => if mapped.contains(p@) {
            None
        } else {
            nearest(links, mapped, p@, MAX_ANCESTOR_HOPS as nat)
        },
    }
}

/// Whether `r` is `ev` with its parent mended: moved below the nearest ancestor that became an event,
/// with the exporter's parent recorded, or left as it is.
pub open spec fn mended(
    r: LlmEvent,
    ev: LlmEvent,
    links: Seq<(Seq<char>, Seq<char>)>,
    mapped: Seq<Seq<char>>,
) -> bool {
    match moves_to(ev, links, mapped) {
        None => r == ev,
        Some(a) => {
            &&& r.parent_span_id is Some && r.parent_span_id->0@ == a
            &&& r.metadata@ == with_original_parent(ev.metadata@, ev.parent_span_id->0@)
            &&& r == (LlmEvent { parent_span_id: r.parent_span_id, metadata: r.metadata, ..ev })
        },
    }
}

/// The spans of an export.
pub open spec fn spans_in(spans: Seq<FlatSpan>) -> Seq<Span> {
    spans.map_values(|x: FlatSpan| *x.span)
}

/// Mends the parents of an export's events past the spans that were dropped. The whole export's links
/// are known, those of the dropped spans included.
pub fn reparent_past_dropped_spans(spans: &Vec<FlatSpan>, events: Vec<LlmEvent>) -> (r: Vec<LlmEvent>)
    ensures
        r@.len() == events@.len(),
        forall|k: int|
            0 <= k < r@.len() ==> mended(
                #[trigger] r@[k],
                events@[k],
                links_of(spans_in(spans@)),
                mapped_ids(events@),
            ),
{
    let links = collect_links(spans);
    let mapped = collect_mapped(&events);
    let ghost lv = links_of(spans_in(spans@));
    let ghost mv = mapped_ids(events@);
    assert(spans_in(spans@) =~= spans@.map_values(|x: FlatSpan| *x.span));
    let ghost start = events@;
    let mut rest = events;
    let mut out: Vec<LlmEvent> = Vec::new();
    let n: usize = rest.len();
    // The events are taken off the end and put back in order.
    let mut back: Vec<LlmEvent> = Vec::new();
    let mut i: usize = 0;
    while i < n
        invariant
            i <= n == start.len(),
            rest@ == start.take(n - i),
            link_views(links@) == lv,
            views(mapped@) == mv,
            back@.len() == i,
            forall|k: int|
                0 <= k < i ==> mended(#[trigger] back@[k], start[n - 1 - k], lv, mv),
        decreases n - i,
    {
        let mut ev = rest.pop().unwrap();
        let ghost orig = ev;
        assert(orig == start[n - 1 - i]);
        assert(rest@ =~= start.take(n - i - 1));
        let target: Option<String> = match &ev.parent_span_id {
            None => None,
            Some(p) => if any_same(&mapped, p.as_str()) {
                None
            } else {
                nearest_mapped_ancestor(p.as_str(), &links, &mapped)
            },
        };
        if let Some(a) = target {
            let parent = match &ev.parent_span_id {
                Some(p) => p.clone(),
                None => String::new(),
            };
            let md = ev.metadata;
            ev.metadata = record_original_parent(md, parent.as_str());
            ev.parent_span_id = Some(a);
        }
        assert(mended(ev, orig, lv, mv));
        back.push(ev);
        i += 1;
    }
    let ghost all = back@;
    let mut j: usize = 0;
    while j < n
        invariant
            j <= n == start.len(),
            all.len() == n,
            back@ == all.take(n - j),
            forall|k: int| 0 <= k < n ==> mended(#[trigger] all[k], start[n - 1 - k], lv, mv),
            out@.len() == j,
            forall|k: int| 0 <= k < j ==> mended(#[trigger] out@[k], start[k], lv, mv),
        decreases n - j,
    {
        let ev = back.pop().unwrap();
        assert(ev == all[n - 1 - j]);
        assert(back@ =~= all.take(n - j - 1));
        out.push(ev);
        j += 1;
    }
    out
}

// ------------------------------------------------------------------ what mending promises

/// The span so many links above `from`.
pub open spec fn up(links: Seq<(Seq<char>, Seq<char>)>, from: Seq<char>, n: nat) -> Option<Seq<char>>
    decreases n,
{
    if n == 0 {
        Some(from)
    } else {
        match parent_of(links, from) {
            None => None,
            Some(p) => up(links, p, (n - 1) as nat),
        }
    }
}

/// An event is only ever hung below a span that became an event and is its ancestor in the export, and
/// below the nearest such one, no more links away than are climbed.
pub proof fn the_new_parent_is_the_nearest_ancestor(
    links: Seq<(Seq<char>, Seq<char>)>,
    mapped: Seq<Seq<char>>,
    from: Seq<char>,
    hops: nat,
)
    ensures
        nearest(links, mapped, from, hops) is Some ==> {
            let a = nearest(links, mapped, from, hops)->0;
            &&& mapped.contains(a)
            &&& exists|n: nat|
                1 <= n <= hops && #[trigger] up(links, from, n) == Some(a) && forall|m: nat|
                    1 <= m < n ==> (#[trigger] up(links, from, m)) is Some && !mapped.contains(
                        up(links, from, m)->0,
                    )
        },
    decreases hops,
{
    if hops > 0 {
        if let Some(p) = parent_of(links, from) {
            if mapped.contains(p) {
                reveal_with_fuel(up, 2);
                assert(up(links, from, 1) == Some(p));
            } else {
                the_new_parent_is_the_nearest_ancestor(links, mapped, p, (hops - 1) as nat);
                if nearest(links, mapped, from, hops) is Some {
                    let a = nearest(links, mapped, from, hops)->0;
                    let n = choose|n: nat|
                        1 <= n <= hops - 1 && #[trigger] up(links, p, n) == Some(a) && forall|m: nat|
                            1 <= m < n ==> (#[trigger] up(links, p, m)) is Some && !mapped.contains(
                                up(links, p, m)->0,
                            );
                    assert(up(links, from, n + 1) == Some(a));
                    assert forall|m: nat| 1 <= m < n + 1 implies (#[trigger] up(links, from, m)) is Some
                        && !mapped.contains(up(links, from, m)->0) by {
                        if m == 1 {
                            assert(up(links, p, 0) == Some(p));
                            assert(up(links, from, 1) == up(links, p, 0));
                        } else {
                            assert(up(links, from, m) == up(links, p, (m - 1) as nat));
                            assert(up(links, p, (m - 1) as nat) is Some);
                        }
                    }
                }
            }
        }
    }
}

/// Links that run in a circle lead nowhere: from a span that is its own ancestor without a model call
/// on the way, nothing is found however far one climbs.
pub proof fn a_circle_leads_nowhere(
    links: Seq<(Seq<char>, Seq<char>)>,
    mapped: Seq<Seq<char>>,
    from: Seq<char>,
    around: nat,
    hops: nat,
)
    requires
        around >= 1,
        up(links, from, around) == Some(from),
        forall|m: nat|
            1 <= m <= around ==> (#[trigger] up(links, from, m)) is Some && !mapped.contains(
                up(links, from, m)->0,
            ),
    ensures
        nearest(links, mapped, from, hops) is None,
    decreases hops,
{
    if hops <= around {
        climb_without_result(links, mapped, from, hops);
    } else {
        a_circle_leads_nowhere(links, mapped, from, around, (hops - around) as nat);
        climb_on(links, mapped, from, around, hops);
    }
}

proof fn climb_without_result(
    links: Seq<(Seq<char>, Seq<char>)>,
    mapped: Seq<Seq<char>>,
    from: Seq<char>,
    hops: nat,
)
    requires
        forall|m: nat|
            1 <= m <= hops ==> (#[trigger] up(links, from, m)) is Some && !mapped.contains(
                up(links, from, m)->0,
            ),
    ensures
        nearest(links, mapped, from, hops) is None,
    decreases hops,
{
    if hops > 0 {
        reveal_with_fuel(up, 2);
        assert(up(links, from, 1) is Some);
        let p = parent_of(links, from)->0;
        assert(up(links, p, 0) == Some(p));
        assert forall|m: nat| 1 <= m <= hops - 1 implies (#[trigger] up(links, p, m)) is Some
            && !mapped.contains(up(links, p, m)->0) by {
            assert(up(links, from, m + 1) == up(links, p, m));
        }
        climb_without_result(links, mapped, p, (hops - 1) as nat);
    }
}

proof fn climb_on(
    links: Seq<(Seq<char>, Seq<char>)>,
    mapped: Seq<Seq<char>>,
    from: Seq<char>,
    n: nat,
    hops: nat,
)
    requires
        n <= hops,
        forall|m: nat|
            1 <= m <= n ==> (#[trigger] up(links, from, m)) is Some && !mapped.contains(
                up(links, from, m)->0,
            ),
        up(links, from, n) is Some,
    ensures
        nearest(links, mapped, from, hops) == nearest(
            links,
            mapped,
            up(links, from, n)->0,
            (hops - n) as nat,
        ),
    decreases n,
{
    if n > 0 {
        reveal_with_fuel(up, 2);
        assert(up(links, from, 1) is Some);
        let p = parent_of(links, from)->0;
        assert(up(links, p, 0) == Some(p));
        assert forall|m: nat| 1 <= m <= n - 1 implies (#[trigger] up(links, p, m)) is Some
            && !mapped.contains(up(links, p, m)->0) by {
            assert(up(links, from, m + 1) == up(links, p, m));
        }
        assert(up(links, from, n) == up(links, p, (n - 1) as nat));
        climb_on(links, mapped, p, (n - 1) as nat, (hops - 1) as nat);
    }
}

proof fn last_link_counts(links: Seq<(Seq<char>, Seq<char>)>, id: Seq<char>, i: int)
    ensures
        0 <= i < links.len() && links[i].0 == id && (forall|j: int|
            i < j < links.len() ==> (#[trigger] links[j]).0 != id) ==> parent_of(links, id) == Some(
            links[i].1,
        ),
        (forall|j: int| 0 <= j < links.len() ==> (#[trigger] links[j]).0 != id) ==> parent_of(
            links,
            id,
        ) is None,
    decreases links.len(),
{
    if links.len() > 0 {
        let d = links.drop_last();
        last_link_counts(d, id, i);
        assert(links[links.len() - 1] == links.last());
        assert forall|j: int| 0 <= j < d.len() implies #[trigger] d[j] == links[j] by {}
    }
}

/// The parent climbed to is the last that is given for a span; and the ancestor found is the parent itself
/// where that became an event, else the one found from the parent.
pub proof fn an_ancestor_is_found_by_climbing(
    from: &str,
    links: &Vec<Link>,
    mapped: &Vec<String>,
    r: Option<String>,
    i: int,
    k: int,
)
    requires
        call_ensures(nearest_mapped_ancestor, (from, links, mapped), r),
    ensures
        (forall|j: int| 0 <= j < links@.len() ==> (#[trigger] links@[j]).child@ != from@) ==> r is None,
        0 <= i < links@.len() && links@[i].child@ == from@ && (forall|j: int|
            i < j < links@.len() ==> (#[trigger] links@[j]).child@ != from@) && 0 <= k < mapped@.len()
            && mapped@[k]@ == links@[i].parent@ ==> r is Some && r->0@ == links@[i].parent@,
        r is Some ==> exists|n: int| 0 <= n < mapped@.len() && (#[trigger] mapped@[n])@ == r->0@,
{
    let v = link_views(links@);
    let w = views(mapped@);
    assert(v.len() == links@.len() && w.len() == mapped@.len());
    assert(forall|j: int| 0 <= j < v.len() ==> v[j] == ((#[trigger] links@[j]).child@, links@[j].parent@));
    assert(forall|j: int| 0 <= j < w.len() ==> w[j] == (#[trigger] mapped@[j])@);
    last_link_counts(v, from@, i);
    if forall|j: int| 0 <= j < links@.len() ==> (#[trigger] links@[j]).child@ != from@ {
        assert forall|j: int| 0 <= j < v.len() implies (#[trigger] v[j]).0 != from@ by {
            assert(links@[j].child@ != from@);
        }
    }
    if 0 <= i < links@.len() && links@[i].child@ == from@ && (forall|j: int|
        i < j < links@.len() ==> (#[trigger] links@[j]).child@ != from@) && 0 <= k < mapped@.len()
        && mapped@[k]@ == links@[i].parent@ {
        assert forall|j: int| i < j < v.len() implies (#[trigger] v[j]).0 != from@ by {
            assert(links@[j].child@ != from@);
        }
        assert(v[i].0 == from@ && v[i].1 == links@[i].parent@);
        assert(w[k] == links@[i].parent@);
        assert(w.contains(links@[i].parent@));
    }
    the_new_parent_is_the_nearest_ancestor(v, w, from@, MAX_ANCESTOR_HOPS as nat);
    if r is Some {
        assert(w.contains(r->0@));
        let n = choose|n: int| 0 <= n < w.len() && w[n] == r->0@;
        assert(mapped@[n]@ == r->0@);
    }
}

proof fn mapped_are_span_ids(events: Seq<LlmEvent>)
    ensures
        forall|i: int|
            0 <= i < events.len() && (#[trigger] events[i]).span_id is Some ==> mapped_ids(events).contains(
                events[i].span_id->0@,
            ),
        forall|x: Seq<char>| #[trigger]
            mapped_ids(events).contains(x) ==> exists|i: int|
                0 <= i < events.len() && (#[trigger] events[i]).span_id is Some && events[i].span_id->0@
                    == x,
    decreases events.len(),
{
    if events.len() > 0 {
        let d = events.drop_last();
        mapped_are_span_ids(d);
        let m = mapped_ids(d);
        let all = mapped_ids(events);
        let last = events.len() - 1;
        assert forall|i: int| 0 <= i < events.len() && (#[trigger] events[i]).span_id is Some implies all.contains(
            events[i].span_id->0@,
        ) by {
            if i < d.len() {
                assert(d[i] == events[i]);
                let k = choose|k: int| 0 <= k < m.len() && m[k] == d[i].span_id->0@;
                assert(all[k] == m[k]);
            } else {
                assert(all[all.len() - 1] == events[i].span_id->0@);
            }
        }
        assert forall|x: Seq<char>| #[trigger] all.contains(x) implies exists|i: int|
            0 <= i < events.len() && (#[trigger] events[i]).span_id is Some && events[i].span_id->0@ == x by {
            let k = choose|k: int| 0 <= k < all.len() && all[k] == x;
            if k < m.len() {
                assert(m[k] == x);
                assert(m.contains(x));
                let i = choose|i: int|
                    0 <= i < d.len() && (#[trigger] d[i]).span_id is Some && d[i].span_id->0@ == x;
                assert(events[i] == d[i]);
            } else {
                assert(events[last].span_id is Some && events[last].span_id->0@ == x);
            }
        }
    }
}

/// Mending touches an event's parent alone, and that only where the parent did not become an event: then
/// the event hangs below a span that did, and what the exporter said is kept under `otel`, with everything
/// else that stood there.
pub proof fn mending_touches_lost_parents_alone(
    spans: &Vec<FlatSpan>,
    events: Vec<LlmEvent>,
    r: Vec<LlmEvent>,
    k: int,
    other: Seq<char>,
)
    requires
        call_ensures(reparent_past_dropped_spans, (spans, events), r),
        0 <= k < events@.len(),
        other != "otlp_parent_span_id"@,
    ensures
        r@.len() == events@.len(),
        events@[k].parent_span_id is None ==> r@[k] == events@[k],
        (exists|i: int|
            0 <= i < events@.len() && (#[trigger] events@[i]).span_id is Some && events@[k].parent_span_id is Some
                && events@[i].span_id->0@ == events@[k].parent_span_id->0@) ==> r@[k] == events@[k],
        r@[k] != events@[k] ==> {
            &&& r@[k].parent_span_id is Some
            &&& exists|i: int|
                0 <= i < events@.len() && (#[trigger] events@[i]).span_id is Some
                    && events@[i].span_id->0@ == r@[k].parent_span_id->0@
            &&& r@[k] == (LlmEvent {
                parent_span_id: r@[k].parent_span_id,
                metadata: r@[k].metadata,
                ..events@[k]
            })
            &&& field(events@[k].metadata@, "otel"@) matches Some(JsonView::Obj(o)) ==> {
                &&& field(r@[k].metadata@, "otel"@) is Some
                &&& field(field(r@[k].metadata@, "otel"@)->0, "otlp_parent_span_id"@) == Some(
                    JsonView::Str(events@[k].parent_span_id->0@),
                )
                &&& field(field(r@[k].metadata@, "otel"@)->0, other) == field(JsonView::Obj(o), other)
            }
        },
{
    let links = links_of(spans_in(spans@));
    let mapped = mapped_ids(events@);
    let ev = events@[k];
    assert(mended(r@[k], ev, links, mapped));
    mapped_are_span_ids(events@);
    if ev.parent_span_id is Some {
        let p = ev.parent_span_id->0@;
        if exists|i: int|
            0 <= i < events@.len() && (#[trigger] events@[i]).span_id is Some && events@[i].span_id->0@ == p {
            let i = choose|i: int|
                0 <= i < events@.len() && (#[trigger] events@[i]).span_id is Some && events@[i].span_id->0@ == p;
            assert(mapped.contains(events@[i].span_id->0@));
        }
        the_new_parent_is_the_nearest_ancestor(links, mapped, p, MAX_ANCESTOR_HOPS as nat);
        if moves_to(ev, links, mapped) is Some {
            let a = moves_to(ev, links, mapped)->0;
            assert(mapped.contains(a));
            if let Some(JsonView::Obj(o)) = field(ev.metadata@, "otel"@) {
                let m = ev.metadata@->Obj_0;
                let q = JsonView::Obj(put(o, "otlp_parent_span_id"@, JsonView::Str(p)));
                crate::json::put_reads_back(m, "otel"@, q, "otel"@);
                crate::json::put_reads_back(
                    o,
                    "otlp_parent_span_id"@,
                    JsonView::Str(p),
                    "otlp_parent_span_id"@,
                );
                crate::json::put_reads_back(o, "otlp_parent_span_id"@, JsonView::Str(p), other);
            }
        }
    }
}

/// The exporter's own parent is kept beside whatever else is recorded of the span, and nothing else of the
/// metadata is changed.
pub proof fn the_original_parent_reads_back(v: Json, original: &str, r: Json, other: Seq<char>)
    requires
        call_ensures(record_original_parent, (v, original), r),
        v@ is Obj,
        field(v@, "otel"@) is None || field(v@, "otel"@)->0 is Obj,
    ensures
        field(r@, "otel"@) is Some,
        field(field(r@, "otel"@)->0, "otlp_parent_span_id"@) == Some(JsonView::Str(original@)),
        other != "otel"@ ==> field(r@, other) == field(v@, other),
        other != "otlp_parent_span_id"@ && field(v@, "otel"@) is Some ==> field(
            field(r@, "otel"@)->0,
            other,
        ) == field(field(v@, "otel"@)->0, other),
{
    let o = match field(v@, "otel"@) {
        Some(x) => x->Obj_0,
        None => seq![],
    };
    crate::json::put_reads_back(o, "otlp_parent_span_id"@, JsonView::Str(original@), other);
    crate::json::put_reads_back(
        v@->Obj_0,
        "otel"@,
        JsonView::Obj(put(o, "otlp_parent_span_id"@, JsonView::Str(original@))),
        other,
    );
}

} // verus!
