//! What a ledger of refusals reports over a history of calls: every refusal once, and none twice.
use vstd::prelude::*;

use crate::rejections::{
    counted, filed, has_key, marked, news, pruned, recent, reported, settled, BucketKey,
    BucketView, LedgerView, NewsLine,
};
use crate::seqs::{first_where, first_where_none, first_where_some};

verus! {

/// One call on a ledger.
pub enum Call {
    /// A refusal is filed.
    Record(BucketKey, int, int),
    /// What is new is reported.
    Report(int),
    /// A status page is read.
    Look(int),
}

impl Call {
    /// When the call is made.
    pub open spec fn at(self) -> int {
        match self {
            Call::Record(_, _, now) => now,
            Call::Report(now) => now,
            Call::Look(now) => now,
        }
    }
}

/// A ledger after one call.
pub open spec fn after(l: LedgerView, c: Call) -> LedgerView {
    match c {
        Call::Record(k, cost, now) => filed(l, k, cost, now),
        Call::Report(now) => reported(pruned(l, now)),
        Call::Look(now) => pruned(l, now),
    }
}

/// A ledger that has seen nothing.
pub open spec fn blank_ledger() -> LedgerView {
    LedgerView { buckets: seq![], last_prune: 0 }
}

/// The ledger after a history of calls.
pub open spec fn run(h: Seq<Call>) -> LedgerView
    decreases h.len(),
{
    if h.len() == 0 {
        blank_ledger()
    } else {
        after(run(h.drop_last()), h.last())
    }
}

/// How many refusals a history files under `k`.
pub open spec fn records(h: Seq<Call>, k: BucketKey) -> int
    decreases h.len(),
{
    if h.len() == 0 {
        0
    } else {
        records(h.drop_last(), k) + (match h.last() {
            Call::Record(x, _, _) => if x == k {
                1int
            } else {
                0
            },
            _ => 0,
        })
    }
}

/// How many refusals some report lines tell of under `k`.
pub open spec fn told(lines: Seq<NewsLine>, k: BucketKey) -> int
    decreases lines.len(),
{
    if lines.len() == 0 {
        0
    } else {
        told(lines.drop_last(), k) + (if lines.last().key == k {
            lines.last().count
        } else {
            0
        })
    }
}

/// What a report at `now` says.
pub open spec fn report_at(l: LedgerView, now: int) -> Seq<NewsLine> {
    news(pruned(l, now).buckets)
}

/// How many refusals all the reports of a history tell of under `k`.
pub open spec fn told_in_all(h: Seq<Call>, k: BucketKey) -> int
    decreases h.len(),
{
    if h.len() == 0 {
        0
    } else {
        told_in_all(h.drop_last(), k) + (match h.last() {
            Call::Report(now) => told(report_at(run(h.drop_last()), now), k),
            _ => 0,
        })
    }
}

/// Whether the bucket of `k` never goes a day without a hit: it is recent at every call.
pub open spec fn never_quiet(h: Seq<Call>, k: BucketKey) -> bool {
    forall|i: int, j: int|
        0 <= i < h.len() && 0 <= j < run(h.take(i)).buckets.len() && (#[trigger] run(
            h.take(i),
        ).buckets[j]).key == k ==> recent((#[trigger] h[i]).at())(run(h.take(i)).buckets[j])
}

/// Whether no refusal is filed from call `from` on.
pub open spec fn no_record_since(h: Seq<Call>, from: int) -> bool {
    forall|i: int| from <= i < h.len() ==> !((#[trigger] h[i]) is Record)
}

/// Whether nothing is reported from call `from` on.
pub open spec fn no_report_since(h: Seq<Call>, from: int) -> bool {
    forall|i: int| from <= i < h.len() ==> !((#[trigger] h[i]) is Report)
}

// ------------------------------------------------------------------ sums over buckets

spec fn all_counted(b: Seq<BucketView>, k: BucketKey) -> int
    decreases b.len(),
{
    if b.len() == 0 {
        0
    } else {
        all_counted(b.drop_last(), k) + (if b.last().key == k {
            b.last().count
        } else {
            0
        })
    }
}

spec fn all_flushed(b: Seq<BucketView>, k: BucketKey) -> int
    decreases b.len(),
{
    if b.len() == 0 {
        0
    } else {
        all_flushed(b.drop_last(), k) + (if b.last().key == k {
            b.last().flushed_count
        } else {
            0
        })
    }
}

/// What was reported is part of what was counted.
spec fn in_step(b: Seq<BucketView>) -> bool {
    forall|i: int| 0 <= i < b.len() ==> (#[trigger] b[i]).flushed_count <= b[i].count
}

spec fn kept_by(b: Seq<BucketView>, k: BucketKey, p: spec_fn(BucketView) -> bool) -> bool {
    forall|i: int| 0 <= i < b.len() && (#[trigger] b[i]).key == k ==> p(b[i])
}

proof fn filter_sums(b: Seq<BucketView>, k: BucketKey, p: spec_fn(BucketView) -> bool)
    requires
        kept_by(b, k, p),
    ensures
        all_counted(b.filter(p), k) == all_counted(b, k),
        all_flushed(b.filter(p), k) == all_flushed(b, k),
    decreases b.len(),
{
    reveal(Seq::filter);
    if b.len() > 0 {
        let d = b.drop_last();
        assert forall|i: int| 0 <= i < d.len() && (#[trigger] d[i]).key == k implies p(d[i]) by {
            assert(b[i].key == k);
        }
        filter_sums(d, k, p);
        assert(b.last().key == k ==> p(b[b.len() - 1]));
        if p(b.last()) {
            assert(b.filter(p) =~= d.filter(p).push(b.last()));
            assert(b.filter(p).drop_last() =~= d.filter(p));
        }
    }
}

proof fn filter_in_step(b: Seq<BucketView>, p: spec_fn(BucketView) -> bool)
    requires
        in_step(b),
    ensures
        in_step(b.filter(p)),
{
    crate::seqs::filter_members(b, p);
    assert forall|i: int| 0 <= i < b.filter(p).len() implies (#[trigger] b.filter(p)[i]).flushed_count
        <= b.filter(p)[i].count by {
        assert(b.contains(b.filter(p)[i]));
        let j = choose|j: int| 0 <= j < b.len() && b[j] == b.filter(p)[i];
        assert(b[j].flushed_count <= b[j].count);
    }
}

proof fn update_sums(b: Seq<BucketView>, i: int, x: BucketView, k: BucketKey)
    requires
        0 <= i < b.len(),
        x.key == b[i].key,
    ensures
        all_counted(b.update(i, x), k) == all_counted(b, k) + (if x.key == k {
            x.count - b[i].count
        } else {
            0
        }),
        all_flushed(b.update(i, x), k) == all_flushed(b, k) + (if x.key == k {
            x.flushed_count - b[i].flushed_count
        } else {
            0
        }),
    decreases b.len(),
{
    if i == b.len() - 1 {
        assert(b.update(i, x).drop_last() =~= b.drop_last());
    } else {
        update_sums(b.drop_last(), i, x, k);
        assert(b.update(i, x).drop_last() =~= b.drop_last().update(i, x));
    }
}

proof fn marked_sums(b: Seq<BucketView>, k: BucketKey)
    ensures
        all_counted(b.map_values(marked()), k) == all_counted(b, k),
        all_flushed(b.map_values(marked()), k) == all_counted(b, k),
        in_step(b.map_values(marked())),
    decreases b.len(),
{
    if b.len() > 0 {
        assert(b.map_values(marked()).drop_last() =~= b.drop_last().map_values(marked()));
        marked_sums(b.drop_last(), k);
    }
}

/// A report tells of exactly what is counted and not yet reported, and no line of it is empty.
proof fn news_sums(b: Seq<BucketView>, k: BucketKey)
    requires
        in_step(b),
    ensures
        told(news(b), k) == all_counted(b, k) - all_flushed(b, k),
        forall|i: int| 0 <= i < news(b).len() ==> (#[trigger] news(b)[i]).count > 0,
    decreases b.len(),
{
    if b.len() > 0 {
        let d = b.drop_last();
        assert forall|i: int| 0 <= i < d.len() implies (#[trigger] d[i]).flushed_count
            <= d[i].count by {
            assert(b[i].flushed_count <= b[i].count);
        }
        news_sums(d, k);
        assert(b[b.len() - 1].flushed_count <= b[b.len() - 1].count);
        if b.last().count > b.last().flushed_count {
            assert(news(b).drop_last() =~= news(d));
        }
    }
}

proof fn filed_sums(l: LedgerView, x: BucketKey, cost: int, now: int, k: BucketKey)
    requires
        in_step(l.buckets),
        kept_by(l.buckets, k, recent(now)),
    ensures
        in_step(filed(l, x, cost, now).buckets),
        all_counted(filed(l, x, cost, now).buckets, k) == all_counted(l.buckets, k) + (if x == k {
            1int
        } else {
            0
        }),
        all_flushed(filed(l, x, cost, now).buckets, k) == all_flushed(l.buckets, k),
{
    let s = settled(l, now);
    filter_sums(l.buckets, k, recent(now));
    filter_in_step(l.buckets, recent(now));
    let p = has_key(x);
    let f = filed(l, x, cost, now).buckets;
    if exists|i: int| 0 <= i < s.buckets.len() && p(#[trigger] s.buckets[i]) {
        let c = choose|i: int| 0 <= i < s.buckets.len() && p(#[trigger] s.buckets[i]);
        first_where_some(s.buckets, p, c);
        let i = first_where(s.buckets, p)->0;
        update_sums(s.buckets, i, f[i], k);
        assert(f =~= s.buckets.update(i, f[i]));
        assert forall|j: int| 0 <= j < f.len() implies (#[trigger] f[j]).flushed_count
            <= f[j].count by {
            assert(s.buckets[j].flushed_count <= s.buckets[j].count);
        }
    } else {
        first_where_none(s.buckets, p);
        assert(f.drop_last() =~= s.buckets);
        assert forall|j: int| 0 <= j < f.len() implies (#[trigger] f[j]).flushed_count
            <= f[j].count by {
            if j < s.buckets.len() {
                assert(s.buckets[j].flushed_count <= s.buckets[j].count);
            }
        }
    }
}

proof fn one_call_less(h: Seq<Call>, k: BucketKey)
    requires
        h.len() > 0,
        never_quiet(h, k),
    ensures
        never_quiet(h.drop_last(), k),
        kept_by(run(h.drop_last()).buckets, k, recent(h.last().at())),
{
    let d = h.drop_last();
    let n = h.len() - 1;
    assert(h.take(n) =~= d);
    assert forall|i: int, j: int|
        0 <= i < d.len() && 0 <= j < run(d.take(i)).buckets.len() && (#[trigger] run(
            d.take(i),
        ).buckets[j]).key == k implies recent((#[trigger] d[i]).at())(run(d.take(i)).buckets[j]) by {
        assert(d.take(i) =~= h.take(i));
        assert(h[i] == d[i]);
    }
    let b = run(d).buckets;
    assert forall|j: int| 0 <= j < b.len() && (#[trigger] b[j]).key == k implies recent(
        h.last().at(),
    )(b[j]) by {
        assert(run(h.take(n)).buckets[j].key == k);
        assert(h[n] == h.last());
    }
}

proof fn sums_follow(h: Seq<Call>, k: BucketKey)
    requires
        never_quiet(h, k),
    ensures
        in_step(run(h).buckets),
        all_counted(run(h).buckets, k) == records(h, k),
        all_flushed(run(h).buckets, k) == told_in_all(h, k),
    decreases h.len(),
{
    if h.len() > 0 {
        let d = h.drop_last();
        one_call_less(h, k);
        sums_follow(d, k);
        let b = run(d).buckets;
        let now = h.last().at();
        filter_sums(b, k, recent(now));
        filter_in_step(b, recent(now));
        match h.last() {
            Call::Record(x, cost, t) => {
                filed_sums(run(d), x, cost, t, k);
            },
            Call::Report(t) => {
                news_sums(pruned(run(d), t).buckets, k);
                marked_sums(pruned(run(d), t).buckets, k);
            },
            Call::Look(_) => {},
        }
    }
}

// ------------------------------------------------------------------ laws

/// Reports add up: over any history of calls in which the bucket of `k` never goes a day without a hit,
/// all the reports together tell of exactly the refusals that were filed under `k` before the last of
/// them.
pub proof fn reports_add_up(h: Seq<Call>, k: BucketKey, last: int)
    requires
        never_quiet(h, k),
        0 <= last < h.len(),
        h[last] is Report,
        no_report_since(h, last + 1),
    ensures
        told_in_all(h, k) == records(h.take(last), k),
    decreases h.len(),
{
    let d = h.drop_last();
    one_call_less(h, k);
    if last == h.len() - 1 {
        sums_follow(h, k);
        sums_follow(d, k);
        filter_sums(run(d).buckets, k, recent(h.last().at()));
        marked_sums(pruned(run(d), h.last().at()).buckets, k);
        assert(h.take(last) =~= d);
    } else {
        assert(d[last] == h[last]);
        assert forall|i: int| last + 1 <= i < d.len() implies !((#[trigger] d[i]) is Report) by {
            assert(h[i] == d[i]);
        }
        reports_add_up(d, k, last);
        assert(d.take(last) =~= h.take(last));
        assert(!(h[h.len() - 1] is Report));
    }
}

/// No report tells of nothing: every line of it counts at least one refusal.
pub proof fn no_line_is_empty(h: Seq<Call>, now: int)
    ensures
        forall|i: int| 0 <= i < report_at(run(h), now).len() ==> (#[trigger] report_at(run(h), now)[i]).count > 0,
{
    lines_are_positive(pruned(run(h), now).buckets);
}

proof fn lines_are_positive(b: Seq<BucketView>)
    ensures
        forall|i: int| 0 <= i < news(b).len() ==> (#[trigger] news(b)[i]).count > 0,
    decreases b.len(),
{
    if b.len() > 0 {
        lines_are_positive(b.drop_last());
    }
}

/// What was reported is not reported again: a report with no refusal filed since the one before is
/// empty.
pub proof fn reported_is_not_reported_again(h: Seq<Call>, last: int, now: int)
    requires
        0 <= last < h.len(),
        h[last] is Report,
        no_record_since(h, last + 1),
    ensures
        report_at(run(h), now).len() == 0,
{
    all_told_stays(h, last);
    told_after_prune(run(h).buckets, now);
    nothing_new(pruned(run(h), now).buckets);
}

spec fn all_told(b: Seq<BucketView>) -> bool {
    forall|i: int| 0 <= i < b.len() ==> (#[trigger] b[i]).flushed_count == b[i].count
}

proof fn told_after_prune(b: Seq<BucketView>, now: int)
    requires
        all_told(b),
    ensures
        all_told(b.filter(recent(now))),
{
    let p = recent(now);
    crate::seqs::filter_members(b, p);
    assert forall|i: int| 0 <= i < b.filter(p).len() implies (#[trigger] b.filter(p)[i]).flushed_count
        == b.filter(p)[i].count by {
        assert(b.contains(b.filter(p)[i]));
        let j = choose|j: int| 0 <= j < b.len() && b[j] == b.filter(p)[i];
        assert(b[j].flushed_count == b[j].count);
    }
}

proof fn all_told_stays(h: Seq<Call>, last: int)
    requires
        0 <= last < h.len(),
        h[last] is Report,
        no_record_since(h, last + 1),
    ensures
        all_told(run(h).buckets),
    decreases h.len(),
{
    let d = h.drop_last();
    let n = h.len() - 1;
    assert(h[n] == h.last());
    if last < n {
        assert(d[last] == h[last]);
        assert forall|i: int| last + 1 <= i < d.len() implies !((#[trigger] d[i]) is Record) by {
            assert(h[i] == d[i]);
        }
        all_told_stays(d, last);
        told_after_prune(run(d).buckets, h.last().at());
    }
}

proof fn nothing_new(b: Seq<BucketView>)
    requires
        all_told(b),
    ensures
        news(b).len() == 0,
    decreases b.len(),
{
    if b.len() > 0 {
        let d = b.drop_last();
        assert forall|i: int| 0 <= i < d.len() implies (#[trigger] d[i]).flushed_count
            == d[i].count by {
            assert(b[i].flushed_count == b[i].count);
        }
        nothing_new(d);
        assert(b[b.len() - 1].flushed_count == b[b.len() - 1].count);
    }
}

/// A report leaves the running counts alone: a status page shows after it what it would have shown
/// before.
pub proof fn a_report_keeps_the_counts(l: LedgerView, k: BucketKey, now: int)
    ensures
        counted(after(l, Call::Report(now)), k) == counted(after(l, Call::Look(now)), k),
{
    let a = pruned(l, now).buckets;
    let b = reported(pruned(l, now)).buckets;
    let p = has_key(k);
    if exists|i: int| 0 <= i < a.len() && p(#[trigger] a[i]) {
        let c = choose|i: int| 0 <= i < a.len() && p(#[trigger] a[i]);
        first_where_some(a, p, c);
        let i = first_where(a, p)->0;
        assert forall|j: int| 0 <= j < i implies !p(#[trigger] b[j]) by {
            assert(!p(a[j]));
        }
        crate::seqs::first_where_is(b, p, i);
    } else {
        first_where_none(a, p);
        assert forall|j: int| 0 <= j < b.len() implies !p(#[trigger] b[j]) by {
            assert(!p(a[j]));
        }
        first_where_none(b, p);
    }
}

} // verus!
