//! A rolling ledger of the ingest attempts that limits turned away. It counts, it forgets what has
//! been quiet for a day, and it reports what is new since the last report.
use vstd::prelude::*;

use crate::clock::{Timestamp, NANOS_PER_SEC};
use crate::limit::{copy_scope, LimitMetric, LimitScope, LimitWindow};
use crate::order::{
    goes_first, is_stable_order, key_views, ranked, stable_order, KeyView, SortKey,
};
use crate::seqs::{
    filter_keeps, filter_members, filter_step, first_where, first_where_is, first_where_none,
    first_where_some,
};
use crate::text::{quote, quoted, same};

verus! {

/// How long a bucket stays live after its last hit, in seconds.
pub const TTL_SECS: i64 = 86_400;

/// The least time between two prunes on the recording path, in seconds.
pub const PRUNE_INTERVAL_SECS: i64 = 60;

/// What was refused, where and under which cap. Costs are in picodollars.
#[derive(Debug)]
pub struct Bucket {
    pub project: String,
    pub metric: LimitMetric,
    pub window: LimitWindow,
    pub scope: Option<LimitScope>,
    pub count: u64,
    pub cost: u128,
    pub first_ts: Timestamp,
    pub last_ts: Timestamp,
    /// How much of `count` has already been reported.
    pub flushed_count: u64,
    /// How much of `cost` has already been reported.
    pub flushed_cost: u128,
}

/// A bucket's identity.
pub struct BucketKey {
    pub project: Seq<char>,
    pub metric: LimitMetric,
    pub window: LimitWindow,
    pub scope: Option<(Seq<char>, Seq<char>)>,
}

/// A scope by kind and value.
pub open spec fn scope_view(s: Option<LimitScope>) -> Option<(Seq<char>, Seq<char>)> {
    match s {
        Some(x) => Some((x.kind(), x.what())),
        None => None,
    }
}

/// The identity under which a refusal is filed.
pub open spec fn key_of(
    project: Seq<char>,
    metric: LimitMetric,
    window: LimitWindow,
    scope: Option<LimitScope>,
) -> BucketKey {
    BucketKey { project, metric, window, scope: scope_view(scope) }
}

impl BucketKey {
    /// The rule's name in a report: metric and window, and the scope where there is one.
    pub open spec fn label(self) -> Seq<char> {
        let head = self.metric.name() + "/"@ + self.window.name();
        match self.scope {
            Some((kind, what)) => head + " ["@ + (kind + "="@ + what) + "]"@,
            None => head,
        }
    }
}

impl Bucket {
    /// This bucket's identity.
    pub open spec fn key(self) -> BucketKey {
        key_of(self.project@, self.metric, self.window, self.scope)
    }

    /// Whether the bucket was hit within a day of `now`.
    pub open spec fn live(self, now: Timestamp) -> bool {
        now.nanos - self.last_ts.nanos < TTL_SECS * NANOS_PER_SEC
    }

    /// Whether the figures fit together: what was reported is part of what was counted, and every
    /// refusal added at most one event's cost.
    pub open spec fn wf(self) -> bool {
        &&& 1 <= self.count
        &&& self.flushed_count <= self.count
        &&& self.flushed_cost <= self.cost <= self.count * u64::MAX
        &&& self.flushed_count == self.count ==> self.flushed_cost == self.cost
        &&& self.last_ts.valid()
    }

    /// The bucket with everything reported.
    pub open spec fn reported(self) -> Bucket {
        Bucket { flushed_count: self.count, flushed_cost: self.cost, ..self }
    }

    /// The text by which buckets of equal count are told apart in a listing.
    pub open spec fn sort_label(self) -> Seq<char> {
        self.metric.name() + "/"@ + self.window.name() + "/"@ + scope_debug(self.scope)
    }
}

/// A scope's variant name.
pub open spec fn variant_name(s: LimitScope) -> Seq<char> {
    match s {
        LimitScope::Provider(_) => "Provider"@,
        LimitScope::Model(_) => "Model"@,
        LimitScope::Name(_) => "Name"@,
        LimitScope::ApiKey(_) => "ApiKey"@,
        LimitScope::Customer(_) => "Customer"@,
    }
}

/// An optional scope, spelled out with its variant.
pub open spec fn scope_debug(s: Option<LimitScope>) -> Seq<char> {
    match s {
        Some(x) => "Some("@ + variant_name(x) + "("@ + quoted(x.what()) + "))"@,
        None => "None"@,
    }
}

/// What is new in one bucket since the last report.
#[derive(Debug)]
pub struct Delta {
    pub project: String,
    pub label: String,
    pub count: u64,
    pub cost: u128,
}

/// One bucket as a status page shows it.
#[derive(Debug)]
pub struct RejectionStat {
    pub metric: LimitMetric,
    pub window: LimitWindow,
    pub scope: Option<LimitScope>,
    pub count: u64,
    pub est_missed_cost: u128,
    pub first_ts: Timestamp,
    pub last_ts: Timestamp,
}

/// The ledger.
#[derive(Debug)]
pub struct RejectionLedger {
    pub buckets: Vec<Bucket>,
    /// Epoch seconds of the last prune on the recording path.
    pub last_prune: i64,
}

/// The buckets of `b` that are still live at `now`, in order.
pub open spec fn live_buckets(b: Seq<Bucket>, now: Timestamp) -> Seq<Bucket> {
    b.filter(|x: Bucket| x.live(now))
}

/// Whether no two buckets share an identity.
pub open spec fn distinct_keys(b: Seq<Bucket>) -> bool {
    forall|i: int, j: int| 0 <= i < j < b.len() ==> (#[trigger] b[i]).key() != (#[trigger] b[j]).key()
}

/// Whether every bucket is sound and no two share an identity.
pub open spec fn sound(b: Seq<Bucket>) -> bool {
    &&& distinct_keys(b)
    &&& forall|i: int| 0 <= i < b.len() ==> (#[trigger] b[i]).wf()
}

/// Whether some bucket has the identity `k`.
pub open spec fn holds_key(b: Seq<Bucket>, k: BucketKey) -> bool {
    exists|i: int| 0 <= i < b.len() && (#[trigger] b[i]).key() == k
}

/// Whether the recording path is due to prune.
pub open spec fn prune_due(last_prune: i64, now: Timestamp) -> bool {
    now.nanos as int / NANOS_PER_SEC as int - last_prune >= PRUNE_INTERVAL_SECS
}

/// A report line as plain values.
pub open spec fn delta_views(d: Seq<Delta>) -> Seq<(Seq<char>, Seq<char>, int, int)> {
    d.map_values(|x: Delta| (x.project@, x.label@, x.count as int, x.cost as int))
}

/// What listing `b` shows of it.
pub open spec fn shows(s: RejectionStat, b: Bucket) -> bool {
    &&& s.metric == b.metric
    &&& s.window == b.window
    &&& s.scope == b.scope
    &&& s.count == b.count
    &&& s.est_missed_cost == b.cost
    &&& s.first_ts == b.first_ts
    &&& s.last_ts == b.last_ts
}

/// The buckets of one project, in order.
pub open spec fn of_project(b: Seq<Bucket>, project: Seq<char>) -> Seq<Bucket> {
    b.filter(|x: Bucket| x.project@ == project)
}

/// How buckets are ranked in a listing: the most refusals first, then by label.
pub open spec fn listing_keys(b: Seq<Bucket>) -> Seq<KeyView> {
    b.map_values(
        |x: Bucket|
            KeyView { major: -(x.count as int), text: x.sort_label(), minor: 0, tail: ""@ },
    )
}

/// A bucket as plain values.
pub struct BucketView {
    pub key: BucketKey,
    pub count: int,
    pub cost: int,
    pub first: int,
    pub last: int,
    pub flushed_count: int,
    pub flushed_cost: int,
}

impl View for Bucket {
    type V = BucketView;

    open spec fn view(&self) -> BucketView {
        BucketView {
            key: self.key(),
            count: self.count as int,
            cost: self.cost as int,
            first: self.first_ts.nanos as int,
            last: self.last_ts.nanos as int,
            flushed_count: self.flushed_count as int,
            flushed_cost: self.flushed_cost as int,
        }
    }
}

/// A ledger as plain values.
pub struct LedgerView {
    pub buckets: Seq<BucketView>,
    pub last_prune: int,
}

impl View for RejectionLedger {
    type V = LedgerView;

    open spec fn view(&self) -> LedgerView {
        LedgerView {
            buckets: self.buckets@.map_values(|b: Bucket| b@),
            last_prune: self.last_prune as int,
        }
    }
}

/// Whether a bucket was hit within a day of `now`.
pub open spec fn recent(now: int) -> spec_fn(BucketView) -> bool {
    |b: BucketView| now - b.last < TTL_SECS * NANOS_PER_SEC
}

/// The ledger as a refusal at `now` finds it: pruned, when a minute has passed since the last prune.
pub open spec fn settled(l: LedgerView, now: int) -> LedgerView {
    if now / NANOS_PER_SEC as int - l.last_prune >= PRUNE_INTERVAL_SECS {
        LedgerView {
            buckets: l.buckets.filter(recent(now)),
            last_prune: now / NANOS_PER_SEC as int,
        }
    } else {
        l
    }
}

/// The ledger without what has been quiet for a day.
pub open spec fn pruned(l: LedgerView, now: int) -> LedgerView {
    LedgerView { buckets: l.buckets.filter(recent(now)), ..l }
}

/// A bucket with everything reported.
pub open spec fn marked() -> spec_fn(BucketView) -> BucketView {
    |b: BucketView| BucketView { flushed_count: b.count, flushed_cost: b.cost, ..b }
}

/// The ledger with everything reported.
pub open spec fn reported(l: LedgerView) -> LedgerView {
    LedgerView { buckets: l.buckets.map_values(marked()), ..l }
}

/// One line of a report: the identity, and how many refusals of what cost are new under it.
pub struct NewsLine {
    pub key: BucketKey,
    pub count: int,
    pub cost: int,
}

/// What a report says: one line for every bucket with something new, in the buckets' order.
pub open spec fn news(b: Seq<BucketView>) -> Seq<NewsLine>
    decreases b.len(),
{
    if b.len() == 0 {
        seq![]
    } else {
        let rest = news(b.drop_last());
        let x = b.last();
        if x.count > x.flushed_count {
            rest.push(
                NewsLine {
                    key: x.key,
                    count: x.count - x.flushed_count,
                    cost: x.cost - x.flushed_cost,
                },
            )
        } else {
            rest
        }
    }
}

/// A report as it is worded: project, rule, count and cost of each line.
pub open spec fn worded(n: Seq<NewsLine>) -> Seq<(Seq<char>, Seq<char>, int, int)> {
    n.map_values(|x: NewsLine| (x.key.project, x.key.label(), x.count, x.cost))
}

/// Whether bucket `i` has the identity `k`.
pub open spec fn has_key(k: BucketKey) -> spec_fn(BucketView) -> bool {
    |b: BucketView| b.key == k
}

/// The ledger after one refusal under `k` at `now`.
pub open spec fn filed(l: LedgerView, k: BucketKey, cost: int, now: int) -> LedgerView {
    let s = settled(l, now);
    match first_where(s.buckets, has_key(k)) {
        Some(i) => LedgerView {
            buckets: s.buckets.update(
                i,
                BucketView {
                    count: s.buckets[i].count + 1,
                    cost: s.buckets[i].cost + cost,
                    last: now,
                    ..s.buckets[i]
                },
            ),
            ..s
        },
        None => LedgerView {
            buckets: s.buckets.push(
                BucketView {
                    key: k,
                    count: 1,
                    cost,
                    first: now,
                    last: now,
                    flushed_count: 0,
                    flushed_cost: 0,
                },
            ),
            ..s
        },
    }
}

/// How many refusals are counted under `k`.
pub open spec fn counted(l: LedgerView, k: BucketKey) -> int {
    match first_where(l.buckets, has_key(k)) {
        Some(i) => l.buckets[i].count,
        None => 0,
    }
}

proof fn live_views(b: Seq<Bucket>, now: Timestamp)
    ensures
        live_buckets(b, now).map_values(|x: Bucket| x@) == b.map_values(|x: Bucket| x@).filter(
            recent(now.nanos as int),
        ),
    decreases b.len(),
{
    reveal(Seq::filter);
    let v = |x: Bucket| x@;
    if b.len() > 0 {
        live_views(b.drop_last(), now);
        assert(b.map_values(v).drop_last() =~= b.drop_last().map_values(v));
        assert(live_buckets(b, now).map_values(v) =~= b.map_values(v).filter(
            recent(now.nanos as int),
        ));
    } else {
        assert(live_buckets(b, now).map_values(v) =~= b.map_values(v).filter(
            recent(now.nanos as int),
        ));
    }
}

proof fn filter_keeps_sound(b: Seq<Bucket>, p: spec_fn(Bucket) -> bool)
    requires
        sound(b),
    ensures
        sound(b.filter(p)),
        forall|k: BucketKey| holds_key(b.filter(p), k) ==> holds_key(b, k),
    decreases b.len(),
{
    reveal(Seq::filter);
    if b.len() > 0 {
        let d = b.drop_last();
        assert(sound(d)) by {
            assert forall|i: int, j: int| 0 <= i < j < d.len() implies (#[trigger] d[i]).key() != (
            #[trigger] d[j]).key() by {
                assert(b[i].key() != b[j].key());
            }
            assert forall|i: int| 0 <= i < d.len() implies (#[trigger] d[i]).wf() by {
                assert(b[i].wf());
            }
        }
        filter_keeps_sound(d, p);
        let f = d.filter(p);
        assert forall|k: BucketKey| holds_key(d, k) implies holds_key(b, k) by {
            let i = choose|i: int| 0 <= i < d.len() && (#[trigger] d[i]).key() == k;
            assert(b[i].key() == k);
        }
        if p(b.last()) {
            let g = f.push(b.last());
            assert(!holds_key(d, b.last().key())) by {
                if holds_key(d, b.last().key()) {
                    let i = choose|i: int| 0 <= i < d.len() && (#[trigger] d[i]).key() == b.last().key();
                    assert(b[i].key() != b[b.len() - 1].key());
                }
            }
            assert forall|i: int, j: int| 0 <= i < j < g.len() implies (#[trigger] g[i]).key() != (
            #[trigger] g[j]).key() by {
                if j == f.len() {
                    assert(g[i] == f[i]);
                    assert(holds_key(f, f[i].key()));
                }
            }
            assert forall|i: int| 0 <= i < g.len() implies (#[trigger] g[i]).wf() by {
                if i < f.len() {
                    assert(g[i] == f[i]);
                } else {
                    assert(g[i] == b[b.len() - 1]);
                }
            }
            assert forall|k: BucketKey| holds_key(g, k) implies holds_key(b, k) by {
                let i = choose|i: int| 0 <= i < g.len() && (#[trigger] g[i]).key() == k;
                if i < f.len() {
                    assert(f[i].key() == k);
                } else {
                    assert(b[b.len() - 1].key() == k);
                }
            }
        }
    }
}

/// Whether two optional scopes name the same slice.
pub fn same_scope(a: &Option<LimitScope>, b: &Option<LimitScope>) -> (r: bool)
    ensures
        r == (scope_view(*a) == scope_view(*b)),
{
    match (a, b) {
        (None, None) => true,
        (Some(x), Some(y)) => same(x.kind_str(), y.kind_str()) && same(x.value(), y.value()),
        _ => false,
    }
}

fn variant_of(s: &LimitScope) -> (r: &'static str)
    ensures
        r@ == variant_name(*s),
{
    match s {
        LimitScope::Provider(_) => "Provider",
        LimitScope::Model(_) => "Model",
        LimitScope::Name(_) => "Name",
        LimitScope::ApiKey(_) => "ApiKey",
        LimitScope::Customer(_) => "Customer",
    }
}

impl Bucket {
    /// The same bucket again.
    pub fn copied(&self) -> (r: Bucket)
        ensures
            r == *self,
    {
        Bucket {
            project: self.project.clone(),
            metric: self.metric,
            window: self.window,
            scope: copy_scope(&self.scope),
            count: self.count,
            cost: self.cost,
            first_ts: self.first_ts,
            last_ts: self.last_ts,
            flushed_count: self.flushed_count,
            flushed_cost: self.flushed_cost,
        }
    }

    fn show_label(&self) -> (r: String)
        ensures
            r@ == self.key().label(),
    {
        let mut out = self.metric.show().to_owned();
        out.append("/");
        out.append(self.window.show());
        if let Some(s) = &self.scope {
            let l = s.label();
            out.append(" [");
            out.append(l.as_str());
            out.append("]");
        }
        out
    }

    fn show_sort_label(&self) -> (r: String)
        ensures
            r@ == self.sort_label(),
    {
        let mut out = self.metric.show().to_owned();
        out.append("/");
        out.append(self.window.show());
        out.append("/");
        match &self.scope {
            Some(s) => {
                let mut d = "Some(".to_owned();
                d.append(variant_of(s));
                d.append("(");
                let q = quote(s.value());
                d.append(q.as_str());
                d.append("))");
                out.append(d.as_str());
            },
            None => {
                out.append("None");
            },
        }
        out
    }
}

impl RejectionLedger {
    /// Whether the ledger is sound.
    pub open spec fn wf(self) -> bool {
        sound(self.buckets@)
    }

    /// An empty ledger.
    pub fn new() -> (r: RejectionLedger)
        ensures
            r.wf(),
            r@ == (LedgerView { buckets: seq![], last_prune: 0 }),
    {
        let r = RejectionLedger { buckets: Vec::new(), last_prune: 0 };
        assert(r@.buckets =~= seq![]);
        r
    }

    /// Drops the buckets that have been quiet for a day.
    pub fn prune(&mut self, now: Timestamp)
        requires
            old(self).wf(),
            now.valid(),
        ensures
            final(self).wf(),
            final(self).buckets@ == live_buckets(old(self).buckets@, now),
            final(self).last_prune == old(self).last_prune,
            final(self)@ == pruned(old(self)@, now.nanos as int),
    {
        let ghost p = |x: Bucket| x.live(now);
        let mut kept: Vec<Bucket> = Vec::new();
        let mut i: usize = 0;
        proof {
            reveal(Seq::filter);
            filter_keeps_sound(self.buckets@, p);
        }
        let ghost start = *self;
        while i < self.buckets.len()
            invariant
                *self == start,
                self.wf(),
                now.valid(),
                p == (|x: Bucket| x.live(now)),
                i <= self.buckets.len(),
                kept@ == self.buckets@.take(i as int).filter(p),
            decreases self.buckets.len() - i,
        {
            proof {
                filter_step(self.buckets@, i as int, p);
                assert(self.buckets@[i as int].wf());
            }
            let b = &self.buckets[i];
            if now.nanos - b.last_ts.nanos < (TTL_SECS as i128) * NANOS_PER_SEC {
                kept.push(b.copied());
            }
            i += 1;
        }
        assert(self.buckets@.take(i as int) =~= self.buckets@);
        self.buckets = kept;
        proof {
            live_views(start.buckets@, now);
        }
    }

    fn find(
        &self,
        project: &str,
        metric: LimitMetric,
        window: LimitWindow,
        scope: &Option<LimitScope>,
    ) -> (r: Option<usize>)
        ensures
            match r {
                Some(i) => i < self.buckets@.len() && self.buckets@[i as int].key() == key_of(
                    project@,
                    metric,
                    window,
                    *scope,
                ),
                None => !holds_key(self.buckets@, key_of(project@, metric, window, *scope)),
            },
    {
        let mut i: usize = 0;
        while i < self.buckets.len()
            invariant
                i <= self.buckets.len(),
                forall|j: int|
                    0 <= j < i ==> (#[trigger] self.buckets@[j]).key() != key_of(
                        project@,
                        metric,
                        window,
                        *scope,
                    ),
            decreases self.buckets.len() - i,
        {
            let b = &self.buckets[i];
            if same(b.project.as_str(), project) && b.metric == metric && b.window == window
                && same_scope(&b.scope, scope) {
                return Some(i);
            }
            i += 1;
        }
        None
    }

    /// Files one refusal at `now` with the cost the event would have had, and gives back how many
    /// refusals its bucket now counts. What has been quiet for a day is dropped first, at most once
    /// a minute; a bucket dropped that way starts over.
    pub fn record(
        &mut self,
        project: &str,
        metric: LimitMetric,
        window: LimitWindow,
        scope: &Option<LimitScope>,
        cost: u64,
        now: Timestamp,
    ) -> (r: u64)
        requires
            old(self).wf(),
            now.valid(),
            -9_000_000_000_000 <= old(self).last_prune <= 9_000_000_000_000,
            forall|i: int|
                0 <= i < old(self).buckets@.len() ==> (#[trigger] old(self).buckets@[i]).count < u64::MAX,
        ensures
            final(self).wf(),
            -9_000_000_000_000 <= final(self).last_prune <= 9_000_000_000_000,
            final(self)@ == filed(
                old(self)@,
                key_of(project@, metric, window, *scope),
                cost as int,
                now.nanos as int,
            ),
            r == counted(final(self)@, key_of(project@, metric, window, *scope)),
            forall|j: int|
                0 <= j < final(self).buckets@.len() ==> (#[trigger] final(self).buckets@[j]).count <= 1
                    || exists|m: int|
                    0 <= m < old(self).buckets@.len() && final(self).buckets@[j].count <= (
                    #[trigger] old(self).buckets@[m]).count + 1,
    {
        let now_s: i64 = now.epoch_secs();
        if now_s - self.last_prune >= PRUNE_INTERVAL_SECS {
            self.prune(now);
            self.last_prune = now_s;
            proof {
                filter_members(old(self).buckets@, |x: Bucket| x.live(now));
            }
        }
        let ghost b = self.buckets@;
        let ghost bv = b.map_values(|x: Bucket| x@);
        let ghost k = key_of(project@, metric, window, *scope);
        proof {
            live_views(old(self).buckets@, now);
            assert(self@ == settled(old(self)@, now.nanos as int));
        }
        assert forall|i: int| 0 <= i < b.len() implies old(self).buckets@.contains(
            #[trigger] b[i],
        ) by {
            if !prune_due(old(self).last_prune, now) {
                assert(b[i] == old(self).buckets@[i]);
            }
        }
        match self.find(project, metric, window, scope) {
            Some(i) => {
                let cur = self.buckets[i].copied();
                proof {
                    assert forall|c: int| 0 <= c < i implies !has_key(k)(#[trigger] bv[c]) by {
                        assert(b[c].key() != b[i as int].key());
                    }
                    assert(bv[i as int].key == k);
                    first_where_is(bv, has_key(k), i as int);
                    assert(b[i as int].wf());
                    assert(old(self).buckets@.contains(b[i as int]));
                    assert(cur.count * u64::MAX + u64::MAX == (cur.count + 1) * u64::MAX)
                        by (nonlinear_arith);
                    assert((cur.count + 1) * u64::MAX <= u64::MAX * u64::MAX) by (nonlinear_arith)
                        requires
                            cur.count + 1 <= u64::MAX,
                    ;
                    assert(u64::MAX * u64::MAX <= u128::MAX) by (nonlinear_arith);
                }
                let n: u64 = cur.count + 1;
                let total: u128 = cur.cost + cost as u128;
                let fresh = Bucket {
                    project: cur.project,
                    metric: cur.metric,
                    window: cur.window,
                    scope: cur.scope,
                    count: n,
                    cost: total,
                    first_ts: cur.first_ts,
                    last_ts: now,
                    flushed_count: cur.flushed_count,
                    flushed_cost: cur.flushed_cost,
                };
                assert(fresh.key() == b[i as int].key());
                self.buckets.set(i, fresh);
                proof {
                    let a = self.buckets@;
                    assert(a =~= b.update(i as int, fresh));
                    let av = a.map_values(|x: Bucket| x@);
                    assert(av =~= bv.update(i as int, fresh@));
                    assert(self@ == filed(old(self)@, k, cost as int, now.nanos as int));
                    assert forall|c: int| 0 <= c < i implies !has_key(k)(#[trigger] av[c]) by {
                        assert(av[c] == bv[c]);
                    }
                    first_where_is(av, has_key(k), i as int);
                    assert forall|j: int| 0 <= j < a.len() implies (#[trigger] a[j]).count <= 1
                        || exists|m: int|
                        0 <= m < old(self).buckets@.len() && a[j].count <= (
                        #[trigger] old(self).buckets@[m]).count + 1 by {
                        assert(old(self).buckets@.contains(b[j]));
                        let m = choose|m: int|
                            0 <= m < old(self).buckets@.len() && old(self).buckets@[m] == b[j];
                        assert(a[j].count <= old(self).buckets@[m].count + 1);
                    }
                    assert forall|x: int, y: int| 0 <= x < y < a.len() implies (
                    #[trigger] a[x]).key() != (#[trigger] a[y]).key() by {
                        assert(b[x].key() != b[y].key());
                    }
                    assert forall|x: int| 0 <= x < a.len() implies (#[trigger] a[x]).wf() by {
                        assert(b[x].wf());
                    }
                }
                n
            },
            None => {
                let fresh = Bucket {
                    project: project.to_owned(),
                    metric,
                    window,
                    scope: copy_scope(scope),
                    count: 1,
                    cost: cost as u128,
                    first_ts: now,
                    last_ts: now,
                    flushed_count: 0,
                    flushed_cost: 0,
                };
                self.buckets.push(fresh);
                proof {
                    let a = self.buckets@;
                    assert(a.drop_last() =~= b);
                    let av = a.map_values(|x: Bucket| x@);
                    assert forall|c: int| 0 <= c < bv.len() implies !has_key(k)(#[trigger] bv[c]) by {
                        assert(b[c].key() != k);
                    }
                    first_where_none(bv, has_key(k));
                    assert(av =~= bv.push(fresh@));
                    assert(self@ == filed(old(self)@, k, cost as int, now.nanos as int));
                    assert forall|c: int| 0 <= c < bv.len() implies !has_key(k)(#[trigger] av[c]) by {
                        assert(av[c] == bv[c]);
                    }
                    first_where_is(av, has_key(k), bv.len() as int);
                    assert forall|j: int| 0 <= j < a.len() implies (#[trigger] a[j]).count <= 1
                        || exists|m: int|
                        0 <= m < old(self).buckets@.len() && a[j].count <= (
                        #[trigger] old(self).buckets@[m]).count + 1 by {
                        if j < b.len() {
                            assert(a[j] == b[j]);
                            assert(old(self).buckets@.contains(b[j]));
                            let m = choose|m: int|
                                0 <= m < old(self).buckets@.len() && old(self).buckets@[m] == b[j];
                            assert(a[j].count <= old(self).buckets@[m].count + 1);
                        }
                    }
                    assert forall|x: int, y: int| 0 <= x < y < a.len() implies (
                    #[trigger] a[x]).key() != (#[trigger] a[y]).key() by {
                        if y < b.len() {
                            assert(b[x].key() != b[y].key());
                        } else {
                            assert(a[x] == b[x]);
                            assert(a[y].key() == k);
                        }
                    }
                    assert forall|x: int| 0 <= x < a.len() implies (#[trigger] a[x]).wf() by {
                        if x < b.len() {
                            assert(b[x].wf());
                        }
                    }
                }
                1
            },
        }
    }

    /// What has been refused since the last call, one line per bucket, and marks it reported. What
    /// has been quiet for a day is dropped first.
    pub fn take_deltas(&mut self, now: Timestamp) -> (r: Vec<Delta>)
        requires
            old(self).wf(),
            now.valid(),
        ensures
            final(self).wf(),
            final(self).last_prune == old(self).last_prune,
            delta_views(r@) == worded(news(pruned(old(self)@, now.nanos as int).buckets)),
            final(self)@ == reported(pruned(old(self)@, now.nanos as int)),
    {
        self.prune(now);
        let ghost b = self.buckets@;
        let ghost v = self@.buckets;
        let mut out: Vec<Delta> = Vec::new();
        let mut i: usize = 0;
        while i < self.buckets.len()
            invariant
                sound(b),
                self.last_prune == old(self).last_prune,
                i <= self.buckets@.len() == b.len(),
                v == b.map_values(|x: Bucket| x@),
                delta_views(out@) == worded(news(v.take(i as int))),
                forall|j: int| 0 <= j < i ==> (#[trigger] self.buckets@[j]) == b[j].reported(),
                forall|j: int| i <= j < b.len() ==> (#[trigger] self.buckets@[j]) == b[j],
            decreases self.buckets.len() - i,
        {
            let cur = self.buckets[i].copied();
            assert(b[i as int].wf());
            assert(v.take(i + 1).drop_last() =~= v.take(i as int));
            let ghost before = out@;
            let ghost told = news(v.take(i as int));
            if cur.count > cur.flushed_count {
                let d = Delta {
                    project: cur.project.clone(),
                    label: cur.show_label(),
                    count: cur.count - cur.flushed_count,
                    cost: cur.cost - cur.flushed_cost,
                };
                out.push(d);
                assert(delta_views(out@) =~= delta_views(before).push(
                    (d.project@, d.label@, d.count as int, d.cost as int),
                ));
                assert(worded(news(v.take(i + 1))) =~= worded(told).push(
                    (d.project@, d.label@, d.count as int, d.cost as int),
                ));
            }
            let fresh = Bucket {
                project: cur.project,
                metric: cur.metric,
                window: cur.window,
                scope: cur.scope,
                count: cur.count,
                cost: cur.cost,
                first_ts: cur.first_ts,
                last_ts: cur.last_ts,
                flushed_count: cur.count,
                flushed_cost: cur.cost,
            };
            self.buckets.set(i, fresh);
            i += 1;
        }
        proof {
            assert(v.take(i as int) =~= v);
            let a = self.buckets@;
            assert(self@.buckets =~= v.map_values(marked()));
            assert(a =~= b.map_values(|x: Bucket| x.reported()));
            assert forall|x: int, y: int| 0 <= x < y < a.len() implies (#[trigger] a[x]).key() != (
            #[trigger] a[y]).key() by {
                assert(b[x].key() != b[y].key());
                assert(a[x].key() == b[x].key());
                assert(a[y].key() == b[y].key());
            }
            assert forall|x: int| 0 <= x < a.len() implies (#[trigger] a[x]).wf() by {
                assert(b[x].wf());
            }
        }
        out
    }

    /// Every live bucket of `project`, the most refusals first and then by label. What has been quiet
    /// for a day is dropped first.
    pub fn snapshot(&mut self, project: &str, now: Timestamp) -> (r: Vec<RejectionStat>)
        requires
            old(self).wf(),
            now.valid(),
        ensures
            final(self).wf(),
            final(self).last_prune == old(self).last_prune,
            final(self).buckets@ == live_buckets(old(self).buckets@, now),
            final(self)@ == pruned(old(self)@, now.nanos as int),
            ({
                let rows = of_project(final(self).buckets@, project@);
                let order = ranked(listing_keys(rows));
                &&& is_stable_order(listing_keys(rows), order)
                &&& r@.len() == rows.len()
                &&& forall|p: int|
                    0 <= p < r@.len() ==> shows(#[trigger] r@[p], rows[order[p] as int])
            }),
    {
        self.prune(now);
        let ghost p = |x: Bucket| x.project@ == project@;
        let mut rows: Vec<Bucket> = Vec::new();
        let mut keys: Vec<SortKey> = Vec::new();
        let mut i: usize = 0;
        proof {
            reveal(Seq::filter);
        }
        while i < self.buckets.len()
            invariant
                p == (|x: Bucket| x.project@ == project@),
                i <= self.buckets.len(),
                rows@ == self.buckets@.take(i as int).filter(p),
                key_views(keys@) == listing_keys(rows@),
            decreases self.buckets.len() - i,
        {
            proof {
                filter_step(self.buckets@, i as int, p);
            }
            let b = &self.buckets[i];
            if same(b.project.as_str(), project) {
                let ghost rb = rows@;
                let ghost kb = keys@;
                rows.push(b.copied());
                keys.push(
                    SortKey {
                        major: -(b.count as i128),
                        text: b.show_sort_label(),
                        minor: 0,
                        tail: "".to_owned(),
                    },
                );
                assert(key_views(keys@) =~= key_views(kb).push(keys@.last()@));
                assert(listing_keys(rows@) =~= listing_keys(rb).push(
                    KeyView {
                        major: -(b.count as int),
                        text: b.sort_label(),
                        minor: 0,
                        tail: ""@,
                    },
                ));
            }
            i += 1;
        }
        assert(self.buckets@.take(i as int) =~= self.buckets@);
        assert(key_views(keys@).len() == listing_keys(rows@).len());
        let order = stable_order(&keys);
        let mut out: Vec<RejectionStat> = Vec::new();
        let mut q: usize = 0;
        while q < order.len()
            invariant
                q <= order.len() == rows.len(),
                out@.len() == q,
                forall|x: int| 0 <= x < order@.len() ==> (#[trigger] order@[x]) < rows@.len(),
                forall|x: int| 0 <= x < q ==> shows(#[trigger] out@[x], rows@[order@[x] as int]),
            decreases order.len() - q,
        {
            let b = &rows[order[q]];
            out.push(
                RejectionStat {
                    metric: b.metric,
                    window: b.window,
                    scope: copy_scope(&b.scope),
                    count: b.count,
                    est_missed_cost: b.cost,
                    first_ts: b.first_ts,
                    last_ts: b.last_ts,
                },
            );
            q += 1;
        }
        out
    }
}

/// Buckets do not mix: a refusal under one identity leaves the count under every other as the prune
/// left it.
pub proof fn keys_are_isolated(l: LedgerView, k: BucketKey, other: BucketKey, cost: int, now: int)
    requires
        k != other,
    ensures
        counted(filed(l, k, cost, now), other) == counted(settled(l, now), other),
{
    let s = settled(l, now).buckets;
    let f = filed(l, k, cost, now).buckets;
    let p = has_key(other);
    if exists|i: int| 0 <= i < s.len() && p(#[trigger] s[i]) {
        let c = choose|i: int| 0 <= i < s.len() && p(#[trigger] s[i]);
        first_where_some(s, p, c);
        let i = first_where(s, p)->0;
        assert(f[i] == s[i]);
        assert forall|j: int| 0 <= j < i implies !p(#[trigger] f[j]) by {
            assert(!p(s[j]));
        }
        first_where_is(f, p, i);
    } else {
        assert forall|j: int| 0 <= j < f.len() implies !p(#[trigger] f[j]) by {
            if j < s.len() {
                assert(!p(s[j]));
            }
        }
        first_where_none(f, p);
        first_where_none(s, p);
    }
}

/// Every refusal counts once: filing adds one to what the prune left under its identity.
pub proof fn filing_counts_once(l: LedgerView, k: BucketKey, cost: int, now: int)
    ensures
        counted(filed(l, k, cost, now), k) == counted(settled(l, now), k) + 1,
{
    let s = settled(l, now).buckets;
    let f = filed(l, k, cost, now).buckets;
    let p = has_key(k);
    if exists|i: int| 0 <= i < s.len() && p(#[trigger] s[i]) {
        let c = choose|i: int| 0 <= i < s.len() && p(#[trigger] s[i]);
        first_where_some(s, p, c);
        let i = first_where(s, p)->0;
        assert forall|j: int| 0 <= j < i implies !p(#[trigger] f[j]) by {
            assert(!p(s[j]));
        }
        first_where_is(f, p, i);
    } else {
        first_where_none(s, p);
        assert forall|j: int| 0 <= j < s.len() implies !p(#[trigger] f[j]) by {
            assert(!p(s[j]));
        }
        first_where_is(f, p, s.len() as int);
    }
}

/// Nothing that has been quiet for a day survives a prune, and everything else does.
pub proof fn prune_forgets_exactly_the_quiet(b: Seq<Bucket>, now: Timestamp)
    ensures
        forall|i: int|
            0 <= i < live_buckets(b, now).len() ==> (#[trigger] live_buckets(b, now)[i]).live(now),
        forall|i: int|
            0 <= i < b.len() && (#[trigger] b[i]).live(now) ==> live_buckets(b, now).contains(b[i]),
{
    let p = |x: Bucket| x.live(now);
    filter_members(b, p);
    assert forall|i: int| 0 <= i < b.len() && (#[trigger] b[i]).live(now) implies live_buckets(
        b,
        now,
    ).contains(b[i]) by {
        filter_keeps(b, p, i);
    }
}

// ------------------------------------------------------------------ what the ledger holds

/// Whether `after` holds what `before` holds but for what has been quiet for a day at `now`.
pub open spec fn forgets_the_quiet(before: Seq<BucketView>, after: Seq<BucketView>, now: int) -> bool {
    &&& forall|i: int|
        0 <= i < after.len() ==> before.contains(#[trigger] after[i]) && now - after[i].last
            < 86_400 * 1_000_000_000
    &&& forall|i: int|
        0 <= i < before.len() && now - (#[trigger] before[i]).last < 86_400 * 1_000_000_000
            ==> after.contains(before[i])
}

proof fn recent_are_kept(b: Seq<BucketView>, now: int)
    ensures
        forgets_the_quiet(b, b.filter(recent(now)), now),
{
    let p = recent(now);
    filter_members(b, p);
    assert forall|i: int| 0 <= i < b.filter(p).len() implies b.contains(#[trigger] b.filter(p)[i]) && now
        - b.filter(p)[i].last < 86_400 * 1_000_000_000 by {
        assert(p(b.filter(p)[i]));
    }
    assert forall|i: int|
        0 <= i < b.len() && now - (#[trigger] b[i]).last < 86_400 * 1_000_000_000 implies b.filter(
        p,
    ).contains(b[i]) by {
        assert(p(b[i]));
        filter_keeps(b, p, i);
    }
}

/// The ledger forgets what has been quiet for a day and nothing else: whenever it is read or reported,
/// and on the way to a new refusal once a minute has passed since it last did.
pub proof fn the_ledger_forgets_the_quiet(l: LedgerView, now: int)
    ensures
        forgets_the_quiet(l.buckets, pruned(l, now).buckets, now),
        pruned(l, now).last_prune == l.last_prune,
        now / 1_000_000_000 - l.last_prune < 60 ==> settled(l, now) == l,
        now / 1_000_000_000 - l.last_prune >= 60 ==> forgets_the_quiet(
            l.buckets,
            settled(l, now).buckets,
            now,
        ) && settled(l, now).last_prune == now / 1_000_000_000,
{
    recent_are_kept(l.buckets, now);
}

/// A refusal adds one to the count of its own bucket and its cost to the bucket's cost, and is the last
/// that the bucket saw; the bucket's beginning, what it has reported, and every other bucket stay. The
/// first refusal under an identity begins a bucket.
pub proof fn a_refusal_is_filed_in_its_bucket(l: LedgerView, k: BucketKey, cost: int, now: int, i: int)
    requires
        forall|a: int, b: int|
            0 <= a < b < settled(l, now).buckets.len() ==> (#[trigger] settled(l, now).buckets[a]).key != (
            #[trigger] settled(l, now).buckets[b]).key,
        0 <= i < filed(l, k, cost, now).buckets.len(),
    ensures
        ({
            let s = settled(l, now).buckets;
            let f = filed(l, k, cost, now).buckets;
            &&& filed(l, k, cost, now).last_prune == settled(l, now).last_prune
            &&& i < s.len() && s[i].key != k ==> f[i] == s[i]
            &&& i < s.len() && s[i].key == k ==> {
                &&& f.len() == s.len()
                &&& f[i].key == k
                &&& f[i].count == s[i].count + 1
                &&& f[i].cost == s[i].cost + cost
                &&& f[i].first == s[i].first
                &&& f[i].last == now
                &&& f[i].flushed_count == s[i].flushed_count
                &&& f[i].flushed_cost == s[i].flushed_cost
            }
            &&& i >= s.len() ==> {
                &&& i == s.len()
                &&& f[i].key == k
                &&& f[i].count == 1
                &&& f[i].cost == cost
                &&& f[i].first == now && f[i].last == now
                &&& f[i].flushed_count == 0 && f[i].flushed_cost == 0
            }
        }),
{
    let s = settled(l, now).buckets;
    let p = has_key(k);
    if i < s.len() && s[i].key == k {
        assert(crate::seqs::is_first(s, p, i)) by {
            assert forall|j: int| 0 <= j < i implies !p(#[trigger] s[j]) by {
                assert(s[j].key != s[i].key);
            }
        }
        first_where_is(s, p, i);
    }
    match first_where(s, p) {
        Some(j) => {
            assert(crate::seqs::is_first(s, p, j));
        },
        None => {},
    }
}

/// A report's line for a bucket tells of the refusals and the cost that are new since the last report,
/// under the project and the rule; every bucket with something new has its line, and no line is about
/// anything else.
pub proof fn a_report_tells_what_is_new(b: Seq<BucketView>)
    ensures
        forall|i: int|
            0 <= i < b.len() && (#[trigger] b[i]).count > b[i].flushed_count ==> exists|j: int|
                0 <= j < news(b).len() && (#[trigger] news(b)[j]).key == b[i].key && news(b)[j].count
                    == b[i].count - b[i].flushed_count && news(b)[j].cost == b[i].cost
                    - b[i].flushed_cost,
        forall|j: int|
            0 <= j < news(b).len() ==> exists|i: int|
                0 <= i < b.len() && (#[trigger] b[i]).key == (#[trigger] news(b)[j]).key && news(b)[j].count
                    == b[i].count - b[i].flushed_count && news(b)[j].cost == b[i].cost
                    - b[i].flushed_cost && b[i].count > b[i].flushed_count,
    decreases b.len(),
{
    if b.len() > 0 {
        let d = b.drop_last();
        a_report_tells_what_is_new(d);
        let n = news(d);
        let m = news(b);
        let last = b.len() - 1;
        assert forall|i: int| 0 <= i < b.len() && (#[trigger] b[i]).count > b[i].flushed_count implies exists|
            j: int,
        |
            0 <= j < m.len() && (#[trigger] m[j]).key == b[i].key && m[j].count == b[i].count
                - b[i].flushed_count && m[j].cost == b[i].cost - b[i].flushed_cost by {
            if i < last {
                assert(d[i] == b[i]);
                let j = choose|j: int|
                    0 <= j < n.len() && (#[trigger] n[j]).key == d[i].key && n[j].count == d[i].count
                        - d[i].flushed_count && n[j].cost == d[i].cost - d[i].flushed_cost;
                assert(m[j] == n[j]);
            } else {
                assert(m[m.len() - 1].key == b[i].key);
            }
        }
        assert forall|j: int| 0 <= j < m.len() implies exists|i: int|
            0 <= i < b.len() && (#[trigger] b[i]).key == (#[trigger] m[j]).key && m[j].count == b[i].count
                - b[i].flushed_count && m[j].cost == b[i].cost - b[i].flushed_cost && b[i].count
                > b[i].flushed_count by {
            if j < n.len() {
                assert(m[j] == n[j]);
                let i = choose|i: int|
                    0 <= i < d.len() && (#[trigger] d[i]).key == n[j].key && n[j].count == d[i].count
                        - d[i].flushed_count && n[j].cost == d[i].cost - d[i].flushed_cost && d[i].count
                        > d[i].flushed_count;
                assert(b[i] == d[i]);
            } else {
                assert(b[last].key == m[j].key);
            }
        }
    }
}

/// A line of a report is worded by the project, then the metric and the window, and the scope where
/// there is one, with its own count and cost.
pub proof fn a_line_is_worded_by_its_rule(n: Seq<NewsLine>, j: int)
    requires
        0 <= j < n.len(),
    ensures
        worded(n).len() == n.len(),
        worded(n)[j].0 == n[j].key.project,
        match n[j].key.scope {
            None => worded(n)[j].1 == n[j].key.metric.name() + "/"@ + n[j].key.window.name(),
            Some((kind, what)) => worded(n)[j].1 == n[j].key.metric.name() + "/"@
                + n[j].key.window.name() + " ["@ + (kind + "="@ + what) + "]"@,
        },
        worded(n)[j].2 == n[j].count,
        worded(n)[j].3 == n[j].cost,
{
}

/// After a report nothing is new: every bucket is as it was, with all of its count and cost reported.
pub proof fn a_report_marks_everything_told(l: LedgerView, i: int)
    requires
        0 <= i < l.buckets.len(),
    ensures
        reported(l).buckets.len() == l.buckets.len(),
        reported(l).last_prune == l.last_prune,
        reported(l).buckets[i].flushed_count == l.buckets[i].count,
        reported(l).buckets[i].flushed_cost == l.buckets[i].cost,
        reported(l).buckets[i].count == l.buckets[i].count,
        reported(l).buckets[i].cost == l.buckets[i].cost,
        reported(l).buckets[i].key == l.buckets[i].key,
        reported(l).buckets[i].first == l.buckets[i].first,
        reported(l).buckets[i].last == l.buckets[i].last,
{
}

proof fn rows_are_of_the_project(b: Seq<Bucket>, project: Seq<char>)
    ensures
        forall|i: int|
            0 <= i < of_project(b, project).len() ==> b.contains(#[trigger] of_project(b, project)[i])
                && of_project(b, project)[i].project@ == project,
    decreases b.len(),
{
    reveal(Seq::filter);
    if b.len() > 0 {
        let d = b.drop_last();
        rows_are_of_the_project(d, project);
        let old_rows = of_project(d, project);
        let rows = of_project(b, project);
        assert(rows == old_rows || rows == old_rows.push(b.last()));
        assert forall|i: int| 0 <= i < rows.len() implies b.contains(#[trigger] rows[i])
            && rows[i].project@ == project by {
            if i < old_rows.len() {
                assert(rows[i] == old_rows[i]);
                let j = choose|j: int| 0 <= j < d.len() && d[j] == old_rows[i];
                assert(b[j] == rows[i]);
            } else {
                assert(b[b.len() - 1] == rows[i]);
            }
        }
    }
}

/// A status page lists a project's own buckets, the one with the most refusals first and equal ones by
/// their rule, each with its own figures.
pub proof fn a_status_page_lists_the_project(
    b: Seq<Bucket>,
    project: Seq<char>,
    r: Seq<RejectionStat>,
    p: int,
    q: int,
)
    requires
        ({
            let rows = of_project(b, project);
            let order = ranked(listing_keys(rows));
            &&& is_stable_order(listing_keys(rows), order)
            &&& r.len() == rows.len()
            &&& forall|x: int| 0 <= x < r.len() ==> shows(#[trigger] r[x], rows[order[x] as int])
        }),
        0 <= p < q < r.len(),
    ensures
        r[p].count >= r[q].count,
        exists|x: int|
            0 <= x < b.len() && (#[trigger] b[x]).project@ == project && r[p].metric == b[x].metric
                && r[p].window == b[x].window && r[p].scope == b[x].scope && r[p].count == b[x].count
                && r[p].est_missed_cost == b[x].cost && r[p].first_ts == b[x].first_ts && r[p].last_ts
                == b[x].last_ts,
        exists|x: int|
            0 <= x < b.len() && (#[trigger] b[x]).project@ == project && r[q].metric == b[x].metric
                && r[q].window == b[x].window && r[q].scope == b[x].scope && r[q].count == b[x].count
                && r[q].est_missed_cost == b[x].cost && r[q].first_ts == b[x].first_ts && r[q].last_ts
                == b[x].last_ts,
{
    let rows = of_project(b, project);
    let k = listing_keys(rows);
    let order = ranked(k);
    rows_are_of_the_project(b, project);
    assert(k.len() == rows.len());
    assert(shows(r[p], rows[order[p] as int]));
    assert(shows(r[q], rows[order[q] as int]));
    assert(goes_first(k, order[p] as int, order[q] as int));
    assert(b.contains(rows[order[p] as int]));
    assert(b.contains(rows[order[q] as int]));
    let x = choose|x: int| 0 <= x < b.len() && b[x] == rows[order[p] as int];
    let y = choose|y: int| 0 <= y < b.len() && b[y] == rows[order[q] as int];
    assert(b[x].project@ == project && b[y].project@ == project);
}

} // verus!
