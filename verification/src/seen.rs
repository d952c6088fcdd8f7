//! Remembering what was handled lately: webhook deliveries that are collapsed when they come again, and
//! keys whose last use is not written on every request.
use vstd::prelude::*;

use crate::seqs::{first_where, first_where_is, first_where_none};
use crate::text::{any_same, same, views};

verus! {

/// How many deliveries are remembered.
pub const DEFAULT_CAPACITY: usize = 8192;

/// The deliveries seen lately, oldest first, no more than the capacity.
#[derive(Debug)]
pub struct SeenWebhooks {
    pub capacity: usize,
    pub fifo: Vec<String>,
}

/// What is remembered after a delivery came in: a new one joins the end, and the oldest makes room.
pub open spec fn after_check(seen: Seq<Seq<char>>, capacity: int, key: Seq<char>) -> Seq<Seq<char>> {
    if seen.contains(key) {
        seen
    } else if seen.len() + 1 > capacity {
        seen.push(key).skip(1)
    } else {
        seen.push(key)
    }
}

/// Any other delivery than `key`.
pub open spec fn other_than(key: Seq<char>) -> spec_fn(Seq<char>) -> bool {
    |k: Seq<char>| k != key
}

/// What is remembered after a delivery was forgotten.
pub open spec fn after_forget(seen: Seq<Seq<char>>, key: Seq<char>) -> Seq<Seq<char>> {
    seen.filter(other_than(key))
}

impl SeenWebhooks {
    /// Whether nothing is remembered twice and no more than fits.
    pub open spec fn wf(self) -> bool {
        &&& self.capacity >= 1
        &&& self.fifo@.len() <= self.capacity
        &&& views(self.fifo@).no_duplicates()
    }

    /// Nothing seen yet; at least one delivery can be remembered.
    pub fn new(capacity: usize) -> (r: SeenWebhooks)
        ensures
            r.wf(),
            r.fifo@.len() == 0,
            r.capacity == (if capacity < 1 {
                1
            } else {
                capacity
            }),
    {
        SeenWebhooks {
            capacity: if capacity < 1 {
                1
            } else {
                capacity
            },
            fifo: Vec::new(),
        }
    }

    /// Remembers a delivery and says whether it had been seen before.
    pub fn check_and_insert(&mut self, key: &str) -> (r: bool)
        requires
            old(self).wf(),
        ensures
            final(self).wf(),
            final(self).capacity == old(self).capacity,
            r == views(old(self).fifo@).contains(key@),
            views(final(self).fifo@) == after_check(
                views(old(self).fifo@),
                old(self).capacity as int,
                key@,
            ),
    {
        if any_same(&self.fifo, key) {
            return true;
        }
        let ghost before = views(self.fifo@);
        self.fifo.push(key.to_owned());
        assert(views(self.fifo@) =~= before.push(key@));
        if self.fifo.len() > self.capacity {
            let ghost full = self.fifo@;
            self.fifo.remove(0);
            assert(views(self.fifo@) =~= before.push(key@).skip(1));
        }
        proof {
            let p = before.push(key@);
            assert(p.no_duplicates()) by {
                assert forall|i: int, j: int| 0 <= i < p.len() && 0 <= j < p.len() && i != j implies p[i]
                    != p[j] by {
                    if i < before.len() && j < before.len() {
                    } else if i < before.len() {
                        assert(before.contains(p[i]));
                    } else {
                        assert(before.contains(p[j]));
                    }
                }
            }
        }
        false
    }

    /// Forgets a delivery, so that a later retry is processed again.
    pub fn forget(&mut self, key: &str)
        requires
            old(self).wf(),
        ensures
            final(self).wf(),
            final(self).capacity == old(self).capacity,
            views(final(self).fifo@) == after_forget(views(old(self).fifo@), key@),
    {
        let ghost before = views(self.fifo@);
        let ghost p = other_than(key@);
        let mut kept: Vec<String> = Vec::new();
        let mut i: usize = 0;
        let ghost start = *self;
        proof {
            reveal(Seq::filter);
            assert(views(kept@) =~= before.take(0).filter(p));
        }
        while i < self.fifo.len()
            invariant
                *self == start,
                before == views(self.fifo@),
                p == other_than(key@),
                i <= self.fifo.len(),
                kept@.len() <= i,
                views(kept@) == before.take(i as int).filter(p),
            decreases self.fifo.len() - i,
        {
            proof {
                crate::seqs::filter_step(before, i as int, p);
            }
            if !same(self.fifo[i].as_str(), key) {
                let ghost kb = kept@;
                kept.push(self.fifo[i].clone());
                assert(views(kept@) =~= views(kb).push(before[i as int]));
            }
            i += 1;
        }
        assert(before.take(i as int) =~= before);
        proof {
            filter_keeps_distinct(before, p);
        }
        self.fifo = kept;
    }
}

proof fn filter_keeps_distinct(s: Seq<Seq<char>>, p: spec_fn(Seq<char>) -> bool)
    requires
        s.no_duplicates(),
    ensures
        s.filter(p).no_duplicates(),
        s.filter(p).len() <= s.len(),
        forall|x: Seq<char>| #[trigger] s.filter(p).contains(x) ==> s.contains(x),
    decreases s.len(),
{
    reveal(Seq::filter);
    if s.len() > 0 {
        let d = s.drop_last();
        filter_keeps_distinct(d, p);
        let f = d.filter(p);
        assert forall|x: Seq<char>| d.contains(x) implies s.contains(x) by {
            let i = d.index_of(x);
            assert(s[i] == x);
        }
        if p(s.last()) {
            assert(!f.contains(s.last())) by {
                if f.contains(s.last()) {
                    let i = d.index_of(s.last());
                    assert(s[i] == s[s.len() - 1]);
                }
            }
            let g = f.push(s.last());
            assert forall|i: int, j: int| 0 <= i < g.len() && 0 <= j < g.len() && i != j implies g[i]
                != g[j] by {
                if i < f.len() && j < f.len() {
                } else if i < f.len() {
                    assert(f.contains(g[i]));
                } else {
                    assert(f.contains(g[j]));
                }
            }
            assert forall|x: Seq<char>| #[trigger] g.contains(x) implies s.contains(x) by {
                let i = g.index_of(x);
                if i < f.len() {
                    assert(f.contains(x));
                } else {
                    assert(s[s.len() - 1] == x);
                }
            }
        }
    }
}

/// A delivery that comes again at once is recognised, whatever was seen before.
pub proof fn a_repeat_is_a_duplicate(seen: Seq<Seq<char>>, capacity: int, key: Seq<char>)
    requires
        capacity >= 1,
        seen.len() <= capacity,
    ensures
        after_check(seen, capacity, key).contains(key),
        after_check(after_check(seen, capacity, key), capacity, key) == after_check(
            seen,
            capacity,
            key,
        ),
{
    if !seen.contains(key) {
        let p = seen.push(key);
        assert(p[p.len() - 1] == key);
        if seen.len() + 1 > capacity {
            let q = p.skip(1);
            assert(q[q.len() - 1] == key);
        }
    }
}

/// A delivery that was forgotten is processed again when it comes.
pub proof fn a_forgotten_delivery_is_new(seen: Seq<Seq<char>>, key: Seq<char>)
    ensures
        !after_forget(seen, key).contains(key),
{
    crate::seqs::filter_members(seen, other_than(key));
    let f = after_forget(seen, key);
    if f.contains(key) {
        let i = f.index_of(key);
        assert(other_than(key)(f[i]));
    }
}

// ------------------------------------------------------------------ last use

/// Nanoseconds within which a key's last use is not written again.
pub const KEY_TOUCH_INTERVAL: u64 = 60_000_000_000;

/// Keys that are tracked before stale ones are swept.
pub const KEY_TOUCH_MAX_TRACKED: usize = 4096;

/// When a key's last use was written, on a clock that never steps back.
#[derive(Debug)]
pub struct Touch {
    pub key: String,
    pub at: u64,
}

/// The entry of `key`.
pub open spec fn touch_of(key: Seq<char>) -> spec_fn(Touch) -> bool {
    |t: Touch| t.key@ == key
}

/// When a key's last use was written.
pub open spec fn touched_at(m: Seq<Touch>, key: Seq<char>) -> Option<u64> {
    match first_where(m, touch_of(key)) {
        Some(i) => Some(m[i].at),
        None => None,
    }
}

/// Whether less than the interval has passed; a clock reading from before counts as no time at all.
pub open spec fn fresh(at: u64, now: u64, every: u64) -> bool {
    if now >= at {
        now - at < every
    } else {
        every > 0
    }
}

/// What is known of a key after `id` was used: a use within the interval changes nothing; otherwise
/// `id` is written now, and where it is new and the map is full, stale entries go.
pub open spec fn known_after(
    m: Seq<Touch>,
    id: Seq<char>,
    now: u64,
    every: u64,
    key: Seq<char>,
) -> Option<u64> {
    let due = match touched_at(m, id) {
        Some(t) => !fresh(t, now, every),
        None => true,
    };
    if !due {
        touched_at(m, key)
    } else if key == id {
        Some(now)
    } else if touched_at(m, id) is None && m.len() >= KEY_TOUCH_MAX_TRACKED {
        match touched_at(m, key) {
            Some(t) => if fresh(t, now, every) {
                Some(t)
            } else {
                None
            },
            None => None,
        }
    } else {
        touched_at(m, key)
    }
}

/// Whether no key is tracked twice.
pub open spec fn distinct_touches(m: Seq<Touch>) -> bool {
    forall|i: int, j: int| 0 <= i < j < m.len() ==> (#[trigger] m[i]).key@ != (#[trigger] m[j]).key@
}

proof fn touched_here(m: Seq<Touch>, i: int)
    requires
        distinct_touches(m),
        0 <= i < m.len(),
    ensures
        touched_at(m, m[i].key@) == Some(m[i].at),
{
    assert forall|j: int| 0 <= j < i implies !touch_of(m[i].key@)(#[trigger] m[j]) by {
        assert(m[j].key@ != m[i].key@);
    }
    first_where_is(m, touch_of(m[i].key@), i);
}

proof fn touched_nowhere(m: Seq<Touch>, key: Seq<char>)
    requires
        forall|j: int| 0 <= j < m.len() ==> (#[trigger] m[j]).key@ != key,
    ensures
        touched_at(m, key) is None,
{
    assert forall|j: int| 0 <= j < m.len() implies !touch_of(key)(#[trigger] m[j]) by {}
    first_where_none(m, touch_of(key));
}

fn is_fresh(at: u64, now: u64, every: u64) -> (r: bool)
    ensures
        r == fresh(at, now, every),
{
    if now >= at {
        now - at < every
    } else {
        every > 0
    }
}

fn sweep(m: &Vec<Touch>, now: u64, every: u64) -> (r: Vec<Touch>)
    requires
        distinct_touches(m@),
    ensures
        distinct_touches(r@),
        forall|k: Seq<char>| #[trigger] touched_at(r@, k) == (match touched_at(m@, k) {
            Some(t) => if fresh(t, now, every) {
                Some(t)
            } else {
                None
            },
            None => None,
        }),
{
    let mut kept: Vec<Touch> = Vec::new();
    let ghost mut from: Seq<int> = seq![];
    let mut i: usize = 0;
    while i < m.len()
        invariant
            distinct_touches(m@),
            i <= m.len(),
            from.len() == kept@.len(),
            forall|a: int| 0 <= a < from.len() ==> 0 <= #[trigger] from[a] < i,
            forall|a: int, b: int| 0 <= a < b < from.len() ==> #[trigger] from[a] < #[trigger] from[b],
            forall|a: int|
                0 <= a < from.len() ==> (#[trigger] kept@[a]).key@ == m@[from[a]].key@ && kept@[a].at
                    == m@[from[a]].at && fresh(kept@[a].at, now, every),
            forall|x: int|
                0 <= x < i && fresh((#[trigger] m@[x]).at, now, every) ==> from.contains(x),
        decreases m.len() - i,
    {
        let ghost fb = from;
        if is_fresh(m[i].at, now, every) {
            kept.push(Touch { key: m[i].key.clone(), at: m[i].at });
            proof {
                from = from.push(i as int);
                assert(from[fb.len() as int] == i);
                assert forall|x: int| 0 <= x < i + 1 && fresh((#[trigger] m@[x]).at, now, every) implies from.contains(
                    x,
                ) by {
                    if x < i {
                        assert(fb.contains(x));
                        let a = fb.index_of(x);
                        assert(from[a] == x);
                    }
                }
            }
        }
        i += 1;
    }
    proof {
        let r = kept@;
        assert forall|a: int, b: int| 0 <= a < b < r.len() implies (#[trigger] r[a]).key@ != (
        #[trigger] r[b]).key@ by {
            assert(from[a] < from[b]);
            assert(m@[from[a]].key@ != m@[from[b]].key@);
        }
        assert forall|k: Seq<char>| #[trigger] touched_at(r, k) == (match touched_at(m@, k) {
            Some(t) => if fresh(t, now, every) {
                Some(t)
            } else {
                None
            },
            None => None,
        }) by {
            if exists|a: int| 0 <= a < r.len() && (#[trigger] r[a]).key@ == k {
                let a = choose|a: int| 0 <= a < r.len() && (#[trigger] r[a]).key@ == k;
                touched_here(r, a);
                touched_here(m@, from[a]);
            } else {
                touched_nowhere(r, k);
                if exists|x: int| 0 <= x < m@.len() && (#[trigger] m@[x]).key@ == k {
                    let x = choose|x: int| 0 <= x < m@.len() && (#[trigger] m@[x]).key@ == k;
                    touched_here(m@, x);
                    if fresh(m@[x].at, now, every) {
                        assert(from.contains(x));
                        let a = from.index_of(x);
                        assert(r[a].key@ == k);
                    }
                } else {
                    touched_nowhere(m@, k);
                }
            }
        }
    }
    kept
}

/// Marks a key as used and says whether its last use is due to be written: at most once per interval.
pub fn touch_due(m: &mut Vec<Touch>, id: &str, now: u64, every: u64) -> (r: bool)
    requires
        distinct_touches(old(m)@),
    ensures
        distinct_touches(final(m)@),
        r == (match touched_at(old(m)@, id@) {
            Some(t) => !fresh(t, now, every),
            None => true,
        }),
        forall|k: Seq<char>| #[trigger]
            touched_at(final(m)@, k) == known_after(old(m)@, id@, now, every, k),
{
    let ghost start = m@;
    let mut i: usize = 0;
    while i < m.len()
        invariant
            m@ == start,
            start == old(m)@,
            distinct_touches(start),
            i <= m.len(),
            forall|j: int| 0 <= j < i ==> (#[trigger] start[j]).key@ != id@,
        decreases m.len() - i,
    {
        if same(m[i].key.as_str(), id) {
            proof {
                touched_here(start, i as int);
            }
            if is_fresh(m[i].at, now, every) {
                return false;
            }
            m.set(i, Touch { key: id.to_owned(), at: now });
            proof {
                let r = m@;
                assert forall|a: int, b: int| 0 <= a < b < r.len() implies (#[trigger] r[a]).key@ != (
                #[trigger] r[b]).key@ by {
                    assert(start[a].key@ != start[b].key@);
                }
                assert forall|k: Seq<char>| #[trigger] touched_at(r, k) == known_after(
                    start,
                    id@,
                    now,
                    every,
                    k,
                ) by {
                    if k == id@ {
                        touched_here(r, i as int);
                    } else if exists|a: int| 0 <= a < r.len() && (#[trigger] r[a]).key@ == k {
                        let a = choose|a: int| 0 <= a < r.len() && (#[trigger] r[a]).key@ == k;
                        touched_here(r, a);
                        assert(start[a] == r[a]);
                        touched_here(start, a);
                    } else {
                        touched_nowhere(r, k);
                        assert forall|j: int| 0 <= j < start.len() implies (#[trigger] start[j]).key@
                            != k by {
                            assert(r[j].key@ != k);
                        }
                        touched_nowhere(start, k);
                    }
                }
            }
            return true;
        }
        i += 1;
    }
    proof {
        touched_nowhere(start, id@);
    }
    if m.len() >= KEY_TOUCH_MAX_TRACKED {
        let kept = sweep(m, now, every);
        *m = kept;
    }
    let ghost mid = m@;
    proof {
        assert(touched_at(mid, id@) is None);
        assert forall|j: int| 0 <= j < mid.len() implies (#[trigger] mid[j]).key@ != id@ by {
            if mid[j].key@ == id@ {
                touched_here(mid, j);
            }
        }
    }
    m.push(Touch { key: id.to_owned(), at: now });
    proof {
        let r = m@;
        assert forall|a: int, b: int| 0 <= a < b < r.len() implies (#[trigger] r[a]).key@ != (
        #[trigger] r[b]).key@ by {
            if b < mid.len() {
                assert(mid[a].key@ != mid[b].key@);
            } else {
                assert(r[a] == mid[a]);
            }
        }
        assert forall|k: Seq<char>| #[trigger] touched_at(r, k) == known_after(
            start,
            id@,
            now,
            every,
            k,
        ) by {
            if k == id@ {
                touched_here(r, mid.len() as int);
                assert(r[mid.len() as int].key@ == id@);
            } else if exists|a: int| 0 <= a < mid.len() && (#[trigger] mid[a]).key@ == k {
                let a = choose|a: int| 0 <= a < mid.len() && (#[trigger] mid[a]).key@ == k;
                assert(r[a] == mid[a]);
                touched_here(r, a);
                touched_here(mid, a);
            } else {
                touched_nowhere(mid, k);
                assert forall|j: int| 0 <= j < r.len() implies (#[trigger] r[j]).key@ != k by {
                    if j < mid.len() {
                        assert(r[j] == mid[j]);
                    }
                }
                touched_nowhere(r, k);
            }
        }
    }
    true
}

/// Within the interval a key's last use is written once, however often it is used.
pub proof fn one_write_per_interval(m: Seq<Touch>, id: Seq<char>, now: u64, later: u64, every: u64)
    requires
        match touched_at(m, id) {
            Some(t) => !fresh(t, now, every),
            None => true,
        },
        now <= later,
        later - now < every,
    ensures
        known_after(m, id, now, every, id) == Some(now),
        fresh(now, later, every),
{
}

/// A delivery that comes in is remembered last, and nothing else is forgotten for it but the oldest, and
/// that only where there is no room; one that is forgotten is the only one that goes.
pub proof fn only_the_oldest_makes_room(seen: Seq<Seq<char>>, capacity: int, key: Seq<char>, i: int)
    requires
        capacity >= 1,
        seen.len() <= capacity,
        0 <= i < seen.len(),
    ensures
        ({
            let s = after_check(seen, capacity, key);
            &&& s.len() <= capacity
            &&& seen.contains(key) ==> s == seen
            &&& !seen.contains(key) ==> s.last() == key
            &&& i > 0 || seen.len() < capacity ==> s.contains(seen[i])
        }),
        seen[i] != key ==> after_forget(seen, key).contains(seen[i]),
        !after_forget(seen, key).contains(key),
{
    let s = after_check(seen, capacity, key);
    if !seen.contains(key) {
        if seen.len() + 1 > capacity {
            assert(s.len() == seen.len());
            assert(s[s.len() - 1] == key);
            if i > 0 {
                assert(s[i - 1] == seen[i]);
            }
        } else {
            assert(s[i] == seen[i]);
        }
    }
    if seen[i] != key {
        assert(other_than(key)(seen[i]));
        crate::seqs::filter_keeps(seen, other_than(key), i);
    }
    crate::seqs::filter_members(seen, other_than(key));
    let f = after_forget(seen, key);
    if f.contains(key) {
        let k = choose|k: int| 0 <= k < f.len() && f[k] == key;
        assert(other_than(key)(f[k]));
    }
}

/// A key's use is written exactly where it was not written within the interval; then it is written as of
/// now. No other key is touched, unless a new key finds the map full: then those whose interval has passed
/// are dropped, and none else.
pub proof fn a_use_is_written_once_an_interval(m: Seq<Touch>, id: Seq<char>, now: u64, every: u64, key: Seq<char>)
    requires
        forall|i: int| 0 <= i < m.len() ==> (#[trigger] m[i]).at <= now,
    ensures
        ({
            let due = touched_at(m, id) is None || touched_at(m, id)->0 + every <= now;
            &&& due ==> known_after(m, id, now, every, id) == Some(now)
            &&& !due ==> known_after(m, id, now, every, key) == touched_at(m, key)
            &&& key != id && (touched_at(m, id) is Some || m.len() < 4096) ==> known_after(
                m,
                id,
                now,
                every,
                key,
            ) == touched_at(m, key)
            &&& key != id && touched_at(m, id) is None && m.len() >= 4096 ==> (known_after(
                m,
                id,
                now,
                every,
                key,
            ) is Some <==> touched_at(m, key) is Some && touched_at(m, key)->0 + every > now)
            &&& known_after(m, id, now, every, key) is Some && key != id ==> known_after(
                m,
                id,
                now,
                every,
                key,
            ) == touched_at(m, key)
        }),
        forall|i: int|
            0 <= i < m.len() && (#[trigger] m[i]).key@ == key && (forall|j: int|
                0 <= j < i ==> (#[trigger] m[j]).key@ != key) ==> touched_at(m, key) == Some(m[i].at),
{
    crate::seqs::first_where_tells(m, touch_of(key));
    crate::seqs::first_where_tells(m, touch_of(id));
    assert forall|i: int|
        0 <= i < m.len() && (#[trigger] m[i]).key@ == key && (forall|j: int|
            0 <= j < i ==> (#[trigger] m[j]).key@ != key) implies touched_at(m, key) == Some(m[i].at) by {
        let p = touch_of(key);
        assert(p(m[i]));
        assert forall|j: int| 0 <= j < i implies !p(#[trigger] m[j]) by {}
        first_where_is(m, p, i);
    }
}

/// A clock that has gone back does not make a use due again: it counts as no time passed at all.
pub proof fn a_clock_gone_back_writes_nothing(m: Seq<Touch>, id: Seq<char>, now: u64, every: u64, key: Seq<char>)
    requires
        touched_at(m, id) is Some,
        now < touched_at(m, id)->0,
    ensures
        every > 0 ==> known_after(m, id, now, every, key) == touched_at(m, key),
        every == 0 ==> known_after(m, id, now, every, id) == Some(now),
{
}

} // verus!
