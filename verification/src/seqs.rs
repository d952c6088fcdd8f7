//! Facts about filtering and searching sequences that several modules share.
use vstd::prelude::*;

verus! {

/// Filtering one item more adds that item or nothing.
pub proof fn filter_step<T>(s: Seq<T>, i: int, p: spec_fn(T) -> bool)
    requires
        0 <= i < s.len(),
    ensures
        s.take(i + 1).filter(p) == (if p(s[i]) {
            s.take(i).filter(p).push(s[i])
        } else {
            s.take(i).filter(p)
        }),
{
    reveal(Seq::filter);
    assert(s.take(i + 1).drop_last() =~= s.take(i));
}

/// Nothing comes out of a filter that did not go in.
pub proof fn filter_members<T>(s: Seq<T>, p: spec_fn(T) -> bool)
    ensures
        forall|i: int| 0 <= i < s.filter(p).len() ==> s.contains(#[trigger] s.filter(p)[i]) && p(s.filter(p)[i]),
    decreases s.len(),
{
    reveal(Seq::filter);
    if s.len() > 0 {
        filter_members(s.drop_last(), p);
        assert forall|i: int| 0 <= i < s.filter(p).len() implies s.contains(#[trigger] s.filter(p)[i])
            && p(s.filter(p)[i]) by {
            let d = s.drop_last().filter(p);
            if i < d.len() {
                assert(s.filter(p)[i] == d[i]);
                let j = choose|j: int| 0 <= j < s.drop_last().len() && s.drop_last()[j] == d[i];
                assert(s[j] == d[i]);
            } else {
                assert(s.filter(p)[i] == s[s.len() - 1]);
            }
        }
    }
}

/// What passes the test stays.
pub proof fn filter_keeps<T>(s: Seq<T>, p: spec_fn(T) -> bool, i: int)
    requires
        0 <= i < s.len(),
        p(s[i]),
    ensures
        s.filter(p).contains(s[i]),
    decreases s.len(),
{
    reveal(Seq::filter);
    let d = s.drop_last();
    if i < d.len() {
        filter_keeps(d, p, i);
        let j = choose|j: int| 0 <= j < d.filter(p).len() && d.filter(p)[j] == d[i];
        assert(s.filter(p)[j] == s[i]);
    } else {
        assert(s.filter(p)[s.filter(p).len() - 1] == s[i]);
    }
}

/// Whether `i` is the first position whose item passes `p`.
pub open spec fn is_first<T>(s: Seq<T>, p: spec_fn(T) -> bool, i: int) -> bool {
    0 <= i < s.len() && p(s[i]) && forall|j: int| 0 <= j < i ==> !p(#[trigger] s[j])
}

/// The first position whose item passes `p`, where there is one.
pub open spec fn first_where<T>(s: Seq<T>, p: spec_fn(T) -> bool) -> Option<int> {
    if exists|i: int| is_first(s, p, i) {
        Some(choose|i: int| is_first(s, p, i))
    } else {
        None
    }
}

/// `first_where` finds what `is_first` describes.
pub proof fn first_where_is<T>(s: Seq<T>, p: spec_fn(T) -> bool, i: int)
    requires
        is_first(s, p, i),
    ensures
        first_where(s, p) == Some(i),
{
    let c = choose|c: int| is_first(s, p, c);
    assert(is_first(s, p, c));
    if c < i {
        assert(!p(s[c]));
    } else if i < c {
        assert(!p(s[i]));
    }
}

/// What `first_where` finds passes.
pub proof fn first_where_some_at<T>(s: Seq<T>, p: spec_fn(T) -> bool, i: int)
    requires
        first_where(s, p) == Some(i),
    ensures
        is_first(s, p, i),
{
}

/// Nothing is found where nothing passes.
pub proof fn first_where_none<T>(s: Seq<T>, p: spec_fn(T) -> bool)
    requires
        forall|j: int| 0 <= j < s.len() ==> !p(#[trigger] s[j]),
    ensures
        first_where(s, p) is None,
{
}

/// Where something passes, something is found.
pub proof fn first_where_some<T>(s: Seq<T>, p: spec_fn(T) -> bool, k: int)
    requires
        0 <= k < s.len(),
        p(s[k]),
    ensures
        first_where(s, p) is Some,
        is_first(s, p, first_where(s, p)->0),
        first_where(s, p)->0 <= k,
    decreases k,
{
    if exists|j: int| 0 <= j < k && p(#[trigger] s[j]) {
        let j = choose|j: int| 0 <= j < k && p(#[trigger] s[j]);
        first_where_some(s, p, j);
    } else {
        assert(is_first(s, p, k));
        first_where_is(s, p, k);
    }
}

/// The positions whose items pass `p`, in order.
pub open spec fn positions<T>(s: Seq<T>, p: spec_fn(T) -> bool) -> Seq<int>
    decreases s.len(),
{
    if s.len() == 0 {
        seq![]
    } else {
        let rest = positions(s.drop_last(), p);
        if p(s.last()) {
            rest.push(s.len() - 1)
        } else {
            rest
        }
    }
}

/// Positions as machine numbers, read as integers.
pub open spec fn ints(v: Seq<usize>) -> Seq<int> {
    v.map_values(|x: usize| x as int)
}

/// One item more adds its position or nothing.
pub proof fn positions_step<T>(s: Seq<T>, i: int, p: spec_fn(T) -> bool)
    requires
        0 <= i < s.len(),
    ensures
        positions(s.take(i + 1), p) == (if p(s[i]) {
            positions(s.take(i), p).push(i)
        } else {
            positions(s.take(i), p)
        }),
{
    assert(s.take(i + 1).drop_last() =~= s.take(i));
}

/// The positions listed are exactly those whose items pass.
pub proof fn positions_are_exact<T>(s: Seq<T>, p: spec_fn(T) -> bool)
    ensures
        forall|k: int|
            0 <= k < positions(s, p).len() ==> 0 <= #[trigger] positions(s, p)[k] < s.len() && p(
                s[positions(s, p)[k]],
            ),
        forall|i: int| 0 <= i < s.len() && p(#[trigger] s[i]) ==> positions(s, p).contains(i),
    decreases s.len(),
{
    if s.len() > 0 {
        let d = s.drop_last();
        let q = positions(d, p);
        positions_are_exact(d, p);
        assert forall|k: int| 0 <= k < positions(s, p).len() implies 0 <= #[trigger] positions(s, p)[k]
            < s.len() && p(s[positions(s, p)[k]]) by {
            if k < q.len() {
                assert(positions(s, p)[k] == q[k]);
                assert(s[q[k]] == d[q[k]]);
            }
        }
        assert forall|i: int| 0 <= i < s.len() && p(#[trigger] s[i]) implies positions(s, p).contains(
            i,
        ) by {
            if i < d.len() {
                assert(d[i] == s[i]);
                assert(q.contains(i));
                let k = choose|k: int| 0 <= k < q.len() && q[k] == i;
                assert(positions(s, p)[k] == i);
            } else {
                assert(positions(s, p)[positions(s, p).len() - 1] == i);
            }
        }
    }
}

/// Whether `v` lists, in order and each once, the positions whose items pass `p`.
pub open spec fn lists<T>(v: Seq<usize>, s: Seq<T>, p: spec_fn(T) -> bool) -> bool {
    &&& forall|k: int| 0 <= k < v.len() ==> 0 <= (#[trigger] v[k]) < s.len() && p(s[v[k] as int])
    &&& forall|i: int|
        0 <= i < s.len() && p(#[trigger] s[i]) ==> exists|k: int| 0 <= k < v.len() && #[trigger] v[k] == i
    &&& forall|k: int, l: int| 0 <= k < l < v.len() ==> #[trigger] v[k] < #[trigger] v[l]
}

/// The positions listed ascend.
pub proof fn positions_ascend<T>(s: Seq<T>, p: spec_fn(T) -> bool)
    ensures
        forall|k: int, l: int|
            0 <= k < l < positions(s, p).len() ==> #[trigger] positions(s, p)[k] < #[trigger] positions(s, p)[l],
    decreases s.len(),
{
    if s.len() > 0 {
        let d = s.drop_last();
        positions_ascend(d, p);
        positions_are_exact(d, p);
        let q = positions(d, p);
        assert forall|k: int, l: int|
            0 <= k < l < positions(s, p).len() implies #[trigger] positions(s, p)[k] < #[trigger] positions(s, p)[l] by {
            assert(positions(s, p)[k] == q[k]);
            if l < q.len() {
                assert(positions(s, p)[l] == q[l]);
            }
        }
    }
}

/// Positions as machine numbers list what passes.
pub proof fn positions_list<T>(v: Seq<usize>, s: Seq<T>, p: spec_fn(T) -> bool)
    requires
        ints(v) == positions(s, p),
    ensures
        lists(v, s, p),
{
    positions_are_exact(s, p);
    positions_ascend(s, p);
    let q = positions(s, p);
    assert(v.len() == ints(v).len());
    assert forall|k: int| 0 <= k < v.len() implies 0 <= (#[trigger] v[k]) < s.len() && p(s[v[k] as int]) by {
        assert(ints(v)[k] == v[k]);
        assert(0 <= q[k] < s.len());
    }
    assert forall|i: int| 0 <= i < s.len() && p(#[trigger] s[i]) implies exists|k: int|
        0 <= k < v.len() && #[trigger] v[k] == i by {
        assert(q.contains(i));
        let k = choose|k: int| 0 <= k < q.len() && q[k] == i;
        assert(ints(v)[k] == v[k]);
    }
    assert forall|k: int, l: int| 0 <= k < l < v.len() implies #[trigger] v[k] < #[trigger] v[l] by {
        assert(ints(v)[k] == v[k] && ints(v)[l] == v[l]);
        assert(q[k] < q[l]);
    }
}

/// What the first position found tells: its item passes and none before it does; and where none is found,
/// none passes.
pub proof fn first_where_tells<T>(s: Seq<T>, p: spec_fn(T) -> bool)
    ensures
        match first_where(s, p) {
            Some(i) => 0 <= i < s.len() && p(s[i]) && forall|j: int| 0 <= j < i ==> !p(#[trigger] s[j]),
            None => forall|j: int| 0 <= j < s.len() ==> !p(#[trigger] s[j]),
        },
{
    match first_where(s, p) {
        Some(i) => {
            assert(is_first(s, p, i));
        },
        None => {
            assert forall|j: int| 0 <= j < s.len() implies !p(#[trigger] s[j]) by {
                if p(s[j]) {
                    first_where_some(s, p, j);
                }
            }
        },
    }
}

} // verus!
