//! One stable order for every listing: rows are ranked by a key of two numbers and two texts.
use vstd::prelude::*;

use crate::text::{before, same, sorts_before, sorts_before_total, sorts_before_transitive};

verus! {

/// What a row is ranked by, most significant part first.
#[derive(Debug)]
pub struct SortKey {
    pub major: i128,
    pub text: String,
    pub minor: i128,
    pub tail: String,
}

/// The key as plain mathematical values.
pub struct KeyView {
    pub major: int,
    pub text: Seq<char>,
    pub minor: int,
    pub tail: Seq<char>,
}

impl View for SortKey {
    type V = KeyView;

    open spec fn view(&self) -> KeyView {
        KeyView {
            major: self.major as int,
            text: self.text@,
            minor: self.minor as int,
            tail: self.tail@,
        }
    }
}

/// Whether `a` ranks strictly before `b`.
pub open spec fn ranks_before(a: KeyView, b: KeyView) -> bool {
    if a.major != b.major {
        a.major < b.major
    } else if a.text != b.text {
        sorts_before(a.text, b.text)
    } else if a.minor != b.minor {
        a.minor < b.minor
    } else {
        sorts_before(a.tail, b.tail)
    }
}

/// The ranking is total: of two different keys exactly one comes first, and none before itself.
pub proof fn ranking_is_total(a: KeyView, b: KeyView)
    ensures
        a == b ==> !ranks_before(a, b),
        a != b ==> (ranks_before(a, b) <==> !ranks_before(b, a)),
{
    sorts_before_total(a.text, b.text);
    sorts_before_total(a.tail, b.tail);
}

/// The ranking carries over.
pub proof fn ranking_is_transitive(a: KeyView, b: KeyView, c: KeyView)
    requires
        ranks_before(a, b),
        ranks_before(b, c),
    ensures
        ranks_before(a, c),
{
    sorts_before_total(a.text, b.text);
    sorts_before_total(b.text, c.text);
    sorts_before_total(a.text, c.text);
    if a.text != b.text && b.text != c.text && sorts_before(a.text, b.text) && sorts_before(
        b.text,
        c.text,
    ) {
        sorts_before_transitive(a.text, b.text, c.text);
    }
    if sorts_before(a.tail, b.tail) && sorts_before(b.tail, c.tail) {
        sorts_before_transitive(a.tail, b.tail, c.tail);
    }
}

impl SortKey {
    /// Whether this key ranks strictly before `other`.
    pub fn ranks_before(&self, other: &SortKey) -> (r: bool)
        ensures
            r == ranks_before(self@, other@),
    {
        if self.major != other.major {
            self.major < other.major
        } else if !same(self.text.as_str(), other.text.as_str()) {
            before(self.text.as_str(), other.text.as_str())
        } else if self.minor != other.minor {
            self.minor < other.minor
        } else {
            before(self.tail.as_str(), other.tail.as_str())
        }
    }
}

/// The keys of a listing.
pub open spec fn key_views(keys: Seq<SortKey>) -> Seq<KeyView> {
    keys.map_values(|k: SortKey| k@)
}

/// Whether row `i` belongs before row `j`: its key ranks before, or the keys are equal and it came
/// first.
pub open spec fn goes_first(keys: Seq<KeyView>, i: int, j: int) -> bool {
    ranks_before(keys[i], keys[j]) || (keys[i] == keys[j] && i < j)
}

/// Whether `order` lists each of the first `n` rows exactly once, ranked, with equal keys in the
/// order they came.
pub open spec fn is_stable_prefix(keys: Seq<KeyView>, order: Seq<usize>, n: int) -> bool {
    &&& order.len() == n
    &&& forall|p: int| 0 <= p < order.len() ==> 0 <= (#[trigger] order[p]) < n
    &&& order.no_duplicates()
    &&& forall|p: int, q: int|
        0 <= p < q < order.len() ==> goes_first(
            keys,
            #[trigger] order[p] as int,
            #[trigger] order[q] as int,
        )
}

/// Whether `order` lists every row exactly once, ranked, with equal keys in the order they came.
pub open spec fn is_stable_order(keys: Seq<KeyView>, order: Seq<usize>) -> bool {
    is_stable_prefix(keys, order, keys.len() as int)
}

/// The stable order of a listing, as positions of its rows.
pub open spec fn ranked(keys: Seq<KeyView>) -> Seq<usize> {
    choose|order: Seq<usize>| is_stable_order(keys, order)
}

/// There is only one stable order.
pub proof fn stable_order_is_unique(keys: Seq<KeyView>, a: Seq<usize>, b: Seq<usize>)
    requires
        is_stable_order(keys, a),
        is_stable_order(keys, b),
    ensures
        a == b,
{
    let n = keys.len() as int;
    if a != b {
        let p = choose|p: int|
            0 <= p < n && a[p] != b[p] && (forall|q: int| 0 <= q < p ==> a[q] == b[q]);
        assert(exists|p: int|
            0 <= p < n && a[p] != b[p] && (forall|q: int| 0 <= q < p ==> a[q] == b[q])) by {
            first_difference(a, b, n);
        }
        every_row_is_listed(a, n, b[p] as int);
        every_row_is_listed(b, n, a[p] as int);
        let i = choose|i: int| 0 <= i < n && a[i] == b[p];
        let j = choose|j: int| 0 <= j < n && b[j] == a[p];
        assert(i > p) by {
            if i < p {
                assert(b[i] == b[p]);
            }
        }
        assert(j > p) by {
            if j < p {
                assert(a[j] == a[p]);
            }
        }
        assert(goes_first(keys, a[p] as int, a[i] as int));
        assert(goes_first(keys, b[p] as int, b[j] as int));
        ranking_is_total(keys[a[p] as int], keys[b[p] as int]);
    }
}

proof fn first_difference(a: Seq<usize>, b: Seq<usize>, n: int)
    requires
        a.len() == n,
        b.len() == n,
        a != b,
    ensures
        exists|p: int| 0 <= p < n && a[p] != b[p] && (forall|q: int| 0 <= q < p ==> a[q] == b[q]),
    decreases n,
{
    if n == 0 {
        assert(a =~= b);
    } else if a.drop_last() != b.drop_last() {
        first_difference(a.drop_last(), b.drop_last(), n - 1);
        let p = choose|p: int|
            0 <= p < n - 1 && a.drop_last()[p] != b.drop_last()[p] && (forall|q: int|
                0 <= q < p ==> a.drop_last()[q] == b.drop_last()[q]);
        assert forall|q: int| 0 <= q < p implies a[q] == b[q] by {
            assert(a.drop_last()[q] == b.drop_last()[q]);
        }
        assert(a[p] != b[p]);
    } else {
        assert(a.last() != b.last()) by {
            if a.last() == b.last() {
                assert(a =~= a.drop_last().push(a.last()));
                assert(b =~= b.drop_last().push(b.last()));
            }
        }
        assert forall|q: int| 0 <= q < n - 1 implies a[q] == b[q] by {
            assert(a.drop_last()[q] == b.drop_last()[q]);
        }
    }
}

/// A list of `n` different numbers below `n` holds each of them.
pub proof fn every_row_is_listed(order: Seq<usize>, n: int, row: int)
    requires
        order.len() == n,
        forall|p: int| 0 <= p < order.len() ==> 0 <= (#[trigger] order[p]) < n,
        order.no_duplicates(),
        0 <= row < n,
    ensures
        exists|p: int| 0 <= p < n && order[p] == row,
{
    let asints = order.map_values(|x: usize| x as int);
    assert(asints.no_duplicates()) by {
        assert forall|i: int, j: int|
            0 <= i < asints.len() && 0 <= j < asints.len() && i != j implies asints[i] != asints[j] by {
            assert(order[i] != order[j]);
        }
    }
    asints.unique_seq_to_set();
    let all = vstd::set_lib::set_int_range(0, n);
    vstd::set_lib::lemma_int_range(0, n);
    assert(asints.to_set().subset_of(all)) by {
        assert forall|x: int| asints.to_set().contains(x) implies all.contains(x) by {
            let p = asints.index_of(x);
            assert(order[p] as int == x);
        }
    }
    vstd::set_lib::lemma_subset_equality(asints.to_set(), all);
    assert(asints.to_set().contains(row));
    let p = asints.index_of(row);
    assert(order[p] == row);
}

/// Where each row goes: the positions of `keys` in ranked order, equal keys in the order they came.
pub fn stable_order(keys: &Vec<SortKey>) -> (r: Vec<usize>)
    ensures
        is_stable_order(key_views(keys@), r@),
        r@ == ranked(key_views(keys@)),
{
    let mut order: Vec<usize> = Vec::new();
    let mut i: usize = 0;
    while i < keys.len()
        invariant
            i <= keys.len(),
            is_stable_prefix(key_views(keys@), order@, i as int),
        decreases keys.len() - i,
    {
        let mut at: usize = order.len();
        while at > 0 && keys[i].ranks_before(&keys[order[at - 1]])
            invariant
                i < keys.len(),
                at <= order.len(),
                is_stable_prefix(key_views(keys@), order@, i as int),
                forall|p: int|
                    at <= p < order.len() ==> ranks_before(
                        keys@[i as int]@,
                        keys@[#[trigger] order@[p] as int]@,
                    ),
            decreases at,
        {
            at -= 1;
        }
        let ghost old_order = order@;
        proof {
            assert forall|p: int| 0 <= p < at implies goes_first(
                key_views(keys@),
                #[trigger] old_order[p] as int,
                i as int,
            ) by {
                ranking_is_total(keys@[old_order[at - 1] as int]@, keys@[i as int]@);
                if p < at - 1 {
                    assert(goes_first(key_views(keys@), old_order[p] as int, old_order[at - 1] as int));
                    if ranks_before(keys@[old_order[p] as int]@, keys@[old_order[at - 1] as int]@)
                        && ranks_before(keys@[old_order[at - 1] as int]@, keys@[i as int]@) {
                        ranking_is_transitive(
                            keys@[old_order[p] as int]@,
                            keys@[old_order[at - 1] as int]@,
                            keys@[i as int]@,
                        );
                    }
                }
            }
        }
        order.insert(at, i);
        proof {
            assert(order@ =~= old_order.insert(at as int, i));
            assert forall|p: int, q: int| 0 <= p < q < order@.len() implies goes_first(
                key_views(keys@),
                #[trigger] order@[p] as int,
                #[trigger] order@[q] as int,
            ) by {
                let op = if p < at {
                    p
                } else {
                    p - 1
                };
                let oq = if q < at {
                    q
                } else {
                    q - 1
                };
                if p != at && q != at {
                    assert(order@[p] == old_order[op] && order@[q] == old_order[oq]);
                }
            }
            assert(order@.no_duplicates());
        }
        i += 1;
    }
    proof {
        stable_order_is_unique(key_views(keys@), order@, ranked(key_views(keys@)));
    }
    order
}

/// Rows are ranked by the smaller first number; among those with the same, by the text that sorts first;
/// then by the smaller second number; and last by the second text.
pub proof fn a_key_ranks_by_its_parts_in_turn(a: &SortKey, b: &SortKey, r: bool)
    requires
        call_ensures(SortKey::ranks_before, (a, b), r),
    ensures
        a.major < b.major ==> r,
        a.major > b.major ==> !r,
        a.major == b.major && a.text@ != b.text@ ==> (r <==> sorts_before(a.text@, b.text@)),
        a.major == b.major && a.text@ == b.text@ && a.minor < b.minor ==> r,
        a.major == b.major && a.text@ == b.text@ && a.minor > b.minor ==> !r,
        a.major == b.major && a.text@ == b.text@ && a.minor == b.minor ==> (r <==> sorts_before(
            a.tail@,
            b.tail@,
        )),
{
}

/// A listing holds every row once, a row that ranks before another stands before it, and rows that rank
/// alike stand as they came.
pub proof fn a_listing_is_ranked(keys: &Vec<SortKey>, r: Vec<usize>, row: int, p: int, q: int)
    requires
        call_ensures(stable_order, (keys,), r),
        0 <= row < keys@.len(),
        0 <= p < q < r@.len(),
    ensures
        r@.len() == keys@.len(),
        exists|at: int| 0 <= at < r@.len() && #[trigger] r@[at] == row,
        r@[p] < keys@.len() && r@[q] < keys@.len() && r@[p] != r@[q],
        !ranks_before(keys@[r@[q] as int]@, keys@[r@[p] as int]@),
        keys@[r@[p] as int]@ == keys@[r@[q] as int]@ ==> r@[p] < r@[q],
{
    let k = key_views(keys@);
    every_row_is_listed(r@, k.len() as int, row);
    let i = r@[p] as int;
    let j = r@[q] as int;
    assert(k[i] == keys@[i]@ && k[j] == keys@[j]@);
    assert(goes_first(k, i, j));
    ranking_is_total(k[i], k[j]);
}

} // verus!
