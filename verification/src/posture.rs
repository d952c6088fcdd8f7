//! What a project's stored rows had done to them.
use vstd::prelude::*;

verus! {

/// Rows that were treated alike.
#[derive(Debug, Clone, Copy, PartialEq, Eq, Structural)]
pub struct Cohort {
    /// Whether the rows carry a stamp.
    pub stamped: bool,
    pub events: u64,
}

/// All rows.
pub open spec fn all_events(g: Seq<Cohort>) -> nat
    decreases g.len(),
{
    if g.len() == 0 {
        0
    } else {
        all_events(g.drop_last()) + g.last().events as nat
    }
}

/// The rows that carry no stamp.
pub open spec fn unstamped_events(g: Seq<Cohort>) -> nat
    decreases g.len(),
{
    if g.len() == 0 {
        0
    } else {
        unstamped_events(g.drop_last()) + (if g.last().stamped {
            0nat
        } else {
            g.last().events as nat
        })
    }
}

proof fn all_events_grow(g: Seq<Cohort>, i: int)
    requires
        0 <= i <= g.len(),
    ensures
        unstamped_events(g.take(i)) <= all_events(g.take(i)) <= all_events(g),
    decreases g.len() - i,
{
    if i == g.len() {
        assert(g.take(i) =~= g);
        unstamped_is_part(g);
    } else {
        assert(g.take(i + 1).drop_last() =~= g.take(i));
        all_events_grow(g, i + 1);
        unstamped_is_part(g.take(i));
    }
}

/// The rows without a stamp are a part of all rows.
pub proof fn unstamped_is_part(g: Seq<Cohort>)
    ensures
        unstamped_events(g) <= all_events(g),
    decreases g.len(),
{
    if g.len() > 0 {
        unstamped_is_part(g.drop_last());
    }
}

/// Counts all rows and those without a stamp. Those are reported as a number of their own, never among
/// the rows that were not scrubbed.
pub fn count_posture(g: &Vec<Cohort>) -> (r: (u64, u64))
    requires
        all_events(g@) <= u64::MAX,
    ensures
        r.0 == all_events(g@),
        r.1 == unstamped_events(g@),
{
    let mut total: u64 = 0;
    let mut open: u64 = 0;
    let mut i: usize = 0;
    while i < g.len()
        invariant
            all_events(g@) <= u64::MAX,
            i <= g.len(),
            total == all_events(g@.take(i as int)),
            open == unstamped_events(g@.take(i as int)),
        decreases g.len() - i,
    {
        proof {
            assert(g@.take(i + 1).drop_last() =~= g@.take(i as int));
            all_events_grow(g@, i + 1);
        }
        let c = g[i];
        total = total + c.events;
        if !c.stamped {
            open = open + c.events;
        }
        i += 1;
    }
    assert(g@.take(i as int) =~= g@);
    (total, open)
}

/// One more cohort adds its rows to all rows, and to those without a stamp exactly where it carries none.
pub proof fn rows_add_up(before: &Vec<Cohort>, after: &Vec<Cohort>, a: (u64, u64), b: (u64, u64))
    requires
        all_events(before@) <= u64::MAX,
        all_events(after@) <= u64::MAX,
        after@.len() > 0 && after@.drop_last() == before@,
        call_ensures(count_posture, (before,), a),
        call_ensures(count_posture, (after,), b),
    ensures
        before@.len() == 0 ==> a.0 == 0 && a.1 == 0,
        b.0 == a.0 + after@.last().events,
        after@.last().stamped ==> b.1 == a.1,
        !after@.last().stamped ==> b.1 == a.1 + after@.last().events,
{
}

} // verus!
