//! Instants, as nanoseconds since the Unix epoch.
use vstd::prelude::*;

verus! {

/// Nanoseconds in a second.
pub const NANOS_PER_SEC: i128 = 1_000_000_000;

/// The furthest an instant may lie from the epoch, in seconds: past the end of the calendar.
pub const MAX_SECS: i128 = 9_000_000_000_000;

/// An instant, as nanoseconds since the Unix epoch.
#[derive(Debug, Clone, Copy, PartialEq, Eq, Structural)]
pub struct Timestamp {
    pub nanos: i128,
}

/// `a / b`, rounded toward zero.
pub open spec fn toward_zero(a: int, b: int) -> int
    recommends
        b > 0,
{
    if a < 0 {
        -((-a) / b)
    } else {
        a / b
    }
}

impl Timestamp {
    /// Whether the instant lies on the calendar.
    pub open spec fn valid(self) -> bool {
        -MAX_SECS * NANOS_PER_SEC <= self.nanos <= MAX_SECS * NANOS_PER_SEC
    }

    /// The whole seconds since the epoch, rounded down.
    pub fn epoch_secs(self) -> (r: i64)
        requires
            self.valid(),
        ensures
            r as int == self.nanos as int / NANOS_PER_SEC as int,
    {
        let q: i128 = if self.nanos >= 0 {
            self.nanos / NANOS_PER_SEC
        } else {
            let m: i128 = -(self.nanos + 1);
            -(m / NANOS_PER_SEC) - 1
        };
        q as i64
    }

    /// The whole seconds from `then` to this instant, rounded toward zero.
    pub fn secs_since(self, then: Timestamp) -> (r: i64)
        requires
            self.valid(),
            then.valid(),
        ensures
            r as int == toward_zero(self.nanos - then.nanos, NANOS_PER_SEC as int),
    {
        let d: i128 = self.nanos - then.nanos;
        let q: i128 = if d >= 0 {
            d / NANOS_PER_SEC
        } else {
            let m: i128 = -d;
            -(m / NANOS_PER_SEC)
        };
        q as i64
    }

    /// This instant moved by `secs` seconds.
    pub fn plus_secs(self, secs: i64) -> (r: Timestamp)
        requires
            self.valid(),
            -MAX_SECS <= secs <= MAX_SECS,
        ensures
            r.nanos == self.nanos + secs * NANOS_PER_SEC,
    {
        Timestamp { nanos: self.nanos + (secs as i128) * NANOS_PER_SEC }
    }
}

/// The whole seconds of an instant are the last second that had begun by then.
pub proof fn seconds_are_those_begun(t: Timestamp, r: i64)
    requires
        t.valid(),
        call_ensures(Timestamp::epoch_secs, (t,), r),
    ensures
        r * 1_000_000_000 <= t.nanos < (r + 1) * 1_000_000_000,
{
    vstd::arithmetic::div_mod::lemma_fundamental_div_mod(t.nanos as int, 1_000_000_000);
}

/// The seconds between two instants are the whole ones that have passed, counted down where the first is
/// the earlier; and an instant moved by some seconds is that many after where it was.
pub proof fn seconds_between_instants(
    t: Timestamp,
    then: Timestamp,
    r: i64,
    back: i64,
    secs: i64,
    moved: Timestamp,
    d: i64,
)
    requires
        t.valid() && then.valid(),
        -9_000_000_000_000 <= secs <= 9_000_000_000_000,
        call_ensures(Timestamp::secs_since, (t, then), r),
        call_ensures(Timestamp::secs_since, (then, t), back),
        call_ensures(Timestamp::plus_secs, (t, secs), moved),
        moved.valid(),
        call_ensures(Timestamp::secs_since, (moved, t), d),
    ensures
        t.nanos >= then.nanos ==> r * 1_000_000_000 <= t.nanos - then.nanos < (r + 1) * 1_000_000_000,
        back == -r,
        moved.nanos - t.nanos == secs * 1_000_000_000,
        d == secs,
{
    let n: int = t.nanos - then.nanos;
    vstd::arithmetic::div_mod::lemma_fundamental_div_mod(n, 1_000_000_000);
    vstd::arithmetic::div_mod::lemma_fundamental_div_mod(-n, 1_000_000_000);
    let m: int = secs * 1_000_000_000;
    vstd::arithmetic::div_mod::lemma_fundamental_div_mod(m, 1_000_000_000);
    vstd::arithmetic::div_mod::lemma_fundamental_div_mod(-m, 1_000_000_000);
}

} // verus!
