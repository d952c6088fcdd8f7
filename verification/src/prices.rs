//! The price book: where it came from, how stale it is, and what pricing history came to.
use vstd::prelude::*;

use crate::clock::{Timestamp, NANOS_PER_SEC};
use crate::dates::{date_or_instant, flag, opt_date, says_yes};
use crate::error::{fails_with, ApiError, ErrorCode};
use crate::text::{blank, same};

verus! {

/// What reading the operator's price file came to.
#[derive(Debug, Clone, Copy, PartialEq, Eq, Structural)]
pub enum FileOutcome {
    Parsed,
    Unparsable,
    Missing,
    Unreadable,
}

/// Where the price book came from.
#[derive(Debug, Clone, Copy, PartialEq, Eq, Structural)]
pub enum PriceSeed {
    File,
    Embedded,
}

/// What is said of a file that does not parse.
pub const UNPARSABLE_MSG: &'static str = "pricing file did not parse; using the compiled-in price book";

/// What is said of a file that cannot be read.
pub const UNREADABLE_MSG: &'static str = "pricing file exists but could not be read; using the compiled-in price book";

/// Which book is used, and what to warn of: the file where it parses, else the compiled-in copy. A file
/// that is not there needs no word; one that is there and is of no use does.
pub fn seed_source(o: FileOutcome) -> (r: (PriceSeed, Option<&'static str>))
    ensures
        r.0 == (if o == FileOutcome::Parsed {
            PriceSeed::File
        } else {
            PriceSeed::Embedded
        }),
        match o {
            FileOutcome::Parsed => r.1 is None,
            FileOutcome::Missing => r.1 is None,
            FileOutcome::Unparsable => r.1 is Some && r.1->0@ == UNPARSABLE_MSG@,
            FileOutcome::Unreadable => r.1 is Some && r.1->0@ == UNREADABLE_MSG@,
        },
{
    match o {
        FileOutcome::Parsed => (PriceSeed::File, None),
        FileOutcome::Missing => (PriceSeed::Embedded, None),
        FileOutcome::Unparsable => (PriceSeed::Embedded, Some(UNPARSABLE_MSG)),
        FileOutcome::Unreadable => (PriceSeed::Embedded, Some(UNREADABLE_MSG)),
    }
}

/// What is said of a book that nobody checked lately.
pub const STALE_MSG: &'static str = "the model price book has not been verified recently — every cost, margin and limit number is computed from these rates; re-check them against the vendors' pricing pages";

/// What is said of a book that nobody ever vouched for.
pub const UNVERIFIED_MSG: &'static str = "no row in the model price book carries a verification date — costs are computed from rates nobody has vouched for; set `verified_at` when you next confirm them";

/// What to warn of at boot: nothing while the book is fresh.
pub fn price_posture(stale: bool, verified: bool) -> (r: Option<&'static str>)
    ensures
        !stale ==> r is None,
        stale && verified ==> r is Some && r->0@ == STALE_MSG@,
        stale && !verified ==> r is Some && r->0@ == UNVERIFIED_MSG@,
{
    if !stale {
        None
    } else if verified {
        Some(STALE_MSG)
    } else {
        Some(UNVERIFIED_MSG)
    }
}

/// When a rate takes effect and when it was last checked.
#[derive(Debug, Clone, Copy, PartialEq, Eq, Structural)]
pub struct PriceDates {
    pub effective_from: Timestamp,
    pub verified_at: Option<Timestamp>,
}

/// What an optional date of a request says: nothing where it is absent or blank, else the instant, else
/// that it is no date.
pub open spec fn date_said(raw: Option<String>) -> Result<Option<int>, ()> {
    if raw is None || blank(raw->0@) {
        Ok(None)
    } else {
        match date_or_instant(raw->0@) {
            Some(n) => Ok(Some(n)),
            None => Err(()),
        }
    }
}

/// Reads a rate's dates: it takes effect now unless a date is given. A date that is none is refused,
/// never taken for now.
pub fn price_dates(effective_from: &Option<String>, verified_at: &Option<String>, now: Timestamp) -> (r:
    Result<PriceDates, ApiError>)
    ensures
        match (date_said(*effective_from), date_said(*verified_at)) {
            (Err(_), _) => fails_with(
                r,
                ErrorCode::BadRequest,
                "effective_from"@ + " must be a date or RFC3339 time"@,
            ),
            (Ok(_), Err(_)) => fails_with(
                r,
                ErrorCode::BadRequest,
                "verified_at"@ + " must be a date or RFC3339 time"@,
            ),
            (Ok(e), Ok(v)) => {
                &&& r is Ok
                &&& r->Ok_0.effective_from.nanos == (match e {
                    Some(n) => n,
                    None => now.nanos as int,
                })
                &&& match v {
                    Some(n) => r->Ok_0.verified_at is Some && r->Ok_0.verified_at->0.nanos == n,
                    None => r->Ok_0.verified_at is None,
                }
            },
        },
{
    let e = match opt_date("effective_from", effective_from) {
        Err(e) => {
            return Err(e);
        },
        Ok(Some(t)) => t,
        Ok(None) => now,
    };
    match opt_date("verified_at", verified_at) {
        Err(e) => Err(e),
        Ok(v) => Ok(PriceDates { effective_from: e, verified_at: v }),
    }
}

/// How far back the recount after a fill looks: from the given date, or ninety days back.
pub fn recount_since(raw: &Option<String>, now: Timestamp) -> (r: Result<Timestamp, ApiError>)
    requires
        now.valid(),
    ensures
        match date_said(*raw) {
            Err(_) => fails_with(
                r,
                ErrorCode::BadRequest,
                "since"@ + " must be a date or RFC3339 time"@,
            ),
            Ok(Some(n)) => r is Ok && r->Ok_0.nanos == n,
            Ok(None) => r is Ok && r->Ok_0.nanos == now.nanos - 7_776_000 * NANOS_PER_SEC,
        },
{
    match opt_date("since", raw) {
        Err(e) => Err(e),
        Ok(Some(t)) => Ok(t),
        Ok(None) => Ok(now.plus_secs(-7_776_000)),
    }
}

/// Whether a rate is also applied to the past, and from when the calls it leaves are counted: only where
/// the caller asks for it, and the date is read only then.
pub fn plan_fill(asked: Option<&String>, since: &Option<String>, now: Timestamp) -> (r: Result<
    Option<Timestamp>,
    ApiError,
>)
    requires
        now.valid(),
    ensures
        if asked is Some && says_yes(asked->0@) {
            match date_said(*since) {
                Err(_) => fails_with(
                    r,
                    ErrorCode::BadRequest,
                    "since"@ + " must be a date or RFC3339 time"@,
                ),
                Ok(Some(n)) => r is Ok && r->Ok_0 is Some && r->Ok_0->0.nanos == n,
                Ok(None) => r is Ok && r->Ok_0 is Some && r->Ok_0->0.nanos == now.nanos - 7_776_000
                    * NANOS_PER_SEC,
            }
        } else {
            r == Ok::<Option<Timestamp>, ApiError>(None)
        },
{
    if !flag(asked) {
        return Ok(None);
    }
    match recount_since(since, now) {
        Ok(t) => Ok(Some(t)),
        Err(e) => Err(e),
    }
}

/// Calls without a cost, by provider and model.
#[derive(Debug)]
pub struct Unpriced {
    pub provider: String,
    pub model: String,
    pub calls: u64,
}

/// The calls of one provider and model that are still without a cost.
pub open spec fn still_unpriced(rows: Seq<Unpriced>, provider: Seq<char>, model: Seq<char>) -> nat
    decreases rows.len(),
{
    if rows.len() == 0 {
        0
    } else {
        still_unpriced(rows.drop_last(), provider, model) + (if rows.last().provider@ == provider
            && rows.last().model@ == model {
            rows.last().calls as nat
        } else {
            0nat
        })
    }
}

proof fn still_unpriced_grows(rows: Seq<Unpriced>, provider: Seq<char>, model: Seq<char>, i: int)
    requires
        0 <= i <= rows.len(),
    ensures
        still_unpriced(rows.take(i), provider, model) <= still_unpriced(rows, provider, model),
    decreases rows.len() - i,
{
    if i == rows.len() {
        assert(rows.take(i) =~= rows);
    } else {
        assert(rows.take(i + 1).drop_last() =~= rows.take(i));
        still_unpriced_grows(rows, provider, model, i + 1);
    }
}

/// Counts the calls of one provider and model that are still without a cost.
pub fn remaining_unpriced(rows: &Vec<Unpriced>, provider: &str, model: &str) -> (r: u64)
    requires
        still_unpriced(rows@, provider@, model@) <= u64::MAX,
    ensures
        r == still_unpriced(rows@, provider@, model@),
{
    let mut n: u64 = 0;
    let mut i: usize = 0;
    while i < rows.len()
        invariant
            still_unpriced(rows@, provider@, model@) <= u64::MAX,
            i <= rows.len(),
            n == still_unpriced(rows@.take(i as int), provider@, model@),
        decreases rows.len() - i,
    {
        proof {
            assert(rows@.take(i + 1).drop_last() =~= rows@.take(i as int));
            still_unpriced_grows(rows@, provider@, model@, i + 1);
        }
        if same(rows[i].provider.as_str(), provider) && same(rows[i].model.as_str(), model) {
            n = n + rows[i].calls;
        }
        i += 1;
    }
    assert(rows@.take(i as int) =~= rows@);
    n
}

// ------------------------------------------------------------------ what the book is read to say

/// The operator's file is used exactly where it parses; a file that is there and of no use is warned of,
/// one that is not there is not; and a book is warned of exactly while it is stale.
pub proof fn a_book_is_used_or_warned_of(
    o: FileOutcome,
    r: (PriceSeed, Option<&'static str>),
    stale: bool,
    verified: bool,
    w: Option<&'static str>,
)
    requires
        call_ensures(seed_source, (o,), r),
        call_ensures(price_posture, (stale, verified), w),
    ensures
        r.0 is File <==> o is Parsed,
        r.1 is Some <==> o is Unparsable || o is Unreadable,
        w is Some <==> stale,
{
}

/// A rate takes effect when it says, and now where it does not say; it is vouched for when it says, and
/// not where it does not; and a date that cannot be read is refused, each under its own name.
pub proof fn a_rate_is_dated_by_what_it_says(
    from: &Option<String>,
    verified: &Option<String>,
    now: Timestamp,
    r: Result<PriceDates, ApiError>,
)
    requires
        call_ensures(price_dates, (from, verified, now), r),
    ensures
        r is Err <==> (*from is Some && !blank(from->0@) && date_or_instant(from->0@) is None) || (
        *verified is Some && !blank(verified->0@) && date_or_instant(verified->0@) is None),
        r is Err ==> r->Err_0.code is BadRequest,
        r is Ok && (*from is None || blank(from->0@)) ==> r->Ok_0.effective_from == now,
        r is Ok && *from is Some && !blank(from->0@) ==> date_or_instant(from->0@) == Some(
            r->Ok_0.effective_from.nanos as int,
        ),
        r is Ok && (*verified is None || blank(verified->0@)) ==> r->Ok_0.verified_at is None,
        r is Ok && *verified is Some && !blank(verified->0@) ==> r->Ok_0.verified_at is Some
            && date_or_instant(verified->0@) == Some(r->Ok_0.verified_at->0.nanos as int),
{
}

/// History is priced only where the caller says so, from the date they give, or the last ninety days.
pub proof fn history_is_priced_on_demand(
    asked: Option<&String>,
    since: &Option<String>,
    now: Timestamp,
    r: Result<Option<Timestamp>, ApiError>,
    from: Result<Timestamp, ApiError>,
)
    requires
        now.valid(),
        call_ensures(plan_fill, (asked, since, now), r),
        call_ensures(recount_since, (since, now), from),
    ensures
        asked is None || !says_yes(asked->0@) ==> r is Ok && r->Ok_0 is None,
        asked is Some && says_yes(asked->0@) ==> (r is Ok <==> from is Ok),
        asked is Some && says_yes(asked->0@) && r is Ok ==> r->Ok_0 is Some && r->Ok_0->0 == from->Ok_0,
        *since is None || blank(since->0@) ==> from is Ok && from->Ok_0.nanos + 90 * 86_400 * 1_000_000_000
            == now.nanos,
        *since is Some && !blank(since->0@) ==> (from is Ok <==> date_or_instant(since->0@) is Some),
        *since is Some && !blank(since->0@) && from is Ok ==> date_or_instant(since->0@) == Some(
            from->Ok_0.nanos as int,
        ),
        from is Err ==> from->Err_0.code is BadRequest,
{
}

/// One more row adds its calls to those left without a cost exactly where both its provider and its model
/// are the ones asked about.
pub proof fn unpriced_calls_add_up(
    before: &Vec<Unpriced>,
    after: &Vec<Unpriced>,
    provider: &str,
    model: &str,
    a: u64,
    b: u64,
)
    requires
        still_unpriced(before@, provider@, model@) <= u64::MAX,
        still_unpriced(after@, provider@, model@) <= u64::MAX,
        after@.len() > 0 && after@.drop_last() == before@,
        call_ensures(remaining_unpriced, (before, provider, model), a),
        call_ensures(remaining_unpriced, (after, provider, model), b),
    ensures
        before@.len() == 0 ==> a == 0,
        after@.last().provider@ == provider@ && after@.last().model@ == model@ ==> b == a
            + after@.last().calls,
        !(after@.last().provider@ == provider@ && after@.last().model@ == model@) ==> b == a,
{
}

} // verus!
