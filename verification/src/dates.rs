//! Reading instants and flags out of query strings and request bodies.
use vstd::prelude::*;

use crate::clock::{Timestamp, NANOS_PER_SEC};
use crate::error::{fails_with, ApiError, ErrorCode};
use crate::text::{ascii_lower, blank, same, trimmed, trimmed_empty_iff_blank};

verus! {

/// What an RFC 3339 text says: the seconds and nanoseconds since the epoch, or why it says nothing.
pub uninterp spec fn rfc3339(s: Seq<char>) -> Result<(i64, u32), Seq<char>>;

/// What a `YYYY-MM-DD` text says: the day, counted from the first of January of the year 1.
pub uninterp spec fn calendar_day(s: Seq<char>) -> Option<i32>;

/// `chrono::DateTime::parse_from_rfc3339`, then `timestamp` and `timestamp_subsec_nanos`; an error is
/// given in its own words. The result depends on the text alone and lies on chrono's calendar, some
/// 262,000 years either way; which texts are accepted is left unsaid.
#[verifier::external_body]
fn read_rfc3339(s: &str) -> (r: Result<(i64, u32), String>)
    ensures
        match r {
            Ok((secs, nanos)) => rfc3339(s@) == Ok::<(i64, u32), Seq<char>>((secs, nanos))
                && -8_500_000_000_000 <= secs <= 8_500_000_000_000 && nanos < 2_000_000_000,
            Err(m) => rfc3339(s@) == Err::<(i64, u32), Seq<char>>(m@),
        },
{
    chrono::DateTime::parse_from_rfc3339(s).map(
        |d| (d.timestamp(), d.timestamp_subsec_nanos()),
    ).map_err(|e| e.to_string())
}

/// `chrono::NaiveDate::parse_from_str` with `%Y-%m-%d`, then `num_days_from_ce`. The result depends
/// on the text alone and lies on chrono's calendar, some 262,000 years either way; which texts are
/// accepted is left unsaid.
#[verifier::external_body]
fn read_day(s: &str) -> (r: Option<i32>)
    ensures
        r == calendar_day(s@),
        r is Some ==> -96_000_000 <= r->0 <= 96_000_000,
{
    chrono::NaiveDate::parse_from_str(s, "%Y-%m-%d").ok().map(
        |d| chrono::Datelike::num_days_from_ce(&d),
    )
}

/// The first second of chrono's calendar: the start of the year 262144 BCE.
pub const FIRST_SECOND: i64 = -8_334_601_228_800;

/// The last second of chrono's calendar: the end of the year 262142.
pub const LAST_SECOND: i64 = 8_210_266_876_799;

/// `chrono::DateTime::from_timestamp`: whether there is such an instant. With nanoseconds below a full
/// second there is one exactly for the seconds of chrono's calendar.
#[verifier::external_body]
fn on_calendar(secs: i64, nanos: u32) -> (r: bool)
    requires
        nanos < 1_000_000_000,
    ensures
        r == (FIRST_SECOND <= secs <= LAST_SECOND),
{
    chrono::DateTime::from_timestamp(secs, nanos).is_some()
}

/// The instant so many nanoseconds after the epoch, if the calendar reaches that far.
pub open spec fn nanos_instant(n: int) -> Option<int> {
    if FIRST_SECOND <= n / NANOS_PER_SEC as int <= LAST_SECOND {
        Some(n)
    } else {
        None
    }
}

/// The instant so many nanoseconds after the epoch.
pub fn from_nanos(n: i128) -> (r: Option<Timestamp>)
    ensures
        match r {
            Some(t) => nanos_instant(n as int) == Some(t.nanos as int) && t.valid(),
            None => nanos_instant(n as int) is None,
        },
{
    let (secs, rem): (i128, i128) = if n >= 0 {
        (n / NANOS_PER_SEC, n % NANOS_PER_SEC)
    } else {
        let m: i128 = -(n + 1);
        (-(m / NANOS_PER_SEC) - 1, NANOS_PER_SEC - 1 - m % NANOS_PER_SEC)
    };
    assert(secs == n as int / NANOS_PER_SEC as int && rem == n as int % NANOS_PER_SEC as int);
    if secs < i64::MIN as i128 || secs > i64::MAX as i128 {
        return None;
    }
    if on_calendar(secs as i64, rem as u32) {
        Some(Timestamp { nanos: n })
    } else {
        None
    }
}

/// A day of the calendar as `YYYY-MM-DD`, by a second within it.
pub uninterp spec fn date_text(secs: i64) -> Seq<char>;

/// `chrono::DateTime::from_timestamp`, then `format` with `%Y-%m-%d`. The text depends on the second
/// alone; how a date is spelled is left unsaid.
#[verifier::external_body]
fn write_date(secs: i64) -> (r: String)
    requires
        FIRST_SECOND <= secs <= LAST_SECOND,
    ensures
        r@ == date_text(secs),
{
    chrono::DateTime::from_timestamp(secs, 0).unwrap_or_default().format("%Y-%m-%d").to_string()
}

/// The day of an instant as `YYYY-MM-DD`.
pub fn show_date(t: Timestamp) -> (r: String)
    requires
        FIRST_SECOND * NANOS_PER_SEC <= t.nanos < (LAST_SECOND + 1) * NANOS_PER_SEC,
    ensures
        r@ == date_text((t.nanos as int / NANOS_PER_SEC as int) as i64),
{
    write_date(t.epoch_secs())
}

/// The day of the Unix epoch, counted from the first of January of the year 1.
pub const EPOCH_DAY: i64 = 719_163;

/// Seconds in a day.
pub const DAY_SECS: i64 = 86_400;

/// The day that a `YYYY-MM-DD` text writes, counted from the Unix epoch.
pub fn epoch_day_of(s: &str) -> (r: Option<i64>)
    ensures
        match calendar_day(s@) {
            Some(d) => r is Some && r->0 == d - EPOCH_DAY,
            None => r is None,
        },
{
    match read_day(s) {
        Some(d) => Some(d as i64 - EPOCH_DAY),
        None => None,
    }
}

/// A day, counted from the Unix epoch, as `YYYY-MM-DD`.
pub fn show_day(day: i64) -> (r: String)
    requires
        FIRST_SECOND <= day * DAY_SECS <= LAST_SECOND,
    ensures
        r@ == date_text((day * DAY_SECS) as i64),
{
    write_date(day * DAY_SECS)
}

/// The instant that an RFC 3339 text names.
pub open spec fn instant_of(s: Seq<char>) -> Option<int> {
    match rfc3339(s) {
        Ok((secs, nanos)) => Some(secs * NANOS_PER_SEC + nanos),
        Err(_) => None,
    }
}

/// The instant that a date or an RFC 3339 text names; a date means its midnight.
pub open spec fn date_or_instant(s: Seq<char>) -> Option<int> {
    match calendar_day(s) {
        Some(d) => Some((d - EPOCH_DAY) * DAY_SECS * NANOS_PER_SEC),
        None => instant_of(s),
    }
}

/// The instant that an RFC 3339 text names, or why it names none.
pub fn parse_rfc3339(s: &str) -> (r: Result<Timestamp, String>)
    ensures
        match r {
            Ok(t) => instant_of(s@) == Some(t.nanos as int) && t.valid(),
            Err(m) => rfc3339(s@) == Err::<(i64, u32), Seq<char>>(m@),
        },
{
    match read_rfc3339(s) {
        Ok((secs, nanos)) => Ok(
            Timestamp { nanos: (secs as i128) * NANOS_PER_SEC + nanos as i128 },
        ),
        Err(m) => Err(m),
    }
}

/// The instant that a date or an RFC 3339 text names.
pub fn parse_date(s: &str) -> (r: Option<Timestamp>)
    ensures
        match r {
            Some(t) => date_or_instant(s@) == Some(t.nanos as int) && t.valid(),
            None => date_or_instant(s@) is None,
        },
{
    match read_day(s) {
        Some(d) => {
            let days: i64 = d as i64 - EPOCH_DAY;
            Some(Timestamp { nanos: (days as i128) * (DAY_SECS as i128) * NANOS_PER_SEC })
        },
        None => match parse_rfc3339(s) {
            Ok(t) => Some(t),
            Err(_) => None,
        },
    }
}

/// How a malformed query timestamp is refused.
pub open spec fn bad_timestamp_text(field: Seq<char>, why: Seq<char>) -> Seq<char> {
    "invalid '"@ + field + "' timestamp: "@ + why
}

/// Reads an optional RFC 3339 query parameter; malformed input is refused.
pub fn parse_opt_ts(field: &str, raw: Option<&str>) -> (r: Result<Option<Timestamp>, ApiError>)
    ensures
        match raw {
            None => r == Ok::<Option<Timestamp>, ApiError>(None),
            Some(s) => match rfc3339(s@) {
                Ok(_) => r is Ok && r->Ok_0 is Some && r->Ok_0->0.valid() && instant_of(s@) == Some(
                    r->Ok_0->0.nanos as int,
                ),
                Err(why) => fails_with(
                    r,
                    ErrorCode::BadRequest,
                    bad_timestamp_text(field@, why),
                ),
            },
        },
{
    match raw {
        None => Ok(None),
        Some(s) => match parse_rfc3339(s) {
            Ok(t) => Ok(Some(t)),
            Err(why) => {
                let mut m = "invalid '".to_owned();
                m.append(field);
                m.append("' timestamp: ");
                m.append(why.as_str());
                Err(ApiError::bad_request(m.as_str()))
            },
        },
    }
}

/// Reads an optional date or RFC 3339 time of a request body. Absent and blank mean none; anything
/// that is neither is refused rather than taken for now.
pub fn opt_date(field: &str, raw: &Option<String>) -> (r: Result<Option<Timestamp>, ApiError>)
    ensures
        if raw is None || blank(raw->0@) {
            r == Ok::<Option<Timestamp>, ApiError>(None)
        } else {
            match date_or_instant(raw->0@) {
                Some(n) => r is Ok && r->Ok_0 is Some && r->Ok_0->0.nanos == n
                    && r->Ok_0->0.valid(),
                None => fails_with(
                    r,
                    ErrorCode::BadRequest,
                    field@ + " must be a date or RFC3339 time"@,
                ),
            }
        },
{
    match raw {
        None => Ok(None),
        Some(s) => {
            proof {
                trimmed_empty_iff_blank(s@);
            }
            if s.as_str().trim().is_empty() {
                return Ok(None);
            }
            match parse_date(s.as_str()) {
                Some(t) => Ok(Some(t)),
                None => {
                    let mut m = field.to_owned();
                    m.append(" must be a date or RFC3339 time");
                    Err(ApiError::bad_request(m.as_str()))
                },
            }
        },
    }
}

/// Whether a text says yes: `1`, `true` or `yes` in any ASCII case, with white space around it.
pub open spec fn says_yes(s: Seq<char>) -> bool {
    let l = ascii_lower(trimmed(s));
    l == "1"@ || l == "true"@ || l == "yes"@
}

/// Whether a query flag is set. Anything that does not say yes reads as unset.
pub fn is_truthy(v: Option<&str>) -> (r: bool)
    ensures
        r == (v is Some && says_yes(v->0@)),
{
    match v {
        None => false,
        Some(s) => {
            let l = s.trim().to_ascii_lowercase();
            same(l.as_str(), "1") || same(l.as_str(), "true") || same(l.as_str(), "yes")
        },
    }
}

/// Whether the caller asked for history to be priced; never unless they said so.
pub fn flag(v: Option<&String>) -> (r: bool)
    ensures
        r == (v is Some && says_yes(v->0@)),
{
    match v {
        None => false,
        Some(s) => is_truthy(Some(s.as_str())),
    }
}

/// `since` of a posture report: the instant named, or thirty days before `now`.
pub fn posture_since(raw: Option<&str>, now: Timestamp) -> (r: Result<Timestamp, ApiError>)
    requires
        now.valid(),
    ensures
        match raw {
            None => r is Ok && r->Ok_0.nanos == now.nanos - 30 * DAY_SECS * NANOS_PER_SEC,
            Some(s) => match instant_of(s@) {
                Some(n) => r is Ok && r->Ok_0.nanos == n,
                None => fails_with(
                    r,
                    ErrorCode::BadRequest,
                    "invalid RFC3339 timestamp: "@ + s@,
                ),
            },
        },
{
    match raw {
        None => Ok(now.plus_secs(-(30 * DAY_SECS))),
        Some(s) => match parse_rfc3339(s) {
            Ok(t) => Ok(t),
            Err(_) => {
                let mut m = "invalid RFC3339 timestamp: ".to_owned();
                m.append(s);
                Err(ApiError::bad_request(m.as_str()))
            },
        },
    }
}

// ------------------------------------------------------------------ how instants are read

/// An instant is read as what its text says, in nanoseconds; a date as its midnight; and what says neither
/// is none.
pub proof fn an_instant_is_what_its_text_says(
    s: &str,
    t: Result<Timestamp, String>,
    d: Option<Timestamp>,
)
    requires
        call_ensures(parse_rfc3339, (s,), t),
        call_ensures(parse_date, (s,), d),
    ensures
        t is Ok <==> rfc3339(s@) is Ok,
        rfc3339(s@) matches Ok((secs, nanos)) ==> t->Ok_0.nanos == secs * 1_000_000_000 + nanos,
        calendar_day(s@) matches Some(day) ==> d is Some && d->0.nanos == (day - 719_163) * 86_400
            * 1_000_000_000,
        calendar_day(s@) is None ==> (d is Some <==> t is Ok) && (d is Some ==> d->0 == t->Ok_0),
{
}

/// An optional bound is absent where it is not given, and otherwise has to be readable, under its own
/// name.
pub proof fn a_bound_has_to_be_readable(
    name: &str,
    raw: Option<&str>,
    r: Result<Option<Timestamp>, ApiError>,
    x: &str,
    t: Result<Timestamp, String>,
)
    requires
        call_ensures(parse_opt_ts, (name, raw), r),
        raw is Some ==> x@ == raw->0@,
        call_ensures(parse_rfc3339, (x,), t),
    ensures
        raw is None ==> r is Ok && r->Ok_0 is None,
        raw is Some ==> (r is Ok <==> t is Ok),
        raw is Some && r is Ok ==> r->Ok_0 is Some && r->Ok_0->0 == t->Ok_0,
        r is Err ==> r->Err_0.code is BadRequest && crate::text::has_within(
            r->Err_0.message@,
            "'"@ + name@ + "'"@,
        ),
{
    if r is Err {
        reveal_strlit("invalid '");
        reveal_strlit("invalid ");
        reveal_strlit("' timestamp: ");
        reveal_strlit(" timestamp: ");
        reveal_strlit("'");
        let why = rfc3339(raw->0@)->Err_0;
        let m = "'"@ + name@ + "'"@;
        crate::text::stands_between("invalid "@, m, " timestamp: "@ + why);
        assert(r->Err_0.message@ =~= "invalid "@ + m + (" timestamp: "@ + why));
    }
}

/// A date of a request is absent where nothing is said, and otherwise a date or an instant; anything else
/// is refused.
pub proof fn a_date_is_read_or_refused(
    name: &str,
    raw: &Option<String>,
    r: Result<Option<Timestamp>, ApiError>,
    x: &str,
    d: Option<Timestamp>,
)
    requires
        call_ensures(opt_date, (name, raw), r),
        *raw is Some ==> x@ == raw->0@,
        call_ensures(parse_date, (x,), d),
    ensures
        *raw is None || blank(raw->0@) ==> r is Ok && r->Ok_0 is None,
        *raw is Some && !blank(raw->0@) ==> (r is Ok <==> d is Some),
        *raw is Some && !blank(raw->0@) && r is Ok ==> r->Ok_0 == d,
        r is Err ==> r->Err_0.code is BadRequest,
{
}

/// A flag is set exactly where it says `1`, `true` or `yes`, in any case and with space around it.
pub proof fn a_flag_says_yes(v: Option<&str>, a: bool, w: Option<&String>, b: bool)
    requires
        call_ensures(is_truthy, (v,), a),
        call_ensures(flag, (w,), b),
    ensures
        a <==> v is Some && (ascii_lower(trimmed(v->0@)) == "1"@ || ascii_lower(trimmed(v->0@))
            == "true"@ || ascii_lower(trimmed(v->0@)) == "yes"@),
        b <==> w is Some && (ascii_lower(trimmed(w->0@)) == "1"@ || ascii_lower(trimmed(w->0@))
            == "true"@ || ascii_lower(trimmed(w->0@)) == "yes"@),
{
}

/// A posture report begins when it is told, or thirty days back.
pub proof fn a_posture_begins_thirty_days_back(
    raw: Option<&str>,
    now: Timestamp,
    r: Result<Timestamp, ApiError>,
    n: i128,
    t: Option<Timestamp>,
)
    requires
        now.valid(),
        call_ensures(posture_since, (raw, now), r),
        call_ensures(from_nanos, (n,), t),
    ensures
        raw is None ==> r is Ok && r->Ok_0.nanos + 30 * 86_400 * 1_000_000_000 == now.nanos,
        raw is Some ==> (r is Ok <==> rfc3339(raw->0@) is Ok),
        raw is Some && r is Ok ==> (rfc3339(raw->0@) matches Ok((secs, nanos)) && r->Ok_0.nanos == secs
            * 1_000_000_000 + nanos),
        r is Err ==> r->Err_0.code is BadRequest,
        t is Some ==> t->0.nanos == n,
        t is Some <==> -8_334_601_228_800 * 1_000_000_000 <= n < 8_210_266_876_800 * 1_000_000_000,
{
}

/// A day is written as the date of its own first second, and an instant as the date of the second it lies
/// in: the two agree where a day begins. A date is read as the days since the epoch.
pub proof fn a_day_is_written_by_its_own_date(
    day: i64,
    d: String,
    t: Timestamp,
    s: String,
    x: &str,
    e: Option<i64>,
)
    requires
        call_ensures(show_day, (day,), d),
        call_ensures(show_date, (t,), s),
        call_ensures(epoch_day_of, (x,), e),
    ensures
        t.nanos == day * 86_400 * 1_000_000_000 ==> s@ == d@,
        calendar_day(x@) is Some <==> e is Some,
        e is Some ==> e->0 == calendar_day(x@)->0 - 719_163,
{
    if t.nanos == day * 86_400 * 1_000_000_000 {
        vstd::arithmetic::div_mod::lemma_div_multiples_vanish(day * 86_400, 1_000_000_000);
        assert(t.nanos as int == 1_000_000_000 * (day * 86_400));
    }
}

} // verus!
