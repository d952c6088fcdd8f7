//! What an event has to satisfy before it is priced, admitted and stored, and how large a request may
//! be.
use vstd::prelude::*;

use crate::clock::{toward_zero, Timestamp, NANOS_PER_SEC};
use crate::error::{plain_error, ApiError, ErrorCode};
use crate::event::LlmEvent;
use crate::text::{
    blank, dec_int, parse_int, parse_uint, parsed_int, parsed_uint, show_i64, trimmed,
    trimmed_empty_iff_blank,
};

verus! {

/// Seconds an event may lie ahead of the server's clock: five minutes.
pub const DEFAULT_SKEW_FUTURE_SECS: i64 = 300;

/// Seconds an event may lie behind the server's clock: seven days.
pub const DEFAULT_SKEW_PAST_SECS: i64 = 604_800;

/// Largest single-event request, in bytes.
pub const DEFAULT_MAX_BODY_BYTES: usize = 2_097_152;

/// Most events in one batch.
pub const DEFAULT_MAX_BATCH: usize = 500;

/// Largest batch request, in bytes.
pub const DEFAULT_MAX_BATCH_BODY_BYTES: usize = 8_388_608;

/// The limit a setting names: a number above zero, else the default.
pub open spec fn positive_or(raw: Option<Seq<char>>, default: usize) -> usize {
    match raw {
        None => default,
        Some(s) => match parsed_uint(trimmed(s), usize::MAX as nat) {
            Some(n) => if n > 0 {
                n as usize
            } else {
                default
            },
            None => default,
        },
    }
}

fn limit_from(raw: Option<&str>, default: usize) -> (r: usize)
    ensures
        r == positive_or(crate::event::text_view(raw), default),
{
    match raw {
        None => default,
        Some(s) => match parse_uint(s.trim(), usize::MAX as u64) {
            Some(n) => if n > 0 {
                n as usize
            } else {
                default
            },
            None => default,
        },
    }
}

/// The single-event body limit.
pub fn body_limit_bytes(raw: Option<&str>) -> (r: usize)
    ensures
        r == positive_or(crate::event::text_view(raw), DEFAULT_MAX_BODY_BYTES),
{
    limit_from(raw, DEFAULT_MAX_BODY_BYTES)
}

/// The most events in one batch.
pub fn max_batch(raw: Option<&str>) -> (r: usize)
    ensures
        r == positive_or(crate::event::text_view(raw), DEFAULT_MAX_BATCH),
{
    limit_from(raw, DEFAULT_MAX_BATCH)
}

/// The batch body limit.
pub fn batch_body_limit_bytes(raw: Option<&str>) -> (r: usize)
    ensures
        r == positive_or(crate::event::text_view(raw), DEFAULT_MAX_BATCH_BODY_BYTES),
{
    limit_from(raw, DEFAULT_MAX_BATCH_BODY_BYTES)
}

/// Why an event was not taken: a stable code and words for people.
#[derive(Debug)]
pub struct Rejection {
    pub code: ErrorCode,
    pub message: String,
}

impl Rejection {
    /// A rejection with a code and words.
    pub fn new(code: ErrorCode, message: &str) -> (r: Rejection)
        ensures
            r.code == code,
            r.message@ == message@,
    {
        Rejection { code, message: message.to_owned() }
    }

    /// The rejection as the answer to a single event: the same code, the same words.
    pub fn into_error(self) -> (r: ApiError)
        ensures
            plain_error(r, self.code, self.message@),
    {
        ApiError::new(self.code, self.message.as_str())
    }
}

/// How far an event's time may lie from the server's. Zero switches a bound off.
#[derive(Debug, Clone, Copy, PartialEq, Eq, Structural)]
pub struct IngestPolicy {
    pub max_future_secs: i64,
    pub max_past_secs: i64,
}

/// A setting as a number of seconds from zero up; nothing where it is unset or no number.
pub open spec fn secs_of(raw: Option<Seq<char>>) -> Option<int> {
    match raw {
        None => None,
        Some(s) => match parsed_int(trimmed(s)) {
            Some(n) => Some(
                if n < 0 {
                    0
                } else {
                    n
                },
            ),
            None => None,
        },
    }
}

fn secs_from(raw: Option<&str>) -> (r: Option<i64>)
    ensures
        match r {
            Some(n) => secs_of(crate::event::text_view(raw)) == Some(n as int),
            None => secs_of(crate::event::text_view(raw)) is None,
        },
{
    match raw {
        None => None,
        Some(s) => match parse_int(s.trim()) {
            Some(n) => Some(
                if n < 0 {
                    0
                } else {
                    n
                },
            ),
            None => None,
        },
    }
}

/// How far ahead of the server an event lies, in whole seconds.
pub open spec fn lead_secs(ev: LlmEvent, now: Timestamp) -> int {
    toward_zero(ev.ts.nanos - now.nanos, NANOS_PER_SEC as int)
}

/// How an event from the future is refused.
pub open spec fn too_new_text(delta: int, allowed: int) -> Seq<char> {
    "`ts` is "@ + dec_int(delta) + "s ahead of server time, beyond the allowed "@ + dec_int(allowed)
        + "s future skew (see LIGHTTRACK_MAX_TS_SKEW_FUTURE_SECS)"@
}

/// How an event from the past is refused.
pub open spec fn too_old_text(delta: int, allowed: int) -> Seq<char> {
    "`ts` is "@ + dec_int(delta) + "s behind server time, beyond the allowed "@ + dec_int(allowed)
        + "s past skew (see LIGHTTRACK_MAX_TS_SKEW_PAST_SECS)"@
}

impl IngestPolicy {
    /// Reads the settings: the symmetric one wins where it is set, zero included; otherwise each bound
    /// has its own, with a default.
    pub fn from_raw(symmetric: Option<&str>, future: Option<&str>, past: Option<&str>) -> (r:
        IngestPolicy)
        ensures
            match secs_of(crate::event::text_view(symmetric)) {
                Some(n) => r.max_future_secs == n && r.max_past_secs == n,
                None => {
                    &&& r.max_future_secs == (match secs_of(crate::event::text_view(future)) {
                        Some(n) => n,
                        None => DEFAULT_SKEW_FUTURE_SECS as int,
                    })
                    &&& r.max_past_secs == (match secs_of(crate::event::text_view(past)) {
                        Some(n) => n,
                        None => DEFAULT_SKEW_PAST_SECS as int,
                    })
                },
            },
    {
        if let Some(n) = secs_from(symmetric) {
            return IngestPolicy { max_future_secs: n, max_past_secs: n };
        }
        IngestPolicy {
            max_future_secs: match secs_from(future) {
                Some(n) => n,
                None => DEFAULT_SKEW_FUTURE_SECS,
            },
            max_past_secs: match secs_from(past) {
                Some(n) => n,
                None => DEFAULT_SKEW_PAST_SECS,
            },
        }
    }

    /// Whether the event is too far ahead.
    pub open spec fn too_new(self, ev: LlmEvent, now: Timestamp) -> bool {
        self.max_future_secs > 0 && lead_secs(ev, now) > self.max_future_secs
    }

    /// Whether the event is too far behind.
    pub open spec fn too_old(self, ev: LlmEvent, now: Timestamp) -> bool {
        self.max_past_secs > 0 && -lead_secs(ev, now) > self.max_past_secs
    }

    /// What is wrong with an event, if anything: an empty model first, then a time too far ahead, then
    /// one too far behind.
    pub open spec fn fault(self, ev: LlmEvent, now: Timestamp) -> Option<(ErrorCode, Seq<char>)> {
        if blank(ev.model@) {
            Some((ErrorCode::BadRequest, "`model` must not be empty"@))
        } else if self.too_new(ev, now) {
            Some(
                (
                    ErrorCode::TsTooNew,
                    too_new_text(lead_secs(ev, now), self.max_future_secs as int),
                ),
            )
        } else if self.too_old(ev, now) {
            Some(
                (ErrorCode::TsTooOld, too_old_text(-lead_secs(ev, now), self.max_past_secs as int)),
            )
        } else {
            None
        }
    }

    /// Refuses an event with something wrong with it. Any provider is accepted.
    pub fn validate(&self, ev: &LlmEvent, now: Timestamp) -> (r: Result<(), Rejection>)
        requires
            ev.ts.valid(),
            now.valid(),
        ensures
            match self.fault(*ev, now) {
                None => r is Ok,
                Some((c, m)) => r is Err && r->Err_0.code == c && r->Err_0.message@ == m,
            },
    {
        proof {
            trimmed_empty_iff_blank(ev.model@);
        }
        if ev.model.as_str().trim().is_empty() {
            return Err(Rejection::new(ErrorCode::BadRequest, "`model` must not be empty"));
        }
        let delta: i64 = ev.ts.secs_since(now);
        assert(-0x4000_0000_0000_0000 < delta < 0x4000_0000_0000_0000);
        if self.max_future_secs > 0 && delta > self.max_future_secs {
            let d = show_i64(delta);
            let a = show_i64(self.max_future_secs);
            let mut m = "`ts` is ".to_owned();
            m.append(d.as_str());
            m.append("s ahead of server time, beyond the allowed ");
            m.append(a.as_str());
            m.append("s future skew (see LIGHTTRACK_MAX_TS_SKEW_FUTURE_SECS)");
            return Err(Rejection::new(ErrorCode::TsTooNew, m.as_str()));
        }
        if self.max_past_secs > 0 && -delta > self.max_past_secs {
            let d = show_i64(-delta);
            let a = show_i64(self.max_past_secs);
            let mut m = "`ts` is ".to_owned();
            m.append(d.as_str());
            m.append("s behind server time, beyond the allowed ");
            m.append(a.as_str());
            m.append("s past skew (see LIGHTTRACK_MAX_TS_SKEW_PAST_SECS)");
            return Err(Rejection::new(ErrorCode::TsTooOld, m.as_str()));
        }
        Ok(())
    }
}

/// With both bounds switched off no time is refused.
pub proof fn switched_off_accepts_any_time(ev: LlmEvent, now: Timestamp)
    ensures
        !blank(ev.model@) ==> (IngestPolicy { max_future_secs: 0, max_past_secs: 0 }).fault(
            ev,
            now,
        ) is None,
{
}

/// No event is both too new and too old: the two directions never blur.
pub proof fn too_new_and_too_old_exclude_each_other(p: IngestPolicy, ev: LlmEvent, now: Timestamp)
    ensures
        !(p.too_new(ev, now) && p.too_old(ev, now)),
{
}

/// An event is taken exactly where it names a model and lies no further ahead and no further behind than
/// is allowed, each way by its own bound; a bound of zero allows everything.
pub proof fn an_event_is_taken_within_its_skew(
    p: &IngestPolicy,
    ev: &LlmEvent,
    now: Timestamp,
    r: Result<(), Rejection>,
)
    requires
        ev.ts.valid(),
        now.valid(),
        call_ensures(IngestPolicy::validate, (p, ev, now), r),
    ensures
        r is Err ==> (r->Err_0.code is BadRequest <==> blank(ev.model@)),
        blank(ev.model@) ==> r is Err,
        !blank(ev.model@) ==> {
            let ahead = p.max_future_secs > 0 && ev.ts.nanos - now.nanos >= (p.max_future_secs + 1)
                * 1_000_000_000;
            let behind = p.max_past_secs > 0 && now.nanos - ev.ts.nanos >= (p.max_past_secs + 1)
                * 1_000_000_000;
            &&& r is Ok <==> !ahead && !behind
            &&& ahead ==> r->Err_0.code is TsTooNew
            &&& behind ==> r->Err_0.code is TsTooOld
        },
{
}

/// One setting for both ways wins over the two; left to themselves events may lie five minutes ahead and
/// seven days behind; a number below zero is none at all.
pub proof fn skew_is_set_both_ways_or_each(
    symmetric: Option<&str>,
    future: Option<&str>,
    past: Option<&str>,
    r: IngestPolicy,
)
    requires
        call_ensures(IngestPolicy::from_raw, (symmetric, future, past), r),
    ensures
        symmetric is Some && parsed_int(trimmed(symmetric->0@)) is Some ==> r.max_future_secs
            == r.max_past_secs,
        symmetric is Some && parsed_int(trimmed(symmetric->0@)) is Some && parsed_int(
            trimmed(symmetric->0@),
        )->0 >= 0 ==> r.max_future_secs == parsed_int(trimmed(symmetric->0@))->0,
        symmetric is None && future is None ==> r.max_future_secs == 5 * 60,
        symmetric is None && past is None ==> r.max_past_secs == 7 * 86_400,
        symmetric is None && future is Some && parsed_int(trimmed(future->0@)) is Some && parsed_int(
            trimmed(future->0@),
        )->0 >= 0 ==> r.max_future_secs == parsed_int(trimmed(future->0@))->0,
        symmetric is None && past is Some && parsed_int(trimmed(past->0@)) is Some && parsed_int(
            trimmed(past->0@),
        )->0 >= 0 ==> r.max_past_secs == parsed_int(trimmed(past->0@))->0,
        r.max_future_secs >= 0 && r.max_past_secs >= 0,
{
}

/// A request is bounded by its own setting where that is a number above zero, else by two mebibytes for
/// one event, and by five hundred events and eight mebibytes for a batch.
pub proof fn requests_are_bounded(raw: Option<&str>, a: usize, b: usize, c: usize)
    requires
        call_ensures(body_limit_bytes, (raw,), a),
        call_ensures(max_batch, (raw,), b),
        call_ensures(batch_body_limit_bytes, (raw,), c),
    ensures
        a > 0 && b > 0 && c > 0,
        raw is None ==> a == 2 * 1024 * 1024 && b == 500 && c == 8 * 1024 * 1024,
        raw is Some && parsed_uint(trimmed(raw->0@), usize::MAX as nat) is Some && parsed_uint(
            trimmed(raw->0@),
            usize::MAX as nat,
        )->0 > 0 ==> a == parsed_uint(trimmed(raw->0@), usize::MAX as nat)->0 && b == a && c == a,
        raw is Some && parsed_uint(trimmed(raw->0@), usize::MAX as nat) is None ==> a == 2 * 1024 * 1024
            && b == 500 && c == 8 * 1024 * 1024,
{
}

/// A rejection answers a single event with its own code and words.
pub proof fn a_rejection_is_answered_in_its_own_words(x: Rejection, r: ApiError)
    requires
        call_ensures(Rejection::into_error, (x,), r),
    ensures
        r.code == x.code,
        r.message@ == x.message@,
        r.retry_after is None && r.proximity is None,
{
}

} // verus!
