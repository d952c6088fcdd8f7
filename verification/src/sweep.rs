//! The scheduled forecast: when it runs and what it looks at.
use vstd::prelude::*;

use crate::event::text_view;
use crate::forecast::held;
use crate::text::{dec, parse_uint, parsed_uint, show_u64, trimmed};

verus! {

/// The least interval between two sweeps, in seconds.
pub const MIN_INTERVAL_SECS: u64 = 60;

/// How far ahead and how far back a sweep looks when nobody says.
pub const DEFAULT_HORIZON: u32 = 14;
pub const DEFAULT_LOOKBACK: u32 = 14;

/// When the sweep runs and what it looks at.
#[derive(Debug, Clone, Copy, PartialEq, Eq, Structural)]
pub struct SweepConfig {
    pub interval_secs: u64,
    pub horizon: u32,
    pub lookback: u32,
}

/// A setting as a number.
pub open spec fn number_in(raw: Option<Seq<char>>) -> Option<nat> {
    match raw {
        Some(s) => parsed_uint(trimmed(s), u64::MAX as nat),
        None => None,
    }
}

fn read_number(raw: Option<&str>) -> (r: Option<u64>)
    ensures
        match r {
            Some(n) => number_in(text_view(raw)) == Some(n as nat),
            None => number_in(text_view(raw)) is None,
        },
{
    match raw {
        Some(s) => parse_uint(s.trim(), u64::MAX),
        None => None,
    }
}

/// A setting as a number of days within bounds, with a default.
pub open spec fn days_in(raw: Option<Seq<char>>, default: int, low: int, high: int) -> int {
    held(
        match number_in(raw) {
            Some(n) => n as int,
            None => default,
        },
        low,
        high,
    )
}

fn read_days(raw: Option<&str>, default: u32, low: u32, high: u32) -> (r: u32)
    requires
        low <= high,
    ensures
        r == days_in(text_view(raw), default as int, low as int, high as int),
{
    let n: u64 = match read_number(raw) {
        Some(n) => n,
        None => default as u64,
    };
    if n < low as u64 {
        low
    } else if n > high as u64 {
        high
    } else {
        n as u32
    }
}

impl SweepConfig {
    /// Reads the settings; nothing when the sweep is off, which it is unless it was set to a number
    /// above zero.
    pub fn from_raw(secs: Option<&str>, horizon: Option<&str>, lookback: Option<&str>) -> (r: Option<
        SweepConfig,
    >)
        ensures
            match number_in(text_view(secs)) {
                None => r is None,
                Some(n) => if n == 0 {
                    r is None
                } else {
                    &&& r is Some
                    &&& r->0.interval_secs == (if n < MIN_INTERVAL_SECS {
                        MIN_INTERVAL_SECS as nat
                    } else {
                        n
                    })
                    &&& r->0.horizon == days_in(text_view(horizon), 14, 1, 90)
                    &&& r->0.lookback == days_in(text_view(lookback), 14, 2, 90)
                },
            },
    {
        match read_number(secs) {
            None => None,
            Some(n) => {
                if n == 0 {
                    return None;
                }
                Some(
                    SweepConfig {
                        interval_secs: if n < MIN_INTERVAL_SECS {
                            MIN_INTERVAL_SECS
                        } else {
                            n
                        },
                        horizon: read_days(horizon, DEFAULT_HORIZON, 1, 90),
                        lookback: read_days(lookback, DEFAULT_LOOKBACK, 2, 90),
                    },
                )
            },
        }
    }

    /// What each project's forecast looks at.
    pub fn shape(cfg: Option<SweepConfig>) -> (r: (u32, u32))
        ensures
            match cfg {
                Some(c) => r == (c.horizon, c.lookback),
                None => r == (DEFAULT_HORIZON, DEFAULT_LOOKBACK),
            },
    {
        match cfg {
            Some(c) => (c.horizon, c.lookback),
            None => (DEFAULT_HORIZON, DEFAULT_LOOKBACK),
        }
    }
}

/// One line that says whether anyone will be told.
pub fn describe(cfg: Option<SweepConfig>) -> (r: String)
    ensures
        r@ == (match cfg {
            None => "off (set LIGHTTRACK_FORECAST_SWEEP_SECS)"@,
            Some(c) => "every "@ + dec(c.interval_secs as nat) + "s (horizon "@ + dec(
                c.horizon as nat,
            ) + "d, lookback "@ + dec(c.lookback as nat) + "d)"@,
        }),
{
    match cfg {
        None => "off (set LIGHTTRACK_FORECAST_SWEEP_SECS)".to_owned(),
        Some(c) => {
            let a = show_u64(c.interval_secs);
            let b = show_u64(c.horizon as u64);
            let d = show_u64(c.lookback as u64);
            let mut out = "every ".to_owned();
            out.append(a.as_str());
            out.append("s (horizon ");
            out.append(b.as_str());
            out.append("d, lookback ");
            out.append(d.as_str());
            out.append("d)");
            out
        },
    }
}

/// What a sweep says about one project.
#[derive(Debug, Clone, Copy, PartialEq, Eq, Structural)]
pub enum SweepNote {
    /// Hand the alerts to the alerter.
    Notify,
    /// Say that this project failed.
    WarnProject,
    /// Say nothing.
    Quiet,
}

/// Takes one project's outcome into the number of alerts raised so far. `outcome` is how many alerts its
/// forecast raised, or nothing where it failed. A project that is switched off is passed over, one that
/// failed is reported, and neither stops the sweep.
pub fn take_project(raised: u64, enabled: bool, outcome: Option<u64>) -> (r: (u64, SweepNote))
    requires
        outcome is Some ==> raised + outcome->0 <= u64::MAX,
    ensures
        r == (if !enabled {
            (raised, SweepNote::Quiet)
        } else {
            match outcome {
                Some(n) => (
                    (raised + n) as u64,
                    if n > 0 {
                        SweepNote::Notify
                    } else {
                        SweepNote::Quiet
                    },
                ),
                None => (raised, SweepNote::WarnProject),
            }
        }),
{
    if !enabled {
        return (raised, SweepNote::Quiet);
    }
    match outcome {
        Some(n) => (
            raised + n,
            if n > 0 {
                SweepNote::Notify
            } else {
                SweepNote::Quiet
            },
        ),
        None => (raised, SweepNote::WarnProject),
    }
}

// ------------------------------------------------------------------ what a sweep does

/// A sweep runs exactly where its setting is a number above zero, never more often than once a minute; it
/// looks ahead one to ninety days and back two to ninety, each by its own setting, and fourteen where that
/// is none.
pub proof fn a_sweep_looks_as_far_as_it_is_set(
    secs: Option<&str>,
    horizon: Option<&str>,
    lookback: Option<&str>,
    r: Option<SweepConfig>,
)
    requires
        call_ensures(SweepConfig::from_raw, (secs, horizon, lookback), r),
    ensures
        r is Some <==> secs is Some && parsed_uint(trimmed(secs->0@), u64::MAX as nat) is Some
            && parsed_uint(trimmed(secs->0@), u64::MAX as nat)->0 > 0,
        r is Some ==> r->0.interval_secs >= 60,
        r is Some && parsed_uint(trimmed(secs->0@), u64::MAX as nat)->0 >= 60 ==> r->0.interval_secs
            == parsed_uint(trimmed(secs->0@), u64::MAX as nat)->0,
        r is Some ==> 1 <= r->0.horizon <= 90 && 2 <= r->0.lookback <= 90,
        r is Some && horizon is None ==> r->0.horizon == 14,
        r is Some && lookback is None ==> r->0.lookback == 14,
        r is Some && horizon is Some ==> match parsed_uint(trimmed(horizon->0@), u64::MAX as nat) {
            None => r->0.horizon == 14,
            Some(n) => 1 <= n <= 90 ==> r->0.horizon == n,
        },
        r is Some && lookback is Some ==> match parsed_uint(trimmed(lookback->0@), u64::MAX as nat) {
            None => r->0.lookback == 14,
            Some(n) => 2 <= n <= 90 ==> r->0.lookback == n,
        },
{
}

/// A sweep's shape is its settings', fourteen days each way without them; it adds up what enabled projects
/// raise, hands on what there is, reports what failed and passes over what is off.
pub proof fn a_sweep_adds_up_what_is_raised(
    cfg: Option<SweepConfig>,
    s: (u32, u32),
    raised: u64,
    enabled: bool,
    outcome: Option<u64>,
    r: (u64, SweepNote),
)
    requires
        outcome is Some ==> raised + outcome->0 <= u64::MAX,
        call_ensures(SweepConfig::shape, (cfg,), s),
        call_ensures(take_project, (raised, enabled, outcome), r),
    ensures
        cfg is Some ==> s.0 == cfg->0.horizon && s.1 == cfg->0.lookback,
        cfg is None ==> s.0 == 14 && s.1 == 14,
        enabled && outcome is Some ==> r.0 == raised + outcome->0,
        !enabled || outcome is None ==> r.0 == raised,
        r.1 is Notify <==> enabled && outcome is Some && outcome->0 > 0,
        r.1 is WarnProject <==> enabled && outcome is None,
{
}

} // verus!
