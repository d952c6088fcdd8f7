//! Which log filter is in force and in which form lines are written.
use vstd::prelude::*;

use crate::event::text_view;
use crate::text::{ascii_lower, blank, same, trim_owned, trimmed, trimmed_empty_iff_blank};

verus! {

/// The level in force when nobody says.
pub const DEFAULT_LEVEL: &'static str = "info";

/// A setting that says something, trimmed.
pub open spec fn said(raw: Option<Seq<char>>) -> Option<Seq<char>> {
    match raw {
        Some(s) => if blank(s) {
            None
        } else {
            Some(trimmed(s))
        },
        None => None,
    }
}

/// The filter in force: the explicit setting, else the general one, else the default. Blank settings
/// count as unset.
pub fn directive(explicit: Option<&str>, rust_log: Option<&str>) -> (r: String)
    ensures
        r@ == (match said(text_view(explicit)) {
            Some(s) => s,
            None => match said(text_view(rust_log)) {
                Some(s) => s,
                None => DEFAULT_LEVEL@,
            },
        }),
{
    if let Some(s) = explicit {
        proof {
            trimmed_empty_iff_blank(s@);
        }
        let t = trim_owned(s);
        if !t.as_str().is_empty() {
            return t;
        }
    }
    if let Some(s) = rust_log {
        proof {
            trimmed_empty_iff_blank(s@);
        }
        let t = trim_owned(s);
        if !t.as_str().is_empty() {
            return t;
        }
    }
    DEFAULT_LEVEL.to_owned()
}

/// Whether a format is one for people.
pub open spec fn for_people(s: Seq<char>) -> bool {
    let l = ascii_lower(trimmed(s));
    l == "text"@ || l == "plain"@ || l == "human"@ || l == "pretty"@ || l == "compact"@
}

/// Whether lines are JSON: unless a format for people was asked for by name.
pub fn wants_json(format: Option<&str>) -> (r: bool)
    ensures
        r == !(format is Some && for_people(format->0@)),
{
    match format {
        None => true,
        Some(s) => {
            let l = s.trim().to_ascii_lowercase();
            let l = l.as_str();
            !(same(l, "text") || same(l, "plain") || same(l, "human") || same(l, "pretty") || same(
                l,
                "compact",
            ))
        },
    }
}

/// The explicit setting is in force where it says anything, else the general one where that does, else
/// `info`; and lines are JSON unless a format for people is asked for by name.
pub proof fn the_explicit_setting_is_in_force(
    explicit: Option<&str>,
    general: Option<&str>,
    r: String,
    format: Option<&str>,
    json: bool,
)
    requires
        call_ensures(directive, (explicit, general), r),
        call_ensures(wants_json, (format,), json),
    ensures
        explicit is Some && !blank(explicit->0@) ==> r@ == trimmed(explicit->0@),
        (explicit is None || blank(explicit->0@)) && general is Some && !blank(general->0@) ==> r@
            == trimmed(general->0@),
        (explicit is None || blank(explicit->0@)) && (general is None || blank(general->0@)) ==> r@
            == "info"@,
        format is None ==> json,
        format is Some ==> {
            let l = ascii_lower(trimmed(format->0@));
            json <==> l != "text"@ && l != "plain"@ && l != "human"@ && l != "pretty"@ && l != "compact"@
        },
{
}

} // verus!
