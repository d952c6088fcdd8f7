//! How good each served prompt version is: tags, their parts, and the order in which versions are
//! listed.
use vstd::prelude::*;

use crate::clock::Timestamp;
use crate::error::{fails_with, ApiError, ErrorCode};
use crate::event::Money;
use crate::figure::Real;
use crate::order::{
    goes_first, is_stable_order, key_views, ranked, stable_order, KeyView, SortKey,
};
use crate::text::{
    all_digits, after_plus, chars_of, dec, digit, digits_value, is_digit, parse_uint, parsed_uint,
    show_u64, slice_of,
};

verus! {

/// Days looked back when the caller names no start.
pub const DEFAULT_WINDOW_DAYS: i64 = 7;

/// Whether `@v` stands at position `i`.
pub open spec fn mark_at(s: Seq<char>, i: int) -> bool {
    0 <= i && i + 1 < s.len() && s[i] == '@' && s[i + 1] == 'v'
}

/// Whether the last `@v` stands at position `i`.
pub open spec fn last_mark(s: Seq<char>, i: int) -> bool {
    mark_at(s, i) && forall|j: int| i < j ==> !#[trigger] mark_at(s, j)
}

/// Whether `s` splits into `name` and `version` at its last `@v`: the name is not empty and the
/// version is a number.
pub open spec fn splits(s: Seq<char>, name: Seq<char>, version: u32) -> bool {
    exists|i: int| #[trigger]
        last_mark(s, i) && 0 < i && name == s.take(i) && parsed_uint(s.skip(i + 2), u32::MAX as nat)
            == Some(version as nat)
}

/// Whether `s` splits at all.
pub open spec fn splittable(s: Seq<char>) -> bool {
    exists|name: Seq<char>, version: u32| splits(s, name, version)
}

/// Splits a `name@v<version>` tag at its last `@v`.
pub fn split_tag(tag: &str) -> (r: Option<(String, u32)>)
    ensures
        match r {
            Some((n, v)) => splits(tag@, n@, v),
            None => forall|n: Seq<char>, v: u32| !splits(tag@, n, v),
        },
        r is Some <==> splittable(tag@),
{
    let c = chars_of(tag);
    if c.len() < 2 {
        assert(forall|j: int| !mark_at(tag@, j));
        return None;
    }
    let mut i: usize = c.len() - 1;
    while i > 0
        invariant
            c@ == tag@,
            i < c.len(),
            forall|j: int| i <= j ==> !#[trigger] mark_at(tag@, j),
        decreases i,
    {
        i -= 1;
        if c[i] == '@' && c[i + 1] == 'v' {
            assert(last_mark(tag@, i as int));
            assert forall|k: int| last_mark(tag@, k) implies k == i by {
                if k < i {
                    assert(mark_at(tag@, i as int));
                }
            }
            if i == 0 {
                return None;
            }
            let name = slice_of(c.as_slice(), 0, i);
            let rest = slice_of(c.as_slice(), i + 2, c.len());
            assert(tag@.subrange(0, i as int) =~= tag@.take(i as int));
            assert(tag@.subrange(i + 2, tag@.len() as int) =~= tag@.skip(i + 2));
            return match parse_uint(rest.as_str(), u32::MAX as u64) {
                Some(v) => {
                    assert(splits(tag@, name@, v as u32));
                    Some((name, v as u32))
                },
                None => None,
            };
        }
    }
    assert(forall|j: int| !mark_at(tag@, j)) by {
        assert forall|j: int| !mark_at(tag@, j) by {
            if j >= 0 {
                assert(!mark_at(tag@, j));
            }
        }
    }
    None
}

/// The tag of a prompt's version: `name@v<version>`.
pub open spec fn tag_of(name: Seq<char>, version: nat) -> Seq<char> {
    name + "@v"@ + dec(version)
}

/// The tag of a prompt's version.
pub fn tag(name: &str, version: u32) -> (r: String)
    ensures
        r@ == tag_of(name@, version as nat),
{
    let v = show_u64(version as u64);
    let mut out = name.to_owned();
    out.append("@v");
    out.append(v.as_str());
    out
}

/// A number's decimal digits read back as that number.
pub proof fn dec_reads_back(n: nat)
    ensures
        dec(n).len() > 0,
        all_digits(dec(n)),
        digits_value(dec(n)) == n,
    decreases n,
{
    reveal_with_fuel(digits_value, 2);
    if n < 10 {
        let d = dec(n);
        assert(d.drop_last() =~= seq![]);
        assert(d.last() == digit(n));
    } else {
        dec_reads_back(n / 10);
        let d = dec(n);
        assert(d.drop_last() =~= dec(n / 10));
        assert(d.last() == digit(n % 10));
        assert forall|i: int| 0 <= i < d.len() implies is_digit(#[trigger] d[i]) by {
            if i < dec(n / 10).len() {
                assert(d[i] == dec(n / 10)[i]);
            }
        }
    }
}

/// A tag always splits back into the name and the version it was made of, a name that itself holds
/// `@v` included.
pub proof fn tags_split_back(name: Seq<char>, version: u32)
    requires
        name.len() > 0,
    ensures
        splits(tag_of(name, version as nat), name, version),
        forall|n: Seq<char>, v: u32|
            splits(tag_of(name, version as nat), n, v) ==> n == name && v == version,
{
    reveal_strlit("@v");
    let s = tag_of(name, version as nat);
    let d = dec(version as nat);
    let i = name.len() as int;
    dec_reads_back(version as nat);
    assert(s.take(i) =~= name);
    assert(s.skip(i + 2) =~= d);
    assert(is_digit(d[0]));
    assert(after_plus(d) == d);
    assert(mark_at(s, i));
    assert forall|j: int| i < j implies !#[trigger] mark_at(s, j) by {
        if mark_at(s, j) {
            if j == i + 1 {
                assert(s[j] == 'v');
            } else {
                assert(s[j] == d[j - i - 2]);
                assert(is_digit(d[j - i - 2]));
            }
        }
    }
    assert(last_mark(s, i));
    assert forall|n: Seq<char>, v: u32| splits(s, n, v) implies n == name && v == version by {
        let k = choose|k: int| #[trigger]
            last_mark(s, k) && 0 < k && n == s.take(k) && parsed_uint(s.skip(k + 2), u32::MAX as nat)
                == Some(v as nat);
        if k < i {
            assert(mark_at(s, i));
        } else if i < k {
            assert(mark_at(s, k));
        }
    }
}

/// One version's row: the tag whole, and its parts where it follows the convention.
#[derive(Debug)]
pub struct PromptQualityRow {
    /// The tag, absent for events that carried none.
    pub tag: Option<String>,
    pub name: Option<String>,
    pub version: Option<u32>,
    pub n: u64,
    pub mean: Real,
    pub pass_rate: Real,
    pub ci95_low: Real,
    pub ci95_high: Real,
    /// What the judged events cost.
    pub cost: Money,
}

/// The verdicts on the events of one tag, as a store sums them up.
#[derive(Debug)]
pub struct ScoreSummaryRow {
    pub key: Option<String>,
    pub n: u64,
    pub mean: Real,
    pub pass_rate: Real,
    pub ci95_low: Real,
    pub ci95_high: Real,
    pub cost: Money,
}

/// Whether `r` is the row of a summary: the tag whole, its name and version exactly when it splits, and
/// the figures as they are.
pub open spec fn row_of(r: PromptQualityRow, s: ScoreSummaryRow) -> bool {
    let tag = s.key;
    &&& r.tag == tag
    &&& r.name is Some <==> r.version is Some
    &&& r.name is Some ==> tag is Some && splits(tag->0@, r.name->0@, r.version->0)
    &&& r.name is None ==> tag is None || forall|n: Seq<char>, v: u32| !splits(tag->0@, n, v)
    &&& r.n == s.n
    &&& r.mean == s.mean
    &&& r.pass_rate == s.pass_rate
    &&& r.ci95_low == s.ci95_low
    &&& r.ci95_high == s.ci95_high
    &&& r.cost == s.cost
}

impl PromptQualityRow {
    /// The row of a summary.
    pub fn of(s: ScoreSummaryRow) -> (r: PromptQualityRow)
        ensures
            row_of(r, s),
    {
        let split = match &s.key {
            Some(t) => split_tag(t.as_str()),
            None => None,
        };
        let (name, version) = match split {
            Some((name, v)) => (Some(name), Some(v)),
            None => (None, None),
        };
        PromptQualityRow {
            tag: s.key,
            name,
            version,
            n: s.n,
            mean: s.mean,
            pass_rate: s.pass_rate,
            ci95_low: s.ci95_low,
            ci95_high: s.ci95_high,
            cost: s.cost,
        }
    }
}

/// How a row is ranked: by name, then the newest version first, then by tag. Rows whose tag has no
/// name come before those, and rows without a tag after everything.
pub open spec fn row_key(r: PromptQualityRow) -> KeyView {
    match r.tag {
        None => KeyView { major: 2, text: ""@, minor: 0, tail: ""@ },
        Some(t) => KeyView {
            major: if r.name is Some {
                1
            } else {
                0
            },
            text: match r.name {
                Some(n) => n@,
                None => ""@,
            },
            minor: match r.version {
                Some(v) => -(v as int) - 1,
                None => 0,
            },
            tail: t@,
        },
    }
}

/// The ranks of rows.
pub open spec fn row_keys(rows: Seq<PromptQualityRow>) -> Seq<KeyView> {
    rows.map_values(|r: PromptQualityRow| row_key(r))
}

/// The order in which rows are listed, as positions.
pub fn listing_order(rows: &Vec<PromptQualityRow>) -> (r: Vec<usize>)
    ensures
        r@ == ranked(row_keys(rows@)),
        is_stable_order(row_keys(rows@), r@),
{
    let mut keys: Vec<SortKey> = Vec::new();
    let mut i: usize = 0;
    while i < rows.len()
        invariant
            i <= rows.len(),
            key_views(keys@) =~= row_keys(rows@).take(i as int),
        decreases rows.len() - i,
    {
        let x = &rows[i];
        let k = match &x.tag {
            None => SortKey { major: 2, text: "".to_owned(), minor: 0, tail: "".to_owned() },
            Some(t) => SortKey {
                major: if x.name.is_some() {
                    1
                } else {
                    0
                },
                text: match &x.name {
                    Some(n) => n.clone(),
                    None => "".to_owned(),
                },
                minor: match x.version {
                    Some(v) => -(v as i128) - 1,
                    None => 0,
                },
                tail: t.clone(),
            },
        };
        let ghost before = keys@;
        keys.push(k);
        assert(key_views(keys@) =~= key_views(before).push(k@));
        i += 1;
    }
    assert(row_keys(rows@).take(i as int) =~= row_keys(rows@));
    stable_order(&keys)
}

/// Of two versions of one prompt the newer is listed first, and a row without a tag is never listed
/// before one with a tag.
pub proof fn newest_first_untagged_last(a: PromptQualityRow, b: PromptQualityRow)
    ensures
        a.tag is Some && b.tag is Some && a.name is Some && b.name is Some && a.version is Some
            && b.version is Some && a.name->0@ == b.name->0@ && a.version->0 > b.version->0
            ==> crate::order::ranks_before(row_key(a), row_key(b)),
        a.tag is Some && b.tag is None ==> crate::order::ranks_before(row_key(a), row_key(b)),
{
}

/// The window a quality read covers: from the given start, or a week before `now`, to the given end.
/// An end before its start is refused.
pub fn quality_window(since: Option<Timestamp>, until: Option<Timestamp>, now: Timestamp) -> (r: Result<
    (Timestamp, Option<Timestamp>),
    ApiError,
>)
    requires
        now.valid(),
    ensures
        ({
            let start = match since {
                Some(s) => s.nanos as int,
                None => now.nanos - 604_800 * 1_000_000_000,
            };
            if until is Some && until->0.nanos < start {
                fails_with(r, ErrorCode::BadRequest, "window end precedes its start"@)
            } else {
                r is Ok && r->Ok_0.0.nanos == start && r->Ok_0.1 == until
            }
        }),
{
    let start = match since {
        Some(s) => s,
        None => now.plus_secs(-(DEFAULT_WINDOW_DAYS * 86_400)),
    };
    if let Some(u) = until {
        if u.nanos < start.nanos {
            return Err(ApiError::bad_request("window end precedes its start"));
        }
    }
    Ok((start, until))
}

// ------------------------------------------------------------------ what a listing of versions says

/// A row shows its tag whole, the name and version that the tag splits into where it does, and the
/// summary's figures, each under its own name.
pub proof fn a_row_shows_its_summary(
    s: ScoreSummaryRow,
    r: PromptQualityRow,
    t: &str,
    parts: Option<(String, u32)>,
)
    requires
        call_ensures(PromptQualityRow::of, (s,), r),
        s.key is Some ==> t@ == s.key->0@,
        call_ensures(split_tag, (t,), parts),
    ensures
        r.tag == s.key,
        r.n == s.n && r.mean == s.mean && r.pass_rate == s.pass_rate && r.cost == s.cost,
        r.ci95_low == s.ci95_low && r.ci95_high == s.ci95_high,
        s.key is None ==> r.name is None && r.version is None,
        s.key is Some ==> (r.name is Some <==> parts is Some) && (r.version is Some <==> parts is Some),
        s.key is Some ==> (parts matches Some((n, v)) ==> r.name->0@ == n@ && r.version->0 == v),
{
    if s.key is Some {
        if r.name is Some {
            assert(splits(t@, r.name->0@, r.version->0));
            assert(splittable(t@));
        }
        if let Some((n, v)) = parts {
            assert(splits(s.key->0@, n@, v));
            if r.name is Some {
                splits_are_unique(s.key->0@, n@, v, r.name->0@, r.version->0);
            }
        }
    }
}

proof fn splits_are_unique(s: Seq<char>, a: Seq<char>, v: u32, b: Seq<char>, w: u32)
    requires
        splits(s, a, v),
        splits(s, b, w),
    ensures
        a == b,
        v == w,
{
    let i = choose|i: int| #[trigger]
        last_mark(s, i) && 0 < i && a == s.take(i) && parsed_uint(s.skip(i + 2), u32::MAX as nat) == Some(
            v as nat,
        );
    let j = choose|j: int| #[trigger]
        last_mark(s, j) && 0 < j && b == s.take(j) && parsed_uint(s.skip(j + 2), u32::MAX as nat) == Some(
            w as nat,
        );
    if i < j {
        assert(!mark_at(s, j));
    } else if j < i {
        assert(!mark_at(s, i));
    }
}

/// A version's tag is its prompt's name, `@v` and the version, and splits back into both.
pub proof fn a_tag_is_made_of_name_and_version(name: &str, version: u32, t: String, x: &str, parts: Option<(String, u32)>)
    requires
        call_ensures(tag, (name, version), t),
        x@ == t@,
        call_ensures(split_tag, (x,), parts),
    ensures
        t@ == name@ + "@v"@ + dec(version as nat),
        name@.len() > 0 ==> (parts matches Some((n, v)) && n@ == name@ && v == version),
{
    if name@.len() > 0 {
        tags_split_back(name@, version);
        assert(splits(x@, name@, version));
        assert(splittable(x@));
        if let Some((n, v)) = parts {
            splits_are_unique(t@, n@, v, name@, version);
        }
    }
}

/// Every row is listed once; rows without a tag come last; of two named rows the name decides, then the
/// newer version; and rows that are alike in all of that stay in the order they came.
pub proof fn rows_are_listed_by_name_and_newest(rows: &Vec<PromptQualityRow>, r: Vec<usize>, p: int, q: int)
    requires
        call_ensures(listing_order, (rows,), r),
        0 <= p < q < r@.len(),
    ensures
        r@.len() == rows@.len(),
        r@[p] < rows@.len() && r@[q] < rows@.len() && r@[p] != r@[q],
        ({
            let a = rows@[r@[p] as int];
            let b = rows@[r@[q] as int];
            &&& a.tag is None ==> b.tag is None
            &&& a.tag is Some && b.tag is Some && a.name is Some ==> b.name is Some
            &&& a.tag is Some && b.tag is Some && a.name is Some && b.name is Some && a.name->0@
                == b.name->0@ && a.version is Some && b.version is Some ==> a.version->0 >= b.version->0
            &&& a.tag is Some && b.tag is Some && a.name is Some && b.name is Some && a.name->0@
                != b.name->0@ ==> crate::text::sorts_before(a.name->0@, b.name->0@)
        }),
{
    let k = row_keys(rows@);
    assert(k.len() == rows@.len());
    assert(goes_first(k, r@[p] as int, r@[q] as int));
    let a = rows@[r@[p] as int];
    let b = rows@[r@[q] as int];
    assert(k[r@[p] as int] == row_key(a) && k[r@[q] as int] == row_key(b));
}

/// A read without a start looks back a week; a window that ends before it begins is refused.
pub proof fn a_quality_window_begins_a_week_back(
    since: Option<Timestamp>,
    until: Option<Timestamp>,
    now: Timestamp,
    r: Result<(Timestamp, Option<Timestamp>), ApiError>,
)
    requires
        now.valid(),
        call_ensures(quality_window, (since, until, now), r),
    ensures
        r matches Ok((a, b)) ==> {
            &&& b == until
            &&& since is Some ==> a == since->0
            &&& since is None ==> a.nanos + 7 * 86_400 * 1_000_000_000 == now.nanos
            &&& b is Some ==> a.nanos <= b->0.nanos
        },
        r is Err ==> r->Err_0.code is BadRequest && until is Some && (since is Some ==> until->0.nanos
            < since->0.nanos),
{
}

} // verus!
