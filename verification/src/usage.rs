//! Usage broken down by one dimension: who spends, and which rules bind them.
use vstd::prelude::*;

use crate::auth::Principal;
use crate::error::{fails_with, ApiError, ErrorCode};
use crate::guards::ensure_can_admin;
use crate::keys::{has_id, ApiKey};
use crate::limit::LimitWindow;
use crate::limits::LimitRule;
use crate::order::{
    goes_first, is_stable_order, key_views, ranked, stable_order, KeyView, SortKey,
};
use crate::seqs::{
    first_where, first_where_is, first_where_none, ints, lists, positions, positions_list, positions_step,
};
use crate::text::same;

verus! {

/// Rows shown when nobody says, and the most that are shown.
pub const DEFAULT_LIMIT: usize = 20;
pub const MAX_LIMIT: usize = 200;

/// The dimensions that usage can be broken down by.
pub open spec fn is_dimension(s: Seq<char>) -> bool {
    s == "provider"@ || s == "model"@ || s == "name"@ || s == "api_key"@ || s == "customer"@
}

/// The dimension asked for, the key by default; anything that is none is refused.
pub fn parse_dimension(by: Option<String>) -> (r: Result<String, ApiError>)
    ensures
        match by {
            None => r is Ok && r->Ok_0@ == "api_key"@,
            Some(s) => if is_dimension(s@) {
                r == Ok::<String, ApiError>(s)
            } else {
                fails_with(
                    r,
                    ErrorCode::BadRequest,
                    "unknown dimension '"@ + s@
                        + "' (expected one of provider|model|name|api_key|customer)"@,
                )
            },
        },
{
    match by {
        None => Ok("api_key".to_owned()),
        Some(s) => {
            let t = s.as_str();
            if same(t, "provider") || same(t, "model") || same(t, "name") || same(t, "api_key")
                || same(t, "customer") {
                return Ok(s);
            }
            let mut m = "unknown dimension '".to_owned();
            m.append(t);
            m.append("' (expected one of provider|model|name|api_key|customer)");
            Err(ApiError::bad_request(m.as_str()))
        },
    }
}

/// The window asked for, a day by default; anything that is none is refused.
pub fn parse_window(s: Option<&str>) -> (r: Result<LimitWindow, ApiError>)
    ensures
        match s {
            None => r == Ok::<LimitWindow, ApiError>(LimitWindow::Day),
            Some(x) => if x@ == "hour"@ {
                r == Ok::<LimitWindow, ApiError>(LimitWindow::Hour)
            } else if x@ == "day"@ {
                r == Ok::<LimitWindow, ApiError>(LimitWindow::Day)
            } else if x@ == "month"@ {
                r == Ok::<LimitWindow, ApiError>(LimitWindow::Month)
            } else {
                fails_with(
                    r,
                    ErrorCode::BadRequest,
                    "unknown window '"@ + x@ + "' (expected hour|day|month)"@,
                )
            },
        },
{
    match s {
        None => Ok(LimitWindow::Day),
        Some(x) => {
            if same(x, "hour") {
                return Ok(LimitWindow::Hour);
            }
            if same(x, "day") {
                return Ok(LimitWindow::Day);
            }
            if same(x, "month") {
                return Ok(LimitWindow::Month);
            }
            let mut m = "unknown window '".to_owned();
            m.append(x);
            m.append("' (expected hour|day|month)");
            Err(ApiError::bad_request(m.as_str()))
        },
    }
}

/// How many rows are shown: twenty by default, one to two hundred.
pub fn row_limit(asked: Option<usize>) -> (r: usize)
    ensures
        r == (match asked {
            None => 20,
            Some(n) => if n < 1 {
                1
            } else if n > 200 {
                200
            } else {
                n
            },
        }),
{
    match asked {
        None => DEFAULT_LIMIT,
        Some(n) => if n < 1 {
            1
        } else if n > MAX_LIMIT {
            MAX_LIMIT
        } else {
            n
        },
    }
}

/// The usage of one value of the dimension.
#[derive(Debug)]
pub struct ScopeUsage {
    /// Absent for traffic without one.
    pub value: Option<String>,
    /// The cost that caps are measured on, by order key.
    pub cost_key: i64,
    pub calls: i64,
}

/// How rows are ranked: the dearest first, then the one with the most calls.
pub open spec fn spend_keys(rows: Seq<ScopeUsage>) -> Seq<KeyView> {
    rows.map_values(
        |r: ScopeUsage|
            KeyView {
                major: -(r.cost_key as int),
                text: ""@,
                minor: -(r.calls as int),
                tail: ""@,
            },
    )
}

/// A rule that binds one value of the dimension.
pub open spec fn binds(by: Seq<char>, value: Option<String>) -> spec_fn(LimitRule) -> bool {
    |r: LimitRule|
        r.scope is Some && value is Some && r.scope->0.kind() == by && r.scope->0.what() == value->0@
}

/// The positions of the rules that bind one value of the dimension.
pub fn binding_rules(rules: &Vec<LimitRule>, by: &str, value: &Option<String>) -> (r: Vec<usize>)
    ensures
        ints(r@) == positions(rules@, binds(by@, *value)),
{
    let ghost p = binds(by@, *value);
    let mut out: Vec<usize> = Vec::new();
    let mut i: usize = 0;
    while i < rules.len()
        invariant
            p == binds(by@, *value),
            i <= rules.len(),
            ints(out@) == positions(rules@.take(i as int), p),
        decreases rules.len() - i,
    {
        proof {
            positions_step(rules@, i as int, p);
        }
        let hit = match (&rules[i].scope, value) {
            (Some(s), Some(v)) => same(s.kind_str(), by) && same(s.value(), v.as_str()),
            _ => false,
        };
        let ghost before = out@;
        if hit {
            out.push(i);
            assert(ints(out@) =~= ints(before).push(i as int));
        }
        i += 1;
    }
    assert(rules@.take(i as int) =~= rules@);
    out
}

/// The name of a key as it is shown: its name and the part of it that is no secret.
pub open spec fn key_label(k: ApiKey) -> Seq<char> {
    k.name@ + " ("@ + k.prefix@ + ")"@
}

/// The name of a value, where the roster has a key of that id.
pub open spec fn label_of(keys: Seq<ApiKey>, value: Option<String>) -> Option<Seq<char>> {
    match value {
        None => None,
        Some(v) => match first_where(keys, has_id(v@)) {
            Some(i) => Some(key_label(keys[i])),
            None => None,
        },
    }
}

/// The name of a value.
pub fn find_key_label(keys: &Vec<ApiKey>, value: &Option<String>) -> (r: Option<String>)
    ensures
        match label_of(keys@, *value) {
            Some(t) => r is Some && r->0@ == t,
            None => r is None,
        },
{
    let v = match value {
        None => {
            return None;
        },
        Some(v) => v.as_str(),
    };
    let mut i: usize = 0;
    while i < keys.len()
        invariant
            value is Some && value->0@ == v@,
            i <= keys.len(),
            forall|j: int| 0 <= j < i ==> !has_id(v@)(#[trigger] keys@[j]),
        decreases keys.len() - i,
    {
        if same(keys[i].id.as_str(), v) {
            proof {
                first_where_is(keys@, has_id(v@), i as int);
            }
            let mut out = keys[i].name.clone();
            out.append(" (");
            out.append(keys[i].prefix.as_str());
            out.append(")");
            return Some(out);
        }
        i += 1;
    }
    proof {
        first_where_none(keys@, has_id(v@));
    }
    None
}

/// Whether a breakdown names the keys: only to those who may administer, and only where it is by key. A
/// key is not handed a roster of its siblings.
pub open spec fn names_keys(p: Principal, by: Seq<char>) -> bool {
    !(p is Project) && by == "api_key"@
}

/// Whether the roster of keys is read for a breakdown.
pub fn reads_roster(p: &Principal, by: &str) -> (r: bool)
    ensures
        r == names_keys(*p, by@),
{
    ensure_can_admin(p).is_ok() && same(by, "api_key")
}

/// The roster that a breakdown takes names from: what was read, where it may be shown; names are a
/// nicety, and a roster that could not be read names nobody.
pub fn roster_for(p: &Principal, by: &str, read: Option<Vec<ApiKey>>) -> (r: Vec<ApiKey>)
    ensures
        r@ == (match read {
            Some(v) => if names_keys(*p, by@) {
                v@
            } else {
                seq![]
            },
            None => seq![],
        }),
{
    match read {
        Some(v) => if reads_roster(p, by) {
            v
        } else {
            Vec::new()
        },
        None => Vec::new(),
    }
}

/// Without a roster no value is named.
pub proof fn an_empty_roster_names_nobody(value: Option<String>)
    ensures
        label_of(seq![], value) is None,
{
    if let Some(v) = value {
        first_where_none(Seq::<ApiKey>::empty(), has_id(v@));
    }
}

/// One row of the breakdown.
#[derive(Debug)]
pub struct ScopeEntry {
    /// The position of the row among those that were read.
    pub row: usize,
    pub label: Option<String>,
    /// The positions of the rules that bind the value.
    pub rules: Vec<usize>,
}

/// A breakdown.
#[derive(Debug)]
pub struct Breakdown {
    pub entries: Vec<ScopeEntry>,
    /// Whether the window has a cost that an entry can have a share of; without one every share is zero.
    pub has_cost: bool,
    /// Whether rows were left out.
    pub truncated: bool,
}

/// Whether `e` is the entry of a row.
pub open spec fn entry_of(
    e: ScopeEntry,
    row: int,
    rows: Seq<ScopeUsage>,
    by: Seq<char>,
    rules: Seq<LimitRule>,
    keys: Seq<ApiKey>,
) -> bool {
    &&& e.row == row
    &&& match label_of(keys, rows[row].value) {
        Some(t) => e.label is Some && e.label->0@ == t,
        None => e.label is None,
    }
    &&& ints(e.rules@) == positions(rules, binds(by, rows[row].value))
}

/// Shapes a breakdown: ranked by spend, cut to the limit, each row with its name and the rules that bind
/// it. `total_key` is the order key of the cost of the whole window, `keys` the roster that names are
/// taken from.
pub fn compose(
    total_key: i64,
    rows: &Vec<ScopeUsage>,
    by: &str,
    rules: &Vec<LimitRule>,
    keys: &Vec<ApiKey>,
    limit: usize,
) -> (r: Breakdown)
    ensures
        is_stable_order(spend_keys(rows@), ranked(spend_keys(rows@))),
        r.has_cost == (total_key > 0),
        r.truncated == (rows@.len() > limit),
        r.entries@.len() == (if rows@.len() > limit {
            limit as nat
        } else {
            rows@.len()
        }),
        forall|p: int|
            0 <= p < r.entries@.len() ==> entry_of(
                #[trigger] r.entries@[p],
                ranked(spend_keys(rows@))[p] as int,
                rows@,
                by@,
                rules@,
                keys@,
            ),
{
    let mut sort: Vec<SortKey> = Vec::new();
    let mut i: usize = 0;
    while i < rows.len()
        invariant
            i <= rows.len(),
            key_views(sort@) =~= spend_keys(rows@).take(i as int),
        decreases rows.len() - i,
    {
        let k = SortKey {
            major: -(rows[i].cost_key as i128),
            text: "".to_owned(),
            minor: -(rows[i].calls as i128),
            tail: "".to_owned(),
        };
        let ghost before = sort@;
        sort.push(k);
        assert(key_views(sort@) =~= key_views(before).push(k@));
        i += 1;
    }
    assert(spend_keys(rows@).take(i as int) =~= spend_keys(rows@));
    let order = stable_order(&sort);
    assert(key_views(sort@).len() == rows@.len());
    let truncated = rows.len() > limit;
    let n: usize = if truncated {
        limit
    } else {
        rows.len()
    };
    let mut entries: Vec<ScopeEntry> = Vec::new();
    let mut p: usize = 0;
    while p < n
        invariant
            p <= n <= order.len() == rows.len(),
            forall|x: int| 0 <= x < order@.len() ==> (#[trigger] order@[x]) < rows@.len(),
            order@ == ranked(spend_keys(rows@)),
            is_stable_order(spend_keys(rows@), order@),
            entries@.len() == p,
            forall|x: int|
                0 <= x < p ==> entry_of(
                    #[trigger] entries@[x],
                    ranked(spend_keys(rows@))[x] as int,
                    rows@,
                    by@,
                    rules@,
                    keys@,
                ),
        decreases n - p,
    {
        let row: usize = order[p];
        let value = &rows[row].value;
        let e = ScopeEntry {
            row,
            label: find_key_label(keys, value),
            rules: binding_rules(rules, by, value),
        };
        assert(entry_of(e, row as int, rows@, by@, rules@, keys@));
        entries.push(e);
        p += 1;
    }
    Breakdown { entries, has_cost: total_key > 0, truncated }
}

/// A rule without a scope, or about another dimension, binds no row; and no rule binds traffic without a
/// value.
pub proof fn only_the_rules_of_that_very_value_bind(by: Seq<char>, value: Option<String>, r: LimitRule)
    ensures
        r.scope is None ==> !binds(by, value)(r),
        r.scope is Some && r.scope->0.kind() != by ==> !binds(by, value)(r),
        value is None ==> !binds(by, value)(r),
{
}

/// A breakdown is by one of the five dimensions, the key where none is named; over an hour, a day or a
/// month, a day where none is named; and shows one to two hundred rows, twenty where nothing is asked.
pub proof fn a_breakdown_is_asked_for(
    by: Option<String>,
    d: Result<String, ApiError>,
    s: Option<&str>,
    w: Result<LimitWindow, ApiError>,
    asked: Option<usize>,
    n: usize,
)
    requires
        call_ensures(parse_dimension, (by,), d),
        call_ensures(parse_window, (s,), w),
        call_ensures(row_limit, (asked,), n),
    ensures
        by is None ==> d is Ok && d->Ok_0@ == "api_key"@,
        by is Some ==> (d is Ok <==> by->0@ == "provider"@ || by->0@ == "model"@ || by->0@ == "name"@
            || by->0@ == "api_key"@ || by->0@ == "customer"@),
        by is Some && d is Ok ==> d->Ok_0@ == by->0@,
        d is Err ==> d->Err_0.code == ErrorCode::BadRequest,
        s is None ==> w is Ok && w->Ok_0 == LimitWindow::Day,
        s is Some ==> (w is Ok <==> s->0@ == "hour"@ || s->0@ == "day"@ || s->0@ == "month"@),
        w is Ok && s is Some && s->0@ == "hour"@ ==> w->Ok_0 == LimitWindow::Hour,
        w is Ok && s is Some && s->0@ == "day"@ ==> w->Ok_0 == LimitWindow::Day,
        w is Ok && s is Some && s->0@ == "month"@ ==> w->Ok_0 == LimitWindow::Month,
        w is Err ==> w->Err_0.code == ErrorCode::BadRequest,
        1 <= n <= 200,
        asked is None ==> n == 20,
        asked is Some && 1 <= asked->0 <= 200 ==> n == asked->0,
        asked is Some && asked->0 < 1 ==> n == 1,
        asked is Some && asked->0 > 200 ==> n == 200,
{
    reveal_strlit("hour");
    reveal_strlit("day");
    reveal_strlit("month");
    assert("hour"@.len() == 4 && "day"@.len() == 3 && "month"@.len() == 5);
}

/// The rules listed for a value are exactly those scoped to that dimension and that value.
pub proof fn a_value_is_bound_by_its_own_rules(
    rules: &Vec<LimitRule>,
    by: &str,
    value: &Option<String>,
    r: Vec<usize>,
)
    requires
        call_ensures(binding_rules, (rules, by, value), r),
    ensures
        lists(
            r@,
            rules@,
            |x: LimitRule|
                x.scope is Some && *value is Some && x.scope->0.kind() == by@ && x.scope->0.what()
                    == value->0@,
        ),
{
    positions_list(r@, rules@, binds(by@, *value));
    assert(binds(by@, *value) =~= (|x: LimitRule|
        x.scope is Some && *value is Some && x.scope->0.kind() == by@ && x.scope->0.what() == value->0@));
}

/// A value is named by the first key of the roster that has it for its id, as the key's name and public
/// part; and nobody who holds a project's key is shown the roster.
pub proof fn a_value_is_named_by_its_key(
    keys: &Vec<ApiKey>,
    value: &Option<String>,
    r: Option<String>,
    p: &Principal,
    by: &str,
    read: Option<Vec<ApiKey>>,
    roster: Vec<ApiKey>,
    reads: bool,
)
    requires
        call_ensures(find_key_label, (keys, value), r),
        call_ensures(roster_for, (p, by, read), roster),
        call_ensures(reads_roster, (p, by), reads),
    ensures
        r is Some ==> *value is Some && exists|i: int|
            0 <= i < keys@.len() && (#[trigger] keys@[i]).id@ == value->0@ && r->0@ == keys@[i].name@
                + " ("@ + keys@[i].prefix@ + ")"@,
        r is None && *value is Some ==> forall|i: int|
            0 <= i < keys@.len() ==> (#[trigger] keys@[i]).id@ != value->0@,
        *p is Project ==> roster@.len() == 0 && !reads,
        by@ != "api_key"@ ==> roster@.len() == 0 && !reads,
        !(*p is Project) && by@ == "api_key"@ ==> reads,
        reads && read is Some ==> roster@ == read->0@,
        read is None ==> roster@.len() == 0,
{
    if *value is Some {
        let q = has_id(value->0@);
        match first_where(keys@, q) {
            Some(i) => {
                assert(crate::seqs::is_first(keys@, q, i));
                assert(keys@[i].id@ == value->0@);
            },
            None => {
                assert forall|i: int| 0 <= i < keys@.len() implies (#[trigger] keys@[i]).id@ != value->0@ by {
                    if q(keys@[i]) {
                        crate::seqs::first_where_some(keys@, q, i);
                    }
                }
            },
        }
    }
}

/// A breakdown lists the rows that spent the most, the dearer before the cheaper, of two that cost the
/// same the one with more calls; it lists as many as fit and says whether any are left out.
pub proof fn a_breakdown_lists_who_spends_most(
    total_key: i64,
    rows: &Vec<ScopeUsage>,
    by: &str,
    rules: &Vec<LimitRule>,
    keys: &Vec<ApiKey>,
    limit: usize,
    r: Breakdown,
    p: int,
    q: int,
)
    requires
        call_ensures(compose, (total_key, rows, by, rules, keys, limit), r),
        0 <= p < q < r.entries@.len(),
    ensures
        r.entries@.len() <= limit,
        r.entries@.len() <= rows@.len(),
        r.truncated <==> r.entries@.len() < rows@.len(),
        r.has_cost <==> total_key > 0,
        ({
            let a = r.entries@[p].row as int;
            let b = r.entries@[q].row as int;
            &&& a < rows@.len() && b < rows@.len() && a != b
            &&& rows@[a].cost_key >= rows@[b].cost_key
            &&& rows@[a].cost_key == rows@[b].cost_key ==> rows@[a].calls >= rows@[b].calls
            &&& rows@[a].cost_key == rows@[b].cost_key && rows@[a].calls == rows@[b].calls ==> a < b
        }),
{
    let k = spend_keys(rows@);
    let o = ranked(k);
    assert(entry_of(r.entries@[p], o[p] as int, rows@, by@, rules@, keys@));
    assert(entry_of(r.entries@[q], o[q] as int, rows@, by@, rules@, keys@));
    assert(goes_first(k, o[p] as int, o[q] as int));
    crate::text::sorts_before_total(""@, ""@);
}

/// Every entry of a breakdown is about a row that was read, with the rules scoped to its very value and
/// the name of its key; and no row that is left out spent more than one that is listed.
pub proof fn an_entry_is_about_its_row(
    total_key: i64,
    rows: &Vec<ScopeUsage>,
    by: &str,
    rules: &Vec<LimitRule>,
    keys: &Vec<ApiKey>,
    limit: usize,
    r: Breakdown,
    p: int,
    x: int,
)
    requires
        call_ensures(compose, (total_key, rows, by, rules, keys, limit), r),
        0 <= p < r.entries@.len(),
        0 <= x < rows@.len(),
        forall|q: int| 0 <= q < r.entries@.len() ==> (#[trigger] r.entries@[q]).row != x,
    ensures
        ({
            let e = r.entries@[p];
            let row = rows@[e.row as int];
            &&& e.row < rows@.len()
            &&& lists(
                e.rules@,
                rules@,
                |l: LimitRule|
                    l.scope is Some && row.value is Some && l.scope->0.kind() == by@ && l.scope->0.what()
                        == row.value->0@,
            )
            &&& e.label is Some ==> row.value is Some && exists|i: int|
                0 <= i < keys@.len() && (#[trigger] keys@[i]).id@ == row.value->0@ && e.label->0@
                    == keys@[i].name@ + " ("@ + keys@[i].prefix@ + ")"@
            &&& rows@[x].cost_key <= row.cost_key
            &&& rows@[x].cost_key == row.cost_key ==> rows@[x].calls <= row.calls
        }),
{
    let k = spend_keys(rows@);
    let o = ranked(k);
    let e = r.entries@[p];
    assert(entry_of(e, o[p] as int, rows@, by@, rules@, keys@));
    let row = rows@[e.row as int];
    positions_list(e.rules@, rules@, binds(by@, row.value));
    assert(binds(by@, row.value) =~= (|l: LimitRule|
        l.scope is Some && row.value is Some && l.scope->0.kind() == by@ && l.scope->0.what()
            == row.value->0@));
    if row.value is Some {
        let q = has_id(row.value->0@);
        if let Some(i) = first_where(keys@, q) {
            assert(crate::seqs::is_first(keys@, q, i));
            assert(keys@[i].id@ == row.value->0@);
        }
    }
    crate::order::every_row_is_listed(o, rows@.len() as int, x);
    let y = choose|y: int| 0 <= y < rows@.len() && o[y] == x;
    if y < r.entries@.len() {
        assert(entry_of(r.entries@[y], o[y] as int, rows@, by@, rules@, keys@));
    }
    assert(goes_first(k, o[p] as int, o[y] as int));
    crate::text::sorts_before_total(""@, ""@);
}

} // verus!
