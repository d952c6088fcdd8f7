//! What the probes are told: whether the process can serve, and which part of it cannot.
use vstd::prelude::*;

use crate::json::{arr_view, item_views, member_views, obj_view, Json, JsonView};
use crate::text::{has_within, stands_at, stands_between};

verus! {

/// What was observed of one dependency.
#[derive(Debug)]
pub enum Verdict {
    /// It answers.
    Up,
    /// It does not, and why.
    Down(String),
    /// It could not be asked, and why.
    Unknown(String),
}

/// One dependency.
#[derive(Debug)]
pub struct Member {
    pub name: String,
    pub verdict: Verdict,
}

impl Member {
    /// A dependency in words.
    pub open spec fn words(self) -> Seq<char> {
        match self.verdict {
            Verdict::Up => self.name@ + ": up"@,
            Verdict::Down(why) => self.name@ + ": down ("@ + why@ + ")"@,
            Verdict::Unknown(why) => self.name@ + ": unknown ("@ + why@ + ")"@,
        }
    }

    /// Whether it answers.
    pub fn is_up(&self) -> (r: bool)
        ensures
            r == (self.verdict is Up),
    {
        match self.verdict {
            Verdict::Up => true,
            _ => false,
        }
    }

    /// A dependency in words: named, with the reason it is not up.
    pub fn render(&self) -> (r: String)
        ensures
            r@ == self.words(),
    {
        let mut out = self.name.clone();
        match &self.verdict {
            Verdict::Up => {
                out.append(": up");
            },
            Verdict::Down(why) => {
                out.append(": down (");
                out.append(why.as_str());
                out.append(")");
            },
            Verdict::Unknown(why) => {
                out.append(": unknown (");
                out.append(why.as_str());
                out.append(")");
            },
        }
        out
    }
}

/// What asking the store came to: it answered, it failed in these words, or it was never asked.
pub fn store_member(asked: Result<Result<(), String>, String>) -> (r: Member)
    ensures
        r.name@ == "store"@,
        match asked {
            Ok(Ok(_)) => r.verdict is Up,
            Ok(Err(e)) => r.verdict == Verdict::Down(e),
            Err(e) => r.verdict matches Verdict::Unknown(why) && why@
                == "the probe task did not run: "@ + e@,
        },
{
    let verdict = match asked {
        Ok(Ok(_)) => Verdict::Up,
        Ok(Err(e)) => Verdict::Down(e),
        Err(e) => {
            let mut m = "the probe task did not run: ".to_owned();
            m.append(e.as_str());
            Verdict::Unknown(m)
        },
    };
    Member { name: "store".to_owned(), verdict }
}

/// Whether every dependency answers.
pub open spec fn all_up(m: Seq<Member>) -> bool {
    forall|i: int| 0 <= i < m.len() ==> (#[trigger] m[i]).verdict is Up
}

/// The dependencies that do not answer, one per line.
pub open spec fn red_lines(m: Seq<Member>) -> Seq<char>
    decreases m.len(),
{
    if m.len() == 0 {
        seq![]
    } else {
        let rest = red_lines(m.drop_last());
        if m.last().verdict is Up {
            rest
        } else {
            rest + m.last().words() + "\n"@
        }
    }
}

/// The answer to a router: ready exactly when every dependency answers; otherwise those that do not are
/// named.
pub fn render_ready(members: &Vec<Member>) -> (r: (u16, String))
    ensures
        all_up(members@) ==> r.0 == 200 && r.1@ == "ready"@,
        !all_up(members@) ==> r.0 == 503 && r.1@ == "not ready\n"@ + red_lines(members@),
{
    let mut bad = String::new();
    let mut ok = true;
    let mut i: usize = 0;
    while i < members.len()
        invariant
            i <= members.len(),
            ok <==> forall|j: int| 0 <= j < i ==> (#[trigger] members@[j]).verdict is Up,
            bad@ == red_lines(members@.take(i as int)),
        decreases members.len() - i,
    {
        assert(members@.take(i + 1).drop_last() =~= members@.take(i as int));
        if !members[i].is_up() {
            ok = false;
            let w = members[i].render();
            bad.append(w.as_str());
            bad.append("\n");
        }
        i += 1;
    }
    assert(members@.take(i as int) =~= members@);
    if ok {
        (200, "ready".to_owned())
    } else {
        let mut m = "not ready\n".to_owned();
        m.append(bad.as_str());
        (503, m)
    }
}

/// Every dependency in words.
pub open spec fn word_list(m: Seq<Member>) -> Seq<JsonView> {
    m.map_values(|x: Member| JsonView::Str(x.words()))
}

/// The rollup: `ok` exactly when every dependency answers, and each of them in words either way.
pub open spec fn rollup(m: Seq<Member>) -> JsonView {
    JsonView::Obj(
        seq![
            ("members"@, JsonView::Arr(word_list(m))),
            (
                "status"@,
                JsonView::Str(
                    if all_up(m) {
                        "ok"@
                    } else {
                        "degraded"@
                    },
                ),
            ),
        ],
    )
}

/// The answer to an operator.
pub fn render_composite(members: &Vec<Member>) -> (r: (u16, Json))
    ensures
        r.0 == (if all_up(members@) {
            200u16
        } else {
            503u16
        }),
        r.1@ == rollup(members@),
{
    let mut list: Vec<Json> = Vec::new();
    let mut ok = true;
    let mut i: usize = 0;
    while i < members.len()
        invariant
            i <= members.len(),
            ok <==> forall|j: int| 0 <= j < i ==> (#[trigger] members@[j]).verdict is Up,
            item_views(list@) =~= word_list(members@).take(i as int),
        decreases members.len() - i,
    {
        if !members[i].is_up() {
            ok = false;
        }
        let w = Json::Str(members[i].render());
        let ghost before = list@;
        list.push(w);
        assert(item_views(list@) =~= item_views(before).push(w@));
        i += 1;
    }
    assert(word_list(members@).take(i as int) =~= word_list(members@));
    let mut m: Vec<crate::json::Member> = Vec::new();
    proof {
        arr_view(list);
    }
    m.push(crate::json::Member { name: "members".to_owned(), value: Json::Arr(list) });
    let s = if ok {
        "ok"
    } else {
        "degraded"
    };
    m.push(crate::json::Member { name: "status".to_owned(), value: Json::Str(s.to_owned()) });
    proof {
        obj_view(m);
        assert(member_views(m@) =~= rollup(members@)->Obj_0);
    }
    (
        if ok {
            200
        } else {
            503
        },
        Json::Obj(m),
    )
}

/// What could not be asked is not served as ready, and is not reported as down.
pub proof fn unknown_is_neither_up_nor_down(m: Seq<Member>, i: int)
    requires
        0 <= i < m.len(),
        m[i].verdict is Unknown,
    ensures
        !all_up(m),
        m[i].words() == m[i].name@ + ": unknown ("@ + m[i].verdict->Unknown_0@ + ")"@,
{
}

/// A dependency is shown by its name and what was observed of it; what the store answered is observed as
/// it is, and a probe that did not run is neither up nor down.
pub proof fn a_member_is_shown_as_observed(
    m: &Member,
    up: bool,
    w: String,
    asked: Result<Result<(), String>, String>,
    s: Member,
)
    requires
        call_ensures(Member::is_up, (m,), up),
        call_ensures(Member::render, (m,), w),
        call_ensures(store_member, (asked,), s),
    ensures
        up <==> m.verdict is Up,
        match m.verdict {
            Verdict::Up => w@ == m.name@ + ": up"@,
            Verdict::Down(why) => w@ == m.name@ + ": down ("@ + why@ + ")"@,
            Verdict::Unknown(why) => w@ == m.name@ + ": unknown ("@ + why@ + ")"@,
        },
        s.name@ == "store"@,
        s.verdict is Up <==> (asked matches Ok(Ok(_))),
        s.verdict is Down <==> (asked matches Ok(Err(_))),
        s.verdict is Unknown <==> asked is Err,
        asked matches Ok(Err(e)) ==> s.verdict == Verdict::Down(e),
{
}

proof fn red_lines_name(m: Seq<Member>, i: int)
    requires
        0 <= i < m.len(),
        !(m[i].verdict is Up),
    ensures
        has_within(red_lines(m), m[i].words()),
    decreases m.len(),
{
    let d = m.drop_last();
    let rest = red_lines(d);
    if i < d.len() {
        red_lines_name(d, i);
        assert(d[i] == m[i]);
        let p = m[i].words();
        let k = choose|k: int| stands_at(rest, p, k);
        let s = red_lines(m);
        assert(s.subrange(k, k + p.len()) =~= rest.subrange(k, k + p.len()));
        assert(stands_at(s, p, k));
    } else {
        stands_between(rest, m[i].words(), "\n"@);
    }
}

/// The process is ready, and the rollup is ok, exactly where every dependency answers; otherwise each that
/// does not is named.
pub proof fn readiness_is_every_members(
    m: &Vec<Member>,
    r: (u16, String),
    c: (u16, Json),
    i: int,
)
    requires
        call_ensures(render_ready, (m,), r),
        call_ensures(render_composite, (m,), c),
    ensures
        r.0 == 200 || r.0 == 503,
        r.0 == 200 <==> forall|k: int| 0 <= k < m@.len() ==> (#[trigger] m@[k]).verdict is Up,
        c.0 == r.0,
        0 <= i < m@.len() && !(m@[i].verdict is Up) ==> has_within(r.1@, m@[i].words()),
        crate::json::field(c.1@, "status"@) == Some(
            JsonView::Str(
                if r.0 == 200 {
                    "ok"@
                } else {
                    "degraded"@
                },
            ),
        ),
        crate::json::field(c.1@, "members"@) matches Some(JsonView::Arr(v)) && v.len() == m@.len() && (0
            <= i < m@.len() ==> v[i] == JsonView::Str(m@[i].words())),
{
    reveal_strlit("members");
    reveal_strlit("status");
    assert("members"@.len() == 7 && "status"@.len() == 6);
    let o = rollup(m@)->Obj_0;
    crate::seqs::first_where_is(o, crate::json::named("members"@), 0);
    crate::seqs::first_where_is(o, crate::json::named("status"@), 1);
    if 0 <= i < m@.len() && !(m@[i].verdict is Up) {
        red_lines_name(m@, i);
        let p = m@[i].words();
        let rest = red_lines(m@);
        let k = choose|k: int| stands_at(rest, p, k);
        let h = "not ready\n"@;
        let s = h + rest;
        assert(s.subrange(h.len() + k, h.len() + k + p.len()) =~= rest.subrange(k, k + p.len()));
        assert(stands_at(s, p, h.len() + k));
    }
}

} // verus!
