//! JSON values: documents that callers attach to events, tasks and runs.
use vstd::prelude::*;

use crate::seqs::{
    filter_members, filter_step, first_where, first_where_is, first_where_none, first_where_some,
    is_first,
};
use crate::text::{before, same, sorts_before, sorts_before_total, sorts_before_transitive};

verus! {

/// A JSON number: a whole number by its value, any other by the text it is written as.
#[derive(Debug)]
pub enum Number {
    Pos(u64),
    Neg(i64),
    Float(String),
}

/// One member of an object.
#[derive(Debug)]
pub struct Member {
    pub name: String,
    pub value: Json,
}

/// A JSON value. An object lists its members in the order of their names.
#[derive(Debug)]
pub enum Json {
    Null,
    Bool(bool),
    Num(Number),
    Str(String),
    Arr(Vec<Json>),
    Obj(Vec<Member>),
}

/// A JSON number as plain values.
pub enum NumberView {
    Pos(u64),
    Neg(i64),
    Float(Seq<char>),
}

impl View for Number {
    type V = NumberView;

    open spec fn view(&self) -> NumberView {
        match *self {
            Number::Pos(n) => NumberView::Pos(n),
            Number::Neg(n) => NumberView::Neg(n),
            Number::Float(t) => NumberView::Float(t@),
        }
    }
}

/// A JSON value as plain values.
pub enum JsonView {
    Null,
    Bool(bool),
    Num(NumberView),
    Str(Seq<char>),
    Arr(Seq<JsonView>),
    Obj(Seq<(Seq<char>, JsonView)>),
}

impl View for Json {
    type V = JsonView;

    open spec fn view(&self) -> JsonView
        decreases self,
    {
        match *self {
            Json::Null => JsonView::Null,
            Json::Bool(b) => JsonView::Bool(b),
            Json::Num(n) => JsonView::Num(n@),
            Json::Str(s) => JsonView::Str(s@),
            Json::Arr(v) => JsonView::Arr(
                Seq::new(
                    v@.len(),
                    |i: int|
                        if 0 <= i < v@.len() {
                            v[i].view()
                        } else {
                            JsonView::Null
                        },
                ),
            ),
            Json::Obj(m) => JsonView::Obj(
                Seq::new(
                    m@.len(),
                    |i: int|
                        if 0 <= i < m@.len() {
                            (m[i].name@, m[i].value.view())
                        } else {
                            (seq![], JsonView::Null)
                        },
                ),
            ),
        }
    }
}

/// The views of a list of values.
pub open spec fn item_views(v: Seq<Json>) -> Seq<JsonView> {
    Seq::new(v.len(), |i: int| v[i]@)
}

/// The views of a list of members.
pub open spec fn member_views(m: Seq<Member>) -> Seq<(Seq<char>, JsonView)> {
    Seq::new(m.len(), |i: int| (m[i].name@, m[i].value@))
}

/// An array's view lists its items' views.
pub broadcast proof fn arr_view(v: Vec<Json>)
    ensures
        #[trigger] Json::Arr(v)@ == JsonView::Arr(item_views(v@)),
{
    reveal_with_fuel(<Json as View>::view, 2);
    let a = Json::Arr(v)@->Arr_0;
    assert forall|i: int| 0 <= i < v@.len() implies a[i] == item_views(v@)[i] by {
        assert(a[i] == v[i].view());
    }
    assert(a =~= item_views(v@));
}

/// An object's view lists its members' views.
pub broadcast proof fn obj_view(m: Vec<Member>)
    ensures
        #[trigger] Json::Obj(m)@ == JsonView::Obj(member_views(m@)),
{
    reveal_with_fuel(<Json as View>::view, 2);
    let a = Json::Obj(m)@->Obj_0;
    assert forall|i: int| 0 <= i < m@.len() implies a[i] == member_views(m@)[i] by {
        assert(a[i].1 == m[i].value.view());
    }
    assert(a =~= member_views(m@));
}

/// Whether a float's text writes zero.
pub open spec fn writes_zero(t: Seq<char>) -> bool {
    t == "0.0"@ || t == "-0.0"@
}

/// Whether two numbers are equal: of one kind and of one value; the two zeros of a float are one.
pub open spec fn num_alike(a: NumberView, b: NumberView) -> bool {
    a == b || (a is Float && b is Float && writes_zero(a->Float_0) && writes_zero(b->Float_0))
}

/// Whether two values are equal, part by part.
pub open spec fn alike(a: JsonView, b: JsonView) -> bool
    decreases a,
{
    match (a, b) {
        (JsonView::Num(x), JsonView::Num(y)) => num_alike(x, y),
        (JsonView::Arr(x), JsonView::Arr(y)) => x.len() == y.len() && forall|i: int|
            0 <= i < x.len() ==> alike(#[trigger] x[i], y[i]),
        (JsonView::Obj(x), JsonView::Obj(y)) => x.len() == y.len() && forall|i: int|
            0 <= i < x.len() ==> (#[trigger] x[i]).0 == y[i].0 && alike(x[i].1, y[i].1),
        _ => a == b,
    }
}

/// A value is equal to itself.
pub proof fn alike_reflexive(a: JsonView)
    ensures
        alike(a, a),
    decreases a,
{
    match a {
        JsonView::Arr(x) => {
            assert forall|i: int| 0 <= i < x.len() implies alike(#[trigger] x[i], x[i]) by {
                alike_reflexive(x[i]);
            }
        },
        JsonView::Obj(x) => {
            assert forall|i: int| 0 <= i < x.len() implies (#[trigger] x[i]).0 == x[i].0 && alike(
                x[i].1,
                x[i].1,
            ) by {
                alike_reflexive(x[i].1);
            }
        },
        _ => {},
    }
}

/// Whether two numbers are equal.
pub fn same_number(a: &Number, b: &Number) -> (r: bool)
    ensures
        r == num_alike(a@, b@),
{
    match (a, b) {
        (Number::Pos(x), Number::Pos(y)) => *x == *y,
        (Number::Neg(x), Number::Neg(y)) => *x == *y,
        (Number::Float(x), Number::Float(y)) => {
            let (x, y) = (x.as_str(), y.as_str());
            same(x, y) || ((same(x, "0.0") || same(x, "-0.0")) && (same(y, "0.0") || same(
                y,
                "-0.0",
            )))
        },
        _ => false,
    }
}

/// Whether two values are equal.
pub fn same_json(a: &Json, b: &Json) -> (r: bool)
    ensures
        r == alike(a@, b@),
    decreases a,
{
    broadcast use {arr_view, obj_view};

    match (a, b) {
        (Json::Null, Json::Null) => true,
        (Json::Bool(x), Json::Bool(y)) => *x == *y,
        (Json::Num(x), Json::Num(y)) => same_number(x, y),
        (Json::Str(x), Json::Str(y)) => same(x.as_str(), y.as_str()),
        (Json::Arr(x), Json::Arr(y)) => {
            if x.len() != y.len() {
                return false;
            }
            let mut i: usize = 0;
            while i < x.len()
                invariant
                    i <= x.len() == y.len(),
                    *a == Json::Arr(*x),
                    *b == Json::Arr(*y),
                    forall|j: int| 0 <= j < i ==> alike(#[trigger] item_views(x@)[j], item_views(y@)[j]),
                decreases x.len() - i,
            {
                assert(decreases_to!(*a => a->Arr_0));
                assert(decreases_to!(a->Arr_0 => a->Arr_0[i as int]));
                proof {
                    arr_view(*x);
                    arr_view(*y);
                }
                if !same_json(&x[i], &y[i]) {
                    assert(!alike(item_views(x@)[i as int], item_views(y@)[i as int]));
                    return false;
                }
                assert(alike(item_views(x@)[i as int], item_views(y@)[i as int]));
                i += 1;
            }
            true
        },
        (Json::Obj(x), Json::Obj(y)) => {
            if x.len() != y.len() {
                return false;
            }
            let mut i: usize = 0;
            while i < x.len()
                invariant
                    i <= x.len() == y.len(),
                    *a == Json::Obj(*x),
                    *b == Json::Obj(*y),
                    forall|j: int|
                        0 <= j < i ==> (#[trigger] member_views(x@)[j]).0 == member_views(y@)[j].0
                            && alike(member_views(x@)[j].1, member_views(y@)[j].1),
                decreases x.len() - i,
            {
                assert(decreases_to!(*a => a->Obj_0));
                assert(decreases_to!(a->Obj_0 => a->Obj_0[i as int]));
                proof {
                    obj_view(*x);
                    obj_view(*y);
                }
                let ghost mx = member_views(x@)[i as int];
                let ghost my = member_views(y@)[i as int];
                if !same(x[i].name.as_str(), y[i].name.as_str()) || !same_json(
                    &x[i].value,
                    &y[i].value,
                ) {
                    assert(!(mx.0 == my.0 && alike(mx.1, my.1)));
                    return false;
                }
                i += 1;
            }
            true
        },
        _ => false,
    }
}

/// A number like this one.
pub fn copy_number(n: &Number) -> (r: Number)
    ensures
        r == *n,
{
    match n {
        Number::Pos(x) => Number::Pos(*x),
        Number::Neg(x) => Number::Neg(*x),
        Number::Float(t) => Number::Float(t.clone()),
    }
}

/// A value like this one.
pub fn copy_json(v: &Json) -> (r: Json)
    ensures
        r@ == v@,
    decreases v,
{
    broadcast use {arr_view, obj_view};

    match v {
        Json::Null => Json::Null,
        Json::Bool(b) => Json::Bool(*b),
        Json::Num(n) => Json::Num(copy_number(n)),
        Json::Str(s) => Json::Str(s.clone()),
        Json::Arr(x) => {
            let mut out: Vec<Json> = Vec::new();
            let mut i: usize = 0;
            while i < x.len()
                invariant
                    i <= x.len(),
                    *v == Json::Arr(*x),
                    item_views(out@) =~= item_views(x@).take(i as int),
                decreases x.len() - i,
            {
                assert(decreases_to!(*v => v->Arr_0));
                assert(decreases_to!(v->Arr_0 => v->Arr_0[i as int]));
                let c = copy_json(&x[i]);
                let ghost before = out@;
                out.push(c);
                assert(item_views(out@) =~= item_views(before).push(c@));
                i += 1;
            }
            assert(item_views(out@) =~= item_views(x@));
            Json::Arr(out)
        },
        Json::Obj(x) => {
            let mut out: Vec<Member> = Vec::new();
            let mut i: usize = 0;
            while i < x.len()
                invariant
                    i <= x.len(),
                    *v == Json::Obj(*x),
                    member_views(out@) =~= member_views(x@).take(i as int),
                decreases x.len() - i,
            {
                assert(decreases_to!(*v => v->Obj_0));
                assert(decreases_to!(v->Obj_0 => v->Obj_0[i as int]));
                let c = Member { name: x[i].name.clone(), value: copy_json(&x[i].value) };
                let ghost before = out@;
                out.push(c);
                assert(member_views(out@) =~= member_views(before).push((c.name@, c.value@)));
                i += 1;
            }
            assert(member_views(out@) =~= member_views(x@));
            Json::Obj(out)
        },
    }
}

/// A member with the name `k`.
pub open spec fn named(k: Seq<char>) -> spec_fn((Seq<char>, JsonView)) -> bool {
    |m: (Seq<char>, JsonView)| m.0 == k
}

/// The member `k` of an object; nothing for any other value.
pub open spec fn field(v: JsonView, k: Seq<char>) -> Option<JsonView> {
    match v {
        JsonView::Obj(m) => match first_where(m, named(k)) {
            Some(i) => Some(m[i].1),
            None => None,
        },
        _ => None,
    }
}

/// The text of a string member.
pub open spec fn text_field(v: JsonView, k: Seq<char>) -> Option<Seq<char>> {
    match field(v, k) {
        Some(JsonView::Str(s)) => Some(s),
        _ => None,
    }
}

/// The value of a member that is a whole number from zero up.
pub open spec fn uint_field(v: JsonView, k: Seq<char>) -> Option<u64> {
    match field(v, k) {
        Some(JsonView::Num(NumberView::Pos(n))) => Some(n),
        _ => None,
    }
}

/// The position of the member `k`.
pub fn find_member(m: &Vec<Member>, k: &str) -> (r: Option<usize>)
    ensures
        match r {
            Some(i) => i < m@.len() && first_where(member_views(m@), named(k@)) == Some(i as int),
            None => first_where(member_views(m@), named(k@)) is None,
        },
{
    let mut i: usize = 0;
    while i < m.len()
        invariant
            i <= m.len(),
            forall|j: int| 0 <= j < i ==> !named(k@)(#[trigger] member_views(m@)[j]),
        decreases m.len() - i,
    {
        if same(m[i].name.as_str(), k) {
            proof {
                assert(named(k@)(member_views(m@)[i as int]));
                first_where_is(member_views(m@), named(k@), i as int);
            }
            return Some(i);
        }
        i += 1;
    }
    proof {
        first_where_none(member_views(m@), named(k@));
    }
    None
}

impl Json {
    /// The member `k`, if this is an object that has one.
    pub fn get(&self, k: &str) -> (r: Option<&Json>)
        ensures
            match r {
                Some(v) => field(self@, k@) == Some(v@),
                None => field(self@, k@) is None,
            },
    {
        broadcast use obj_view;

        match self {
            Json::Obj(m) => match find_member(m, k) {
                Some(i) => {
                    assert(member_views(m@)[i as int].1 == m@[i as int].value@);
                    Some(&m[i].value)
                },
                None => None,
            },
            _ => None,
        }
    }

    /// The text, if this is a string.
    pub fn as_str(&self) -> (r: Option<&str>)
        ensures
            match r {
                Some(t) => self@ == JsonView::Str(t@),
                None => !(self@ is Str),
            },
    {
        match self {
            Json::Str(s) => Some(s.as_str()),
            _ => None,
        }
    }

    /// The value, if this is a whole number from zero up.
    pub fn as_u64(&self) -> (r: Option<u64>)
        ensures
            match r {
                Some(n) => self@ == JsonView::Num(NumberView::Pos(n)),
                None => !(self@ is Num && self@->Num_0 is Pos),
            },
    {
        match self {
            Json::Num(Number::Pos(n)) => Some(*n),
            _ => None,
        }
    }

    /// The text of the string member `k`.
    pub fn get_str(&self, k: &str) -> (r: Option<&str>)
        ensures
            match r {
                Some(t) => text_field(self@, k@) == Some(t@),
                None => text_field(self@, k@) is None,
            },
    {
        match self.get(k) {
            Some(v) => v.as_str(),
            None => None,
        }
    }

    /// The value of the member `k`, a whole number from zero up.
    pub fn get_u64(&self, k: &str) -> (r: Option<u64>)
        ensures
            match r {
                Some(n) => uint_field(self@, k@) == Some(n),
                None => uint_field(self@, k@) is None,
            },
    {
        match self.get(k) {
            Some(v) => v.as_u64(),
            None => None,
        }
    }
}

/// Members with `k` set to `v`, in the order of their names.
pub open spec fn put(m: Seq<(Seq<char>, JsonView)>, k: Seq<char>, v: JsonView) -> Seq<
    (Seq<char>, JsonView),
>
    decreases m.len(),
{
    if m.len() == 0 {
        seq![(k, v)]
    } else if m[0].0 == k {
        seq![(k, v)] + m.skip(1)
    } else if sorts_before(k, m[0].0) {
        seq![(k, v)] + m
    } else {
        seq![m[0]] + put(m.skip(1), k, v)
    }
}

/// A member with another name than `k`.
pub open spec fn not_named(k: Seq<char>) -> spec_fn((Seq<char>, JsonView)) -> bool {
    |x: (Seq<char>, JsonView)| x.0 != k
}

/// Members other than `k`.
pub open spec fn without(m: Seq<(Seq<char>, JsonView)>, k: Seq<char>) -> Seq<
    (Seq<char>, JsonView),
> {
    m.filter(not_named(k))
}

/// Where a name stands, or belongs, among members in the order of their names.
pub open spec fn place(m: Seq<(Seq<char>, JsonView)>, k: Seq<char>) -> spec_fn(
    (Seq<char>, JsonView),
) -> bool {
    |x: (Seq<char>, JsonView)| x.0 == k || sorts_before(k, x.0)
}

proof fn put_at(m: Seq<(Seq<char>, JsonView)>, k: Seq<char>, v: JsonView, i: int)
    requires
        0 <= i <= m.len(),
        forall|j: int| 0 <= j < i ==> !place(m, k)(#[trigger] m[j]),
        i < m.len() ==> place(m, k)(m[i]),
    ensures
        put(m, k, v) == (if i < m.len() && m[i].0 == k {
            m.update(i, (k, v))
        } else {
            m.insert(i, (k, v))
        }),
    decreases m.len(),
{
    if m.len() == 0 {
        assert(put(m, k, v) =~= m.insert(0, (k, v)));
    } else if i == 0 {
        assert(place(m, k)(m[0]));
        if m[0].0 == k {
            assert(put(m, k, v) =~= m.update(0, (k, v)));
        } else {
            assert(put(m, k, v) =~= m.insert(0, (k, v)));
        }
    } else {
        assert(!place(m, k)(m[0]));
        let t = m.skip(1);
        assert forall|j: int| 0 <= j < i - 1 implies !place(t, k)(#[trigger] t[j]) by {
            assert(!place(m, k)(m[j + 1]));
        }
        put_at(t, k, v, i - 1);
        if i < m.len() && m[i].0 == k {
            assert(put(m, k, v) =~= m.update(i, (k, v)));
        } else {
            assert(put(m, k, v) =~= m.insert(i, (k, v)));
        }
    }
}

/// Sets the member `k`, in the order of names.
pub fn put_member(m: &mut Vec<Member>, k: &str, v: Json)
    ensures
        member_views(final(m)@) == put(member_views(old(m)@), k@, v@),
{
    let ghost start = m@;
    let ghost mv = member_views(m@);
    let mut i: usize = 0;
    while i < m.len() && !same(m[i].name.as_str(), k) && !before(k, m[i].name.as_str())
        invariant
            m@ == start,
            mv == member_views(start),
            i <= m.len(),
            forall|j: int| 0 <= j < i ==> !place(mv, k@)(#[trigger] mv[j]),
        decreases m.len() - i,
    {
        assert(!place(mv, k@)(mv[i as int]));
        i += 1;
    }
    proof {
        if i < m@.len() {
            assert(place(mv, k@)(mv[i as int]));
        }
        put_at(mv, k@, v@, i as int);
    }
    let member = Member { name: k.to_owned(), value: v };
    if i < m.len() && same(m[i].name.as_str(), k) {
        m.set(i, member);
        assert(member_views(m@) =~= mv.update(i as int, (k@, v@)));
    } else {
        m.insert(i, member);
        assert(member_views(m@) =~= mv.insert(i as int, (k@, v@)));
    }
}

/// Takes the member `k` out.
pub fn drop_member(m: &mut Vec<Member>, k: &str)
    ensures
        member_views(final(m)@) == without(member_views(old(m)@), k@),
{
    let ghost mv = member_views(m@);
    let ghost p = not_named(k@);
    let mut kept: Vec<Member> = Vec::new();
    let mut i: usize = 0;
    let ghost start = m@;
    proof {
        reveal(Seq::filter);
    }
    while i < m.len()
        invariant
            m@ == start,
            mv == member_views(start),
            p == not_named(k@),
            i <= m.len(),
            member_views(kept@) =~= mv.take(i as int).filter(p),
        decreases m.len() - i,
    {
        proof {
            filter_step(mv, i as int, p);
        }
        if !same(m[i].name.as_str(), k) {
            let c = Member { name: m[i].name.clone(), value: copy_json(&m[i].value) };
            let ghost kb = kept@;
            kept.push(c);
            assert(member_views(kept@) =~= member_views(kb).push((c.name@, c.value@)));
        }
        i += 1;
    }
    assert(mv.take(i as int) =~= mv);
    *m = kept;
}

/// A member that was set reads back, and setting it leaves every other member as it was.
pub proof fn put_reads_back(m: Seq<(Seq<char>, JsonView)>, k: Seq<char>, v: JsonView, other: Seq<char>)
    ensures
        field(JsonView::Obj(put(m, k, v)), k) == Some(v),
        other != k ==> field(JsonView::Obj(put(m, k, v)), other) == field(JsonView::Obj(m), other),
{
    let i = place_index(m, k, 0);
    let q = put(m, k, v);
    put_at(m, k, v, i);
    assert forall|j: int| 0 <= j < i implies !named(k)(#[trigger] q[j]) by {
        assert(!place(m, k)(m[j]));
        assert(q[j] == m[j]);
    }
    first_where_is(q, named(k), i);
    if other != k {
        let p = named(other);
        let replaced = i < m.len() && m[i].0 == k;
        if exists|c: int| 0 <= c < m.len() && p(#[trigger] m[c]) {
            let c = choose|c: int| 0 <= c < m.len() && p(#[trigger] m[c]);
            first_where_some(m, p, c);
            let a = first_where(m, p)->0;
            let b = if a < i || replaced {
                a
            } else {
                a + 1
            };
            assert(q[b] == m[a]);
            assert forall|j: int| 0 <= j < b implies !p(#[trigger] q[j]) by {
                if j != i {
                    let o = if j < i || replaced {
                        j
                    } else {
                        j - 1
                    };
                    assert(q[j] == m[o]);
                    assert(!p(m[o]));
                }
            }
            first_where_is(q, p, b);
        } else {
            assert forall|j: int| 0 <= j < q.len() implies !p(#[trigger] q[j]) by {
                if j != i {
                    let o = if j < i || replaced {
                        j
                    } else {
                        j - 1
                    };
                    assert(q[j] == m[o]);
                    assert(!p(m[o]));
                }
            }
            first_where_none(q, p);
            first_where_none(m, p);
        }
    }
}

proof fn place_index(m: Seq<(Seq<char>, JsonView)>, k: Seq<char>, from: int) -> (i: int)
    requires
        0 <= from <= m.len(),
        forall|j: int| 0 <= j < from ==> !place(m, k)(#[trigger] m[j]),
    ensures
        0 <= i <= m.len(),
        forall|j: int| 0 <= j < i ==> !place(m, k)(#[trigger] m[j]),
        i < m.len() ==> place(m, k)(m[i]),
    decreases m.len() - from,
{
    if from == m.len() || place(m, k)(m[from]) {
        from
    } else {
        place_index(m, k, from + 1)
    }
}

/// A member that was taken out is gone.
pub proof fn without_is_gone(m: Seq<(Seq<char>, JsonView)>, k: Seq<char>)
    ensures
        field(JsonView::Obj(without(m, k)), k) is None,
{
    let p = not_named(k);
    filter_members(m, p);
    let w = without(m, k);
    assert forall|j: int| 0 <= j < w.len() implies !named(k)(#[trigger] w[j]) by {
        assert(p(m.filter(p)[j]));
    }
    first_where_none(w, named(k));
}

/// Taking a member out leaves every other member as it was.
pub proof fn without_keeps_others(m: Seq<(Seq<char>, JsonView)>, k: Seq<char>, other: Seq<char>)
    requires
        other != k,
    ensures
        field(JsonView::Obj(without(m, k)), other) == field(JsonView::Obj(m), other),
    decreases m.len(),
{
    reveal(Seq::filter);
    let p = named(other);
    if m.len() > 0 {
        let d = m.drop_last();
        without_keeps_others(d, k, other);
        let w = without(m, k);
        let wd = without(d, k);
        if first_where(d, p) is Some {
            let a = first_where(d, p)->0;
            assert(is_first(d, p, a));
            assert forall|j: int| 0 <= j < a implies !p(#[trigger] m[j]) by {
                assert(!p(d[j]));
            }
            assert(m[a] == d[a]);
            first_where_is(m, p, a);
            assert(first_where(wd, p) is Some);
            let b = first_where(wd, p)->0;
            assert(is_first(wd, p, b));
            assert forall|j: int| 0 <= j < b implies !p(#[trigger] w[j]) by {
                assert(w[j] == wd[j]);
                assert(!p(wd[j]));
            }
            assert(w[b] == wd[b]);
            first_where_is(w, p, b);
        } else {
            assert forall|j: int| 0 <= j < d.len() implies !p(#[trigger] d[j]) by {
                if p(d[j]) {
                    first_where_some(d, p, j);
                }
            }
            assert forall|j: int| 0 <= j < wd.len() implies !p(#[trigger] wd[j]) by {
                if p(wd[j]) {
                    first_where_some(wd, p, j);
                }
            }
            assert forall|j: int| 0 <= j < d.len() implies !p(#[trigger] m[j]) by {
                assert(m[j] == d[j]);
            }
            assert forall|j: int| 0 <= j < wd.len() implies !p(#[trigger] w[j]) by {
                assert(w[j] == wd[j]);
            }
            if p(m.last()) {
                first_where_is(m, p, d.len() as int);
                assert(w[wd.len() as int] == m.last());
                first_where_is(w, p, wd.len() as int);
            } else {
                assert forall|j: int| 0 <= j < m.len() implies !p(#[trigger] m[j]) by {}
                assert forall|j: int| 0 <= j < w.len() implies !p(#[trigger] w[j]) by {}
                first_where_none(m, p);
                first_where_none(w, p);
            }
        }
    } else {
        assert(without(m, k) =~= m);
    }
}

/// Members set one after the other, a later one in place of an earlier of the same name.
pub open spec fn put_all(m: Seq<(Seq<char>, JsonView)>) -> Seq<(Seq<char>, JsonView)>
    decreases m.len(),
{
    if m.len() == 0 {
        seq![]
    } else {
        put(put_all(m.drop_last()), m.last().0, m.last().1)
    }
}

/// What is read of an object is its first member under that name, and nothing where it has none or is no
/// object; a text or a whole number only where that member is one.
pub proof fn a_member_is_read_by_its_name(
    v: &Json,
    k: &str,
    r: Option<&Json>,
    t: Option<&str>,
    n: Option<u64>,
    i: int,
)
    requires
        call_ensures(Json::get, (v, k), r),
        call_ensures(Json::get_str, (v, k), t),
        call_ensures(Json::get_u64, (v, k), n),
    ensures
        !(v@ is Obj) ==> r is None && t is None && n is None,
        v@ matches JsonView::Obj(m) ==> (0 <= i < m.len() && m[i].0 == k@ && (forall|j: int|
            0 <= j < i ==> (#[trigger] m[j]).0 != k@) ==> {
            &&& r is Some && r->0@ == m[i].1
            &&& t is Some <==> m[i].1 is Str
            &&& t is Some ==> JsonView::Str(t->0@) == m[i].1
            &&& n is Some <==> m[i].1 is Num && m[i].1->Num_0 is Pos
            &&& n is Some ==> JsonView::Num(NumberView::Pos(n->0)) == m[i].1
        }),
        v@ matches JsonView::Obj(m) ==> ((forall|j: int|
            0 <= j < m.len() ==> (#[trigger] m[j]).0 != k@) ==> r is None && t is None && n is None),
{
    if v@ is Obj {
        let m = v@->Obj_0;
        if 0 <= i < m.len() && m[i].0 == k@ && (forall|j: int|
            0 <= j < i ==> (#[trigger] m[j]).0 != k@) {
            first_where_is(m, named(k@), i);
        }
        if forall|j: int| 0 <= j < m.len() ==> (#[trigger] m[j]).0 != k@ {
            first_where_none(m, named(k@));
        }
    }
}

/// Two values that are equal are of one kind, and texts, flags and whole numbers are equal only to
/// themselves; lists and objects only part by part.
pub proof fn equal_values_are_of_one_kind(a: &Json, b: &Json, r: bool)
    requires
        call_ensures(same_json, (a, b), r),
    ensures
        a@ == b@ ==> r,
        a@ is Str || a@ is Bool || a@ is Null ==> (r <==> a@ == b@),
        a@ is Num && !(a@->Num_0 is Float) ==> (r <==> a@ == b@),
        r && a@ is Num ==> b@ is Num,
        r && a@ is Arr ==> b@ is Arr && a@->Arr_0.len() == b@->Arr_0.len(),
        r && a@ is Obj ==> b@ is Obj && a@->Obj_0.len() == b@->Obj_0.len() && forall|i: int|
            0 <= i < a@->Obj_0.len() ==> (#[trigger] a@->Obj_0[i]).0 == b@->Obj_0[i].0,
{
    alike_reflexive(a@);
}

/// Whether members stand in the order of their names, none twice.
pub open spec fn in_name_order(m: Seq<(Seq<char>, JsonView)>) -> bool {
    forall|i: int, j: int|
        0 <= i < j < m.len() ==> sorts_before((#[trigger] m[i]).0, (#[trigger] m[j]).0)
}

/// Setting a member keeps the members in the order of their names.
pub proof fn setting_keeps_the_order(m: Seq<(Seq<char>, JsonView)>, k: Seq<char>, v: JsonView)
    requires
        in_name_order(m),
    ensures
        in_name_order(put(m, k, v)),
        forall|i: int|
            0 <= i < put(m, k, v).len() ==> (#[trigger] put(m, k, v)[i]).0 == k || exists|j: int|
                0 <= j < m.len() && #[trigger] m[j] == put(m, k, v)[i],
    decreases m.len(),
{
    let r = put(m, k, v);
    if m.len() == 0 {
    } else if m[0].0 == k {
        assert forall|i: int| 0 <= i < r.len() implies (#[trigger] r[i]).0 == k || exists|j: int|
            0 <= j < m.len() && #[trigger] m[j] == r[i] by {
            if i > 0 {
                assert(r[i] == m[i]);
            }
        }
        assert forall|i: int, j: int| 0 <= i < j < r.len() implies sorts_before(
            (#[trigger] r[i]).0,
            (#[trigger] r[j]).0,
        ) by {
            assert(r[j] == m[j]);
            assert(r[i].0 == m[i].0);
        }
    } else if sorts_before(k, m[0].0) {
        assert forall|i: int| 0 <= i < r.len() implies (#[trigger] r[i]).0 == k || exists|j: int|
            0 <= j < m.len() && #[trigger] m[j] == r[i] by {
            if i > 0 {
                assert(r[i] == m[i - 1]);
            }
        }
        assert forall|i: int, j: int| 0 <= i < j < r.len() implies sorts_before(
            (#[trigger] r[i]).0,
            (#[trigger] r[j]).0,
        ) by {
            assert(r[j] == m[j - 1]);
            if i == 0 {
                if j > 1 {
                    assert(sorts_before(m[0].0, m[j - 1].0));
                    sorts_before_transitive(k, m[0].0, m[j - 1].0);
                }
            } else {
                assert(r[i] == m[i - 1]);
            }
        }
    } else {
        let rest = m.skip(1);
        assert forall|i: int, j: int| 0 <= i < j < rest.len() implies sorts_before(
            (#[trigger] rest[i]).0,
            (#[trigger] rest[j]).0,
        ) by {
            assert(rest[i] == m[i + 1] && rest[j] == m[j + 1]);
        }
        setting_keeps_the_order(rest, k, v);
        let q = put(rest, k, v);
        sorts_before_total(k, m[0].0);
        assert forall|i: int| 0 <= i < r.len() implies (#[trigger] r[i]).0 == k || exists|j: int|
            0 <= j < m.len() && #[trigger] m[j] == r[i] by {
            if i == 0 {
                assert(m[0] == r[0]);
            } else {
                assert(r[i] == q[i - 1]);
                if q[i - 1].0 != k {
                    let j = choose|j: int| 0 <= j < rest.len() && #[trigger] rest[j] == q[i - 1];
                    assert(m[j + 1] == r[i]);
                }
            }
        }
        assert forall|i: int, j: int| 0 <= i < j < r.len() implies sorts_before(
            (#[trigger] r[i]).0,
            (#[trigger] r[j]).0,
        ) by {
            assert(r[j] == q[j - 1]);
            if i == 0 {
                if q[j - 1].0 != k {
                    let l = choose|l: int| 0 <= l < rest.len() && #[trigger] rest[l] == q[j - 1];
                    assert(m[l + 1] == r[j]);
                    assert(sorts_before(m[0].0, m[l + 1].0));
                }
            } else {
                assert(r[i] == q[i - 1]);
            }
        }
    }
}

} // verus!
