//! JSON values as text: how they are written, and what a text says.
use vstd::prelude::*;

use crate::json::{
    arr_view, item_views, member_views, obj_view, Json, JsonView, Member, Number, NumberView,
};
use crate::text::{dec, dec_int, show_i64, show_u64};

verus! {

/// A hexadecimal digit.
pub open spec fn hex_digit(n: int) -> char {
    if n < 10 {
        ('0' as int + n) as char
    } else {
        ('a' as int + n - 10) as char
    }
}

/// A character inside a quoted text: quotes, backslashes and control characters are escaped.
pub open spec fn escaped(c: char) -> Seq<char> {
    if c == '"' {
        seq!['\\', '"']
    } else if c == '\\' {
        seq!['\\', '\\']
    } else if c as int == 8 {
        seq!['\\', 'b']
    } else if c as int == 12 {
        seq!['\\', 'f']
    } else if c == '\n' {
        seq!['\\', 'n']
    } else if c == '\r' {
        seq!['\\', 'r']
    } else if c == '\t' {
        seq!['\\', 't']
    } else if (c as int) < 32 {
        seq!['\\', 'u', '0', '0', hex_digit(c as int / 16), hex_digit(c as int % 16)]
    } else {
        seq![c]
    }
}

/// The characters of a text as they stand between quotes.
pub open spec fn escaped_text(s: Seq<char>) -> Seq<char>
    decreases s.len(),
{
    if s.len() == 0 {
        seq![]
    } else {
        escaped_text(s.drop_last()) + escaped(s.last())
    }
}

/// A text as JSON writes it.
pub open spec fn string_text(s: Seq<char>) -> Seq<char> {
    seq!['"'] + escaped_text(s) + seq!['"']
}

/// `serde_json::Value`'s `to_string` on a string value: the text in quotes, with quotes, backslashes and
/// control characters escaped and every other character as it is.
#[verifier::external_body]
fn write_string(s: &str) -> (r: String)
    ensures
        r@ == string_text(s@),
{
    serde_json::Value::String(s.to_owned()).to_string()
}

/// A number as JSON writes it.
pub open spec fn number_text(n: NumberView) -> Seq<char> {
    match n {
        NumberView::Pos(x) => dec(x as nat),
        NumberView::Neg(x) => dec_int(x as int),
        NumberView::Float(t) => t,
    }
}

/// A value as compact JSON: no white space, the parts in their order.
pub open spec fn json_text(v: JsonView) -> Seq<char>
    decreases v, 0nat,
{
    match v {
        JsonView::Null => "null"@,
        JsonView::Bool(b) => if b {
            "true"@
        } else {
            "false"@
        },
        JsonView::Num(n) => number_text(n),
        JsonView::Str(s) => string_text(s),
        JsonView::Arr(x) => seq!['['] + items_text(x, x.len()) + seq![']'],
        JsonView::Obj(m) => seq!['{'] + members_text(m, m.len()) + seq!['}'],
    }
}

/// The first `n` items of a list, with commas between them.
pub open spec fn items_text(x: Seq<JsonView>, n: nat) -> Seq<char>
    decreases x, n,
{
    if n == 0 || n > x.len() {
        seq![]
    } else if n == 1 {
        json_text(x[0])
    } else {
        items_text(x, (n - 1) as nat) + seq![','] + json_text(x[n - 1])
    }
}

/// The first `n` members of an object, with commas between them.
pub open spec fn members_text(m: Seq<(Seq<char>, JsonView)>, n: nat) -> Seq<char>
    decreases m, n,
{
    if n == 0 || n > m.len() {
        seq![]
    } else if n == 1 {
        string_text(m[0].0) + seq![':'] + json_text(m[0].1)
    } else {
        members_text(m, (n - 1) as nat) + seq![','] + (string_text(m[n - 1].0) + seq![':'] + json_text(
            m[n - 1].1,
        ))
    }
}

fn write_json(v: &Json, out: &mut String)
    ensures
        final(out)@ == old(out)@ + json_text(v@),
    decreases v,
{
    broadcast use {arr_view, obj_view};

    let ghost start = out@;
    match v {
        Json::Null => {
            out.append("null");
        },
        Json::Bool(b) => {
            if *b {
                out.append("true");
            } else {
                out.append("false");
            }
        },
        Json::Num(Number::Pos(n)) => {
            let t = show_u64(*n);
            out.append(t.as_str());
        },
        Json::Num(Number::Neg(n)) => {
            let t = show_i64(*n);
            out.append(t.as_str());
        },
        Json::Num(Number::Float(t)) => {
            out.append(t.as_str());
        },
        Json::Str(s) => {
            let t = write_string(s.as_str());
            out.append(t.as_str());
        },
        Json::Arr(x) => {
            out.push('[');
            let ghost xv = item_views(x@);
            let mut i: usize = 0;
            assert(out@ =~= start + (seq!['['] + items_text(xv, 0)));
            while i < x.len()
                invariant
                    i <= x.len(),
                    *v == Json::Arr(*x),
                    xv == item_views(x@),
                    out@ == start + (seq!['['] + items_text(xv, i as nat)),
                decreases x.len() - i,
            {
                assert(decreases_to!(*v => v->Arr_0));
                assert(decreases_to!(v->Arr_0 => v->Arr_0[i as int]));
                if i > 0 {
                    out.push(',');
                }
                write_json(&x[i], out);
                assert(xv[i as int] == x@[i as int]@);
                assert(out@ =~= start + (seq!['['] + items_text(xv, (i + 1) as nat)));
                i += 1;
            }
            out.push(']');
            assert(out@ =~= start + (seq!['['] + items_text(xv, xv.len()) + seq![']']));
        },
        Json::Obj(m) => {
            out.push('{');
            let ghost mv = member_views(m@);
            let mut i: usize = 0;
            assert(out@ =~= start + (seq!['{'] + members_text(mv, 0)));
            while i < m.len()
                invariant
                    i <= m.len(),
                    *v == Json::Obj(*m),
                    mv == member_views(m@),
                    out@ == start + (seq!['{'] + members_text(mv, i as nat)),
                decreases m.len() - i,
            {
                assert(decreases_to!(*v => v->Obj_0));
                assert(decreases_to!(v->Obj_0 => v->Obj_0[i as int]));
                if i > 0 {
                    out.push(',');
                }
                let k = write_string(m[i].name.as_str());
                out.append(k.as_str());
                out.push(':');
                write_json(&m[i].value, out);
                assert(mv[i as int] == (m@[i as int].name@, m@[i as int].value@));
                assert(out@ =~= start + (seq!['{'] + members_text(mv, (i + 1) as nat)));
                i += 1;
            }
            out.push('}');
            assert(out@ =~= start + (seq!['{'] + members_text(mv, mv.len()) + seq!['}']));
        },
    }
}

/// A value as compact JSON.
pub fn compact_text(v: &Json) -> (r: String)
    ensures
        r@ == json_text(v@),
{
    let mut out = String::new();
    write_json(v, &mut out);
    assert(seq![] + json_text(v@) =~= json_text(v@));
    out
}

// ------------------------------------------------------------------ reading

/// `serde_json`'s document type.
#[verifier::external_type_specification]
#[verifier::external_body]
pub struct ExValue(serde_json::Value);

/// What a document holds.
pub uninterp spec fn document(v: serde_json::Value) -> JsonView;

/// What a text says as JSON; nothing where it is not one JSON value.
pub uninterp spec fn json_of(s: Seq<char>) -> Option<JsonView>;

/// `serde_json::from_str` into a document. The result depends on the text alone; which texts are
/// accepted and what they say is left unsaid.
#[verifier::external_body]
fn read_value(s: &str) -> (r: Option<serde_json::Value>)
    ensures
        match r {
            Some(v) => json_of(s@) == Some(document(v)),
            None => json_of(s@) is None,
        },
{
    serde_json::from_str(s).ok()
}

/// A document opened: its kind, and its parts still closed.
enum Opened<'a> {
    Null,
    Bool(bool),
    Num(Number),
    Str(String),
    Arr(Vec<&'a serde_json::Value>),
    Obj(Vec<(String, &'a serde_json::Value)>),
}

/// What an opened document holds.
spec fn opened(o: Opened) -> JsonView {
    match o {
        Opened::Null => JsonView::Null,
        Opened::Bool(b) => JsonView::Bool(b),
        Opened::Num(n) => JsonView::Num(n@),
        Opened::Str(s) => JsonView::Str(s@),
        Opened::Arr(x) => JsonView::Arr(Seq::new(x@.len(), |i: int| document(*x@[i]))),
        Opened::Obj(m) => JsonView::Obj(
            Seq::new(m@.len(), |i: int| (m@[i].0@, document(*m@[i].1))),
        ),
    }
}

/// The variants of `serde_json::Value`, told apart: a whole number by its value and any other by its
/// text, a list by its items, and an object by its members in the order in which its map is walked.
#[verifier::external_body]
fn open_value<'a>(v: &'a serde_json::Value) -> (r: Opened<'a>)
    ensures
        document(*v) == opened(r),
{
    match v {
        serde_json::Value::Null => Opened::Null,
        serde_json::Value::Bool(b) => Opened::Bool(*b),
        serde_json::Value::Number(n) => Opened::Num(
            n.as_u64().map(Number::Pos).or(n.as_i64().map(Number::Neg)).unwrap_or(Number::Float(n.to_string())),
        ),
        serde_json::Value::String(s) => Opened::Str(s.clone()),
        serde_json::Value::Array(x) => Opened::Arr(x.iter().collect()),
        serde_json::Value::Object(m) => Opened::Obj(m.iter().map(|(k, v)| (k.clone(), v)).collect()),
    }
}

fn own(v: &serde_json::Value) -> (r: Json)
    ensures
        r@ == document(*v),
    decreases document(*v),
{
    broadcast use {arr_view, obj_view};

    let ghost d = document(*v);
    match open_value(v) {
        Opened::Null => Json::Null,
        Opened::Bool(b) => Json::Bool(b),
        Opened::Num(n) => Json::Num(n),
        Opened::Str(s) => Json::Str(s),
        Opened::Arr(x) => {
            let mut out: Vec<Json> = Vec::new();
            let mut i: usize = 0;
            while i < x.len()
                invariant
                    i <= x.len(),
                    d == document(*v),
                    d == JsonView::Arr(Seq::new(x@.len(), |j: int| document(*x@[j]))),
                    item_views(out@) =~= d->Arr_0.take(i as int),
                decreases x.len() - i,
            {
                assert(decreases_to!(d => d->Arr_0));
                assert(decreases_to!(d->Arr_0 => d->Arr_0[i as int]));
                let c = own(x[i]);
                let ghost before = out@;
                out.push(c);
                assert(item_views(out@) =~= item_views(before).push(c@));
                i += 1;
            }
            assert(item_views(out@) =~= d->Arr_0);
            Json::Arr(out)
        },
        Opened::Obj(m) => {
            let mut out: Vec<Member> = Vec::new();
            let mut i: usize = 0;
            while i < m.len()
                invariant
                    i <= m.len(),
                    d == document(*v),
                    d == JsonView::Obj(Seq::new(m@.len(), |j: int| (m@[j].0@, document(*m@[j].1)))),
                    member_views(out@) =~= d->Obj_0.take(i as int),
                decreases m.len() - i,
            {
                assert(decreases_to!(d => d->Obj_0));
                assert(decreases_to!(d->Obj_0 => d->Obj_0[i as int]));
                assert(decreases_to!(d->Obj_0[i as int] => d->Obj_0[i as int].1));
                let c = Member { name: m[i].0.clone(), value: own(m[i].1) };
                let ghost before = out@;
                out.push(c);
                assert(member_views(out@) =~= member_views(before).push((c.name@, c.value@)));
                i += 1;
            }
            assert(member_views(out@) =~= d->Obj_0);
            Json::Obj(out)
        },
    }
}

/// What a text says as JSON.
pub fn read_json(s: &str) -> (r: Option<Json>)
    ensures
        match r {
            Some(v) => json_of(s@) == Some(v@),
            None => json_of(s@) is None,
        },
{
    match read_value(s) {
        Some(v) => Some(own(&v)),
        None => None,
    }
}

/// A value is written as what it is: the words of JSON, a number by its digits, a text between quotes, and
/// the parts of a list or an object between its brackets, each as it is written by itself.
pub proof fn a_value_is_written_part_by_part(
    v: &Json,
    r: String,
    a: &Json,
    ra: String,
    b: &Json,
    rb: String,
    name: Seq<char>,
)
    requires
        call_ensures(compact_text, (v,), r),
        call_ensures(compact_text, (a,), ra),
        call_ensures(compact_text, (b,), rb),
    ensures
        v@ is Null ==> r@ == "null"@,
        v@ == JsonView::Bool(true) ==> r@ == "true"@,
        v@ == JsonView::Bool(false) ==> r@ == "false"@,
        v@ matches JsonView::Num(NumberView::Pos(n)) ==> r@ == dec(n as nat),
        v@ matches JsonView::Num(NumberView::Neg(n)) ==> (n < 0 ==> r@ == seq!['-'] + dec((-n) as nat)),
        v@ matches JsonView::Num(NumberView::Float(t)) ==> r@ == t,
        v@ is Str ==> r@.len() >= 2 && r@[0] == '"' && r@.last() == '"',
        v@ == JsonView::Arr(seq![]) ==> r@ == seq!['[', ']'],
        v@ == JsonView::Obj(seq![]) ==> r@ == seq!['{', '}'],
        v@ == JsonView::Arr(seq![a@, b@]) ==> r@ == seq!['['] + ra@ + seq![','] + rb@ + seq![']'],
        v@ == JsonView::Obj(seq![(name, a@)]) ==> r@ == seq!['{'] + string_text(name) + seq![':'] + ra@
            + seq!['}'],
{
    match v@ {
        JsonView::Arr(x) => {
            if x.len() == 0 {
                assert(items_text(x, 0) =~= seq![]);
                assert(r@ =~= seq!['[', ']']);
            }
            if x == seq![a@, b@] {
                assert(x.len() == 2 && x[0] == a@ && x[1] == b@);
                assert(items_text(x, 1) == ra@);
                assert(items_text(x, 2) == ra@ + seq![','] + rb@);
                assert(r@ =~= seq!['['] + ra@ + seq![','] + rb@ + seq![']']);
            }
        },
        JsonView::Obj(m) => {
            if m.len() == 0 {
                assert(members_text(m, 0) =~= seq![]);
                assert(r@ =~= seq!['{', '}']);
            }
            if m == seq![(name, a@)] {
                assert(m[0] == (name, a@));
                assert(r@ =~= seq!['{'] + string_text(name) + seq![':'] + ra@ + seq!['}']);
            }
        },
        _ => {},
    }
}

} // verus!
