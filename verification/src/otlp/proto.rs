//! The part of the OTLP trace envelope that is read, and how liberally its values are read.
use vstd::prelude::*;

use crate::event::Money;
use crate::json::{
    arr_view, item_views, member_views, obj_view, put_all, put_member, Json,
    JsonView, Member, Number, NumberView,
};
use crate::text::{
    ascii_lower, chars_of, parse_i128, parse_uint, parsed_i128, parsed_uint, same, trimmed,
};
use crate::wire::{json_of, read_json};

verus! {

/// A floating-point number of the envelope.
#[derive(Debug)]
pub struct Float {
    /// Its whole part, rounded toward zero and held to the range of the type.
    pub whole: i128,
    /// Whether it is zero or more.
    pub nonneg: bool,
    /// As JSON writes it; absent where it is not finite.
    pub text: Option<String>,
}

/// A 64-bit integer of the envelope, in any of the forms exporters write.
#[derive(Debug)]
pub enum Num {
    Int(i64),
    Float(Float),
    Str(String),
}

/// A proto enum of the envelope: its number or its name.
#[derive(Debug)]
pub enum EnumValue {
    Num(i64),
    Name(String),
}

/// One attribute.
#[derive(Debug)]
pub struct KeyValue {
    pub key: String,
    pub value: Option<AnyValue>,
}

/// A list of values.
#[derive(Debug)]
pub struct ArrayValue {
    pub values: Vec<AnyValue>,
}

/// A list of attributes.
#[derive(Debug)]
pub struct KvList {
    pub values: Vec<KeyValue>,
}

/// An attribute's value; one of the forms is set.
#[derive(Debug)]
pub struct AnyValue {
    pub string_value: Option<String>,
    pub int_value: Option<Num>,
    pub double_value: Option<Float>,
    pub bool_value: Option<bool>,
    pub array_value: Option<ArrayValue>,
    pub kvlist_value: Option<KvList>,
    /// The value as dollars, where it reads as a finite number from zero up.
    pub amount: Option<Money>,
}

/// How a span ended.
#[derive(Debug)]
pub struct SpanStatus {
    pub code: Option<EnumValue>,
    pub message: Option<String>,
}

/// Something recorded during a span.
#[derive(Debug)]
pub struct SpanEvent {
    pub name: Option<String>,
    pub attributes: Vec<KeyValue>,
}

/// One span.
#[derive(Debug)]
pub struct Span {
    pub trace_id: Option<String>,
    pub span_id: Option<String>,
    pub parent_span_id: Option<String>,
    pub name: Option<String>,
    pub start_time_unix_nano: Option<Num>,
    pub end_time_unix_nano: Option<Num>,
    pub attributes: Vec<KeyValue>,
    pub events: Vec<SpanEvent>,
    pub status: Option<SpanStatus>,
}

/// The spans of one instrumentation scope.
#[derive(Debug)]
pub struct ScopeSpans {
    pub scope: Option<String>,
    pub spans: Vec<Span>,
}

/// The spans of one resource.
#[derive(Debug)]
pub struct ResourceSpans {
    /// The resource's attributes.
    pub resource: Vec<KeyValue>,
    pub scope_spans: Vec<ScopeSpans>,
}

/// An export.
#[derive(Debug)]
pub struct ExportTraceServiceRequest {
    pub resource_spans: Vec<ResourceSpans>,
}

impl SpanStatus {
    /// Whether the status is an error: its number is 2, or its name `STATUS_CODE_ERROR` in any case.
    pub open spec fn errored(self) -> bool {
        match self.code {
            Some(EnumValue::Num(n)) => n == 2,
            Some(EnumValue::Name(s)) => ascii_lower(s@) == "status_code_error"@,
            None => false,
        }
    }

    /// Whether the status is an error; unset and ok are not.
    pub fn is_error(&self) -> (r: bool)
        ensures
            r == self.errored(),
    {
        match &self.code {
            Some(EnumValue::Num(n)) => *n == 2,
            Some(EnumValue::Name(s)) => {
                let l = s.as_str().to_ascii_lowercase();
                same(l.as_str(), "status_code_error")
            },
            None => false,
        }
    }
}

impl Num {
    /// The number's whole value.
    pub open spec fn whole(self) -> Option<int> {
        match self {
            Num::Int(i) => Some(i as int),
            Num::Float(f) => Some(f.whole as int),
            Num::Str(s) => parsed_i128(trimmed(s@)),
        }
    }

    /// The number as a 128-bit integer.
    pub fn as_i128(&self) -> (r: Option<i128>)
        ensures
            match r {
                Some(n) => self.whole() == Some(n as int),
                None => self.whole() is None,
            },
    {
        match self {
            Num::Int(i) => Some(*i as i128),
            Num::Float(f) => Some(f.whole),
            Num::Str(s) => parse_i128(s.as_str().trim()),
        }
    }

    /// The number from zero up to the largest 64-bit one; nothing where it lies outside.
    pub open spec fn natural(self) -> Option<int> {
        match self.whole() {
            Some(n) => if 0 <= n <= u64::MAX {
                Some(n)
            } else {
                None
            },
            None => None,
        }
    }

    /// The number as a 64-bit natural number.
    pub fn as_u64(&self) -> (r: Option<u64>)
        ensures
            match r {
                Some(n) => self.natural() == Some(n as int),
                None => self.natural() is None,
            },
    {
        match self.as_i128() {
            Some(n) => if 0 <= n && n <= u64::MAX as i128 {
                Some(n as u64)
            } else {
                None
            },
            None => None,
        }
    }
}

/// What a text is as JSON: the value it writes where it looks like an object or a list and is valid
/// JSON, else the text itself.
pub open spec fn text_json(s: Seq<char>, parsed: Option<JsonView>) -> JsonView {
    let t = trimmed(s);
    if t.len() > 0 && (t[0] == '{' || t[0] == '[') && parsed is Some {
        parsed->0
    } else {
        JsonView::Str(s)
    }
}

/// What a text is as JSON, given what parsing its trimmed form gave.
pub fn text_to_json(s: &str, parsed: Option<Json>) -> (r: Json)
    ensures
        r@ == text_json(
            s@,
            match parsed {
                Some(v) => Some(v@),
                None => None,
            },
        ),
{
    let t = chars_of(s.trim());
    if t.len() > 0 && (t[0] == '{' || t[0] == '[') {
        if let Some(v) = parsed {
            return v;
        }
    }
    Json::Str(s.to_owned())
}

/// A whole number as JSON, where it fits into 64 bits.
pub open spec fn int_json(n: Option<int>) -> JsonView {
    match n {
        Some(i) => if 0 <= i <= i64::MAX {
            JsonView::Num(NumberView::Pos(i as u64))
        } else if i64::MIN <= i < 0 {
            JsonView::Num(NumberView::Neg(i as i64))
        } else {
            JsonView::Null
        },
        None => JsonView::Null,
    }
}

/// A floating-point number as JSON; null where it is not finite.
pub open spec fn float_json(f: Float) -> JsonView {
    match f.text {
        Some(t) => JsonView::Num(NumberView::Float(t@)),
        None => JsonView::Null,
    }
}

/// A value as plain JSON: the first form that is set, of text, flag, floating-point number, integer,
/// list and attributes.
pub open spec fn any_json(v: AnyValue) -> JsonView
    decreases v,
{
    if v.string_value is Some {
        let s = v.string_value->0@;
        text_json(s, json_of(trimmed(s)))
    } else if v.bool_value is Some {
        JsonView::Bool(v.bool_value->0)
    } else if v.double_value is Some {
        float_json(v.double_value->0)
    } else if v.int_value is Some {
        int_json(v.int_value->0.whole())
    } else if v.array_value is Some {
        let x = v.array_value->0.values;
        JsonView::Arr(
            Seq::new(
                x@.len(),
                |i: int|
                    if 0 <= i < x@.len() {
                        any_json(x[i])
                    } else {
                        JsonView::Null
                    },
            ),
        )
    } else if v.kvlist_value is Some {
        JsonView::Obj(put_all(kv_pairs(v.kvlist_value->0.values)))
    } else {
        JsonView::Null
    }
}

/// The attributes of a list with their values as plain JSON, in their order.
pub open spec fn kv_pairs(x: Vec<KeyValue>) -> Seq<(Seq<char>, JsonView)>
    decreases x,
{
    Seq::new(
        x@.len(),
        |i: int|
            if 0 <= i < x@.len() {
                (
                    x[i].key@,
                    match x[i].value {
                        Some(y) => any_json(y),
                        None => JsonView::Null,
                    },
                )
            } else {
                (seq![], JsonView::Null)
            },
    )
}

/// The values of a list as plain JSON.
pub open spec fn any_items(x: Seq<AnyValue>) -> Seq<JsonView> {
    Seq::new(x.len(), |i: int| any_json(x[i]))
}

/// The attributes of a list as members of plain JSON, in their order.
pub open spec fn any_members(x: Seq<KeyValue>) -> Seq<(Seq<char>, JsonView)> {
    Seq::new(
        x.len(),
        |i: int|
            (
                x[i].key@,
                match x[i].value {
                    Some(y) => any_json(y),
                    None => JsonView::Null,
                },
            ),
    )
}

proof fn any_json_array(v: AnyValue)
    requires
        v.string_value is None,
        v.bool_value is None,
        v.double_value is None,
        v.int_value is None,
        v.array_value is Some,
    ensures
        any_json(v) == JsonView::Arr(any_items(v.array_value->0.values@)),
{
    let x = v.array_value->0.values;
    assert(any_json(v)->Arr_0 =~= any_items(x@)) by {
        assert forall|i: int| 0 <= i < x@.len() implies any_json(v)->Arr_0[i] == any_items(x@)[i] by {
            assert(any_json(v)->Arr_0[i] == any_json(x[i]));
        }
    }
}

proof fn any_json_members(v: AnyValue)
    requires
        v.string_value is None,
        v.bool_value is None,
        v.double_value is None,
        v.int_value is None,
        v.array_value is None,
        v.kvlist_value is Some,
    ensures
        any_json(v) == JsonView::Obj(put_all(any_members(v.kvlist_value->0.values@))),
{
    let x = v.kvlist_value->0.values;
    assert(kv_pairs(x) =~= any_members(x@));
}

impl AnyValue {
    /// The value's text.
    pub fn as_str(&self) -> (r: Option<&str>)
        ensures
            match self.string_value {
                Some(s) => r is Some && r->0@ == s@,
                None => r is None,
            },
    {
        match &self.string_value {
            Some(s) => Some(s.as_str()),
            None => None,
        }
    }

    /// The value as a natural number: an integer, else a floating-point number from zero up, else a
    /// text that writes one.
    pub open spec fn natural(self) -> Option<int> {
        if self.int_value is Some {
            self.int_value->0.natural()
        } else if self.double_value is Some {
            let f = self.double_value->0;
            if !f.nonneg {
                None
            } else if f.whole < 0 {
                Some(0)
            } else if f.whole > u64::MAX {
                Some(u64::MAX as int)
            } else {
                Some(f.whole as int)
            }
        } else if self.string_value is Some {
            match parsed_uint(trimmed(self.string_value->0@), u64::MAX as nat) {
                Some(n) => Some(n as int),
                None => None,
            }
        } else {
            None
        }
    }

    /// The value as a 64-bit natural number.
    pub fn as_u64(&self) -> (r: Option<u64>)
        ensures
            match r {
                Some(n) => self.natural() == Some(n as int),
                None => self.natural() is None,
            },
    {
        if let Some(n) = &self.int_value {
            return n.as_u64();
        }
        if let Some(f) = &self.double_value {
            return if !f.nonneg {
                None
            } else if f.whole < 0 {
                Some(0)
            } else if f.whole > u64::MAX as i128 {
                Some(u64::MAX)
            } else {
                Some(f.whole as u64)
            };
        }
        match &self.string_value {
            Some(s) => parse_uint(s.as_str().trim(), u64::MAX),
            None => None,
        }
    }

    /// The value as plain JSON.
    pub fn to_json(&self) -> (r: Json)
        ensures
            r@ == any_json(*self),
        decreases self,
    {
        if let Some(s) = &self.string_value {
            let parsed = read_json(s.as_str().trim());
            return text_to_json(s.as_str(), parsed);
        }
        if let Some(b) = self.bool_value {
            return Json::Bool(b);
        }
        if let Some(f) = &self.double_value {
            return match &f.text {
                Some(t) => Json::Num(Number::Float(t.clone())),
                None => Json::Null,
            };
        }
        if let Some(n) = &self.int_value {
            return match n.as_i128() {
                Some(i) => if 0 <= i && i <= i64::MAX as i128 {
                    Json::Num(Number::Pos(i as u64))
                } else if i64::MIN as i128 <= i && i < 0 {
                    Json::Num(Number::Neg(i as i64))
                } else {
                    Json::Null
                },
                None => Json::Null,
            };
        }
        if let Some(a) = &self.array_value {
            let x = &a.values;
            let mut out: Vec<Json> = Vec::new();
            let mut i: usize = 0;
            while i < x.len()
                invariant
                    i <= x.len(),
                    self.array_value == Some(*a),
                    *x == a.values,
                    item_views(out@) =~= any_items(x@).take(i as int),
                decreases x.len() - i,
            {
                assert(decreases_to!(*self => self.array_value->0.values));
                assert(decreases_to!(self.array_value->0.values => self.array_value->0.values[i as int]));
                let c = x[i].to_json();
                let ghost before = out@;
                out.push(c);
                assert(item_views(out@) =~= item_views(before).push(c@));
                i += 1;
            }
            proof {
                assert(any_items(x@).take(i as int) =~= any_items(x@));
                arr_view(out);
                any_json_array(*self);
            }
            return Json::Arr(out);
        }
        if let Some(kv) = &self.kvlist_value {
            let x = &kv.values;
            let mut out: Vec<Member> = Vec::new();
            let mut i: usize = 0;
            assert(member_views(out@) =~= put_all(any_members(x@).take(0)));
            while i < x.len()
                invariant
                    i <= x.len(),
                    self.kvlist_value == Some(*kv),
                    *x == kv.values,
                    member_views(out@) == put_all(any_members(x@).take(i as int)),
                decreases x.len() - i,
            {
                assert(decreases_to!(*self => self.kvlist_value->0.values));
                assert(decreases_to!(self.kvlist_value->0.values => self.kvlist_value->0.values[i as int]));
                let c = match &x[i].value {
                    Some(y) => y.to_json(),
                    None => Json::Null,
                };
                let ghost m = any_members(x@);
                assert(m.take(i + 1).drop_last() =~= m.take(i as int));
                assert(m.take(i + 1).last() == (x@[i as int].key@, c@));
                put_member(&mut out, x[i].key.as_str(), c);
                i += 1;
            }
            proof {
                assert(any_members(x@).take(i as int) =~= any_members(x@));
                obj_view(out);
                any_json_members(*self);
            }
            return Json::Obj(out);
        }
        Json::Null
    }
}

/// One span with its scope and its resource's attributes.
#[derive(Debug)]
pub struct FlatSpan<'a> {
    pub span: &'a Span,
    pub scope: Option<&'a str>,
    pub resource: &'a Vec<KeyValue>,
}

/// The value that a list of attributes sets `key` to; the last one counts.
pub open spec fn set_to(kvs: Seq<KeyValue>, key: Seq<char>) -> Option<AnyValue>
    decreases kvs.len(),
{
    if kvs.len() == 0 {
        None
    } else if kvs.last().key@ == key && kvs.last().value is Some {
        kvs.last().value
    } else {
        set_to(kvs.drop_last(), key)
    }
}

fn find_set<'a>(kvs: &'a Vec<KeyValue>, key: &str) -> (r: Option<&'a AnyValue>)
    ensures
        match r {
            Some(v) => set_to(kvs@, key@) == Some(*v),
            None => set_to(kvs@, key@) is None,
        },
{
    let mut i: usize = kvs.len();
    assert(kvs@.take(i as int) =~= kvs@);
    while i > 0
        invariant
            i <= kvs.len(),
            set_to(kvs@, key@) == set_to(kvs@.take(i as int), key@),
        decreases i,
    {
        i -= 1;
        assert(kvs@.take(i + 1).drop_last() =~= kvs@.take(i as int));
        assert(kvs@.take(i + 1).last() == kvs@[i as int]);
        if same(kvs[i].key.as_str(), key) {
            if let Some(v) = &kvs[i].value {
                return Some(v);
            }
        }
    }
    None
}

impl<'a> FlatSpan<'a> {
    /// The value of an attribute: the span's own, else the resource's.
    pub open spec fn value_of(self, key: Seq<char>) -> Option<AnyValue> {
        match set_to(self.span.attributes@, key) {
            Some(v) => Some(v),
            None => set_to(self.resource@, key),
        }
    }

    /// The value of an attribute.
    pub fn attr(&self, key: &str) -> (r: Option<&'a AnyValue>)
        ensures
            match r {
                Some(v) => self.value_of(key@) == Some(*v),
                None => self.value_of(key@) is None,
            },
    {
        match find_set(&self.span.attributes, key) {
            Some(v) => Some(v),
            None => find_set(self.resource, key),
        }
    }

    /// The value of the first of some attributes that is set.
    pub open spec fn first_of(self, keys: Seq<&str>) -> Option<AnyValue>
        decreases keys.len(),
    {
        if keys.len() == 0 {
            None
        } else {
            match self.value_of(keys[0]@) {
                Some(v) => Some(v),
                None => self.first_of(keys.skip(1)),
            }
        }
    }

    /// The value of the first of some attributes that is set.
    pub fn first(&self, keys: &Vec<&'static str>) -> (r: Option<&'a AnyValue>)
        ensures
            match r {
                Some(v) => self.first_of(keys@) == Some(*v),
                None => self.first_of(keys@) is None,
            },
    {
        let mut i: usize = 0;
        assert(keys@.skip(0) =~= keys@);
        while i < keys.len()
            invariant
                i <= keys.len(),
                self.first_of(keys@) == self.first_of(keys@.skip(i as int)),
            decreases keys.len() - i,
        {
            assert(keys@.skip(i as int).skip(1) =~= keys@.skip(i + 1));
            if let Some(v) = self.attr(keys[i]) {
                return Some(v);
            }
            i += 1;
        }
        None
    }
}

/// The spans of a scope, each with its scope and its resource.
pub open spec fn scope_flat(s: ScopeSpans, resource: Seq<KeyValue>) -> Seq<
    (Span, Option<Seq<char>>, Seq<KeyValue>),
> {
    s.spans@.map_values(
        |x: Span|
            (
                x,
                match s.scope {
                    Some(n) => Some(n@),
                    None => None,
                },
                resource,
            ),
    )
}

/// The spans of some scopes, in order.
pub open spec fn scopes_flat(v: Seq<ScopeSpans>, resource: Seq<KeyValue>) -> Seq<
    (Span, Option<Seq<char>>, Seq<KeyValue>),
>
    decreases v.len(),
{
    if v.len() == 0 {
        seq![]
    } else {
        scopes_flat(v.drop_last(), resource) + scope_flat(v.last(), resource)
    }
}

/// The spans of an export, in order.
pub open spec fn export_flat(v: Seq<ResourceSpans>) -> Seq<
    (Span, Option<Seq<char>>, Seq<KeyValue>),
>
    decreases v.len(),
{
    if v.len() == 0 {
        seq![]
    } else {
        export_flat(v.drop_last()) + scopes_flat(v.last().scope_spans@, v.last().resource@)
    }
}

/// Flat spans as plain values.
pub open spec fn flat_views(v: Seq<FlatSpan>) -> Seq<(Span, Option<Seq<char>>, Seq<KeyValue>)> {
    v.map_values(
        |x: FlatSpan|
            (
                *x.span,
                match x.scope {
                    Some(n) => Some(n@),
                    None => None,
                },
                x.resource@,
            ),
    )
}

/// The spans of an export in one list, resource by resource and scope by scope. A span's place in it
/// is what the answer refers to.
pub fn flatten<'a>(req: &'a ExportTraceServiceRequest) -> (r: Vec<FlatSpan<'a>>)
    ensures
        flat_views(r@) == export_flat(req.resource_spans@),
{
    let mut out: Vec<FlatSpan<'a>> = Vec::new();
    let rs = &req.resource_spans;
    let mut i: usize = 0;
    assert(flat_views(out@) =~= export_flat(rs@.take(0)));
    while i < rs.len()
        invariant
            *rs == req.resource_spans,
            i <= rs.len(),
            flat_views(out@) == export_flat(rs@.take(i as int)),
        decreases rs.len() - i,
    {
        let ghost base = flat_views(out@);
        assert(rs@.take(i + 1).drop_last() =~= rs@.take(i as int));
        let resource: &'a Vec<KeyValue> = &rs[i].resource;
        let ss = &rs[i].scope_spans;
        let mut j: usize = 0;
        assert(base + scopes_flat(ss@.take(0), resource@) =~= base);
        while j < ss.len()
            invariant
                j <= ss.len(),
                flat_views(out@) == base + scopes_flat(ss@.take(j as int), resource@),
            decreases ss.len() - j,
        {
            let ghost mid = flat_views(out@);
            assert(ss@.take(j + 1).drop_last() =~= ss@.take(j as int));
            let scope: Option<&'a str> = match &ss[j].scope {
                Some(n) => Some(n.as_str()),
                None => None,
            };
            let spans = &ss[j].spans;
            let ghost here = scope_flat(ss@[j as int], resource@);
            let mut k: usize = 0;
            assert(mid + here.take(0) =~= mid);
            while k < spans.len()
                invariant
                    k <= spans.len(),
                    j < ss.len(),
                    *spans == ss@[j as int].spans,
                    here == scope_flat(ss@[j as int], resource@),
                    (match scope {
                        Some(n) => Some(n@),
                        None => None,
                    }) == (match ss@[j as int].scope {
                        Some(n) => Some(n@),
                        None => None,
                    }),
                    flat_views(out@) =~= mid + here.take(k as int),
                decreases spans.len() - k,
            {
                let ghost before = out@;
                let x = FlatSpan { span: &spans[k], scope, resource };
                out.push(x);
                assert(flat_views(out@) =~= flat_views(before).push(here[k as int]));
                assert(here.take(k + 1) =~= here.take(k as int).push(here[k as int]));
                k += 1;
            }
            assert(here.take(k as int) =~= here);
            assert(base + scopes_flat(ss@.take(j as int), resource@) + here =~= base + (scopes_flat(
                ss@.take(j as int),
                resource@,
            ) + here));
            j += 1;
        }
        assert(ss@.take(j as int) =~= ss@);
        i += 1;
    }
    assert(rs@.take(i as int) =~= rs@);
    out
}

// ------------------------------------------------------------------ how values are read

/// A status is an error exactly by the error's number or its name, in any case.
pub proof fn a_status_errs_by_number_or_name(s: &SpanStatus, r: bool)
    requires
        call_ensures(SpanStatus::is_error, (s,), r),
    ensures
        s.code is None ==> !r,
        s.code matches Some(EnumValue::Num(n)) ==> (r <==> n == 2),
        s.code matches Some(EnumValue::Name(w)) ==> (r <==> ascii_lower(w@) == "status_code_error"@),
{
}

/// A number is read from whichever form it comes in, whole; and as a natural number exactly where it is
/// one that fits.
pub proof fn a_number_is_read_in_any_form(n: &Num, w: Option<i128>, u: Option<u64>)
    requires
        call_ensures(Num::as_i128, (n,), w),
        call_ensures(Num::as_u64, (n,), u),
    ensures
        n matches Num::Int(i) ==> w == Some(*i as i128),
        n matches Num::Float(f) ==> w == Some(f.whole),
        n matches Num::Str(s) ==> match parsed_i128(trimmed(s@)) {
            Some(x) => w is Some && w->0 == x,
            None => w is None,
        },
        u is Some <==> w is Some && 0 <= w->0 <= u64::MAX,
        u is Some ==> u->0 == w->0,
{
}

/// A value counts as its integer, else as the whole part of its floating-point number where that is from
/// zero up, else as the number that its text writes.
pub proof fn a_value_is_counted_in_any_form(v: &AnyValue, u: Option<u64>, n: &Num, i: Option<u64>)
    requires
        call_ensures(AnyValue::as_u64, (v,), u),
        v.int_value is Some ==> *n == v.int_value->0,
        call_ensures(Num::as_u64, (n,), i),
    ensures
        v.int_value is Some ==> u == i,
        v.int_value is None && v.double_value is Some ==> (u is Some <==> v.double_value->0.nonneg),
        v.int_value is None && v.double_value is Some && u is Some && 0 <= v.double_value->0.whole
            <= u64::MAX ==> u->0 == v.double_value->0.whole,
        v.int_value is None && v.double_value is Some && u is Some && v.double_value->0.whole > u64::MAX
            ==> u->0 == u64::MAX,
        v.int_value is None && v.double_value is Some && u is Some && v.double_value->0.whole < 0 ==> u->0
            == 0,
        v.int_value is None && v.double_value is None && v.string_value is Some ==> match parsed_uint(
            trimmed(v.string_value->0@),
            u64::MAX as nat,
        ) {
            Some(x) => u is Some && u->0 == x,
            None => u is None,
        },
        v.int_value is None && v.double_value is None && v.string_value is None ==> u is None,
{
}

/// A value is JSON as what it is: a text as itself unless it writes an object or a list, a flag as a flag,
/// a number as a number, a list item by item and attributes member by member.
pub proof fn a_value_is_json_as_what_it_is(v: &AnyValue, r: Json)
    requires
        call_ensures(AnyValue::to_json, (v,), r),
    ensures
        v.string_value is Some ==> {
            let s = v.string_value->0@;
            let t = trimmed(s);
            &&& t.len() == 0 || (t[0] != '{' && t[0] != '[') || json_of(t) is None ==> r@
                == JsonView::Str(s)
            &&& t.len() > 0 && (t[0] == '{' || t[0] == '[') && json_of(t) is Some ==> r@ == json_of(t)->0
        },
        v.string_value is None && v.bool_value is Some ==> r@ == JsonView::Bool(v.bool_value->0),
        v.string_value is None && v.bool_value is None && v.double_value is Some ==> {
            &&& v.double_value->0.text is None ==> r@ is Null
            &&& v.double_value->0.text is Some ==> r@ == JsonView::Num(
                NumberView::Float(v.double_value->0.text->0@),
            )
        },
        v.string_value is None && v.bool_value is None && v.double_value is None ==> (
        v.int_value matches Some(Num::Int(i)) ==> if i >= 0 {
            r@ == JsonView::Num(NumberView::Pos(i as u64))
        } else {
            r@ == JsonView::Num(NumberView::Neg(i))
        }),
        v.string_value is None && v.bool_value is None && v.double_value is None && v.int_value is None
            && v.array_value is Some ==> (r@ matches JsonView::Arr(a) && a.len()
            == v.array_value->0.values@.len() && forall|i: int|
            0 <= i < a.len() ==> #[trigger] a[i] == any_json(v.array_value->0.values@[i])),
        v.string_value is None && v.bool_value is None && v.double_value is None && v.int_value is None
            && v.array_value is None && v.kvlist_value is Some ==> r@ is Obj,
        v.string_value is None && v.bool_value is None && v.double_value is None && v.int_value is None
            && v.array_value is None && v.kvlist_value is None ==> r@ is Null,
{
    if v.string_value is None && v.bool_value is None && v.double_value is None && v.int_value is None
        && v.array_value is Some {
        any_json_array(*v);
    }
}

proof fn scopes_hold(v: Seq<ScopeSpans>, resource: Seq<KeyValue>, j: int, k: int) -> (n: int)
    requires
        0 <= j < v.len(),
        0 <= k < v[j].spans@.len(),
    ensures
        0 <= n < scopes_flat(v, resource).len(),
        scopes_flat(v, resource)[n] == (
            v[j].spans@[k],
            match v[j].scope {
                Some(x) => Some(x@),
                None => None,
            },
            resource,
        ),
    decreases v.len(),
{
    let d = v.drop_last();
    let rest = scopes_flat(d, resource);
    if j < d.len() {
        assert(d[j] == v[j]);
        scopes_hold(d, resource, j, k)
    } else {
        assert(scope_flat(v.last(), resource)[k] == scopes_flat(v, resource)[rest.len() + k]);
        rest.len() + k
    }
}

proof fn export_holds(v: Seq<ResourceSpans>, i: int, j: int, k: int) -> (n: int)
    requires
        0 <= i < v.len(),
        0 <= j < v[i].scope_spans@.len(),
        0 <= k < v[i].scope_spans@[j].spans@.len(),
    ensures
        0 <= n < export_flat(v).len(),
        export_flat(v)[n] == (
            v[i].scope_spans@[j].spans@[k],
            match v[i].scope_spans@[j].scope {
                Some(x) => Some(x@),
                None => None,
            },
            v[i].resource@,
        ),
    decreases v.len(),
{
    let d = v.drop_last();
    let rest = export_flat(d);
    if i < d.len() {
        assert(d[i] == v[i]);
        export_holds(d, i, j, k)
    } else {
        let m = scopes_hold(v.last().scope_spans@, v.last().resource@, j, k);
        assert(export_flat(v)[rest.len() + m] == scopes_flat(v.last().scope_spans@, v.last().resource@)[m]);
        rest.len() + m
    }
}

/// Every span of an export is in its list, with the name of its own scope and the attributes of its own
/// resource.
pub proof fn every_span_is_listed(
    req: &ExportTraceServiceRequest,
    r: Vec<FlatSpan>,
    i: int,
    j: int,
    k: int,
)
    requires
        call_ensures(flatten, (req,), r),
        0 <= i < req.resource_spans@.len(),
        0 <= j < req.resource_spans@[i].scope_spans@.len(),
        0 <= k < req.resource_spans@[i].scope_spans@[j].spans@.len(),
    ensures
        exists|n: int|
            0 <= n < r@.len() && *(#[trigger] r@[n]).span
                == req.resource_spans@[i].scope_spans@[j].spans@[k] && r@[n].resource@
                == req.resource_spans@[i].resource@ && (r@[n].scope is Some
                <==> req.resource_spans@[i].scope_spans@[j].scope is Some) && (r@[n].scope is Some
                ==> r@[n].scope->0@ == req.resource_spans@[i].scope_spans@[j].scope->0@),
{
    let n = export_holds(req.resource_spans@, i, j, k);
    let v = flat_views(r@);
    assert(v.len() == r@.len());
    let x = r@[n];
    assert(v[n] == (
        *x.span,
        match x.scope {
            Some(s) => Some(s@),
            None => None,
        },
        x.resource@,
    ));
    assert(*r@[n].span == req.resource_spans@[i].scope_spans@[j].spans@[k]);
}

/// The spans of one more resource come after all before, and nothing else is listed.
pub proof fn resources_are_listed_in_order(
    before: &ExportTraceServiceRequest,
    after: &ExportTraceServiceRequest,
    alone: &ExportTraceServiceRequest,
    a: Vec<FlatSpan>,
    b: Vec<FlatSpan>,
    c: Vec<FlatSpan>,
)
    requires
        after.resource_spans@.len() > 0,
        after.resource_spans@.drop_last() == before.resource_spans@,
        alone.resource_spans@ == seq![after.resource_spans@.last()],
        call_ensures(flatten, (before,), a),
        call_ensures(flatten, (after,), b),
        call_ensures(flatten, (alone,), c),
    ensures
        before.resource_spans@.len() == 0 ==> a@.len() == 0,
        flat_views(b@) == flat_views(a@) + flat_views(c@),
{
    assert(flat_views(a@).len() == a@.len());
    let x = alone.resource_spans@;
    assert(x.drop_last() =~= seq![]);
    assert(x.last() == after.resource_spans@.last());
    assert(export_flat(x.drop_last()) == Seq::<(Span, Option<Seq<char>>, Seq<KeyValue>)>::empty());
    assert(flat_views(c@) =~= scopes_flat(x.last().scope_spans@, x.last().resource@));
}

/// A number is JSON by its value in whichever form it came, and nothing where it is none or does not fit;
/// and the last attribute of a list of them is a member under its own name.
pub proof fn numbers_and_attributes_become_json(v: &AnyValue, r: Json, n: &Num, w: Option<i128>)
    requires
        call_ensures(AnyValue::to_json, (v,), r),
        v.string_value is None && v.bool_value is None && v.double_value is None,
        v.int_value is Some ==> *n == v.int_value->0,
        call_ensures(Num::as_i128, (n,), w),
    ensures
        v.int_value is Some ==> {
            &&& w is None ==> r@ is Null
            &&& w is Some && 0 <= w->0 <= i64::MAX ==> r@ == JsonView::Num(NumberView::Pos(w->0 as u64))
            &&& w is Some && i64::MIN <= w->0 < 0 ==> r@ == JsonView::Num(NumberView::Neg(w->0 as i64))
            &&& w is Some && (w->0 > i64::MAX || w->0 < i64::MIN) ==> r@ is Null
        },
        v.int_value is None && v.array_value is None && v.kvlist_value is Some ==> {
            let x = v.kvlist_value->0.values@;
            &&& x.len() == 0 ==> r@ == JsonView::Obj(seq![])
            &&& x.len() > 0 && x.last().value is Some ==> crate::json::field(r@, x.last().key@) == Some(
                any_json(x.last().value->0),
            )
            &&& x.len() > 0 && x.last().value is None ==> crate::json::field(r@, x.last().key@) == Some(
                JsonView::Null,
            )
        },
{
    if v.int_value is None && v.array_value is None && v.kvlist_value is Some {
        any_json_members(*v);
        let x = v.kvlist_value->0.values@;
        let m = any_members(x);
        if x.len() == 0 {
            assert(put_all(m) =~= seq![]);
        } else {
            assert(m.last().0 == x.last().key@);
            crate::json::put_reads_back(put_all(m.drop_last()), m.last().0, m.last().1, m.last().0);
        }
    }
}

} // verus!
