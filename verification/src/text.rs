//! Character-level helpers: trimming, decimal rendering, parsing and joining.
use vstd::prelude::*;

verus! {

/// The characters that carry Unicode's `White_Space` property.
pub open spec fn is_white_space(c: char) -> bool {
    ||| '\u{9}' <= c <= '\u{d}'
    ||| c == '\u{20}'
    ||| c == '\u{85}'
    ||| c == '\u{a0}'
    ||| c == '\u{1680}'
    ||| '\u{2000}' <= c <= '\u{200a}'
    ||| c == '\u{2028}'
    ||| c == '\u{2029}'
    ||| c == '\u{202f}'
    ||| c == '\u{205f}'
    ||| c == '\u{3000}'
}

/// `s` without its leading white space.
pub open spec fn trim_front(s: Seq<char>) -> Seq<char>
    decreases s.len(),
{
    if s.len() > 0 && is_white_space(s[0]) {
        trim_front(s.drop_first())
    } else {
        s
    }
}

/// `s` without its trailing white space.
pub open spec fn trim_back(s: Seq<char>) -> Seq<char>
    decreases s.len(),
{
    if s.len() > 0 && is_white_space(s.last()) {
        trim_back(s.drop_last())
    } else {
        s
    }
}

/// `s` without white space at either end.
pub open spec fn trimmed(s: Seq<char>) -> Seq<char> {
    trim_back(trim_front(s))
}

/// One ASCII capital made small; every other character as it is.
pub open spec fn lower_char(c: char) -> char {
    if 'A' <= c <= 'Z' {
        ((c as u8) + 32) as u8 as char
    } else {
        c
    }
}

/// Every ASCII capital made small.
pub open spec fn ascii_lower(s: Seq<char>) -> Seq<char> {
    s.map_values(|c: char| lower_char(c))
}

/// `char::is_whitespace`: whether the character has Unicode's `White_Space` property.
pub assume_specification[ char::is_whitespace ](c: char) -> (r: bool)
    ensures
        r == is_white_space(c),
;

/// `str::trim`: the slice with white space taken off both ends.
pub assume_specification[ str::trim ](s: &str) -> (r: &str)
    ensures
        r@ == trimmed(s@),
;

/// `str::to_ascii_lowercase`: ASCII capitals made small, everything else untouched.
pub assume_specification[ str::to_ascii_lowercase ](s: &str) -> (r: String)
    ensures
        r@ == ascii_lower(s@),
;

/// `String::push`: the character joins the end.
pub assume_specification[ String::push ](s: &mut String, c: char)
    ensures
        final(s)@ == old(s)@.push(c),
;

/// A text as `{:?}` writes it: quoted, with what cannot be printed escaped.
pub uninterp spec fn quoted(s: Seq<char>) -> Seq<char>;

/// A character as `{:?}` writes it: quoted, with what cannot be printed escaped.
pub uninterp spec fn quoted_char(c: char) -> Seq<char>;

/// `str`'s `Debug` formatting. The result depends on the text alone; which characters are escaped
/// and how is left unsaid.
#[verifier::external_body]
pub(crate) fn quote(s: &str) -> (r: String)
    ensures
        r@ == quoted(s@),
{
    format!("{:?}", s)
}

/// `char`'s `Debug` formatting. The result depends on the character alone; which characters are
/// escaped and how is left unsaid.
#[verifier::external_body]
pub(crate) fn quote_char(c: char) -> (r: String)
    ensures
        r@ == quoted_char(c),
{
    format!("{:?}", c)
}

/// The characters of `s`, one by one.
pub fn chars_of(s: &str) -> (r: Vec<char>)
    ensures
        r@ == s@,
{
    let mut out: Vec<char> = Vec::new();
    for c in it: s.chars()
        invariant
            it.seq() == s@,
            out@ == s@.take(it.index() as int),
    {
        out.push(c);
        assert(out@ =~= s@.take(it.index() as int + 1));
    }
    assert(out@ =~= s@);
    out
}

/// Whether two texts are the same.
pub fn same(a: &str, b: &str) -> (r: bool)
    ensures
        r == (a@ == b@),
{
    a.to_owned() == b.to_owned()
}

/// Whether an optional text is present and equal to `want`.
pub fn same_opt(a: &Option<String>, want: &str) -> (r: bool)
    ensures
        r == (a is Some && a->0@ == want@),
{
    match a {
        Some(s) => same(s.as_str(), want),
        None => false,
    }
}

/// The characters of `c` from `from` up to, not including, `to`, as a text.
pub fn slice_of(c: &[char], from: usize, to: usize) -> (r: String)
    requires
        from <= to <= c@.len(),
    ensures
        r@ == c@.subrange(from as int, to as int),
{
    let mut out = String::new();
    let mut i: usize = from;
    while i < to
        invariant
            from <= i <= to <= c@.len(),
            out@ == c@.subrange(from as int, i as int),
        decreases to - i,
    {
        out.push(c[i]);
        assert(c@.subrange(from as int, i as int).push(c@[i as int]) =~= c@.subrange(
            from as int,
            i as int + 1,
        ));
        i += 1;
    }
    out
}

/// Whether nothing but white space is in `s`.
pub open spec fn blank(s: Seq<char>) -> bool {
    forall|i: int| 0 <= i < s.len() ==> is_white_space(#[trigger] s[i])
}

/// Trimming leaves nothing exactly when there was nothing but white space.
pub proof fn trimmed_empty_iff_blank(s: Seq<char>)
    ensures
        trimmed(s).len() == 0 <==> blank(s),
{
    trim_front_empty(s);
    let f = trim_front(s);
    trim_front_shape(s);
    if f.len() > 0 {
        trim_back_nonempty(f);
    }
}

proof fn trim_front_empty(s: Seq<char>)
    ensures
        trim_front(s).len() == 0 <==> blank(s),
    decreases s.len(),
{
    if s.len() > 0 && is_white_space(s[0]) {
        let t = s.drop_first();
        trim_front_empty(t);
        if blank(t) {
            assert forall|i: int| 0 <= i < s.len() implies is_white_space(#[trigger] s[i]) by {
                if i > 0 {
                    assert(s[i] == t[i - 1]);
                }
            }
        }
        if blank(s) {
            assert forall|i: int| 0 <= i < t.len() implies is_white_space(#[trigger] t[i]) by {
                assert(t[i] == s[i + 1]);
            }
        }
    }
}

proof fn trim_front_shape(s: Seq<char>)
    ensures
        trim_front(s).len() > 0 ==> !is_white_space(trim_front(s)[0]),
    decreases s.len(),
{
    if s.len() > 0 && is_white_space(s[0]) {
        trim_front_shape(s.drop_first());
    }
}

proof fn trim_back_nonempty(s: Seq<char>)
    requires
        s.len() > 0,
        !is_white_space(s[0]),
    ensures
        trim_back(s).len() > 0,
    decreases s.len(),
{
    if is_white_space(s.last()) {
        assert(s.drop_last()[0] == s[0]);
        trim_back_nonempty(s.drop_last());
    }
}

/// The trimmed text as a text of its own.
pub fn trim_owned(s: &str) -> (r: String)
    ensures
        r@ == trimmed(s@),
{
    s.trim().to_owned()
}

// ------------------------------------------------------------------ decimal

/// The decimal digit of a number below ten.
pub open spec fn digit(n: nat) -> char
    recommends
        n < 10,
{
    (48 + n) as u8 as char
}

/// `n` in decimal, without leading zeros.
pub open spec fn dec(n: nat) -> Seq<char>
    decreases n,
{
    if n < 10 {
        seq![digit(n)]
    } else {
        dec(n / 10).push(digit(n % 10))
    }
}

/// A signed number in decimal.
pub open spec fn dec_int(n: int) -> Seq<char> {
    if n < 0 {
        seq!['-'] + dec((-n) as nat)
    } else {
        dec(n as nat)
    }
}

/// `n` in decimal.
pub fn show_u128(n: u128) -> (r: String)
    ensures
        r@ == dec(n as nat),
    decreases n,
{
    let d: u8 = (n % 10) as u8;
    let c: char = (48 + d) as char;
    if n < 10 {
        let mut out = String::new();
        out.push(c);
        assert(out@ =~= seq![digit(n as nat)]);
        out
    } else {
        let mut out = show_u128(n / 10);
        out.push(c);
        out
    }
}

/// `n` in decimal.
pub fn show_u64(n: u64) -> (r: String)
    ensures
        r@ == dec(n as nat),
{
    show_u128(n as u128)
}

/// `n` in decimal.
pub fn show_usize(n: usize) -> (r: String)
    ensures
        r@ == dec(n as nat),
{
    show_u128(n as u128)
}

/// `n` in decimal, with a sign where it is negative.
pub fn show_i64(n: i64) -> (r: String)
    ensures
        r@ == dec_int(n as int),
{
    show_i128(n as i128)
}

/// `n` in decimal, with a sign where it is negative.
pub fn show_i128(n: i128) -> (r: String)
    requires
        n > i128::MIN,
    ensures
        r@ == dec_int(n as int),
{
    if n < 0 {
        let m: u128 = (-n) as u128;
        let mut out = String::new();
        out.push('-');
        let t = show_u128(m);
        out.append(t.as_str());
        assert(out@ =~= seq!['-'] + dec((-n) as nat));
        out
    } else {
        show_u128(n as u128)
    }
}

/// Whether `c` is one of the ten ASCII digits.
pub open spec fn is_digit(c: char) -> bool {
    '0' <= c <= '9'
}

/// The number that a run of digits writes.
pub open spec fn digits_value(s: Seq<char>) -> nat
    decreases s.len(),
{
    if s.len() == 0 {
        0
    } else {
        digits_value(s.drop_last()) * 10 + ((s.last() as int - '0' as int) as nat)
    }
}

/// Whether every character is a digit.
pub open spec fn all_digits(s: Seq<char>) -> bool {
    forall|i: int| 0 <= i < s.len() ==> is_digit(#[trigger] s[i])
}

/// `s` without the `+` it may begin with.
pub open spec fn after_plus(s: Seq<char>) -> Seq<char> {
    if s.len() > 0 && s[0] == '+' {
        s.drop_first()
    } else {
        s
    }
}

/// What an unsigned decimal says: an optional `+`, then one or more digits, and a value no larger
/// than `max`. Anything else says nothing.
pub open spec fn parsed_uint(s: Seq<char>, max: nat) -> Option<nat> {
    let d = after_plus(s);
    if d.len() > 0 && all_digits(d) && digits_value(d) <= max {
        Some(digits_value(d))
    } else {
        None
    }
}

proof fn digits_value_grows(s: Seq<char>, i: int)
    requires
        0 <= i <= s.len(),
        forall|j: int| 0 <= j < s.len() ==> is_digit(#[trigger] s[j]),
    ensures
        digits_value(s.take(i)) <= digits_value(s),
    decreases s.len() - i,
{
    if i == s.len() {
        assert(s.take(i) =~= s);
    } else {
        assert(s.take(i + 1).drop_last() =~= s.take(i));
        digits_value_grows(s, i + 1);
    }
}

/// Reads an unsigned decimal no larger than `max`.
pub fn parse_u128(s: &str, max: u128) -> (r: Option<u128>)
    ensures
        match r {
            Some(n) => parsed_uint(s@, max as nat) == Some(n as nat),
            None => parsed_uint(s@, max as nat) is None,
        },
{
    let c = chars_of(s);
    let start: usize = if c.len() > 0 && c[0] == '+' {
        1
    } else {
        0
    };
    let ghost d = s@.subrange(start as int, s@.len() as int);
    proof {
        if start == 1 {
            assert(d =~= s@.drop_first());
        } else {
            assert(d =~= s@);
        }
    }
    if c.len() == start {
        return None;
    }
    let mut acc: u128 = 0;
    let mut i: usize = start;
    while i < c.len()
        invariant
            start <= i <= c.len(),
            c@ == s@,
            d == s@.subrange(start as int, s@.len() as int),
            d == after_plus(s@),
            acc <= max,
            acc == digits_value(d.take(i - start)),
            forall|j: int| 0 <= j < i - start ==> is_digit(#[trigger] d[j]),
        decreases c.len() - i,
    {
        let x: char = c[i];
        assert(d[i - start] == x);
        if x < '0' || x > '9' {
            return None;
        }
        let v: u128 = (x as u32 - 48) as u128;
        assert(d.take(i - start + 1).drop_last() =~= d.take(i - start));
        if v > max || acc > (max - v) / 10 {
            proof {
                assert(acc * 10 + v > max);
                if all_digits(d) {
                    digits_value_grows(d, i - start + 1);
                }
            }
            return None;
        }
        acc = acc * 10 + v;
        i += 1;
    }
    assert(d.take(i - start) =~= d);
    Some(acc)
}

/// Reads an unsigned decimal no larger than `max`.
pub fn parse_uint(s: &str, max: u64) -> (r: Option<u64>)
    ensures
        match r {
            Some(n) => parsed_uint(s@, max as nat) == Some(n as nat),
            None => parsed_uint(s@, max as nat) is None,
        },
{
    match parse_u128(s, max as u128) {
        Some(n) => Some(n as u64),
        None => None,
    }
}

/// What a signed decimal says: an unsigned decimal up to `high`, or a `-` and one or more digits down
/// to minus `low`.
pub open spec fn parsed_signed(s: Seq<char>, high: nat, low: nat) -> Option<int> {
    if s.len() > 0 && s[0] == '-' {
        let d = s.drop_first();
        if d.len() > 0 && all_digits(d) && digits_value(d) <= low {
            Some(-(digits_value(d) as int))
        } else {
            None
        }
    } else {
        match parsed_uint(s, high) {
            Some(n) => Some(n as int),
            None => None,
        }
    }
}

/// What a signed 64-bit decimal says.
pub open spec fn parsed_int(s: Seq<char>) -> Option<int> {
    parsed_signed(s, 0x7fff_ffff_ffff_ffff, 0x8000_0000_0000_0000)
}

/// What a signed 128-bit decimal says.
pub open spec fn parsed_i128(s: Seq<char>) -> Option<int> {
    parsed_signed(
        s,
        0x7fff_ffff_ffff_ffff_ffff_ffff_ffff_ffff,
        0x8000_0000_0000_0000_0000_0000_0000_0000,
    )
}

/// The digits of a decimal and whether a `-` stands before them; nothing where a sign follows the `-`.
fn signed_parts(s: &str) -> (r: Option<(bool, String)>)
    ensures
        match r {
            Some((neg, d)) => neg == (s@.len() > 0 && s@[0] == '-') && (neg ==> d@ == s@.drop_first()
                && after_plus(d@) == d@) && (!neg ==> d@ == s@),
            None => s@.len() > 1 && s@[0] == '-' && !all_digits(s@.drop_first()),
        },
{
    let c = chars_of(s);
    if c.len() > 0 && c[0] == '-' {
        let d = slice_of(c.as_slice(), 1, c.len());
        assert(d@ =~= s@.drop_first());
        if c.len() > 1 && c[1] == '+' {
            assert(d@[0] == '+');
            assert(!is_digit(d@[0]));
            return None;
        }
        Some((true, d))
    } else {
        Some((false, s.to_owned()))
    }
}

/// Reads a signed 64-bit decimal.
pub fn parse_int(s: &str) -> (r: Option<i64>)
    ensures
        match r {
            Some(n) => parsed_int(s@) == Some(n as int),
            None => parsed_int(s@) is None,
        },
{
    match signed_parts(s) {
        None => None,
        Some((true, d)) => match parse_u128(d.as_str(), 0x8000_0000_0000_0000) {
            Some(n) => Some((-(n as i128)) as i64),
            None => None,
        },
        Some((false, d)) => match parse_u128(d.as_str(), 0x7fff_ffff_ffff_ffff) {
            Some(n) => Some(n as i64),
            None => None,
        },
    }
}

/// Reads a signed 128-bit decimal.
pub fn parse_i128(s: &str) -> (r: Option<i128>)
    ensures
        match r {
            Some(n) => parsed_i128(s@) == Some(n as int),
            None => parsed_i128(s@) is None,
        },
{
    match signed_parts(s) {
        None => None,
        Some((true, d)) => match parse_u128(
            d.as_str(),
            0x8000_0000_0000_0000_0000_0000_0000_0000,
        ) {
            Some(n) => if n == 0x8000_0000_0000_0000_0000_0000_0000_0000 {
                Some(i128::MIN)
            } else {
                Some(-(n as i128))
            },
            None => None,
        },
        Some((false, d)) => match parse_u128(
            d.as_str(),
            0x7fff_ffff_ffff_ffff_ffff_ffff_ffff_ffff,
        ) {
            Some(n) => Some(n as i128),
            None => None,
        },
    }
}

// ------------------------------------------------------------------ order

/// Whether `a` sorts before `b`, character by character.
pub open spec fn sorts_before(a: Seq<char>, b: Seq<char>) -> bool
    decreases a.len(),
{
    if b.len() == 0 {
        false
    } else if a.len() == 0 {
        true
    } else if a[0] != b[0] {
        a[0] < b[0]
    } else {
        sorts_before(a.drop_first(), b.drop_first())
    }
}

/// Whether `a` sorts before `b`.
pub fn before(a: &str, b: &str) -> (r: bool)
    ensures
        r == sorts_before(a@, b@),
{
    let x = chars_of(a);
    let y = chars_of(b);
    let mut i: usize = 0;
    proof {
        assert(x@.skip(0) =~= x@);
        assert(y@.skip(0) =~= y@);
    }
    while i < x.len() && i < y.len() && x[i] == y[i]
        invariant
            i <= x.len(),
            i <= y.len(),
            x@ == a@,
            y@ == b@,
            sorts_before(a@, b@) == sorts_before(x@.skip(i as int), y@.skip(i as int)),
        decreases x.len() - i,
    {
        assert(x@.skip(i as int).drop_first() =~= x@.skip(i as int + 1));
        assert(y@.skip(i as int).drop_first() =~= y@.skip(i as int + 1));
        i += 1;
    }
    if i == y.len() {
        false
    } else if i == x.len() {
        true
    } else {
        x[i] < y[i]
    }
}

/// No text sorts before itself, and of two different texts exactly one sorts first.
pub proof fn sorts_before_total(a: Seq<char>, b: Seq<char>)
    ensures
        a == b ==> !sorts_before(a, b),
        a != b ==> (sorts_before(a, b) <==> !sorts_before(b, a)),
    decreases a.len(),
{
    if a.len() == 0 || b.len() == 0 {
        if a.len() == b.len() {
            assert(a =~= b);
        }
    } else if a[0] == b[0] {
        sorts_before_total(a.drop_first(), b.drop_first());
        if a.drop_first() == b.drop_first() {
            assert(a =~= seq![a[0]] + a.drop_first());
            assert(b =~= seq![b[0]] + b.drop_first());
        }
    }
}

/// The order of texts carries over.
pub proof fn sorts_before_transitive(a: Seq<char>, b: Seq<char>, c: Seq<char>)
    requires
        sorts_before(a, b),
        sorts_before(b, c),
    ensures
        sorts_before(a, c),
    decreases a.len(),
{
    if a.len() > 0 && a[0] == b[0] && b[0] == c[0] {
        sorts_before_transitive(a.drop_first(), b.drop_first(), c.drop_first());
    }
}

// ------------------------------------------------------------------ parts

/// Whether `s` begins with `p`.
pub open spec fn has_prefix(s: Seq<char>, p: Seq<char>) -> bool {
    p.len() <= s.len() && s.take(p.len() as int) == p
}

/// Whether `s` begins with `p`.
pub fn starts_with(s: &str, p: &str) -> (r: bool)
    ensures
        r == has_prefix(s@, p@),
{
    let x = chars_of(s);
    let y = chars_of(p);
    if y.len() > x.len() {
        return false;
    }
    let head = slice_of(x.as_slice(), 0, y.len());
    assert(x@.subrange(0, y.len() as int) =~= s@.take(p@.len() as int));
    same(head.as_str(), p)
}

/// Whether `p` stands in `s` at position `i`.
pub open spec fn stands_at(s: Seq<char>, p: Seq<char>, i: int) -> bool {
    0 <= i && i + p.len() <= s.len() && s.subrange(i, i + p.len()) == p
}

/// Whether `p` stands anywhere in `s`.
pub open spec fn has_within(s: Seq<char>, p: Seq<char>) -> bool {
    exists|i: int| stands_at(s, p, i)
}

/// Whether `p` stands anywhere in `s`.
pub fn contains(s: &str, p: &str) -> (r: bool)
    ensures
        r == has_within(s@, p@),
{
    let x = chars_of(s);
    let y = chars_of(p);
    if y.len() > x.len() {
        assert(!has_within(s@, p@));
        return false;
    }
    let mut i: usize = 0;
    while i <= x.len() - y.len()
        invariant
            x@ == s@,
            y@ == p@,
            y.len() <= x.len(),
            i <= x.len() - y.len() + 1,
            forall|j: int| 0 <= j < i ==> !#[trigger] stands_at(s@, p@, j),
        decreases x.len() - y.len() + 1 - i,
    {
        let part = slice_of(x.as_slice(), i, i + y.len());
        if same(part.as_str(), p) {
            assert(stands_at(s@, p@, i as int));
            return true;
        }
        assert(!stands_at(s@, p@, i as int));
        if i == usize::MAX {
            return false;
        }
        i += 1;
    }
    assert forall|j: int| !stands_at(s@, p@, j) by {
        if 0 <= j < i {
            assert(!stands_at(s@, p@, j));
        }
    }
    false
}

/// The texts of a list, as a sequence of views.
pub open spec fn views(v: Seq<String>) -> Seq<Seq<char>> {
    v.map_values(|s: String| s@)
}

/// Whether `x` is one of the texts of `v`.
pub fn any_same(v: &Vec<String>, x: &str) -> (r: bool)
    ensures
        r == views(v@).contains(x@),
{
    let mut i: usize = 0;
    while i < v.len()
        invariant
            i <= v.len(),
            forall|j: int| 0 <= j < i ==> (#[trigger] v@[j])@ != x@,
        decreases v.len() - i,
    {
        if same(v[i].as_str(), x) {
            assert(views(v@)[i as int] == x@);
            return true;
        }
        i += 1;
    }
    assert(!views(v@).contains(x@)) by {
        if views(v@).contains(x@) {
            let j = views(v@).index_of(x@);
            assert(v@[j]@ == x@);
        }
    }
    false
}

/// A list of texts with the same content.
pub fn clone_texts(v: &Vec<String>) -> (r: Vec<String>)
    ensures
        r@ == v@,
{
    let mut out: Vec<String> = Vec::new();
    let mut i: usize = 0;
    while i < v.len()
        invariant
            i <= v.len(),
            out@ == v@.take(i as int),
        decreases v.len() - i,
    {
        out.push(v[i].clone());
        assert(v@.take(i as int).push(v@[i as int]) =~= v@.take(i as int + 1));
        i += 1;
    }
    assert(v@.take(i as int) =~= v@);
    out
}

/// An optional text with the same content.
pub fn clone_opt(v: &Option<String>) -> (r: Option<String>)
    ensures
        r == *v,
{
    match v {
        Some(s) => Some(s.clone()),
        None => None,
    }
}

/// A text stands in whatever is written around it.
pub proof fn stands_between(a: Seq<char>, p: Seq<char>, b: Seq<char>)
    ensures
        has_within(a + p + b, p),
{
    let s = a + p + b;
    assert(s.subrange(a.len() as int, (a.len() + p.len()) as int) =~= p);
    assert(stands_at(s, p, a.len() as int));
}

/// Pieces of text, one after the other.
pub open spec fn strung(v: Seq<Seq<char>>) -> Seq<char>
    decreases v.len(),
{
    if v.len() == 0 {
        seq![]
    } else {
        strung(v.drop_last()) + v.last()
    }
}

/// One piece more.
pub proof fn strung_on(v: Seq<Seq<char>>, x: Seq<char>) -> (w: Seq<Seq<char>>)
    ensures
        w == v.push(x),
        strung(w) == strung(v) + x,
        v.len() == 0 ==> strung(w) == x,
{
    assert(v.push(x).drop_last() =~= v);
    assert(v.len() == 0 ==> strung(v) + x =~= x);
    v.push(x)
}

/// Every piece stands in the whole, and so does it with the piece after it, and with the next.
pub proof fn pieces_stand(v: Seq<Seq<char>>, i: int)
    requires
        0 <= i < v.len(),
    ensures
        has_within(strung(v), v[i]),
        i + 1 < v.len() ==> has_within(strung(v), v[i] + v[i + 1]),
        i + 2 < v.len() ==> has_within(strung(v), v[i] + v[i + 1] + v[i + 2]),
        i + 3 < v.len() ==> has_within(strung(v), v[i] + v[i + 1] + v[i + 2] + v[i + 3]),
    decreases v.len() - i,
{
    let d = v.drop_last();
    if i < d.len() {
        pieces_stand_before(v, i, i + 1);
    } else {
        stands_between(strung(d), v[i], seq![]);
        assert(strung(v) =~= strung(d) + v[i] + seq![]);
    }
    if i + 1 < v.len() {
        pieces_stand_before(v, i, i + 2);
    }
    if i + 2 < v.len() {
        pieces_stand_before(v, i, i + 3);
    }
    if i + 3 < v.len() {
        pieces_stand_before(v, i, i + 4);
    }
}

proof fn pieces_stand_before(v: Seq<Seq<char>>, i: int, n: int)
    requires
        0 <= i < n <= v.len(),
        n <= i + 4,
    ensures
        n == i + 1 ==> has_within(strung(v), v[i]),
        n == i + 2 ==> has_within(strung(v), v[i] + v[i + 1]),
        n == i + 3 ==> has_within(strung(v), v[i] + v[i + 1] + v[i + 2]),
        n == i + 4 ==> has_within(strung(v), v[i] + v[i + 1] + v[i + 2] + v[i + 3]),
    decreases v.len(),
{
    let d = v.drop_last();
    let p = if n == i + 1 {
        v[i]
    } else if n == i + 2 {
        v[i] + v[i + 1]
    } else if n == i + 3 {
        v[i] + v[i + 1] + v[i + 2]
    } else {
        v[i] + v[i + 1] + v[i + 2] + v[i + 3]
    };
    if n <= d.len() {
        pieces_stand_before(d, i, n);
        assert(has_within(strung(d), p));
        let k = choose|k: int| stands_at(strung(d), p, k);
        assert(strung(v).subrange(k, k + p.len()) =~= p) by {
            assert(strung(d).subrange(k, k + p.len()) == p);
            assert(strung(v).subrange(k, k + p.len()) =~= strung(d).subrange(k, k + p.len()));
        }
        assert(stands_at(strung(v), p, k));
    } else {
        reveal_with_fuel(strung, 5);
        let head = v.subrange(0, i);
        if n >= i + 1 {
            assert(v.subrange(0, i + 1).drop_last() =~= head);
        }
        if n >= i + 2 {
            assert(v.subrange(0, i + 2).drop_last() =~= v.subrange(0, i + 1));
        }
        if n >= i + 3 {
            assert(v.subrange(0, i + 3).drop_last() =~= v.subrange(0, i + 2));
        }
        if n >= i + 4 {
            assert(v.subrange(0, i + 4).drop_last() =~= v.subrange(0, i + 3));
        }
        assert(v.subrange(0, n) =~= v);
        let h = strung(head);
        assert(strung(v) =~= h + p + seq![]);
        stands_between(h, p, seq![]);
    }
}

proof fn dec_reads_back(n: nat)
    ensures
        dec(n).len() > 0,
        all_digits(dec(n)),
        digits_value(dec(n)) == n,
        n > 0 ==> dec(n)[0] != '0',
    decreases n,
{
    if n < 10 {
        assert(dec(n).drop_last() =~= seq![]);
        assert(digits_value(dec(n).drop_last()) == 0);
        assert(dec(n).last() as int == 48 + n);
    } else {
        dec_reads_back(n / 10);
        let d = dec(n / 10);
        assert(dec(n).drop_last() =~= d);
        assert(dec(n).last() as int == 48 + n % 10);
        assert forall|i: int| 0 <= i < dec(n).len() implies is_digit(#[trigger] dec(n)[i]) by {
            if i < d.len() {
                assert(dec(n)[i] == d[i]);
            }
        }
        assert(dec(n)[0] == d[0]);
    }
}

/// A number that was written reads back, and is written without a leading zero; a number below zero with a
/// sign.
pub proof fn a_written_number_reads_back(
    n: u64,
    s: String,
    u: &str,
    back: Option<u64>,
    i: i64,
    t: String,
    w: &str,
    again: Option<i64>,
)
    requires
        call_ensures(show_u64, (n,), s),
        u@ == s@,
        call_ensures(parse_uint, (u, u64::MAX), back),
        call_ensures(show_i64, (i,), t),
        w@ == t@,
        call_ensures(parse_int, (w,), again),
    ensures
        back == Some(n),
        n > 0 ==> s@[0] != '0',
        again == Some(i),
        i < 0 <==> t@[0] == '-',
{
    dec_reads_back(n as nat);
    assert(is_digit(dec(n as nat)[0]));
    if i < 0 {
        let m = (-i) as nat;
        dec_reads_back(m);
        assert(t@.drop_first() =~= dec(m));
    } else {
        dec_reads_back(i as nat);
        assert(is_digit(dec(i as nat)[0]));
    }
}

/// Two texts that begin alike are told apart by what follows: the one that ends there comes first, else the
/// one whose next character is the smaller.
pub proof fn texts_are_told_apart_where_they_differ(
    p: Seq<char>,
    x: char,
    y: char,
    s: Seq<char>,
    t: Seq<char>,
    a: &str,
    b: &str,
    r: bool,
)
    requires
        x != y,
        call_ensures(before, (a, b), r),
    ensures
        a@ == p && b@ == p + seq![y] + t ==> r,
        a@ == p + seq![x] + s && b@ == p ==> !r,
        a@ == p + seq![x] + s && b@ == p + seq![y] + t ==> (r <==> x < y),
        a@ == b@ ==> !r,
{
    alike_up_to(p, seq![], seq![y] + t);
    alike_up_to(p, seq![x] + s, seq![]);
    alike_up_to(p, seq![x] + s, seq![y] + t);
    alike_up_to(a@, seq![], seq![]);
    assert(p + seq![] =~= p);
    assert(a@ + seq![] =~= a@);
    assert(p + seq![x] + s =~= p + (seq![x] + s));
    assert(p + seq![y] + t =~= p + (seq![y] + t));
}

proof fn alike_up_to(p: Seq<char>, s: Seq<char>, t: Seq<char>)
    ensures
        sorts_before(p + s, p + t) == sorts_before(s, t),
    decreases p.len(),
{
    if p.len() == 0 {
        assert(p + s =~= s);
        assert(p + t =~= t);
    } else {
        alike_up_to(p.drop_first(), s, t);
        assert((p + s).drop_first() =~= p.drop_first() + s);
        assert((p + t).drop_first() =~= p.drop_first() + t);
    }
}

} // verus!
