//! How close a project is to a cap, which rule binds, and how long to wait: the signal every ingest
//! door returns in its headers.
use vstd::prelude::*;

use crate::limit::LimitStatus;
use crate::figure::{copy_real, Real};
use crate::text::{clone_opt, dec, show_u64};

verus! {

/// The dimension the binding rule applies to.
#[derive(Debug)]
pub struct BindingScope {
    pub kind: String,
    pub value: String,
}

/// What an ingest response says about the project's position against its caps.
#[derive(Debug)]
pub struct Proximity {
    /// Worst usage ratio among the rules that applied.
    pub usage_ratio: Option<Real>,
    /// Strongest shedding pressure among them; absent when nothing is throttling.
    pub shed_fraction: Option<Real>,
    /// Seconds to wait, set only when the write was turned away.
    pub retry_after_secs: Option<u64>,
    /// Scope of the worst rule; absent when it is project-wide.
    pub binding_scope: Option<BindingScope>,
    /// Id of the worst rule.
    pub binding_rule: Option<String>,
}

/// Whether `w` is the first of the largest keys.
pub open spec fn is_first_max(keys: Seq<int>, w: int) -> bool {
    &&& 0 <= w < keys.len()
    &&& forall|j: int| 0 <= j < keys.len() ==> #[trigger] keys[j] <= keys[w]
    &&& forall|j: int| 0 <= j < w ==> #[trigger] keys[j] < keys[w]
}

/// The first position of the largest key.
pub open spec fn first_max(keys: Seq<int>) -> int {
    choose|w: int| is_first_max(keys, w)
}

/// `first_max` is the position that `is_first_max` describes.
pub proof fn first_max_is(keys: Seq<int>, w: int)
    requires
        is_first_max(keys, w),
    ensures
        first_max(keys) == w,
{
    let c = first_max(keys);
    assert(is_first_max(keys, c));
    if c < w {
        assert(keys[c] < keys[w]);
    } else if w < c {
        assert(keys[w] < keys[c]);
    }
}

/// The usage ratios of `s`, by order key.
pub open spec fn ratio_keys(s: Seq<LimitStatus>) -> Seq<int> {
    s.map_values(|x: LimitStatus| x.ratio.key as int)
}

/// The shedding pressures of `s`, by order key.
pub open spec fn shed_keys(s: Seq<LimitStatus>) -> Seq<int> {
    s.map_values(|x: LimitStatus| x.shed_fraction.key as int)
}

/// A ratio by its order key and as it is written.
pub struct RealView {
    pub key: int,
    pub wire: Seq<char>,
}

/// An optional ratio as plain values.
pub open spec fn ratio_view(r: Option<Real>) -> Option<RealView> {
    match r {
        Some(x) => Some(RealView { key: x.key as int, wire: x.wire@ }),
        None => None,
    }
}

/// A position against caps, as plain values.
pub struct ProximityView {
    pub usage: Option<RealView>,
    pub shed: Option<RealView>,
    pub retry_after_secs: Option<u64>,
    /// Kind and value of the binding rule's scope.
    pub scope: Option<(Seq<char>, Seq<char>)>,
    pub rule: Option<Seq<char>>,
}

impl View for Proximity {
    type V = ProximityView;

    open spec fn view(&self) -> ProximityView {
        ProximityView {
            usage: ratio_view(self.usage_ratio),
            shed: ratio_view(self.shed_fraction),
            retry_after_secs: self.retry_after_secs,
            scope: match self.binding_scope {
                Some(b) => Some((b.kind@, b.value@)),
                None => None,
            },
            rule: match self.binding_rule {
                Some(r) => Some(r@),
                None => None,
            },
        }
    }
}

/// Nothing known and nothing to wait for.
pub open spec fn no_signal() -> ProximityView {
    ProximityView { usage: None, shed: None, retry_after_secs: None, scope: None, rule: None }
}

/// The larger of two optional ratios; a present one beats an absent one.
pub open spec fn larger(a: Option<RealView>, b: Option<RealView>) -> Option<RealView> {
    match (a, b) {
        (Some(x), Some(y)) => if y.key > x.key {
            b
        } else {
            a
        },
        (None, _) => b,
        (_, None) => a,
    }
}

/// The longer of two optional waits; a present one beats an absent one.
pub open spec fn longer(a: Option<u64>, b: Option<u64>) -> Option<u64> {
    match (a, b) {
        (Some(x), Some(y)) => if y > x {
            b
        } else {
            a
        },
        (None, _) => b,
        (_, None) => a,
    }
}

/// The signal of one admission: the worst ratio, the strongest shedding pressure where there is any,
/// and the first of the rules with the worst ratio.
pub open spec fn signal_of(s: Seq<LimitStatus>) -> ProximityView {
    if s.len() == 0 {
        no_signal()
    } else {
        let w = s[first_max(ratio_keys(s))];
        let f = s[first_max(shed_keys(s))].shed_fraction;
        ProximityView {
            usage: Some(RealView { key: w.ratio.key as int, wire: w.ratio.wire@ }),
            shed: if f.key > 0 {
                Some(RealView { key: f.key as int, wire: f.wire@ })
            } else {
                None
            },
            retry_after_secs: None,
            scope: match w.scope {
                None => None,
                Some(sc) => Some((sc.kind(), sc.what())),
            },
            rule: Some(w.rule_id@),
        }
    }
}

/// Two signals in one: the worst of each axis and the longest wait. The binding rule is the second's
/// only where the second raises the ratio; on a tie the first's stays.
pub open spec fn merged(a: ProximityView, b: ProximityView) -> ProximityView {
    let over = b.usage is Some && (a.usage is None || b.usage->0.key > a.usage->0.key);
    ProximityView {
        usage: larger(a.usage, b.usage),
        shed: larger(a.shed, b.shed),
        retry_after_secs: longer(a.retry_after_secs, b.retry_after_secs),
        scope: if over {
            b.scope
        } else {
            a.scope
        },
        rule: if over {
            b.rule
        } else {
            a.rule
        },
    }
}

/// One header: its name and its value.
#[derive(Debug)]
pub struct Header {
    pub name: String,
    pub value: String,
}

/// The headers that a signal puts on a response, as name and value.
pub open spec fn header_views(p: ProximityView) -> Seq<(Seq<char>, Seq<char>)> {
    let a = match p.usage {
        Some(r) => seq![("x-lighttrack-usage-ratio"@, r.wire)],
        None => seq![],
    };
    let b = match p.shed {
        Some(r) => seq![("x-lighttrack-shed-fraction"@, r.wire)],
        None => seq![],
    };
    let c = match p.retry_after_secs {
        Some(n) => seq![("x-lighttrack-retry-after"@, dec(n as nat))],
        None => seq![],
    };
    a + b + c
}

/// Headers as name and value.
pub open spec fn headers_view(h: Seq<Header>) -> Seq<(Seq<char>, Seq<char>)> {
    h.map_values(|x: Header| (x.name@, x.value@))
}

fn copy_binding(b: &Option<BindingScope>) -> (out: Option<BindingScope>)
    ensures
        out == *b,
{
    match b {
        Some(x) => Some(BindingScope { kind: x.kind.clone(), value: x.value.clone() }),
        None => None,
    }
}

fn max_opt(a: &Option<Real>, b: &Option<Real>) -> (r: Option<Real>)
    ensures
        ratio_view(r) == larger(ratio_view(*a), ratio_view(*b)),
{
    match (a, b) {
        (Some(x), Some(y)) => if y.key > x.key {
            Some(y.copied())
        } else {
            Some(x.copied())
        },
        (None, _) => copy_real(b),
        (_, None) => copy_real(a),
    }
}

impl Proximity {
    /// Nothing known and nothing to wait for.
    pub fn none() -> (r: Proximity)
        ensures
            r@ == no_signal(),
    {
        Proximity {
            usage_ratio: None,
            shed_fraction: None,
            retry_after_secs: None,
            binding_scope: None,
            binding_rule: None,
        }
    }

    /// Reads the signal out of one admission's statuses. The ratio and the shedding pressure are the
    /// worst of each, possibly from different rules; the binding identity is the rule with the worst
    /// ratio, the first of them on a tie.
    pub fn of(statuses: &Vec<LimitStatus>) -> (r: Proximity)
        ensures
            r@ == signal_of(statuses@),
    {
        if statuses.len() == 0 {
            return Proximity::none();
        }
        let mut w: usize = 0;
        let mut f: usize = 0;
        let mut i: usize = 1;
        while i < statuses.len()
            invariant
                1 <= i <= statuses.len(),
                is_first_max(ratio_keys(statuses@).take(i as int), w as int),
                is_first_max(shed_keys(statuses@).take(i as int), f as int),
            decreases statuses.len() - i,
        {
            let ghost rk = ratio_keys(statuses@);
            let ghost sk = shed_keys(statuses@);
            assert(rk.take(i as int)[w as int] == statuses@[w as int].ratio.key);
            assert(sk.take(i as int)[f as int] == statuses@[f as int].shed_fraction.key);
            assert(forall|j: int| 0 <= j < i ==> rk.take(i + 1)[j] == rk.take(i as int)[j]);
            assert(forall|j: int| 0 <= j < i ==> sk.take(i + 1)[j] == sk.take(i as int)[j]);
            if statuses[i].ratio.key > statuses[w].ratio.key {
                w = i;
            }
            if statuses[i].shed_fraction.key > statuses[f].shed_fraction.key {
                f = i;
            }
            i += 1;
        }
        proof {
            assert(ratio_keys(statuses@).take(i as int) =~= ratio_keys(statuses@));
            assert(shed_keys(statuses@).take(i as int) =~= shed_keys(statuses@));
            first_max_is(ratio_keys(statuses@), w as int);
            first_max_is(shed_keys(statuses@), f as int);
        }
        let b = &statuses[w];
        let shed = &statuses[f].shed_fraction;
        Proximity {
            usage_ratio: Some(b.ratio.copied()),
            shed_fraction: if shed.key > 0 {
                Some(shed.copied())
            } else {
                None
            },
            retry_after_secs: None,
            binding_scope: match &b.scope {
                Some(sc) => Some(
                    BindingScope { kind: sc.kind_str().to_owned(), value: sc.value().to_owned() },
                ),
                None => None,
            },
            binding_rule: Some(b.rule_id.clone()),
        }
    }

    /// Folds another admission's signal into this one: the worst of each axis, the longest wait. The
    /// binding identity is taken over only when `other` raises the ratio.
    pub fn merge(&mut self, other: &Proximity)
        ensures
            final(self)@ == merged(old(self)@, other@),
    {
        let over = match (&other.usage_ratio, &self.usage_ratio) {
            (Some(o), Some(s)) => o.key > s.key,
            (Some(_), None) => true,
            (None, _) => false,
        };
        self.usage_ratio = max_opt(&self.usage_ratio, &other.usage_ratio);
        self.shed_fraction = max_opt(&self.shed_fraction, &other.shed_fraction);
        self.retry_after_secs = match (self.retry_after_secs, other.retry_after_secs) {
            (Some(a), Some(b)) => if b > a {
                Some(b)
            } else {
                Some(a)
            },
            (None, b) => b,
            (a, None) => a,
        };
        if over {
            self.binding_scope = copy_binding(&other.binding_scope);
            self.binding_rule = clone_opt(&other.binding_rule);
        }
    }

    /// The headers this signal puts on a response. An absent value emits no header.
    pub fn headers(&self) -> (r: Vec<Header>)
        ensures
            headers_view(r@) == header_views(self@),
    {
        let mut out: Vec<Header> = Vec::new();
        if let Some(x) = &self.usage_ratio {
            out.push(
                Header { name: "x-lighttrack-usage-ratio".to_owned(), value: x.wire.clone() },
            );
        }
        if let Some(x) = &self.shed_fraction {
            out.push(
                Header { name: "x-lighttrack-shed-fraction".to_owned(), value: x.wire.clone() },
            );
        }
        if let Some(n) = self.retry_after_secs {
            out.push(Header { name: "x-lighttrack-retry-after".to_owned(), value: show_u64(n) });
        }
        assert(headers_view(out@) =~= header_views(self@));
        out
    }
}

/// A project with no limits has nothing to say: no header at all, rather than a ratio of zero.
pub proof fn no_limits_no_headers()
    ensures
        header_views(signal_of(seq![])).len() == 0,
{
}

/// After a merge the ratio, the shedding pressure and the wait are at least those of either side, and
/// each is one of the two that went in.
pub proof fn merge_takes_the_worst_of_each_axis(a: ProximityView, b: ProximityView)
    ensures
        a.usage is Some ==> merged(a, b).usage->0.key >= a.usage->0.key,
        b.usage is Some ==> merged(a, b).usage->0.key >= b.usage->0.key,
        merged(a, b).usage == a.usage || merged(a, b).usage == b.usage,
        a.shed is Some ==> merged(a, b).shed->0.key >= a.shed->0.key,
        b.shed is Some ==> merged(a, b).shed->0.key >= b.shed->0.key,
        merged(a, b).shed == a.shed || merged(a, b).shed == b.shed,
        a.retry_after_secs is Some ==> merged(a, b).retry_after_secs->0 >= a.retry_after_secs->0,
        b.retry_after_secs is Some ==> merged(a, b).retry_after_secs->0 >= b.retry_after_secs->0,
        merged(a, b).retry_after_secs == a.retry_after_secs || merged(a, b).retry_after_secs
            == b.retry_after_secs,
{
}

/// Reading the admissions of a batch one by one and merging says what reading them at once says: the
/// worst ratio, the strongest shedding pressure, and the first rule with the worst ratio.
pub proof fn merging_is_reading_at_once(a: Seq<LimitStatus>, b: Seq<LimitStatus>)
    ensures
        merged(signal_of(a), signal_of(b)) == signal_of(a + b),
{
    if a.len() == 0 {
        assert(a + b =~= b);
    } else if b.len() == 0 {
        assert(a + b =~= a);
    } else {
        let c = a + b;
        assert(ratio_keys(c) =~= ratio_keys(a) + ratio_keys(b));
        assert(shed_keys(c) =~= shed_keys(a) + shed_keys(b));
        let w = first_max_of_join(ratio_keys(a), ratio_keys(b));
        let f = first_max_of_join(shed_keys(a), shed_keys(b));
        let (wa, wb) = (first_max(ratio_keys(a)), first_max(ratio_keys(b)));
        let (fa, fb) = (first_max(shed_keys(a)), first_max(shed_keys(b)));
        assert(ratio_keys(a)[wa] == a[wa].ratio.key && ratio_keys(b)[wb] == b[wb].ratio.key);
        assert(shed_keys(a)[fa] == a[fa].shed_fraction.key);
        assert(shed_keys(b)[fb] == b[fb].shed_fraction.key);
    }
}

/// The first of the largest keys of two lists in a row: the second list's only where it is larger.
proof fn first_max_of_join(a: Seq<int>, b: Seq<int>) -> (w: int)
    requires
        a.len() > 0,
        b.len() > 0,
    ensures
        is_first_max(a, first_max(a)),
        is_first_max(b, first_max(b)),
        w == first_max(a + b),
        w == (if b[first_max(b)] > a[first_max(a)] {
            a.len() + first_max(b)
        } else {
            first_max(a)
        }),
{
    let c = a + b;
    let x = largest_key_at(a, a.len() as int);
    let y = largest_key_at(b, b.len() as int);
    first_max_is(a, x);
    first_max_is(b, y);
    let w = if b[y] > a[x] {
        a.len() + y
    } else {
        x
    };
    assert forall|j: int| 0 <= j < c.len() implies #[trigger] c[j] <= c[w] by {
        if j < a.len() {
            assert(c[j] == a[j]);
        } else {
            assert(c[j] == b[j - a.len()]);
        }
    }
    assert forall|j: int| 0 <= j < w implies #[trigger] c[j] < c[w] by {
        if j < a.len() {
            assert(c[j] == a[j]);
        } else {
            assert(c[j] == b[j - a.len()]);
        }
    }
    first_max_is(c, w);
    w
}

/// The binding rule of a signal is one whose ratio no other rule exceeds.
pub proof fn the_binding_rule_is_the_worst(s: Seq<LimitStatus>)
    requires
        s.len() > 0,
    ensures
        exists|w: int|
            0 <= w < s.len() && signal_of(s).rule == Some((#[trigger] s[w]).rule_id@) && forall|j: int|
                0 <= j < s.len() ==> (#[trigger] s[j]).ratio.key <= s[w].ratio.key,
{
    let k = ratio_keys(s);
    let w = largest_key_at(k, k.len() as int);
    first_max_is(k, w);
    assert forall|j: int| 0 <= j < s.len() implies (#[trigger] s[j]).ratio.key <= s[w].ratio.key by {
        assert(k[j] <= k[w]);
    }
}

proof fn largest_key_at(k: Seq<int>, n: int) -> (w: int)
    requires
        0 < n <= k.len(),
    ensures
        0 <= w < n,
        forall|j: int| 0 <= j < n ==> #[trigger] k[j] <= k[w],
        forall|j: int| 0 <= j < w ==> #[trigger] k[j] < k[w],
    decreases n,
{
    if n == 1 {
        0
    } else {
        let v = largest_key_at(k, n - 1);
        if k[n - 1] > k[v] {
            n - 1
        } else {
            v
        }
    }
}

/// What one admission's signal says: no rule is closer to its cap than the ratio that is given, and the
/// rule named is the first that is as close; no rule sheds more than the pressure that is given, and
/// there is pressure exactly where some rule sheds; nothing is said of a wait, nor of anything where no
/// rule applied.
pub proof fn a_signal_is_the_worst_of_the_rules(s: &Vec<LimitStatus>, r: Proximity)
    requires
        call_ensures(Proximity::of, (s,), r),
    ensures
        r.retry_after_secs is None,
        s@.len() == 0 ==> r.usage_ratio is None && r.shed_fraction is None && r.binding_rule is None
            && r.binding_scope is None,
        s@.len() > 0 ==> r.usage_ratio is Some && exists|w: int|
            0 <= w < s@.len() && r.binding_rule is Some && r.binding_rule->0@ == (
            #[trigger] s@[w]).rule_id@ && r.usage_ratio->0.key == s@[w].ratio.key
                && r.usage_ratio->0.wire@ == s@[w].ratio.wire@ && (r.binding_scope is None <==> s@[w].scope is None)
                && (s@[w].scope is Some ==> r.binding_scope->0.kind@ == s@[w].scope->0.kind()
                && r.binding_scope->0.value@ == s@[w].scope->0.what()) && forall|j: int|
                0 <= j < w ==> (#[trigger] s@[j]).ratio.key < s@[w].ratio.key,
        forall|j: int| 0 <= j < s@.len() ==> (#[trigger] s@[j]).ratio.key <= r.usage_ratio->0.key,
        r.shed_fraction is Some <==> exists|j: int|
            0 <= j < s@.len() && (#[trigger] s@[j]).shed_fraction.key > 0,
        r.shed_fraction is Some ==> (forall|j: int|
            0 <= j < s@.len() ==> (#[trigger] s@[j]).shed_fraction.key <= r.shed_fraction->0.key)
            && exists|j: int|
            0 <= j < s@.len() && (#[trigger] s@[j]).shed_fraction.key == r.shed_fraction->0.key
                && s@[j].shed_fraction.wire@ == r.shed_fraction->0.wire@,
{
    if s@.len() > 0 {
        let k = ratio_keys(s@);
        let w = largest_key_at(k, k.len() as int);
        first_max_is(k, w);
        let h = shed_keys(s@);
        let f = largest_key_at(h, h.len() as int);
        first_max_is(h, f);
        assert(r@ == signal_of(s@));
        assert(k[w] == s@[w].ratio.key && h[f] == s@[f].shed_fraction.key);
        assert forall|j: int| 0 <= j < s@.len() implies (#[trigger] s@[j]).ratio.key <= s@[w].ratio.key by {
            assert(k[j] <= k[w]);
        }
        assert forall|j: int| 0 <= j < w implies (#[trigger] s@[j]).ratio.key < s@[w].ratio.key by {
            assert(k[j] < k[w]);
        }
        assert forall|j: int| 0 <= j < s@.len() implies (#[trigger] s@[j]).shed_fraction.key
            <= s@[f].shed_fraction.key by {
            assert(h[j] <= h[f]);
        }
        assert(r.usage_ratio is Some);
        assert(s@[w].rule_id@ == r.binding_rule->0@);
    }
}

/// Each part of a signal goes out under its own header, an absent one under none.
pub proof fn each_part_has_its_header(p: &Proximity, r: Vec<Header>)
    requires
        call_ensures(Proximity::headers, (p,), r),
    ensures
        r@.len() == (if p.usage_ratio is Some {
            1int
        } else {
            0
        }) + (if p.shed_fraction is Some {
            1int
        } else {
            0
        }) + (if p.retry_after_secs is Some {
            1int
        } else {
            0
        }),
        p.usage_ratio is Some ==> exists|i: int|
            0 <= i < r@.len() && (#[trigger] r@[i]).name@ == "x-lighttrack-usage-ratio"@ && r@[i].value@
                == p.usage_ratio->0.wire@,
        p.shed_fraction is Some ==> exists|i: int|
            0 <= i < r@.len() && (#[trigger] r@[i]).name@ == "x-lighttrack-shed-fraction"@ && r@[i].value@
                == p.shed_fraction->0.wire@,
        p.retry_after_secs is Some ==> exists|i: int|
            0 <= i < r@.len() && (#[trigger] r@[i]).name@ == "x-lighttrack-retry-after"@ && r@[i].value@
                == dec(p.retry_after_secs->0 as nat),
{
    let h = headers_view(r@);
    assert(h.len() == r@.len());
    assert(forall|i: int| 0 <= i < r@.len() ==> h[i] == (#[trigger] r@[i].name@, r@[i].value@));
    let a: int = if p.usage_ratio is Some {
        1
    } else {
        0
    };
    let b: int = if p.shed_fraction is Some {
        1
    } else {
        0
    };
    if p.usage_ratio is Some {
        assert(h[0] == ("x-lighttrack-usage-ratio"@, p.usage_ratio->0.wire@));
        assert(r@[0].name@ == "x-lighttrack-usage-ratio"@);
    }
    if p.shed_fraction is Some {
        assert(h[a] == ("x-lighttrack-shed-fraction"@, p.shed_fraction->0.wire@));
        assert(r@[a].name@ == "x-lighttrack-shed-fraction"@);
    }
    if p.retry_after_secs is Some {
        assert(h[a + b] == ("x-lighttrack-retry-after"@, dec(p.retry_after_secs->0 as nat)));
        assert(r@[a + b].name@ == "x-lighttrack-retry-after"@);
    }
}

} // verus!
