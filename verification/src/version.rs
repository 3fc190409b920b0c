//! Firmware version order.
//!
//! The identity of a firmware is its text. This module orders two versions for range queries: a
//! version is a row of dot-separated integers, compared part by part, the shorter row padded with
//! zeros. A version that does not parse has no order.

use crate::text::{
    all_digits, digits_value, is_digit, is_white, parse_unsigned, same, split, split_text, trim,
    trimmed, unsigned_value, views,
};
use std::cmp::Ordering;
use vstd::prelude::*;

verus! {

/// The version-ordering schemes.
#[derive(Debug, Clone, Copy, PartialEq, Eq, Default, Structural)]
pub enum VersionScheme {
    /// Dot-separated unsigned integers: `2.30` is `[2, 30]`.
    #[default]
    DottedInt,
}

/// How one version stands to another.
#[derive(Debug, Clone, Copy, PartialEq, Eq, Structural)]
pub enum VersionOrder {
    Less,
    Equal,
    Greater,
}

/// The number that a part of a version writes.
pub open spec fn part_value(s: Seq<char>) -> Option<int> {
    unsigned_value(trimmed(s), 10, 0xffff_ffff_ffff_ffff)
}

/// The numbers that the parts of a version write, where every part writes one.
pub open spec fn version_parts(s: Seq<char>, scheme: VersionScheme) -> Option<Seq<int>> {
    let t = trimmed(s);
    let parts = split_text(t, '.');
    if t.len() > 0 && forall|i: int|
        0 <= i < parts.len() ==> part_value(#[trigger] parts[i]) is Some {
        Some(Seq::new(parts.len(), |i: int| part_value(parts[i])->0))
    } else {
        None
    }
}

/// Component `i` of a version; zero behind its end.
pub open spec fn component(v: Seq<int>, i: int) -> int {
    if 0 <= i < v.len() {
        v[i]
    } else {
        0
    }
}

/// How `a` stands to `b` from component `i` on.
pub open spec fn order_from(a: Seq<int>, b: Seq<int>, i: int) -> VersionOrder
    decreases a.len() + b.len() - i,
{
    if i < 0 || (i >= a.len() && i >= b.len()) {
        VersionOrder::Equal
    } else if component(a, i) < component(b, i) {
        VersionOrder::Less
    } else if component(a, i) > component(b, i) {
        VersionOrder::Greater
    } else {
        order_from(a, b, i + 1)
    }
}

/// How the version `a` stands to the version `b`; `None` where one of them does not parse.
pub open spec fn version_order(
    a: Seq<char>,
    b: Seq<char>,
    scheme: VersionScheme,
) -> Option<VersionOrder> {
    match (version_parts(a, scheme), version_parts(b, scheme)) {
        (Some(x), Some(y)) => Some(order_from(x, y, 0)),
        _ => None,
    }
}

/// The numbers of a vector.
pub open spec fn ints(v: Seq<u64>) -> Seq<int> {
    Seq::new(v.len(), |i: int| v[i] as int)
}

/// The components of a version; `None` where a part is no number.
pub fn parse(s: &str, scheme: VersionScheme) -> (r: Option<Vec<u64>>)
    ensures
        match r {
            Some(v) => version_parts(s@, scheme) == Some(ints(v@)),
            None => version_parts(s@, scheme) is None,
        },
{
    let t = trim(s);
    if t.unicode_len() == 0 {
        return None;
    }
    let parts = split(t, '.');
    let ghost texts = split_text(t@, '.');
    let mut out: Vec<u64> = Vec::new();
    let mut i: usize = 0;
    while i < parts.len()
        invariant
            t@ == trimmed(s@),
            t@.len() > 0,
            texts == split_text(t@, '.'),
            views(parts@) == texts,
            i <= parts.len(),
            out.len() == i,
            forall|j: int|
                0 <= j < i ==> part_value(#[trigger] texts[j]) == Some(out@[j] as int),
        decreases parts.len() - i,
    {
        proof {
            assert(texts[i as int] == parts@[i as int]@);
        }
        match parse_unsigned(trim(parts[i].as_str()), 10, 0xffff_ffff_ffff_ffff) {
            None => {
                return None;
            },
            Some(n) => {
                out.push(n as u64);
            },
        }
        i = i + 1;
    }
    proof {
        assert(texts.len() == views(parts@).len());
        assert(Seq::new(texts.len(), |i: int| part_value(texts[i])->0) == ints(out@));
    }
    Some(out)
}

/// How the version `a` stands to the version `b`.
pub fn order(a: &str, b: &str, scheme: VersionScheme) -> (r: Option<VersionOrder>)
    ensures
        r == version_order(a@, b@, scheme),
{
    let va = match parse(a, scheme) {
        None => {
            return None;
        },
        Some(v) => v,
    };
    let vb = match parse(b, scheme) {
        None => {
            return None;
        },
        Some(v) => v,
    };
    let n: usize = if va.len() > vb.len() {
        va.len()
    } else {
        vb.len()
    };
    let mut i: usize = 0;
    while i < n
        invariant
            i <= n,
            n == (if va.len() > vb.len() { va.len() } else { vb.len() }),
            version_order(a@, b@, scheme) == Some(order_from(ints(va@), ints(vb@), i as int)),
        decreases n - i,
    {
        let ai: u64 = if i < va.len() {
            va[i]
        } else {
            0
        };
        let bi: u64 = if i < vb.len() {
            vb[i]
        } else {
            0
        };
        if ai < bi {
            return Some(VersionOrder::Less);
        }
        if ai > bi {
            return Some(VersionOrder::Greater);
        }
        i = i + 1;
    }
    Some(VersionOrder::Equal)
}

/// The `Ordering` of a version order.
pub open spec fn ordering_of(o: VersionOrder) -> Ordering {
    match o {
        VersionOrder::Less => Ordering::Less,
        VersionOrder::Equal => Ordering::Equal,
        VersionOrder::Greater => Ordering::Greater,
    }
}

/// Orders two versions; `None` means that one of them does not parse, and is no comparison.
pub fn compare(a: &str, b: &str, scheme: VersionScheme) -> (r: Option<Ordering>)
    ensures
        r == (match version_order(a@, b@, scheme) {
            Some(o) => Some(ordering_of(o)),
            None => None,
        }),
{
    match order(a, b, scheme) {
        None => None,
        Some(VersionOrder::Less) => Some(Ordering::Less),
        Some(VersionOrder::Equal) => Some(Ordering::Equal),
        Some(VersionOrder::Greater) => Some(Ordering::Greater),
    }
}

/// Whether `v` lies in the half-open range from `min` to `max`, a missing bound being no bound. A
/// version that does not parse lies in the range only where it is the text of a bound.
pub open spec fn version_in_range(
    v: Seq<char>,
    min: Option<Seq<char>>,
    max: Option<Seq<char>>,
    scheme: VersionScheme,
) -> bool {
    if version_parts(v, scheme) is None {
        min == Some(v) || max == Some(v)
    } else {
        &&& min matches Some(lo) ==> version_order(v, lo, scheme) == Some(VersionOrder::Greater)
            || version_order(v, lo, scheme) == Some(VersionOrder::Equal) || lo == v
        &&& max matches Some(hi) ==> version_order(v, hi, scheme) == Some(VersionOrder::Less)
    }
}

/// The text of an optional bound.
pub open spec fn bound_text(b: Option<&str>) -> Option<Seq<char>> {
    match b {
        Some(s) => Some(s@),
        None => None,
    }
}

/// Whether `v` lies in the half-open range from `min` to `max`.
pub fn in_range(v: &str, min: Option<&str>, max: Option<&str>, scheme: VersionScheme) -> (r: bool)
    ensures
        r == version_in_range(v@, bound_text(min), bound_text(max), scheme),
{
    if parse(v, scheme).is_none() {
        let at_min = match min {
            Some(lo) => same(lo, v),
            None => false,
        };
        let at_max = match max {
            Some(hi) => same(hi, v),
            None => false,
        };
        return at_min || at_max;
    }
    let above_min = match min {
        None => true,
        Some(lo) => match order(v, lo, scheme) {
            Some(VersionOrder::Greater) => true,
            Some(VersionOrder::Equal) => true,
            _ => same(lo, v),
        },
    };
    let below_max = match max {
        None => true,
        Some(hi) => match order(v, hi, scheme) {
            Some(VersionOrder::Less) => true,
            _ => false,
        },
    };
    above_min && below_max
}

/// The order turned round.
pub open spec fn reversed(o: VersionOrder) -> VersionOrder {
    match o {
        VersionOrder::Less => VersionOrder::Greater,
        VersionOrder::Equal => VersionOrder::Equal,
        VersionOrder::Greater => VersionOrder::Less,
    }
}

proof fn order_from_reversed(a: Seq<int>, b: Seq<int>, i: int)
    ensures
        order_from(b, a, i) == reversed(order_from(a, b, i)),
    decreases a.len() + b.len() - i,
{
    if 0 <= i && (i < a.len() || i < b.len()) && component(a, i) == component(b, i) {
        order_from_reversed(a, b, i + 1);
    }
}

/// Comparing two versions the other way round turns the order round, and is a comparison exactly
/// where the first was one.
pub proof fn version_order_reversed(a: Seq<char>, b: Seq<char>, scheme: VersionScheme)
    ensures
        version_order(b, a, scheme) == (match version_order(a, b, scheme) {
            Some(o) => Some(reversed(o)),
            None => None,
        }),
{
    if let Some(x) = version_parts(a, scheme) {
        if let Some(y) = version_parts(b, scheme) {
            order_from_reversed(x, y, 0);
        }
    }
}

proof fn order_from_same(a: Seq<int>, i: int)
    ensures
        order_from(a, a, i) == VersionOrder::Equal,
    decreases a.len() + a.len() - i,
{
    if 0 <= i < a.len() {
        order_from_same(a, i + 1);
    }
}

/// A version that parses equals itself; one that does not has no order, not even to itself.
pub proof fn version_order_reflexive(a: Seq<char>, scheme: VersionScheme)
    ensures
        version_order(a, a, scheme) == (if version_parts(a, scheme) is Some {
            Some(VersionOrder::Equal)
        } else {
            None
        }),
{
    if let Some(x) = version_parts(a, scheme) {
        order_from_same(x, 0);
    }
}

proof fn order_from_transitive(a: Seq<int>, b: Seq<int>, c: Seq<int>, i: int)
    requires
        0 <= i,
        order_from(a, b, i) != VersionOrder::Greater,
        order_from(b, c, i) != VersionOrder::Greater,
    ensures
        order_from(a, c, i) != VersionOrder::Greater,
        order_from(a, c, i) == VersionOrder::Equal ==> order_from(a, b, i) == VersionOrder::Equal
            && order_from(b, c, i) == VersionOrder::Equal,
    decreases a.len() + b.len() + c.len() - i,
{
    if i < a.len() || i < b.len() || i < c.len() {
        if component(a, i) == component(b, i) && component(b, i) == component(c, i) {
            order_tail(a, b, i);
            order_tail(b, c, i);
            order_tail(a, c, i);
            order_from_transitive(a, b, c, i + 1);
        } else {
            order_tail(a, b, i);
            order_tail(b, c, i);
            order_tail(a, c, i);
        }
    }
}

/// Where two components agree, the order is decided behind them.
proof fn order_tail(a: Seq<int>, b: Seq<int>, i: int)
    requires
        0 <= i,
    ensures
        component(a, i) == component(b, i) ==> order_from(a, b, i) == order_from(a, b, i + 1),
        component(a, i) < component(b, i) ==> order_from(a, b, i) == VersionOrder::Less,
        component(a, i) > component(b, i) ==> order_from(a, b, i) == VersionOrder::Greater
            || (i >= a.len() && i >= b.len()),
{
}

/// The order is transitive: what is not above a version that is not above a third is not above
/// the third.
pub proof fn version_order_transitive(
    a: Seq<char>,
    b: Seq<char>,
    c: Seq<char>,
    scheme: VersionScheme,
)
    requires
        version_order(a, b, scheme) is Some,
        version_order(b, c, scheme) is Some,
        version_order(a, b, scheme) != Some(VersionOrder::Greater),
        version_order(b, c, scheme) != Some(VersionOrder::Greater),
    ensures
        version_order(a, c, scheme) is Some,
        version_order(a, c, scheme) != Some(VersionOrder::Greater),
{
    order_from_transitive(
        version_parts(a, scheme)->0,
        version_parts(b, scheme)->0,
        version_parts(c, scheme)->0,
        0,
    );
}

/// A zero component at the end changes no order.
pub proof fn trailing_zero_is_equal(a: Seq<int>, i: int)
    requires
        0 <= i,
    ensures
        order_from(a.push(0), a, i) == VersionOrder::Equal,
    decreases a.len() + 1 - i,
{
    if i <= a.len() {
        trailing_zero_is_equal(a, i + 1);
    }
}

/// A zero in front of digits does not change what they write.
proof fn zero_in_front(d: Seq<char>)
    requires
        all_digits(d, 10),
    ensures
        all_digits(seq!['0'] + d, 10),
        digits_value(seq!['0'] + d, 10) == digits_value(d, 10),
    decreases d.len(),
{
    let s = seq!['0'] + d;
    assert forall|i: int| 0 <= i < s.len() implies is_digit(#[trigger] s[i], 10) by {
        if i > 0 {
            assert(s[i] == d[i - 1]);
        }
    }
    if d.len() > 0 {
        assert(all_digits(d.drop_last(), 10)) by {
            assert forall|i: int| 0 <= i < d.drop_last().len() implies is_digit(
                #[trigger] d.drop_last()[i],
                10,
            ) by {
                assert(d.drop_last()[i] == d[i]);
            }
        }
        zero_in_front(d.drop_last());
        assert(s.drop_last() == seq!['0'] + d.drop_last());
        assert(s.last() == d.last());
    } else {
        assert(s.drop_last() == Seq::<char>::empty());
        reveal_with_fuel(digits_value, 2);
    }
}

/// A part of a version means the same with zeros in front of its digits: a firmware that one
/// transport reports as `02` and another as `2` is one firmware to every comparison.
pub proof fn leading_zero_is_equal(d: Seq<char>)
    requires
        d.len() > 0,
        all_digits(d, 10),
    ensures
        part_value(seq!['0'] + d) == part_value(d),
{
    let s = seq!['0'] + d;
    zero_in_front(d);
    assert(is_digit(d[0], 10) && is_digit(d.last(), 10));
    assert(s.last() == d.last());
    assert(!is_white(d[0]) && !is_white(d.last()));
    assert(!is_white(s[0]));
    assert(trimmed(d) == d);
    assert(trimmed(s) == s);
}

/// Two half-open ranges that meet divide the range that they make up: a version of it lies in
/// exactly one of them.
pub proof fn adjacent_ranges_divide(
    v: Seq<char>,
    lo: Seq<char>,
    mid: Seq<char>,
    hi: Seq<char>,
    scheme: VersionScheme,
)
    requires
        version_parts(v, scheme) is Some,
        version_order(lo, mid, scheme) is Some,
        version_order(mid, hi, scheme) is Some,
        version_order(lo, mid, scheme) != Some(VersionOrder::Greater),
        version_order(mid, hi, scheme) != Some(VersionOrder::Greater),
    ensures
        version_in_range(v, Some(lo), Some(hi), scheme) == (version_in_range(
            v,
            Some(lo),
            Some(mid),
            scheme,
        ) || version_in_range(v, Some(mid), Some(hi), scheme)),
        !(version_in_range(v, Some(lo), Some(mid), scheme) && version_in_range(
            v,
            Some(mid),
            Some(hi),
            scheme,
        )),
{
    version_order_reflexive(v, scheme);
    version_order_reversed(v, lo, scheme);
    version_order_reversed(v, mid, scheme);
    version_order_reversed(v, hi, scheme);
    version_order_reversed(lo, mid, scheme);
    version_order_reversed(mid, hi, scheme);
    let x = version_parts(v, scheme)->0;
    let a = version_parts(lo, scheme)->0;
    let b = version_parts(mid, scheme)->0;
    let c = version_parts(hi, scheme)->0;
    if order_from(x, b, 0) != VersionOrder::Greater {
        order_from_transitive(x, b, c, 0);
    }
    if order_from(b, x, 0) != VersionOrder::Greater {
        order_from_transitive(a, b, x, 0);
    }
}

} // verus!
