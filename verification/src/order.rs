//! Stable sorting by a text key.

use crate::text::{precedes, same, text_lt, text_lt_irreflexive, text_lt_total, text_lt_transitive};
use vstd::multiset::Multiset;
use vstd::prelude::*;

verus! {

/// A sort key: two texts, a number, and a text, in falling weight.
pub struct SortKey {
    pub major: Seq<char>,
    pub minor: Seq<char>,
    pub number: int,
    pub last: Seq<char>,
}

/// Whether key `a` comes before key `b`.
pub open spec fn key_lt(a: SortKey, b: SortKey) -> bool {
    if a.major != b.major {
        text_lt(a.major, b.major)
    } else if a.minor != b.minor {
        text_lt(a.minor, b.minor)
    } else if a.number != b.number {
        a.number < b.number
    } else {
        text_lt(a.last, b.last)
    }
}

/// No key comes before itself.
pub proof fn key_lt_irreflexive(a: SortKey)
    ensures
        !key_lt(a, a),
{
    text_lt_irreflexive(a.last);
}

/// The key order is transitive.
pub proof fn key_lt_transitive(a: SortKey, b: SortKey, c: SortKey)
    requires
        key_lt(a, b),
        key_lt(b, c),
    ensures
        key_lt(a, c),
{
    if a.major != b.major && b.major != c.major {
        text_lt_transitive(a.major, b.major, c.major);
        if a.major == c.major {
            text_lt_irreflexive(a.major);
        }
    } else if a.major == b.major && b.major == c.major {
        if a.minor != b.minor && b.minor != c.minor {
            text_lt_transitive(a.minor, b.minor, c.minor);
            if a.minor == c.minor {
                text_lt_irreflexive(a.minor);
            }
        } else if a.minor == b.minor && b.minor == c.minor {
            if a.number == b.number && b.number == c.number {
                text_lt_transitive(a.last, b.last, c.last);
            }
        }
    }
}

/// Of two different keys, one comes before the other.
pub proof fn key_lt_total(a: SortKey, b: SortKey)
    ensures
        a == b || key_lt(a, b) || key_lt(b, a),
{
    text_lt_total(a.major, b.major);
    text_lt_total(a.minor, b.minor);
    text_lt_total(a.last, b.last);
}

/// What can be sorted by a key. The key is a function of the item's model, what the item is apart
/// from how it is stored.
pub trait Keyed: Sized {
    /// The model of an item.
    type Model;

    /// What the item is, apart from how it is stored.
    spec fn model(&self) -> Self::Model;

    /// The key of a model.
    spec fn key_of(m: Self::Model) -> SortKey;

    /// Whether the key comes before that of `other`.
    fn sorts_before(&self, other: &Self) -> (r: bool)
        ensures
            r == key_lt(Self::key_of(self.model()), Self::key_of(other.model())),
    ;
}

/// The models of a row of items.
pub open spec fn models_of<T: Keyed>(s: Seq<T>) -> Seq<T::Model> {
    Seq::new(s.len(), |i: int| s[i].model())
}

/// The row `s` with `x` behind every element whose key is not above that of `x`.
pub open spec fn placed<T: Keyed>(s: Seq<T::Model>, x: T::Model) -> Seq<T::Model>
    decreases s.len(),
{
    if s.len() == 0 {
        seq![x]
    } else if key_lt(T::key_of(x), T::key_of(s.last())) {
        placed::<T>(s.drop_last(), x).push(s.last())
    } else {
        s.push(x)
    }
}

/// The elements of `s` in ascending key order, those of one key in the order of `s`.
pub open spec fn arranged<T: Keyed>(s: Seq<T::Model>) -> Seq<T::Model>
    decreases s.len(),
{
    if s.len() == 0 {
        s
    } else {
        placed::<T>(arranged::<T>(s.drop_last()), s.last())
    }
}

/// Whether no element's key is below the key of one before it.
pub open spec fn keys_ascend<T: Keyed>(s: Seq<T::Model>) -> bool {
    forall|i: int, j: int|
        #![trigger s[i], s[j]]
        0 <= i < j < s.len() ==> !key_lt(T::key_of(s[j]), T::key_of(s[i]))
}

/// Placing an element adds it and nothing else.
pub proof fn placed_adds<T: Keyed>(s: Seq<T::Model>, x: T::Model)
    ensures
        placed::<T>(s, x).len() == s.len() + 1,
        placed::<T>(s, x).to_multiset() == s.to_multiset().insert(x),
    decreases s.len(),
{
    broadcast use vstd::seq_lib::group_to_multiset_ensures;

    if s.len() == 0 {
        assert(placed::<T>(s, x) == s.push(x));
    } else if key_lt(T::key_of(x), T::key_of(s.last())) {
        placed_adds::<T>(s.drop_last(), x);
        assert(s.drop_last().push(s.last()) == s);
        assert(s.to_multiset() == s.drop_last().to_multiset().insert(s.last()));
        assert(placed::<T>(s, x).to_multiset() == placed::<T>(s.drop_last(), x).to_multiset().insert(
            s.last(),
        ));
        assert(s.drop_last().to_multiset().insert(x).insert(s.last())
            == s.drop_last().to_multiset().insert(s.last()).insert(x));
    }
}

/// Placing an element in an ascending row leaves it ascending.
pub proof fn placed_ascends<T: Keyed>(s: Seq<T::Model>, x: T::Model)
    requires
        keys_ascend::<T>(s),
    ensures
        keys_ascend::<T>(placed::<T>(s, x)),
        forall|i: int|
            0 <= i < placed::<T>(s, x).len() ==> placed::<T>(s, x)[i] == x || s.contains(
                #[trigger] placed::<T>(s, x)[i],
            ),
    decreases s.len(),
{
    let r = placed::<T>(s, x);
    if s.len() == 0 {
    } else if key_lt(T::key_of(x), T::key_of(s.last())) {
        let front = s.drop_last();
        assert forall|i: int, j: int|
            #![trigger front[i], front[j]]
            0 <= i < j < front.len() implies !key_lt(T::key_of(front[j]), T::key_of(front[i])) by {
            assert(!key_lt(T::key_of(s[j]), T::key_of(s[i])));
        }
        placed_ascends::<T>(front, x);
        let p = placed::<T>(front, x);
        assert forall|i: int, j: int|
            #![trigger r[i], r[j]]
            0 <= i < j < r.len() implies !key_lt(T::key_of(r[j]), T::key_of(r[i])) by {
            if j < p.len() {
                assert(r[i] == p[i] && r[j] == p[j]);
            } else {
                assert(r[j] == s.last());
                assert(r[i] == p[i]);
                if p[i] == x {
                    if key_lt(T::key_of(s.last()), T::key_of(x)) {
                        key_lt_transitive(T::key_of(x), T::key_of(s.last()), T::key_of(x));
                        key_lt_irreflexive(T::key_of(x));
                    }
                } else {
                    let k = choose|k: int| 0 <= k < front.len() && front[k] == p[i];
                    assert(s[k] == p[i]);
                    assert(!key_lt(T::key_of(s[s.len() - 1]), T::key_of(s[k])));
                }
            }
        }
        assert forall|i: int| 0 <= i < r.len() implies r[i] == x || s.contains(#[trigger] r[i]) by {
            if i < p.len() {
                assert(r[i] == p[i]);
                if p[i] != x {
                    let k = choose|k: int| 0 <= k < front.len() && front[k] == p[i];
                    assert(s[k] == r[i]);
                }
            } else {
                assert(s[s.len() - 1] == r[i]);
            }
        }
    } else {
        assert forall|i: int, j: int|
            #![trigger r[i], r[j]]
            0 <= i < j < r.len() implies !key_lt(T::key_of(r[j]), T::key_of(r[i])) by {
            if j < s.len() {
                assert(!key_lt(T::key_of(s[j]), T::key_of(s[i])));
            } else {
                let last = s.last();
                if key_lt(T::key_of(x), T::key_of(s[i])) {
                    if i < s.len() - 1 {
                        assert(!key_lt(T::key_of(last), T::key_of(s[i])));
                    }
                    key_lt_total(T::key_of(last), T::key_of(s[i]));
                    if key_lt(T::key_of(s[i]), T::key_of(last)) {
                        key_lt_transitive(T::key_of(x), T::key_of(s[i]), T::key_of(last));
                    }
                    assert(false);
                }
            }
        }
        assert forall|i: int| 0 <= i < r.len() implies r[i] == x || s.contains(#[trigger] r[i]) by {
            if i < s.len() {
                assert(s[i] == r[i]);
            }
        }
    }
}

/// Sorting keeps the elements and puts their keys in order.
pub proof fn arranged_is_sorted<T: Keyed>(s: Seq<T::Model>)
    ensures
        keys_ascend::<T>(arranged::<T>(s)),
        arranged::<T>(s).to_multiset() == s.to_multiset(),
        arranged::<T>(s).len() == s.len(),
    decreases s.len(),
{
    broadcast use vstd::seq_lib::group_to_multiset_ensures;

    if s.len() > 0 {
        arranged_is_sorted::<T>(s.drop_last());
        placed_ascends::<T>(arranged::<T>(s.drop_last()), s.last());
        placed_adds::<T>(arranged::<T>(s.drop_last()), s.last());
        assert(s.drop_last().push(s.last()) == s);
    }
}

/// Puts `x` behind every element whose key is not above its own.
fn place<T: Keyed>(v: &mut Vec<T>, x: T)
    ensures
        models_of(final(v)@) == placed::<T>(models_of(old(v)@), x.model()),
{
    let ghost start = models_of(v@);
    let ghost m = x.model();
    let mut p: usize = v.len();
    proof {
        assert(start.take(start.len() as int) == start);
        assert(placed::<T>(start, m) == placed::<T>(start.take(p as int), m) + start.skip(
            p as int,
        ));
    }
    while p > 0 && x.sorts_before(&v[p - 1])
        invariant
            m == x.model(),
            models_of(v@) == start,
            start == models_of(old(v)@),
            p <= v.len(),
            placed::<T>(start, m) == placed::<T>(start.take(p as int), m) + start.skip(p as int),
        decreases p,
    {
        proof {
            let t = start.take(p as int);
            assert(t.drop_last() == start.take(p - 1));
            assert(t.last() == start[p - 1]);
            assert(placed::<T>(t, m) == placed::<T>(start.take(p - 1), m).push(start[p - 1]));
            assert(placed::<T>(t, m) + start.skip(p as int) == placed::<T>(start.take(p - 1), m)
                + start.skip(p - 1));
        }
        p = p - 1;
    }
    proof {
        let t = start.take(p as int);
        if p > 0 {
            assert(t.last() == start[p - 1]);
        }
        assert(placed::<T>(t, m) == t.push(m));
        assert(start.insert(p as int, m) == t.push(m) + start.skip(p as int));
    }
    v.insert(p, x);
    proof {
        assert(models_of(v@) == start.insert(p as int, m));
    }
}

/// Sorts by the key, keeping the order of elements of one key.
pub(crate) fn arrange<T: Keyed>(items: Vec<T>) -> (r: Vec<T>)
    ensures
        models_of(r@) == arranged::<T>(models_of(items@)),
{
    let mut out: Vec<T> = Vec::new();
    let ghost all = models_of(items@);
    proof {
        assert(all.take(0) == Seq::<T::Model>::empty());
        assert(models_of(out@) == Seq::<T::Model>::empty());
    }
    for x in it: items
        invariant
            models_of(it.seq()) == all,
            models_of(out@) == arranged::<T>(all.take(it.index() as int)),
    {
        proof {
            let k = it.index() as int;
            assert(all.take(k + 1).drop_last() == all.take(k));
            assert(all.take(k + 1).last() == x.model());
        }
        place(&mut out, x);
    }
    proof {
        assert(all.take(all.len() as int) == all);
    }
    out
}

/// The row `s` with `x` in its place; `s` itself where its last element not above `x` has the key
/// of `x`.
pub open spec fn entered<T: Keyed>(s: Seq<T::Model>, x: T::Model) -> Seq<T::Model>
    decreases s.len(),
{
    if s.len() == 0 {
        seq![x]
    } else if T::key_of(s.last()) == T::key_of(x) {
        s
    } else if key_lt(T::key_of(x), T::key_of(s.last())) {
        entered::<T>(s.drop_last(), x).push(s.last())
    } else {
        s.push(x)
    }
}

/// Puts an item into a strictly ascending row, where no item has its key.
pub(crate) fn enter<T: Keyed>(v: &mut Vec<T>, x: T)
    ensures
        models_of(final(v)@) == entered::<T>(models_of(old(v)@), x.model()),
{
    let ghost start = models_of(v@);
    let ghost m = x.model();
    let mut p: usize = v.len();
    proof {
        assert(start.take(start.len() as int) == start);
        assert(entered::<T>(start, m) == entered::<T>(start.take(p as int), m) + start.skip(
            p as int,
        ));
    }
    while p > 0 && x.sorts_before(&v[p - 1])
        invariant
            m == x.model(),
            models_of(v@) == start,
            start == models_of(old(v)@),
            p <= v.len(),
            entered::<T>(start, m) == entered::<T>(start.take(p as int), m) + start.skip(p as int),
        decreases p,
    {
        proof {
            let t = start.take(p as int);
            assert(t.drop_last() == start.take(p - 1));
            assert(t.last() == start[p - 1]);
            key_lt_irreflexive(T::key_of(m));
            assert(entered::<T>(t, m) == entered::<T>(start.take(p - 1), m).push(start[p - 1]));
            assert(entered::<T>(t, m) + start.skip(p as int) == entered::<T>(start.take(p - 1), m)
                + start.skip(p - 1));
        }
        p = p - 1;
    }
    let ghost t = start.take(p as int);
    proof {
        if p > 0 {
            assert(t.last() == start[p - 1]);
            key_lt_total(T::key_of(m), T::key_of(t.last()));
            key_lt_irreflexive(T::key_of(m));
        }
    }
    if p > 0 && !v[p - 1].sorts_before(&x) {
        proof {
            assert(entered::<T>(t, m) == t);
            assert(t + start.skip(p as int) == start);
        }
        return;
    }
    proof {
        assert(entered::<T>(t, m) == t.push(m));
        assert(start.insert(p as int, m) == t.push(m) + start.skip(p as int));
    }
    v.insert(p, x);
    proof {
        assert(models_of(v@) == start.insert(p as int, m));
    }
}

/// Whether each element's key is above the keys of those before it.
pub open spec fn keys_rise<T: Keyed>(s: Seq<T::Model>) -> bool {
    forall|i: int, j: int|
        #![trigger s[i], s[j]]
        0 <= i < j < s.len() ==> key_lt(T::key_of(s[i]), T::key_of(s[j]))
}

/// Whether an element of the row has the key.
pub open spec fn holds_key<T: Keyed>(s: Seq<T::Model>, k: SortKey) -> bool {
    exists|i: int| 0 <= i < s.len() && T::key_of(#[trigger] s[i]) == k
}

/// Entering an element in a strictly ascending row leaves it strictly ascending and adds no key but
/// that of the element. What was in the row stays.
pub proof fn entered_rises<T: Keyed>(s: Seq<T::Model>, x: T::Model)
    requires
        keys_rise::<T>(s),
    ensures
        keys_rise::<T>(entered::<T>(s, x)),
        forall|i: int|
            0 <= i < entered::<T>(s, x).len() ==> entered::<T>(s, x)[i] == x || s.contains(
                #[trigger] entered::<T>(s, x)[i],
            ),
        forall|i: int|
            0 <= i < s.len() ==> entered::<T>(s, x).contains(#[trigger] s[i]),
        holds_key::<T>(entered::<T>(s, x), T::key_of(x)),
    decreases s.len(),
{
    let r = entered::<T>(s, x);
    if s.len() == 0 {
        assert(T::key_of(r[0]) == T::key_of(x));
    } else if T::key_of(s.last()) == T::key_of(x) {
        assert(T::key_of(r[s.len() - 1]) == T::key_of(x));
    } else if key_lt(T::key_of(x), T::key_of(s.last())) {
        let front = s.drop_last();
        assert forall|i: int, j: int|
            #![trigger front[i], front[j]]
            0 <= i < j < front.len() implies key_lt(T::key_of(front[i]), T::key_of(front[j])) by {
            assert(key_lt(T::key_of(s[i]), T::key_of(s[j])));
        }
        entered_rises::<T>(front, x);
        let p = entered::<T>(front, x);
        assert(r.drop_last() == p);
        assert(r.last() == s.last());
        assert forall|i: int, j: int|
            #![trigger r[i], r[j]]
            0 <= i < j < r.len() implies key_lt(T::key_of(r[i]), T::key_of(r[j])) by {
            if j < p.len() {
                assert(r[i] == p[i] && r[j] == p[j]);
            } else {
                assert(r[i] == p[i]);
                if p[i] != x {
                    let k = choose|k: int| 0 <= k < front.len() && front[k] == p[i];
                    assert(key_lt(T::key_of(s[k]), T::key_of(s[s.len() - 1])));
                }
            }
        }
        assert forall|i: int| 0 <= i < r.len() implies r[i] == x || s.contains(#[trigger] r[i]) by {
            if i < p.len() {
                assert(r[i] == p[i]);
                if p[i] != x {
                    let k = choose|k: int| 0 <= k < front.len() && front[k] == p[i];
                    assert(s[k] == r[i]);
                }
            } else {
                assert(s[s.len() - 1] == r[i]);
            }
        }
        assert forall|i: int| 0 <= i < s.len() implies r.contains(#[trigger] s[i]) by {
            if i < front.len() {
                assert(p.contains(front[i]));
                let k = choose|k: int| 0 <= k < p.len() && p[k] == front[i];
                assert(r[k] == s[i]);
            } else {
                assert(r[r.len() - 1] == s[i]);
            }
        }
        let k = choose|k: int| 0 <= k < p.len() && T::key_of(#[trigger] p[k]) == T::key_of(x);
        assert(T::key_of(r[k]) == T::key_of(x));
    } else {
        key_lt_total(T::key_of(x), T::key_of(s.last()));
        assert forall|i: int, j: int|
            #![trigger r[i], r[j]]
            0 <= i < j < r.len() implies key_lt(T::key_of(r[i]), T::key_of(r[j])) by {
            if j < s.len() {
                assert(key_lt(T::key_of(s[i]), T::key_of(s[j])));
            } else if i < s.len() - 1 {
                assert(key_lt(T::key_of(s[i]), T::key_of(s[s.len() - 1])));
                key_lt_transitive(T::key_of(s[i]), T::key_of(s.last()), T::key_of(x));
            }
        }
        assert forall|i: int| 0 <= i < r.len() implies r[i] == x || s.contains(#[trigger] r[i]) by {
            if i < s.len() {
                assert(s[i] == r[i]);
            }
        }
        assert forall|i: int| 0 <= i < s.len() implies r.contains(#[trigger] s[i]) by {
            assert(r[i] == s[i]);
        }
        assert(T::key_of(r[s.len() as int]) == T::key_of(x));
    }
}

impl Keyed for String {
    type Model = Seq<char>;

    open spec fn model(&self) -> Seq<char> {
        self@
    }

    open spec fn key_of(m: Seq<char>) -> SortKey {
        SortKey { major: m, minor: Seq::empty(), number: 0, last: Seq::empty() }
    }

    fn sorts_before(&self, other: &Self) -> (r: bool) {
        proof {
            text_lt_irreflexive(self@);
            text_lt_irreflexive(Seq::<char>::empty());
        }
        precedes(self.as_str(), other.as_str())
    }
}

/// Whether the key of three texts comes before another.
pub(crate) fn texts_before(a: (&str, &str, &str), b: (&str, &str, &str)) -> (r: bool)
    ensures
        r == key_lt(
            SortKey { major: a.0@, minor: a.1@, number: 0, last: a.2@ },
            SortKey { major: b.0@, minor: b.1@, number: 0, last: b.2@ },
        ),
{
    if !same(a.0, b.0) {
        precedes(a.0, b.0)
    } else if !same(a.1, b.1) {
        precedes(a.1, b.1)
    } else {
        precedes(a.2, b.2)
    }
}

/// Whether the key tells the elements apart.
pub open spec fn keys_identify<T: Keyed>(m: Multiset<T::Model>) -> bool {
    forall|a: T::Model, b: T::Model|
        #![trigger m.count(a), m.count(b)]
        m.count(a) > 0 && m.count(b) > 0 && T::key_of(a) == T::key_of(b) ==> a == b
}

/// Two ascending rows of the same elements are one, where the key tells the elements apart.
proof fn ascending_is_unique<T: Keyed>(s: Seq<T::Model>, t: Seq<T::Model>)
    requires
        s.to_multiset() == t.to_multiset(),
        keys_identify::<T>(s.to_multiset()),
        keys_ascend::<T>(s),
        keys_ascend::<T>(t),
    ensures
        s == t,
    decreases s.len(),
{
    broadcast use vstd::seq_lib::group_to_multiset_ensures;

    assert(s.len() == s.to_multiset().len());
    assert(t.len() == t.to_multiset().len());
    if s.len() > 0 {
        let x = s.last();
        let y = t.last();
        assert(s[s.len() - 1] == x && t[t.len() - 1] == y);
        assert(s.contains(x) && t.contains(y));
        assert(s.to_multiset().count(x) > 0 && t.to_multiset().count(y) > 0);
        assert(s.contains(y) && t.contains(x));
        let i = s.index_of(y);
        let j = t.index_of(x);
        assert(!key_lt(T::key_of(x), T::key_of(y))) by {
            if i < s.len() - 1 {
                assert(!key_lt(T::key_of(s[s.len() - 1]), T::key_of(s[i])));
            } else {
                key_lt_irreflexive(T::key_of(x));
            }
        }
        assert(!key_lt(T::key_of(y), T::key_of(x))) by {
            if j < t.len() - 1 {
                assert(!key_lt(T::key_of(t[t.len() - 1]), T::key_of(t[j])));
            } else {
                key_lt_irreflexive(T::key_of(y));
            }
        }
        key_lt_total(T::key_of(x), T::key_of(y));
        assert(x == y);
        let a = s.remove(s.len() - 1);
        let b = t.remove(t.len() - 1);
        assert(a.to_multiset() == s.to_multiset().remove(x));
        assert(b.to_multiset() == t.to_multiset().remove(y));
        assert forall|p: T::Model, q: T::Model|
            #![trigger a.to_multiset().count(p), a.to_multiset().count(q)]
            a.to_multiset().count(p) > 0 && a.to_multiset().count(q) > 0 && T::key_of(p)
                == T::key_of(q) implies p == q by {
            assert(s.to_multiset().count(p) > 0 && s.to_multiset().count(q) > 0);
        }
        assert(keys_ascend::<T>(a)) by {
            assert forall|m: int, n: int|
                #![trigger a[m], a[n]]
                0 <= m < n < a.len() implies !key_lt(T::key_of(a[n]), T::key_of(a[m])) by {
                assert(a[m] == s[m] && a[n] == s[n]);
            }
        }
        assert(keys_ascend::<T>(b)) by {
            assert forall|m: int, n: int|
                #![trigger b[m], b[n]]
                0 <= m < n < b.len() implies !key_lt(T::key_of(b[n]), T::key_of(b[m])) by {
                assert(b[m] == t[m] && b[n] == t[n]);
            }
        }
        ascending_is_unique::<T>(a, b);
        assert(s == a.push(x));
        assert(t == b.push(y));
    }
}

/// Sorting forgets the order, where the key tells the elements apart.
pub proof fn arranged_forgets_order<T: Keyed>(s: Seq<T::Model>, t: Seq<T::Model>)
    requires
        s.to_multiset() == t.to_multiset(),
        keys_identify::<T>(s.to_multiset()),
    ensures
        arranged::<T>(s) == arranged::<T>(t),
{
    arranged_is_sorted::<T>(s);
    arranged_is_sorted::<T>(t);
    ascending_is_unique::<T>(arranged::<T>(s), arranged::<T>(t));
}

/// The elements of a row that have a key, in their order.
pub open spec fn of_key<T: Keyed>(s: Seq<T::Model>, k: SortKey) -> Seq<T::Model>
    decreases s.len(),
{
    if s.len() == 0 {
        Seq::empty()
    } else if T::key_of(s.last()) == k {
        of_key::<T>(s.drop_last(), k).push(s.last())
    } else {
        of_key::<T>(s.drop_last(), k)
    }
}

/// Placing an element leaves the elements of one key in their order.
proof fn placed_keeps_order<T: Keyed>(s: Seq<T::Model>, x: T::Model, k: SortKey)
    ensures
        of_key::<T>(placed::<T>(s, x), k) == of_key::<T>(s.push(x), k),
    decreases s.len(),
{
    assert(s.push(x).drop_last() == s);
    if s.len() == 0 {
        assert(seq![x] == s.push(x));
    } else if key_lt(T::key_of(x), T::key_of(s.last())) {
        let front = s.drop_last();
        placed_keeps_order::<T>(front, x, k);
        assert(front.push(x).drop_last() == front);
        let p = placed::<T>(s, x);
        assert(p.drop_last() == placed::<T>(front, x) && p.last() == s.last());
        key_lt_irreflexive(T::key_of(x));
        let shared = of_key::<T>(front, k);
        if T::key_of(s.last()) == k {
            assert(of_key::<T>(front.push(x), k) == shared);
            assert(of_key::<T>(p, k) == shared.push(s.last()));
            assert(of_key::<T>(s.push(x), k) == of_key::<T>(s, k));
        } else if T::key_of(x) == k {
            assert(of_key::<T>(front.push(x), k) == shared.push(x));
            assert(of_key::<T>(s, k) == shared);
            assert(of_key::<T>(s.push(x), k) == of_key::<T>(s, k).push(x));
        } else {
            assert(of_key::<T>(s.push(x), k) == of_key::<T>(s, k));
            assert(of_key::<T>(front.push(x), k) == shared);
        }
    }
}

/// Sorting leaves the elements of one key in their order.
pub proof fn arranged_keeps_order<T: Keyed>(s: Seq<T::Model>, k: SortKey)
    ensures
        of_key::<T>(arranged::<T>(s), k) == of_key::<T>(s, k),
    decreases s.len(),
{
    if s.len() > 0 {
        let front = s.drop_last();
        arranged_keeps_order::<T>(front, k);
        let sorted = arranged::<T>(front);
        placed_keeps_order::<T>(sorted, s.last(), k);
        assert(sorted.push(s.last()).drop_last() == sorted);
    }
}

/// A row has an element of a key exactly where it holds the key.
proof fn of_key_found<T: Keyed>(s: Seq<T::Model>, k: SortKey)
    ensures
        (of_key::<T>(s, k).len() > 0) == holds_key::<T>(s, k),
    decreases s.len(),
{
    if s.len() > 0 {
        let front = s.drop_last();
        of_key_found::<T>(front, k);
        if T::key_of(s.last()) == k {
            assert(T::key_of(s[s.len() - 1]) == k);
        }
        if holds_key::<T>(front, k) {
            let i = choose|i: int| 0 <= i < front.len() && T::key_of(#[trigger] front[i]) == k;
            assert(T::key_of(s[i]) == k);
        }
        if holds_key::<T>(s, k) && T::key_of(s.last()) != k {
            let i = choose|i: int| 0 <= i < s.len() && T::key_of(#[trigger] s[i]) == k;
            assert(T::key_of(front[i]) == k);
        }
    }
}

/// The key of the last element of an ascending row is below no key of the row.
proof fn last_is_highest<T: Keyed>(s: Seq<T::Model>, k: SortKey)
    requires
        s.len() > 0,
        keys_ascend::<T>(s),
        holds_key::<T>(s, k),
    ensures
        !key_lt(T::key_of(s.last()), k),
{
    let i = choose|i: int| 0 <= i < s.len() && T::key_of(#[trigger] s[i]) == k;
    key_lt_irreflexive(k);
    if i < s.len() - 1 {
        assert(!key_lt(T::key_of(s[s.len() - 1]), T::key_of(s[i])));
    }
}

/// Two ascending rows that agree on the elements of each key are one.
pub proof fn ascending_by_key_is_unique<T: Keyed>(s: Seq<T::Model>, t: Seq<T::Model>)
    requires
        keys_ascend::<T>(s),
        keys_ascend::<T>(t),
        forall|k: SortKey| #[trigger] of_key::<T>(s, k) == of_key::<T>(t, k),
    ensures
        s == t,
    decreases s.len(),
{
    if s.len() == 0 {
        if t.len() > 0 {
            let k = T::key_of(t.last());
            assert(of_key::<T>(s, k) == of_key::<T>(t, k));
            assert(of_key::<T>(t, k).len() > 0);
        }
    } else {
        let k = T::key_of(s.last());
        assert(of_key::<T>(s, k) == of_key::<T>(t, k));
        assert(of_key::<T>(s, k).len() > 0);
        assert(t.len() > 0);
        let l = T::key_of(t.last());
        assert(of_key::<T>(s, l) == of_key::<T>(t, l));
        of_key_found::<T>(s, l);
        of_key_found::<T>(t, k);
        last_is_highest::<T>(s, l);
        last_is_highest::<T>(t, k);
        key_lt_total(k, l);
        assert(k == l);
        assert(of_key::<T>(s, k).last() == s.last());
        assert(of_key::<T>(t, k).last() == t.last());
        let a = s.drop_last();
        let b = t.drop_last();
        assert forall|x: SortKey| #[trigger] of_key::<T>(a, x) == of_key::<T>(b, x) by {
            assert(of_key::<T>(s, x) == of_key::<T>(t, x));
            if x == k {
                assert(of_key::<T>(a, x) == of_key::<T>(s, x).drop_last());
                assert(of_key::<T>(b, x) == of_key::<T>(t, x).drop_last());
            }
        }
        assert forall|i: int, j: int|
            #![trigger a[i], a[j]]
            0 <= i < j < a.len() implies !key_lt(T::key_of(a[j]), T::key_of(a[i])) by {
            assert(!key_lt(T::key_of(s[j]), T::key_of(s[i])));
        }
        assert forall|i: int, j: int|
            #![trigger b[i], b[j]]
            0 <= i < j < b.len() implies !key_lt(T::key_of(b[j]), T::key_of(b[i])) by {
            assert(!key_lt(T::key_of(t[j]), T::key_of(t[i])));
        }
        ascending_by_key_is_unique::<T>(a, b);
        assert(s == a.push(s.last()));
        assert(t == b.push(t.last()));
    }
}

/// A row that agrees with another on the elements of each key is sorted to the same.
pub proof fn arranged_by_key<T: Keyed>(s: Seq<T::Model>, t: Seq<T::Model>)
    requires
        forall|k: SortKey| #[trigger] of_key::<T>(s, k) == of_key::<T>(t, k),
    ensures
        arranged::<T>(s) == arranged::<T>(t),
{
    let a = arranged::<T>(s);
    let b = arranged::<T>(t);
    arranged_is_sorted::<T>(s);
    arranged_is_sorted::<T>(t);
    assert forall|k: SortKey| #[trigger] of_key::<T>(a, k) == of_key::<T>(b, k) by {
        arranged_keeps_order::<T>(s, k);
        arranged_keeps_order::<T>(t, k);
        assert(of_key::<T>(s, k) == of_key::<T>(t, k));
    }
    ascending_by_key_is_unique::<T>(a, b);
}

/// Entering an element whose key a strictly ascending row holds changes nothing.
pub proof fn entered_again<T: Keyed>(s: Seq<T::Model>, x: T::Model)
    requires
        keys_rise::<T>(s),
        holds_key::<T>(s, T::key_of(x)),
    ensures
        entered::<T>(s, x) == s,
    decreases s.len(),
{
    let i = choose|i: int| 0 <= i < s.len() && T::key_of(#[trigger] s[i]) == T::key_of(x);
    if i < s.len() - 1 {
        assert(key_lt(T::key_of(s[i]), T::key_of(s[s.len() - 1])));
        key_lt_irreflexive(T::key_of(x));
        let front = s.drop_last();
        assert forall|p: int, q: int|
            #![trigger front[p], front[q]]
            0 <= p < q < front.len() implies key_lt(T::key_of(front[p]), T::key_of(front[q])) by {
            assert(key_lt(T::key_of(s[p]), T::key_of(s[q])));
        }
        assert(T::key_of(front[i]) == T::key_of(x));
        entered_again::<T>(front, x);
        assert(front.push(s.last()) == s);
    }
}

} // verus!
