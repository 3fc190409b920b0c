//! A map keyed by the variants of a closed vocabulary, kept in declaration order.

use vstd::prelude::*;

verus! {

/// A closed vocabulary whose variants are ordered by declaration.
pub trait Rank: Sized + Copy {
    /// The position of the variant in the declaration.
    spec fn rank(self) -> int;

    /// Two variants of one rank are the same variant.
    proof fn rank_injective(a: Self, b: Self)
        requires
            a.rank() == b.rank(),
        ensures
            a == b,
    ;

    /// The position of the variant in the declaration.
    fn rank_of(self) -> (r: u8)
        ensures
            r == self.rank(),
    ;
}

/// A map from the variants of `K` to `V`, its entries in strictly ascending rank order.
#[derive(Debug, PartialEq, Eq)]
pub struct RankMap<K: Rank, V> {
    items: Vec<(K, V)>,
}

/// Whether the ranks of `s` are strictly ascending.
pub open spec fn ranks_ascend<K: Rank, V>(s: Seq<(K, V)>) -> bool {
    forall|i: int, j: int|
        #![trigger s[i], s[j]]
        0 <= i < j < s.len() ==> s[i].0.rank() < s[j].0.rank()
}

/// The value that the first entry of `s` with key `k`, at `i` or after it, holds.
pub open spec fn ranked_from<K: Rank, V>(s: Seq<(K, V)>, k: K, i: int) -> Option<V>
    decreases s.len() - i,
{
    if i < 0 || i >= s.len() {
        None
    } else if s[i].0 == k {
        Some(s[i].1)
    } else {
        ranked_from(s, k, i + 1)
    }
}

/// Where the ranks ascend, an entry is what a lookup of its key gives.
pub proof fn ranked_at<K: Rank, V>(s: Seq<(K, V)>, i: int, j: int)
    requires
        ranks_ascend(s),
        0 <= i <= j < s.len(),
    ensures
        ranked_from(s, s[j].0, i) == Some(s[j].1),
    decreases s.len() - i,
{
    if i < j {
        assert(s[i].0.rank() < s[j].0.rank());
        ranked_at(s, i + 1, j);
    }
}

/// Replacing an entry by one of the same key leaves the lookups of other keys as they were.
proof fn ranked_replaced<K: Rank, V>(s: Seq<(K, V)>, p: int, e: (K, V), k: K, i: int)
    requires
        0 <= p < s.len(),
        0 <= i <= s.len(),
        s[p].0 == e.0,
        e.0 != k,
    ensures
        ranked_from(s.update(p, e), k, i) == ranked_from(s, k, i),
    decreases s.len() - i,
{
    if i < s.len() {
        ranked_replaced(s, p, e, k, i + 1);
    }
}

/// Inserting an entry leaves the lookups of other keys as they were.
proof fn ranked_inserted<K: Rank, V>(s: Seq<(K, V)>, p: int, e: (K, V), k: K, i: int)
    requires
        0 <= p <= s.len(),
        0 <= i <= s.len(),
        e.0 != k,
    ensures
        ranked_from(s.insert(p, e), k, if i <= p { i } else { i + 1 }) == ranked_from(s, k, i),
    decreases s.len() - i,
{
    if i < s.len() {
        ranked_inserted(s, p, e, k, i + 1);
        if i == p {
            assert(s.insert(p, e)[p + 1] == s[p]);
            assert(ranked_from(s.insert(p, e), k, p + 1) == ranked_from(s, k, i));
        }
    } else if i == p {
        assert(ranked_from(s.insert(p, e), k, p + 1) is None);
    }
}

impl<K: Rank, V> RankMap<K, V> {
    #[verifier::type_invariant]
    spec fn inv(self) -> bool {
        ranks_ascend(self.items@)
    }

    /// The entries, in ascending rank order.
    pub closed spec fn entries(&self) -> Seq<(K, V)> {
        self.items@
    }

    /// The value under `k`, if there is one.
    pub open spec fn at(&self, k: K) -> Option<V> {
        ranked_from(self.entries(), k, 0)
    }

    /// An empty map.
    pub fn new() -> (r: Self)
        ensures
            r.entries() == Seq::<(K, V)>::empty(),
    {
        RankMap { items: Vec::new() }
    }

    /// The number of entries.
    pub fn len(&self) -> (r: usize)
        ensures
            r == self.entries().len(),
    {
        self.items.len()
    }

    /// Whether there is no entry.
    pub fn is_empty(&self) -> (r: bool)
        ensures
            r == (self.entries().len() == 0),
    {
        self.items.len() == 0
    }

    /// The entries, in ascending rank order.
    pub fn into_entries(self) -> (r: Vec<(K, V)>)
        ensures
            r@ == self.entries(),
    {
        self.items
    }

    /// The ranks of the keys are strictly ascending.
    pub fn ordered(&self)
        ensures
            ranks_ascend(self.entries()),
    {
        proof {
            use_type_invariant(self);
        }
    }

    /// The key of entry `i`.
    pub fn key_at(&self, i: usize) -> (r: K)
        requires
            i < self.entries().len(),
        ensures
            r == self.entries()[i as int].0,
    {
        self.items[i].0
    }

    /// The value of entry `i`.
    pub fn value_at(&self, i: usize) -> (r: &V)
        requires
            i < self.entries().len(),
        ensures
            *r == self.entries()[i as int].1,
    {
        &self.items[i].1
    }

    /// The value under `key`.
    pub fn get(&self, key: K) -> (r: Option<&V>)
        ensures
            match r {
                Some(v) => self.at(key) == Some(*v),
                None => self.at(key) is None,
            },
    {
        let mut i: usize = 0;
        while i < self.items.len()
            invariant
                i <= self.items.len(),
                self.at(key) == ranked_from(self.items@, key, i as int),
            decreases self.items.len() - i,
        {
            if self.items[i].0.rank_of() == key.rank_of() {
                proof {
                    K::rank_injective(self.items@[i as int].0, key);
                }
                return Some(&self.items[i].1);
            }
            i = i + 1;
        }
        None
    }

    /// Puts `value` under `key`, in place of a value that was there.
    pub fn insert(&mut self, key: K, value: V)
        ensures
            final(self).at(key) == Some(value),
            forall|k: K| k != key ==> #[trigger] final(self).at(k) == old(self).at(k),
    {
        proof {
            use_type_invariant(&*self);
        }
        let ghost before = self.items@;
        let mut items: Vec<(K, V)> = Vec::new();
        std::mem::swap(&mut items, &mut self.items);
        let mut p: usize = 0;
        while p < items.len() && items[p].0.rank_of() < key.rank_of()
            invariant
                p <= items.len(),
                forall|j: int| 0 <= j < p ==> (#[trigger] items@[j]).0.rank() < key.rank(),
            decreases items.len() - p,
        {
            p = p + 1;
        }
        if p < items.len() && items[p].0.rank_of() == key.rank_of() {
            proof {
                K::rank_injective(items@[p as int].0, key);
            }
            items[p] = (key, value);
            proof {
                assert(items@ == before.update(p as int, (key, value)));
                assert forall|i: int, j: int|
                    #![trigger items@[i], items@[j]]
                    0 <= i < j < items@.len() implies items@[i].0.rank() < items@[j].0.rank() by {
                    assert(before[i].0.rank() < before[j].0.rank());
                }
                ranked_at(items@, 0, p as int);
                assert forall|x: K| x != key implies ranked_from(items@, x, 0) == ranked_from(
                    before,
                    x,
                    0,
                ) by {
                    ranked_replaced(before, p as int, (key, value), x, 0);
                }
            }
        } else {
            items.insert(p, (key, value));
            proof {
                assert(items@ == before.insert(p as int, (key, value)));
                assert forall|i: int, j: int|
                    #![trigger items@[i], items@[j]]
                    0 <= i < j < items@.len() implies items@[i].0.rank() < items@[j].0.rank() by {
                    let a = if i < p { i } else { i - 1 };
                    let b = if j < p { j } else { j - 1 };
                    if i != p && j != p {
                        assert(before[a].0.rank() < before[b].0.rank());
                    } else if i == p {
                        if b > p {
                            assert(before[p as int].0.rank() < before[b].0.rank());
                        }
                    } else {
                        assert(before[a].0.rank() < key.rank());
                    }
                }
                ranked_at(items@, 0, p as int);
                assert forall|x: K| x != key implies ranked_from(items@, x, 0) == ranked_from(
                    before,
                    x,
                    0,
                ) by {
                    ranked_inserted(before, p as int, (key, value), x, 0);
                }
            }
        }
        self.items = items;
    }
}

impl<K: Rank, V> Default for RankMap<K, V> {
    fn default() -> (r: Self)
        ensures
            r.entries() == Seq::<(K, V)>::empty(),
    {
        RankMap::new()
    }
}

impl<K: Rank, V: Clone> Clone for RankMap<K, V> {
    fn clone(&self) -> (r: Self)
        ensures
            r.entries().len() == self.entries().len(),
            forall|i: int|
                #![trigger r.entries()[i]]
                0 <= i < r.entries().len() ==> r.entries()[i].0 == self.entries()[i].0 && cloned(
                    self.entries()[i].1,
                    r.entries()[i].1,
                ),
    {
        proof {
            use_type_invariant(self);
        }
        let mut items: Vec<(K, V)> = Vec::new();
        let mut i: usize = 0;
        while i < self.items.len()
            invariant
                i <= self.items.len(),
                items.len() == i,
                forall|j: int|
                    #![trigger items@[j]]
                    0 <= j < i ==> items@[j].0 == self.items@[j].0 && cloned(
                        self.items@[j].1,
                        items@[j].1,
                    ),
            decreases self.items.len() - i,
        {
            items.push((self.items[i].0, self.items[i].1.clone()));
            i = i + 1;
        }
        proof {
            assert forall|i: int, j: int|
                #![trigger items@[i], items@[j]]
                0 <= i < j < items@.len() implies items@[i].0.rank() < items@[j].0.rank() by {
                assert(self.items@[i].0.rank() < self.items@[j].0.rank());
            }
        }
        RankMap { items }
    }
}

} // verus!
