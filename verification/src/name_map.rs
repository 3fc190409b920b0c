//! A map keyed by text, kept in ascending key order.

use crate::text::{
    precedes, same, text_lt, text_lt_irreflexive, text_lt_total, text_lt_transitive,
};
use vstd::prelude::*;

verus! {

/// A map from text to `V`. The entries are held in strictly ascending key order, so that no key
/// occurs twice and a walk over the entries visits the keys in text order.
#[derive(Debug, PartialEq, Eq)]
pub struct NameMap<V> {
    items: Vec<(String, V)>,
}

/// Whether the keys of `s` are strictly ascending.
pub open spec fn ascending<V>(s: Seq<(String, V)>) -> bool {
    forall|i: int, j: int|
        #![trigger s[i], s[j]]
        0 <= i < j < s.len() ==> text_lt(s[i].0@, s[j].0@)
}

/// The value that the first entry of `s` with key `k`, at `i` or after it, holds.
pub open spec fn lookup_from<V>(s: Seq<(String, V)>, k: Seq<char>, i: int) -> Option<V>
    decreases s.len() - i,
{
    if i < 0 || i >= s.len() {
        None
    } else if s[i].0@ == k {
        Some(s[i].1)
    } else {
        lookup_from(s, k, i + 1)
    }
}

/// `lookup_from` finds a value exactly where an entry holds the key.
pub proof fn lookup_finds<V>(s: Seq<(String, V)>, k: Seq<char>, i: int)
    requires
        0 <= i <= s.len(),
    ensures
        lookup_from(s, k, i) is Some <==> exists|j: int| i <= j < s.len() && #[trigger] s[j].0@ == k,
    decreases s.len() - i,
{
    if i < s.len() {
        lookup_finds(s, k, i + 1);
        if s[i].0@ == k {
        } else {
            if exists|j: int| i <= j < s.len() && #[trigger] s[j].0@ == k {
                let j = choose|j: int| i <= j < s.len() && #[trigger] s[j].0@ == k;
                assert(i + 1 <= j < s.len() && s[j].0@ == k);
            }
        }
    }
}

/// Where a lookup finds its value.
pub proof fn lookup_index<V>(s: Seq<(String, V)>, k: Seq<char>, i: int) -> (j: int)
    requires
        0 <= i,
        lookup_from(s, k, i) is Some,
    ensures
        i <= j < s.len(),
        s[j].0@ == k,
        lookup_from(s, k, i) == Some(s[j].1),
    decreases s.len() - i,
{
    if s[i].0@ == k {
        i
    } else {
        lookup_index(s, k, i + 1)
    }
}

/// Where the keys ascend, an entry is what a lookup of its key gives.
pub proof fn lookup_at<V>(s: Seq<(String, V)>, i: int, j: int)
    requires
        ascending(s),
        0 <= i <= j < s.len(),
    ensures
        lookup_from(s, s[j].0@, i) == Some(s[j].1),
    decreases s.len() - i,
{
    if i < j {
        text_lt_irreflexive(s[j].0@);
        assert(text_lt(s[i].0@, s[j].0@));
        lookup_at(s, i + 1, j);
    }
}

impl<V> NameMap<V> {
    #[verifier::type_invariant]
    spec fn keys_ascend(self) -> bool {
        ascending(self.items@)
    }

    /// The entries, in ascending key order.
    pub closed spec fn entries(&self) -> Seq<(String, V)> {
        self.items@
    }

    /// The value under `k`, if there is one.
    pub open spec fn at(&self, k: Seq<char>) -> Option<V> {
        lookup_from(self.entries(), k, 0)
    }

    /// Whether `k` is a key.
    pub open spec fn has(&self, k: Seq<char>) -> bool {
        self.at(k) is Some
    }

    /// An empty map.
    pub fn new() -> (r: Self)
        ensures
            r.entries() == Seq::<(String, V)>::empty(),
    {
        NameMap { items: Vec::new() }
    }

    /// The map of a row of entries whose keys are strictly ascending.
    pub(crate) fn from_ascending(items: Vec<(String, V)>) -> (r: Self)
        requires
            ascending(items@),
        ensures
            r.entries() == items@,
    {
        NameMap { items }
    }

    /// The number of entries.
    pub fn len(&self) -> (r: usize)
        ensures
            r == self.entries().len(),
    {
        self.items.len()
    }

    /// Whether there is no entry.
    pub fn is_empty(&self) -> (r: bool)
        ensures
            r == (self.entries().len() == 0),
    {
        self.items.len() == 0
    }

    /// The entries, in ascending key order.
    pub fn into_entries(self) -> (r: Vec<(String, V)>)
        ensures
            r@ == self.entries(),
    {
        self.items
    }

    /// The keys of a map are strictly ascending.
    pub fn ordered(&self)
        ensures
            ascending(self.entries()),
    {
        proof {
            use_type_invariant(self);
        }
    }

    /// The key of entry `i`.
    pub fn key_at(&self, i: usize) -> (r: &String)
        requires
            i < self.entries().len(),
        ensures
            *r == self.entries()[i as int].0,
    {
        &self.items[i].0
    }

    /// The value of entry `i`.
    pub fn value_at(&self, i: usize) -> (r: &V)
        requires
            i < self.entries().len(),
        ensures
            *r == self.entries()[i as int].1,
    {
        &self.items[i].1
    }

    /// The value under `key`.
    pub fn get(&self, key: &str) -> (r: Option<&V>)
        ensures
            match r {
                Some(v) => self.at(key@) == Some(*v),
                None => self.at(key@) is None,
            },
    {
        let mut i: usize = 0;
        while i < self.items.len()
            invariant
                i <= self.items.len(),
                self.at(key@) == lookup_from(self.items@, key@, i as int),
            decreases self.items.len() - i,
        {
            if same(self.items[i].0.as_str(), key) {
                return Some(&self.items[i].1);
            }
            i = i + 1;
        }
        None
    }

    /// Whether `key` is a key.
    pub fn contains_key(&self, key: &str) -> (r: bool)
        ensures
            r == self.has(key@),
    {
        self.get(key).is_some()
    }

    /// The first position whose key does not precede `key`.
    fn position(&self, key: &str) -> (r: usize)
        ensures
            r <= self.items.len(),
            forall|j: int| 0 <= j < r ==> text_lt(#[trigger] self.items@[j].0@, key@),
            r < self.items.len() ==> !text_lt(self.items@[r as int].0@, key@),
    {
        let mut i: usize = 0;
        while i < self.items.len() && precedes(self.items[i].0.as_str(), key)
            invariant
                i <= self.items.len(),
                forall|j: int| 0 <= j < i ==> text_lt(#[trigger] self.items@[j].0@, key@),
            decreases self.items.len() - i,
        {
            i = i + 1;
        }
        i
    }

    /// Takes the value under `key` out of the map.
    pub fn remove(&mut self, key: &str) -> (r: Option<V>)
        ensures
            r == old(self).at(key@),
            final(self).at(key@) is None,
            forall|k: Seq<char>| k != key@ ==> #[trigger] final(self).at(k) == old(self).at(k),
    {
        proof {
            use_type_invariant(&*self);
        }
        let ghost before = self.items@;
        let mut items: Vec<(String, V)> = Vec::new();
        std::mem::swap(&mut items, &mut self.items);
        let mut i: usize = 0;
        while i < items.len() && !same(items[i].0.as_str(), key)
            invariant
                items@ == before,
                i <= items@.len(),
                lookup_from(before, key@, 0) == lookup_from(before, key@, i as int),
            decreases items@.len() - i,
        {
            i = i + 1;
        }
        if i >= items.len() {
            self.items = items;
            return None;
        }
        let (_, value) = items.remove(i);
        proof {
            assert(items@ == before.remove(i as int));
            assert(ascending(items@)) by {
                assert forall|a: int, b: int|
                    #![trigger items@[a], items@[b]]
                    0 <= a < b < items@.len() implies text_lt(items@[a].0@, items@[b].0@) by {
                    let x = if a < i { a } else { a + 1 };
                    let y = if b < i { b } else { b + 1 };
                    assert(text_lt(before[x].0@, before[y].0@));
                }
            }
            assert forall|x: Seq<char>| x != key@ implies lookup_from(items@, x, 0)
                == lookup_from(before, x, 0) by {
                lookup_removed(before, i as int, x, 0);
            }
            lookup_finds(items@, key@, 0);
            if lookup_from(items@, key@, 0) is Some {
                let j = choose|j: int| 0 <= j < items@.len() && #[trigger] items@[j].0@ == key@;
                let y = if j < i { j } else { j + 1 };
                assert(before[y].0@ == key@);
                text_lt_irreflexive(key@);
                if y < i {
                    assert(text_lt(before[y].0@, before[i as int].0@));
                } else {
                    assert(text_lt(before[i as int].0@, before[y].0@));
                }
            }
        }
        self.items = items;
        Some(value)
    }

    /// Puts `value` under `key`, in place of a value that was there.
    pub fn insert(&mut self, key: String, value: V)
        ensures
            final(self).at(key@) == Some(value),
            forall|k: Seq<char>| k != key@ ==> #[trigger] final(self).at(k) == old(self).at(k),
    {
        proof {
            use_type_invariant(&*self);
        }
        let p = self.position(key.as_str());
        let ghost before = self.items@;
        let mut items: Vec<(String, V)> = Vec::new();
        std::mem::swap(&mut items, &mut self.items);
        if p < items.len() && same(items[p].0.as_str(), key.as_str()) {
            let ghost k = key@;
            items[p] = (key, value);
            proof {
                assert(items@ == before.update(p as int, (key, value)));
                assert(ascending(items@)) by {
                    assert forall|i: int, j: int|
                        #![trigger items@[i], items@[j]]
                        0 <= i < j < items@.len() implies text_lt(items@[i].0@, items@[j].0@) by {
                        assert(text_lt(before[i].0@, before[j].0@));
                    }
                }
                lookup_at(items@, 0, p as int);
                assert forall|x: Seq<char>| x != k implies lookup_from(items@, x, 0)
                    == lookup_from(before, x, 0) by {
                    lookup_replaced(before, p as int, (key, value), x, 0);
                }
            }
            self.items = items;
        } else {
            let ghost k = key@;
            proof {
                if p < items@.len() {
                    text_lt_total(key@, items@[p as int].0@);
                }
            }
            items.insert(p, (key, value));
            proof {
                assert(items@ == before.insert(p as int, (key, value)));
                assert(ascending(items@)) by {
                    assert forall|i: int, j: int|
                        #![trigger items@[i], items@[j]]
                        0 <= i < j < items@.len() implies text_lt(items@[i].0@, items@[j].0@) by {
                        let a = if i < p { i } else { i - 1 };
                        let b = if j < p { j } else { j - 1 };
                        if i != p && j != p {
                            assert(text_lt(before[a].0@, before[b].0@));
                        } else if i == p {
                            if b > p {
                                assert(text_lt(before[p as int].0@, before[b].0@));
                                text_lt_transitive(k, before[p as int].0@, before[b].0@);
                            }
                        } else {
                            assert(text_lt(before[a].0@, k));
                        }
                    }
                }
                lookup_at(items@, 0, p as int);
                assert forall|x: Seq<char>| x != k implies lookup_from(items@, x, 0)
                    == lookup_from(before, x, 0) by {
                    lookup_inserted(before, p as int, (key, value), x, 0);
                }
            }
            self.items = items;
        }
    }
}

impl<V> Default for NameMap<V> {
    fn default() -> (r: Self)
        ensures
            r.entries() == Seq::<(String, V)>::empty(),
    {
        NameMap::new()
    }
}

impl<V: Clone> Clone for NameMap<V> {
    fn clone(&self) -> (r: Self)
        ensures
            r.entries().len() == self.entries().len(),
            forall|i: int|
                #![trigger r.entries()[i]]
                0 <= i < r.entries().len() ==> r.entries()[i].0 == self.entries()[i].0 && cloned(
                    self.entries()[i].1,
                    r.entries()[i].1,
                ),
    {
        proof {
            use_type_invariant(self);
        }
        let mut items: Vec<(String, V)> = Vec::new();
        let mut i: usize = 0;
        while i < self.items.len()
            invariant
                i <= self.items.len(),
                items.len() == i,
                forall|j: int|
                    #![trigger items@[j]]
                    0 <= j < i ==> items@[j].0 == self.items@[j].0 && cloned(
                        self.items@[j].1,
                        items@[j].1,
                    ),
            decreases self.items.len() - i,
        {
            items.push((self.items[i].0.clone(), self.items[i].1.clone()));
            i = i + 1;
        }
        proof {
            assert forall|i: int, j: int|
                #![trigger items@[i], items@[j]]
                0 <= i < j < items@.len() implies text_lt(items@[i].0@, items@[j].0@) by {
                assert(text_lt(self.items@[i].0@, self.items@[j].0@));
            }
        }
        NameMap { items }
    }
}

/// Replacing an entry by one of the same key leaves the lookups of other keys as they were.
proof fn lookup_replaced<V>(s: Seq<(String, V)>, p: int, e: (String, V), k: Seq<char>, i: int)
    requires
        0 <= p < s.len(),
        0 <= i <= s.len(),
        s[p].0@ == e.0@,
        e.0@ != k,
    ensures
        lookup_from(s.update(p, e), k, i) == lookup_from(s, k, i),
    decreases s.len() - i,
{
    if i < s.len() {
        lookup_replaced(s, p, e, k, i + 1);
    }
}

/// Inserting an entry leaves the lookups of other keys as they were.
proof fn lookup_removed<V>(s: Seq<(String, V)>, p: int, k: Seq<char>, i: int)
    requires
        0 <= p < s.len(),
        0 <= i <= s.len(),
        s[p].0@ != k,
    ensures
        i <= p ==> lookup_from(s.remove(p), k, i) == lookup_from(s, k, i),
        i > p ==> lookup_from(s.remove(p), k, i - 1) == lookup_from(s, k, i),
    decreases s.len() - i,
{
    let t = s.remove(p);
    if i < s.len() {
        lookup_removed(s, p, k, i + 1);
        if i < p {
            assert(t[i] == s[i]);
        } else if i > p {
            assert(t[i - 1] == s[i]);
        }
    }
}

proof fn lookup_inserted<V>(s: Seq<(String, V)>, p: int, e: (String, V), k: Seq<char>, i: int)
    requires
        0 <= p <= s.len(),
        0 <= i <= s.len(),
        e.0@ != k,
    ensures
        lookup_from(s.insert(p, e), k, if i <= p { i } else { i + 1 }) == lookup_from(s, k, i),
    decreases s.len() - i,
{
    if i < s.len() {
        lookup_inserted(s, p, e, k, i + 1);
        if i == p {
            assert(lookup_from(s.insert(p, e), k, p + 1) == lookup_from(s, k, i)) by {
                assert(s.insert(p, e)[p + 1] == s[p]);
            }
        }
    } else if i == p {
        assert(lookup_from(s.insert(p, e), k, p + 1) is None);
    }
}

} // verus!
