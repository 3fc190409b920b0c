//! Predicates over observed property values.

use crate::model::{hex_code, parse_hex_code};
use std::collections::BTreeMap;
use vstd::prelude::*;

verus! {

/// Observed property values supplied by the client: PTP code -> value.
#[derive(Debug, Clone, Default)]
pub struct PropView {
    values: BTreeMap<u16, i64>,
}

/// A node in the predicate tree.
#[derive(Debug, PartialEq, Eq)]
pub enum Predicate {
    All { all: Vec<Predicate> },
    Any { any: Vec<Predicate> },
    Not { not: Box<Predicate> },
    Leaf(Leaf),
}

/// A leaf: compare one property's (optionally masked) value.
#[derive(Debug, Clone, PartialEq, Eq)]
pub struct Leaf {
    /// Property code as a hex string, e.g. `"0xd212"`.
    pub prop: String,
    /// Applied to the observed value (`v & mask`) before comparison.
    pub mask: Option<i64>,
    pub eq: Option<i64>,
    pub ne: Option<i64>,
    pub lt: Option<i64>,
    pub gt: Option<i64>,
}

impl PropView {
    /// The observed values.
    pub closed spec fn observed(&self) -> Map<u16, i64> {
        self.values@
    }

    /// No observation.
    pub fn new() -> (r: Self)
        ensures
            r.observed() == Map::<u16, i64>::empty(),
    {
        PropView { values: BTreeMap::new() }
    }

    /// The view with `value` observed for `code`.
    pub fn with(self, code: u16, value: i64) -> (r: Self)
        ensures
            r.observed() == self.observed().insert(code, value),
    {
        let mut next = self;
        next.set(code, value);
        next
    }

    /// Records `value` for `code`.
    pub fn set(&mut self, code: u16, value: i64)
        ensures
            final(self).observed() == old(self).observed().insert(code, value),
    {
        broadcast use vstd::std_specs::btree::group_btree_axioms;
        self.values.insert(code, value);
    }

    /// The value observed for `code`.
    pub fn get(&self, code: u16) -> (r: Option<i64>)
        ensures
            r == observed_value(self.observed(), code),
    {
        broadcast use vstd::std_specs::btree::group_btree_axioms;
        match self.values.get(&code) {
            Some(v) => Some(*v),
            None => None,
        }
    }

    /// Whether nothing was observed.
    pub fn is_empty(&self) -> (r: bool)
        ensures
            r == (self.observed().len() == 0),
    {
        self.values.is_empty()
    }

    /// The view of a row of observations, a later one of a code in place of an earlier one.
    pub fn from_pairs(pairs: &Vec<(u16, i64)>) -> (r: Self)
        ensures
            r.observed() == observed_pairs(pairs@),
    {
        let mut view = PropView::new();
        let mut i: usize = 0;
        proof {
            assert(pairs@.take(0) == Seq::<(u16, i64)>::empty());
        }
        while i < pairs.len()
            invariant
                i <= pairs.len(),
                view.observed() == observed_pairs(pairs@.take(i as int)),
            decreases pairs.len() - i,
        {
            proof {
                assert(pairs@.take(i + 1).drop_last() == pairs@.take(i as int));
            }
            view.set(pairs[i].0, pairs[i].1);
            i = i + 1;
        }
        proof {
            assert(pairs@.take(pairs@.len() as int) == pairs@);
        }
        view
    }
}

/// The observations of a row of pairs, a later one of a code in place of an earlier one.
pub open spec fn observed_pairs(pairs: Seq<(u16, i64)>) -> Map<u16, i64>
    decreases pairs.len(),
{
    if pairs.len() == 0 {
        Map::empty()
    } else {
        observed_pairs(pairs.drop_last()).insert(pairs.last().0, pairs.last().1)
    }
}

/// The value observed for `code`, if one was.
pub open spec fn observed_value(view: Map<u16, i64>, code: u16) -> Option<i64> {
    if view.contains_key(code) {
        Some(view[code])
    } else {
        None
    }
}

/// The value observed for the property of a leaf; `None` too where the code is malformed.
pub open spec fn leaf_observed(l: Leaf, view: Map<u16, i64>) -> Option<i64> {
    match hex_code(l.prop@) {
        Some(code) => observed_value(view, code),
        None => None,
    }
}

/// The observed value under the mask.
pub open spec fn leaf_effective(l: Leaf, view: Map<u16, i64>) -> Option<i64> {
    match leaf_observed(l, view) {
        Some(v) => Some(
            match l.mask {
                Some(m) => v & m,
                None => v,
            },
        ),
        None => None,
    }
}

/// Whether every comparator that a leaf sets holds of `v`.
pub open spec fn comparators_hold(l: Leaf, v: i64) -> bool {
    &&& l.eq matches Some(x) ==> v == x
    &&& l.ne matches Some(x) ==> v != x
    &&& l.lt matches Some(x) ==> v < x
    &&& l.gt matches Some(x) ==> v > x
}

/// Whether a leaf holds: the property was observed, and every comparator holds.
pub open spec fn leaf_holds(l: Leaf, view: Map<u16, i64>) -> bool {
    leaf_effective(l, view) matches Some(v) && comparators_hold(l, v)
}

/// Whether a predicate holds of the observed values.
pub open spec fn holds(p: Predicate, view: Map<u16, i64>) -> bool
    decreases p,
{
    match p {
        Predicate::All { all } => forall|i: int| 0 <= i < all@.len() ==> holds(all@[i], view),
        Predicate::Any { any } => exists|i: int| 0 <= i < any@.len() && holds(any@[i], view),
        Predicate::Not { not } => !holds(*not, view),
        Predicate::Leaf(leaf) => leaf_holds(leaf, view),
    }
}

impl Predicate {
    /// Whether the predicate holds of the observed values. A leaf over a property that was not
    /// observed does not hold.
    pub fn eval(&self, view: &PropView) -> (r: bool)
        ensures
            r == holds(*self, view.observed()),
        decreases self,
    {
        match self {
            Predicate::All { all } => {
                let mut i: usize = 0;
                while i < all.len()
                    invariant
                        *self == (Predicate::All { all: *all }),
                        i <= all.len(),
                        forall|j: int| 0 <= j < i ==> holds(all@[j], view.observed()),
                    decreases all.len() - i,
                {
                    proof {
                        assert(decreases_to!(*self => self->all));
                        assert(decreases_to!(all@ => all@[i as int]));
                    }
                    if !all[i].eval(view) {
                        return false;
                    }
                    i = i + 1;
                }
                true
            },
            Predicate::Any { any } => {
                let mut i: usize = 0;
                while i < any.len()
                    invariant
                        *self == (Predicate::Any { any: *any }),
                        i <= any.len(),
                        forall|j: int| 0 <= j < i ==> !holds(any@[j], view.observed()),
                    decreases any.len() - i,
                {
                    proof {
                        assert(decreases_to!(*self => self->any));
                        assert(decreases_to!(any@ => any@[i as int]));
                    }
                    if any[i].eval(view) {
                        return true;
                    }
                    i = i + 1;
                }
                false
            },
            Predicate::Not { not } => !not.eval(view),
            Predicate::Leaf(leaf) => leaf.eval(view),
        }
    }
}

impl Leaf {
    /// Whether the leaf holds of the observed values.
    pub fn eval(&self, view: &PropView) -> (r: bool)
        ensures
            r == leaf_holds(*self, view.observed()),
    {
        match self.effective(view) {
            None => false,
            Some(v) => self.accepts(v),
        }
    }

    /// The value observed for the leaf's property.
    pub fn observed_in(&self, view: &PropView) -> (r: Option<i64>)
        ensures
            r == leaf_observed(*self, view.observed()),
    {
        match parse_hex_code(self.prop.as_str()) {
            None => None,
            Some(code) => view.get(code),
        }
    }

    /// The observed value under the mask.
    pub fn effective(&self, view: &PropView) -> (r: Option<i64>)
        ensures
            r == leaf_effective(*self, view.observed()),
    {
        match self.observed_in(view) {
            None => None,
            Some(v) => match self.mask {
                Some(m) => Some(v & m),
                None => Some(v),
            },
        }
    }

    /// Whether every comparator that is set holds of `v`.
    pub fn accepts(&self, v: i64) -> (r: bool)
        ensures
            r == comparators_hold(*self, v),
    {
        if let Some(x) = self.eq {
            if v != x {
                return false;
            }
        }
        if let Some(x) = self.ne {
            if v == x {
                return false;
            }
        }
        if let Some(x) = self.lt {
            if v >= x {
                return false;
            }
        }
        if let Some(x) = self.gt {
            if v <= x {
                return false;
            }
        }
        true
    }
}

} // verus!
