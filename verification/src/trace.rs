//! Explanations of predicate and availability decisions.

use crate::predicate::{holds, leaf_effective, leaf_holds, leaf_observed, Leaf, Predicate, PropView};
use crate::text::{decimal, digits_of, join, join2, joined, number_text, u64_text, views};
use vstd::prelude::*;

verus! {

/// Evaluation of one predicate leaf, with the observed value that decided it.
#[derive(Debug, Clone, PartialEq)]
pub struct LeafEval {
    /// Property code as written (e.g. `"0xd212"`).
    pub prop: String,
    /// The value the client supplied for it, if any (`None` = not observed -> unmet).
    pub observed: Option<i64>,
    /// `observed & mask` when a mask is present, else `observed`.
    pub effective: Option<i64>,
    /// The comparators applied, e.g. `"mask 0xff, ne 0x0"`.
    pub test: String,
    pub passed: bool,
}

/// Outcome of evaluating a whole predicate, with every leaf recorded (no short-circuit - the
/// trace shows all of them).
#[derive(Debug, Clone, PartialEq)]
pub struct PredicateOutcome {
    pub passed: bool,
    pub leaves: Vec<LeafEval>,
    /// Connective structure, e.g. `"all of 2"`, `"any of 3"`, `"leaf"`, `"not(...)"`.
    pub summary: String,
}

/// Why an `operation_available` query answered as it did.
#[derive(Debug, Clone, PartialEq)]
pub struct ResolutionTrace {
    pub query: String,
    pub connection: String,
    pub mode: String,
    pub op: u16,
    pub outcome: String,
    pub connection_ok: bool,
    pub mode_ok: bool,
    /// The `requires` prerequisite evaluation, if the op declared one.
    pub requires: Option<PredicateOutcome>,
    /// One-line human reason for the outcome.
    pub reason: String,
}

/// What a leaf evaluation records.
pub struct LeafRecord {
    pub prop: Seq<char>,
    pub observed: Option<i64>,
    pub effective: Option<i64>,
    pub test: Seq<char>,
    pub passed: bool,
}

impl View for LeafEval {
    type V = LeafRecord;

    open spec fn view(&self) -> LeafRecord {
        LeafRecord {
            prop: self.prop@,
            observed: self.observed,
            effective: self.effective,
            test: self.test@,
            passed: self.passed,
        }
    }
}

/// The hexadecimal text of a 64-bit number, a negative one by its two's complement.
pub open spec fn hex_i64(n: i64) -> Seq<char> {
    if n < 0 {
        digits_of((n + 0x1_0000_0000_0000_0000) as nat, 16)
    } else {
        digits_of(n as nat, 16)
    }
}

/// The hexadecimal text of a 64-bit number.
fn hex_i64_text(n: i64) -> (r: String)
    ensures
        r@ == hex_i64(n),
{
    if n < 0 {
        number_text((n as i128 + 0x1_0000_0000_0000_0000) as u128, 16)
    } else {
        number_text(n as u128, 16)
    }
}

/// The text of a comparator, where it is set.
pub open spec fn test_part(label: Seq<char>, v: Option<i64>) -> Seq<Seq<char>> {
    match v {
        Some(x) => seq![label + hex_i64(x)],
        None => Seq::empty(),
    }
}

/// The texts of the mask and the comparators that a leaf sets.
pub open spec fn test_parts(l: Leaf) -> Seq<Seq<char>> {
    test_part("mask 0x"@, l.mask) + test_part("eq 0x"@, l.eq) + test_part("ne 0x"@, l.ne)
        + test_part("lt 0x"@, l.lt) + test_part("gt 0x"@, l.gt)
}

/// What the evaluation of a leaf records.
pub open spec fn leaf_record(l: Leaf, view: Map<u16, i64>) -> LeafRecord {
    LeafRecord {
        prop: l.prop@,
        observed: leaf_observed(l, view),
        effective: leaf_effective(l, view),
        test: joined(test_parts(l), ", "@),
        passed: leaf_holds(l, view),
    }
}

/// The records of every leaf of a predicate, from left to right.
pub open spec fn leaf_records(p: Predicate, view: Map<u16, i64>) -> Seq<LeafRecord>
    decreases p, 0int,
{
    match p {
        Predicate::All { all } => leaf_records_from(all@, view, 0),
        Predicate::Any { any } => leaf_records_from(any@, view, 0),
        Predicate::Not { not } => leaf_records(*not, view),
        Predicate::Leaf(l) => seq![leaf_record(l, view)],
    }
}

/// The records of every leaf of the predicates of `s` from `i` on.
pub open spec fn leaf_records_from(s: Seq<Predicate>, view: Map<u16, i64>, i: int) -> Seq<
    LeafRecord,
>
    decreases s, s.len() - i,
{
    if i < 0 || i >= s.len() {
        Seq::empty()
    } else {
        leaf_records(s[i], view) + leaf_records_from(s, view, i + 1)
    }
}

/// The records of a vector of evaluations.
pub open spec fn recorded(v: Seq<LeafEval>) -> Seq<LeafRecord> {
    Seq::new(v.len(), |i: int| v[i]@)
}

/// The connective structure of a predicate.
pub open spec fn summary_text(p: Predicate) -> Seq<char> {
    match p {
        Predicate::All { all } => "all of "@ + decimal(all@.len() as int),
        Predicate::Any { any } => "any of "@ + decimal(any@.len() as int),
        Predicate::Not { .. } => "not(...)"@,
        Predicate::Leaf(_) => "leaf"@,
    }
}

/// Appends the text of a comparator, where it is set.
fn push_test(tests: &mut Vec<String>, label: &str, v: Option<i64>)
    ensures
        views(final(tests)@) == views(old(tests)@) + test_part(label@, v),
{
    match v {
        Some(x) => {
            let ghost before = tests@;
            let part = join2(label, hex_i64_text(x).as_str());
            tests.push(part);
            proof {
                assert(views(tests@) == views(before) + test_part(label@, v));
            }
        },
        None => {
            proof {
                assert(views(tests@) + Seq::<Seq<char>>::empty() == views(tests@));
            }
        },
    }
}

/// Evaluates a leaf and records the evaluation.
fn explain_leaf(l: &Leaf, view: &PropView) -> (r: LeafEval)
    ensures
        r@ == leaf_record(*l, view.observed()),
{
    let observed = l.observed_in(view);
    let effective = l.effective(view);
    let passed = match effective {
        None => false,
        Some(v) => l.accepts(v),
    };
    let mut tests: Vec<String> = Vec::new();
    push_test(&mut tests, "mask 0x", l.mask);
    push_test(&mut tests, "eq 0x", l.eq);
    push_test(&mut tests, "ne 0x", l.ne);
    push_test(&mut tests, "lt 0x", l.lt);
    push_test(&mut tests, "gt 0x", l.gt);
    proof {
        assert(views(tests@) == test_parts(*l));
    }
    LeafEval { prop: l.prop.clone(), observed, effective, test: join(&tests, ", "), passed }
}

/// Evaluates a predicate and appends the record of every leaf.
fn collect(p: &Predicate, view: &PropView, leaves: &mut Vec<LeafEval>) -> (r: bool)
    ensures
        r == holds(*p, view.observed()),
        recorded(final(leaves)@) == recorded(old(leaves)@) + leaf_records(*p, view.observed()),
    decreases p,
{
    match p {
        Predicate::All { all } => {
            let mut result = true;
            let mut i: usize = 0;
            let ghost start = leaves@;
            proof {
                assert(recorded(start) + leaf_records_from(all@, view.observed(), 0) == recorded(
                    start,
                ) + leaf_records(*p, view.observed()));
            }
            while i < all.len()
                invariant
                    *p == (Predicate::All { all: *all }),
                    i <= all.len(),
                    result == (forall|j: int|
                        0 <= j < i ==> holds(all@[j], view.observed())),
                    recorded(leaves@) + leaf_records_from(all@, view.observed(), i as int)
                        == recorded(start) + leaf_records(*p, view.observed()),
                decreases all.len() - i,
            {
                proof {
                    assert(decreases_to!(*p => p->all));
                    assert(decreases_to!(all@ => all@[i as int]));
                }
                let ghost before = leaves@;
                let passed = collect(&all[i], view, leaves);
                proof {
                    assert(recorded(leaves@) + leaf_records_from(
                        all@,
                        view.observed(),
                        i + 1,
                    ) == recorded(before) + leaf_records_from(all@, view.observed(), i as int));
                }
                result = passed && result;
                i = i + 1;
            }
            proof {
                assert(recorded(leaves@) + Seq::<LeafRecord>::empty() == recorded(leaves@));
            }
            result
        },
        Predicate::Any { any } => {
            let mut result = false;
            let mut i: usize = 0;
            let ghost start = leaves@;
            proof {
                assert(recorded(start) + leaf_records_from(any@, view.observed(), 0) == recorded(
                    start,
                ) + leaf_records(*p, view.observed()));
            }
            while i < any.len()
                invariant
                    *p == (Predicate::Any { any: *any }),
                    i <= any.len(),
                    result == (exists|j: int|
                        0 <= j < i && holds(any@[j], view.observed())),
                    recorded(leaves@) + leaf_records_from(any@, view.observed(), i as int)
                        == recorded(start) + leaf_records(*p, view.observed()),
                decreases any.len() - i,
            {
                proof {
                    assert(decreases_to!(*p => p->any));
                    assert(decreases_to!(any@ => any@[i as int]));
                }
                let ghost before = leaves@;
                let passed = collect(&any[i], view, leaves);
                proof {
                    assert(recorded(leaves@) + leaf_records_from(
                        any@,
                        view.observed(),
                        i + 1,
                    ) == recorded(before) + leaf_records_from(any@, view.observed(), i as int));
                }
                result = passed || result;
                i = i + 1;
            }
            proof {
                assert(recorded(leaves@) + Seq::<LeafRecord>::empty() == recorded(leaves@));
            }
            result
        },
        Predicate::Not { not } => !collect(not, view, leaves),
        Predicate::Leaf(l) => {
            let leaf = explain_leaf(l, view);
            let passed = leaf.passed;
            let ghost before = leaves@;
            leaves.push(leaf);
            proof {
                assert(recorded(leaves@) == recorded(before) + seq![leaf@]);
            }
            passed
        },
    }
}

/// The connective structure of a predicate.
fn summary(p: &Predicate) -> (r: String)
    ensures
        r@ == summary_text(*p),
{
    match p {
        Predicate::All { all } => join2("all of ", u64_text(all.len() as u64).as_str()),
        Predicate::Any { any } => join2("any of ", u64_text(any.len() as u64).as_str()),
        Predicate::Not { .. } => "not(...)".to_owned(),
        Predicate::Leaf(_) => "leaf".to_owned(),
    }
}

/// What the explanation of a predicate says.
pub struct OutcomeRecord {
    pub passed: bool,
    pub leaves: Seq<LeafRecord>,
    pub summary: Seq<char>,
}

impl View for PredicateOutcome {
    type V = OutcomeRecord;

    open spec fn view(&self) -> OutcomeRecord {
        OutcomeRecord {
            passed: self.passed,
            leaves: recorded(self.leaves@),
            summary: self.summary@,
        }
    }
}

/// What the explanation of a predicate says: whether it holds, and the record of every leaf.
pub open spec fn explained(p: Predicate, view: Map<u16, i64>) -> OutcomeRecord {
    OutcomeRecord {
        passed: holds(p, view),
        leaves: leaf_records(p, view),
        summary: summary_text(p),
    }
}

impl Predicate {
    /// Evaluates, recording every leaf, also those that cannot change the outcome.
    pub fn explain(&self, view: &PropView) -> (r: PredicateOutcome)
        ensures
            r@ == explained(*self, view.observed()),
    {
        let mut leaves: Vec<LeafEval> = Vec::new();
        let passed = collect(self, view, &mut leaves);
        proof {
            assert(recorded(leaves@) == leaf_records(*self, view.observed()));
        }
        PredicateOutcome { passed, leaves, summary: summary(self) }
    }
}

/// The number of leaves of a predicate.
pub open spec fn leaf_count(p: Predicate) -> nat
    decreases p, 0int,
{
    match p {
        Predicate::All { all } => leaf_count_from(all@, 0),
        Predicate::Any { any } => leaf_count_from(any@, 0),
        Predicate::Not { not } => leaf_count(*not),
        Predicate::Leaf(_) => 1,
    }
}

/// The number of leaves of the predicates of `s` from `i` on.
pub open spec fn leaf_count_from(s: Seq<Predicate>, i: int) -> nat
    decreases s, s.len() - i,
{
    if i < 0 || i >= s.len() {
        0
    } else {
        leaf_count(s[i]) + leaf_count_from(s, i + 1)
    }
}

/// An explanation records every leaf, whatever the observed values are: nothing is cut short.
pub proof fn every_leaf_is_recorded(p: Predicate, view: Map<u16, i64>)
    ensures
        explained(p, view).leaves.len() == leaf_count(p),
    decreases p, 0int,
{
    match p {
        Predicate::All { all } => every_leaf_is_recorded_from(all@, view, 0),
        Predicate::Any { any } => every_leaf_is_recorded_from(any@, view, 0),
        Predicate::Not { not } => every_leaf_is_recorded(*not, view),
        Predicate::Leaf(_) => {},
    }
}

proof fn every_leaf_is_recorded_from(s: Seq<Predicate>, view: Map<u16, i64>, i: int)
    ensures
        leaf_records_from(s, view, i).len() == leaf_count_from(s, i),
    decreases s, s.len() - i,
{
    if 0 <= i < s.len() {
        every_leaf_is_recorded(s[i], view);
        every_leaf_is_recorded_from(s, view, i + 1);
    }
}

} // verus!
