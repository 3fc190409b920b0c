//! Predicates over observed property values, and the traces of their evaluation.

use camera_config::{Leaf, Predicate, PropView};

fn leaf(prop: &str) -> Leaf {
    Leaf {
        prop: prop.into(),
        mask: None,
        eq: None,
        ne: None,
        lt: None,
        gt: None,
    }
}

fn eq(prop: &str, value: i64) -> Predicate {
    Predicate::Leaf(Leaf { eq: Some(value), ..leaf(prop) })
}

fn ne(prop: &str, value: i64) -> Predicate {
    Predicate::Leaf(Leaf { ne: Some(value), ..leaf(prop) })
}

fn masked_ne(prop: &str, mask: i64, value: i64) -> Predicate {
    Predicate::Leaf(Leaf { mask: Some(mask), ne: Some(value), ..leaf(prop) })
}

#[test]
fn leaf_eq_and_ne() {
    let p = eq("0xdf01", 0x1600);
    assert!(p.eval(&PropView::new().with(0xdf01, 0x1600)));
    assert!(!p.eval(&PropView::new().with(0xdf01, 0x1400)));

    let ne = ne("0xdf01", 0);
    assert!(ne.eval(&PropView::new().with(0xdf01, 0x1600)));
    assert!(!ne.eval(&PropView::new().with(0xdf01, 0)));
}

#[test]
fn unobserved_property_is_unmet_not_error() {
    let p = ne("0xd212", 0);
    assert!(!p.eval(&PropView::new()));
}

#[test]
fn mask_applies_before_compare() {
    let p = masked_ne("0xd212", 0x00ff, 0x00);
    assert!(p.eval(&PropView::new().with(0xd212, 0xab01)));
    assert!(!p.eval(&PropView::new().with(0xd212, 0xab00)));
}

#[test]
fn lt_gt_bounds() {
    let p = Predicate::Leaf(Leaf { lt: Some(800), gt: Some(200), ..leaf("0x5007") });
    assert!(p.eval(&PropView::new().with(0x5007, 400)));
    assert!(!p.eval(&PropView::new().with(0x5007, 800)));
    assert!(!p.eval(&PropView::new().with(0x5007, 200)));
}

#[test]
fn connectives_all_any_not() {
    let all = Predicate::All { all: vec![eq("0xdf01", 0x1600), ne("0xd212", 0)] };
    let view = PropView::new().with(0xdf01, 0x1600).with(0xd212, 5);
    assert!(all.eval(&view));
    assert!(!all.eval(&PropView::new().with(0xdf01, 0x1600)));

    let any = Predicate::Any { any: vec![eq("0xdf01", 0x1600), eq("0xdf01", 0x1400)] };
    assert!(any.eval(&PropView::new().with(0xdf01, 0x1400)));
    assert!(!any.eval(&PropView::new().with(0xdf01, 0x9999)));

    let not = Predicate::Not { not: Box::new(eq("0xdf01", 0x1400)) };
    assert!(not.eval(&PropView::new().with(0xdf01, 0x1600)));
    assert!(!not.eval(&PropView::new().with(0xdf01, 0x1400)));
}

#[test]
fn nested_tree() {
    let p = Predicate::All {
        all: vec![
            Predicate::Any { any: vec![eq("0xdf01", 0x1600), eq("0xdf01", 0x1400)] },
            Predicate::Not { not: Box::new(eq("0xd17f", 1)) },
        ],
    };
    let ok = PropView::new().with(0xdf01, 0x1400).with(0xd17f, 0);
    assert!(p.eval(&ok));
    let blocked = PropView::new().with(0xdf01, 0x1400).with(0xd17f, 1);
    assert!(!p.eval(&blocked));
}

#[test]
fn empty_connectives_and_bad_codes() {
    assert!(Predicate::All { all: vec![] }.eval(&PropView::new()));
    assert!(!Predicate::Any { any: vec![] }.eval(&PropView::new()));
    assert!(!eq("not-a-code", 1).eval(&PropView::new().with(0, 1)));
}

#[test]
fn later_values_replace_earlier_ones() {
    let view = PropView::from_pairs(&vec![(0xd001, 1), (0xd001, 2), (0xd002, 3)]);
    assert_eq!(view.get(0xd001), Some(2));
    assert_eq!(view.get(0xd002), Some(3));
    assert_eq!(view.get(0xd003), None);
    assert!(!view.is_empty());
    assert!(PropView::new().is_empty());
}

#[test]
fn leaf_trace_shows_observed_effective_and_test() {
    let p = masked_ne("0xd212", 0x00ff, 0x00);
    let out = p.explain(&PropView::new().with(0xd212, 0xab00));
    assert!(!out.passed);
    let leaf = &out.leaves[0];
    assert_eq!(leaf.prop, "0xd212");
    assert_eq!(leaf.observed, Some(0xab00));
    assert_eq!(leaf.effective, Some(0x00));
    assert!(leaf.test.contains("mask 0xff"));
    assert!(leaf.test.contains("ne 0x0"));
    assert!(!leaf.passed);

    let out_ok = p.explain(&PropView::new().with(0xd212, 0xab01));
    assert!(out_ok.passed);
    assert_eq!(out_ok.leaves[0].effective, Some(0x01));
}

#[test]
fn unobserved_leaf_is_unmet_with_none_observed() {
    let p = ne("0xd212", 0);
    let out = p.explain(&PropView::new());
    assert!(!out.passed);
    assert_eq!(out.leaves[0].observed, None);
}

#[test]
fn connective_records_all_leaves_no_short_circuit() {
    let p = Predicate::All { all: vec![eq("0xdf01", 0x1600), ne("0xd212", 0)] };
    let out = p.explain(&PropView::new().with(0xdf01, 0x1400).with(0xd212, 5));
    assert_eq!(out.summary, "all of 2");
    assert_eq!(out.leaves.len(), 2);
    assert!(!out.leaves[0].passed);
    assert!(out.leaves[1].passed);
    assert!(!out.passed);
}

#[test]
fn an_explanation_passes_exactly_where_the_evaluation_does() {
    let p = Predicate::Any {
        any: vec![
            Predicate::Not { not: Box::new(eq("0xd001", 1)) },
            Predicate::All { all: vec![eq("0xd002", 2), ne("0xd003", 3)] },
        ],
    };
    for (a, b, c) in [(1, 2, 3), (1, 2, 4), (0, 0, 0), (1, 0, 0)] {
        let view = PropView::new().with(0xd001, a).with(0xd002, b).with(0xd003, c);
        let out = p.explain(&view);
        assert_eq!(out.passed, p.eval(&view));
        assert_eq!(out.leaves.len(), 3);
    }
}
