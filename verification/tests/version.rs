//! Version ordering and firmware conditions.

use camera_config::version::{compare, in_range, parse};
use camera_config::{AvailableWhen, VersionCond, VersionScheme};
use std::cmp::Ordering::{Equal, Greater, Less};

#[test]
fn dotted_int_parses_variable_arity() {
    assert_eq!(parse("2.30", VersionScheme::DottedInt), Some(vec![2, 30]));
    assert_eq!(parse("1.2.3", VersionScheme::DottedInt), Some(vec![1, 2, 3]));
    assert_eq!(parse("5", VersionScheme::DottedInt), Some(vec![5]));
}

#[test]
fn component_wise_not_lexical() {
    assert_eq!(compare("2.9", "2.30", VersionScheme::DottedInt), Some(Less));
    assert_eq!(compare("2.30", "2.9", VersionScheme::DottedInt), Some(Greater));
    assert_eq!(compare("2.30", "2.30", VersionScheme::DottedInt), Some(Equal));
}

#[test]
fn zero_padding_for_differing_arity() {
    assert_eq!(compare("2.0", "2", VersionScheme::DottedInt), Some(Equal));
    assert_eq!(compare("2.0.1", "2", VersionScheme::DottedInt), Some(Greater));
    assert_eq!(compare("1.2.3", "1.2", VersionScheme::DottedInt), Some(Greater));
}

#[test]
fn unparseable_is_none_never_panics() {
    assert_eq!(parse("2.40a", VersionScheme::DottedInt), None);
    assert_eq!(parse("v2", VersionScheme::DottedInt), None);
    assert_eq!(parse("", VersionScheme::DottedInt), None);
    assert_eq!(compare("2.40a", "2.30", VersionScheme::DottedInt), None);
    assert_eq!(compare("2.30", "weird", VersionScheme::DottedInt), None);
}

#[test]
fn range_half_open() {
    let s = VersionScheme::DottedInt;
    assert!(in_range("1.31", Some("1.31"), Some("2.0"), s));
    assert!(in_range("1.40", Some("1.31"), Some("2.0"), s));
    assert!(!in_range("2.0", Some("1.31"), Some("2.0"), s));
    assert!(!in_range("1.30", Some("1.31"), Some("2.0"), s));
}

#[test]
fn range_unbounded_sides() {
    let s = VersionScheme::DottedInt;
    assert!(in_range("2.40", Some("2.40"), None, s));
    assert!(in_range("0.1", None, Some("1.0"), s));
    assert!(!in_range("1.0", None, Some("1.0"), s));
}

#[test]
fn range_failsoft_exact_match_for_unparseable() {
    let s = VersionScheme::DottedInt;
    assert!(in_range("beta", Some("beta"), None, s));
    assert!(!in_range("beta", Some("1.0"), Some("2.0"), s));
}

#[test]
fn version_cond_failsoft_on_unparseable() {
    let cond = VersionCond {
        lt: Some("2.40".into()),
        ..Default::default()
    };
    assert!(!cond.matches("beta", VersionScheme::DottedInt));
}

#[test]
fn a_condition_without_bounds_always_holds() {
    let open = AvailableWhen { firmware: None };
    assert!(open.matches("beta", VersionScheme::DottedInt));
    let unbounded = AvailableWhen {
        firmware: Some(VersionCond::default()),
    };
    assert!(unbounded.matches("2.30", VersionScheme::DottedInt));
}

#[test]
fn parts_are_trimmed_and_bounded() {
    assert_eq!(parse(" 2 . 30 ", VersionScheme::DottedInt), Some(vec![2, 30]));
    assert_eq!(parse("18446744073709551615", VersionScheme::DottedInt), Some(vec![u64::MAX]));
    assert_eq!(parse("18446744073709551616", VersionScheme::DottedInt), None);
}

#[test]
fn leading_zeros_do_not_count() {
    assert_eq!(parse("02.30", VersionScheme::DottedInt), Some(vec![2, 30]));
    assert_eq!(compare("02.30", "2.30", VersionScheme::DottedInt), Some(Equal));
    assert_eq!(compare("2.30", "2.30.0", VersionScheme::DottedInt), Some(Equal));
}

#[test]
fn ranges_that_meet_share_no_version() {
    let s = VersionScheme::DottedInt;
    for v in ["2.0", "2.29", "2.30", "02.30.0", "2.31", "2.40"] {
        let whole = in_range(v, Some("2.0"), Some("2.40"), s);
        let below = in_range(v, Some("2.0"), Some("2.30"), s);
        let above = in_range(v, Some("2.30"), Some("2.40"), s);
        assert_eq!(whole, below || above, "{v}");
        assert!(!(below && above), "{v}");
    }
}

#[test]
fn a_firmware_without_an_order_meets_no_bound() {
    let bounds = [
        VersionCond { lt: Some("9".into()), ..Default::default() },
        VersionCond { le: Some("9".into()), ..Default::default() },
        VersionCond { gt: Some("0".into()), ..Default::default() },
        VersionCond { ge: Some("0".into()), ..Default::default() },
    ];
    for bound in &bounds {
        assert!(!bound.matches("beta", VersionScheme::DottedInt));
        assert!(bound.matches("2.30", VersionScheme::DottedInt));
    }
}
