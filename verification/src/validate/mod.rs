//! The rules that a manifest must keep, and the lints on what it may leave open.
//!
//! A rule is a function from the declaration to the message of its violation, `None` where it is
//! kept. Rules are ordered: of several violations the first is the one that is reported.

pub mod accepted;
pub mod actions;
pub mod activities;
pub mod connections;
pub mod entries;
pub mod findings;
pub mod lints;
pub mod properties;
pub mod provenance;
pub mod sequences;
pub mod steps;
pub mod whole;

use crate::error::ManifestError;
use crate::text::{decimal, holds_text, join4, u64_text};
use vstd::prelude::*;

verus! {

/// Whether a verdict reports the violation `v`, or none where there is none.
pub open spec fn reports(r: Result<(), ManifestError>, v: Option<Seq<char>>) -> bool {
    match v {
        None => r is Ok,
        Some(t) => r matches Err(ManifestError::Contract(m)) && m@ == t,
    }
}

/// The first of two violations.
pub open spec fn first(a: Option<Seq<char>>, b: Option<Seq<char>>) -> Option<Seq<char>> {
    if a is Some {
        a
    } else {
        b
    }
}

/// The violation `message` where `broken` holds.
pub open spec fn broken_if(broken: bool, message: Seq<char>) -> Option<Seq<char>> {
    if broken {
        Some(message)
    } else {
        None
    }
}

/// `path` with the field `name` and the index `i` behind it.
pub open spec fn indexed(path: Seq<char>, name: Seq<char>, i: int) -> Seq<char> {
    path + name + decimal(i) + "]"@
}

/// `path` with the field `name` and the index `i` behind it.
pub(crate) fn index_path(path: &str, name: &str, i: usize) -> (r: String)
    ensures
        r@ == indexed(path@, name@, i as int),
{
    join4(path, name, u64_text(i as u64).as_str(), "]")
}

/// The set of the texts of a vector.
pub open spec fn text_set(v: Seq<String>) -> Set<Seq<char>> {
    Set::new(|s: Seq<char>| holds_text(v, s))
}

} // verus!
