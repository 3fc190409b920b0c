//! What an accepted candidate leaves in a manifest.

use crate::generate::again::joined_scopes_are_a_set;
use crate::generate::apply::{
    applied, applies, apply_conflict, integers, label_for, observed_of, other_profiles,
    scope_connections, scope_modes, value_profiles_of, with_value_profiles,
};
use crate::generate::claims::{ProfileModel, Scope};
use crate::generate::integrity::{
    backlink_violation, candidate_for, candidate_ids, candidate_violation, candidates_violation,
    coverage_decides, integrity_violation, link_for, link_identities, link_violation,
    links_violation, review_refused, source_violation, unasked,
};
use crate::generate::write::{
    candidate_id, contents_digest, label_models, links_of, profiles_of, scopes_of, CandidateModel,
    LabelModel, LinkModel,
};
use crate::generate::{
    CandidateAssertion, Proposal, ProposalRecordStatus, ProposalReview, ReviewDisposition,
};
use crate::json::JsonModel;
use crate::model::{
    CameraManifest, DescriptorValue, ObservedScope, Operation, OperationKind, Property,
    PropertyAccess, PropertyValueProfile, ValueSource,
};
use crate::name_map::NameMap;
use crate::order::{arranged_is_sorted, entered_rises, keys_rise, models_of, Keyed};
use crate::sorted::texts_ascend;
use crate::text::views;
use vstd::prelude::*;

verus! {

/// What a supported property candidate makes of the property of its code: the access with the name
/// that it asserts, and its type; what it does not assert stays as it was, or is absent where the
/// property is new.
pub proof fn asserted_access_and_type_are_set(
    a: CameraManifest,
    b: CameraManifest,
    c: CandidateAssertion,
)
    requires
        c is Property,
        c->Property_supported,
        apply_conflict(a, c@) is None,
        applied(a, b, c@),
    ensures
        b.properties.at(c->Property_code@) is Some,
        ({
            let q = b.properties.at(c->Property_code@)->0;
            let old = a.properties.at(c->Property_code@);
            &&& c->access is Some && c->access->0@ == "readOnly"@ ==> q.access == Some(
                PropertyAccess::ReadOnly,
            )
            &&& c->access is Some && c->access->0@ == "readWrite"@ ==> q.access == Some(
                PropertyAccess::ReadWrite,
            )
            &&& c->access is Some ==> c->access->0@ == "readOnly"@ || c->access->0@
                == "readWrite"@
            &&& c->access is None ==> q.access == (if old is Some {
                old->0.access
            } else {
                None
            })
            &&& c->property_type is Some ==> q.ptype is Some && q.ptype->0@
                == c->property_type->0@
            &&& c->property_type is None && old is None ==> q.ptype is None
            &&& c->property_type is None && old is Some ==> (q.ptype is Some
                <==> old->0.ptype is Some)
            &&& c->property_type is None && old is Some && q.ptype is Some ==> q.ptype->0@
                == old->0.ptype->0@
        }),
        forall|k: Seq<char>|
            k != c->Property_code@ ==> #[trigger] b.properties.at(k) == a.properties.at(k),
        b.operations == a.operations,
        b.camera == a.camera,
{
    reveal_strlit("readOnly");
    reveal_strlit("readWrite");
    assert("readOnly"@.len() == 8 && "readWrite"@.len() == 9);
}

/// The descriptor that a supported property candidate asserts is noted as enumerated by the camera,
/// with its form and its integers; without one the descriptor stays.
pub proof fn asserted_descriptor_is_set(
    a: CameraManifest,
    b: CameraManifest,
    c: CandidateAssertion,
)
    requires
        c is Property,
        c->Property_supported,
        applied(a, b, c@),
    ensures
        b.properties.at(c->Property_code@) is Some,
        ({
            let q = b.properties.at(c->Property_code@)->0;
            let old = a.properties.at(c->Property_code@);
            &&& c->descriptor is None ==> q.descriptor == (if old is Some {
                old->0.descriptor
            } else {
                None
            })
            &&& c->descriptor is Some ==> {
                &&& q.descriptor is Some
                &&& q.descriptor->0.form@ == c->descriptor->0.form@
                &&& q.descriptor->0.source == Some(ValueSource::Camera)
                &&& q.descriptor->0.values@ == integers(
                    c->descriptor->0@.values,
                    c->descriptor->0@.values.len() as int,
                )
            }
        }),
{
}

/// Of the values that a camera enumerates the integers that fit are kept, in their order, and the
/// others are left out.
pub proof fn integers_are_kept_in_order(v: Seq<JsonModel>, n: int)
    requires
        0 < n <= v.len(),
    ensures
        integers(v, 0) == Seq::<DescriptorValue>::empty(),
        v[n - 1] is Unsigned && v[n - 1]->Unsigned_0 <= i64::MAX ==> integers(v, n) == integers(
            v,
            n - 1,
        ) + seq![DescriptorValue::Int(v[n - 1]->Unsigned_0 as i64)],
        v[n - 1] is Negative ==> integers(v, n) == integers(v, n - 1) + seq![
            DescriptorValue::Int(v[n - 1]->Negative_0),
        ],
        v[n - 1] !is Unsigned && v[n - 1] !is Negative ==> integers(v, n) == integers(v, n - 1),
        v[n - 1] is Unsigned && v[n - 1]->Unsigned_0 > i64::MAX ==> integers(v, n) == integers(
            v,
            n - 1,
        ),
{
}

/// The last label of a row that names a value names it.
proof fn last_label(v: Seq<LabelModel>, value: Seq<char>, n: int, k: int)
    requires
        0 <= k < n <= v.len(),
        v[k].0 == value,
        forall|j: int| k < j < n ==> (#[trigger] v[j]).0 != value,
    ensures
        label_for(v, value, n) == Some(v[k].1),
    decreases n,
{
    if k < n - 1 {
        assert(v[n - 1].0 != value);
        last_label(v, value, n - 1, k);
    }
}

/// A value that no label of a row names has none.
proof fn no_label(v: Seq<LabelModel>, value: Seq<char>, n: int)
    requires
        0 <= n <= v.len(),
        forall|j: int| 0 <= j < n ==> (#[trigger] v[j]).0 != value,
    ensures
        label_for(v, value, n) is None,
    decreases n,
{
    if n > 0 {
        assert(v[n - 1].0 != value);
        no_label(v, value, n - 1);
    }
}

/// A value that a supported property candidate labels has that label behind it; the label of any
/// other value stays.
pub proof fn asserted_labels_are_set(
    a: CameraManifest,
    b: CameraManifest,
    c: CandidateAssertion,
    k: int,
    value: Seq<char>,
)
    requires
        c is Property,
        c->Property_supported,
        applied(a, b, c@),
    ensures
        b.properties.at(c->Property_code@) is Some,
        ({
            let q = b.properties.at(c->Property_code@)->0;
            let old = a.properties.at(c->Property_code@);
            let e = c->labels.entries();
            &&& 0 <= k < e.len() && (forall|j: int|
                k < j < e.len() ==> (#[trigger] e[j]).0@ != e[k].0@) ==> q.labels.at(
                e[k].0@,
            ) is Some && q.labels.at(e[k].0@)->0@ == e[k].1@
            &&& (forall|j: int| 0 <= j < e.len() ==> (#[trigger] e[j]).0@ != value) && old is Some
                ==> ((q.labels.at(value) is Some <==> old->0.labels.at(value) is Some) && (
            q.labels.at(value) is Some ==> q.labels.at(value)->0@ == old->0.labels.at(value)->0@))
            &&& (forall|j: int| 0 <= j < e.len() ==> (#[trigger] e[j]).0@ != value) && old is None
                ==> q.labels.at(value) is None
        }),
{
    let e = c->labels.entries();
    let m = label_models(e);
    assert forall|j: int| 0 <= j < e.len() implies #[trigger] m[j] == (e[j].0@, e[j].1@) by {}
    if 0 <= k < e.len() && (forall|j: int| k < j < e.len() ==> (#[trigger] e[j]).0@ != e[k].0@) {
        assert forall|j: int| k < j < m.len() implies (#[trigger] m[j]).0 != e[k].0@ by {
            assert(e[j].0@ != e[k].0@);
        }
        last_label(m, e[k].0@, m.len() as int, k);
        let q = b.properties.at(c->Property_code@)->0;
        assert(crate::text::optional_text(q.labels.at(e[k].0@)) == Some(e[k].1@));
    }
    if forall|j: int| 0 <= j < e.len() ==> (#[trigger] e[j]).0@ != value {
        assert forall|j: int| 0 <= j < m.len() implies (#[trigger] m[j]).0 != value by {
            assert(e[j].0@ != value);
        }
        no_label(m, value, m.len() as int);
        let q = b.properties.at(c->Property_code@)->0;
        match a.properties.at(c->Property_code@) {
            Some(old) => {
                assert(crate::text::optional_text(q.labels.at(value)) == crate::text::optional_text(
                    old.labels.at(value),
                ));
            },
            None => {
                let p = choose|p: Property| #[trigger]
                    crate::generate::apply::fresh_property(p, c->Property_code@)
                        && crate::generate::apply::property_updated(p, q, c@);
                assert(p.labels.entries().len() == 0);
                assert(p.labels.at(value) is None);
                assert(crate::text::optional_text(q.labels.at(value)) is None);
            },
        }
    }
}

/// Of a row of profiles those of another connection or mode stay.
proof fn others_stay(v: Seq<ProfileModel>, p: ProfileModel, n: int, i: int)
    requires
        0 <= i < n <= v.len(),
        v[i].connection != p.connection || v[i].mode != p.mode,
    ensures
        other_profiles(v, p, n).contains(v[i]),
    decreases n,
{
    let all = other_profiles(v, p, n);
    let front = other_profiles(v, p, n - 1);
    if i == n - 1 {
        assert(all[front.len() as int] == v[i]);
    } else {
        others_stay(v, p, n - 1, i);
        let j = front.index_of(v[i]);
        assert(all[j] == v[i]);
    }
}

/// The last profile of a connection and mode that is put in stays, and so does one of another
/// connection or mode.
proof fn profile_put_in(v: Seq<ProfileModel>, more: Seq<ProfileModel>, n: int, x: ProfileModel, k: int)
    requires
        0 <= n <= more.len(),
        0 <= k <= n,
        k == 0 ==> v.contains(x),
        k > 0 ==> more[k - 1] == x,
        forall|j: int|
            k <= j < n ==> (#[trigger] more[j]).connection != x.connection || more[j].mode
                != x.mode,
    ensures
        with_value_profiles(v, more, n).contains(x),
    decreases n,
{
    let all = with_value_profiles(v, more, n);
    if n > 0 {
        let front = with_value_profiles(v, more, n - 1);
        let rest = other_profiles(front, more[n - 1], front.len() as int);
        if k == n {
            assert(all[rest.len() as int] == x);
        } else {
            profile_put_in(v, more, n - 1, x, k);
            let i = front.index_of(x);
            others_stay(front, more[n - 1], front.len() as int, i);
            let j = rest.index_of(x);
            assert(all[j] == x);
        }
    }
}

/// The value profiles that a supported property candidate asserts stand in the property: each that no
/// later one of its connection and mode replaces. A profile of a connection and mode that none of
/// them has stays.
pub proof fn asserted_profiles_are_set(
    a: CameraManifest,
    b: CameraManifest,
    c: CandidateAssertion,
    k: int,
    x: ProfileModel,
)
    requires
        c is Property,
        c->Property_supported,
        applied(a, b, c@),
    ensures
        b.properties.at(c->Property_code@) is Some,
        ({
            let q = b.properties.at(c->Property_code@)->0;
            let old = a.properties.at(c->Property_code@);
            let v = c->value_profiles@;
            &&& 0 <= k < v.len() && (forall|j: int|
                k < j < v.len() ==> (#[trigger] v[j])@.connection != v[k]@.connection || v[j]@.mode
                    != v[k]@.mode) ==> exists|i: int|
                0 <= i < q.value_profiles@.len() && (#[trigger] q.value_profiles@[i])@ == v[k]@
            &&& old is Some && (exists|i: int|
                0 <= i < old->0.value_profiles@.len() && (#[trigger] old->0.value_profiles@[i])@
                    == x) && (forall|j: int|
                0 <= j < v.len() ==> (#[trigger] v[j])@.connection != x.connection || v[j]@.mode
                    != x.mode) ==> exists|i: int|
                0 <= i < q.value_profiles@.len() && (#[trigger] q.value_profiles@[i])@ == x
        }),
{
    let q = b.properties.at(c->Property_code@)->0;
    let old = a.properties.at(c->Property_code@);
    let v = c->value_profiles@;
    let more = profiles_of(v);
    let p = match old {
        Some(p) => p,
        None => choose|p: Property| #[trigger]
            crate::generate::apply::fresh_property(p, c->Property_code@)
                && crate::generate::apply::property_updated(p, q, c@),
    };
    assert(crate::generate::apply::property_updated(p, q, c@));
    let start = value_profiles_of(p.value_profiles@);
    let all = with_value_profiles(start, more, more.len() as int);
    assert(value_profiles_of(q.value_profiles@) == crate::order::arranged::<PropertyValueProfile>(
        all,
    ));
    if 0 <= k < v.len() && (forall|j: int|
        k < j < v.len() ==> (#[trigger] v[j])@.connection != v[k]@.connection || v[j]@.mode
            != v[k]@.mode) {
        assert(more[k] == v[k]@);
        assert forall|j: int| k + 1 <= j < more.len() implies (#[trigger] more[j]).connection
            != v[k]@.connection || more[j].mode != v[k]@.mode by {
            assert(more[j] == v[j]@);
        }
        profile_put_in(start, more, more.len() as int, v[k]@, k + 1);
        profile_sorted_in(q, all, v[k]@);
    }
    if old is Some && (exists|i: int|
        0 <= i < old->0.value_profiles@.len() && (#[trigger] old->0.value_profiles@[i])@ == x) && (
    forall|j: int|
        0 <= j < v.len() ==> (#[trigger] v[j])@.connection != x.connection || v[j]@.mode
            != x.mode) {
        let i = choose|i: int|
            0 <= i < old->0.value_profiles@.len() && (#[trigger] old->0.value_profiles@[i])@ == x;
        assert(start[i] == x);
        assert forall|j: int| 0 <= j < more.len() implies (#[trigger] more[j]).connection
            != x.connection || more[j].mode != x.mode by {
            assert(more[j] == v[j]@);
        }
        profile_put_in(start, more, more.len() as int, x, 0);
        profile_sorted_in(q, all, x);
    }
}

/// Sorting keeps a profile.
proof fn profile_sorted_in(q: Property, all: Seq<ProfileModel>, x: ProfileModel)
    requires
        value_profiles_of(q.value_profiles@) == crate::order::arranged::<PropertyValueProfile>(all),
        all.contains(x),
    ensures
        exists|i: int|
            0 <= i < q.value_profiles@.len() && (#[trigger] q.value_profiles@[i])@ == x,
{
    broadcast use vstd::seq_lib::group_to_multiset_ensures;

    arranged_is_sorted::<PropertyValueProfile>(all);
    let sorted = value_profiles_of(q.value_profiles@);
    assert(all.to_multiset().count(x) > 0);
    assert(sorted.contains(x));
    let i = sorted.index_of(x);
    assert(sorted[i] == q.value_profiles@[i]@);
}

/// Whether a scope is one of a row of observed scopes.
pub open spec fn observed_in(v: Seq<ObservedScope>, connection: Seq<char>, mode: Seq<char>, state: Seq<char>) -> bool {
    exists|i: int|
        0 <= i < v.len() && (#[trigger] v[i]).connection@ == connection && v[i].mode@ == mode
            && v[i].state@ == state
}

/// A supported candidate is observed in each of its scopes, its modes are declared, and the modes
/// that were declared stay as they were.
pub proof fn asserted_scopes_are_observed(
    a: CameraManifest,
    b: CameraManifest,
    c: CandidateAssertion,
    k: int,
)
    requires
        applied(a, b, c@),
        c is Property && c->Property_supported || c is Operation && c->Operation_supported,
        0 <= k < (if c is Property {
            c->Property_scopes@.len()
        } else {
            c->Operation_scopes@.len()
        }),
    ensures
        ({
            let s = if c is Property {
                c->Property_scopes@[k]
            } else {
                c->Operation_scopes@[k]
            };
            let seen = if c is Property {
                b.properties.at(c->Property_code@)->0.observed_scopes@
            } else {
                b.operations.at(c->Operation_code@)->0.observed_scopes@
            };
            &&& observed_in(seen, s.connection@, s.mode@, s.state@)
            &&& b.modes.at(s.mode@) is Some
            &&& forall|m: Seq<char>|
                a.modes.at(m) is Some ==> #[trigger] b.modes.at(m) == a.modes.at(m)
        }),
{
    let scopes = if c is Property {
        c->Property_scopes@
    } else {
        c->Operation_scopes@
    };
    let s = scopes[k];
    let all = scopes_of(scopes);
    assert(all[k] == s@);
    assert(all[k].1 == s.mode@);
    let x = b.modes.at(s.mode@);
    assert(crate::generate::apply::observed_mode(all, s.mode@, all.len() as int));
    let (before, seen) = if c is Property {
        let code = c->Property_code@;
        let q = b.properties.at(code)->0;
        let p = match a.properties.at(code) {
            Some(p) => p,
            None => choose|p: Property| #[trigger]
                crate::generate::apply::fresh_property(p, code)
                    && crate::generate::apply::property_updated(p, q, c@),
        };
        assert(crate::generate::apply::property_updated(p, q, c@));
        (observed_of(p.observed_scopes@), q.observed_scopes@)
    } else {
        let code = c->Operation_code@;
        let q = b.operations.at(code)->0;
        match a.operations.at(code) {
            Some(p) => (observed_of(p.observed_scopes@), q.observed_scopes@),
            None => (Seq::empty(), q.observed_scopes@),
        }
    };
    joined_scopes_are_a_set(before, all, s@);
    assert(all.contains(all[k]));
    let v = observed_of(seen);
    assert(v.contains(s@));
    let i = v.index_of(s@);
    assert(v[i] == seen[i]@);
    assert(seen[i].connection@ == s.connection@);
}

/// The modes and the connections of the scopes of a row are all of theirs.
proof fn scope_parts_listed(scopes: Seq<Scope>, n: int)
    requires
        0 <= n <= scopes.len(),
    ensures
        keys_rise::<String>(scope_modes(scopes, n)),
        keys_rise::<String>(scope_connections(scopes, n)),
        forall|i: int|
            0 <= i < n ==> scope_modes(scopes, n).contains((#[trigger] scopes[i]).1)
                && scope_connections(scopes, n).contains(scopes[i].0),
    decreases n,
{
    if n > 0 {
        scope_parts_listed(scopes, n - 1);
        let modes = scope_modes(scopes, n - 1);
        let connections = scope_connections(scopes, n - 1);
        entered_rises::<String>(modes, scopes[n - 1].1);
        entered_rises::<String>(connections, scopes[n - 1].0);
        let all = scope_modes(scopes, n);
        let over = scope_connections(scopes, n);
        let h = choose|h: int|
            0 <= h < all.len() && String::key_of(#[trigger] all[h]) == String::key_of(
                scopes[n - 1].1,
            );
        assert(all[h] == scopes[n - 1].1);
        let g = choose|g: int|
            0 <= g < over.len() && String::key_of(#[trigger] over[g]) == String::key_of(
                scopes[n - 1].0,
            );
        assert(over[g] == scopes[n - 1].0);
        assert forall|i: int| 0 <= i < n implies all.contains((#[trigger] scopes[i]).1)
            && over.contains(scopes[i].0) by {
            if i < n - 1 {
                let x = modes.index_of(scopes[i].1);
                assert(all.contains(modes[x]));
                let y = connections.index_of(scopes[i].0);
                assert(over.contains(connections[y]));
            }
        }
    }
}

/// An operation that a manifest did not have is executable, has the modes and the connections of the
/// scopes that it was observed in, and no workflow, prerequisite or effect.
pub proof fn new_operations_are_scoped(
    a: CameraManifest,
    b: CameraManifest,
    c: CandidateAssertion,
    k: int,
)
    requires
        c is Operation,
        c->Operation_supported,
        a.operations.at(c->Operation_code@) is None,
        applied(a, b, c@),
        0 <= k < c->Operation_scopes@.len(),
    ensures
        b.operations.at(c->Operation_code@) is Some,
        ({
            let o = b.operations.at(c->Operation_code@)->0;
            let s = c->Operation_scopes@[k];
            &&& o.kind == OperationKind::Executable
            &&& o.workflows@.len() == 0 && o.requires is None && o.requires_gate is None
                && o.effects@.len() == 0
            &&& exists|i: int| 0 <= i < o.modes@.len() && (#[trigger] o.modes@[i])@ == s.mode@
            &&& exists|i: int|
                0 <= i < o.connections@.len() && (#[trigger] o.connections@[i])@ == s.connection@
        }),
{
    let o = b.operations.at(c->Operation_code@)->0;
    let s = c->Operation_scopes@[k];
    let scopes = scopes_of(c->Operation_scopes@);
    let n = scopes.len() as int;
    assert(scopes[k] == s@);
    scope_parts_listed(scopes, n);
    assert(views(o.modes@).contains(scopes[k].1));
    let i = views(o.modes@).index_of(s.mode@);
    assert(views(o.modes@)[i] == o.modes@[i]@);
    assert(views(o.connections@).contains(scopes[k].0));
    let j = views(o.connections@).index_of(s.connection@);
    assert(views(o.connections@)[j] == o.connections@[j]@);
}

/// Where one candidate alone is accepted, the manifest gains what it asserts, and it was no conflict.
pub proof fn one_acceptance_is_one_application(
    a: CameraManifest,
    b: CameraManifest,
    c: Seq<CandidateModel>,
    d: NameMap<ReviewDisposition>,
    i: int,
    k: int,
)
    requires
        0 <= i <= k < c.len(),
        d.at(c[k].id) == Some(ReviewDisposition::Accept),
        forall|j: int|
            i <= j < c.len() && j != k ==> d.at((#[trigger] c[j]).id) != Some(
                ReviewDisposition::Accept,
            ),
        applies(a, b, c, d, i),
    ensures
        apply_conflict(a, c[k].assertion) is None,
        applied(a, b, c[k].assertion),
    decreases c.len() - i,
{
    if i < k {
        assert(d.at(c[i].id) != Some(ReviewDisposition::Accept));
        one_acceptance_is_one_application(a, b, c, d, i + 1, k);
    } else {
        let x = choose|x: CameraManifest| #[trigger]
            applied(a, x, c[k].assertion) && applies(x, b, c, d, k + 1);
        none_accepted(x, b, c, d, k + 1);
    }
}

/// Where no further candidate is accepted, nothing further changes.
proof fn none_accepted(
    a: CameraManifest,
    b: CameraManifest,
    c: Seq<CandidateModel>,
    d: NameMap<ReviewDisposition>,
    i: int,
)
    requires
        0 <= i,
        forall|j: int|
            i <= j < c.len() ==> d.at((#[trigger] c[j]).id) != Some(ReviewDisposition::Accept),
        applies(a, b, c, d, i),
    ensures
        b == a,
    decreases c.len() - i,
{
    if i < c.len() {
        assert(d.at(c[i].id) != Some(ReviewDisposition::Accept));
        none_accepted(a, b, c, d, i + 1);
    }
}

/// Decisions that are all asked for are on candidates.
proof fn decisions_asked(
    ids: Seq<Seq<char>>,
    decisions: NameMap<ReviewDisposition>,
    n: int,
    i: int,
)
    requires
        0 <= i < n <= decisions.entries().len(),
        unasked(ids, decisions, n).len() == 0,
    ensures
        ids.contains(decisions.entries()[i].0@),
    decreases n,
{
    if i < n - 1 {
        decisions_asked(ids, decisions, n - 1, i);
    }
}

/// A review that binds has the schema of reviews, names the digest of the proposal, and decides on
/// every candidate and on nothing else; and the proposal is what its digest says.
pub proof fn binding_reviews_decide_on_every_candidate(p: Proposal, r: ProposalReview)
    requires
        review_refused(p, r, None),
    ensures
        r.schema@ == "camera-config-review/v1"@,
        r.proposal_digest@ == p.digest@,
        forall|i: int|
            0 <= i < p.candidates@.len() ==> r.decisions.at(
                (#[trigger] p.candidates@[i]).id@,
            ) is Some,
        forall|k: int|
            0 <= k < r.decisions.entries().len() ==> exists|i: int|
                0 <= i < p.candidates@.len() && (#[trigger] p.candidates@[i]).id@ == (
                #[trigger] r.decisions.entries()[k]).0@,
        p.digest@ == contents_digest(models_of(p.candidates@), links_of(p.record_dispositions@)),
{
    let ids = candidate_ids(models_of(p.candidates@));
    assert forall|i: int| 0 <= i < p.candidates@.len() implies r.decisions.at(
        (#[trigger] p.candidates@[i]).id@,
    ) is Some by {
        coverage_decides(ids, r.decisions, ids.len() as int, i);
        assert(ids[i] == p.candidates@[i].id@);
    }
    let e = r.decisions.entries();
    assert forall|k: int| 0 <= k < e.len() implies exists|i: int|
        0 <= i < p.candidates@.len() && (#[trigger] p.candidates@[i]).id@ == (#[trigger] e[k]).0@ by {
        decisions_asked(ids, r.decisions, e.len() as int, k);
        let i = ids.index_of(e[k].0@);
        assert(ids[i] == p.candidates@[i].id@);
    }
}

/// The first disposition of a record is one of the record.
proof fn link_is_of(l: Seq<LinkModel>, identity: Seq<char>, i: int) -> (k: int)
    requires
        link_for(l, identity, i) is Some,
    ensures
        0 <= k < l.len(),
        l[k] == link_for(l, identity, i)->0,
        l[k].identity == identity,
    decreases l.len() - i,
{
    if l[i].identity == identity {
        i
    } else {
        link_is_of(l, identity, i + 1)
    }
}

/// The first candidate with an id has the id.
proof fn candidate_is_of(c: Seq<CandidateModel>, id: Seq<char>, i: int) -> (k: int)
    requires
        candidate_for(c, id, i) is Some,
    ensures
        0 <= k < c.len(),
        c[k] == candidate_for(c, id, i)->0,
        c[k].id == id,
    decreases c.len() - i,
{
    if c[i].id == id {
        i
    } else {
        candidate_is_of(c, id, i + 1)
    }
}

/// Sources without a violation are disposed of, and linked back from.
proof fn source_links_back(c: CandidateModel, l: Seq<LinkModel>, k: int, s: int) -> (j: int)
    requires
        0 <= k <= s < c.sources.len(),
        source_violation(c, l, k) is None,
    ensures
        0 <= j < l.len(),
        l[j].identity == c.sources[s],
        l[j].candidates.contains(c.id),
    decreases c.sources.len() - k,
{
    if k < s {
        source_links_back(c, l, k + 1, s)
    } else {
        link_is_of(l, c.sources[s], 0)
    }
}

/// Ids without a violation are of candidates that draw on the record.
proof fn id_links_back(r: LinkModel, c: Seq<CandidateModel>, k: int, s: int) -> (j: int)
    requires
        0 <= k <= s < r.candidates.len(),
        backlink_violation(r, c, k) is None,
    ensures
        0 <= j < c.len(),
        c[j].id == r.candidates[s],
        c[j].sources.contains(r.identity),
    decreases r.candidates.len() - k,
{
    if k < s {
        id_links_back(r, c, k + 1, s)
    } else {
        candidate_is_of(c, r.candidates[s], 0)
    }
}

/// Where no candidate has a violation, none has.
proof fn candidate_sound(c: Seq<CandidateModel>, l: Seq<LinkModel>, i: int, k: int)
    requires
        0 <= i <= k < c.len(),
        candidates_violation(c, l, i) is None,
    ensures
        candidate_violation(c[k], l) is None,
    decreases c.len() - i,
{
    if i < k {
        candidate_sound(c, l, i + 1, k);
    }
}

/// Where no disposition has a violation, none has.
proof fn link_sound(l: Seq<LinkModel>, c: Seq<CandidateModel>, i: int, k: int)
    requires
        0 <= i <= k < l.len(),
        links_violation(l, c, i) is None,
    ensures
        link_violation(l[k], c) is None,
    decreases l.len() - i,
{
    if i < k {
        link_sound(l, c, i + 1, k);
    }
}

/// A candidate of a proposal that passes has the id of its assertion, and sources in ascending order,
/// at least one; each of its sources has a disposition that links back to it. The candidates and the
/// dispositions are sorted, and none is there twice.
pub proof fn sound_candidates_are_linked(p: Proposal, i: int, s: int) -> (j: int)
    requires
        integrity_violation(p) is None,
        0 <= i < p.candidates@.len(),
        0 <= s < p.candidates@[i].source_records@.len(),
    ensures
        p.schema@ == "camera-config-proposal/v1"@,
        p.observation_schema@ == "camera-observation/v1"@,
        p.candidates@[i].id@ == candidate_id(p.candidates@[i].assertion@),
        texts_ascend(views(p.candidates@[i].source_records@)),
        texts_ascend(candidate_ids(models_of(p.candidates@))),
        texts_ascend(link_identities(links_of(p.record_dispositions@))),
        0 <= j < p.record_dispositions@.len(),
        p.record_dispositions@[j].identity@ == p.candidates@[i].source_records@[s]@,
        exists|k: int|
            0 <= k < p.record_dispositions@[j].candidate_ids@.len() && (
            #[trigger] p.record_dispositions@[j].candidate_ids@[k])@ == p.candidates@[i].id@,
        p.digest@ == contents_digest(models_of(p.candidates@), links_of(p.record_dispositions@)),
{
    let c = models_of(p.candidates@);
    let l = links_of(p.record_dispositions@);
    candidate_sound(c, l, 0, i);
    assert(c[i] == p.candidates@[i].model());
    assert(c[i].sources[s] == p.candidates@[i].source_records@[s]@);
    let j = source_links_back(c[i], l, 0, s);
    let d = p.record_dispositions@[j];
    assert(l[j] == d@);
    let k = views(d.candidate_ids@).index_of(c[i].id);
    assert(views(d.candidate_ids@)[k] == d.candidate_ids@[k]@);
    j
}

/// A record of a proposal that passes is `Proposed` exactly where it names candidates; each that it
/// names is a candidate that draws on it.
pub proof fn sound_dispositions_are_linked(p: Proposal, j: int, s: int)
    requires
        integrity_violation(p) is None,
        0 <= j < p.record_dispositions@.len(),
    ensures
        p.record_dispositions@[j].status == ProposalRecordStatus::Proposed
            <==> p.record_dispositions@[j].candidate_ids@.len() > 0,
        0 <= s < p.record_dispositions@[j].candidate_ids@.len() ==> exists|i: int|
            0 <= i < p.candidates@.len() && (#[trigger] p.candidates@[i]).id@
                == p.record_dispositions@[j].candidate_ids@[s]@ && views(
                p.candidates@[i].source_records@,
            ).contains(p.record_dispositions@[j].identity@),
{
    let c = models_of(p.candidates@);
    let l = links_of(p.record_dispositions@);
    let d = p.record_dispositions@[j];
    link_sound(l, c, 0, j);
    assert(l[j] == d@);
    assert(views(d.candidate_ids@).len() == d.candidate_ids@.len());
    if 0 <= s < d.candidate_ids@.len() {
        assert(l[j].candidates[s] == d.candidate_ids@[s]@);
        let i = id_links_back(l[j], c, 0, s);
        assert(c[i] == p.candidates@[i].model());
    }
}

/// A proposal that is not what its digest says does not pass, nor does one of another schema.
pub proof fn unsound_proposals_do_not_pass(p: Proposal)
    ensures
        p.schema@ != "camera-config-proposal/v1"@ ==> integrity_violation(p) is Some,
        p.observation_schema@ != "camera-observation/v1"@ ==> integrity_violation(p) is Some,
        p.digest@ != contents_digest(models_of(p.candidates@), links_of(p.record_dispositions@))
            ==> integrity_violation(p) is Some,
{
}

} // verus!
