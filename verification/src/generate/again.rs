//! What applying a candidate leaves alone, and that applying it again changes nothing.

use crate::generate::apply::{
    applied, apply_conflict, fresh_operation, fresh_property, label_for, observed_of,
    operation_applied, optional_key_sorts, other_profiles, property_applied, property_updated,
    same_operation_rest, same_property_rest, same_rest, scope_union, value_profiles_of,
    widened_operation, with_scopes, with_value_profiles,
};
use crate::generate::claims::{ProfileModel, Scope};
use crate::generate::propose::either;
use crate::generate::write::AssertionModel;
use crate::model::{
    CameraIdentity, CameraManifest, Descriptor, ObservedScope, Operation, Property,
    PropertyValueProfile,
};
use crate::name_map::NameMap;
use crate::order::{
    arranged, arranged_by_key, arranged_keeps_order, entered_again, entered_rises, holds_key,
    key_lt, key_lt_irreflexive, key_lt_transitive, keys_rise, of_key, Keyed, SortKey,
};
use crate::text::optional_text;
use vstd::prelude::*;

verus! {

/// Entering scopes in a strictly ascending row leaves it strictly ascending, with each of them in
/// it, and what was there stays.
proof fn scopes_entered(v: Seq<Scope>, more: Seq<Scope>, n: int)
    requires
        keys_rise::<ObservedScope>(v),
        0 <= n <= more.len(),
    ensures
        keys_rise::<ObservedScope>(with_scopes(v, more, n)),
        forall|i: int|
            0 <= i < n ==> holds_key::<ObservedScope>(
                with_scopes(v, more, n),
                ObservedScope::key_of(#[trigger] more[i]),
            ),
    decreases n,
{
    if n > 0 {
        scopes_entered(v, more, n - 1);
        let front = with_scopes(v, more, n - 1);
        let all = with_scopes(v, more, n);
        entered_rises::<ObservedScope>(front, more[n - 1]);
        assert forall|i: int| 0 <= i < n implies holds_key::<ObservedScope>(
            all,
            ObservedScope::key_of(#[trigger] more[i]),
        ) by {
            if i < n - 1 {
                let key = ObservedScope::key_of(more[i]);
                let k = choose|k: int|
                    0 <= k < front.len() && ObservedScope::key_of(#[trigger] front[k]) == key;
                assert(all.contains(front[k]));
                let l = all.index_of(front[k]);
                assert(ObservedScope::key_of(all[l]) == key);
            }
        }
    }
}

/// A strictly ascending row, entered element by element, is itself.
proof fn rising_scopes(u: Seq<Scope>, n: int)
    requires
        keys_rise::<ObservedScope>(u),
        0 <= n <= u.len(),
    ensures
        with_scopes(Seq::empty(), u, n) == u.take(n),
    decreases n,
{
    if n > 0 {
        rising_scopes(u, n - 1);
        let front = u.take(n - 1);
        assert(u.take(n) == front.push(u[n - 1]));
        if n > 1 {
            assert(front.last() == u[n - 2]);
            let x = ObservedScope::key_of(u[n - 2]);
            let y = ObservedScope::key_of(u[n - 1]);
            assert(key_lt(x, y));
            key_lt_irreflexive(x);
            if key_lt(y, x) {
                key_lt_transitive(x, y, x);
            }
        } else {
            assert(front == Seq::<Scope>::empty());
            assert(seq![u[0]] == u.take(1));
        }
    } else {
        assert(u.take(0) == Seq::<Scope>::empty());
    }
}

/// Entering scopes that a strictly ascending row holds changes nothing.
proof fn scopes_entered_again(u: Seq<Scope>, more: Seq<Scope>, n: int)
    requires
        keys_rise::<ObservedScope>(u),
        0 <= n <= more.len(),
        forall|i: int|
            0 <= i < n ==> holds_key::<ObservedScope>(u, ObservedScope::key_of(#[trigger] more[i])),
    ensures
        with_scopes(u, more, n) == u,
    decreases n,
{
    if n > 0 {
        scopes_entered_again(u, more, n - 1);
        assert(holds_key::<ObservedScope>(u, ObservedScope::key_of(more[n - 1])));
        entered_again::<ObservedScope>(u, more[n - 1]);
    }
}

/// Adding scopes twice is adding them once.
proof fn scopes_joined_again(v: Seq<Scope>, more: Seq<Scope>)
    ensures
        scope_union(scope_union(v, more), more) == scope_union(v, more),
{
    let start = with_scopes(Seq::empty(), v, v.len() as int);
    let u = scope_union(v, more);
    scopes_entered(Seq::empty(), v, v.len() as int);
    scopes_entered(start, more, more.len() as int);
    rising_scopes(u, u.len() as int);
    assert(u.take(u.len() as int) == u);
    scopes_entered_again(u, more, more.len() as int);
}

/// The profiles of other connections or modes are those with another key.
proof fn others_by_key(v: Seq<ProfileModel>, p: ProfileModel, n: int, k: SortKey)
    requires
        0 <= n <= v.len(),
    ensures
        of_key::<PropertyValueProfile>(other_profiles(v, p, n), k) == (if k
            == PropertyValueProfile::key_of(p) {
            Seq::empty()
        } else {
            of_key::<PropertyValueProfile>(v.take(n), k)
        }),
    decreases n,
{
    if n > 0 {
        others_by_key(v, p, n - 1, k);
        let x = v[n - 1];
        let front = other_profiles(v, p, n - 1);
        assert(v.take(n).drop_last() == v.take(n - 1));
        assert(v.take(n).last() == x);
        optional_key_sorts(x.connection, p.connection);
        optional_key_sorts(x.mode, p.mode);
        assert(front.push(x).drop_last() == front);
    }
}

/// The last of the first `n` profiles that has a key.
spec fn last_of_key(more: Seq<ProfileModel>, k: SortKey, n: int) -> Option<ProfileModel>
    decreases n,
{
    if n <= 0 || n > more.len() {
        None
    } else if PropertyValueProfile::key_of(more[n - 1]) == k {
        Some(more[n - 1])
    } else {
        last_of_key(more, k, n - 1)
    }
}

/// Of the profiles of one connection and mode, the last one that is put in stays, and those that
/// were there stay where none is put in.
proof fn profiles_by_key(v: Seq<ProfileModel>, more: Seq<ProfileModel>, n: int, k: SortKey)
    requires
        0 <= n <= more.len(),
    ensures
        of_key::<PropertyValueProfile>(with_value_profiles(v, more, n), k) == (match last_of_key(
            more,
            k,
            n,
        ) {
            Some(p) => seq![p],
            None => of_key::<PropertyValueProfile>(v, k),
        }),
    decreases n,
{
    if n > 0 {
        profiles_by_key(v, more, n - 1, k);
        let front = with_value_profiles(v, more, n - 1);
        let p = more[n - 1];
        others_by_key(front, p, front.len() as int, k);
        assert(front.take(front.len() as int) == front);
        let others = other_profiles(front, p, front.len() as int);
        assert(others.push(p).drop_last() == others);
        if PropertyValueProfile::key_of(p) == k {
            assert(of_key::<PropertyValueProfile>(others.push(p), k) == seq![p]);
        }
    }
}

/// Putting value profiles in twice is putting them in once.
proof fn profiles_merged_again(v: Seq<ProfileModel>, more: Seq<ProfileModel>)
    ensures
        ({
            let n = more.len() as int;
            let once = arranged::<PropertyValueProfile>(with_value_profiles(v, more, n));
            arranged::<PropertyValueProfile>(with_value_profiles(once, more, n)) == once
        }),
{
    let n = more.len() as int;
    let first = with_value_profiles(v, more, n);
    let once = arranged::<PropertyValueProfile>(first);
    let second = with_value_profiles(once, more, n);
    assert forall|k: SortKey| #[trigger] of_key::<PropertyValueProfile>(second, k) == of_key::<
        PropertyValueProfile,
    >(first, k) by {
        profiles_by_key(once, more, n, k);
        profiles_by_key(v, more, n, k);
        arranged_keeps_order::<PropertyValueProfile>(first, k);
    }
    arranged_by_key::<PropertyValueProfile>(second, first);
}

/// Whether two cameras are the same, apart from how they are stored.
pub open spec fn same_camera(a: CameraIdentity, b: CameraIdentity) -> bool {
    a.manufacturer@ == b.manufacturer@ && a.model@ == b.model@ && a.firmware@ == b.firmware@
        && a.identities == b.identities
}

/// Whether two operations are the same, apart from how they are stored.
pub open spec fn same_operation(a: Operation, b: Operation) -> bool {
    same_operation_rest(a, b) && observed_of(a.observed_scopes@) == observed_of(b.observed_scopes@)
}

/// Whether two descriptors are the same, apart from how they are stored.
pub open spec fn same_descriptor(a: Option<Descriptor>, b: Option<Descriptor>) -> bool {
    match (a, b) {
        (Some(x), Some(y)) => x.form@ == y.form@ && x.values@ == y.values@ && x.source == y.source,
        (None, None) => true,
        _ => false,
    }
}

/// Whether two properties are the same, apart from how they are stored.
pub open spec fn same_property(a: Property, b: Property) -> bool {
    &&& same_property_rest(a, b)
    &&& optional_text(a.ptype) == optional_text(b.ptype)
    &&& a.access == b.access
    &&& same_descriptor(a.descriptor, b.descriptor)
    &&& forall|k: Seq<char>|
        #![trigger b.labels.at(k)]
        optional_text(a.labels.at(k)) == optional_text(b.labels.at(k))
    &&& value_profiles_of(a.value_profiles@) == value_profiles_of(b.value_profiles@)
    &&& observed_of(a.observed_scopes@) == observed_of(b.observed_scopes@)
}

/// Whether two sets of operations are the same, apart from how they are stored.
pub open spec fn same_operations(a: NameMap<Operation>, b: NameMap<Operation>) -> bool {
    forall|k: Seq<char>|
        #![trigger b.at(k)]
        match (a.at(k), b.at(k)) {
            (Some(x), Some(y)) => same_operation(x, y),
            (None, None) => true,
            _ => false,
        }
}

/// Whether two sets of properties are the same, apart from how they are stored.
pub open spec fn same_properties(a: NameMap<Property>, b: NameMap<Property>) -> bool {
    forall|k: Seq<char>|
        #![trigger b.at(k)]
        match (a.at(k), b.at(k)) {
            (Some(x), Some(y)) => same_property(x, y),
            (None, None) => true,
            _ => false,
        }
}

/// Whether two manifests are the same, apart from how they are stored.
pub open spec fn same_manifest(a: CameraManifest, b: CameraManifest) -> bool {
    &&& same_rest(a, b)
    &&& same_camera(a.camera, b.camera)
    &&& same_operations(a.operations, b.operations)
    &&& same_properties(a.properties, b.properties)
    &&& forall|k: Seq<char>| #[trigger] b.modes.at(k) == a.modes.at(k)
    &&& forall|k: Seq<char>| #[trigger] b.evidence.at(k) == a.evidence.at(k)
}

/// A property is the same as itself.
proof fn property_is_itself(p: Property)
    ensures
        same_property(p, p),
{
}

/// An operation observed again in the same scopes is the same.
proof fn operation_again(
    a: NameMap<Operation>,
    b: NameMap<Operation>,
    c: NameMap<Operation>,
    code: Seq<char>,
    scopes: Seq<Scope>,
)
    requires
        operation_applied(a, b, code, scopes),
        operation_applied(b, c, code, scopes),
    ensures
        same_operations(b, c),
{
    assert forall|k: Seq<char>|
        #![trigger c.at(k)]
        match (b.at(k), c.at(k)) {
            (Some(x), Some(y)) => same_operation(x, y),
            (None, None) => true,
            _ => false,
        } by {
        if k == code {
            let p = b.at(code)->0;
            match a.at(code) {
                Some(o) => {
                    assert(widened_operation(o, p, scopes));
                    scopes_joined_again(observed_of(o.observed_scopes@), scopes);
                },
                None => {
                    assert(fresh_operation(p, code, scopes));
                    scopes_joined_again(Seq::empty(), scopes);
                },
            }
        } else {
            assert(c.at(k) == b.at(k));
        }
    }
}

/// A property that gains again what it gained is the same.
proof fn updated_again(p: Property, q: Property, r: Property, m: AssertionModel)
    requires
        property_updated(p, q, m),
        property_updated(q, r, m),
    ensures
        same_property(q, r),
{
    if let AssertionModel::Property { labels, profiles, scopes, .. } = m {
        profiles_merged_again(value_profiles_of(p.value_profiles@), profiles);
        scopes_joined_again(observed_of(p.observed_scopes@), scopes);
        let n = labels.len() as int;
        assert forall|k: Seq<char>|
            #![trigger r.labels.at(k)]
            optional_text(q.labels.at(k)) == optional_text(r.labels.at(k)) by {
            assert(optional_text(r.labels.at(k)) == either(
                label_for(labels, k, n),
                optional_text(q.labels.at(k)),
            ));
            assert(optional_text(q.labels.at(k)) == either(
                label_for(labels, k, n),
                optional_text(p.labels.at(k)),
            ));
        }
    }
}

/// A property that is applied again is the same.
proof fn property_again(
    a: NameMap<Property>,
    b: NameMap<Property>,
    c: NameMap<Property>,
    code: Seq<char>,
    m: AssertionModel,
)
    requires
        property_applied(a, b, code, m),
        property_applied(b, c, code, m),
    ensures
        same_properties(b, c),
{
    assert forall|k: Seq<char>|
        #![trigger c.at(k)]
        match (b.at(k), c.at(k)) {
            (Some(x), Some(y)) => same_property(x, y),
            (None, None) => true,
            _ => false,
        } by {
        if k == code {
            let q = b.at(code)->0;
            let r = c.at(code)->0;
            match a.at(code) {
                Some(p) => {
                    updated_again(p, q, r, m);
                },
                None => {
                    let p = choose|p: Property|
                        #[trigger] fresh_property(p, code) && property_updated(p, q, m);
                    updated_again(p, q, r, m);
                },
            }
        } else {
            assert(c.at(k) == b.at(k));
            if let Some(p) = b.at(k) {
                property_is_itself(p);
            }
        }
    }
}

/// Applying an accepted candidate a second time leaves the manifest as it is.
proof fn applied_again(
    a: CameraManifest,
    b: CameraManifest,
    c: CameraManifest,
    m: AssertionModel,
)
    requires
        apply_conflict(a, m) is None,
        applied(a, b, m),
        applied(b, c, m),
    ensures
        same_manifest(b, c),
{
    match m {
        AssertionModel::CameraIdentity { .. } => {
            assert(same_operations(b.operations, c.operations));
            assert(same_properties(b.properties, c.properties));
        },
        AssertionModel::Operation { code, supported, scopes } => {
            if supported {
                operation_again(a.operations, b.operations, c.operations, code, scopes);
                assert(same_properties(b.properties, c.properties));
                assert forall|k: Seq<char>| #[trigger] c.modes.at(k) == b.modes.at(k) by {
                    assert(b.modes.at(k) == b.modes.at(k));
                }
            } else {
                assert(same_operations(b.operations, c.operations));
                assert(same_properties(b.properties, c.properties));
            }
        },
        AssertionModel::Property { code, supported, scopes, .. } => {
            if supported {
                property_again(a.properties, b.properties, c.properties, code, m);
                assert(same_operations(b.operations, c.operations));
                assert forall|k: Seq<char>| #[trigger] c.modes.at(k) == b.modes.at(k) by {
                    assert(b.modes.at(k) == b.modes.at(k));
                }
            } else {
                assert(same_operations(b.operations, c.operations));
                assert(same_properties(b.properties, c.properties));
            }
        },
    }
}

/// Applying an accepted candidate a second time is no conflict, and leaves the manifest as it is.
pub proof fn applying_again_changes_nothing(
    a: CameraManifest,
    b: CameraManifest,
    c: CameraManifest,
    m: AssertionModel,
)
    requires
        apply_conflict(a, m) is None,
        applied(a, b, m),
    ensures
        apply_conflict(b, m) is None,
        applied(b, c, m) ==> same_manifest(b, c),
{
    if applied(b, c, m) {
        applied_again(a, b, c, m);
    }
}

/// Entering scopes in a strictly ascending row adds them and nothing else.
proof fn scopes_added(v: Seq<Scope>, more: Seq<Scope>, n: int, s: Scope)
    requires
        keys_rise::<ObservedScope>(v),
        0 <= n <= more.len(),
    ensures
        with_scopes(v, more, n).contains(s) == (v.contains(s) || more.take(n).contains(s)),
    decreases n,
{
    if n > 0 {
        scopes_added(v, more, n - 1, s);
        scopes_entered(v, more, n - 1);
        let front = with_scopes(v, more, n - 1);
        let all = with_scopes(v, more, n);
        let x = more[n - 1];
        entered_rises::<ObservedScope>(front, x);
        assert(more.take(n) == more.take(n - 1).push(x));
        if more.take(n - 1).contains(s) {
            let i = more.take(n - 1).index_of(s);
            assert(more.take(n)[i] == s);
        }
        assert(more.take(n)[n - 1] == x);
        if all.contains(s) && s != x {
            let i = all.index_of(s);
            assert(all[i] == x || front.contains(all[i]));
        }
        if front.contains(s) {
            let i = front.index_of(s);
            assert(all.contains(front[i]));
        }
        if s == x {
            let i = choose|i: int|
                0 <= i < all.len() && ObservedScope::key_of(#[trigger] all[i])
                    == ObservedScope::key_of(x);
            assert(all[i] == x);
        }
        if more.take(n).contains(s) && s != x {
            let i = more.take(n).index_of(s);
            assert(more.take(n - 1)[i] == s);
        }
    } else {
        assert(more.take(0) == Seq::<Scope>::empty());
    }
}

/// The scopes of two rows together are strictly ascending, so that none is there twice, and are
/// those of the one row and those of the other.
pub proof fn joined_scopes_are_a_set(v: Seq<Scope>, more: Seq<Scope>, s: Scope)
    ensures
        keys_rise::<ObservedScope>(scope_union(v, more)),
        scope_union(v, more).contains(s) == (v.contains(s) || more.contains(s)),
{
    let start = with_scopes(Seq::empty(), v, v.len() as int);
    scopes_entered(Seq::empty(), v, v.len() as int);
    scopes_entered(start, more, more.len() as int);
    scopes_added(Seq::empty(), v, v.len() as int, s);
    scopes_added(start, more, more.len() as int, s);
    assert(v.take(v.len() as int) == v);
    assert(more.take(more.len() as int) == more);
}

/// A candidate on what is not supported conflicts with no manifest, and leaves it as it is.
pub proof fn unsupported_changes_nothing(a: CameraManifest, b: CameraManifest, m: AssertionModel)
    requires
        applied(a, b, m),
        match m {
            AssertionModel::Operation { supported, .. } => !supported,
            AssertionModel::Property { supported, .. } => !supported,
            AssertionModel::CameraIdentity { .. } => false,
        },
    ensures
        b == a,
        apply_conflict(a, m) is None,
{
}

/// A camera conflicts with an identity exactly where it names a manufacturer, model or firmware that
/// is another; an identity that does not conflict fills what is empty, and changes nothing else of
/// the camera.
pub proof fn identity_never_overwrites(
    a: CameraManifest,
    b: CameraManifest,
    manufacturer: Seq<char>,
    model: Seq<char>,
    firmware: Seq<char>,
)
    ensures
        apply_conflict(a, AssertionModel::CameraIdentity { manufacturer, model, firmware }) is Some
            <==> {
            ||| a.camera.manufacturer@.len() > 0 && a.camera.manufacturer@ != manufacturer
            ||| a.camera.model@.len() > 0 && a.camera.model@ != model
            ||| a.camera.firmware@.len() > 0 && a.camera.firmware@ != firmware
        },
        apply_conflict(a, AssertionModel::CameraIdentity { manufacturer, model, firmware }) is None
            && applied(a, b, AssertionModel::CameraIdentity { manufacturer, model, firmware }) ==> {
            &&& b.camera.manufacturer@ == manufacturer
            &&& b.camera.model@ == model
            &&& b.camera.firmware@ == firmware
            &&& b.camera.identities == a.camera.identities
        },
{
}

/// An operation that a manifest has, and that a candidate finds supported, changes in its observed
/// scopes alone: they become those that it had and the proposed ones, in ascending order, each once.
pub proof fn known_operation_gains_scopes_only(
    a: CameraManifest,
    b: CameraManifest,
    code: Seq<char>,
    scopes: Seq<Scope>,
)
    requires
        a.operations.at(code) is Some,
        applied(a, b, AssertionModel::Operation { code, supported: true, scopes }),
    ensures
        b.operations.at(code) is Some,
        same_operation_rest(a.operations.at(code)->0, b.operations.at(code)->0),
        keys_rise::<ObservedScope>(observed_of(b.operations.at(code)->0.observed_scopes@)),
        forall|s: Scope|
            #[trigger] observed_of(b.operations.at(code)->0.observed_scopes@).contains(s) == (
            observed_of(a.operations.at(code)->0.observed_scopes@).contains(s) || scopes.contains(
                s,
            )),
        forall|k: Seq<char>| k != code ==> #[trigger] b.operations.at(k) == a.operations.at(k),
{
    let before = observed_of(a.operations.at(code)->0.observed_scopes@);
    let after = observed_of(b.operations.at(code)->0.observed_scopes@);
    assert(after == scope_union(before, scopes));
    assert forall|s: Scope| #[trigger]
        after.contains(s) == (before.contains(s) || scopes.contains(s)) by {
        joined_scopes_are_a_set(before, scopes, s);
    }
    joined_scopes_are_a_set(before, scopes, arbitrary());
}

} // verus!
