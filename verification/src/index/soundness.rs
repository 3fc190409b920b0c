//! What an index that is accepted keeps.

use crate::error::{ConfigError, ConfigFault};
use crate::index::parse::{
    advert_capture_violation, advert_violation, advert_violations, binds_name, ble_block,
    block_resolved, brace_path, capture_fault, catalog_entry, envelope, establishment_faults,
    families_merged, firmware_fault, firmware_faults, has_brace, hexadecimal, identity_fault,
    index_fault, kind_apart, model_fault, path_value, payload_violation, read_signatures,
    readiness_faults, reading_fault, reading_faults, reconnect_fault, resolved_gatt, route_fault,
    route_faults, shows_model, signature_substituted, signature_violation, step_fault, step_faults,
    substituted, text_substituted, uuid_like, DecodedModel, SignatureReading,
};
use crate::index::types::{
    encoding_of, encoding_token, named_signature, options_of, AdvertCapture, AdvertPredicate,
    BleAdvertSignature, Encoding, EstablishmentBlock, FamilyBleBlock, IndexedModel,
    ManufacturerIndex, ModelView, NotifyCapture, PayloadPredicate, Signature, Step,
};
use crate::text::{is_digit, split_text, trimmed};
use crate::validate::indexed;
use crate::yaml::{field, key_index, key_index_bounds, merged, YamlModel};
use vstd::prelude::*;

verus! {

/// The families of a model are merged one onto the other, in their order, from the `i`-th on.
proof fn families_extend(
    index: ManufacturerIndex,
    shorter: IndexedModel,
    model: IndexedModel,
    k: Seq<char>,
    base: YamlModel,
    i: int,
)
    requires
        model.id@ == shorter.id@,
        model.inherits@.len() == shorter.inherits@.len() + 1,
        forall|j: int|
            0 <= j < shorter.inherits@.len() ==> (#[trigger] model.inherits@[j])@
                == shorter.inherits@[j]@,
        0 <= i <= shorter.inherits@.len(),
    ensures
        families_merged(index, model, k, base, i) == on_top(
            index,
            model,
            k,
            families_merged(index, shorter, k, base, i),
        ),
    decreases shorter.inherits@.len() - i,
{
    let n = shorter.inherits@.len() as int;
    if i < n {
        assert(model.inherits@[i]@ == shorter.inherits@[i]@);
        if let Some(family) = index.families.at(shorter.inherits@[i]@) {
            match field(family@, k) {
                Some(block) => families_extend(
                    index,
                    shorter,
                    model,
                    k,
                    merged(base, block),
                    i + 1,
                ),
                None => families_extend(index, shorter, model, k, base, i + 1),
            }
        }
    } else {
        reveal_with_fuel(families_merged, 2);
    }
}

/// What the last family of a model makes of what the others gave.
pub open spec fn on_top(
    index: ManufacturerIndex,
    model: IndexedModel,
    k: Seq<char>,
    front: Result<YamlModel, ConfigFault>,
) -> Result<YamlModel, ConfigFault> {
    let last = model.inherits@.last()@;
    match front {
        Err(f) => Err(f),
        Ok(y) => match index.families.at(last) {
            None => Err(ConfigFault::UnknownFamily { model_id: model.id@, family_id: last }),
            Some(family) => match field(family@, k) {
                Some(block) => Ok(merged(y, block)),
                None => Ok(y),
            },
        },
    }
}

/// The last family of a model goes on top of the others; a family that the index does not have is
/// refused. Without families there is nothing.
pub proof fn last_family_goes_on_top(
    index: ManufacturerIndex,
    shorter: IndexedModel,
    model: IndexedModel,
    k: Seq<char>,
)
    requires
        model.id@ == shorter.id@,
        model.inherits@.len() == shorter.inherits@.len() + 1,
        forall|j: int|
            0 <= j < shorter.inherits@.len() ==> (#[trigger] model.inherits@[j])@
                == shorter.inherits@[j]@,
    ensures
        ({
            let front = families_merged(index, shorter, k, YamlModel::Null, 0);
            let all = families_merged(index, model, k, YamlModel::Null, 0);
            let last = index.families.at(model.inherits@.last()@);
            &&& front is Err ==> all == front
            &&& front is Ok && last is None ==> all == Err::<YamlModel, ConfigFault>(
                ConfigFault::UnknownFamily {
                    model_id: model.id@,
                    family_id: model.inherits@.last()@,
                },
            )
            &&& front is Ok && last is Some && field(last->0@, k) is None ==> all == front
            &&& front is Ok && last is Some && field(last->0@, k) is Some ==> all == Ok::<
                YamlModel,
                ConfigFault,
            >(merged(front->Ok_0, field(last->0@, k)->0))
        }),
        shorter.inherits@.len() == 0 ==> families_merged(index, shorter, k, YamlModel::Null, 0)
            == Ok::<YamlModel, ConfigFault>(YamlModel::Null),
{
    families_extend(index, shorter, model, k, YamlModel::Null, 0);
}

/// A GATT name is that of the catalog, or a UUID itself, or refused.
pub proof fn gatt_names_are_resolved(
    name: Seq<char>,
    names: Map<Seq<char>, Seq<char>>,
    path: Seq<char>,
)
    ensures
        names.contains_key(name) ==> resolved_gatt(name, names, path) == Ok::<
            Seq<char>,
            ConfigFault,
        >(names[name]),
        !names.contains_key(name) && uuid_like(name) ==> resolved_gatt(name, names, path) == Ok::<
            Seq<char>,
            ConfigFault,
        >(name),
        !names.contains_key(name) && !uuid_like(name) ==> resolved_gatt(name, names, path) is Err,
{
}

/// A UUID is five groups of eight, four, four, four and twelve hexadecimal digits.
pub proof fn uuids_are_five_groups(s: Seq<char>)
    ensures
        uuid_like(s) <==> ({
            let g = split_text(s, '-');
            &&& g.len() == 5
            &&& g[0].len() == 8 && g[1].len() == 4 && g[2].len() == 4 && g[3].len() == 4
                && g[4].len() == 12
            &&& forall|i: int, k: int|
                0 <= i < 5 && 0 <= k < g[i].len() ==> is_digit(#[trigger] g[i][k], 16)
        }),
{
    let g = split_text(s, '-');
    if uuid_like(s) {
        assert forall|i: int, k: int| 0 <= i < 5 && 0 <= k < g[i].len() implies is_digit(
            #[trigger] g[i][k],
            16,
        ) by {
            assert(hexadecimal(g[i]));
        }
    } else if g.len() == 5 && (forall|i: int, k: int|
        0 <= i < 5 && 0 <= k < g[i].len() ==> is_digit(#[trigger] g[i][k], 16)) {
        assert forall|i: int| 0 <= i < g.len() implies hexadecimal(#[trigger] g[i]) by {
            assert forall|k: int| 0 <= k < g[i].len() implies is_digit(#[trigger] g[i][k], 16) by {
            }
        }
    }
}

/// A catalog gives a name the text of the last entry for it.
pub proof fn last_entry_of_the_catalog_counts(
    m: Seq<(YamlModel, YamlModel)>,
    name: Seq<char>,
    uuid: Seq<char>,
    n: int,
    k: int,
)
    requires
        0 <= k < n <= m.len(),
        crate::yaml::text_of(m[k].0) == Some(name),
        crate::yaml::text_of(m[k].1) == Some(uuid),
        forall|j: int| k < j < n ==> crate::yaml::text_of((#[trigger] m[j]).0) != Some(name),
    ensures
        catalog_entry(m, name, n) == Some(uuid),
    decreases n,
{
    if k < n - 1 {
        assert(crate::yaml::text_of(m[n - 1].0) != Some(name));
        last_entry_of_the_catalog_counts(m, name, uuid, n - 1, k);
    }
}

/// A text in braces is what stands at its path; one with braces in it is refused; any other is kept
/// as it is.
pub proof fn whole_references_are_replaced(s: Seq<char>, root: YamlModel, path: Seq<char>)
    ensures
        ({
            let t = trimmed(s);
            let inner = t.subrange(1, t.len() - 1);
            let whole = t.len() > 2 && t[0] == '{' && t.last() == '}' && !has_brace(inner);
            let found = path_value(root, split_text(inner, '.'), 0);
            &&& whole && found is Some ==> text_substituted(s, root, path) == Ok::<
                YamlModel,
                ConfigFault,
            >(found->0)
            &&& whole && found is None ==> text_substituted(s, root, path) is Err
            &&& !whole && has_brace(t) ==> text_substituted(s, root, path) is Err
            &&& !has_brace(t) ==> text_substituted(s, root, path) == Ok::<YamlModel, ConfigFault>(
                YamlModel::Text(s),
            )
        }),
        has_brace(s) <==> s.contains('{') || s.contains('}'),
{
    let t = trimmed(s);
    if brace_path(t) is Some {
        assert(t[0] == '{');
        assert(has_brace(t));
    }
    if s.contains('{') {
        let i = s.index_of('{');
        assert(s[i] == '{');
    }
    if s.contains('}') {
        let i = s.index_of('}');
        assert(s[i] == '}');
    }
}

/// A path is followed name by name, through mappings only.
pub proof fn paths_are_followed_name_by_name(root: YamlModel, path: Seq<Seq<char>>, i: int)
    ensures
        i == path.len() ==> path_value(root, path, i) == Some(root),
        0 <= i < path.len() && root !is Mapping ==> path_value(root, path, i) is None,
        0 <= i < path.len() && root is Mapping && field(root, path[i]) is None ==> path_value(
            root,
            path,
            i,
        ) is None,
        0 <= i < path.len() && root is Mapping && field(root, path[i]) is Some ==> path_value(
            root,
            path,
            i,
        ) == path_value(field(root, path[i])->0, path, i + 1),
{
}

/// A capture can hold a byte.
proof fn captures_checked(v: Seq<NotifyCapture>, path: Seq<char>, i: int)
    requires
        0 <= i,
    ensures
        capture_fault(v, path, i) is None <==> forall|k: int|
            i <= k < v.len() ==> (#[trigger] v[k]).length != Some(0usize),
    decreases v.len() - i,
{
    if i < v.len() {
        captures_checked(v, path, i + 1);
        assert(v[i].length == v[i].length);
    }
}

/// A step that waits has a budget, what it captures can hold a byte, and what it holds keeps these
/// rules too.
pub proof fn waits_have_a_budget(s: Step, path: Seq<char>)
    ensures
        match s {
            Step::BleAwaitUntil(x) => step_fault(s, path) is None <==> x.timeout_ms > 0 && (forall|
                k: int,
            |
                0 <= k < x.capture@.len() ==> (#[trigger] x.capture@[k]).length != Some(0usize))
                && step_faults(x.on_each@, path + ".onEach"@, 0) is None,
            Step::BleAwaitDisconnect(x) => step_fault(s, path) is None <==> x.timeout_ms > 0,
            Step::If(x) => step_fault(s, path) is None <==> step_faults(
                x.then_steps@,
                path + ".then"@,
                0,
            ) is None && step_faults(x.else_steps@, path + ".else"@, 0) is None,
            Step::Acquire(x) => step_fault(s, path) is None <==> step_fault(
                *x.from,
                path + ".from"@,
            ) is None,
            _ => step_fault(s, path) is None,
        },
{
    match s {
        Step::BleAwaitUntil(x) => captures_checked(x.capture@, path, 0),
        _ => {},
    }
}

/// All steps are checked.
pub proof fn every_step_of_a_plan_is_checked(v: Seq<Step>, path: Seq<char>, i: int)
    requires
        0 <= i,
    ensures
        step_faults(v, path, i) is None <==> forall|k: int|
            i <= k < v.len() ==> step_fault(#[trigger] v[k], indexed(path, "["@, k)) is None,
    decreases v.len() - i,
{
    if i < v.len() {
        every_step_of_a_plan_is_checked(v, path, i + 1);
        assert(step_fault(v[i], indexed(path, "["@, i)) is None ==> true);
    }
}

/// The firmware is not acquired before a plan can be replayed, at any depth.
pub proof fn readiness_acquires_no_firmware(s: Step, path: Seq<char>)
    ensures
        match s {
            Step::AcquireFirmware(_) => firmware_fault(s, path) is Some,
            Step::Acquire(x) => firmware_fault(s, path) is None <==> firmware_fault(
                *x.from,
                path + ".from"@,
            ) is None,
            Step::If(x) => firmware_fault(s, path) is None <==> firmware_faults(
                x.then_steps@,
                path + ".then"@,
                0,
            ) is None && firmware_faults(x.else_steps@, path + ".else"@, 0) is None,
            Step::BleAwaitUntil(x) => firmware_fault(s, path) is None <==> firmware_faults(
                x.on_each@,
                path + ".onEach"@,
                0,
            ) is None,
            _ => firmware_fault(s, path) is None,
        },
{
}

/// All steps are searched for the firmware.
pub proof fn every_step_is_searched_for_firmware(v: Seq<Step>, path: Seq<char>, i: int)
    requires
        0 <= i,
    ensures
        firmware_faults(v, path, i) is None <==> forall|k: int|
            i <= k < v.len() ==> firmware_fault(#[trigger] v[k], indexed(path, "["@, k)) is None,
        readiness_faults(v, path, i) is None <==> forall|k: int|
            i <= k < v.len() ==> firmware_fault(#[trigger] v[k], indexed(path, "["@, k)) is None
                && step_fault(v[k], indexed(path, "["@, k)) is None,
    decreases v.len() - i,
{
    if i < v.len() {
        every_step_is_searched_for_firmware(v, path, i + 1);
        assert(firmware_fault(v[i], indexed(path, "["@, i)) is None ==> true);
    }
}

/// Constraints on a payload bound its length in one way, and test some bit.
pub proof fn constraints_can_be_met(context: Seq<char>, p: PayloadPredicate)
    ensures
        payload_violation(context, p) is None <==> {
            &&& p.length is None || p.min_length is None
            &&& forall|i: int| 0 <= i < p.assert_bits@.len() ==> (#[trigger] p.assert_bits@[i]).mask
                != 0
        },
{
}

/// A predicate on adverts says something: a list is filled, data are constrained or of a company, a
/// UUID is there, a name is compared in one way, a power is bounded.
pub proof fn predicates_say_something(p: AdvertPredicate)
    ensures
        match p {
            AdvertPredicate::All(v) => advert_violation(p) is None <==> v@.len() > 0 && forall|
                k: int,
            |
                0 <= k < v@.len() ==> advert_violation(#[trigger] v@[k]) is None,
            AdvertPredicate::Any(v) => advert_violation(p) is None <==> v@.len() > 0 && forall|
                k: int,
            |
                0 <= k < v@.len() ==> advert_violation(#[trigger] v@[k]) is None,
            AdvertPredicate::Not(inner) => advert_violation(p) is None <==> advert_violation(*inner)
                is None,
            AdvertPredicate::ManufacturerData(d) => advert_violation(p) is None <==> (d.company_id
                is Some || !d.payload.is_vacuous()) && payload_violation(
                "manufacturerData"@,
                d.payload,
            ) is None,
            AdvertPredicate::ServiceUuids { contains } => advert_violation(p) is None
                <==> contains@.len() > 0,
            AdvertPredicate::ServiceData { uuid, payload } => advert_violation(p) is None
                <==> uuid@.len() > 0 && payload_violation("serviceData"@, payload) is None,
            AdvertPredicate::LocalName(n) => advert_violation(p) is None <==> (n.equals is Some
                && n.prefix is None && n.contains is None) || (n.equals is None && n.prefix is Some
                && n.contains is None) || (n.equals is None && n.prefix is None && n.contains
                is Some),
            AdvertPredicate::TxPower { min, max } => advert_violation(p) is None <==> min is Some
                || max is Some,
            AdvertPredicate::RawAdRecord { payload, .. } => advert_violation(p) is None
                <==> payload_violation("rawAdRecord"@, payload) is None,
        },
{
    match p {
        AdvertPredicate::All(v) => predicates_checked(v@, 0),
        AdvertPredicate::Any(v) => predicates_checked(v@, 0),
        _ => {},
    }
}

/// All predicates of a list are checked.
proof fn predicates_checked(v: Seq<AdvertPredicate>, i: int)
    requires
        0 <= i,
    ensures
        advert_violations(v, i) is None <==> v.len() > 0 && forall|k: int|
            i <= k < v.len() ==> advert_violation(#[trigger] v[k]) is None,
    decreases v.len() - i,
{
    if i < v.len() {
        predicates_checked(v, i + 1);
        assert(advert_violation(v[i]) is None ==> true);
    }
}

/// All captures of an advert are checked.
proof fn advert_captures_checked(v: Seq<AdvertCapture>, i: int)
    requires
        0 <= i,
    ensures
        advert_capture_violation(v, i) is None <==> forall|k: int|
            i <= k < v.len() ==> (#[trigger] v[k]).length != Some(0usize),
    decreases v.len() - i,
{
    if i < v.len() {
        advert_captures_checked(v, i + 1);
        assert(v[i].length == v[i].length);
    }
}

/// A signature of adverts says something and captures bytes; one of notifications is left alone.
pub proof fn signatures_say_something(s: Signature)
    ensures
        match s {
            Signature::BleAdvert(x) => signature_violation(s) is None <==> advert_violation(
                x.require,
            ) is None && forall|k: int|
                0 <= k < x.capture@.len() ==> (#[trigger] x.capture@[k]).length != Some(0usize),
            Signature::PcssNotify(_) => signature_violation(s) is None,
        },
{
    match s {
        Signature::BleAdvert(x) => advert_captures_checked(x.capture@, 0),
        _ => {},
    }
}

/// A route by which to reconnect needs a policy of the family, names an establishment, and is told
/// apart by keys that the signature binds.
pub proof fn routes_are_told_apart(ble: FamilyBleBlock, s: BleAdvertSignature, path: Seq<char>)
    ensures
        route_fault(ble, s, path) is None <==> s.reconnect is None || {
            &&& ble.reconnect is Some
            &&& s.reconnect->0.identity@.len() > 0
            &&& ble.establishments.has(s.reconnect->0.mechanism@)
            &&& forall|k: int|
                0 <= k < s.reconnect->0.identity@.len() ==> binds_name(
                    s,
                    (#[trigger] s.reconnect->0.identity@[k])@,
                )
        },
{
    if let Some(route) = s.reconnect {
        identity_checked(s, route.identity@, path, 0);
    }
}

/// All keys are checked.
proof fn identity_checked(s: BleAdvertSignature, keys: Seq<String>, path: Seq<char>, i: int)
    requires
        0 <= i,
    ensures
        identity_fault(s, keys, path, i) is None <==> forall|k: int|
            i <= k < keys.len() ==> binds_name(s, (#[trigger] keys[k])@),
    decreases keys.len() - i,
{
    if i < keys.len() {
        identity_checked(s, keys, path, i + 1);
        assert(binds_name(s, keys[i]@) ==> true);
    }
}

/// A signature binds the names that it captures, and those that it scopes.
pub proof fn signatures_bind_captures_and_scopes(s: BleAdvertSignature, name: Seq<char>, i: int)
    ensures
        s.scope.has(name) ==> binds_name(s, name),
        0 <= i < s.capture@.len() && s.capture@[i].name@ == name ==> binds_name(s, name),
        !s.scope.has(name) && (forall|k: int|
            0 <= k < s.capture@.len() ==> (#[trigger] s.capture@[k]).name@ != name) ==> !binds_name(
            s,
            name,
        ),
{
}

/// Every route of a model is checked, and its policy scans for some time.
pub proof fn every_route_is_checked(
    ble: FamilyBleBlock,
    model_id: Seq<char>,
    v: Seq<(String, Signature)>,
    k: int,
)
    requires
        reconnect_fault(Some(ble), model_id, v) is None,
    ensures
        ble.reconnect is Some ==> ble.reconnect->0.scan_timeout_ms > 0,
        0 <= k < v.len() ==> (v[k].1 matches Signature::BleAdvert(s) ==> route_fault(
            ble,
            s,
            "models."@ + model_id + ".signatures."@ + v[k].0@ + ".reconnect"@,
        ) is None),
{
    if 0 <= k < v.len() {
        route_checked(ble, model_id, v, 0, k);
    }
}

/// The route of a signature is checked.
proof fn route_checked(
    ble: FamilyBleBlock,
    model_id: Seq<char>,
    v: Seq<(String, Signature)>,
    i: int,
    k: int,
)
    requires
        0 <= i <= k < v.len(),
        route_faults(ble, model_id, v, i) is None,
    ensures
        v[k].1 matches Signature::BleAdvert(s) ==> route_fault(
            ble,
            s,
            "models."@ + model_id + ".signatures."@ + v[k].0@ + ".reconnect"@,
        ) is None,
    decreases k - i,
{
    if i < k {
        route_checked(ble, model_id, v, i + 1, k);
    }
}

/// Every signature of an accepted model was read, and says something.
pub proof fn every_signature_is_read(
    model_id: Seq<char>,
    v: Seq<(String, SignatureReading)>,
    i: int,
    k: int,
)
    requires
        0 <= i <= k < v.len(),
        reading_faults(model_id, v, i) is None,
    ensures
        v[k].1 matches SignatureReading::Read(s) && signature_violation(s) is None,
    decreases k - i,
{
    if i < k {
        every_signature_is_read(model_id, v, i + 1, k);
    } else {
        assert(reading_fault(model_id, v[k].0@, v[k].1) is None);
    }
}

/// The kind of a signature is taken out of it; the rest is all else that it holds.
pub proof fn kinds_are_taken_out(m: Seq<(YamlModel, YamlModel)>, k: int)
    requires
        kind_apart(YamlModel::Mapping(m)) is Ok,
    ensures
        ({
            let r = kind_apart(YamlModel::Mapping(m))->Ok_0;
            &&& field(YamlModel::Mapping(m), "kind"@) == Some(r.0)
            &&& r.1 matches YamlModel::Mapping(rest) && rest.len() == m.len() - 1 && (0 <= k
                < m.len() && m[k].0 != YamlModel::Text("kind"@) ==> rest.contains(m[k]))
        }),
{
    key_index_bounds(m, "kind"@, 0);
    let i = key_index(m, "kind"@, 0);
    let rest = crate::yaml::swap_removed(m, i);
    if 0 <= k < m.len() && m[k].0 != YamlModel::Text("kind"@) {
        if k < m.len() - 1 {
            assert(rest[k] == m[k]);
        } else {
            assert(rest[i] == m[k]);
        }
    }
}

/// A signature without a kind, or that is no mapping, is refused.
pub proof fn signatures_have_a_kind(y: YamlModel)
    ensures
        y !is Mapping ==> kind_apart(y) is Err,
        y is Mapping && field(y, "kind"@) is None ==> kind_apart(y) is Err,
        y is Mapping && field(y, "kind"@) is Some ==> kind_apart(y) is Ok,
{
}

/// A signature refers to itself and to the BLE block of its model, under their names.
pub proof fn signatures_refer_to_their_block(
    signature: YamlModel,
    ble: YamlModel,
    path: Seq<char>,
)
    ensures
        field(envelope(signature, ble), "__sig__"@) == Some(signature),
        field(envelope(signature, ble), "ble"@) == Some(ble),
        signature_substituted(signature, ble, path) is Ok ==> signature_substituted(
            signature,
            ble,
            path,
        ) == substituted(signature, envelope(signature, ble), path + ".__sig__"@) && substituted(
            ble,
            envelope(signature, ble),
            path + ".ble"@,
        ) is Ok,
        substituted(signature, envelope(signature, ble), path + ".__sig__"@) is Ok && substituted(
            ble,
            envelope(signature, ble),
            path + ".ble"@,
        ) is Ok ==> signature_substituted(signature, ble, path) is Ok,
{
    let m = envelope(signature, ble)->Mapping_0;
    reveal_strlit("__sig__");
    reveal_strlit("ble");
    assert("__sig__"@.len() == 7);
    assert("ble"@.len() == 3);
    assert(m[0].0 != YamlModel::Text("ble"@));
    key_index_bounds(m, "__sig__"@, 0);
    key_index_bounds(m, "ble"@, 0);
}

/// The block of a model is that of its families, with its names resolved; none where no family has
/// one.
pub proof fn blocks_come_from_the_families(index: ManufacturerIndex, model: IndexedModel)
    ensures
        ({
            let all = families_merged(index, model, "ble"@, YamlModel::Null, 0);
            &&& all is Err ==> ble_block(index, model) == all
            &&& all == Ok::<YamlModel, ConfigFault>(YamlModel::Null) ==> ble_block(index, model)
                == all
            &&& all is Ok && all->Ok_0 !is Null ==> ble_block(index, model) == block_resolved(
                all->Ok_0,
                model.id@,
            )
        }),
{
}

/// All establishments are checked.
proof fn establishments_checked(
    m: Seq<(String, EstablishmentBlock)>,
    model_id: Seq<char>,
    i: int,
    k: int,
)
    requires
        0 <= i <= k < m.len(),
        establishment_faults(m, model_id, i) is None,
    ensures
        ({
            let path = "models."@ + model_id + ".establishments."@ + m[k].0@;
            &&& readiness_faults(
                m[k].1.post_exit_readiness@,
                path + ".postExitReadiness"@,
                0,
            ) is None
            &&& step_faults(m[k].1.steps@, path + ".steps"@, 0) is None
        }),
    decreases k - i,
{
    if i < k {
        establishments_checked(m, model_id, i + 1, k);
    }
}

/// A model is accepted where its blocks were read and each of its establishments, its signatures and
/// its routes keeps the rules.
pub proof fn accepted_models_keep_the_rules(model_id: Seq<char>, d: DecodedModel, k: int)
    requires
        model_fault(model_id, d) is None,
    ensures
        d.ble is Some ==> d.ble->0 is Ok,
        d.pcss is Some ==> d.pcss->0 is Ok,
        0 <= k < d.signatures@.len() ==> (d.signatures@[k].1 matches SignatureReading::Read(s)
            && signature_violation(s) is None),
        d.ble matches Some(Ok(b)) ==> {
            &&& reconnect_fault(Some(b), model_id, read_signatures(d.signatures@)) is None
            &&& 0 <= k < b.establishments.entries().len() ==> {
                let e = b.establishments.entries()[k];
                let path = "models."@ + model_id + ".establishments."@ + e.0@;
                &&& readiness_faults(
                    e.1.post_exit_readiness@,
                    path + ".postExitReadiness"@,
                    0,
                ) is None
                &&& step_faults(e.1.steps@, path + ".steps"@, 0) is None
            }
        },
{
    if 0 <= k < d.signatures@.len() {
        every_signature_is_read(model_id, d.signatures@, 0, k);
    }
    if let Some(Ok(b)) = d.ble {
        if 0 <= k < b.establishments.entries().len() {
            establishments_checked(b.establishments.entries(), model_id, 0, k);
        }
    }
}

/// The view of a model shows what the index says of it and what was read.
pub proof fn views_show_their_model(v: ModelView, model: IndexedModel, d: DecodedModel, k: int)
    requires
        shows_model(v, model, d),
    ensures
        v.id@ == model.id@,
        v.display_name@ == model.display_name@,
        v.fallback == model.fallback,
        v.manifest_path@ == model.manifest@,
        d.ble matches Some(Ok(b)) ==> v.ble == Some(b),
        d.ble is None ==> v.ble is None,
        d.pcss matches Some(Ok(b)) ==> v.pcss == Some(b),
        d.pcss is None ==> v.pcss is None,
        v.signatures@.len() == d.signatures@.len(),
        0 <= k < d.signatures@.len() ==> (d.signatures@[k].1 matches SignatureReading::Read(s)
            ==> v.signatures@[k] == (d.signatures@[k].0, s)),
{
}

/// Every model of an accepted index is accepted.
pub proof fn every_model_is_checked(
    models: Seq<IndexedModel>,
    decoded: Seq<Result<DecodedModel, ConfigError>>,
    i: int,
    k: int,
)
    requires
        0 <= i <= k < models.len(),
        models.len() <= decoded.len(),
        index_fault(models, decoded, i) is None,
    ensures
        decoded[k] matches Ok(d) && model_fault(models[k].id@, d) is None,
    decreases k - i,
{
    if i < k {
        every_model_is_checked(models, decoded, i + 1, k);
    }
}

/// The tokens of the encodings name them.
pub proof fn encodings_have_their_tokens(e: Encoding, s: Seq<char>)
    ensures
        encoding_of(encoding_token(e)) == Some(e),
        encoding_of(s) is Some ==> encoding_token(encoding_of(s)->0) == s,
{
    crate::index::types::encoding_tokens_round_trip(e, s);
}

/// A signature is found by its name, the first of it.
pub proof fn signatures_are_found_by_name(
    v: Seq<(String, Signature)>,
    name: Seq<char>,
    i: int,
    k: int,
)
    requires
        0 <= i <= k < v.len(),
        v[k].0@ == name,
        forall|j: int| i <= j < k ==> (#[trigger] v[j]).0@ != name,
    ensures
        named_signature(v, name, i) == Some(v[k].1),
    decreases k - i,
{
    if i < k {
        assert(v[i].0@ != name);
        signatures_are_found_by_name(v, name, i + 1, k);
    }
}

/// The options of a step are those that it was written with; a branch and a retry have none.
pub proof fn steps_have_their_options(s: Step)
    ensures
        s matches Step::BleConnect(x) ==> options_of(s) == x.opts,
        s matches Step::BleAwaitDisconnect(x) ==> options_of(s) == x.opts,
        s matches Step::BleRequestMtu(x) ==> options_of(s) == x.opts,
        s matches Step::BleDiscoverServices(x) ==> options_of(s) == x.opts,
        s matches Step::BleRead(x) ==> options_of(s) == x.opts,
        s matches Step::BleWrite(x) ==> options_of(s) == x.opts,
        s matches Step::BleSubscribe(x) ==> options_of(s) == x.opts,
        s matches Step::BleNotify(x) ==> options_of(s) == x.opts,
        s matches Step::BleAwaitUntil(x) ==> options_of(s) == x.opts,
        s matches Step::BleWriteChunk(x) ==> options_of(s) == x.opts,
        s matches Step::Acquire(x) ==> options_of(s) == x.opts,
        s matches Step::AcquireFirmware(x) ==> options_of(s) == x.opts,
        s matches Step::BleDelay(x) ==> options_of(s) == x.opts,
        s matches Step::NikonLssAuthenticate(x) ==> options_of(s) == x.opts,
        s matches Step::NikonLssReadConnectionConfiguration(x) ==> options_of(s) == x.opts,
        s matches Step::BlePeripheralName(x) ==> options_of(s) == x.opts,
        s is If || s is Retry ==> !options_of(s).tolerant && options_of(s).retries == 0
            && options_of(s).retry_delay_ms == 0,
{
}

} // verus!
