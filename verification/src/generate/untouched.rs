//! What an accepted candidate leaves as it was.

use crate::generate::apply::{applied, apply_conflict, fresh_operation, fresh_property};
use crate::generate::claims::Scope;
use crate::generate::write::AssertionModel;
use crate::model::{CameraManifest, OperationKind, PropertyKind};
use crate::std_names::{operation_name, property_name};
use crate::text::views;
use vstd::prelude::*;

verus! {

/// The code that an assertion is about, where it is about one.
pub open spec fn is_operation(m: AssertionModel, code: Seq<char>) -> bool {
    m matches AssertionModel::Operation { code: c, .. } && c == code
}

/// Whether an assertion is about the property of a code.
pub open spec fn is_property(m: AssertionModel, code: Seq<char>) -> bool {
    m matches AssertionModel::Property { code: c, .. } && c == code
}

/// An assertion that something is not supported changes nothing.
pub proof fn unsupported_changes_nothing(a: CameraManifest, b: CameraManifest, m: AssertionModel)
    requires
        applied(a, b, m),
    ensures
        m matches AssertionModel::Operation { supported, .. } ==> (!supported ==> a == b),
        m matches AssertionModel::Property { supported, .. } ==> (!supported ==> a == b),
{
}

/// Whatever is asserted, connections, workflows, media, gates, sentinels, the transfer, events,
/// values and the schema stay, and so does every operation and every property but the one that is
/// meant.
pub proof fn assertions_touch_only_what_they_mean(
    a: CameraManifest,
    b: CameraManifest,
    m: AssertionModel,
    code: Seq<char>,
)
    requires
        applied(a, b, m),
    ensures
        b.schema == a.schema,
        b.connections == a.connections,
        b.workflows == a.workflows,
        b.media == a.media,
        b.sequence_gates == a.sequence_gates,
        b.sentinels == a.sentinels,
        b.camera_initiated_transfer == a.camera_initiated_transfer,
        b.events == a.events,
        b.values == a.values,
        b.quirks == a.quirks,
        b.focus_grid == a.focus_grid,
        b.semantic_assertions == a.semantic_assertions,
        !is_operation(m, code) ==> b.operations.at(code) == a.operations.at(code),
        !is_property(m, code) ==> b.properties.at(code) == a.properties.at(code),
        m !is CameraIdentity ==> b.camera == a.camera,
        m is CameraIdentity ==> b.modes == a.modes && b.camera.identities == a.camera.identities,
{
}

/// An operation that is there keeps all but the scopes that it was observed in, and a property all
/// but its type, access, descriptor, labels, profiles and scopes.
pub proof fn what_is_there_keeps_the_rest(
    a: CameraManifest,
    b: CameraManifest,
    m: AssertionModel,
    code: Seq<char>,
)
    requires
        applied(a, b, m),
    ensures
        is_operation(m, code) && a.operations.at(code) is Some ==> b.operations.at(code) is Some && {
            let x = a.operations.at(code)->0;
            let y = b.operations.at(code)->0;
            &&& y.name == x.name && y.kind == x.kind && y.owner == x.owner
            &&& y.data_phase == x.data_phase && y.params == x.params
            &&& y.workflows == x.workflows && y.handler == x.handler
            &&& y.property == x.property && y.object_size == x.object_size
            &&& y.modes == x.modes && y.connections == x.connections
            &&& y.requires == x.requires && y.requires_gate == x.requires_gate
            &&& y.effects == x.effects && y.emits == x.emits && y.evidence == x.evidence
        },
        is_property(m, code) && a.properties.at(code) is Some ==> b.properties.at(code) is Some && {
            let x = a.properties.at(code)->0;
            let y = b.properties.at(code)->0;
            &&& y.name == x.name && y.ptp_name == x.ptp_name
            &&& y.initial_value == x.initial_value && y.kind == x.kind
            &&& y.payload == x.payload && y.computed == x.computed
            &&& y.controls == x.controls && y.value_rows == x.value_rows
            &&& y.value_encoding == x.value_encoding
            &&& y.structured_text == x.structured_text
            &&& y.requires_gate == x.requires_gate && y.evidence == x.evidence
        },
{
}

/// A camera that is identified fills what the manifest left open, and keeps what it says; a manifest
/// that says otherwise is in conflict.
pub proof fn identities_fill_what_is_open(
    a: CameraManifest,
    b: CameraManifest,
    manufacturer: Seq<char>,
    model: Seq<char>,
    firmware: Seq<char>,
)
    ensures
        ({
            let m = AssertionModel::CameraIdentity { manufacturer, model, firmware };
            &&& apply_conflict(a, m) is None <==> {
                &&& a.camera.manufacturer@.len() == 0 || a.camera.manufacturer@ == manufacturer
                &&& a.camera.model@.len() == 0 || a.camera.model@ == model
                &&& a.camera.firmware@.len() == 0 || a.camera.firmware@ == firmware
            }
            &&& applied(a, b, m) && apply_conflict(a, m) is None ==> b.camera.manufacturer@
                == manufacturer && b.camera.model@ == model && b.camera.firmware@ == firmware
            &&& applied(a, b, m) && a.camera.manufacturer@.len() > 0 ==> b.camera.manufacturer@
                == a.camera.manufacturer@
            &&& applied(a, b, m) && a.camera.model@.len() > 0 ==> b.camera.model@
                == a.camera.model@
            &&& applied(a, b, m) && a.camera.firmware@.len() > 0 ==> b.camera.firmware@
                == a.camera.firmware@
        }),
{
}

/// An access that is neither of the two is in conflict, where the property is supported; operations
/// are never.
pub proof fn unknown_accesses_conflict(a: CameraManifest, m: AssertionModel)
    ensures
        m is Operation ==> apply_conflict(a, m) is None,
        m matches AssertionModel::Property { supported, access, .. } ==> (apply_conflict(a, m)
            is Some <==> supported && access is Some && access->0 != "readOnly"@ && access->0
            != "readWrite"@),
{
}

/// The modes of the scopes are declared, those that were are kept, and no others are.
pub proof fn observed_modes_are_declared(
    a: CameraManifest,
    b: CameraManifest,
    code: Seq<char>,
    scopes: Seq<Scope>,
    i: int,
    mode: Seq<char>,
)
    requires
        applied(a, b, (AssertionModel::Operation { code, supported: true, scopes })),
    ensures
        a.modes.at(mode) is Some ==> b.modes.at(mode) == a.modes.at(mode),
        0 <= i < scopes.len() && a.modes.at(scopes[i].1) is None ==> b.modes.at(scopes[i].1) is Some
            && b.modes.at(scopes[i].1)->0.capabilities@.len() == 0 && b.modes.at(
            scopes[i].1,
        )->0.detect is None,
        a.modes.at(mode) is None && (forall|k: int|
            0 <= k < scopes.len() ==> (#[trigger] scopes[k]).1 != mode) ==> b.modes.at(mode)
            is None,
{
    let _ = b.modes.at(mode);
    if 0 <= i < scopes.len() {
        let k = scopes[i].1;
        assert(crate::generate::apply::observed_mode(scopes, k, scopes.len() as int));
        let _ = b.modes.at(k);
    }
}

/// What is new rests on one piece of evidence, which is defined where it was not; other evidence
/// stays.
pub proof fn observations_are_the_evidence(
    a: CameraManifest,
    b: CameraManifest,
    m: AssertionModel,
    id: Seq<char>,
)
    requires
        applied(a, b, m),
    ensures
        id != "canonicalObservation"@ ==> b.evidence.at(id) == a.evidence.at(id),
        a.evidence.at("canonicalObservation"@) is Some ==> b.evidence.at("canonicalObservation"@)
            == a.evidence.at("canonicalObservation"@),
        a != b && a.evidence.at("canonicalObservation"@) is None ==> b.evidence.at(
            "canonicalObservation"@,
        ) is Some && b.evidence.at("canonicalObservation"@)->0.kind@ == "camera-observation"@,
{
    let _ = b.evidence.at(id);
}

/// A new operation, and a new property, has the standard name of its code, or a name made of the
/// code; nothing is known of it but what was observed.
pub proof fn new_entries_are_named_by_their_code(code: Seq<char>, n: u16)
    requires
        crate::model::hex_code(code) == Some(n),
    ensures
        forall|o: crate::model::Operation, scopes: Seq<Scope>| #[trigger]
            fresh_operation(o, code, scopes) ==> {
                &&& operation_name(n) is Some ==> o.name@ == operation_name(n)->0
                &&& operation_name(n) is None ==> o.name@ == "raw_"@ + code
                &&& o.kind == OperationKind::Executable
                &&& o.handler is None && o.requires is None && o.requires_gate is None
                &&& o.workflows@.len() == 0 && o.params@.len() == 0
                &&& views(o.evidence@) == seq!["canonicalObservation"@]
            },
        forall|p: crate::model::Property| #[trigger]
            fresh_property(p, code) ==> {
                &&& property_name(n) is Some ==> p.name@ == property_name(n)->0
                &&& property_name(n) is None ==> p.name@ == "raw_"@ + code
                &&& p.kind == PropertyKind::Setting
                &&& p.ptype is None && p.access is None && p.descriptor is None
                &&& p.payload is None && p.initial_value is None
                &&& p.value_profiles@.len() == 0 && p.observed_scopes@.len() == 0
                &&& views(p.evidence@) == seq!["canonicalObservation"@]
            },
{
}

} // verus!
