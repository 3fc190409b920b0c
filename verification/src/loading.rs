//! What a store that is loaded keeps.

use crate::activity::{
    conflicting, identity_of, ActivityIdentity, ConnectionActivityBinding,
    ConnectionActivityDescriptor, ConnectionActivityHostEstablishment,
};
use crate::error::ConfigFault;
use crate::index::parse::resolved_gatt;
use crate::index::types::{
    EstablishmentBlock, ModelView, ResolvedManufacturerIndex, Signature, Step,
};
use crate::model::{
    binding_port, hex_bytes, hex_code, role_binding, Action, ActionVerb, BleStateTrigger,
    CameraInitiatedTransfer, CameraManifest, Connection, ModeEntry, ModeEntryExecution,
};
use crate::store::{
    action_rows, bindings_fault, bodies_fault, body_fault, bytes_fault, camera_name_fault,
    connection_ids_fault, connection_rows, connections_ids_fault, edge_bindings_fault,
    entry_bindings_fault, entry_rows, establishment_fills, first_row, holds_bodies, in_order,
    index_rows, keys_of, knock_name, lists_activity, lists_model, load_fault, merged_ids_fault,
    metadata_fault, model_transfer_fault, place_rows, plan_rows, read_body, recovery_fault,
    reestablishment_fault, registered, repeated_fault, resolves_transfer, scope_fault, scopes_fault,
    states_fault, step_fills, steps_fill, stores, transfer_fault, transfer_held, transfers_fault,
    ActivityRow, ConfigStore, ModelBodies, ResolvedCameraInitiatedTransfer,
};
use crate::text::{holds_text, optional_text, views};
use crate::validate::entries::manifest_violation;
use vstd::prelude::*;

verus! {

/// A resolved transfer says what was declared: where it is handed over, to which host and port, what
/// triggers and what launches it, and what it counts, reads and fetches by, as numbers and bytes.
pub proof fn transfers_are_resolved_whole(
    r: ResolvedCameraInitiatedTransfer,
    t: CameraInitiatedTransfer,
    names: Map<Seq<char>, Seq<char>>,
    body: CameraManifest,
    k: int,
)
    requires
        resolves_transfer(r, t, names, body),
    ensures
        r.trigger_match == t.trigger.match_mode,
        r.trigger_states@.len() == t.trigger.states@.len(),
        0 <= k < r.trigger_states@.len() ==> {
            let a = r.trigger_states@[k];
            let b = t.trigger.states@[k];
            &&& resolved_gatt(b.gatt@, names, Seq::empty()) == Ok::<Seq<char>, ConfigFault>(
                a.gatt_uuid@,
            )
            &&& a.trigger_values@.len() == b.trigger_values@.len()
            &&& forall|x: int|
                0 <= x < a.trigger_values@.len() ==> hex_bytes(b.trigger_values@[x]@) == Some(
                    (#[trigger] a.trigger_values@[x])@,
                )
            &&& a.baseline_values@.len() == b.baseline_values@.len()
            &&& forall|x: int|
                0 <= x < a.baseline_values@.len() ==> hex_bytes(b.baseline_values@[x]@) == Some(
                    (#[trigger] a.baseline_values@[x])@,
                )
        },
        r.connection@ == t.handoff.connection@,
        r.socket_role == t.handoff.socket_role,
        body.connections.at(t.handoff.connection@) is Some,
        body.connections.at(t.handoff.connection@)->0.bindings is Some,
        ({
            let b = body.connections.at(t.handoff.connection@)->0.bindings->0;
            &&& role_binding(b, t.handoff.socket_role) is Some
            &&& r.endpoint_port == binding_port(role_binding(b, t.handoff.socket_role)->0)
            &&& optional_text(r.endpoint_host) == optional_text(b.host)
        }),
        r.cached_credentials_allowed == t.handoff.cached_credentials_allowed,
        r.monitor_recovery == t.monitor_recovery,
        t.handoff.function_launch is None <==> r.function_launch is None,
        t.handoff.function_launch is Some ==> {
            let w = t.handoff.function_launch->0;
            let x = r.function_launch->0;
            &&& resolved_gatt(w.gatt@, names, Seq::empty()) == Ok::<Seq<char>, ConfigFault>(
                x.gatt_uuid@,
            )
            &&& hex_bytes(w.value@) == Some(x.value@)
            &&& x.required == w.required
        },
        r.mode@ == t.receive.mode@,
        hex_code(t.receive.count.property@) == Some(r.count_property),
        hex_code(t.receive.count.member@) == Some(r.count_member),
        r.head_index == t.receive.head_index,
        hex_code(t.receive.metadata.operation@) == Some(r.metadata_operation),
        r.metadata_phases@ == t.receive.metadata.phases@,
        hex_code(t.receive.data.operation@) == Some(r.data_operation),
        hex_code(t.receive.data.chunk_limit_property@) == Some(r.chunk_limit_property),
        r.completion == t.receive.completion,
        views(r.evidence@) == views(t.evidence@),
{
    if 0 <= k < r.trigger_states@.len() {
        assert(crate::store::resolves_state(r.trigger_states@[k], t.trigger.states@[k], names));
    }
}

/// All texts write bytes.
proof fn bytes_checked(v: Seq<String>, path: Seq<char>, i: int)
    requires
        0 <= i,
    ensures
        bytes_fault(v, path, i) is None <==> forall|k: int|
            i <= k < v.len() ==> hex_bytes((#[trigger] v[k])@) is Some,
    decreases v.len() - i,
{
    if i < v.len() {
        bytes_checked(v, path, i + 1);
        assert(hex_bytes(v[i]@) is Some ==> true);
    }
}

/// Whether a state that triggers a transfer can be resolved.
pub open spec fn state_resolves(s: BleStateTrigger, names: Map<Seq<char>, Seq<char>>) -> bool {
    &&& resolved_gatt(s.gatt@, names, Seq::empty()) is Ok
    &&& forall|k: int|
        0 <= k < s.trigger_values@.len() ==> hex_bytes((#[trigger] s.trigger_values@[k])@) is Some
    &&& forall|k: int|
        0 <= k < s.baseline_values@.len() ==> hex_bytes((#[trigger] s.baseline_values@[k])@) is Some
}

/// All states are checked.
proof fn states_checked(
    v: Seq<BleStateTrigger>,
    names: Map<Seq<char>, Seq<char>>,
    path: Seq<char>,
    i: int,
)
    requires
        0 <= i,
    ensures
        states_fault(v, names, path, i) is None <==> forall|k: int|
            i <= k < v.len() ==> state_resolves(#[trigger] v[k], names),
    decreases v.len() - i,
{
    if i < v.len() {
        states_checked(v, names, path, i + 1);
        let here = crate::validate::indexed(path, ".trigger.states["@, i);
        bytes_checked(v[i].trigger_values@, here + ".triggerValues"@, 0);
        bytes_checked(v[i].baseline_values@, here + ".baselineValues"@, 0);
        assert(state_resolves(v[i], names) ==> true);
    }
}

/// A transfer is resolved where every GATT name, every code and every value is one, and the
/// connection binds the socket; else it is refused.
pub proof fn transfers_are_refused_where_anything_is_missing(
    model_id: Seq<char>,
    t: CameraInitiatedTransfer,
    names: Map<Seq<char>, Seq<char>>,
    body: CameraManifest,
)
    ensures
        transfer_fault(model_id, t, names, body) is None <==> {
            let c = body.connections.at(t.handoff.connection@);
            &&& forall|k: int|
                0 <= k < t.trigger.states@.len() ==> state_resolves(
                    #[trigger] t.trigger.states@[k],
                    names,
                )
            &&& c is Some && c->0.bindings is Some && role_binding(
                c->0.bindings->0,
                t.handoff.socket_role,
            ) is Some
            &&& t.handoff.function_launch is Some ==> resolved_gatt(
                t.handoff.function_launch->0.gatt@,
                names,
                Seq::empty(),
            ) is Ok && hex_bytes(t.handoff.function_launch->0.value@) is Some
            &&& hex_code(t.receive.count.property@) is Some
            &&& hex_code(t.receive.count.member@) is Some
            &&& hex_code(t.receive.metadata.operation@) is Some
            &&& hex_code(t.receive.data.operation@) is Some
            &&& hex_code(t.receive.data.chunk_limit_property@) is Some
        },
{
    let path = "models."@ + model_id + ".cameraInitiatedTransfer"@;
    states_checked(t.trigger.states@, names, path, 0);
}

/// A monitor recovers by the route of a saved camera only where the model has a policy to reconnect
/// by, and a signature with a route.
pub proof fn recovery_needs_a_route(model_id: Seq<char>, t: CameraInitiatedTransfer, view: ModelView)
    ensures
        recovery_fault(model_id, t, view) is None <==> t.monitor_recovery is None || {
            &&& view.ble is Some && view.ble->0.reconnect is Some
            &&& exists|i: int|
                0 <= i < view.signatures@.len() && ((#[trigger] view.signatures@[i]).1 matches
                    Signature::BleAdvert(a) && a.reconnect is Some)
        },
{
    let v = view.signatures@;
    if crate::store::has_route(v) {
        let i = choose|i: int| 0 <= i < v.len() && crate::store::is_route((#[trigger] v[i]).1);
        assert(v[i].1 matches Signature::BleAdvert(a) && a.reconnect is Some);
    }
    if exists|i: int|
        0 <= i < v.len() && ((#[trigger] v[i]).1 matches Signature::BleAdvert(a) && a.reconnect
            is Some) {
        let i = choose|i: int|
            0 <= i < v.len() && ((#[trigger] v[i]).1 matches Signature::BleAdvert(a) && a.reconnect
                is Some);
        assert(crate::store::is_route(v[i].1));
    }
}

/// A step fills the slots that it captures into, and those that the steps within it fill.
pub proof fn steps_fill_what_they_capture(s: Step, name: Seq<char>)
    ensures
        match s {
            Step::BleRead(x) => step_fills(s, name) <==> x.capture_as@ == name,
            Step::BlePeripheralName(x) => step_fills(s, name) <==> x.capture_as@ == name,
            Step::BleNotify(x) => step_fills(s, name) <==> (x.capture_as is Some && x.capture_as->0@
                == name) || exists|i: int|
                0 <= i < x.capture@.len() && (#[trigger] x.capture@[i]).name@ == name,
            Step::BleAwaitUntil(x) => step_fills(s, name) <==> (x.capture_as is Some
                && x.capture_as->0@ == name) || (exists|i: int|
                0 <= i < x.capture@.len() && (#[trigger] x.capture@[i]).name@ == name)
                || steps_fill(x.on_each@, name, 0),
            Step::Acquire(x) => step_fills(s, name) <==> x.name@ == name || step_fills(
                *x.from,
                name,
            ),
            Step::AcquireFirmware(_) => step_fills(s, name) <==> name == "firmware"@,
            Step::If(x) => step_fills(s, name) <==> steps_fill(x.then_steps@, name, 0)
                || steps_fill(x.else_steps@, name, 0),
            Step::Retry(x) => step_fills(s, name) <==> steps_fill(x.steps@, name, 0),
            Step::NikonLssReadConnectionConfiguration(x) => step_fills(s, name)
                <==> x.flags_capture_as@ == name || x.ssid_capture_as@ == name
                || x.password_capture_as@ == name || x.security_mode_capture_as@ == name || (
            x.spp_max_length_capture_as is Some && x.spp_max_length_capture_as->0@ == name),
            _ => !step_fills(s, name),
        },
{
}

/// All steps of a row fill.
pub proof fn every_step_can_fill(v: Seq<Step>, name: Seq<char>, i: int)
    requires
        0 <= i,
    ensures
        steps_fill(v, name, i) <==> exists|k: int|
            i <= k < v.len() && step_fills(#[trigger] v[k], name),
    decreases v.len() - i,
{
    if i < v.len() {
        every_step_can_fill(v, name, i + 1);
        if step_fills(v[i], name) {
            assert(step_fills(v[i], name));
        }
    }
}

/// An establishment fills what it persists, and what its steps fill, those before a replay too.
pub proof fn establishments_fill_what_they_persist(
    e: EstablishmentBlock,
    name: Seq<char>,
    i: int,
)
    ensures
        0 <= i < e.persist@.len() && e.persist@[i]@ == name ==> establishment_fills(e, name),
        0 <= i < e.steps@.len() && step_fills(e.steps@[i], name) ==> establishment_fills(e, name),
        0 <= i < e.post_exit_readiness@.len() && step_fills(e.post_exit_readiness@[i], name)
            ==> establishment_fills(e, name),
        establishment_fills(e, name) ==> holds_text(e.persist@, name) || (exists|k: int|
            0 <= k < e.steps@.len() && step_fills(#[trigger] e.steps@[k], name)) || (exists|k: int|
            0 <= k < e.post_exit_readiness@.len() && step_fills(
                #[trigger] e.post_exit_readiness@[k],
                name,
            )),
{
    every_step_can_fill(e.steps@, name, 0);
    every_step_can_fill(e.post_exit_readiness@, name, 0);
}

/// Parameters are bound exactly: each of the establishment, and no other.
pub proof fn parameters_are_bound_exactly(
    params: Seq<(String, String)>,
    view: ModelView,
    mechanism: Seq<char>,
    path: Seq<char>,
)
    ensures
        bindings_fault(params, view, mechanism, path) is None <==> view.ble is Some
            && view.ble->0.establishments.at(mechanism) is Some && keys_of(params) == in_order(
            views(view.ble->0.establishments.at(mechanism)->0.params@),
        ),
{
}

/// The edges and the entries of every connection bind their parameters exactly.
pub proof fn every_edge_binds_its_parameters(c: Connection, view: ModelView, path: Seq<char>, i: int)
    requires
        0 <= i,
    ensures
        edge_bindings_fault(c, view, path, i) is None ==> forall|k: int|
            i <= k < c.enables@.len() && (#[trigger] c.enables@[k]).params.entries().len() > 0
                ==> c.enables@[k].mechanism is Some && view.ble is Some
                && view.ble->0.establishments.at(c.enables@[k].mechanism->0@) is Some && keys_of(
                c.enables@[k].params.entries(),
            ) == in_order(
                views(view.ble->0.establishments.at(c.enables@[k].mechanism->0@)->0.params@),
            ),
    decreases c.enables@.len() - i,
{
    if i < c.enables@.len() {
        every_edge_binds_its_parameters(c, view, path, i + 1);
    }
}

/// The entries that leave the session bind the parameters of the connection's establishment.
pub proof fn every_entry_binds_its_parameters(
    c: Connection,
    view: ModelView,
    path: Seq<char>,
    i: int,
    k: int,
)
    requires
        0 <= i <= k < c.entries@.len(),
        entry_bindings_fault(c, view, path, i) is None,
        c.establishment is Some,
    ensures
        c.entries@[k].execution matches ModeEntryExecution::ReestablishConnection(x)
            ==> view.ble is Some && view.ble->0.establishments.at(c.establishment->0@) is Some
            && keys_of(x.params.entries()) == in_order(
            views(view.ble->0.establishments.at(c.establishment->0@)->0.params@),
        ),
    decreases k - i,
{
    if i < k {
        every_entry_binds_its_parameters(c, view, path, i + 1, k);
    }
}

/// A network is compared with a slot that the connection's establishment fills or persists.
pub proof fn networks_are_compared_with_what_is_known(
    c: Connection,
    view: ModelView,
    path: Seq<char>,
    i: int,
    k: int,
)
    requires
        0 <= i <= k < c.activities@.len(),
        scope_fault(c, view, path, i) is None,
    ensures
        identity_of(c.activities@[k]) matches ActivityIdentity::NetworkIdentity(slot)
            ==> c.establishment is Some && registered(view, c.establishment->0@) is Some
            && establishment_fills(registered(view, c.establishment->0@)->0, slot),
    decreases k - i,
{
    if i < k {
        networks_are_compared_with_what_is_known(c, view, path, i + 1, k);
    }
}

/// What an activity is bound to.
pub proof fn activities_are_bound_to_one_thing(d: ConnectionActivityDescriptor)
    ensures
        match d.binding {
            ConnectionActivityBinding::ExecutorSpan(_) => identity_of(d)
                == ActivityIdentity::ExecutorSpan,
            ConnectionActivityBinding::HostCheckpoint(b) => identity_of(d)
                == ActivityIdentity::HostCheckpoint(b.host_checkpoint.name@),
            ConnectionActivityBinding::HostEstablishment(b) => match b.host_establishment {
                ConnectionActivityHostEstablishment::NetworkIdentityExact {
                    network_identity_exact,
                } => identity_of(d) == ActivityIdentity::NetworkIdentity(
                    network_identity_exact.expected_scope@,
                ),
                ConnectionActivityHostEstablishment::RetainedSessionOpen {
                    retained_session_open,
                } => identity_of(d) == ActivityIdentity::RetainedSession(
                    retained_session_open.socket_role,
                ),
            },
        },
{
}

/// The name that a notification tells is that of the connection it suggests, where that expects one.
pub proof fn notified_names_are_the_expected_ones(
    model_id: Seq<char>,
    body: CameraManifest,
    v: Seq<(String, Signature)>,
    i: int,
    k: int,
)
    requires
        0 <= i <= k < v.len(),
        camera_name_fault(model_id, body, v, i) is None,
    ensures
        v[k].1 matches Signature::PcssNotify(s) ==> match body.connections.at(
            s.suggests.connection@,
        ) {
            Some(c) => c.knock is Some && c.knock->0.camera_name is Some
                ==> c.knock->0.camera_name->0@ == s.require.camera_name@,
            None => true,
        },
    decreases k - i,
{
    if i < k {
        notified_names_are_the_expected_ones(model_id, body, v, i + 1, k);
    } else {
        match v[k].1 {
            Signature::PcssNotify(s) => {
                let _ = knock_name(body, s.suggests.connection@);
            },
            _ => {},
        }
    }
}

/// No activity of a connection has an id that one of its establishment has.
pub proof fn ids_of_activities_are_not_repeated(c: Connection, view: ModelView, path: Seq<char>)
    requires
        connection_ids_fault(c, view, path) is None,
        c.establishment is Some,
        registered(view, c.establishment->0@) is Some,
    ensures
        forall|i: int, j: int|
            #![trigger c.activities@[i], registered(view, c.establishment->0@)->0.activities@[j]]
            0 <= i < c.activities@.len() && 0 <= j < registered(
                view,
                c.establishment->0@,
            )->0.activities@.len() ==> c.activities@[i].id@ != registered(
                view,
                c.establishment->0@,
            )->0.activities@[j].id@,
{
    let e = registered(view, c.establishment->0@)->0;
    repeats_checked(c.activities@, e, c.establishment->0@, path, 0);
    assert forall|i: int, j: int|
        #![trigger c.activities@[i], e.activities@[j]]
        0 <= i < c.activities@.len() && 0 <= j < e.activities@.len() implies c.activities@[i].id@
        != e.activities@[j].id@ by {
        assert(!lists_activity(e.activities@, c.activities@[i].id@));
    }
}

/// All activities are checked.
proof fn repeats_checked(
    v: Seq<ConnectionActivityDescriptor>,
    e: EstablishmentBlock,
    mechanism: Seq<char>,
    path: Seq<char>,
    i: int,
)
    requires
        0 <= i,
        repeated_fault(v, e, mechanism, path, i) is None,
    ensures
        forall|k: int|
            i <= k < v.len() ==> !lists_activity(e.activities@, (#[trigger] v[k]).id@),
    decreases v.len() - i,
{
    if i < v.len() {
        repeats_checked(v, e, mechanism, path, i + 1);
    }
}

/// Whether two rows describe one version of an activity.
pub open spec fn one_activity(a: ActivityRow, b: ActivityRow) -> bool {
    a.0.id@ == b.0.id@ && a.0.version == b.0.version
}

/// The first row of an activity is found.
proof fn first_row_found(rows: Seq<ActivityRow>, d: ConnectionActivityDescriptor, i: int, k: int)
    requires
        0 <= i <= k < rows.len(),
        rows[k].0.id@ == d.id@,
        rows[k].0.version == d.version,
    ensures
        i <= first_row(rows, d, i) <= k,
        rows[first_row(rows, d, i)].0.id@ == d.id@,
        rows[first_row(rows, d, i)].0.version == d.version,
    decreases k - i,
{
    if !(rows[i].0.id@ == d.id@ && rows[i].0.version == d.version) {
        first_row_found(rows, d, i + 1, k);
    }
}

/// Two descriptors of one activity give the same first row.
proof fn first_row_same(
    rows: Seq<ActivityRow>,
    d: ConnectionActivityDescriptor,
    e: ConnectionActivityDescriptor,
    i: int,
)
    requires
        0 <= i,
        d.id@ == e.id@,
        d.version == e.version,
    ensures
        first_row(rows, d, i) == first_row(rows, e, i),
    decreases rows.len() - i,
{
    if i < rows.len() && !(rows[i].0.id@ == d.id@ && rows[i].0.version == d.version) {
        first_row_same(rows, d, e, i + 1);
    }
}

/// All rows are checked.
proof fn rows_checked(rows: Seq<ActivityRow>, i: int, k: int)
    requires
        0 <= i <= k < rows.len(),
        metadata_fault(rows, i) is None,
    ensures
        !conflicting(rows[first_row(rows, rows[k].0, 0)].0, rows[k].0),
    decreases k - i,
{
    if i < k {
        rows_checked(rows, i + 1, k);
    }
}

/// Across all models, any two descriptors of one version of an activity agree.
pub proof fn activities_agree_across_models(rows: Seq<ActivityRow>, j: int, k: int)
    requires
        metadata_fault(rows, 0) is None,
        0 <= j < rows.len(),
        0 <= k < rows.len(),
        one_activity(rows[j], rows[k]),
    ensures
        !conflicting(rows[j].0, rows[k].0),
        crate::validate::sequences::agree(rows[j].0, rows[k].0),
{
    rows_checked(rows, 0, j);
    rows_checked(rows, 0, k);
    first_row_found(rows, rows[j].0, 0, j);
    first_row_found(rows, rows[k].0, 0, k);
    first_row_same(rows, rows[j].0, rows[k].0, 0);
}

/// All bodies are checked.
proof fn bodies_checked(models: Seq<ModelView>, bodies: ModelBodies, i: int, k: int)
    requires
        0 <= i <= k < models.len(),
        bodies_fault(models, bodies, i) is None,
    ensures
        body_fault(models[k], bodies.at(models[k].id@)) is None,
    decreases k - i,
{
    if i < k {
        bodies_checked(models, bodies, i + 1, k);
    }
}

/// All transfers are checked.
proof fn transfers_checked(models: Seq<ModelView>, bodies: ModelBodies, i: int, k: int)
    requires
        0 <= i <= k < models.len(),
        transfers_fault(models, bodies, i) is None,
    ensures
        model_transfer_fault(models[k], read_body(bodies, models[k].id@)) is None,
    decreases k - i,
{
    if i < k {
        transfers_checked(models, bodies, i + 1, k);
    }
}

/// All connections of a body bind their parameters.
proof fn connections_bound(
    model_id: Seq<char>,
    s: Seq<(String, Connection)>,
    view: ModelView,
    i: int,
    k: int,
)
    requires
        0 <= i <= k < s.len(),
        reestablishment_fault(model_id, s, view, i) is None,
    ensures
        edge_bindings_fault(
            s[k].1,
            view,
            "models."@ + model_id + ".connections."@ + s[k].0@,
            0,
        ) is None,
        entry_bindings_fault(
            s[k].1,
            view,
            "models."@ + model_id + ".connections."@ + s[k].0@,
            0,
        ) is None,
    decreases k - i,
{
    if i < k {
        connections_bound(model_id, s, view, i + 1, k);
    }
}

/// All connections of a body compare with what is known.
proof fn scopes_checked(
    model_id: Seq<char>,
    s: Seq<(String, Connection)>,
    view: ModelView,
    i: int,
    k: int,
)
    requires
        0 <= i <= k < s.len(),
        scopes_fault(model_id, s, view, i) is None,
    ensures
        scope_fault(s[k].1, view, "models."@ + model_id + ".connections."@ + s[k].0@, 0) is None,
    decreases k - i,
{
    if i < k {
        scopes_checked(model_id, s, view, i + 1, k);
    }
}

/// An index is loaded only with a model, and with the body of every model: of this schema, within
/// the rules on manifests, with parameters that are bound, names that are expected and networks that
/// are known, and with a transfer, where it has one, that can be resolved and recovered.
pub proof fn every_body_is_checked(
    index: ResolvedManufacturerIndex,
    bodies: ModelBodies,
    k: int,
    c: int,
)
    requires
        load_fault(index, bodies) is None,
        0 <= k < index.models@.len(),
    ensures
        ({
            let view = index.models@[k];
            let body = bodies.at(view.id@);
            &&& body is Some && body->0 is Ok
            &&& ({
                let b = *(body->0->Ok_0);
                &&& b.schema@ == "camera-config/v1"@
                &&& manifest_violation(b) is None
                &&& camera_name_fault(view.id@, b, view.signatures@, 0) is None
                &&& 0 <= c < b.connections.entries().len() ==> {
                    let here = "models."@ + view.id@ + ".connections."@
                        + b.connections.entries()[c].0@;
                    &&& edge_bindings_fault(b.connections.entries()[c].1, view, here, 0) is None
                    &&& entry_bindings_fault(b.connections.entries()[c].1, view, here, 0) is None
                    &&& scope_fault(b.connections.entries()[c].1, view, here, 0) is None
                }
                &&& b.camera_initiated_transfer is Some ==> {
                    let t = b.camera_initiated_transfer->0;
                    &&& recovery_fault(view.id@, t, view) is None
                    &&& transfer_fault(view.id@, t, crate::store::model_names(view), b) is None
                }
            })
        }),
{
    let view = index.models@[k];
    bodies_checked(index.models@, bodies, 0, k);
    transfers_checked(index.models@, bodies, 0, k);
    let b = *(bodies.at(view.id@)->0->Ok_0);
    let s = b.connections.entries();
    if 0 <= c < s.len() {
        connections_bound(view.id@, s, view, 0, c);
        scopes_checked(view.id@, s, view, 0, c);
    }
}

/// An index without models is refused.
pub proof fn an_index_has_models(index: ResolvedManufacturerIndex, bodies: ModelBodies)
    requires
        load_fault(index, bodies) is None,
    ensures
        index.models@.len() > 0,
{
}

/// A loaded store has the body of every model, each under its id, no other, and the first one as its
/// manifest.
pub proof fn loaded_stores_hold_every_body(
    s: ConfigStore,
    index: ResolvedManufacturerIndex,
    bodies: ModelBodies,
    k: int,
    id: Seq<char>,
)
    requires
        stores(s, index, bodies),
    ensures
        index.models@.len() > 0,
        s.index is Some && *s.index->0 == index,
        s.manufacturer is None,
        s.bodies.at(index.models@[0].id@) == Some(s.manifest),
        0 <= k < index.models@.len() ==> s.bodies.at(index.models@[k].id@) == read_body(
            bodies,
            index.models@[k].id@,
        ),
        (forall|i: int| 0 <= i < index.models@.len() ==> (#[trigger] index.models@[i]).id@ != id)
            ==> s.bodies.at(id) is None,
{
    let n = index.models@.len() as int;
    assert(holds_bodies(s.bodies, index.models@, bodies, n));
    if 0 <= k < n {
        assert(lists_model(index.models@, index.models@[k].id@, n));
    }
    let _ = s.bodies.at(id);
}

/// The policy of a value is that of the manifest, or else of the manufacturer, or none.
pub proof fn policies_come_from_the_manifest_first(s: ConfigStore, key: Seq<char>)
    ensures
        s.manifest.values.at(key) is Some ==> s.policy(key) == s.manifest.values.at(key),
        s.manifest.values.at(key) is None && s.manufacturer is Some ==> s.policy(key)
            == s.manufacturer->0.values.at(key),
        s.manifest.values.at(key) is None && s.manufacturer is None ==> s.policy(key) is None,
{
}

/// Whether a descriptor is among the rows.
pub open spec fn described(rows: Seq<ActivityRow>, d: ConnectionActivityDescriptor) -> bool {
    exists|i: int| 0 <= i < rows.len() && (#[trigger] rows[i]).0 == d
}

/// Whether rows begin with others.
pub open spec fn extends(a: Seq<ActivityRow>, b: Seq<ActivityRow>) -> bool {
    a.len() <= b.len() && forall|i: int| 0 <= i < a.len() ==> #[trigger] b[i] == a[i]
}

/// Rows keep what they describe.
broadcast proof fn described_stays(
    a: Seq<ActivityRow>,
    b: Seq<ActivityRow>,
    d: ConnectionActivityDescriptor,
)
    requires
        #[trigger] extends(a, b),
        #[trigger] described(a, d),
    ensures
        described(b, d),
{
    let i = choose|i: int| 0 <= i < a.len() && (#[trigger] a[i]).0 == d;
    assert(b[i] == a[i]);
}

/// The activities of a place are described behind it.
proof fn place_described(
    rows: Seq<ActivityRow>,
    v: Seq<ConnectionActivityDescriptor>,
    path: Seq<char>,
)
    ensures
        extends(rows, rows + place_rows(v, path)),
        forall|x: int|
            0 <= x < v.len() ==> described(rows + place_rows(v, path), #[trigger] v[x]),
{
    let all = rows + place_rows(v, path);
    assert forall|x: int| 0 <= x < v.len() implies described(all, #[trigger] v[x]) by {
        assert(all[rows.len() + x].0 == v[x]);
    }
}

/// The activities of establishments are described.
proof fn plans_described(
    rows: Seq<ActivityRow>,
    m: Seq<(String, EstablishmentBlock)>,
    path: Seq<char>,
    i: int,
    k: int,
    x: int,
)
    requires
        0 <= i,
    ensures
        extends(rows, plan_rows(rows, m, path, i)),
        i <= k < m.len() && 0 <= x < m[k].1.activities@.len() ==> described(
            plan_rows(rows, m, path, i),
            m[k].1.activities@[x],
        ),
    decreases m.len() - i,
{
    broadcast use described_stays;

    if i < m.len() {
        let here = path + ".establishments."@ + m[i].0@;
        place_described(rows, m[i].1.activities@, here);
        let next = rows + place_rows(m[i].1.activities@, here);
        plans_described(next, m, path, i + 1, k, x);
        assert(extends(next, plan_rows(rows, m, path, i)));
    }
}

/// The activities of entries are described.
proof fn entries_described(
    rows: Seq<ActivityRow>,
    v: Seq<ModeEntry>,
    path: Seq<char>,
    i: int,
    k: int,
    x: int,
)
    requires
        0 <= i,
    ensures
        extends(rows, entry_rows(rows, v, path, i)),
        i <= k < v.len() && 0 <= x < v[k].activities@.len() ==> described(
            entry_rows(rows, v, path, i),
            v[k].activities@[x],
        ),
    decreases v.len() - i,
{
    broadcast use described_stays;

    if i < v.len() {
        let here = crate::validate::indexed(path, ".entries["@, i);
        place_described(rows, v[i].activities@, here);
        let next = rows + place_rows(v[i].activities@, here);
        entries_described(next, v, path, i + 1, k, x);
        assert(extends(next, entry_rows(rows, v, path, i)));
    }
}

/// The activities of actions are described.
proof fn actions_described(
    rows: Seq<ActivityRow>,
    m: Seq<(ActionVerb, Action)>,
    path: Seq<char>,
    i: int,
    k: int,
    x: int,
)
    requires
        0 <= i,
    ensures
        extends(rows, action_rows(rows, m, path, i)),
        i <= k < m.len() && m[k].1.initiator is Some && 0 <= x
            < m[k].1.initiator->0.activities@.len() ==> described(
            action_rows(rows, m, path, i),
            m[k].1.initiator->0.activities@[x],
        ),
    decreases m.len() - i,
{
    broadcast use described_stays;

    if i < m.len() {
        let here = path + ".actions."@ + crate::validate::entries::verb_label(m[i].0)
            + ".initiator"@;
        match m[i].1.initiator {
            Some(a) => {
                place_described(rows, a.activities@, here);
                let next = rows + place_rows(a.activities@, here);
                actions_described(next, m, path, i + 1, k, x);
                assert(extends(next, action_rows(rows, m, path, i)));
            },
            None => actions_described(rows, m, path, i + 1, k, x),
        }
    }
}

/// Whether a connection has the descriptor: itself, in an entry or in an action.
pub open spec fn connection_has(c: Connection, d: ConnectionActivityDescriptor) -> bool {
    ||| c.activities@.contains(d)
    ||| exists|k: int| 0 <= k < c.entries@.len() && (#[trigger] c.entries@[k]).activities@.contains(d)
    ||| exists|k: int|
        0 <= k < c.actions.entries().len() && (#[trigger] c.actions.entries()[k]).1.initiator is Some
            && c.actions.entries()[k].1.initiator->0.activities@.contains(d)
}

/// The activities of connections are described.
proof fn connections_described(
    rows: Seq<ActivityRow>,
    m: Seq<(String, Connection)>,
    path: Seq<char>,
    i: int,
    k: int,
    d: ConnectionActivityDescriptor,
)
    requires
        0 <= i,
    ensures
        extends(rows, connection_rows(rows, m, path, i)),
        i <= k < m.len() && connection_has(m[k].1, d) ==> described(
            connection_rows(rows, m, path, i),
            d,
        ),
    decreases m.len() - i,
{
    broadcast use described_stays;

    if i < m.len() {
        let c = m[i].1;
        let here = path + ".connections."@ + m[i].0@;
        place_described(rows, c.activities@, here);
        let own = rows + place_rows(c.activities@, here);
        entries_described(own, c.entries@, here, 0, 0, 0);
        let entered = entry_rows(own, c.entries@, here, 0);
        actions_described(entered, c.actions.entries(), here, 0, 0, 0);
        let acted = action_rows(entered, c.actions.entries(), here, 0);
        connections_described(acted, m, path, i + 1, k, d);
        let out = connection_rows(rows, m, path, i);
        assert(extends(acted, out));
        assert(extends(entered, out));
        assert(extends(own, out));
        assert(extends(rows, out));
        if k == i && connection_has(c, d) {
            if c.activities@.contains(d) {
                let x = c.activities@.index_of(d);
                assert(described(own, c.activities@[x]));
            } else if exists|e: int|
                0 <= e < c.entries@.len() && (#[trigger] c.entries@[e]).activities@.contains(d) {
                let e = choose|e: int|
                    0 <= e < c.entries@.len() && (#[trigger] c.entries@[e]).activities@.contains(d);
                let x = c.entries@[e].activities@.index_of(d);
                entries_described(own, c.entries@, here, 0, e, x);
                assert(described(entered, d));
            } else {
                let s = c.actions.entries();
                let e = choose|e: int|
                    0 <= e < s.len() && (#[trigger] s[e]).1.initiator is Some
                        && s[e].1.initiator->0.activities@.contains(d);
                let x = s[e].1.initiator->0.activities@.index_of(d);
                actions_described(entered, s, here, 0, e, x);
                assert(described(acted, d));
            }
        }
    }
}

/// Whether a model has the descriptor: in an establishment or in a connection of its body.
pub open spec fn model_has(
    view: ModelView,
    bodies: ModelBodies,
    d: ConnectionActivityDescriptor,
) -> bool {
    ||| view.ble is Some && exists|k: int|
        0 <= k < view.ble->0.establishments.entries().len() && (
        #[trigger] view.ble->0.establishments.entries()[k]).1.activities@.contains(d)
    ||| read_body(bodies, view.id@) is Some && exists|k: int|
        0 <= k < read_body(bodies, view.id@)->0.connections.entries().len() && connection_has(
            (#[trigger] read_body(bodies, view.id@)->0.connections.entries()[k]).1,
            d,
        )
}

/// The activities of models are described.
proof fn models_described(
    rows: Seq<ActivityRow>,
    models: Seq<ModelView>,
    bodies: ModelBodies,
    i: int,
    k: int,
    d: ConnectionActivityDescriptor,
)
    requires
        0 <= i,
    ensures
        extends(rows, index_rows(rows, models, bodies, i)),
        i <= k < models.len() && model_has(models[k], bodies, d) ==> described(
            index_rows(rows, models, bodies, i),
            d,
        ),
    decreases models.len() - i,
{
    broadcast use described_stays;

    if i < models.len() {
        let view = models[i];
        let path = "models."@ + view.id@;
        let planned = match view.ble {
            Some(b) => plan_rows(rows, b.establishments.entries(), path, 0),
            None => rows,
        };
        if let Some(b) = view.ble {
            plans_described(rows, b.establishments.entries(), path, 0, 0, 0);
        }
        let all = match read_body(bodies, view.id@) {
            Some(b) => connection_rows(planned, b.connections.entries(), path, 0),
            None => planned,
        };
        if let Some(b) = read_body(bodies, view.id@) {
            connections_described(planned, b.connections.entries(), path, 0, 0, d);
        }
        models_described(all, models, bodies, i + 1, k, d);
        let out = index_rows(rows, models, bodies, i);
        assert(extends(all, out));
        assert(extends(planned, out));
        assert(extends(rows, out));
        if k == i && model_has(view, bodies, d) {
            if view.ble is Some && exists|e: int|
                0 <= e < view.ble->0.establishments.entries().len() && (
                #[trigger] view.ble->0.establishments.entries()[e]).1.activities@.contains(d) {
                let s = view.ble->0.establishments.entries();
                let e = choose|e: int|
                    0 <= e < s.len() && (#[trigger] s[e]).1.activities@.contains(d);
                let x = s[e].1.activities@.index_of(d);
                plans_described(rows, s, path, 0, e, x);
                assert(described(planned, d));
            } else {
                let s = read_body(bodies, view.id@)->0.connections.entries();
                let e = choose|e: int| 0 <= e < s.len() && connection_has((#[trigger] s[e]).1, d);
                connections_described(planned, s, path, 0, e, d);
                assert(described(all, d));
            }
        }
    }
}

/// In an index that is loaded, any two descriptors of one version of an activity agree, in whichever
/// models and places they stand.
pub proof fn loaded_activities_agree(
    index: ResolvedManufacturerIndex,
    bodies: ModelBodies,
    j: int,
    k: int,
    a: ConnectionActivityDescriptor,
    b: ConnectionActivityDescriptor,
)
    requires
        load_fault(index, bodies) is None,
        0 <= j < index.models@.len(),
        0 <= k < index.models@.len(),
        model_has(index.models@[j], bodies, a),
        model_has(index.models@[k], bodies, b),
    ensures
        crate::validate::sequences::agree(a, b),
{
    let rows = index_rows(Seq::empty(), index.models@, bodies, 0);
    models_described(Seq::empty(), index.models@, bodies, 0, j, a);
    models_described(Seq::empty(), index.models@, bodies, 0, k, b);
    let x = choose|x: int| 0 <= x < rows.len() && (#[trigger] rows[x]).0 == a;
    let y = choose|y: int| 0 <= y < rows.len() && (#[trigger] rows[y]).0 == b;
    if a.id@ == b.id@ && a.version == b.version {
        activities_agree_across_models(rows, x, y);
    }
}

/// All connections are checked for repeated ids.
proof fn ids_checked(m: Seq<(String, Connection)>, view: ModelView, i: int, k: int)
    requires
        0 <= i <= k < m.len(),
        connections_ids_fault(m, view, i) is None,
    ensures
        connection_ids_fault(
            m[k].1,
            view,
            "models."@ + view.id@ + ".connections."@ + m[k].0@,
        ) is None,
    decreases k - i,
{
    if i < k {
        ids_checked(m, view, i + 1, k);
    }
}

/// All models are checked for repeated ids.
proof fn models_ids_checked(models: Seq<ModelView>, bodies: ModelBodies, i: int, k: int)
    requires
        0 <= i <= k < models.len(),
        merged_ids_fault(models, bodies, i) is None,
        read_body(bodies, models[k].id@) is Some,
    ensures
        connections_ids_fault(
            read_body(bodies, models[k].id@)->0.connections.entries(),
            models[k],
            0,
        ) is None,
    decreases k - i,
{
    if i < k {
        models_ids_checked(models, bodies, i + 1, k);
    }
}

/// In an index that is loaded no connection repeats the id of an activity of its establishment.
pub proof fn loaded_connections_repeat_no_id(
    index: ResolvedManufacturerIndex,
    bodies: ModelBodies,
    k: int,
    c: int,
)
    requires
        load_fault(index, bodies) is None,
        0 <= k < index.models@.len(),
        read_body(bodies, index.models@[k].id@) is Some,
        0 <= c < read_body(bodies, index.models@[k].id@)->0.connections.entries().len(),
    ensures
        ({
            let e = read_body(bodies, index.models@[k].id@)->0.connections.entries()[c];
            connection_ids_fault(
                e.1,
                index.models@[k],
                "models."@ + index.models@[k].id@ + ".connections."@ + e.0@,
            ) is None
        }),
{
    let s = read_body(bodies, index.models@[k].id@)->0.connections.entries();
    models_ids_checked(index.models@, bodies, 0, k);
    ids_checked(s, index.models@[k], 0, c);
}

/// The transfer of a model, where no later model has its id, is held as it is resolved.
pub proof fn loaded_stores_hold_every_transfer(
    s: ConfigStore,
    index: ResolvedManufacturerIndex,
    bodies: ModelBodies,
    k: int,
)
    requires
        stores(s, index, bodies),
        0 <= k < index.models@.len(),
        forall|j: int|
            k < j < index.models@.len() ==> (#[trigger] index.models@[j]).id@
                != index.models@[k].id@,
        read_body(bodies, index.models@[k].id@) is Some,
        read_body(bodies, index.models@[k].id@)->0.camera_initiated_transfer is Some,
    ensures
        ({
            let id = index.models@[k].id@;
            let b = read_body(bodies, id)->0;
            let held = s.resolved_camera_initiated_transfer_by_model.at(id);
            held is Some && resolves_transfer(
                *(held->0),
                b.camera_initiated_transfer->0,
                crate::store::model_names(index.models@[k]),
                *b,
            )
        }),
{
    let id = index.models@[k].id@;
    let held = s.resolved_camera_initiated_transfer_by_model.at(id);
    assert(transfer_held(held, index.models@, bodies, id, index.models@.len() as int));
    held_by_last(held, index.models@, bodies, id, index.models@.len() as int, k);
}

/// What is held under an id is that of the last model with it.
proof fn held_by_last(
    held: Option<std::sync::Arc<ResolvedCameraInitiatedTransfer>>,
    models: Seq<ModelView>,
    bodies: ModelBodies,
    id: Seq<char>,
    n: int,
    k: int,
)
    requires
        0 <= k < n <= models.len(),
        models[k].id@ == id,
        forall|j: int| k < j < n ==> (#[trigger] models[j]).id@ != id,
        transfer_held(held, models, bodies, id, n),
    ensures
        transfer_held(held, models, bodies, id, k + 1),
    decreases n,
{
    if n > k + 1 {
        assert(models[n - 1].id@ != id);
        held_by_last(held, models, bodies, id, n - 1, k);
    }
}

} // verus!
