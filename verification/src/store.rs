//! The loaded configuration of one manufacturer.

use crate::activity::{
    conflicting, identity_of, ActivityIdentity, ConnectionActivityBinding, ConnectionActivityDescriptor,
    ConnectionActivityHostEstablishment,
};
use crate::error::{faults, first_fault, invalid, ConfigError, ConfigFault};
use crate::index::parse::{names_of, resolve_one_gatt_name, resolved_gatt};
use crate::index::types::{
    EstablishmentBlock, ModelView, NotifyCapture, ResolvedManufacturerIndex, Signature, Step,
};
use crate::model::{
    binding_port, hex_bytes, hex_code, parse_hex_bytes, parse_hex_code, role_binding, Action,
    ActionVerb, BleLiteralWrite, BleStateTrigger, CameraInitiatedHandoff, CameraInitiatedMetadataPhase,
    CameraInitiatedMonitorRecovery, CameraInitiatedReceive, CameraInitiatedTransfer, CameraManifest,
    Connection, ManufacturerDefaults, ModeEntry, ModeEntryExecution, SocketBindings, SocketRole, TransferCompletion, TriggerMatch,
    ValuePolicy,
};
use crate::name_map::NameMap;
use crate::order::{arrange, arranged, models_of};
use crate::query::{available_ids_from, str_views};
use crate::text::{
    contains_text, copy_option, copy_texts, debug_texts, decimal, holds_text, join2, join3, join4,
    join5, join6, join7, optional_text, same, same_texts, text_debug, texts_debug, u64_text, views,
};
use crate::validate::entries::{manifest_violation, verb_label, verb_name};
use crate::validate::steps::{role_name, role_text};
use crate::validate::{index_path, indexed};
use crate::version::VersionScheme;
use crate::SCHEMA_VERSION;
use std::sync::Arc;
use vstd::prelude::*;

verus! {

/// A camera: a body manifest, and what its manufacturer declares around it.
#[derive(Debug)]
pub struct ConfigStore {
    pub manifest: Arc<CameraManifest>,
    pub manufacturer: Option<Arc<ManufacturerDefaults>>,
    /// Present when loaded via `ConfigStore::from_manufacturer_index`: the resolved
    /// manufacturer index (signatures, family-merged BLE blocks, per-model views).
    pub index: Option<Arc<ResolvedManufacturerIndex>>,
    /// All model body manifests keyed by model id.
    pub bodies: NameMap<Arc<CameraManifest>>,
    /// Manufacturer-index-resolved camera-initiated transfer by model id.
    pub resolved_camera_initiated_transfer_by_model:
        NameMap<Arc<ResolvedCameraInitiatedTransfer>>,
}

#[derive(Debug, Clone, PartialEq, Eq)]
pub struct ResolvedCameraInitiatedTransfer {
    pub trigger_match: TriggerMatch,
    pub trigger_states: Vec<ResolvedBleStateTrigger>,
    pub connection: String,
    pub socket_role: SocketRole,
    pub endpoint_host: Option<String>,
    pub endpoint_port: u16,
    pub cached_credentials_allowed: bool,
    pub monitor_recovery: Option<CameraInitiatedMonitorRecovery>,
    pub function_launch: Option<ResolvedBleLiteralWrite>,
    pub mode: String,
    pub count_property: u16,
    pub count_member: u16,
    pub head_index: u32,
    pub metadata_operation: u16,
    pub metadata_phases: Vec<CameraInitiatedMetadataPhase>,
    pub data_operation: u16,
    pub chunk_limit_property: u16,
    pub completion: TransferCompletion,
    pub evidence: Vec<String>,
}

#[derive(Debug, Clone, PartialEq, Eq)]
pub struct ResolvedBleStateTrigger {
    pub gatt_uuid: String,
    pub trigger_values: Vec<Vec<u8>>,
    pub baseline_values: Vec<Vec<u8>>,
}

#[derive(Debug, Clone, PartialEq, Eq)]
pub struct ResolvedBleLiteralWrite {
    pub gatt_uuid: String,
    pub value: Vec<u8>,
    pub required: bool,
}

/// The fault of a value at a path.
fn refuse<T>(path: String, message: String) -> (r: Result<T, ConfigError>)
    ensures
        r matches Err(e) && e@ == invalid(path@, message@),
{
    Err(ConfigError::Validation { path, message })
}

/// The first of a row of texts, from `i` on, that writes no bytes.
pub open spec fn bytes_fault(v: Seq<String>, path: Seq<char>, i: int) -> Option<ConfigFault>
    decreases v.len() - i,
{
    if i < 0 || i >= v.len() {
        None
    } else if hex_bytes(v[i]@) is None {
        Some(invalid(indexed(path, "["@, i), "invalid hex bytes '"@ + v[i]@ + "'"@))
    } else {
        bytes_fault(v, path, i + 1)
    }
}

/// Whether rows of bytes are what a row of texts writes.
pub open spec fn reads_bytes(r: Seq<Vec<u8>>, v: Seq<String>) -> bool {
    r.len() == v.len() && forall|i: int|
        0 <= i < v.len() ==> hex_bytes(v[i]@) == Some((#[trigger] r[i])@)
}

/// The bytes that a row of texts writes.
fn parse_rows(v: &Vec<String>, path: &str) -> (r: Result<Vec<Vec<u8>>, ConfigError>)
    ensures
        match bytes_fault(v@, path@, 0) {
            Some(f) => r matches Err(e) && e@ == f,
            None => r matches Ok(x) && reads_bytes(x@, v@),
        },
{
    let mut out: Vec<Vec<u8>> = Vec::new();
    let mut i: usize = 0;
    while i < v.len()
        invariant
            i <= v@.len(),
            out@.len() == i,
            forall|k: int| 0 <= k < i ==> hex_bytes(v@[k]@) == Some((#[trigger] out@[k])@),
            bytes_fault(v@, path@, 0) == bytes_fault(v@, path@, i as int),
        decreases v@.len() - i,
    {
        match parse_hex_bytes(v[i].as_str()) {
            Some(b) => {
                out.push(b);
            },
            None => {
                return refuse(
                    index_path(path, "[", i),
                    join3("invalid hex bytes '", v[i].as_str(), "'"),
                );
            },
        }
        i = i + 1;
    }
    Ok(out)
}

/// The fault of a GATT name.
pub open spec fn gatt_fault(
    name: Seq<char>,
    names: Map<Seq<char>, Seq<char>>,
    path: Seq<char>,
) -> Option<ConfigFault> {
    match resolved_gatt(name, names, path) {
        Ok(_) => None,
        Err(f) => Some(f),
    }
}

/// The first fault of the trigger states from `i` on.
pub open spec fn states_fault(
    v: Seq<BleStateTrigger>,
    names: Map<Seq<char>, Seq<char>>,
    path: Seq<char>,
    i: int,
) -> Option<ConfigFault>
    decreases v.len() - i,
{
    if i < 0 || i >= v.len() {
        None
    } else {
        let here = indexed(path, ".trigger.states["@, i);
        first_fault(
            gatt_fault(v[i].gatt@, names, here),
            first_fault(
                bytes_fault(v[i].trigger_values@, here + ".triggerValues"@, 0),
                first_fault(
                    bytes_fault(v[i].baseline_values@, here + ".baselineValues"@, 0),
                    states_fault(v, names, path, i + 1),
                ),
            ),
        )
    }
}

/// Whether a resolved trigger state is that of a declaration.
pub open spec fn resolves_state(
    r: ResolvedBleStateTrigger,
    s: BleStateTrigger,
    names: Map<Seq<char>, Seq<char>>,
) -> bool {
    &&& resolved_gatt(s.gatt@, names, Seq::empty()) == Ok::<Seq<char>, ConfigFault>(r.gatt_uuid@)
    &&& reads_bytes(r.trigger_values@, s.trigger_values@)
    &&& reads_bytes(r.baseline_values@, s.baseline_values@)
}

/// The trigger states with their GATT names and values resolved.
fn resolve_states(v: &Vec<BleStateTrigger>, gatt: &NameMap<String>, path: &str) -> (r: Result<
    Vec<ResolvedBleStateTrigger>,
    ConfigError,
>)
    ensures
        match states_fault(v@, names_of(*gatt), path@, 0) {
            Some(f) => r matches Err(e) && e@ == f,
            None => r matches Ok(x) && x@.len() == v@.len() && forall|i: int|
                0 <= i < x@.len() ==> resolves_state(#[trigger] x@[i], v@[i], names_of(*gatt)),
        },
{
    let mut out: Vec<ResolvedBleStateTrigger> = Vec::new();
    let mut i: usize = 0;
    while i < v.len()
        invariant
            i <= v@.len(),
            out@.len() == i,
            forall|k: int|
                0 <= k < i ==> resolves_state(#[trigger] out@[k], v@[k], names_of(*gatt)),
            states_fault(v@, names_of(*gatt), path@, 0) == states_fault(
                v@,
                names_of(*gatt),
                path@,
                i as int,
            ),
        decreases v@.len() - i,
    {
        let here = index_path(path, ".trigger.states[", i);
        let gatt_uuid = match resolve_one_gatt_name(v[i].gatt.as_str(), gatt, here.as_str()) {
            Ok(u) => u,
            Err(e) => {
                return Err(e);
            },
        };
        let at = join2(here.as_str(), ".triggerValues");
        let trigger_values = match parse_rows(&v[i].trigger_values, at.as_str()) {
            Ok(x) => x,
            Err(e) => {
                return Err(e);
            },
        };
        let at_baseline = join2(here.as_str(), ".baselineValues");
        let baseline_values = match parse_rows(&v[i].baseline_values, at_baseline.as_str()) {
            Ok(x) => x,
            Err(e) => {
                return Err(e);
            },
        };
        out.push(ResolvedBleStateTrigger { gatt_uuid, trigger_values, baseline_values });
        i = i + 1;
    }
    Ok(out)
}

/// The fault of a PTP code.
pub open spec fn code_fault(s: Seq<char>, path: Seq<char>) -> Option<ConfigFault> {
    if hex_code(s) is None {
        Some(invalid(path, "invalid PTP code '"@ + s + "'"@))
    } else {
        None
    }
}

/// The PTP code that a text writes.
fn parse_code(s: &str, path: &str, suffix: &str) -> (r: Result<u16, ConfigError>)
    ensures
        match code_fault(s@, path@ + suffix@) {
            Some(f) => r matches Err(e) && e@ == f,
            None => r matches Ok(c) && hex_code(s@) == Some(c),
        },
{
    match parse_hex_code(s) {
        Some(c) => Ok(c),
        None => refuse(join2(path, suffix), join3("invalid PTP code '", s, "'")),
    }
}

/// Whether sockets bind a port to a role.
pub open spec fn binds_port(b: SocketBindings, role: SocketRole, port: u16) -> bool {
    match role_binding(b, role) {
        Some(x) => port == binding_port(x),
        None => false,
    }
}

/// The fault of the endpoint that a transfer is handed over to.
pub open spec fn endpoint_fault(h: CameraInitiatedHandoff, body: CameraManifest, path: Seq<char>) -> Option<
    ConfigFault,
> {
    match body.connections.at(h.connection@) {
        None => Some(
            invalid(
                path + ".handoff.connection"@,
                "unknown connection '"@ + h.connection@ + "'"@,
            ),
        ),
        Some(c) => match c.bindings {
            None => Some(
                invalid(path + ".handoff.socketRole"@, "connection has no socket bindings"@),
            ),
            Some(b) => if role_binding(b, h.socket_role) is None {
                Some(
                    invalid(
                        path + ".handoff.socketRole"@,
                        "connection does not bind role '"@ + role_text(h.socket_role) + "'"@,
                    ),
                )
            } else {
                None
            },
        },
    }
}

/// The fault of the write that launches a function.
pub open spec fn launch_fault(
    o: Option<BleLiteralWrite>,
    names: Map<Seq<char>, Seq<char>>,
    path: Seq<char>,
) -> Option<ConfigFault> {
    match o {
        None => None,
        Some(w) => first_fault(
            gatt_fault(w.gatt@, names, path + ".handoff.functionLaunch"@),
            if hex_bytes(w.value@) is None {
                Some(
                    invalid(
                        path + ".handoff.functionLaunch.value"@,
                        "invalid hex bytes '"@ + w.value@ + "'"@,
                    ),
                )
            } else {
                None
            },
        ),
    }
}

/// The first fault of what a transfer receives.
pub open spec fn receive_fault(t: CameraInitiatedReceive, path: Seq<char>) -> Option<ConfigFault> {
    first_fault(
        code_fault(t.count.property@, path + ".receive.count.property"@),
        first_fault(
            code_fault(t.count.member@, path + ".receive.count.member"@),
            first_fault(
                code_fault(t.metadata.operation@, path + ".receive.metadata.operation"@),
                first_fault(
                    code_fault(t.data.operation@, path + ".receive.data.operation"@),
                    code_fault(
                        t.data.chunk_limit_property@,
                        path + ".receive.data.chunkLimitProperty"@,
                    ),
                ),
            ),
        ),
    )
}

/// The first fault of a camera-initiated transfer.
pub open spec fn transfer_fault(
    model_id: Seq<char>,
    t: CameraInitiatedTransfer,
    names: Map<Seq<char>, Seq<char>>,
    body: CameraManifest,
) -> Option<ConfigFault> {
    let path = "models."@ + model_id + ".cameraInitiatedTransfer"@;
    first_fault(
        states_fault(t.trigger.states@, names, path, 0),
        first_fault(
            endpoint_fault(t.handoff, body, path),
            first_fault(
                launch_fault(t.handoff.function_launch, names, path),
                receive_fault(t.receive, path),
            ),
        ),
    )
}

/// Whether a resolved write is that of a declaration.
pub open spec fn resolves_launch(
    r: Option<ResolvedBleLiteralWrite>,
    o: Option<BleLiteralWrite>,
    names: Map<Seq<char>, Seq<char>>,
) -> bool {
    match o {
        None => r is None,
        Some(w) => r matches Some(x) && resolved_gatt(w.gatt@, names, Seq::empty()) == Ok::<
            Seq<char>,
            ConfigFault,
        >(x.gatt_uuid@) && hex_bytes(w.value@) == Some(x.value@) && x.required == w.required,
    }
}

/// Whether a resolved transfer is that of a declaration: every GATT name a UUID, every code and
/// value a number or bytes, and the endpoint that of the connection.
pub open spec fn resolves_transfer(
    r: ResolvedCameraInitiatedTransfer,
    t: CameraInitiatedTransfer,
    names: Map<Seq<char>, Seq<char>>,
    body: CameraManifest,
) -> bool {
    &&& r.trigger_match == t.trigger.match_mode
    &&& r.trigger_states@.len() == t.trigger.states@.len()
    &&& forall|i: int|
        0 <= i < r.trigger_states@.len() ==> resolves_state(
            #[trigger] r.trigger_states@[i],
            t.trigger.states@[i],
            names,
        )
    &&& r.connection@ == t.handoff.connection@
    &&& r.socket_role == t.handoff.socket_role
    &&& body.connections.at(t.handoff.connection@) matches Some(c) && c.bindings matches Some(b)
        && optional_text(r.endpoint_host) == optional_text(b.host) && binds_port(
        b,
        t.handoff.socket_role,
        r.endpoint_port,
    )
    &&& r.cached_credentials_allowed == t.handoff.cached_credentials_allowed
    &&& r.monitor_recovery == t.monitor_recovery
    &&& resolves_launch(r.function_launch, t.handoff.function_launch, names)
    &&& r.mode@ == t.receive.mode@
    &&& hex_code(t.receive.count.property@) == Some(r.count_property)
    &&& hex_code(t.receive.count.member@) == Some(r.count_member)
    &&& r.head_index == t.receive.head_index
    &&& hex_code(t.receive.metadata.operation@) == Some(r.metadata_operation)
    &&& r.metadata_phases@ == t.receive.metadata.phases@
    &&& hex_code(t.receive.data.operation@) == Some(r.data_operation)
    &&& hex_code(t.receive.data.chunk_limit_property@) == Some(r.chunk_limit_property)
    &&& r.completion == t.receive.completion
    &&& views(r.evidence@) == views(t.evidence@)
}

/// A copy of metadata phases.
fn copy_phases(v: &Vec<CameraInitiatedMetadataPhase>) -> (r: Vec<CameraInitiatedMetadataPhase>)
    ensures
        r@ == v@,
{
    let mut out: Vec<CameraInitiatedMetadataPhase> = Vec::new();
    let mut i: usize = 0;
    while i < v.len()
        invariant
            i <= v@.len(),
            out@ == v@.take(i as int),
        decreases v@.len() - i,
    {
        out.push(v[i]);
        i = i + 1;
    }
    proof {
        assert(v@.take(v@.len() as int) == v@);
    }
    out
}

/// The write that launches a function, with its GATT name and value resolved.
fn resolve_launch(o: &Option<BleLiteralWrite>, gatt: &NameMap<String>, path: &str) -> (r: Result<
    Option<ResolvedBleLiteralWrite>,
    ConfigError,
>)
    ensures
        match launch_fault(*o, names_of(*gatt), path@) {
            Some(f) => r matches Err(e) && e@ == f,
            None => r matches Ok(x) && resolves_launch(x, *o, names_of(*gatt)),
        },
{
    match o {
        None => Ok(None),
        Some(w) => {
            let at = join2(path, ".handoff.functionLaunch");
            let gatt_uuid = match resolve_one_gatt_name(w.gatt.as_str(), gatt, at.as_str()) {
                Ok(u) => u,
                Err(e) => {
                    return Err(e);
                },
            };
            match parse_hex_bytes(w.value.as_str()) {
                Some(value) => Ok(
                    Some(ResolvedBleLiteralWrite { gatt_uuid, value, required: w.required }),
                ),
                None => refuse(
                    join2(path, ".handoff.functionLaunch.value"),
                    join3("invalid hex bytes '", w.value.as_str(), "'"),
                ),
            }
        },
    }
}

/// The sockets of the connection that a transfer is handed over to.
fn resolve_endpoint<'a>(h: &CameraInitiatedHandoff, body: &'a CameraManifest, path: &str) -> (r:
    Result<(&'a SocketBindings, u16), ConfigError>)
    ensures
        match endpoint_fault(*h, *body, path@) {
            Some(f) => r matches Err(e) && e@ == f,
            None => r matches Ok((b, port)) && body.connections.at(h.connection@) matches Some(c)
                && c.bindings == Some(*b) && binds_port(*b, h.socket_role, port),
        },
{
    match body.connections.get(h.connection.as_str()) {
        None => refuse(
            join2(path, ".handoff.connection"),
            join3("unknown connection '", h.connection.as_str(), "'"),
        ),
        Some(c) => match &c.bindings {
            None => refuse(
                join2(path, ".handoff.socketRole"),
                "connection has no socket bindings".to_owned(),
            ),
            Some(b) => match b.port_for(h.socket_role) {
                Some(port) => Ok((b, port)),
                None => refuse(
                    join2(path, ".handoff.socketRole"),
                    join3("connection does not bind role '", role_name(h.socket_role), "'"),
                ),
            },
        },
    }
}

/// Resolves a camera-initiated transfer against a GATT catalog and the body's connections.
pub fn resolve_camera_initiated_transfer(
    model_id: &str,
    transfer: &CameraInitiatedTransfer,
    gatt: &NameMap<String>,
    body: &CameraManifest,
) -> (r: Result<ResolvedCameraInitiatedTransfer, ConfigError>)
    ensures
        match transfer_fault(model_id@, *transfer, names_of(*gatt), *body) {
            Some(f) => r matches Err(e) && e@ == f,
            None => r matches Ok(x) && resolves_transfer(x, *transfer, names_of(*gatt), *body),
        },
{
    let whole = join3("models.", model_id, ".cameraInitiatedTransfer");
    let path = whole.as_str();
    let trigger_states = match resolve_states(&transfer.trigger.states, gatt, path) {
        Ok(x) => x,
        Err(e) => {
            return Err(e);
        },
    };
    let handoff = &transfer.handoff;
    let (bindings, endpoint_port) = match resolve_endpoint(handoff, body, path) {
        Ok(x) => x,
        Err(e) => {
            return Err(e);
        },
    };
    let function_launch = match resolve_launch(&handoff.function_launch, gatt, path) {
        Ok(x) => x,
        Err(e) => {
            return Err(e);
        },
    };
    let receive = &transfer.receive;
    let count_property: u16 = match parse_code(
        receive.count.property.as_str(),
        path,
        ".receive.count.property",
    ) {
        Ok(c) => c,
        Err(e) => {
            return Err(e);
        },
    };
    let count_member: u16 = match parse_code(
        receive.count.member.as_str(),
        path,
        ".receive.count.member",
    ) {
        Ok(c) => c,
        Err(e) => {
            return Err(e);
        },
    };
    let metadata_operation: u16 = match parse_code(
        receive.metadata.operation.as_str(),
        path,
        ".receive.metadata.operation",
    ) {
        Ok(c) => c,
        Err(e) => {
            return Err(e);
        },
    };
    let data_operation: u16 = match parse_code(
        receive.data.operation.as_str(),
        path,
        ".receive.data.operation",
    ) {
        Ok(c) => c,
        Err(e) => {
            return Err(e);
        },
    };
    let chunk_limit_property: u16 = match parse_code(
        receive.data.chunk_limit_property.as_str(),
        path,
        ".receive.data.chunkLimitProperty",
    ) {
        Ok(c) => c,
        Err(e) => {
            return Err(e);
        },
    };
    Ok(
        ResolvedCameraInitiatedTransfer {
            trigger_match: transfer.trigger.match_mode,
            trigger_states,
            connection: handoff.connection.clone(),
            socket_role: handoff.socket_role,
            endpoint_host: copy_option(&bindings.host),
            endpoint_port,
            cached_credentials_allowed: handoff.cached_credentials_allowed,
            monitor_recovery: transfer.monitor_recovery,
            function_launch,
            mode: receive.mode.clone(),
            count_property,
            count_member,
            head_index: receive.head_index,
            metadata_operation,
            metadata_phases: copy_phases(&receive.metadata.phases),
            data_operation,
            chunk_limit_property,
            completion: receive.completion,
            evidence: copy_texts(&transfer.evidence),
        },
    )
}

/// Whether a signature of a model tells how to reconnect.
pub open spec fn has_route(v: Seq<(String, Signature)>) -> bool {
    exists|i: int| 0 <= i < v.len() && is_route((#[trigger] v[i]).1)
}

/// Whether a signature tells how to reconnect.
pub open spec fn is_route(s: Signature) -> bool {
    s matches Signature::BleAdvert(a) && a.reconnect is Some
}

/// The fault of the route that a transfer monitor recovers by: where it is that of a saved camera,
/// the model must have a reconnect policy and a route.
pub open spec fn recovery_fault(model_id: Seq<char>, t: CameraInitiatedTransfer, view: ModelView) -> Option<
    ConfigFault,
> {
    let path = "models."@ + model_id + ".cameraInitiatedTransfer.monitorRecovery"@;
    if t.monitor_recovery is None {
        None
    } else {
        match view.ble {
            None => Some(
                invalid(path, "savedCameraReconnect requires a BLE reconnect policy"@),
            ),
            Some(ble) => if ble.reconnect is None {
                Some(invalid(path, "savedCameraReconnect requires ble.reconnect"@))
            } else if !has_route(view.signatures@) {
                Some(
                    invalid(
                        path,
                        "savedCameraReconnect requires at least one BLE reconnect route"@,
                    ),
                )
            } else {
                None
            },
        }
    }
}

/// Whether a signature of a model tells how to reconnect.
fn finds_route(v: &Vec<(String, Signature)>) -> (r: bool)
    ensures
        r == has_route(v@),
{
    let mut i: usize = 0;
    while i < v.len()
        invariant
            i <= v@.len(),
            forall|k: int| 0 <= k < i ==> !is_route((#[trigger] v@[k]).1),
        decreases v@.len() - i,
    {
        match &v[i].1 {
            Signature::BleAdvert(a) => {
                if a.reconnect.is_some() {
                    proof {
                        assert(is_route(v@[i as int].1));
                    }
                    return true;
                }
            },
            Signature::PcssNotify(_) => {},
        }
        i = i + 1;
    }
    false
}

/// Checks the route that a transfer monitor recovers by.
fn validate_camera_initiated_monitor_recovery(
    model_id: &str,
    transfer: &CameraInitiatedTransfer,
    view: &ModelView,
) -> (r: Result<(), ConfigError>)
    ensures
        faults(r, recovery_fault(model_id@, *transfer, *view)),
{
    match transfer.monitor_recovery {
        None => {
            return Ok(());
        },
        Some(CameraInitiatedMonitorRecovery::SavedCameraReconnect) => {},
    }
    let path = join3("models.", model_id, ".cameraInitiatedTransfer.monitorRecovery");
    match &view.ble {
        None => refuse(
            path,
            "savedCameraReconnect requires a BLE reconnect policy".to_owned(),
        ),
        Some(ble) => {
            if ble.reconnect.is_none() {
                return refuse(path, "savedCameraReconnect requires ble.reconnect".to_owned());
            }
            if !finds_route(&view.signatures) {
                return refuse(
                    path,
                    "savedCameraReconnect requires at least one BLE reconnect route".to_owned(),
                );
            }
            Ok(())
        },
    }
}

/// Whether a text is among the scope slots that steps from `i` on fill.
pub open spec fn steps_fill(v: Seq<Step>, name: Seq<char>, i: int) -> bool
    decreases v, v.len() - i,
{
    0 <= i < v.len() && (step_fills(v[i], name) || steps_fill(v, name, i + 1))
}

/// Whether a capture has a name.
pub open spec fn captures(v: Seq<NotifyCapture>, name: Seq<char>) -> bool {
    exists|i: int| 0 <= i < v.len() && (#[trigger] v[i]).name@ == name
}

/// Whether a step fills a scope slot, itself or by a step within it.
pub open spec fn step_fills(s: Step, name: Seq<char>) -> bool
    decreases s, 0int,
{
    match s {
        Step::BleRead(x) => x.capture_as@ == name,
        Step::BlePeripheralName(x) => x.capture_as@ == name,
        Step::BleNotify(x) => optional_text(x.capture_as) == Some(name) || captures(x.capture@, name),
        Step::BleAwaitUntil(x) => optional_text(x.capture_as) == Some(name) || captures(
            x.capture@,
            name,
        ) || steps_fill(x.on_each@, name, 0),
        Step::Acquire(x) => x.name@ == name || step_fills(*x.from, name),
        Step::AcquireFirmware(_) => name == "firmware"@,
        Step::If(x) => steps_fill(x.then_steps@, name, 0) || steps_fill(x.else_steps@, name, 0),
        Step::Retry(x) => steps_fill(x.steps@, name, 0),
        Step::NikonLssReadConnectionConfiguration(x) => x.flags_capture_as@ == name
            || x.ssid_capture_as@ == name || x.password_capture_as@ == name
            || x.security_mode_capture_as@ == name || optional_text(x.spp_max_length_capture_as)
            == Some(name),
        _ => false,
    }
}

/// Whether an establishment persists or fills a scope slot.
pub open spec fn establishment_fills(e: EstablishmentBlock, name: Seq<char>) -> bool {
    holds_text(e.persist@, name) || steps_fill(e.post_exit_readiness@, name, 0) || steps_fill(
        e.steps@,
        name,
        0,
    )
}

/// Whether an optional text is the given one.
fn is_text(o: &Option<String>, name: &str) -> (r: bool)
    ensures
        r == (optional_text(*o) == Some(name@)),
{
    match o {
        Some(s) => same(s.as_str(), name),
        None => false,
    }
}

/// Whether a capture has a name.
fn finds_capture(v: &Vec<NotifyCapture>, name: &str) -> (r: bool)
    ensures
        r == captures(v@, name@),
{
    let mut i: usize = 0;
    while i < v.len()
        invariant
            i <= v@.len(),
            forall|k: int| 0 <= k < i ==> (#[trigger] v@[k]).name@ != name@,
        decreases v@.len() - i,
    {
        if same(v[i].name.as_str(), name) {
            proof {
                assert(v@[i as int].name@ == name@);
            }
            return true;
        }
        i = i + 1;
    }
    false
}

/// Whether a scope slot is among those that steps fill.
fn steps_output(v: &Vec<Step>, name: &str) -> (r: bool)
    ensures
        r == steps_fill(v@, name@, 0),
    decreases v, 1int,
{
    let mut i: usize = 0;
    while i < v.len()
        invariant
            i <= v@.len(),
            steps_fill(v@, name@, 0) == steps_fill(v@, name@, i as int),
        decreases v@.len() - i,
    {
        proof {
            assert(decreases_to!(v@ => v@[i as int]));
        }
        if step_outputs(&v[i], name) {
            return true;
        }
        i = i + 1;
    }
    false
}

/// Whether a step fills a scope slot.
fn step_outputs(s: &Step, name: &str) -> (r: bool)
    ensures
        r == step_fills(*s, name@),
    decreases s, 0int,
{
    match s {
        Step::BleRead(x) => same(x.capture_as.as_str(), name),
        Step::BlePeripheralName(x) => same(x.capture_as.as_str(), name),
        Step::BleNotify(x) => is_text(&x.capture_as, name) || finds_capture(&x.capture, name),
        Step::BleAwaitUntil(x) => {
            proof {
                assert(decreases_to!(*s => s->BleAwaitUntil_0));
                assert(decreases_to!(*x => x.on_each));
            }
            is_text(&x.capture_as, name) || finds_capture(&x.capture, name) || steps_output(
                &x.on_each,
                name,
            )
        },
        Step::Acquire(x) => {
            proof {
                assert(decreases_to!(*s => s->Acquire_0));
                assert(decreases_to!(*x => x.from));
            }
            same(x.name.as_str(), name) || step_outputs(&x.from, name)
        },
        Step::AcquireFirmware(_) => same(name, "firmware"),
        Step::If(x) => {
            proof {
                assert(decreases_to!(*s => s->If_0));
                assert(decreases_to!(*x => x.then_steps));
                assert(decreases_to!(*x => x.else_steps));
            }
            steps_output(&x.then_steps, name) || steps_output(&x.else_steps, name)
        },
        Step::Retry(x) => {
            proof {
                assert(decreases_to!(*s => s->Retry_0));
                assert(decreases_to!(*x => x.steps));
            }
            steps_output(&x.steps, name)
        },
        Step::NikonLssReadConnectionConfiguration(x) => same(x.flags_capture_as.as_str(), name)
            || same(x.ssid_capture_as.as_str(), name) || same(
            x.password_capture_as.as_str(),
            name,
        ) || same(x.security_mode_capture_as.as_str(), name) || is_text(
            &x.spp_max_length_capture_as,
            name,
        ),
        _ => false,
    }
}

/// Whether an establishment persists or fills a scope slot.
fn establishment_outputs(e: &EstablishmentBlock, name: &str) -> (r: bool)
    ensures
        r == establishment_fills(*e, name@),
{
    contains_text(&e.persist, name) || steps_output(&e.post_exit_readiness, name) || steps_output(
        &e.steps,
        name,
    )
}

/// The establishment that a model registers under a mechanism.
pub open spec fn registered(view: ModelView, mechanism: Seq<char>) -> Option<EstablishmentBlock> {
    match view.ble {
        Some(b) => b.establishments.at(mechanism),
        None => None,
    }
}

/// The establishment that a model registers under a mechanism.
fn find_establishment<'a>(view: &'a ModelView, mechanism: &str) -> (r: Option<
    &'a EstablishmentBlock,
>)
    ensures
        registered(*view, mechanism@) == match r {
            Some(e) => Some(*e),
            None => None,
        },
{
    match &view.ble {
        Some(b) => b.establishment(mechanism),
        None => None,
    }
}

/// The keys of a map, in order.
pub open spec fn keys_of<V>(s: Seq<(String, V)>) -> Seq<Seq<char>> {
    Seq::new(s.len(), |i: int| s[i].0@)
}

/// A row of texts in text order.
pub open spec fn in_order(v: Seq<Seq<char>>) -> Seq<Seq<char>> {
    arranged::<String>(v)
}

/// The fault of parameter bindings: they bind exactly the parameters of the establishment.
pub open spec fn bindings_fault(
    params: Seq<(String, String)>,
    view: ModelView,
    mechanism: Seq<char>,
    path: Seq<char>,
) -> Option<ConfigFault> {
    match registered(view, mechanism) {
        None => Some(invalid(path, "unknown establishment mechanism '"@ + mechanism + "'"@)),
        Some(e) => {
            let actual = keys_of(params);
            let expected = in_order(views(e.params@));
            if actual != expected {
                Some(
                    invalid(
                        path,
                        "parameter bindings "@ + texts_debug(actual)
                            + " do not exactly match establishment parameters "@ + texts_debug(
                            expected,
                        ),
                    ),
                )
            } else {
                None
            }
        },
    }
}

/// Checks parameter bindings.
fn validate_bindings(
    params: &NameMap<String>,
    view: &ModelView,
    mechanism: &str,
    path: &str,
) -> (r: Result<(), ConfigError>)
    ensures
        faults(r, bindings_fault(params.entries(), *view, mechanism@, path@)),
{
    match find_establishment(view, mechanism) {
        None => refuse(
            path.to_owned(),
            join3("unknown establishment mechanism '", mechanism, "'"),
        ),
        Some(e) => {
            let mut actual: Vec<String> = Vec::new();
            let mut i: usize = 0;
            while i < params.len()
                invariant
                    i <= params.entries().len(),
                    actual@.len() == i,
                    forall|k: int|
                        0 <= k < i ==> (#[trigger] actual@[k])@ == params.entries()[k].0@,
                decreases params.entries().len() - i,
            {
                actual.push(params.key_at(i).clone());
                i = i + 1;
            }
            let listed = copy_texts(&e.params);
            proof {
                assert(models_of(listed@) == views(e.params@));
                assert(views(actual@) == keys_of(params.entries()));
            }
            let expected = arrange(listed);
            proof {
                assert(models_of(expected@) == views(expected@));
            }
            if !same_texts(&actual, &expected) {
                return refuse(
                    path.to_owned(),
                    join4(
                        "parameter bindings ",
                        debug_texts(&actual).as_str(),
                        " do not exactly match establishment parameters ",
                        debug_texts(&expected).as_str(),
                    ),
                );
            }
            Ok(())
        },
    }
}

/// The first fault of the parameter bindings of a connection's edges, from `i` on.
pub open spec fn edge_bindings_fault(
    c: Connection,
    view: ModelView,
    path: Seq<char>,
    i: int,
) -> Option<ConfigFault>
    decreases c.enables@.len() - i,
{
    if i < 0 || i >= c.enables@.len() {
        None
    } else {
        let t = c.enables@[i];
        let here = indexed(path, ".enables["@, i) + ".params"@;
        first_fault(
            if t.params.entries().len() == 0 {
                None
            } else {
                match t.mechanism {
                    None => Some(
                        invalid(here, "parameter bindings require an establishment mechanism"@),
                    ),
                    Some(mechanism) => bindings_fault(t.params.entries(), view, mechanism@, here),
                }
            },
            edge_bindings_fault(c, view, path, i + 1),
        )
    }
}

/// The first fault of the parameter bindings of a connection's entries, from `i` on.
pub open spec fn entry_bindings_fault(
    c: Connection,
    view: ModelView,
    path: Seq<char>,
    i: int,
) -> Option<ConfigFault>
    decreases c.entries@.len() - i,
{
    if i < 0 || i >= c.entries@.len() {
        None
    } else {
        let here = indexed(path, ".entries["@, i) + ".reestablishConnection.params"@;
        first_fault(
            match (c.entries@[i].execution, c.establishment) {
                (ModeEntryExecution::ReestablishConnection(x), Some(mechanism)) => bindings_fault(
                    x.params.entries(),
                    view,
                    mechanism@,
                    here,
                ),
                _ => None,
            },
            entry_bindings_fault(c, view, path, i + 1),
        )
    }
}

/// The first fault of the parameter bindings of the connections from `i` on.
pub open spec fn reestablishment_fault(
    model_id: Seq<char>,
    s: Seq<(String, Connection)>,
    view: ModelView,
    i: int,
) -> Option<ConfigFault>
    decreases s.len() - i,
{
    if i < 0 || i >= s.len() {
        None
    } else {
        let path = "models."@ + model_id + ".connections."@ + s[i].0@;
        first_fault(
            edge_bindings_fault(s[i].1, view, path, 0),
            first_fault(
                entry_bindings_fault(s[i].1, view, path, 0),
                reestablishment_fault(model_id, s, view, i + 1),
            ),
        )
    }
}

/// Checks the parameter bindings of a connection.
fn validate_connection_bindings(c: &Connection, view: &ModelView, path: &str) -> (r: Result<
    (),
    ConfigError,
>)
    ensures
        faults(
            r,
            first_fault(
                edge_bindings_fault(*c, *view, path@, 0),
                entry_bindings_fault(*c, *view, path@, 0),
            ),
        ),
{
    let mut i: usize = 0;
    while i < c.enables.len()
        invariant
            i <= c.enables@.len(),
            edge_bindings_fault(*c, *view, path@, 0) == edge_bindings_fault(
                *c,
                *view,
                path@,
                i as int,
            ),
        decreases c.enables@.len() - i,
    {
        let t = &c.enables[i];
        if !t.params.is_empty() {
            let at = index_path(path, ".enables[", i);
            let here = join2(at.as_str(), ".params");
            match &t.mechanism {
                None => {
                    return refuse(
                        here,
                        "parameter bindings require an establishment mechanism".to_owned(),
                    );
                },
                Some(mechanism) => {
                    match validate_bindings(&t.params, view, mechanism.as_str(), here.as_str()) {
                        Err(e) => {
                            return Err(e);
                        },
                        Ok(_) => {},
                    }
                },
            }
        }
        i = i + 1;
    }
    let mut k: usize = 0;
    while k < c.entries.len()
        invariant
            edge_bindings_fault(*c, *view, path@, 0) is None,
            k <= c.entries@.len(),
            entry_bindings_fault(*c, *view, path@, 0) == entry_bindings_fault(
                *c,
                *view,
                path@,
                k as int,
            ),
        decreases c.entries@.len() - k,
    {
        match &c.entries[k].execution {
            ModeEntryExecution::ReestablishConnection(x) => {
                let at = index_path(path, ".entries[", k);
                let here = join2(at.as_str(), ".reestablishConnection.params");
                match &c.establishment {
                    Some(mechanism) => {
                        match validate_bindings(&x.params, view, mechanism.as_str(), here.as_str()) {
                            Err(e) => {
                                return Err(e);
                            },
                            Ok(_) => {},
                        }
                    },
                    None => {},
                }
            },
            _ => {},
        }
        k = k + 1;
    }
    Ok(())
}

/// Checks the parameter bindings of a body's connections.
fn validate_reestablishment_params(model_id: &str, body: &CameraManifest, view: &ModelView) -> (r:
    Result<(), ConfigError>)
    ensures
        faults(r, reestablishment_fault(model_id@, body.connections.entries(), *view, 0)),
{
    let mut i: usize = 0;
    while i < body.connections.len()
        invariant
            i <= body.connections.entries().len(),
            reestablishment_fault(model_id@, body.connections.entries(), *view, 0)
                == reestablishment_fault(
                model_id@,
                body.connections.entries(),
                *view,
                i as int,
            ),
        decreases body.connections.entries().len() - i,
    {
        let path = join4(
            "models.",
            model_id,
            ".connections.",
            body.connections.key_at(i).as_str(),
        );
        match validate_connection_bindings(body.connections.value_at(i), view, path.as_str()) {
            Err(e) => {
                return Err(e);
            },
            Ok(_) => {},
        }
        i = i + 1;
    }
    Ok(())
}

/// The camera name that a body's connection expects of its discovery callback.
pub open spec fn knock_name(body: CameraManifest, connection: Seq<char>) -> Option<Seq<char>> {
    match body.connections.at(connection) {
        Some(c) => match c.knock {
            Some(k) => optional_text(k.camera_name),
            None => None,
        },
        None => None,
    }
}

/// The first PCSS signature from `i` on whose camera name is not that of the connection it suggests.
pub open spec fn camera_name_fault(
    model_id: Seq<char>,
    body: CameraManifest,
    v: Seq<(String, Signature)>,
    i: int,
) -> Option<ConfigFault>
    decreases v.len() - i,
{
    if i < 0 || i >= v.len() {
        None
    } else {
        first_fault(
            match v[i].1 {
                Signature::PcssNotify(s) => match knock_name(body, s.suggests.connection@) {
                    Some(name) => if name != s.require.camera_name@ {
                        Some(
                            invalid(
                                "models."@ + model_id + ".connections."@ + s.suggests.connection@
                                    + ".knock.cameraName"@,
                                "cameraName '"@ + name
                                    + "' does not match resolved PCSS NOTIFY signature '"@ + v[i].0@
                                    + "' cameraName '"@ + s.require.camera_name@ + "'"@,
                            ),
                        )
                    } else {
                        None
                    },
                    None => None,
                },
                Signature::BleAdvert(_) => None,
            },
            camera_name_fault(model_id, body, v, i + 1),
        )
    }
}

/// The camera name that a body's connection expects of its discovery callback.
fn expected_name<'a>(body: &'a CameraManifest, connection: &str) -> (r: Option<&'a String>)
    ensures
        knock_name(*body, connection@) == match r {
            Some(s) => Some(s@),
            None => None,
        },
{
    match body.connections.get(connection) {
        Some(c) => match &c.knock {
            Some(k) => match &k.camera_name {
                Some(n) => Some(n),
                None => None,
            },
            None => None,
        },
        None => None,
    }
}

/// Checks the camera names of a model's PCSS signatures.
fn validate_pcss_camera_names(model_id: &str, body: &CameraManifest, view: &ModelView) -> (r: Result<
    (),
    ConfigError,
>)
    ensures
        faults(r, camera_name_fault(model_id@, *body, view.signatures@, 0)),
{
    let mut i: usize = 0;
    while i < view.signatures.len()
        invariant
            i <= view.signatures@.len(),
            camera_name_fault(model_id@, *body, view.signatures@, 0) == camera_name_fault(
                model_id@,
                *body,
                view.signatures@,
                i as int,
            ),
        decreases view.signatures@.len() - i,
    {
        match &view.signatures[i].1 {
            Signature::PcssNotify(s) => {
                let connection = s.suggests.connection.as_str();
                match expected_name(body, connection) {
                    Some(name) => {
                        if !same(name.as_str(), s.require.camera_name.as_str()) {
                            return refuse(
                                join5(
                                    "models.",
                                    model_id,
                                    ".connections.",
                                    connection,
                                    ".knock.cameraName",
                                ),
                                join7(
                                    "cameraName '",
                                    name.as_str(),
                                    "' does not match resolved PCSS NOTIFY signature '",
                                    view.signatures[i].0.as_str(),
                                    "' cameraName '",
                                    s.require.camera_name.as_str(),
                                    "'",
                                ),
                            );
                        }
                    },
                    None => {},
                }
            },
            Signature::BleAdvert(_) => {},
        }
        i = i + 1;
    }
    Ok(())
}

/// The scope slot that an activity compares the network's identity with.
pub open spec fn expected_scope(d: ConnectionActivityDescriptor) -> Option<Seq<char>> {
    match identity_of(d) {
        ActivityIdentity::NetworkIdentity(s) => Some(s),
        _ => None,
    }
}

/// The first activity of a connection, from `i` on, that compares with a scope slot that the
/// connection's establishment neither persists nor fills.
pub open spec fn scope_fault(c: Connection, view: ModelView, path: Seq<char>, i: int) -> Option<
    ConfigFault,
>
    decreases c.activities@.len() - i,
{
    if i < 0 || i >= c.activities@.len() {
        None
    } else {
        let here = indexed(path, ".activities["@, i)
            + ".hostEstablishment.networkIdentityExact.expectedScope"@;
        first_fault(
            match expected_scope(c.activities@[i]) {
                None => None,
                Some(slot) => match c.establishment {
                    None => Some(
                        invalid(here, "networkIdentityExact requires a selected establishment"@),
                    ),
                    Some(mechanism) => match registered(view, mechanism@) {
                        None => Some(
                            invalid(
                                here,
                                "unknown establishment mechanism '"@ + mechanism@ + "'"@,
                            ),
                        ),
                        Some(e) => if !establishment_fills(e, slot) {
                            Some(
                                invalid(
                                    here,
                                    "expected scope '"@ + slot
                                        + "' is not persisted or produced by establishment '"@
                                        + mechanism@ + "'"@,
                                ),
                            )
                        } else {
                            None
                        },
                    },
                },
            },
            scope_fault(c, view, path, i + 1),
        )
    }
}

/// The first fault of an expected scope slot among the connections from `i` on.
pub open spec fn scopes_fault(
    model_id: Seq<char>,
    s: Seq<(String, Connection)>,
    view: ModelView,
    i: int,
) -> Option<ConfigFault>
    decreases s.len() - i,
{
    if i < 0 || i >= s.len() {
        None
    } else {
        first_fault(
            scope_fault(s[i].1, view, "models."@ + model_id + ".connections."@ + s[i].0@, 0),
            scopes_fault(model_id, s, view, i + 1),
        )
    }
}

/// The scope slot that an activity compares the network's identity with.
fn scope_of(d: &ConnectionActivityDescriptor) -> (r: Option<&String>)
    ensures
        expected_scope(*d) == match r {
            Some(s) => Some(s@),
            None => None,
        },
{
    match &d.binding {
        ConnectionActivityBinding::HostEstablishment(b) => match &b.host_establishment {
            ConnectionActivityHostEstablishment::NetworkIdentityExact { network_identity_exact } =>
                Some(&network_identity_exact.expected_scope),
            ConnectionActivityHostEstablishment::RetainedSessionOpen { .. } => None,
        },
        _ => None,
    }
}

/// Checks the expected scope slots of a connection's activities.
fn validate_connection_scopes(c: &Connection, view: &ModelView, path: &str) -> (r: Result<
    (),
    ConfigError,
>)
    ensures
        faults(r, scope_fault(*c, *view, path@, 0)),
{
    let mut i: usize = 0;
    while i < c.activities.len()
        invariant
            i <= c.activities@.len(),
            scope_fault(*c, *view, path@, 0) == scope_fault(*c, *view, path@, i as int),
        decreases c.activities@.len() - i,
    {
        match scope_of(&c.activities[i]) {
            None => {},
            Some(slot) => {
                let at = index_path(path, ".activities[", i);
                let here = join2(
                    at.as_str(),
                    ".hostEstablishment.networkIdentityExact.expectedScope",
                );
                match &c.establishment {
                    None => {
                        return refuse(
                            here,
                            "networkIdentityExact requires a selected establishment".to_owned(),
                        );
                    },
                    Some(mechanism) => match find_establishment(view, mechanism.as_str()) {
                        None => {
                            return refuse(
                                here,
                                join3(
                                    "unknown establishment mechanism '",
                                    mechanism.as_str(),
                                    "'",
                                ),
                            );
                        },
                        Some(e) => {
                            if !establishment_outputs(e, slot.as_str()) {
                                return refuse(
                                    here,
                                    join5(
                                        "expected scope '",
                                        slot.as_str(),
                                        "' is not persisted or produced by establishment '",
                                        mechanism.as_str(),
                                        "'",
                                    ),
                                );
                            }
                        },
                    },
                }
            },
        }
        i = i + 1;
    }
    Ok(())
}

/// Checks the expected scope slots of a body's connections.
fn validate_host_establishment_scopes(model_id: &str, body: &CameraManifest, view: &ModelView) -> (r:
    Result<(), ConfigError>)
    ensures
        faults(r, scopes_fault(model_id@, body.connections.entries(), *view, 0)),
{
    let mut i: usize = 0;
    while i < body.connections.len()
        invariant
            i <= body.connections.entries().len(),
            scopes_fault(model_id@, body.connections.entries(), *view, 0) == scopes_fault(
                model_id@,
                body.connections.entries(),
                *view,
                i as int,
            ),
        decreases body.connections.entries().len() - i,
    {
        let path = join4(
            "models.",
            model_id,
            ".connections.",
            body.connections.key_at(i).as_str(),
        );
        match validate_connection_scopes(body.connections.value_at(i), view, path.as_str()) {
            Err(e) => {
                return Err(e);
            },
            Ok(_) => {},
        }
        i = i + 1;
    }
    Ok(())
}

/// The bodies of the models, each under the id of its model. One that could not be read gives the
/// reason.
pub type ModelBodies = NameMap<Result<Arc<CameraManifest>, String>>;

/// The body that was read under an id.
pub open spec fn read_body(bodies: ModelBodies, id: Seq<char>) -> Option<Arc<CameraManifest>> {
    match bodies.at(id) {
        Some(Ok(b)) => Some(b),
        _ => None,
    }
}

/// The body that was read under an id.
fn get_body<'a>(bodies: &'a ModelBodies, id: &str) -> (r: Option<&'a Arc<CameraManifest>>)
    ensures
        read_body(*bodies, id@) == match r {
            Some(b) => Some(*b),
            None => None,
        },
{
    match bodies.get(id) {
        Some(Ok(b)) => Some(b),
        _ => None,
    }
}

/// An activity and the path at which it is declared.
pub type ActivityRow = (ConnectionActivityDescriptor, Seq<char>);

/// The activities of one place, with their paths.
pub open spec fn place_rows(v: Seq<ConnectionActivityDescriptor>, path: Seq<char>) -> Seq<
    ActivityRow,
> {
    Seq::new(v.len(), |i: int| (v[i], indexed(path, ".activities["@, i)))
}

/// The activities of a model's establishments, from entry `i` on, behind those of `rows`.
pub open spec fn plan_rows(
    rows: Seq<ActivityRow>,
    m: Seq<(String, EstablishmentBlock)>,
    path: Seq<char>,
    i: int,
) -> Seq<ActivityRow>
    decreases m.len() - i,
{
    if i < 0 || i >= m.len() {
        rows
    } else {
        plan_rows(
            rows + place_rows(m[i].1.activities@, path + ".establishments."@ + m[i].0@),
            m,
            path,
            i + 1,
        )
    }
}

/// The activities of a connection's entries, from the `i`-th on, behind those of `rows`.
pub open spec fn entry_rows(
    rows: Seq<ActivityRow>,
    v: Seq<ModeEntry>,
    path: Seq<char>,
    i: int,
) -> Seq<ActivityRow>
    decreases v.len() - i,
{
    if i < 0 || i >= v.len() {
        rows
    } else {
        entry_rows(
            rows + place_rows(v[i].activities@, indexed(path, ".entries["@, i)),
            v,
            path,
            i + 1,
        )
    }
}

/// The activities of a connection's actions, from entry `i` on, behind those of `rows`.
pub open spec fn action_rows(
    rows: Seq<ActivityRow>,
    m: Seq<(ActionVerb, Action)>,
    path: Seq<char>,
    i: int,
) -> Seq<ActivityRow>
    decreases m.len() - i,
{
    if i < 0 || i >= m.len() {
        rows
    } else {
        match m[i].1.initiator {
            Some(x) => action_rows(
                rows + place_rows(
                    x.activities@,
                    path + ".actions."@ + verb_label(m[i].0) + ".initiator"@,
                ),
                m,
                path,
                i + 1,
            ),
            None => action_rows(rows, m, path, i + 1),
        }
    }
}

/// The activities of a body's connections, from entry `i` on, behind those of `rows`.
pub open spec fn connection_rows(
    rows: Seq<ActivityRow>,
    m: Seq<(String, Connection)>,
    path: Seq<char>,
    i: int,
) -> Seq<ActivityRow>
    decreases m.len() - i,
{
    if i < 0 || i >= m.len() {
        rows
    } else {
        let c = m[i].1;
        let here = path + ".connections."@ + m[i].0@;
        let own = rows + place_rows(c.activities@, here);
        let entered = entry_rows(own, c.entries@, here, 0);
        connection_rows(action_rows(entered, c.actions.entries(), here, 0), m, path, i + 1)
    }
}

/// The activities of the models from `i` on, behind those of `rows`.
pub open spec fn index_rows(
    rows: Seq<ActivityRow>,
    models: Seq<ModelView>,
    bodies: ModelBodies,
    i: int,
) -> Seq<ActivityRow>
    decreases models.len() - i,
{
    if i < 0 || i >= models.len() {
        rows
    } else {
        let path = "models."@ + models[i].id@;
        let planned = match models[i].ble {
            Some(b) => plan_rows(rows, b.establishments.entries(), path, 0),
            None => rows,
        };
        let all = match read_body(bodies, models[i].id@) {
            Some(b) => connection_rows(planned, b.connections.entries(), path, 0),
            None => planned,
        };
        index_rows(all, models, bodies, i + 1)
    }
}

/// The first row, from `i` on, that describes the activity of `d`.
pub open spec fn first_row(rows: Seq<ActivityRow>, d: ConnectionActivityDescriptor, i: int) -> int
    decreases rows.len() - i,
{
    if i < 0 || i >= rows.len() || (rows[i].0.id@ == d.id@ && rows[i].0.version == d.version) {
        i
    } else {
        first_row(rows, d, i + 1)
    }
}

/// The first row, from `i` on, that differs from the first one of the same activity in what they
/// must share.
pub open spec fn metadata_fault(rows: Seq<ActivityRow>, i: int) -> Option<ConfigFault>
    decreases rows.len() - i,
{
    if i < 0 || i >= rows.len() {
        None
    } else {
        let d = rows[i].0;
        let k = first_row(rows, d, 0);
        first_fault(
            if conflicting(rows[k].0, d) {
                Some(
                    invalid(
                        rows[i].1,
                        "activity '"@ + d.id@ + "@"@ + decimal(d.version as int)
                            + "' metadata differs or binding identity differs from "@ + rows[k].1,
                    ),
                )
            } else {
                None
            },
            metadata_fault(rows, i + 1),
        )
    }
}

/// What the rows hold.
pub open spec fn rows_of(v: Seq<(&ConnectionActivityDescriptor, String)>) -> Seq<ActivityRow> {
    Seq::new(v.len(), |i: int| (*v[i].0, v[i].1@))
}

/// Adds the activities of one place.
fn push_rows<'a>(
    rows: &mut Vec<(&'a ConnectionActivityDescriptor, String)>,
    v: &'a Vec<ConnectionActivityDescriptor>,
    path: &str,
)
    ensures
        rows_of(final(rows)@) == rows_of(old(rows)@) + place_rows(v@, path@),
{
    let ghost start = rows_of(rows@);
    let mut i: usize = 0;
    proof {
        assert(start == start + place_rows(v@, path@).take(0));
    }
    while i < v.len()
        invariant
            start == rows_of(old(rows)@),
            i <= v@.len(),
            rows_of(rows@) == start + place_rows(v@, path@).take(i as int),
        decreases v@.len() - i,
    {
        let ghost before = rows@;
        let at = index_path(path, ".activities[", i);
        let ghost row = place_rows(v@, path@)[i as int];
        rows.push((&v[i], at));
        proof {
            assert(rows_of(rows@) == rows_of(before).push(row));
            assert(place_rows(v@, path@).take(i + 1) == place_rows(v@, path@).take(i as int).push(
                row,
            ));
            assert(start + place_rows(v@, path@).take(i as int).push(row) == (start + place_rows(
                v@,
                path@,
            ).take(i as int)).push(row));
        }
        i = i + 1;
    }
    proof {
        assert(place_rows(v@, path@).take(v@.len() as int) == place_rows(v@, path@));
    }
}

/// Adds the activities of a connection.
fn push_connection<'a>(
    rows: &mut Vec<(&'a ConnectionActivityDescriptor, String)>,
    c: &'a Connection,
    here: &str,
)
    ensures
        rows_of(final(rows)@) == action_rows(
            entry_rows(
                rows_of(old(rows)@) + place_rows(c.activities@, here@),
                c.entries@,
                here@,
                0,
            ),
            c.actions.entries(),
            here@,
            0,
        ),
{
    let ghost start = rows_of(rows@);
    push_rows(rows, &c.activities, here);
    let ghost own = rows_of(rows@);
    let mut i: usize = 0;
    while i < c.entries.len()
        invariant
            i <= c.entries@.len(),
            entry_rows(own, c.entries@, here@, 0) == entry_rows(
                rows_of(rows@),
                c.entries@,
                here@,
                i as int,
            ),
        decreases c.entries@.len() - i,
    {
        let at = index_path(here, ".entries[", i);
        push_rows(rows, &c.entries[i].activities, at.as_str());
        i = i + 1;
    }
    let ghost entered = rows_of(rows@);
    let mut k: usize = 0;
    while k < c.actions.len()
        invariant
            k <= c.actions.entries().len(),
            action_rows(entered, c.actions.entries(), here@, 0) == action_rows(
                rows_of(rows@),
                c.actions.entries(),
                here@,
                k as int,
            ),
        decreases c.actions.entries().len() - k,
    {
        match &c.actions.value_at(k).initiator {
            Some(x) => {
                let at = join4(here, ".actions.", verb_name(c.actions.key_at(k)), ".initiator");
                push_rows(rows, &x.activities, at.as_str());
            },
            None => {},
        }
        k = k + 1;
    }
}

/// Adds the activities of a model.
fn push_model<'a>(
    rows: &mut Vec<(&'a ConnectionActivityDescriptor, String)>,
    view: &'a ModelView,
    body: Option<&'a CameraManifest>,
)
    ensures
        rows_of(final(rows)@) == ({
            let path = "models."@ + view.id@;
            let planned = match view.ble {
                Some(b) => plan_rows(rows_of(old(rows)@), b.establishments.entries(), path, 0),
                None => rows_of(old(rows)@),
            };
            match body {
                Some(b) => connection_rows(planned, b.connections.entries(), path, 0),
                None => planned,
            }
        }),
{
    let path = join2("models.", view.id.as_str());
    let ghost start = rows_of(rows@);
    match &view.ble {
        Some(b) => {
            let mut i: usize = 0;
            while i < b.establishments.len()
                invariant
                    path@ == "models."@ + view.id@,
                    i <= b.establishments.entries().len(),
                    plan_rows(start, b.establishments.entries(), path@, 0) == plan_rows(
                        rows_of(rows@),
                        b.establishments.entries(),
                        path@,
                        i as int,
                    ),
                decreases b.establishments.entries().len() - i,
            {
                let at = join3(
                    path.as_str(),
                    ".establishments.",
                    b.establishments.key_at(i).as_str(),
                );
                push_rows(rows, &b.establishments.value_at(i).activities, at.as_str());
                i = i + 1;
            }
        },
        None => {},
    }
    let ghost planned = rows_of(rows@);
    match body {
        Some(b) => {
            let mut i: usize = 0;
            while i < b.connections.len()
                invariant
                    path@ == "models."@ + view.id@,
                    i <= b.connections.entries().len(),
                    connection_rows(planned, b.connections.entries(), path@, 0) == connection_rows(
                        rows_of(rows@),
                        b.connections.entries(),
                        path@,
                        i as int,
                    ),
                decreases b.connections.entries().len() - i,
            {
                let here = join3(
                    path.as_str(),
                    ".connections.",
                    b.connections.key_at(i).as_str(),
                );
                push_connection(rows, b.connections.value_at(i), here.as_str());
                i = i + 1;
            }
        },
        None => {},
    }
}

/// The first row that describes the activity of `d`; the length where there is none.
fn find_row(
    rows: &Vec<(&ConnectionActivityDescriptor, String)>,
    d: &ConnectionActivityDescriptor,
) -> (r: usize)
    ensures
        r == first_row(rows_of(rows@), *d, 0),
        r <= rows@.len(),
{
    let ghost all = rows_of(rows@);
    let mut i: usize = 0;
    while i < rows.len()
        invariant
            all == rows_of(rows@),
            i <= rows@.len(),
            first_row(all, *d, 0) == first_row(all, *d, i as int),
        decreases rows@.len() - i,
    {
        proof {
            assert(all[i as int] == (*rows@[i as int].0, rows@[i as int].1@));
        }
        if same(rows[i].0.id.as_str(), d.id.as_str()) && rows[i].0.version == d.version {
            return i;
        }
        i = i + 1;
    }
    i
}

/// The first row of an activity is no later than any row of it.
proof fn first_row_bounds(rows: Seq<ActivityRow>, i: int, k: int)
    requires
        0 <= i <= k < rows.len(),
    ensures
        i <= first_row(rows, rows[k].0, i) <= k,
    decreases k - i,
{
    if i < k && !(rows[i].0.id@ == rows[k].0.id@ && rows[i].0.version == rows[k].0.version) {
        first_row_bounds(rows, i + 1, k);
    }
}

/// Checks that all descriptors of an activity, over the whole index, share what they must.
fn validate_activity_metadata_consistency(
    index: &ResolvedManufacturerIndex,
    bodies: &ModelBodies,
) -> (r: Result<(), ConfigError>)
    ensures
        faults(r, metadata_fault(index_rows(Seq::empty(), index.models@, *bodies, 0), 0)),
{
    let mut rows: Vec<(&ConnectionActivityDescriptor, String)> = Vec::new();
    let mut i: usize = 0;
    let ghost all = index_rows(Seq::empty(), index.models@, *bodies, 0);
    proof {
        assert(rows_of(rows@) == Seq::<ActivityRow>::empty());
    }
    while i < index.models.len()
        invariant
            i <= index.models@.len(),
            all == index_rows(rows_of(rows@), index.models@, *bodies, i as int),
        decreases index.models@.len() - i,
    {
        let view = &index.models[i];
        let body: Option<&CameraManifest> = match get_body(bodies, view.id.as_str()) {
            Some(b) => Some(&**b),
            None => None,
        };
        push_model(&mut rows, view, body);
        i = i + 1;
    }
    let mut n: usize = 0;
    while n < rows.len()
        invariant
            all == rows_of(rows@),
            all == index_rows(Seq::empty(), index.models@, *bodies, 0),
            n <= rows@.len(),
            metadata_fault(all, 0) == metadata_fault(all, n as int),
        decreases rows@.len() - n,
    {
        let d = rows[n].0;
        proof {
            assert(all[n as int] == (*rows@[n as int].0, rows@[n as int].1@));
            first_row_bounds(all, 0, n as int);
        }
        let k: usize = find_row(&rows, d);
        proof {
            assert(all[k as int] == (*rows@[k as int].0, rows@[k as int].1@));
        }
        if rows[k].0.conflicts_with(d) {
            return refuse(
                rows[n].1.clone(),
                join6(
                    "activity '",
                    d.id.as_str(),
                    "@",
                    u64_text(d.version as u64).as_str(),
                    "' metadata differs or binding identity differs from ",
                    rows[k].1.as_str(),
                ),
            );
        }
        n = n + 1;
    }
    Ok(())
}

/// Whether an activity has an id.
pub open spec fn lists_activity(v: Seq<ConnectionActivityDescriptor>, id: Seq<char>) -> bool {
    exists|i: int| 0 <= i < v.len() && (#[trigger] v[i]).id@ == id
}

/// The first activity of a connection, from `i` on, whose id one of the establishment's has too.
pub open spec fn repeated_fault(
    v: Seq<ConnectionActivityDescriptor>,
    e: EstablishmentBlock,
    mechanism: Seq<char>,
    path: Seq<char>,
    i: int,
) -> Option<ConfigFault>
    decreases v.len() - i,
{
    if i < 0 || i >= v.len() {
        None
    } else if lists_activity(e.activities@, v[i].id@) {
        Some(
            invalid(
                indexed(path, ".activities["@, i) + ".id"@,
                "activity id '"@ + v[i].id@
                    + "' duplicates an activity in referenced establishment '"@ + mechanism + "'"@,
            ),
        )
    } else {
        repeated_fault(v, e, mechanism, path, i + 1)
    }
}

/// The fault of a connection whose activities repeat one of its establishment.
pub open spec fn connection_ids_fault(c: Connection, view: ModelView, path: Seq<char>) -> Option<
    ConfigFault,
> {
    match c.establishment {
        Some(mechanism) => match registered(view, mechanism@) {
            Some(e) => repeated_fault(c.activities@, e, mechanism@, path, 0),
            None => None,
        },
        None => None,
    }
}

/// The first fault of the connections from `i` on.
pub open spec fn connections_ids_fault(
    m: Seq<(String, Connection)>,
    view: ModelView,
    i: int,
) -> Option<ConfigFault>
    decreases m.len() - i,
{
    if i < 0 || i >= m.len() {
        None
    } else {
        first_fault(
            connection_ids_fault(
                m[i].1,
                view,
                "models."@ + view.id@ + ".connections."@ + m[i].0@,
            ),
            connections_ids_fault(m, view, i + 1),
        )
    }
}

/// The first fault of the models from `i` on.
pub open spec fn merged_ids_fault(
    models: Seq<ModelView>,
    bodies: ModelBodies,
    i: int,
) -> Option<ConfigFault>
    decreases models.len() - i,
{
    if i < 0 || i >= models.len() {
        None
    } else {
        first_fault(
            match read_body(bodies, models[i].id@) {
                Some(b) => connections_ids_fault(b.connections.entries(), models[i], 0),
                None => None,
            },
            merged_ids_fault(models, bodies, i + 1),
        )
    }
}

/// Whether an activity has an id.
fn finds_activity(v: &Vec<ConnectionActivityDescriptor>, id: &str) -> (r: bool)
    ensures
        r == lists_activity(v@, id@),
{
    let mut i: usize = 0;
    while i < v.len()
        invariant
            i <= v@.len(),
            forall|k: int| 0 <= k < i ==> (#[trigger] v@[k]).id@ != id@,
        decreases v@.len() - i,
    {
        if same(v[i].id.as_str(), id) {
            proof {
                assert(v@[i as int].id@ == id@);
            }
            return true;
        }
        i = i + 1;
    }
    false
}

/// Checks that a connection's activities repeat none of its establishment.
fn validate_connection_ids(c: &Connection, view: &ModelView, path: &str) -> (r: Result<
    (),
    ConfigError,
>)
    ensures
        faults(r, connection_ids_fault(*c, *view, path@)),
{
    let mechanism = match &c.establishment {
        Some(m) => m,
        None => {
            return Ok(());
        },
    };
    let e = match find_establishment(view, mechanism.as_str()) {
        Some(e) => e,
        None => {
            return Ok(());
        },
    };
    let mut i: usize = 0;
    while i < c.activities.len()
        invariant
            c.establishment == Some(*mechanism),
            registered(*view, mechanism@) == Some(*e),
            i <= c.activities@.len(),
            repeated_fault(c.activities@, *e, mechanism@, path@, 0) == repeated_fault(
                c.activities@,
                *e,
                mechanism@,
                path@,
                i as int,
            ),
        decreases c.activities@.len() - i,
    {
        let id = c.activities[i].id.as_str();
        if finds_activity(&e.activities, id) {
            let at = index_path(path, ".activities[", i);
            return refuse(
                join2(at.as_str(), ".id"),
                join5(
                    "activity id '",
                    id,
                    "' duplicates an activity in referenced establishment '",
                    mechanism.as_str(),
                    "'",
                ),
            );
        }
        i = i + 1;
    }
    Ok(())
}

/// Checks that no connection's activities repeat one of its establishment.
fn validate_merged_activity_ids(
    index: &ResolvedManufacturerIndex,
    bodies: &ModelBodies,
) -> (r: Result<(), ConfigError>)
    ensures
        faults(r, merged_ids_fault(index.models@, *bodies, 0)),
{
    let mut i: usize = 0;
    while i < index.models.len()
        invariant
            i <= index.models@.len(),
            merged_ids_fault(index.models@, *bodies, 0) == merged_ids_fault(
                index.models@,
                *bodies,
                i as int,
            ),
        decreases index.models@.len() - i,
    {
        let view = &index.models[i];
        match get_body(bodies, view.id.as_str()) {
            Some(shared) => {
                let b: &CameraManifest = &**shared;
                let mut k: usize = 0;
                while k < b.connections.len()
                    invariant
                        i < index.models@.len(),
                        *view == index.models@[i as int],
                        read_body(*bodies, view.id@) == Some(*shared),
                        *b == **shared,
                        merged_ids_fault(index.models@, *bodies, 0) == merged_ids_fault(
                            index.models@,
                            *bodies,
                            i as int,
                        ),
                        k <= b.connections.entries().len(),
                        connections_ids_fault(b.connections.entries(), *view, 0)
                            == connections_ids_fault(b.connections.entries(), *view, k as int),
                    decreases b.connections.entries().len() - k,
                {
                    let path = join4(
                        "models.",
                        view.id.as_str(),
                        ".connections.",
                        b.connections.key_at(k).as_str(),
                    );
                    match validate_connection_ids(b.connections.value_at(k), view, path.as_str()) {
                        Err(e) => {
                            return Err(e);
                        },
                        Ok(_) => {},
                    }
                    k = k + 1;
                }
            },
            None => {},
        }
        i = i + 1;
    }
    Ok(())
}

/// `Arc::clone`: another pointer to the same value.
#[verifier::external_body]
fn share<T>(a: &Arc<T>) -> (r: Arc<T>)
    ensures
        r == *a,
{
    a.clone()
}

/// Another pointer to an optional value.
fn share_option<T>(o: &Option<Arc<T>>) -> (r: Option<Arc<T>>)
    ensures
        r == *o,
{
    match o {
        Some(a) => Some(share(a)),
        None => None,
    }
}

/// Pointers to the same values under the same keys.
fn share_map<T>(m: &NameMap<Arc<T>>) -> (r: NameMap<Arc<T>>)
    ensures
        r.entries() == m.entries(),
{
    m.ordered();
    let mut items: Vec<(String, Arc<T>)> = Vec::new();
    let mut i: usize = 0;
    while i < m.len()
        invariant
            i <= m.entries().len(),
            items@ == m.entries().take(i as int),
        decreases m.entries().len() - i,
    {
        items.push((m.key_at(i).clone(), share(m.value_at(i))));
        i = i + 1;
    }
    proof {
        assert(m.entries().take(m.entries().len() as int) == m.entries());
    }
    NameMap::from_ascending(items)
}

/// What a schema that is not read is refused with.
pub open spec fn schema_text(found: Seq<char>) -> Seq<char> {
    "unsupported schema "@ + text_debug(found) + "; this build understands "@ + text_debug(
        SCHEMA_VERSION@,
    )
}

/// The first fault of the body of a model. A body that could not be read gives the reason.
pub open spec fn body_fault(
    view: ModelView,
    body: Option<Result<Arc<CameraManifest>, String>>,
) -> Option<ConfigFault> {
    let id = view.id@;
    match body {
        None => Some(ConfigFault::MissingModelBody { id }),
        Some(Err(e)) => Some(ConfigFault::BodyParse { id, err: e@ }),
        Some(Ok(b)) => first_fault(
            if b.schema@ != SCHEMA_VERSION@ {
                Some(invalid("models."@ + id + ".schema"@, schema_text(b.schema@)))
            } else {
                None
            },
            first_fault(
                match manifest_violation(*b) {
                    Some(m) => Some(invalid("models."@ + id + ".connections"@, m)),
                    None => None,
                },
                first_fault(
                    reestablishment_fault(id, b.connections.entries(), view, 0),
                    first_fault(
                        camera_name_fault(id, *b, view.signatures@, 0),
                        scopes_fault(id, b.connections.entries(), view, 0),
                    ),
                ),
            ),
        ),
    }
}

/// The first fault of the bodies of the models from `i` on.
pub open spec fn bodies_fault(
    models: Seq<ModelView>,
    bodies: ModelBodies,
    i: int,
) -> Option<ConfigFault>
    decreases models.len() - i,
{
    if i < 0 || i >= models.len() {
        None
    } else {
        first_fault(
            body_fault(models[i], bodies.at(models[i].id@)),
            bodies_fault(models, bodies, i + 1),
        )
    }
}

/// The GATT catalog of a model.
pub open spec fn model_names(view: ModelView) -> Map<Seq<char>, Seq<char>> {
    match view.ble {
        Some(b) => names_of(b.gatt),
        None => Map::empty(),
    }
}

/// The first fault of the camera-initiated transfers of the models from `i` on.
pub open spec fn transfers_fault(
    models: Seq<ModelView>,
    bodies: ModelBodies,
    i: int,
) -> Option<ConfigFault>
    decreases models.len() - i,
{
    if i < 0 || i >= models.len() {
        None
    } else {
        first_fault(
            model_transfer_fault(models[i], read_body(bodies, models[i].id@)),
            transfers_fault(models, bodies, i + 1),
        )
    }
}

/// The first fault of the camera-initiated transfer of a model.
pub open spec fn model_transfer_fault(view: ModelView, body: Option<Arc<CameraManifest>>) -> Option<
    ConfigFault,
> {
    match body {
        Some(b) => match b.camera_initiated_transfer {
            Some(t) => first_fault(
                recovery_fault(view.id@, t, view),
                transfer_fault(view.id@, t, model_names(view), *b),
            ),
            None => None,
        },
        None => None,
    }
}

/// Whether a model has an id.
pub open spec fn lists_model(models: Seq<ModelView>, id: Seq<char>, n: int) -> bool {
    exists|i: int| 0 <= i < n && (#[trigger] models[i]).id@ == id
}

/// Whether the bodies are those of the first `n` models.
pub open spec fn holds_bodies(
    held: NameMap<Arc<CameraManifest>>,
    models: Seq<ModelView>,
    bodies: ModelBodies,
    n: int,
) -> bool {
    forall|k: Seq<char>| #[trigger]
        held.at(k) == (if lists_model(models, k, n) {
            read_body(bodies, k)
        } else {
            None
        })
}

/// Whether the transfers are those of the first `n` models: each is resolved by the last model of
/// its id.
pub open spec fn holds_transfers(
    held: NameMap<Arc<ResolvedCameraInitiatedTransfer>>,
    models: Seq<ModelView>,
    bodies: ModelBodies,
    n: int,
) -> bool {
    forall|k: Seq<char>|
        transfer_held(#[trigger] held.at(k), models, bodies, k, n)
}

/// Whether what is held under an id is the transfer of the last of the first `n` models with it.
pub open spec fn transfer_held(
    held: Option<Arc<ResolvedCameraInitiatedTransfer>>,
    models: Seq<ModelView>,
    bodies: ModelBodies,
    k: Seq<char>,
    n: int,
) -> bool
    decreases n,
{
    if n <= 0 {
        held is None
    } else if models[n - 1].id@ == k && declared_transfer(read_body(bodies, k)) is Some {
        match (held, read_body(bodies, k)) {
            (Some(r), Some(b)) => resolves_transfer(
                *r,
                b.camera_initiated_transfer->0,
                model_names(models[n - 1]),
                *b,
            ),
            _ => false,
        }
    } else {
        transfer_held(held, models, bodies, k, n - 1)
    }
}

/// The transfer that a body declares.
pub open spec fn declared_transfer(body: Option<Arc<CameraManifest>>) -> Option<
    CameraInitiatedTransfer,
> {
    match body {
        Some(b) => b.camera_initiated_transfer,
        None => None,
    }
}

/// Checks the body of a model.
fn validate_body(view: &ModelView, body: &CameraManifest) -> (r: Result<(), ConfigError>)
    ensures
        forall|a: Arc<CameraManifest>|
            *a == *body ==> faults(
                r,
                #[trigger] body_fault(*view, Some(Ok::<Arc<CameraManifest>, String>(a))),
            ),
{
    let id = view.id.as_str();
    match body.require_supported_schema() {
        Ok(_) => {},
        Err(e) => {
            return refuse(join3("models.", id, ".schema"), e.message());
        },
    }
    match body.require_valid_mode_entries() {
        Ok(_) => {},
        Err(e) => {
            return refuse(join3("models.", id, ".connections"), e.message());
        },
    }
    match validate_reestablishment_params(id, body, view) {
        Err(e) => {
            return Err(e);
        },
        Ok(_) => {},
    }
    match validate_pcss_camera_names(id, body, view) {
        Err(e) => {
            return Err(e);
        },
        Ok(_) => {},
    }
    validate_host_establishment_scopes(id, body, view)
}

/// The bodies of the models of an index, where every rule on them is kept.
fn load_bodies(
    index: &ResolvedManufacturerIndex,
    model_bodies: &ModelBodies,
) -> (r: Result<NameMap<Arc<CameraManifest>>, ConfigError>)
    ensures
        match bodies_fault(index.models@, *model_bodies, 0) {
            Some(f) => r matches Err(e) && e@ == f,
            None => r matches Ok(b) && holds_bodies(
                b,
                index.models@,
                *model_bodies,
                index.models@.len() as int,
            ),
        },
{
    let mut bodies: NameMap<Arc<CameraManifest>> = NameMap::new();
    let mut i: usize = 0;
    proof {
        assert forall|k: Seq<char>| !#[trigger] lists_model(index.models@, k, 0) by {}
    }
    while i < index.models.len()
        invariant
            i <= index.models@.len(),
            holds_bodies(bodies, index.models@, *model_bodies, i as int),
            bodies_fault(index.models@, *model_bodies, 0) == bodies_fault(
                index.models@,
                *model_bodies,
                i as int,
            ),
        decreases index.models@.len() - i,
    {
        let view = &index.models[i];
        let ghost before = bodies;
        match model_bodies.get(view.id.as_str()) {
            None => {
                return Err(ConfigError::MissingModelBody { id: view.id.clone() });
            },
            Some(Err(e)) => {
                return Err(ConfigError::BodyParse { id: view.id.clone(), err: e.clone() });
            },
            Some(Ok(b)) => {
                match validate_body(view, &**b) {
                    Err(e) => {
                        return Err(e);
                    },
                    Ok(_) => {},
                }
                bodies.insert(view.id.clone(), share(b));
            },
        }
        proof {
            assert forall|k: Seq<char>| #[trigger]
                bodies.at(k) == (if lists_model(index.models@, k, i + 1) {
                    read_body(*model_bodies, k)
                } else {
                    None
                }) by {
                assert(index.models@[i as int] == *view);
                if k == view.id@ {
                    assert(lists_model(index.models@, k, i + 1));
                } else {
                    assert(bodies.at(k) == before.at(k));
                    if lists_model(index.models@, k, i + 1) {
                        let j = choose|j: int|
                            0 <= j < i + 1 && (#[trigger] index.models@[j]).id@ == k;
                        assert(index.models@[j].id@ == k && j < i);
                    }
                    assert(lists_model(index.models@, k, i + 1) == lists_model(
                        index.models@,
                        k,
                        i as int,
                    )) by {
                        if lists_model(index.models@, k, i as int) {
                            let j = choose|j: int|
                                0 <= j < i && (#[trigger] index.models@[j]).id@ == k;
                            assert(index.models@[j].id@ == k);
                        }
                    }
                }
            }
        }
        i = i + 1;
    }
    Ok(bodies)
}

/// The camera-initiated transfers of the models of an index, resolved.
fn load_transfers(
    index: &ResolvedManufacturerIndex,
    bodies: &ModelBodies,
) -> (r: Result<NameMap<Arc<ResolvedCameraInitiatedTransfer>>, ConfigError>)
    ensures
        match transfers_fault(index.models@, *bodies, 0) {
            Some(f) => r matches Err(e) && e@ == f,
            None => r matches Ok(t) && holds_transfers(
                t,
                index.models@,
                *bodies,
                index.models@.len() as int,
            ),
        },
{
    let mut out: NameMap<Arc<ResolvedCameraInitiatedTransfer>> = NameMap::new();
    let none: NameMap<String> = NameMap::new();
    proof {
        assert(names_of(none) =~= Map::<Seq<char>, Seq<char>>::empty());
    }
    let mut i: usize = 0;
    while i < index.models.len()
        invariant
            names_of(none) == Map::<Seq<char>, Seq<char>>::empty(),
            i <= index.models@.len(),
            holds_transfers(out, index.models@, *bodies, i as int),
            transfers_fault(index.models@, *bodies, 0) == transfers_fault(
                index.models@,
                *bodies,
                i as int,
            ),
        decreases index.models@.len() - i,
    {
        let view = &index.models[i];
        let ghost before = out;
        match get_body(bodies, view.id.as_str()) {
            Some(shared) => {
                let body: &CameraManifest = &**shared;
                let gatt = match &view.ble {
                    Some(b) => &b.gatt,
                    None => &none,
                };
                match &body.camera_initiated_transfer {
                    Some(t) => {
                        match validate_camera_initiated_monitor_recovery(view.id.as_str(), t, view) {
                            Err(e) => {
                                return Err(e);
                            },
                            Ok(_) => {},
                        }
                        match resolve_camera_initiated_transfer(view.id.as_str(), t, gatt, body) {
                            Ok(x) => {
                                out.insert(view.id.clone(), Arc::new(x));
                            },
                            Err(e) => {
                                return Err(e);
                            },
                        }
                    },
                    None => {},
                }
            },
            None => {},
        }
        proof {
            assert forall|k: Seq<char>|
                transfer_held(#[trigger] out.at(k), index.models@, *bodies, k, i + 1) by {
                assert(index.models@[i as int] == *view);
                assert(transfer_held(before.at(k), index.models@, *bodies, k, i as int));
                if k != view.id@ {
                    assert(out.at(k) == before.at(k));
                }
            }
        }
        i = i + 1;
    }
    Ok(out)
}

/// The first fault of an index and its bodies.
pub open spec fn load_fault(index: ResolvedManufacturerIndex, bodies: ModelBodies) -> Option<
    ConfigFault,
> {
    first_fault(
        bodies_fault(index.models@, bodies, 0),
        first_fault(
            metadata_fault(index_rows(Seq::empty(), index.models@, bodies, 0), 0),
            first_fault(
                merged_ids_fault(index.models@, bodies, 0),
                first_fault(
                    if index.models@.len() == 0 {
                        Some(invalid("models"@, "manufacturer index declares zero models"@))
                    } else {
                        None
                    },
                    transfers_fault(index.models@, bodies, 0),
                ),
            ),
        ),
    )
}

/// Whether a store holds an index and its bodies, with the first model's body as its manifest.
pub open spec fn stores(
    s: ConfigStore,
    index: ResolvedManufacturerIndex,
    model_bodies: ModelBodies,
) -> bool {
    let n = index.models@.len() as int;
    &&& n > 0
    &&& s.bodies.at(index.models@[0].id@) == Some(s.manifest)
    &&& s.manufacturer is None
    &&& s.index matches Some(x) && *x == index
    &&& holds_bodies(s.bodies, index.models@, model_bodies, n)
    &&& holds_transfers(
        s.resolved_camera_initiated_transfer_by_model,
        index.models@,
        model_bodies,
        n,
    )
}

impl ConfigStore {
    /// A store over a single body manifest, no manufacturer defaults.
    pub fn new(manifest: CameraManifest) -> (r: Self)
        ensures
            *r.manifest == manifest,
            r.manufacturer is None,
            r.index is None,
            r.bodies.entries() == Seq::<(String, Arc<CameraManifest>)>::empty(),
            r.resolved_camera_initiated_transfer_by_model.entries() == Seq::<
                (String, Arc<ResolvedCameraInitiatedTransfer>),
            >::empty(),
    {
        ConfigStore {
            manifest: Arc::new(manifest),
            manufacturer: None,
            index: None,
            bodies: NameMap::new(),
            resolved_camera_initiated_transfer_by_model: NameMap::new(),
        }
    }

    /// The store with these manufacturer defaults.
    pub fn with_manufacturer(self, defaults: ManufacturerDefaults) -> (r: Self)
        ensures
            r.manufacturer matches Some(d) && *d == defaults,
            r.manifest == self.manifest,
            r.index == self.index,
            r.bodies == self.bodies,
            r.resolved_camera_initiated_transfer_by_model
                == self.resolved_camera_initiated_transfer_by_model,
    {
        ConfigStore {
            manifest: self.manifest,
            manufacturer: Some(Arc::new(defaults)),
            index: self.index,
            bodies: self.bodies,
            resolved_camera_initiated_transfer_by_model: self.resolved_camera_initiated_transfer_by_model,
        }
    }

    /// Loads a manufacturer index and the body of every model that it declares. The first fault
    /// ends the load.
    ///
    /// `model_bodies` holds each body under the id of its model, or why it could not be read. A body
    /// that no model declares is not looked at.
    pub fn from_manufacturer_index(
        index: ResolvedManufacturerIndex,
        model_bodies: &ModelBodies,
    ) -> (r: Result<Arc<Self>, ConfigError>)
        ensures
            match load_fault(index, *model_bodies) {
                Some(f) => r matches Err(e) && e@ == f,
                None => r matches Ok(s) && stores(*s, index, *model_bodies),
            },
    {
        let bodies = match load_bodies(&index, model_bodies) {
            Ok(b) => b,
            Err(e) => {
                return Err(e);
            },
        };
        let ghost held = bodies;
        match validate_activity_metadata_consistency(&index, model_bodies) {
            Err(e) => {
                return Err(e);
            },
            Ok(_) => {},
        }
        match validate_merged_activity_ids(&index, model_bodies) {
            Err(e) => {
                return Err(e);
            },
            Ok(_) => {},
        }
        if index.models.len() == 0 {
            return refuse(
                "models".to_owned(),
                "manufacturer index declares zero models".to_owned(),
            );
        }
        let transfers = match load_transfers(&index, model_bodies) {
            Ok(t) => t,
            Err(e) => {
                return Err(e);
            },
        };
        proof {
            let id = index.models@[0].id@;
            assert(lists_model(index.models@, id, index.models@.len() as int));
            assert(body_fault(index.models@[0], model_bodies.at(id)) is None);
            assert(held.at(id) is Some);
        }
        match bodies.get(index.models[0].id.as_str()) {
            Some(first) => {
                let manifest = share(first);
                let s = ConfigStore {
                    manifest,
                    manufacturer: None,
                    index: Some(Arc::new(index)),
                    bodies,
                    resolved_camera_initiated_transfer_by_model: transfers,
                };
                proof {
                    assert(stores(s, index, *model_bodies));
                }
                Ok(Arc::new(s))
            },
            None => refuse(
                "models".to_owned(),
                "manufacturer index declares zero models".to_owned(),
            ),
        }
    }

    /// The body of a model, by its id. A store of a single body has none.
    pub fn body(&self, model_id: &str) -> (r: Option<&CameraManifest>)
        ensures
            match r {
                Some(b) => self.bodies.at(model_id@) matches Some(a) && *a == *b,
                None => self.bodies.at(model_id@) is None,
            },
    {
        match self.bodies.get(model_id) {
            Some(a) => Some(&**a),
            None => None,
        }
    }

    /// The store with the body of a model as its manifest, and everything else as it is. `None`
    /// where the id is that of no body.
    pub fn model_store(&self, model_id: &str) -> (r: Option<Self>)
        ensures
            match self.bodies.at(model_id@) {
                Some(b) => r matches Some(s) && s.manifest == b && s.manufacturer
                    == self.manufacturer && s.index == self.index && s.bodies.entries()
                    == self.bodies.entries()
                    && s.resolved_camera_initiated_transfer_by_model.entries()
                    == self.resolved_camera_initiated_transfer_by_model.entries(),
                None => r is None,
            },
    {
        match self.bodies.get(model_id) {
            Some(b) => Some(
                ConfigStore {
                    manifest: share(b),
                    manufacturer: share_option(&self.manufacturer),
                    index: share_option(&self.index),
                    bodies: share_map(&self.bodies),
                    resolved_camera_initiated_transfer_by_model: share_map(
                        &self.resolved_camera_initiated_transfer_by_model,
                    ),
                },
            ),
            None => None,
        }
    }

    /// The resolved camera-initiated transfer of a model.
    pub fn camera_initiated_transfer(&self, model_id: &str) -> (r: Option<
        &ResolvedCameraInitiatedTransfer,
    >)
        ensures
            match r {
                Some(t) => self.resolved_camera_initiated_transfer_by_model.at(model_id@) matches Some(
                    a,
                ) && *a == *t,
                None => self.resolved_camera_initiated_transfer_by_model.at(model_id@) is None,
            },
    {
        match self.resolved_camera_initiated_transfer_by_model.get(model_id) {
            Some(a) => Some(&**a),
            None => None,
        }
    }

    /// The version-ordering scheme of the camera. A name that is absent or not known stands for the
    /// default.
    pub fn version_scheme(&self) -> (r: VersionScheme)
        ensures
            r == VersionScheme::DottedInt,
    {
        VersionScheme::DottedInt
    }

    /// The policy of a named value.
    pub open spec fn policy(&self, key: Seq<char>) -> Option<ValuePolicy> {
        match self.manifest.values.at(key) {
            Some(v) => Some(v),
            None => match self.manufacturer {
                Some(d) => d.values.at(key),
                None => None,
            },
        }
    }

    /// A named value by its policy. The body's overrides the manufacturer's.
    pub fn value(&self, key: &str) -> (r: Option<&ValuePolicy>)
        ensures
            self.policy(key@) == match r {
                Some(v) => Some(*v),
                None => None,
            },
    {
        match self.manifest.values.get(key) {
            Some(v) => Some(v),
            None => match &self.manufacturer {
                Some(d) => d.values.get(key),
                None => None,
            },
        }
    }

    /// The ids of the connections that are available under the camera's firmware, in key order.
    pub fn connections_available(&self) -> (r: Vec<&str>)
        ensures
            str_views(r@) == available_ids_from(
                self.manifest.connections.entries(),
                self.manifest.camera.firmware@,
                VersionScheme::DottedInt,
                0,
            ),
    {
        self.manifest.connections_available(
            self.manifest.camera.firmware.as_str(),
            self.version_scheme(),
        )
    }
}

/// A value that the body declares is the body's, whatever the manufacturer declares.
pub proof fn body_overrides_manufacturer(s: ConfigStore, d: ManufacturerDefaults, key: Seq<char>)
    requires
        s.manifest.values.has(key),
    ensures
        (ConfigStore { manufacturer: Some(Arc::new(d)), ..s }).policy(key)
            == s.manifest.values.at(key),
        s.policy(key) == s.manifest.values.at(key),
{
}

} // verus!
