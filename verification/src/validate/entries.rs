//! The rules on a whole manifest.

use crate::activity::ConnectionActivityDescriptor;
use crate::error::ManifestError;
use crate::model::{
    parse_hex_code, Action, ActionVerb, CameraManifest, Connection, ModeEntry, ModeEntryExecution,
    Operation, Property,
};
use crate::text::{join2, join3, join4, same};
use crate::validate::actions::{
    action_roles_violation, require_valid_action_roles, require_valid_action_runtime_values,
    runtime_values_violation,
};
use crate::validate::activities::{
    all, consistent_scan, executor_activities_violation, host_activities_violation,
    require_consistent_activity_metadata, require_valid_executor_activities,
    require_valid_host_activities, scans, Scan,
};
use crate::validate::connections::{
    control_surfaces_violation, init_shape_violation, object_transfer_violation,
    rendezvous_violation, require_valid_connection_transitions, require_valid_control_surfaces,
    require_valid_init_shape, require_valid_object_transfer, require_valid_pcss_rendezvous,
    require_valid_socket_bindings, socket_bindings_violation, transitions_violation,
};
use crate::validate::properties::{
    descriptor_violation, handler_violation, key_violation, payload_violation,
    require_valid_descriptor, require_valid_operation_handler, require_valid_payload,
    require_valid_structured_text, structured_text_violation,
};
use crate::validate::steps::{
    open_channels_violation, ptp_steps_violation, require_no_runtime_set_props,
    require_valid_open_channels, require_valid_ptp_steps, runtime_value_violation,
};
use crate::validate::{first, index_path, indexed, reports};
use crate::SCHEMA_VERSION;
use vstd::prelude::*;

verus! {

/// The name of an action verb, as it stands in a path.
pub open spec fn verb_label(v: ActionVerb) -> Seq<char> {
    match v {
        ActionVerb::Shutter => "Shutter"@,
        ActionVerb::EnumerateObjects => "EnumerateObjects"@,
        ActionVerb::GetObjectInfo => "GetObjectInfo"@,
        ActionVerb::GetThumb => "GetThumb"@,
        ActionVerb::GetObject => "GetObject"@,
        ActionVerb::DeleteObject => "DeleteObject"@,
        ActionVerb::AutofocusLock => "AutofocusLock"@,
        ActionVerb::AutofocusRelease => "AutofocusRelease"@,
        ActionVerb::ImportObjects => "ImportObjects"@,
        ActionVerb::ReadDeviceInfo => "ReadDeviceInfo"@,
        ActionVerb::StartLiveView => "StartLiveView"@,
        ActionVerb::PollLiveView => "PollLiveView"@,
        ActionVerb::StopLiveView => "StopLiveView"@,
        ActionVerb::Keepalive => "Keepalive"@,
    }
}

/// The name of an action verb, as it stands in a path.
pub(crate) fn verb_name(v: ActionVerb) -> (r: &'static str)
    ensures
        r@ == verb_label(v),
{
    match v {
        ActionVerb::Shutter => "Shutter",
        ActionVerb::EnumerateObjects => "EnumerateObjects",
        ActionVerb::GetObjectInfo => "GetObjectInfo",
        ActionVerb::GetThumb => "GetThumb",
        ActionVerb::GetObject => "GetObject",
        ActionVerb::DeleteObject => "DeleteObject",
        ActionVerb::AutofocusLock => "AutofocusLock",
        ActionVerb::AutofocusRelease => "AutofocusRelease",
        ActionVerb::ImportObjects => "ImportObjects",
        ActionVerb::ReadDeviceInfo => "ReadDeviceInfo",
        ActionVerb::StartLiveView => "StartLiveView",
        ActionVerb::PollLiveView => "PollLiveView",
        ActionVerb::StopLiveView => "StopLiveView",
        ActionVerb::Keepalive => "Keepalive",
    }
}

/// The violation of the rules on the operations, from entry `i` on.
pub open spec fn operations_violation(s: Seq<(String, Operation)>, i: int) -> Option<Seq<char>>
    decreases s.len() - i,
{
    if i < 0 || i >= s.len() {
        None
    } else {
        first(handler_violation(s[i].1, s[i].0@), operations_violation(s, i + 1))
    }
}

/// The violation of the rules on a property.
pub open spec fn property_violation(m: CameraManifest, p: Property, code: Seq<char>) -> Option<
    Seq<char>,
> {
    first(
        descriptor_violation(p, code),
        first(structured_text_violation(p, code), payload_violation(m, p, code)),
    )
}

/// The violation of the rules on the properties, from entry `i` on.
pub open spec fn properties_violation(m: CameraManifest, s: Seq<(String, Property)>, i: int) -> Option<
    Seq<char>,
>
    decreases s.len() - i,
{
    if i < 0 || i >= s.len() {
        None
    } else {
        first(property_violation(m, s[i].1, s[i].0@), properties_violation(m, s, i + 1))
    }
}

/// The violation of the rules on a connection, its entries, actions and shared activities apart.
pub open spec fn connection_violation(m: CameraManifest, c: Connection, id: Seq<char>) -> Option<
    Seq<char>,
> {
    first(
        host_activities_violation(c.activities@, id, 0),
        first(
            socket_bindings_violation(m, c, id),
            first(
                init_shape_violation(c, id),
                first(
                    transitions_violation(m, c.enables@, id, 0),
                    first(
                        rendezvous_violation(c, id),
                        first(
                            object_transfer_violation(m, c, id),
                            control_surfaces_violation(m, c, id, 0),
                        ),
                    ),
                ),
            ),
        ),
    )
}

/// The violation of the rules on what a mode entry executes.
pub open spec fn entry_violation(c: Connection, e: ModeEntry, path: Seq<char>) -> Option<Seq<char>> {
    match e.execution {
        ModeEntryExecution::Ptp { steps } => first(
            ptp_steps_violation(steps@, path),
            first(
                runtime_value_violation(steps@, path, 0),
                first(
                    open_channels_violation(steps@, c.bindings, path, true, false, 0),
                    executor_activities_violation(
                        e.activities@,
                        steps@.len() as int,
                        path + ".activities"@,
                        0,
                        0,
                    ),
                ),
            ),
        ),
        ModeEntryExecution::ReestablishConnection(reestablish) => {
            let inner = path + ".reestablishConnection.exitSteps"@;
            let steps = reestablish.exit_steps@;
            first(
                ptp_steps_violation(steps, inner),
                first(
                    runtime_value_violation(steps, inner, 0),
                    first(
                        open_channels_violation(steps, c.bindings, inner, false, false, 0),
                        executor_activities_violation(
                            e.activities@,
                            steps.len() as int,
                            path + ".activities"@,
                            0,
                            0,
                        ),
                    ),
                ),
            )
        },
        ModeEntryExecution::UserInstruction { .. } => if e.activities@.len() > 0 {
            Some(path + ".activities cannot target a userInstruction"@)
        } else {
            None
        },
    }
}

/// The first entry, from `i` on, that leads to `to` from no mode in particular.
pub open spec fn cold_entry(entries: Seq<ModeEntry>, to: Seq<char>, i: int) -> Option<ModeEntry>
    decreases entries.len() - i,
{
    if i < 0 || i >= entries.len() {
        None
    } else if entries[i].to@ == to && entries[i].from is None {
        Some(entries[i])
    } else {
        cold_entry(entries, to, i + 1)
    }
}

/// The violation of the rules on an entry that leaves the session: the connection can be
/// established again, and a cold PTP entry leads to the mode.
pub open spec fn reestablish_violation(c: Connection, e: ModeEntry, path: Seq<char>) -> Option<
    Seq<char>,
> {
    if !(e.execution is ReestablishConnection) {
        None
    } else if c.establishment is None {
        Some(path + " reestablishes a connection with no establishment mechanism"@)
    } else if !(cold_entry(c.entries@, e.to@, 0) matches Some(cold) && cold.execution is Ptp) {
        Some(path + " requires a non-recursive cold PTP entry for '"@ + e.to@ + "'"@)
    } else {
        None
    }
}

/// The scan of the mode entries of a connection from `i` on.
pub open spec fn entries_scan(
    c: Connection,
    id: Seq<char>,
    seen: Seq<ConnectionActivityDescriptor>,
    i: int,
) -> Scan
    decreases c.entries@.len() - i,
{
    if i < 0 || i >= c.entries@.len() {
        Scan::Seen(seen)
    } else {
        let path = indexed("connections."@ + id, ".entries["@, i);
        let e = c.entries@[i];
        match entry_violation(c, e, path) {
            Some(t) => Scan::Broken(t),
            None => match consistent_scan(e.activities@, seen, path + ".activities"@, 0) {
                Scan::Broken(t) => Scan::Broken(t),
                Scan::Seen(next) => match reestablish_violation(c, e, path) {
                    Some(t) => Scan::Broken(t),
                    None => entries_scan(c, id, next, i + 1),
                },
            },
        }
    }
}

/// The scan of an action.
pub open spec fn action_scan(
    m: CameraManifest,
    c: Connection,
    a: Action,
    path: Seq<char>,
    seen: Seq<ConnectionActivityDescriptor>,
) -> Scan {
    match action_roles_violation(m, a, path) {
        Some(t) => Scan::Broken(t),
        None => match a.initiator {
            None => Scan::Seen(seen),
            Some(initiator) => match first(
                ptp_steps_violation(initiator.steps@, path),
                first(
                    runtime_values_violation(m, initiator.params@, initiator.steps@, path, 0),
                    first(
                        open_channels_violation(
                            initiator.steps@,
                            c.bindings,
                            path,
                            true,
                            false,
                            0,
                        ),
                        executor_activities_violation(
                            initiator.activities@,
                            initiator.steps@.len() as int,
                            path + ".initiator.activities"@,
                            0,
                            0,
                        ),
                    ),
                ),
            ) {
                Some(t) => Scan::Broken(t),
                None => consistent_scan(
                    initiator.activities@,
                    seen,
                    path + ".initiator.activities"@,
                    0,
                ),
            },
        },
    }
}

/// The scan of the actions of a connection from entry `i` on.
pub open spec fn actions_scan(
    m: CameraManifest,
    c: Connection,
    id: Seq<char>,
    seen: Seq<ConnectionActivityDescriptor>,
    i: int,
) -> Scan
    decreases c.actions.entries().len() - i,
{
    let s = c.actions.entries();
    if i < 0 || i >= s.len() {
        Scan::Seen(seen)
    } else {
        let path = "connections."@ + id + ".actions."@ + verb_label(s[i].0);
        match action_scan(m, c, s[i].1, path, seen) {
            Scan::Broken(t) => Scan::Broken(t),
            Scan::Seen(next) => actions_scan(m, c, id, next, i + 1),
        }
    }
}

/// The scan of a connection.
pub open spec fn connection_scan(
    m: CameraManifest,
    c: Connection,
    id: Seq<char>,
    seen: Seq<ConnectionActivityDescriptor>,
) -> Scan {
    match connection_violation(m, c, id) {
        Some(t) => Scan::Broken(t),
        None => match consistent_scan(
            c.activities@,
            seen,
            "connections."@ + id + ".activities"@,
            0,
        ) {
            Scan::Broken(t) => Scan::Broken(t),
            Scan::Seen(next) => match entries_scan(c, id, next, 0) {
                Scan::Broken(t) => Scan::Broken(t),
                Scan::Seen(more) => actions_scan(m, c, id, more, 0),
            },
        },
    }
}

/// The scan of the connections from entry `i` on.
pub open spec fn connections_scan(
    m: CameraManifest,
    seen: Seq<ConnectionActivityDescriptor>,
    i: int,
) -> Scan
    decreases m.connections.entries().len() - i,
{
    let s = m.connections.entries();
    if i < 0 || i >= s.len() {
        Scan::Seen(seen)
    } else {
        match connection_scan(m, s[i].1, s[i].0@, seen) {
            Scan::Broken(t) => Scan::Broken(t),
            Scan::Seen(next) => connections_scan(m, next, i + 1),
        }
    }
}

/// The first violation of the rules on a manifest.
pub open spec fn manifest_violation(m: CameraManifest) -> Option<Seq<char>> {
    first(
        key_violation(
            m.properties.entries(),
            "properties map key '"@,
            "' is not a hex property code"@,
            0,
        ),
        first(
            key_violation(
                m.operations.entries(),
                "operations map key '"@,
                "' is not a hex operation code"@,
                0,
            ),
            first(
                operations_violation(m.operations.entries(), 0),
                first(
                    properties_violation(m, m.properties.entries(), 0),
                    match connections_scan(m, Seq::empty(), 0) {
                        Scan::Broken(t) => Some(t),
                        Scan::Seen(_) => None,
                    },
                ),
            ),
        ),
    )
}

/// Checks what a mode entry executes.
fn require_valid_entry(connection: &Connection, entry: &ModeEntry, path: &str) -> (r: Result<
    (),
    ManifestError,
>)
    ensures
        reports(r, entry_violation(*connection, *entry, path@)),
{
    match &entry.execution {
        ModeEntryExecution::Ptp { steps } => {
            match require_valid_ptp_steps(steps, path) {
                Err(e) => {
                    return Err(e);
                },
                Ok(_) => {},
            }
            match require_no_runtime_set_props(steps, path) {
                Err(e) => {
                    return Err(e);
                },
                Ok(_) => {},
            }
            match require_valid_open_channels(steps, &connection.bindings, path, true) {
                Err(e) => {
                    return Err(e);
                },
                Ok(_) => {},
            }
            require_valid_executor_activities(
                &entry.activities,
                steps.len(),
                join2(path, ".activities").as_str(),
            )
        },
        ModeEntryExecution::ReestablishConnection(reestablish) => {
            let inner = join2(path, ".reestablishConnection.exitSteps");
            let steps = &reestablish.exit_steps;
            match require_valid_ptp_steps(steps, inner.as_str()) {
                Err(e) => {
                    return Err(e);
                },
                Ok(_) => {},
            }
            match require_no_runtime_set_props(steps, inner.as_str()) {
                Err(e) => {
                    return Err(e);
                },
                Ok(_) => {},
            }
            match require_valid_open_channels(steps, &connection.bindings, inner.as_str(), false) {
                Err(e) => {
                    return Err(e);
                },
                Ok(_) => {},
            }
            require_valid_executor_activities(
                &entry.activities,
                steps.len(),
                join2(path, ".activities").as_str(),
            )
        },
        ModeEntryExecution::UserInstruction { .. } => {
            if entry.activities.len() > 0 {
                return Err(
                    ManifestError::Contract(
                        join2(path, ".activities cannot target a userInstruction"),
                    ),
                );
            }
            Ok(())
        },
    }
}

/// The first entry that leads to `to` from no mode in particular.
fn find_cold_entry<'a>(entries: &'a Vec<ModeEntry>, to: &str) -> (r: Option<&'a ModeEntry>)
    ensures
        match r {
            Some(e) => cold_entry(entries@, to@, 0) == Some(*e),
            None => cold_entry(entries@, to@, 0) is None,
        },
{
    let mut i: usize = 0;
    while i < entries.len()
        invariant
            i <= entries.len(),
            cold_entry(entries@, to@, 0) == cold_entry(entries@, to@, i as int),
        decreases entries.len() - i,
    {
        if same(entries[i].to.as_str(), to) && entries[i].from.is_none() {
            return Some(&entries[i]);
        }
        i = i + 1;
    }
    None
}

/// Checks an entry that leaves the session.
fn require_reestablishable(connection: &Connection, entry: &ModeEntry, path: &str) -> (r: Result<
    (),
    ManifestError,
>)
    ensures
        reports(r, reestablish_violation(*connection, *entry, path@)),
{
    match &entry.execution {
        ModeEntryExecution::ReestablishConnection(_) => {},
        _ => {
            return Ok(());
        },
    }
    if connection.establishment.is_none() {
        return Err(
            ManifestError::Contract(
                join2(path, " reestablishes a connection with no establishment mechanism"),
            ),
        );
    }
    let cold = match find_cold_entry(&connection.entries, entry.to.as_str()) {
        None => false,
        Some(e) => e.ptp_steps().is_some(),
    };
    if !cold {
        return Err(
            ManifestError::Contract(
                join4(path, " requires a non-recursive cold PTP entry for '", entry.to.as_str(), "'"),
            ),
        );
    }
    Ok(())
}

/// Checks the mode entries of a connection.
fn require_valid_entries<'a>(
    connection: &'a Connection,
    connection_id: &str,
    seen: &mut Vec<&'a ConnectionActivityDescriptor>,
) -> (r: Result<(), ManifestError>)
    ensures
        scans(r, final(seen)@, entries_scan(*connection, connection_id@, all(old(seen)@), 0)),
{
    let base = join2("connections.", connection_id);
    let mut i: usize = 0;
    while i < connection.entries.len()
        invariant
            base@ == "connections."@ + connection_id@,
            i <= connection.entries.len(),
            entries_scan(*connection, connection_id@, all(old(seen)@), 0) == entries_scan(
                *connection,
                connection_id@,
                all(seen@),
                i as int,
            ),
        decreases connection.entries.len() - i,
    {
        let path = index_path(base.as_str(), ".entries[", i);
        let entry = &connection.entries[i];
        match require_valid_entry(connection, entry, path.as_str()) {
            Err(e) => {
                return Err(e);
            },
            Ok(_) => {},
        }
        match require_consistent_activity_metadata(seen, &entry.activities, join2(path.as_str(), ".activities").as_str()) {
            Err(e) => {
                return Err(e);
            },
            Ok(_) => {},
        }
        match require_reestablishable(connection, entry, path.as_str()) {
            Err(e) => {
                return Err(e);
            },
            Ok(_) => {},
        }
        i = i + 1;
    }
    Ok(())
}

/// Checks an action of a connection.
fn require_valid_action<'a>(
    manifest: &CameraManifest,
    connection: &Connection,
    action: &'a Action,
    path: &str,
    seen: &mut Vec<&'a ConnectionActivityDescriptor>,
) -> (r: Result<(), ManifestError>)
    ensures
        scans(
            r,
            final(seen)@,
            action_scan(*manifest, *connection, *action, path@, all(old(seen)@)),
        ),
{
    match require_valid_action_roles(manifest, action, path) {
        Err(e) => {
            return Err(e);
        },
        Ok(_) => {},
    }
    match &action.initiator {
        None => Ok(()),
        Some(initiator) => {
            match require_valid_ptp_steps(&initiator.steps, path) {
                Err(e) => {
                    return Err(e);
                },
                Ok(_) => {},
            }
            match require_valid_action_runtime_values(manifest, initiator, path) {
                Err(e) => {
                    return Err(e);
                },
                Ok(_) => {},
            }
            match require_valid_open_channels(&initiator.steps, &connection.bindings, path, true) {
                Err(e) => {
                    return Err(e);
                },
                Ok(_) => {},
            }
            let here = join2(path, ".initiator.activities");
            match require_valid_executor_activities(&initiator.activities, initiator.steps.len(), here.as_str()) {
                Err(e) => {
                    return Err(e);
                },
                Ok(_) => {},
            }
            require_consistent_activity_metadata(seen, &initiator.activities, here.as_str())
        },
    }
}

/// Checks the actions of a connection.
fn require_valid_actions<'a>(
    manifest: &CameraManifest,
    connection: &'a Connection,
    connection_id: &str,
    seen: &mut Vec<&'a ConnectionActivityDescriptor>,
) -> (r: Result<(), ManifestError>)
    ensures
        scans(
            r,
            final(seen)@,
            actions_scan(*manifest, *connection, connection_id@, all(old(seen)@), 0),
        ),
{
    let mut i: usize = 0;
    while i < connection.actions.len()
        invariant
            i <= connection.actions.entries().len(),
            actions_scan(*manifest, *connection, connection_id@, all(old(seen)@), 0)
                == actions_scan(*manifest, *connection, connection_id@, all(seen@), i as int),
        decreases connection.actions.entries().len() - i,
    {
        let path = join4(
            "connections.",
            connection_id,
            ".actions.",
            verb_name(connection.actions.key_at(i)),
        );
        match require_valid_action(manifest, connection, connection.actions.value_at(i), path.as_str(), seen) {
            Err(e) => {
                return Err(e);
            },
            Ok(_) => {},
        }
        i = i + 1;
    }
    Ok(())
}

/// Checks a connection.
fn require_valid_connection<'a>(
    manifest: &CameraManifest,
    connection: &'a Connection,
    connection_id: &str,
    seen: &mut Vec<&'a ConnectionActivityDescriptor>,
) -> (r: Result<(), ManifestError>)
    ensures
        scans(
            r,
            final(seen)@,
            connection_scan(*manifest, *connection, connection_id@, all(old(seen)@)),
        ),
{
    match require_valid_host_activities(connection, connection_id) {
        Err(e) => {
            return Err(e);
        },
        Ok(_) => {},
    }
    match require_valid_socket_bindings(manifest, connection, connection_id) {
        Err(e) => {
            return Err(e);
        },
        Ok(_) => {},
    }
    match require_valid_init_shape(connection, connection_id) {
        Err(e) => {
            return Err(e);
        },
        Ok(_) => {},
    }
    match require_valid_connection_transitions(manifest, connection, connection_id) {
        Err(e) => {
            return Err(e);
        },
        Ok(_) => {},
    }
    match require_valid_pcss_rendezvous(connection, connection_id) {
        Err(e) => {
            return Err(e);
        },
        Ok(_) => {},
    }
    match require_valid_object_transfer(manifest, connection, connection_id) {
        Err(e) => {
            return Err(e);
        },
        Ok(_) => {},
    }
    match require_valid_control_surfaces(manifest, connection, connection_id) {
        Err(e) => {
            return Err(e);
        },
        Ok(_) => {},
    }
    let path = join3("connections.", connection_id, ".activities");
    match require_consistent_activity_metadata(seen, &connection.activities, path.as_str()) {
        Err(e) => {
            return Err(e);
        },
        Ok(_) => {},
    }
    match require_valid_entries(connection, connection_id, seen) {
        Err(e) => {
            return Err(e);
        },
        Ok(_) => {},
    }
    require_valid_actions(manifest, connection, connection_id, seen)
}

/// Checks that every key of the properties writes a code.
fn require_property_keys(manifest: &CameraManifest) -> (r: Result<(), ManifestError>)
    ensures
        reports(
            r,
            key_violation(
                manifest.properties.entries(),
                "properties map key '"@,
                "' is not a hex property code"@,
                0,
            ),
        ),
{
    let mut i: usize = 0;
    while i < manifest.properties.len()
        invariant
            i <= manifest.properties.entries().len(),
            key_violation(
                manifest.properties.entries(),
                "properties map key '"@,
                "' is not a hex property code"@,
                0,
            ) == key_violation(
                manifest.properties.entries(),
                "properties map key '"@,
                "' is not a hex property code"@,
                i as int,
            ),
        decreases manifest.properties.entries().len() - i,
    {
        let code = manifest.properties.key_at(i).as_str();
        if parse_hex_code(code).is_none() {
            return Err(
                ManifestError::Contract(
                    join3("properties map key '", code, "' is not a hex property code"),
                ),
            );
        }
        i = i + 1;
    }
    Ok(())
}

/// Checks that every key of the operations writes a code.
fn require_operation_keys(manifest: &CameraManifest) -> (r: Result<(), ManifestError>)
    ensures
        reports(
            r,
            key_violation(
                manifest.operations.entries(),
                "operations map key '"@,
                "' is not a hex operation code"@,
                0,
            ),
        ),
{
    let mut i: usize = 0;
    while i < manifest.operations.len()
        invariant
            i <= manifest.operations.entries().len(),
            key_violation(
                manifest.operations.entries(),
                "operations map key '"@,
                "' is not a hex operation code"@,
                0,
            ) == key_violation(
                manifest.operations.entries(),
                "operations map key '"@,
                "' is not a hex operation code"@,
                i as int,
            ),
        decreases manifest.operations.entries().len() - i,
    {
        let code = manifest.operations.key_at(i).as_str();
        if parse_hex_code(code).is_none() {
            return Err(
                ManifestError::Contract(
                    join3("operations map key '", code, "' is not a hex operation code"),
                ),
            );
        }
        i = i + 1;
    }
    Ok(())
}

/// Checks the operations.
fn require_valid_operations(manifest: &CameraManifest) -> (r: Result<(), ManifestError>)
    ensures
        reports(r, operations_violation(manifest.operations.entries(), 0)),
{
    let mut i: usize = 0;
    while i < manifest.operations.len()
        invariant
            i <= manifest.operations.entries().len(),
            operations_violation(manifest.operations.entries(), 0) == operations_violation(
                manifest.operations.entries(),
                i as int,
            ),
        decreases manifest.operations.entries().len() - i,
    {
        match require_valid_operation_handler(manifest.operations.value_at(i), manifest.operations.key_at(i).as_str()) {
            Err(e) => {
                return Err(e);
            },
            Ok(_) => {},
        }
        i = i + 1;
    }
    Ok(())
}

/// Checks the properties.
fn require_valid_properties(manifest: &CameraManifest) -> (r: Result<(), ManifestError>)
    ensures
        reports(r, properties_violation(*manifest, manifest.properties.entries(), 0)),
{
    let mut i: usize = 0;
    while i < manifest.properties.len()
        invariant
            i <= manifest.properties.entries().len(),
            properties_violation(*manifest, manifest.properties.entries(), 0)
                == properties_violation(*manifest, manifest.properties.entries(), i as int),
        decreases manifest.properties.entries().len() - i,
    {
        let code = manifest.properties.key_at(i).as_str();
        let property = manifest.properties.value_at(i);
        match require_valid_descriptor(property, code) {
            Err(e) => {
                return Err(e);
            },
            Ok(_) => {},
        }
        match require_valid_structured_text(property, code) {
            Err(e) => {
                return Err(e);
            },
            Ok(_) => {},
        }
        match require_valid_payload(manifest, property, code) {
            Err(e) => {
                return Err(e);
            },
            Ok(_) => {},
        }
        i = i + 1;
    }
    Ok(())
}

impl CameraManifest {
    /// Checks every rule on the manifest and reports the first violation.
    ///
    /// A consumer that finds no violation can establish each connection, and can resolve a cold
    /// PTP entry before it leaves a session.
    pub fn require_valid_mode_entries(&self) -> (r: Result<(), ManifestError>)
        ensures
            reports(r, manifest_violation(*self)),
    {
        match require_property_keys(self) {
            Err(e) => {
                return Err(e);
            },
            Ok(_) => {},
        }
        match require_operation_keys(self) {
            Err(e) => {
                return Err(e);
            },
            Ok(_) => {},
        }
        match require_valid_operations(self) {
            Err(e) => {
                return Err(e);
            },
            Ok(_) => {},
        }
        match require_valid_properties(self) {
            Err(e) => {
                return Err(e);
            },
            Ok(_) => {},
        }
        let mut seen: Vec<&ConnectionActivityDescriptor> = Vec::new();
        let mut i: usize = 0;
        proof {
            assert(all(seen@) == Seq::<ConnectionActivityDescriptor>::empty());
        }
        while i < self.connections.len()
            invariant
                i <= self.connections.entries().len(),
                manifest_violation(*self) == (match connections_scan(*self, all(seen@), i as int) {
                    Scan::Broken(t) => Some(t),
                    Scan::Seen(_) => None,
                }),
            decreases self.connections.entries().len() - i,
        {
            match require_valid_connection(self, self.connections.value_at(i), self.connections.key_at(i).as_str(), &mut seen) {
                Err(e) => {
                    return Err(e);
                },
                Ok(_) => {},
            }
            i = i + 1;
        }
        Ok(())
    }

    /// Checks that the manifest declares the schema that this library reads.
    pub fn require_supported_schema(&self) -> (r: Result<(), ManifestError>)
        ensures
            match r {
                Ok(_) => self.schema@ == SCHEMA_VERSION@,
                Err(e) => self.schema@ != SCHEMA_VERSION@ && (e matches ManifestError::Schema {
                    found,
                    expected,
                } && found@ == self.schema@ && expected@ == SCHEMA_VERSION@),
            },
    {
        if !same(self.schema.as_str(), SCHEMA_VERSION) {
            return Err(
                ManifestError::Schema {
                    found: self.schema.clone(),
                    expected: SCHEMA_VERSION.to_owned(),
                },
            );
        }
        Ok(())
    }
}

/// Entries that are scanned to the end keep the rule on those that leave the session.
proof fn scanned_entries_reestablish(
    c: Connection,
    id: Seq<char>,
    seen: Seq<ConnectionActivityDescriptor>,
    i: int,
    k: int,
)
    requires
        0 <= i <= k < c.entries@.len(),
        entries_scan(c, id, seen, i) is Seen,
    ensures
        reestablish_violation(
            c,
            c.entries@[k],
            indexed("connections."@ + id, ".entries["@, k),
        ) is None,
    decreases k - i,
{
    let path = indexed("connections."@ + id, ".entries["@, i);
    if i < k {
        let next = consistent_scan(c.entries@[i].activities@, seen, path + ".activities"@, 0)->Seen_0;
        scanned_entries_reestablish(c, id, next, i + 1, k);
    }
}

/// Connections that are scanned to the end are scanned each.
proof fn scanned_connection(
    m: CameraManifest,
    seen: Seq<ConnectionActivityDescriptor>,
    i: int,
    j: int,
) -> (at: Seq<ConnectionActivityDescriptor>)
    requires
        0 <= i <= j < m.connections.entries().len(),
        connections_scan(m, seen, i) is Seen,
    ensures
        connection_scan(m, m.connections.entries()[j].1, m.connections.entries()[j].0@, at) is Seen,
    decreases j - i,
{
    let s = m.connections.entries();
    if i < j {
        let next = connection_scan(m, s[i].1, s[i].0@, seen)->Seen_0;
        scanned_connection(m, next, i + 1, j)
    } else {
        seen
    }
}

/// In a manifest that breaks no rule, a mode entry that leaves the session belongs to a connection
/// that can be established again, and a cold PTP entry leads to its mode.
pub proof fn accepted_entry_reestablishes(m: CameraManifest, j: int, k: int)
    requires
        manifest_violation(m) is None,
        0 <= j < m.connections.entries().len(),
        0 <= k < m.connections.entries()[j].1.entries@.len(),
        m.connections.entries()[j].1.entries@[k].execution is ReestablishConnection,
    ensures
        m.connections.entries()[j].1.establishment is Some,
        cold_entry(
            m.connections.entries()[j].1.entries@,
            m.connections.entries()[j].1.entries@[k].to@,
            0,
        ) matches Some(cold) && cold.execution is Ptp,
{
    let s = m.connections.entries();
    let c = s[j].1;
    let id = s[j].0@;
    let at = scanned_connection(m, Seq::empty(), 0, j);
    let next = consistent_scan(c.activities@, at, "connections."@ + id + ".activities"@, 0)->Seen_0;
    scanned_entries_reestablish(c, id, next, 0, k);
}

} // verus!
