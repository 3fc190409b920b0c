//! What an accepted manifest keeps as a whole.

use crate::activity::ConnectionActivityDescriptor;
use crate::model::{
    hex_code, Action, CameraManifest, Connection, ModeEntryExecution, Operation, Property,
};
use crate::validate::accepted::keys_write_codes;
use crate::validate::actions::{action_roles_violation, runtime_values_violation};
use crate::validate::activities::{
    consistent_scan, executor_activities_violation, host_activities_violation,
};
use crate::validate::connections::{
    control_surfaces_violation, init_retries_violation, init_shape_violation, knock_violation,
    object_transfer_violation, socket_bindings_violation, transitions_violation,
};
use crate::validate::entries::{
    action_scan, actions_scan, connection_scan, connection_violation, connections_scan,
    entries_scan, entry_violation, manifest_violation, operations_violation, properties_violation,
    reestablish_violation, verb_label,
};
use crate::validate::indexed;
use crate::validate::properties::{
    descriptor_violation, handler_violation, payload_violation, structured_text_violation,
};
use crate::validate::sequences::{agree, descriptors_of_one_activity_agree};
use crate::validate::steps::{
    open_channels_violation, ptp_steps_violation, runtime_value_violation,
};
use vstd::prelude::*;

verus! {

/// Whether any two descriptors of a row agree.
pub open spec fn all_agree(v: Seq<ConnectionActivityDescriptor>) -> bool {
    forall|j: int, k: int| #![trigger v[j], v[k]] 0 <= j < k < v.len() ==> agree(v[j], v[k])
}

/// Whether a row holds all that another one does.
pub open spec fn holds_all(
    out: Seq<ConnectionActivityDescriptor>,
    v: Seq<ConnectionActivityDescriptor>,
) -> bool {
    forall|d: ConnectionActivityDescriptor| v.contains(d) ==> #[trigger] out.contains(d)
}

/// A scan of descriptors keeps those seen and adds its own.
proof fn scan_adds(
    acts: Seq<ConnectionActivityDescriptor>,
    seen: Seq<ConnectionActivityDescriptor>,
    path: Seq<char>,
)
    requires
        all_agree(seen),
        consistent_scan(acts, seen, path, 0) is Seen,
    ensures
        all_agree(consistent_scan(acts, seen, path, 0)->Seen_0),
        holds_all(consistent_scan(acts, seen, path, 0)->Seen_0, seen),
        holds_all(consistent_scan(acts, seen, path, 0)->Seen_0, acts),
{
    descriptors_of_one_activity_agree(acts, seen, path, 0);
    let out = consistent_scan(acts, seen, path, 0)->Seen_0;
    assert(acts.skip(0) =~= acts);
    assert(out == seen + acts);
    assert forall|j: int, k: int| #![trigger out[j], out[k]] 0 <= j < k < out.len() implies agree(
        out[j],
        out[k],
    ) by {
        if k < seen.len() {
            assert(agree(seen[j], seen[k]));
        } else if j < seen.len() {
            assert(agree(seen[j], acts[k - seen.len()]));
        } else {
            assert(agree(acts[j - seen.len()], acts[k - seen.len()]));
        }
    }
    assert forall|d: ConnectionActivityDescriptor| seen.contains(d) implies #[trigger] out.contains(
        d,
    ) by {
        let i = seen.index_of(d);
        assert(out[i] == d);
    }
    assert forall|d: ConnectionActivityDescriptor| acts.contains(d) implies #[trigger] out.contains(
        d,
    ) by {
        let i = acts.index_of(d);
        assert(out[seen.len() + i] == d);
    }
}

/// What holds of an accepted entry of a connection.
pub open spec fn entry_kept(c: Connection, id: Seq<char>, k: int) -> bool {
    let path = indexed("connections."@ + id, ".entries["@, k);
    &&& entry_violation(c, c.entries@[k], path) is None
    &&& reestablish_violation(c, c.entries@[k], path) is None
}

/// The entries of a connection, checked one by one.
proof fn entries_add(
    c: Connection,
    id: Seq<char>,
    seen: Seq<ConnectionActivityDescriptor>,
    i: int,
)
    requires
        0 <= i,
        all_agree(seen),
        entries_scan(c, id, seen, i) is Seen,
    ensures
        all_agree(entries_scan(c, id, seen, i)->Seen_0),
        holds_all(entries_scan(c, id, seen, i)->Seen_0, seen),
        forall|k: int|
            #![trigger c.entries@[k]]
            i <= k < c.entries@.len() ==> entry_kept(c, id, k) && holds_all(
                entries_scan(c, id, seen, i)->Seen_0,
                c.entries@[k].activities@,
            ),
    decreases c.entries@.len() - i,
{
    if i < c.entries@.len() {
        let path = indexed("connections."@ + id, ".entries["@, i);
        let acts = c.entries@[i].activities@;
        scan_adds(acts, seen, path + ".activities"@);
        let next = consistent_scan(acts, seen, path + ".activities"@, 0)->Seen_0;
        entries_add(c, id, next, i + 1);
        let out = entries_scan(c, id, seen, i)->Seen_0;
        assert(holds_all(out, acts));
    }
}

/// What holds of an accepted action of a connection.
pub open spec fn action_kept(m: CameraManifest, c: Connection, a: Action, path: Seq<char>) -> bool {
    &&& action_roles_violation(m, a, path) is None
    &&& a.initiator is Some ==> {
        let i = a.initiator->0;
        &&& ptp_steps_violation(i.steps@, path) is None
        &&& runtime_values_violation(m, i.params@, i.steps@, path, 0) is None
        &&& open_channels_violation(i.steps@, c.bindings, path, true, false, 0) is None
        &&& executor_activities_violation(
            i.activities@,
            i.steps@.len() as int,
            path + ".initiator.activities"@,
            0,
            0,
        ) is None
    }
}

/// The actions of a connection, checked one by one.
proof fn actions_add(
    m: CameraManifest,
    c: Connection,
    id: Seq<char>,
    seen: Seq<ConnectionActivityDescriptor>,
    i: int,
)
    requires
        0 <= i,
        all_agree(seen),
        actions_scan(m, c, id, seen, i) is Seen,
    ensures
        all_agree(actions_scan(m, c, id, seen, i)->Seen_0),
        holds_all(actions_scan(m, c, id, seen, i)->Seen_0, seen),
        forall|k: int|
            #![trigger c.actions.entries()[k]]
            i <= k < c.actions.entries().len() ==> action_kept(
                m,
                c,
                c.actions.entries()[k].1,
                "connections."@ + id + ".actions."@ + verb_label(c.actions.entries()[k].0),
            ) && (c.actions.entries()[k].1.initiator is Some ==> holds_all(
                actions_scan(m, c, id, seen, i)->Seen_0,
                c.actions.entries()[k].1.initiator->0.activities@,
            )),
    decreases c.actions.entries().len() - i,
{
    let s = c.actions.entries();
    if i < s.len() {
        let path = "connections."@ + id + ".actions."@ + verb_label(s[i].0);
        let next = action_scan(m, c, s[i].1, path, seen)->Seen_0;
        if let Some(initiator) = s[i].1.initiator {
            scan_adds(initiator.activities@, seen, path + ".initiator.activities"@);
        }
        assert(holds_all(next, seen));
        actions_add(m, c, id, next, i + 1);
        let out = actions_scan(m, c, id, seen, i)->Seen_0;
        if let Some(initiator) = s[i].1.initiator {
            assert(holds_all(out, initiator.activities@));
        }
    }
}

/// What holds of an accepted connection, with the descriptors of all activities.
pub open spec fn connection_kept(
    m: CameraManifest,
    c: Connection,
    id: Seq<char>,
    out: Seq<ConnectionActivityDescriptor>,
) -> bool {
    &&& host_activities_violation(c.activities@, id, 0) is None
    &&& socket_bindings_violation(m, c, id) is None
    &&& init_shape_violation(c, id) is None
    &&& transitions_violation(m, c.enables@, id, 0) is None
    &&& init_retries_violation(c, id) is None
    &&& c.knock is Some ==> knock_violation(c.knock->0, "connections."@ + id + ".knock"@) is None
    &&& object_transfer_violation(m, c, id) is None
    &&& control_surfaces_violation(m, c, id, 0) is None
    &&& holds_all(out, c.activities@)
    &&& forall|k: int|
        #![trigger c.entries@[k]]
        0 <= k < c.entries@.len() ==> entry_kept(c, id, k) && holds_all(
            out,
            c.entries@[k].activities@,
        )
    &&& forall|k: int|
        #![trigger c.actions.entries()[k]]
        0 <= k < c.actions.entries().len() ==> action_kept(
            m,
            c,
            c.actions.entries()[k].1,
            "connections."@ + id + ".actions."@ + verb_label(c.actions.entries()[k].0),
        ) && (c.actions.entries()[k].1.initiator is Some ==> holds_all(
            out,
            c.actions.entries()[k].1.initiator->0.activities@,
        ))
}

/// A connection that is accepted keeps its rules.
proof fn connection_adds(
    m: CameraManifest,
    c: Connection,
    id: Seq<char>,
    seen: Seq<ConnectionActivityDescriptor>,
)
    requires
        all_agree(seen),
        connection_scan(m, c, id, seen) is Seen,
    ensures
        all_agree(connection_scan(m, c, id, seen)->Seen_0),
        holds_all(connection_scan(m, c, id, seen)->Seen_0, seen),
        connection_kept(m, c, id, connection_scan(m, c, id, seen)->Seen_0),
{
    assert(connection_violation(m, c, id) is None);
    let path = "connections."@ + id + ".activities"@;
    scan_adds(c.activities@, seen, path);
    let next = consistent_scan(c.activities@, seen, path, 0)->Seen_0;
    entries_add(c, id, next, 0);
    let more = entries_scan(c, id, next, 0)->Seen_0;
    actions_add(m, c, id, more, 0);
    let out = connection_scan(m, c, id, seen)->Seen_0;
    assert forall|k: int|
        #![trigger c.entries@[k]]
        0 <= k < c.entries@.len() implies entry_kept(c, id, k) && holds_all(
        out,
        c.entries@[k].activities@,
    ) by {
        assert(holds_all(more, c.entries@[k].activities@));
    }
}

/// More descriptors hold what fewer do.
proof fn kept_by_more(
    m: CameraManifest,
    c: Connection,
    id: Seq<char>,
    out: Seq<ConnectionActivityDescriptor>,
    more: Seq<ConnectionActivityDescriptor>,
)
    requires
        connection_kept(m, c, id, out),
        holds_all(more, out),
    ensures
        connection_kept(m, c, id, more),
{
}

/// The connections, checked one by one.
proof fn connections_add(
    m: CameraManifest,
    seen: Seq<ConnectionActivityDescriptor>,
    i: int,
)
    requires
        0 <= i,
        all_agree(seen),
        connections_scan(m, seen, i) is Seen,
    ensures
        all_agree(connections_scan(m, seen, i)->Seen_0),
        holds_all(connections_scan(m, seen, i)->Seen_0, seen),
        forall|k: int|
            #![trigger m.connections.entries()[k]]
            i <= k < m.connections.entries().len() ==> connection_kept(
                m,
                m.connections.entries()[k].1,
                m.connections.entries()[k].0@,
                connections_scan(m, seen, i)->Seen_0,
            ),
    decreases m.connections.entries().len() - i,
{
    let s = m.connections.entries();
    if i < s.len() {
        connection_adds(m, s[i].1, s[i].0@, seen);
        let next = connection_scan(m, s[i].1, s[i].0@, seen)->Seen_0;
        connections_add(m, next, i + 1);
        kept_by_more(m, s[i].1, s[i].0@, next, connections_scan(m, next, i + 1)->Seen_0);
    }
}

/// All operations are checked.
proof fn operations_checked(s: Seq<(String, Operation)>, i: int)
    requires
        0 <= i,
        operations_violation(s, i) is None,
    ensures
        forall|k: int|
            i <= k < s.len() ==> handler_violation((#[trigger] s[k]).1, s[k].0@) is None,
    decreases s.len() - i,
{
    if i < s.len() {
        operations_checked(s, i + 1);
    }
}

/// All properties are checked.
proof fn properties_checked(m: CameraManifest, s: Seq<(String, Property)>, i: int)
    requires
        0 <= i,
        properties_violation(m, s, i) is None,
    ensures
        forall|k: int|
            i <= k < s.len() ==> descriptor_violation((#[trigger] s[k]).1, s[k].0@) is None
                && structured_text_violation(s[k].1, s[k].0@) is None && payload_violation(
                m,
                s[k].1,
                s[k].0@,
            ) is None,
    decreases s.len() - i,
{
    if i < s.len() {
        properties_checked(m, s, i + 1);
    }
}

/// In an accepted manifest every operation and every property has a code for its key and keeps its
/// rules.
pub proof fn every_operation_and_property_is_checked(m: CameraManifest, k: int)
    requires
        manifest_violation(m) is None,
    ensures
        0 <= k < m.operations.entries().len() ==> hex_code(m.operations.entries()[k].0@) is Some
            && handler_violation(
            m.operations.entries()[k].1,
            m.operations.entries()[k].0@,
        ) is None,
        0 <= k < m.properties.entries().len() ==> {
            let e = m.properties.entries()[k];
            &&& hex_code(e.0@) is Some
            &&& descriptor_violation(e.1, e.0@) is None
            &&& structured_text_violation(e.1, e.0@) is None
            &&& payload_violation(m, e.1, e.0@) is None
        },
{
    keys_write_codes(
        m.properties.entries(),
        "properties map key '"@,
        "' is not a hex property code"@,
        0,
    );
    keys_write_codes(
        m.operations.entries(),
        "operations map key '"@,
        "' is not a hex operation code"@,
        0,
    );
    operations_checked(m.operations.entries(), 0);
    properties_checked(m, m.properties.entries(), 0);
}

/// In an accepted manifest every connection keeps the rules, with its entries and its actions, and
/// any two descriptors of one version of an activity agree, wherever they stand.
pub proof fn every_connection_is_checked(m: CameraManifest) -> (all: Seq<
    ConnectionActivityDescriptor,
>)
    requires
        manifest_violation(m) is None,
    ensures
        all_agree(all),
        forall|k: int|
            #![trigger m.connections.entries()[k]]
            0 <= k < m.connections.entries().len() ==> connection_kept(
                m,
                m.connections.entries()[k].1,
                m.connections.entries()[k].0@,
                all,
            ),
{
    connections_add(m, Seq::empty(), 0);
    connections_scan(m, Seq::empty(), 0)->Seen_0
}

/// The steps of an accepted entry keep the rules on steps, and its activities cover them: those of a
/// PTP sequence, which may open channels, or those that leave the session, which may not. What the
/// user does has neither.
pub proof fn entries_are_checked_by_what_they_execute(c: Connection, id: Seq<char>, k: int)
    requires
        0 <= k < c.entries@.len(),
        entry_kept(c, id, k),
    ensures
        match c.entries@[k].execution {
            ModeEntryExecution::Ptp { steps } => exists|path: Seq<char>|
                #[trigger] ptp_steps_violation(steps@, path) is None && runtime_value_violation(
                    steps@,
                    path,
                    0,
                ) is None && open_channels_violation(
                    steps@,
                    c.bindings,
                    path,
                    true,
                    false,
                    0,
                ) is None && executor_activities_violation(
                    c.entries@[k].activities@,
                    steps@.len() as int,
                    path + ".activities"@,
                    0,
                    0,
                ) is None,
            ModeEntryExecution::ReestablishConnection(r) => exists|path: Seq<char>|
                #[trigger] ptp_steps_violation(r.exit_steps@, path) is None
                    && runtime_value_violation(r.exit_steps@, path, 0) is None
                    && open_channels_violation(
                    r.exit_steps@,
                    c.bindings,
                    path,
                    false,
                    false,
                    0,
                ) is None,
            ModeEntryExecution::UserInstruction { .. } => c.entries@[k].activities@.len() == 0,
        },
{
    let path = indexed("connections."@ + id, ".entries["@, k);
    match c.entries@[k].execution {
        ModeEntryExecution::Ptp { steps } => {
            assert(ptp_steps_violation(steps@, path) is None);
        },
        ModeEntryExecution::ReestablishConnection(r) => {
            assert(ptp_steps_violation(
                r.exit_steps@,
                path + ".reestablishConnection.exitSteps"@,
            ) is None);
        },
        _ => {},
    }
}

} // verus!
