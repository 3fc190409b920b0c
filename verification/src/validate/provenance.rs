//! What the verdict on a manifest does not depend on.

use crate::activity::ConnectionActivityDescriptor;
use crate::error::Severity;
use crate::model::{
    gate_matchable, hex_bytes, member_code, ActionInitiatorParameter, BleStateTrigger, CameraManifest, Connection, ConnectionTransition,
    ControlRole, ControlSurfaceEntry, Loop, ModeEntryExecution, ObjectTransferFormatSupport, Payload,
    Property, RecordMember, Step,
};
use crate::text::decimal;
use crate::validate::actions::{
    action_roles_violation, runtime_values_violation, step_runtime_values_violation,
};
use crate::validate::activities::Scan;
use crate::validate::connections::{
    control_surfaces_violation, formats_violation, mode_surfaces_violation,
    object_transfer_violation, socket_bindings_violation, surface_violation, transition_violation,
    transitions_violation,
};
use crate::validate::entries::{
    action_scan, actions_scan, connection_scan, connection_violation, connections_scan,
    manifest_violation, properties_violation, verb_label,
};
use crate::validate::indexed;
use crate::validate::lints::{
    action_notes, connection_notes, connections_notes, entry_notes, evidence_message,
    evidence_notes, gate_completion_notes, gate_requirement_notes,
    gate_start_notes, gate_step_notes, gates_after, gates_started, handoff_notes, manifest_notes,
    member_notes, metadata_notes, operation_notes, property_notes, sentinel_notes,
    sequence_gate_notes, state_value_notes, transfer_ctx, transfer_hex_notes, transfer_notes,
    transfer_reference_notes, trigger_state_notes, unmatchable_notes, warned, workflow_notes, Note,
};
use crate::validate::properties::{members_violation, payload_violation};
use vstd::prelude::*;

verus! {

/// Whether two manifests declare the same operations, properties, connections and media.
pub open spec fn same_behavior(a: CameraManifest, b: CameraManifest) -> bool {
    &&& a.operations == b.operations
    &&& a.properties == b.properties
    &&& a.connections == b.connections
    &&& a.media == b.media
}

/// The members of a payload are judged alike.
proof fn members_alike(
    a: CameraManifest,
    b: CameraManifest,
    payload: Payload,
    path: Seq<char>,
    i: int,
)
    requires
        same_behavior(a, b),
        0 <= i,
    ensures
        members_violation(a, payload, path, i) == members_violation(b, payload, path, i),
    decreases payload.members@.len() - i,
{
    if i < payload.members@.len() {
        members_alike(a, b, payload, path, i + 1);
    }
}

/// Properties are judged alike.
proof fn properties_alike(
    a: CameraManifest,
    b: CameraManifest,
    s: Seq<(String, Property)>,
    i: int,
)
    requires
        same_behavior(a, b),
        0 <= i,
    ensures
        properties_violation(a, s, i) == properties_violation(b, s, i),
    decreases s.len() - i,
{
    if i < s.len() {
        let p = s[i].1;
        let code = s[i].0@;
        match p.payload {
            Some(payload) => {
                members_alike(a, b, payload, "properties."@ + code + ".payload"@, 0);
            },
            None => {},
        }
        assert(payload_violation(a, p, code) == payload_violation(b, p, code));
        properties_alike(a, b, s, i + 1);
    }
}

/// The edges of a connection are judged alike.
proof fn transitions_alike(
    a: CameraManifest,
    b: CameraManifest,
    edges: Seq<ConnectionTransition>,
    id: Seq<char>,
    i: int,
)
    requires
        same_behavior(a, b),
        0 <= i,
    ensures
        transitions_violation(a, edges, id, i) == transitions_violation(b, edges, id, i),
    decreases edges.len() - i,
{
    if i < edges.len() {
        assert(transition_violation(a, edges, id, i) == transition_violation(b, edges, id, i));
        transitions_alike(a, b, edges, id, i + 1);
    }
}

/// The formats of a transfer are judged alike.
proof fn formats_alike(
    a: CameraManifest,
    b: CameraManifest,
    s: Seq<(String, ObjectTransferFormatSupport)>,
    path: Seq<char>,
    i: int,
)
    requires
        same_behavior(a, b),
        0 <= i,
    ensures
        formats_violation(a, s, path, i) == formats_violation(b, s, path, i),
    decreases s.len() - i,
{
    if i < s.len() {
        formats_alike(a, b, s, path, i + 1);
    }
}

/// The controls of a mode are judged alike.
proof fn mode_surfaces_alike(
    a: CameraManifest,
    b: CameraManifest,
    id: Seq<char>,
    mode: Seq<char>,
    s: Seq<(ControlRole, ControlSurfaceEntry)>,
    path: Seq<char>,
    i: int,
)
    requires
        same_behavior(a, b),
        0 <= i,
    ensures
        mode_surfaces_violation(a, id, mode, s, path, i) == mode_surfaces_violation(
            b,
            id,
            mode,
            s,
            path,
            i,
        ),
    decreases s.len() - i,
{
    if i < s.len() {
        assert(surface_violation(a, id, mode, s[i].0, s[i].1, path) == surface_violation(
            b,
            id,
            mode,
            s[i].0,
            s[i].1,
            path,
        ));
        mode_surfaces_alike(a, b, id, mode, s, path, i + 1);
    }
}

/// The controls of a connection are judged alike.
proof fn control_surfaces_alike(
    a: CameraManifest,
    b: CameraManifest,
    c: Connection,
    id: Seq<char>,
    i: int,
)
    requires
        same_behavior(a, b),
        0 <= i,
    ensures
        control_surfaces_violation(a, c, id, i) == control_surfaces_violation(b, c, id, i),
    decreases c.control_surfaces.entries().len() - i,
{
    let s = c.control_surfaces.entries();
    if i < s.len() {
        let mode = s[i].0@;
        let path = "connections."@ + id + ".controlSurfaces."@ + mode;
        mode_surfaces_alike(a, b, id, mode, s[i].1.entries(), path, 0);
        control_surfaces_alike(a, b, c, id, i + 1);
    }
}

/// The runtime values of steps are judged alike.
proof fn runtime_values_alike(
    a: CameraManifest,
    b: CameraManifest,
    params: Seq<ActionInitiatorParameter>,
    steps: Seq<Step>,
    path: Seq<char>,
    i: int,
)
    requires
        same_behavior(a, b),
        0 <= i,
    ensures
        runtime_values_violation(a, params, steps, path, i) == runtime_values_violation(
            b,
            params,
            steps,
            path,
            i,
        ),
    decreases steps, steps.len() - i,
{
    if i < steps.len() {
        step_values_alike(a, b, params, steps[i], indexed(path, ".steps["@, i));
        runtime_values_alike(a, b, params, steps, path, i + 1);
    }
}

/// The runtime values of a step are judged alike.
proof fn step_values_alike(
    a: CameraManifest,
    b: CameraManifest,
    params: Seq<ActionInitiatorParameter>,
    s: Step,
    here: Seq<char>,
)
    requires
        same_behavior(a, b),
    ensures
        step_runtime_values_violation(a, params, s, here) == step_runtime_values_violation(
            b,
            params,
            s,
            here,
        ),
    decreases s, 0int,
{
    match s.await_until {
        Some(x) => runtime_values_alike(a, b, params, x.on_each@, here + ".awaitUntil"@, 0),
        None => {},
    }
    match s.retry {
        Some(x) => runtime_values_alike(a, b, params, x.steps@, here + ".retry"@, 0),
        None => {},
    }
    match s.loop_step {
        Some(Loop::ForEach { body, .. }) => runtime_values_alike(
            a,
            b,
            params,
            body@,
            here + ".loop"@,
            0,
        ),
        Some(Loop::Chunk { body, .. }) => runtime_values_alike(
            a,
            b,
            params,
            body@,
            here + ".loop"@,
            0,
        ),
        None => {},
    }
    match s.if_step {
        Some(x) => {
            runtime_values_alike(a, b, params, x.then_steps@, here + ".if.then"@, 0);
            runtime_values_alike(a, b, params, x.else_steps@, here + ".if.else"@, 0);
        },
        None => {},
    }
}

/// Actions are judged alike.
proof fn actions_alike(
    a: CameraManifest,
    b: CameraManifest,
    c: Connection,
    id: Seq<char>,
    seen: Seq<ConnectionActivityDescriptor>,
    i: int,
)
    requires
        same_behavior(a, b),
        0 <= i,
    ensures
        actions_scan(a, c, id, seen, i) == actions_scan(b, c, id, seen, i),
    decreases c.actions.entries().len() - i,
{
    let s = c.actions.entries();
    if i < s.len() {
        let path = "connections."@ + id + ".actions."@ + verb_label(s[i].0);
        let action = s[i].1;
        assert(action_roles_violation(a, action, path) == action_roles_violation(b, action, path));
        match action.initiator {
            Some(x) => runtime_values_alike(a, b, x.params@, x.steps@, path, 0),
            None => {},
        }
        assert(action_scan(a, c, action, path, seen) == action_scan(b, c, action, path, seen));
        match action_scan(a, c, action, path, seen) {
            Scan::Seen(next) => actions_alike(a, b, c, id, next, i + 1),
            Scan::Broken(_) => {},
        }
    }
}

/// A connection is judged alike.
proof fn connection_alike(
    a: CameraManifest,
    b: CameraManifest,
    c: Connection,
    id: Seq<char>,
    seen: Seq<ConnectionActivityDescriptor>,
)
    requires
        same_behavior(a, b),
    ensures
        connection_scan(a, c, id, seen) == connection_scan(b, c, id, seen),
{
    assert(socket_bindings_violation(a, c, id) == socket_bindings_violation(b, c, id));
    transitions_alike(a, b, c.enables@, id, 0);
    match c.object_transfer {
        Some(x) => formats_alike(
            a,
            b,
            x.formats.entries(),
            "connections."@ + id + ".objectTransfer"@,
            0,
        ),
        None => {},
    }
    assert(object_transfer_violation(a, c, id) == object_transfer_violation(b, c, id));
    control_surfaces_alike(a, b, c, id, 0);
    assert(connection_violation(a, c, id) == connection_violation(b, c, id));
    assert forall|more: Seq<ConnectionActivityDescriptor>|
        actions_scan(a, c, id, more, 0) == #[trigger] actions_scan(b, c, id, more, 0) by {
        actions_alike(a, b, c, id, more, 0);
    }
}

/// Connections are judged alike.
proof fn connections_alike(
    a: CameraManifest,
    b: CameraManifest,
    seen: Seq<ConnectionActivityDescriptor>,
    i: int,
)
    requires
        same_behavior(a, b),
        0 <= i,
    ensures
        connections_scan(a, seen, i) == connections_scan(b, seen, i),
    decreases a.connections.entries().len() - i,
{
    let s = a.connections.entries();
    if i < s.len() {
        connection_alike(a, b, s[i].1, s[i].0@, seen);
        match connection_scan(a, s[i].1, s[i].0@, seen) {
            Scan::Seen(next) => connections_alike(a, b, next, i + 1),
            Scan::Broken(_) => {},
        }
    }
}

/// A manifest is refused for what it declares of operations, properties, connections and media, and
/// for nothing else. In particular it loads whether or not its evidence can be resolved.
pub proof fn provenance_is_no_violation(a: CameraManifest, b: CameraManifest)
    requires
        same_behavior(a, b),
    ensures
        manifest_violation(a) == manifest_violation(b),
{
    properties_alike(a, b, a.properties.entries(), 0);
    connections_alike(a, b, Seq::empty(), 0);
}

/// Whether every finding is a warning.
pub open spec fn all_warnings(n: Seq<Note>) -> bool {
    forall|i: int| 0 <= i < n.len() ==> (#[trigger] n[i]).0 == Severity::Warning
}

/// A warning behind warnings leaves them warnings.
broadcast proof fn warned_mildly(n: Seq<Note>, found: bool, message: Seq<char>)
    requires
        all_warnings(n),
    ensures
        all_warnings(#[trigger] warned(n, found, message)),
{
}

/// The findings on evidence are warnings.
proof fn evidence_mild(
    m: CameraManifest,
    ids: Seq<String>,
    ctx: Seq<char>,
    n: Seq<Note>,
    i: int,
)
    requires
        all_warnings(n),
        0 <= i,
    ensures
        all_warnings(evidence_notes(m, ids, ctx, n, i)),
    decreases ids.len() - i,
{
    broadcast use warned_mildly;

    if i < ids.len() {
        let next = warned(n, !m.evidence.has(ids[i]@), evidence_message(ctx, ids[i]@));
        assert(all_warnings(next));
        evidence_mild(m, ids, ctx, next, i + 1);
    }
}

/// The findings on steps inside a gate are warnings.
proof fn unmatchable_mild(
    active: Seq<Seq<char>>,
    here: Seq<char>,
    n: Seq<Note>,
    j: int,
)
    requires
        all_warnings(n),
        0 <= j,
    ensures
        all_warnings(unmatchable_notes(active, here, n, j)),
    decreases active.len() - j,
{
    broadcast use warned_mildly;

    if j < active.len() {
        let next = n.push(
            (
                Severity::Warning,
                here + " is inside sequence gate '"@ + active[j]
                    + "' but is not a matchable setProp/getProp/sendOp step"@,
            ),
        );
        assert(all_warnings(next));
        unmatchable_mild(active, here, next, j + 1);
    }
}

/// The findings on the gates of steps are warnings.
proof fn gate_steps_mild(
    m: CameraManifest,
    steps: Seq<Step>,
    ctx: Seq<char>,
    active: Seq<Seq<char>>,
    n: Seq<Note>,
    i: int,
)
    requires
        all_warnings(n),
        0 <= i,
    ensures
        all_warnings(gate_step_notes(m, steps, ctx, active, n, i)),
    decreases steps, steps.len() - i,
{
    broadcast use warned_mildly;

    if i < steps.len() {
        let s = steps[i];
        let here = indexed(ctx, ".steps["@, i);
        match s.retry {
            Some(r) => gate_steps_mild(m, r.steps@, here + ".retry"@, Seq::empty(), n, 0),
            None => {},
        }
        let retried = match s.retry {
            Some(r) => gate_step_notes(m, r.steps@, here + ".retry"@, Seq::empty(), n, 0),
            None => n,
        };
        let started = gate_start_notes(m, s, here, retried);
        assert(all_warnings(started));
        let open = gates_started(s, active);
        unmatchable_mild(open, here, started, 0);
        let covered = if gate_matchable(s) {
            started
        } else {
            unmatchable_notes(open, here, started, 0)
        };
        let next = gate_completion_notes(m, s, open, here, covered);
        assert(all_warnings(next));
        gate_steps_mild(m, steps, ctx, gates_after(s, active), next, i + 1);
    }
}

/// The findings on the values of a state are warnings.
proof fn state_values_mild(
    values: Seq<String>,
    here: Seq<char>,
    n: Seq<Note>,
    j: int,
)
    requires
        all_warnings(n),
        0 <= j,
    ensures
        all_warnings(state_value_notes(values, here, n, j)),
    decreases values.len() - j,
{
    broadcast use warned_mildly;

    if j < values.len() {
        let next = warned(
            n,
            hex_bytes(values[j]@) is None,
            here + " has invalid hex value '"@ + values[j]@ + "'"@,
        );
        assert(all_warnings(next));
        state_values_mild(values, here, next, j + 1);
    }
}

/// The findings on trigger states are warnings.
proof fn trigger_states_mild(
    states: Seq<BleStateTrigger>,
    n: Seq<Note>,
    i: int,
)
    requires
        all_warnings(n),
        0 <= i,
    ensures
        all_warnings(trigger_state_notes(states, n, i)),
    decreases states.len() - i,
{
    broadcast use warned_mildly;

    if i < states.len() {
        let here = transfer_ctx() + " trigger state "@ + decimal(i);
        let some = warned(
            n,
            states[i].trigger_values@.len() == 0,
            here + " declares no triggerValues"@,
        );
        state_values_mild(states[i].trigger_values@, here, some, 0);
        let triggered = state_value_notes(states[i].trigger_values@, here, some, 0);
        state_values_mild(states[i].baseline_values@, here, triggered, 0);
        let next = state_value_notes(states[i].baseline_values@, here, triggered, 0);
        assert(all_warnings(next));
        trigger_states_mild(states, next, i + 1);
    }
}

/// The findings on a camera-initiated transfer are warnings.
proof fn transfer_mild(m: CameraManifest, n: Seq<Note>)
    requires
        all_warnings(n),
    ensures
        all_warnings(transfer_notes(m, n)),
{
    broadcast use warned_mildly;

    match m.camera_initiated_transfer {
        None => {},
        Some(t) => {
            evidence_mild(m, t.evidence@, transfer_ctx(), n, 0);
            let known = evidence_notes(m, t.evidence@, transfer_ctx(), n, 0);
            let handed = handoff_notes(m, t, known);
            assert(all_warnings(handed));
            let described = metadata_notes(t, handed);
            assert(all_warnings(described));
            let some = warned(
                described,
                t.trigger.states@.len() == 0,
                transfer_ctx() + " declares no trigger states"@,
            );
            trigger_states_mild(t.trigger.states@, some, 0);
            let written = transfer_hex_notes(t, described);
            assert(all_warnings(written));
            assert(all_warnings(transfer_reference_notes(m, t, written)));
        },
    }
}

/// The findings on operations are warnings.
proof fn operations_mild(
    m: CameraManifest,
    n: Seq<Note>,
    i: int,
)
    requires
        all_warnings(n),
        0 <= i,
    ensures
        all_warnings(operation_notes(m, n, i)),
    decreases m.operations.entries().len() - i,
{
    broadcast use warned_mildly;

    if i < m.operations.entries().len() {
        let s = m.operations.entries();
        let ctx = "operation "@ + s[i].0@;
        evidence_mild(m, s[i].1.evidence@, ctx, n, 0);
        let next = gate_requirement_notes(
            m,
            s[i].1.requires_gate,
            ctx,
            evidence_notes(m, s[i].1.evidence@, ctx, n, 0),
        );
        assert(all_warnings(next));
        operations_mild(m, next, i + 1);
    }
}

/// The findings on sequence gates are warnings.
proof fn sequence_gates_mild(
    m: CameraManifest,
    n: Seq<Note>,
    i: int,
)
    requires
        all_warnings(n),
        0 <= i,
    ensures
        all_warnings(sequence_gate_notes(m, n, i)),
    decreases m.sequence_gates.entries().len() - i,
{
    broadcast use warned_mildly;

    if i < m.sequence_gates.entries().len() {
        let s = m.sequence_gates.entries();
        evidence_mild(m, s[i].1.evidence@, "sequenceGate "@ + s[i].0@, n, 0);
        let next = evidence_notes(m, s[i].1.evidence@, "sequenceGate "@ + s[i].0@, n, 0);
        assert(all_warnings(next));
        sequence_gates_mild(m, next, i + 1);
    }
}

/// The findings on sentinels are warnings.
proof fn sentinels_mild(
    m: CameraManifest,
    n: Seq<Note>,
    i: int,
)
    requires
        all_warnings(n),
        0 <= i,
    ensures
        all_warnings(sentinel_notes(m, n, i)),
    decreases m.sentinels.entries().len() - i,
{
    broadcast use warned_mildly;

    if i < m.sentinels.entries().len() {
        let s = m.sentinels.entries();
        let ctx = "sentinel "@ + s[i].0@;
        evidence_mild(m, s[i].1.evidence@, ctx, n, 0);
        let next = warned(
            evidence_notes(m, s[i].1.evidence@, ctx, n, 0),
            hex_bytes(s[i].1.bytes@) is None,
            ctx + " has invalid hex bytes; transport-close resolution will fail"@,
        );
        assert(all_warnings(next));
        sentinels_mild(m, next, i + 1);
    }
}

/// The findings on the members of a payload are warnings.
proof fn members_mild(
    m: CameraManifest,
    members: Seq<RecordMember>,
    ctx: Seq<char>,
    n: Seq<Note>,
    j: int,
)
    requires
        all_warnings(n),
        0 <= j,
    ensures
        all_warnings(member_notes(m, members, ctx, n, j)),
    decreases members.len() - j,
{
    broadcast use warned_mildly;

    if j < members.len() {
        let code = member_code(members[j])@;
        let next = warned(
            n,
            members[j] is Code && !m.properties.has(code),
            ctx + " payload member '"@ + code
                + "' is not a defined property; use a detailed member encoding when the global type is unavailable"@,
        );
        assert(all_warnings(next));
        members_mild(m, members, ctx, next, j + 1);
    }
}

/// The findings on properties are warnings.
proof fn properties_mild(
    m: CameraManifest,
    n: Seq<Note>,
    i: int,
)
    requires
        all_warnings(n),
        0 <= i,
    ensures
        all_warnings(property_notes(m, n, i)),
    decreases m.properties.entries().len() - i,
{
    broadcast use warned_mildly;

    if i < m.properties.entries().len() {
        let s = m.properties.entries();
        let ctx = "property "@ + s[i].0@;
        let p = s[i].1;
        evidence_mild(m, p.evidence@, ctx, n, 0);
        let gated = gate_requirement_notes(
            m,
            p.requires_gate,
            ctx,
            evidence_notes(m, p.evidence@, ctx, n, 0),
        );
        assert(all_warnings(gated));
        match p.payload {
            Some(payload) => members_mild(m, payload.members@, ctx, gated, 0),
            None => {},
        }
        let next = match p.payload {
            Some(payload) => member_notes(m, payload.members@, ctx, gated, 0),
            None => gated,
        };
        assert(all_warnings(next));
        properties_mild(m, next, i + 1);
    }
}

/// The findings on workflows are warnings.
proof fn workflows_mild(
    m: CameraManifest,
    n: Seq<Note>,
    i: int,
)
    requires
        all_warnings(n),
        0 <= i,
    ensures
        all_warnings(workflow_notes(m, n, i)),
    decreases m.workflows.entries().len() - i,
{
    broadcast use warned_mildly;

    if i < m.workflows.entries().len() {
        let s = m.workflows.entries();
        evidence_mild(m, s[i].1.evidence@, "workflow "@ + s[i].0@, n, 0);
        let next = evidence_notes(m, s[i].1.evidence@, "workflow "@ + s[i].0@, n, 0);
        assert(all_warnings(next));
        workflows_mild(m, next, i + 1);
    }
}

/// The findings on mode entries are warnings.
proof fn entries_mild(
    m: CameraManifest,
    c: Connection,
    id: Seq<char>,
    n: Seq<Note>,
    j: int,
)
    requires
        all_warnings(n),
        0 <= j,
    ensures
        all_warnings(entry_notes(m, c, id, n, j)),
    decreases c.entries@.len() - j,
{
    broadcast use warned_mildly;

    if j < c.entries@.len() {
        let ctx = "connection "@ + id + " entry "@ + decimal(j);
        match c.entries@[j].execution {
            ModeEntryExecution::Ptp { steps } => gate_steps_mild(
                m,
                steps@,
                ctx,
                Seq::empty(),
                n,
                0,
            ),
            ModeEntryExecution::ReestablishConnection(r) => gate_steps_mild(
                m,
                r.exit_steps@,
                ctx + " exit"@,
                Seq::empty(),
                n,
                0,
            ),
            ModeEntryExecution::UserInstruction { .. } => {},
        }
        let next = match c.entries@[j].execution {
            ModeEntryExecution::Ptp { steps } => gate_step_notes(
                m,
                steps@,
                ctx,
                Seq::empty(),
                n,
                0,
            ),
            ModeEntryExecution::ReestablishConnection(r) => gate_step_notes(
                m,
                r.exit_steps@,
                ctx + " exit"@,
                Seq::empty(),
                n,
                0,
            ),
            ModeEntryExecution::UserInstruction { .. } => n,
        };
        assert(all_warnings(next));
        entries_mild(m, c, id, next, j + 1);
    }
}

/// The findings on actions are warnings.
proof fn actions_mild(
    m: CameraManifest,
    c: Connection,
    id: Seq<char>,
    n: Seq<Note>,
    j: int,
)
    requires
        all_warnings(n),
        0 <= j,
    ensures
        all_warnings(action_notes(m, c, id, n, j)),
    decreases c.actions.entries().len() - j,
{
    broadcast use warned_mildly;

    if j < c.actions.entries().len() {
        let s = c.actions.entries();
        match s[j].1.initiator {
            Some(initiator) => gate_steps_mild(
                m,
                initiator.steps@,
                "connection "@ + id + " action "@ + verb_label(s[j].0),
                Seq::empty(),
                n,
                0,
            ),
            None => {},
        }
        let next = match s[j].1.initiator {
            Some(initiator) => gate_step_notes(
                m,
                initiator.steps@,
                "connection "@ + id + " action "@ + verb_label(s[j].0),
                Seq::empty(),
                n,
                0,
            ),
            None => n,
        };
        assert(all_warnings(next));
        actions_mild(m, c, id, next, j + 1);
    }
}

/// The findings on connections are warnings.
proof fn connections_mild(
    m: CameraManifest,
    n: Seq<Note>,
    i: int,
)
    requires
        all_warnings(n),
        0 <= i,
    ensures
        all_warnings(connections_notes(m, n, i)),
    decreases m.connections.entries().len() - i,
{
    broadcast use warned_mildly;

    if i < m.connections.entries().len() {
        let c = m.connections.entries()[i].1;
        let id = m.connections.entries()[i].0@;
        match c.init {
            Some(x) => evidence_mild(m, x.evidence@, "connection "@ + id + " init"@, n, 0),
            None => {},
        }
        let begun = match c.init {
            Some(x) => evidence_notes(m, x.evidence@, "connection "@ + id + " init"@, n, 0),
            None => n,
        };
        let closed = match c.transport_close {
            Some(x) => warned(
                begun,
                !m.sentinels.has(x.sentinel@),
                "connection "@ + id + " transportClose references sentinel '"@ + x.sentinel@
                    + "' which is not defined in this manifest"@,
            ),
            None => begun,
        };
        assert(all_warnings(closed));
        entries_mild(m, c, id, closed, 0);
        actions_mild(m, c, id, entry_notes(m, c, id, closed, 0), 0);
        let next = connection_notes(m, c, id, n);
        assert(all_warnings(next));
        connections_mild(m, next, i + 1);
    }
}

/// Every lint on a manifest is a warning.
pub proof fn lints_are_warnings(m: CameraManifest)
    ensures
        all_warnings(manifest_notes(m)),
{
    transfer_mild(m, Seq::empty());
    let a = transfer_notes(m, Seq::empty());
    operations_mild(m, a, 0);
    let b = operation_notes(m, a, 0);
    sequence_gates_mild(m, b, 0);
    let c = sequence_gate_notes(m, b, 0);
    sentinels_mild(m, c, 0);
    let d = sentinel_notes(m, c, 0);
    properties_mild(m, d, 0);
    let e = property_notes(m, d, 0);
    workflows_mild(m, e, 0);
    connections_mild(m, workflow_notes(m, e, 0), 0);
}

} // verus!
