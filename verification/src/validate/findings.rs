//! What the lints find, and where they find nothing.

use crate::error::Severity;
use crate::model::{
    gate_matchable, hex_bytes, hex_code, member_code, role_binding, BleStateTrigger,
    CameraInitiatedTransfer, CameraManifest, Connection, GateRequirement, ModeEntryExecution,
    Property, RecordMember, Step,
};
use crate::query::coded;
use crate::text::decimal;
use crate::validate::entries::verb_label;
use crate::validate::indexed;
use crate::validate::lints::{
    action_notes, connection_notes, connections_notes, entry_notes, evidence_message,
    evidence_notes, gate_completion_notes, gate_requirement_notes, gate_start_notes,
    gate_step_notes, gates_after, gates_started, handoff_notes, has_member, manifest_notes,
    member_notes, metadata_notes, operation_known, operation_notes, property_at, property_notes,
    sentinel_notes, sequence_gate_notes, state_value_notes, transfer_ctx, transfer_notes,
    transfer_reference_notes, trigger_state_notes, unmatchable_notes, warned, workflow_notes, Note,
};
use vstd::prelude::*;

verus! {

/// Whether findings begin with others.
pub open spec fn grown(a: Seq<Note>, b: Seq<Note>) -> bool {
    a.len() <= b.len() && forall|i: int| 0 <= i < a.len() ==> #[trigger] b[i] == a[i]
}

/// Whether a warning is among the findings.
pub open spec fn warns(n: Seq<Note>, message: Seq<char>) -> bool {
    exists|i: int| 0 <= i < n.len() && #[trigger] n[i] == (Severity::Warning, message)
}

/// A warning stays.
broadcast proof fn warning_stays(a: Seq<Note>, b: Seq<Note>, message: Seq<char>)
    requires
        #[trigger] grown(a, b),
        warns(a, message),
    ensures
        #[trigger] warns(b, message),
{
    let i = choose|i: int| 0 <= i < a.len() && #[trigger] a[i] == (Severity::Warning, message);
    assert(b[i] == a[i]);
}

/// A finding is warned of where it is found, and nothing is warned of where it is not.
pub proof fn what_is_found_is_warned_of(n: Seq<Note>, found: bool, message: Seq<char>)
    ensures
        found ==> warns(warned(n, found, message), message) && warned(n, found, message).len()
            == n.len() + 1,
        !found ==> warned(n, found, message) == n,
        grown(n, warned(n, found, message)),
{
    if found {
        assert(warned(n, found, message)[n.len() as int] == (Severity::Warning, message));
    }
}

/// Evidence that is not defined is warned of, and nothing else is.
pub proof fn undefined_evidence_is_found(
    m: CameraManifest,
    ids: Seq<String>,
    ctx: Seq<char>,
    n: Seq<Note>,
    i: int,
)
    requires
        0 <= i,
    ensures
        grown(n, evidence_notes(m, ids, ctx, n, i)),
        forall|k: int|
            i <= k < ids.len() && !m.evidence.has((#[trigger] ids[k])@) ==> warns(
                evidence_notes(m, ids, ctx, n, i),
                ctx + " references evidence id '"@ + ids[k]@
                    + "' which is not defined in this manifest (provenance may live in a private repo)"@,
            ),
        (forall|k: int| i <= k < ids.len() ==> m.evidence.has((#[trigger] ids[k])@))
            ==> evidence_notes(m, ids, ctx, n, i) == n,
    decreases ids.len() - i,
{
    broadcast use warning_stays;

    if i < ids.len() {
        let found = !m.evidence.has(ids[i]@);
        let message = evidence_message(ctx, ids[i]@);
        what_is_found_is_warned_of(n, found, message);
        undefined_evidence_is_found(m, ids, ctx, warned(n, found, message), i + 1);
    }
}

/// A gate that is required and not defined is warned of, and nothing else is.
pub proof fn undefined_required_gates_are_found(
    m: CameraManifest,
    req: Option<GateRequirement>,
    ctx: Seq<char>,
    n: Seq<Note>,
)
    ensures
        grown(n, gate_requirement_notes(m, req, ctx, n)),
        req is Some && !m.sequence_gates.has(req->0.name@) ==> warns(
            gate_requirement_notes(m, req, ctx, n),
            ctx + " requiresGate references gate '"@ + req->0.name@
                + "' which is not defined in this manifest"@,
        ),
        req is None || m.sequence_gates.has(req->0.name@) ==> gate_requirement_notes(m, req, ctx, n)
            == n,
{
    if let Some(g) = req {
        what_is_found_is_warned_of(
            n,
            !m.sequence_gates.has(g.name@),
            ctx + " requiresGate references gate '"@ + g.name@
                + "' which is not defined in this manifest"@,
        );
    }
}

/// A step inside a gate that no gate can match is warned of once for each gate.
pub proof fn unmatchable_steps_are_found(
    active: Seq<Seq<char>>,
    here: Seq<char>,
    n: Seq<Note>,
    j: int,
)
    requires
        0 <= j,
    ensures
        grown(n, unmatchable_notes(active, here, n, j)),
        j <= active.len() ==> unmatchable_notes(active, here, n, j).len() == n.len() + active.len()
            - j,
        forall|k: int|
            j <= k < active.len() ==> warns(
                unmatchable_notes(active, here, n, j),
                here + " is inside sequence gate '"@ + (#[trigger] active[k])
                    + "' but is not a matchable setProp/getProp/sendOp step"@,
            ),
    decreases active.len() - j,
{
    broadcast use warning_stays;

    if j < active.len() {
        let message = here + " is inside sequence gate '"@ + active[j]
            + "' but is not a matchable setProp/getProp/sendOp step"@;
        what_is_found_is_warned_of(n, true, message);
        let next = n.push((Severity::Warning, message));
        assert(next == warned(n, true, message));
        unmatchable_steps_are_found(active, here, next, j + 1);
    }
}

/// A gate that a step starts and that is not defined is warned of.
pub proof fn undefined_started_gates_are_found(
    m: CameraManifest,
    s: Step,
    here: Seq<char>,
    n: Seq<Note>,
)
    ensures
        grown(n, gate_start_notes(m, s, here, n)),
        s.starts_gate is Some && !m.sequence_gates.has(s.starts_gate->0@) ==> warns(
            gate_start_notes(m, s, here, n),
            here + " startsGate references gate '"@ + s.starts_gate->0@
                + "' which is not defined in this manifest"@,
        ),
        s.starts_gate is None || m.sequence_gates.has(s.starts_gate->0@) ==> gate_start_notes(
            m,
            s,
            here,
            n,
        ) == n,
{
    if let Some(gate) = s.starts_gate {
        what_is_found_is_warned_of(
            n,
            !m.sequence_gates.has(gate@),
            here + " startsGate references gate '"@ + gate@
                + "' which is not defined in this manifest"@,
        );
    }
}

/// A gate that a step completes and that is not defined, or that no step before started, is warned
/// of.
pub proof fn unstarted_completed_gates_are_found(
    m: CameraManifest,
    s: Step,
    active: Seq<Seq<char>>,
    here: Seq<char>,
    n: Seq<Note>,
)
    ensures
        grown(n, gate_completion_notes(m, s, active, here, n)),
        s.completes_gate is Some && !m.sequence_gates.has(s.completes_gate->0@) ==> warns(
            gate_completion_notes(m, s, active, here, n),
            here + " completesGate references gate '"@ + s.completes_gate->0@
                + "' which is not defined in this manifest"@,
        ),
        s.completes_gate is Some && !active.contains(s.completes_gate->0@) ==> warns(
            gate_completion_notes(m, s, active, here, n),
            here + " completesGate '"@ + s.completes_gate->0@
                + "' has no preceding startsGate in this step sequence"@,
        ),
        s.completes_gate is None || (m.sequence_gates.has(s.completes_gate->0@) && active.contains(
            s.completes_gate->0@,
        )) ==> gate_completion_notes(m, s, active, here, n) == n,
{
    broadcast use warning_stays;

    if let Some(gate) = s.completes_gate {
        let a = here + " completesGate references gate '"@ + gate@
            + "' which is not defined in this manifest"@;
        let b = here + " completesGate '"@ + gate@
            + "' has no preceding startsGate in this step sequence"@;
        let undefined = !m.sequence_gates.has(gate@);
        what_is_found_is_warned_of(n, undefined, a);
        what_is_found_is_warned_of(warned(n, undefined, a), !active.contains(gate@), b);
    }
}

/// A gate is active from the step that starts it up to the one that completes it.
pub proof fn gates_cover_from_start_to_completion(s: Step, active: Seq<Seq<char>>, g: Seq<char>)
    ensures
        s.starts_gate is Some && s.starts_gate->0@ == g ==> gates_started(s, active).contains(g),
        active.contains(g) ==> gates_started(s, active).contains(g),
        gates_started(s, active).contains(g) ==> active.contains(g) || s.starts_gate is Some
            && s.starts_gate->0@ == g,
        gates_after(s, active).contains(g) ==> gates_started(s, active).contains(g),
        gates_started(s, active).contains(g) && !(s.completes_gate is Some && s.completes_gate->0@
            == g) ==> gates_after(s, active).contains(g),
        s.completes_gate is None ==> gates_after(s, active) == gates_started(s, active),
{
    if let Some(gate) = s.starts_gate {
        with_text_holds(active, gate@, g);
    }
    if let Some(gate) = s.completes_gate {
        without_text_holds(gates_started(s, active), gate@, g);
    }
}

/// A row with a text holds it and what it held.
proof fn with_text_holds(s: Seq<Seq<char>>, k: Seq<char>, g: Seq<char>)
    ensures
        crate::sorted::with_text(s, k).contains(g) <==> s.contains(g) || g == k,
    decreases s.len(),
{
    let r = crate::sorted::with_text(s, k);
    if s.len() == 0 {
        assert(r[0] == k);
    } else if s[0] == k {
    } else if crate::text::text_lt(k, s[0]) {
        assert(r[0] == k);
        assert forall|i: int| 0 <= i < s.len() implies r[i + 1] == #[trigger] s[i] by {
        }
        if s.contains(g) {
            let i = s.index_of(g);
            assert(r[i + 1] == s[i]);
        }
        if r.contains(g) {
            let i = r.index_of(g);
            if i > 0 {
                assert(s[i - 1] == g);
            }
        }
    } else {
        let t = s.drop_first();
        with_text_holds(t, k, g);
        let u = crate::sorted::with_text(t, k);
        in_row(s, g);
        in_row(r, g);
        assert(r.drop_first() =~= u);
    }
}

/// What a row holds is its first item or held by the rest.
proof fn in_row(s: Seq<Seq<char>>, g: Seq<char>)
    requires
        s.len() > 0,
    ensures
        s.contains(g) <==> s[0] == g || s.drop_first().contains(g),
{
    let t = s.drop_first();
    if s.contains(g) {
        let i = s.index_of(g);
        if i > 0 {
            assert(t[i - 1] == g);
        }
    }
    if t.contains(g) {
        let i = t.index_of(g);
        assert(s[i + 1] == g);
    }
}

/// A row without a text holds what it held but for the text.
proof fn without_text_holds(s: Seq<Seq<char>>, k: Seq<char>, g: Seq<char>)
    ensures
        crate::sorted::without_text(s, k).contains(g) ==> s.contains(g),
        s.contains(g) && g != k ==> crate::sorted::without_text(s, k).contains(g),
    decreases s.len(),
{
    if s.len() > 0 {
        in_row(s, g);
        let t = s.drop_first();
        if s[0] != k {
            without_text_holds(t, k, g);
            let r = crate::sorted::without_text(s, k);
            in_row(r, g);
            assert(r.drop_first() =~= crate::sorted::without_text(t, k));
        }
    }
}

/// The gates that are active before a step.
pub open spec fn active_at(steps: Seq<Step>, active: Seq<Seq<char>>, i: int, k: int) -> Seq<
    Seq<char>,
>
    decreases k - i,
{
    if i >= k || i < 0 || i >= steps.len() {
        active
    } else {
        active_at(steps, gates_after(steps[i], active), i + 1, k)
    }
}

/// The steps that a gate covers are found where no gate can match them, and so are the gates that
/// are started or completed without a definition, or completed without a start.
pub proof fn gates_are_followed_step_by_step(
    m: CameraManifest,
    steps: Seq<Step>,
    ctx: Seq<char>,
    active: Seq<Seq<char>>,
    n: Seq<Note>,
    i: int,
    k: int,
    g: Seq<char>,
)
    requires
        0 <= i,
    ensures
        grown(n, gate_step_notes(m, steps, ctx, active, n, i)),
        i <= k < steps.len() ==> {
            let s = steps[k];
            let open = gates_started(s, active_at(steps, active, i, k));
            let here = indexed(ctx, ".steps["@, k);
            let r = gate_step_notes(m, steps, ctx, active, n, i);
            &&& open.contains(g) && !gate_matchable(s) ==> warns(
                r,
                here + " is inside sequence gate '"@ + g
                    + "' but is not a matchable setProp/getProp/sendOp step"@,
            )
            &&& s.starts_gate is Some && !m.sequence_gates.has(s.starts_gate->0@) ==> warns(
                r,
                here + " startsGate references gate '"@ + s.starts_gate->0@
                    + "' which is not defined in this manifest"@,
            )
            &&& s.completes_gate is Some && !m.sequence_gates.has(s.completes_gate->0@) ==> warns(
                r,
                here + " completesGate references gate '"@ + s.completes_gate->0@
                    + "' which is not defined in this manifest"@,
            )
            &&& s.completes_gate is Some && !open.contains(s.completes_gate->0@) ==> warns(
                r,
                here + " completesGate '"@ + s.completes_gate->0@
                    + "' has no preceding startsGate in this step sequence"@,
            )
        },
    decreases steps, steps.len() - i,
{
    broadcast use warning_stays;

    if i < steps.len() {
        let s = steps[i];
        let here = indexed(ctx, ".steps["@, i);
        if let Some(r) = s.retry {
            gates_are_followed_step_by_step(
                m,
                r.steps@,
                here + ".retry"@,
                Seq::empty(),
                n,
                0,
                0,
                g,
            );
        }
        let retried = match s.retry {
            Some(r) => gate_step_notes(m, r.steps@, here + ".retry"@, Seq::empty(), n, 0),
            None => n,
        };
        undefined_started_gates_are_found(m, s, here, retried);
        let started = gate_start_notes(m, s, here, retried);
        let open = gates_started(s, active);
        unmatchable_steps_are_found(open, here, started, 0);
        let covered = if gate_matchable(s) {
            started
        } else {
            unmatchable_notes(open, here, started, 0)
        };
        unstarted_completed_gates_are_found(m, s, open, here, covered);
        let next = gate_completion_notes(m, s, open, here, covered);
        gates_are_followed_step_by_step(
            m,
            steps,
            ctx,
            gates_after(s, active),
            next,
            i + 1,
            k,
            g,
        );
        let out = gate_step_notes(m, steps, ctx, active, n, i);
        assert(grown(started, covered));
        assert(grown(covered, next));
        assert(grown(started, next));
        assert(grown(next, out));
        if k == i {
            if open.contains(g) && !gate_matchable(s) {
                let x = open.index_of(g);
                assert(open[x] == g);
            }
        }
    }
}

/// Values that are not bytes are found, and nothing else is.
pub proof fn values_that_are_no_bytes_are_found(
    values: Seq<String>,
    here: Seq<char>,
    n: Seq<Note>,
    j: int,
)
    requires
        0 <= j,
    ensures
        grown(n, state_value_notes(values, here, n, j)),
        forall|k: int|
            j <= k < values.len() && hex_bytes((#[trigger] values[k])@) is None ==> warns(
                state_value_notes(values, here, n, j),
                here + " has invalid hex value '"@ + values[k]@ + "'"@,
            ),
        (forall|k: int| j <= k < values.len() ==> hex_bytes((#[trigger] values[k])@) is Some)
            ==> state_value_notes(values, here, n, j) == n,
    decreases values.len() - j,
{
    broadcast use warning_stays;

    if j < values.len() {
        let found = hex_bytes(values[j]@) is None;
        let message = here + " has invalid hex value '"@ + values[j]@ + "'"@;
        what_is_found_is_warned_of(n, found, message);
        values_that_are_no_bytes_are_found(values, here, warned(n, found, message), j + 1);
    }
}

/// A state that triggers a transfer has values to do so, and all of its values are bytes; where this
/// fails it is found, and nothing else is.
pub proof fn idle_triggers_are_found(states: Seq<BleStateTrigger>, n: Seq<Note>, i: int)
    requires
        0 <= i,
    ensures
        grown(n, trigger_state_notes(states, n, i)),
        forall|k: int|
            i <= k < states.len() && (#[trigger] states[k]).trigger_values@.len() == 0 ==> warns(
                trigger_state_notes(states, n, i),
                "cameraInitiatedTransfer"@ + " trigger state "@ + decimal(k)
                    + " declares no triggerValues"@,
            ),
        forall|k: int, x: int|
            #![trigger states[k].trigger_values@[x]]
            i <= k < states.len() && 0 <= x < states[k].trigger_values@.len() && hex_bytes(
                states[k].trigger_values@[x]@,
            ) is None ==> warns(
                trigger_state_notes(states, n, i),
                "cameraInitiatedTransfer"@ + " trigger state "@ + decimal(k)
                    + " has invalid hex value '"@ + states[k].trigger_values@[x]@ + "'"@,
            ),
        forall|k: int, x: int|
            #![trigger states[k].baseline_values@[x]]
            i <= k < states.len() && 0 <= x < states[k].baseline_values@.len() && hex_bytes(
                states[k].baseline_values@[x]@,
            ) is None ==> warns(
                trigger_state_notes(states, n, i),
                "cameraInitiatedTransfer"@ + " trigger state "@ + decimal(k)
                    + " has invalid hex value '"@ + states[k].baseline_values@[x]@ + "'"@,
            ),
        (forall|k: int| i <= k < states.len() ==> sound_state(#[trigger] states[k]))
            ==> trigger_state_notes(states, n, i) == n,
    decreases states.len() - i,
{
    broadcast use warning_stays;

    if i < states.len() {
        let here = transfer_ctx() + " trigger state "@ + decimal(i);
        let s = states[i];
        let none = s.trigger_values@.len() == 0;
        what_is_found_is_warned_of(n, none, here + " declares no triggerValues"@);
        let a = warned(n, none, here + " declares no triggerValues"@);
        values_that_are_no_bytes_are_found(s.trigger_values@, here, a, 0);
        let b = state_value_notes(s.trigger_values@, here, a, 0);
        values_that_are_no_bytes_are_found(s.baseline_values@, here, b, 0);
        let c = state_value_notes(s.baseline_values@, here, b, 0);
        idle_triggers_are_found(states, c, i + 1);
        let out = trigger_state_notes(states, n, i);
        assert(grown(b, out));
        assert(grown(a, out));
        if sound_state(s) {
            assert(c == n);
        }
    }
}

/// Whether a state has values that trigger, and all of its values are bytes.
pub open spec fn sound_state(s: BleStateTrigger) -> bool {
    &&& s.trigger_values@.len() > 0
    &&& forall|x: int|
        0 <= x < s.trigger_values@.len() ==> hex_bytes((#[trigger] s.trigger_values@[x])@) is Some
    &&& forall|x: int|
        0 <= x < s.baseline_values@.len() ==> hex_bytes((#[trigger] s.baseline_values@[x])@) is Some
}

/// A transfer that is handed over to a connection that is not declared, in a mode that is not
/// declared or that the connection does not have, or on a socket that it does not bind, is found,
/// and nothing else is.
pub proof fn unreachable_handoffs_are_found(
    m: CameraManifest,
    t: CameraInitiatedTransfer,
    n: Seq<Note>,
)
    ensures
        grown(n, handoff_notes(m, t, n)),
        ({
            let id = t.handoff.connection@;
            let mode = t.receive.mode@;
            let c = m.connections.at(id);
            let r = handoff_notes(m, t, n);
            let has_mode = c is Some && crate::text::holds_text(c->0.modes@, mode);
            let bound = c is Some && c->0.bindings is Some && role_binding(
                c->0.bindings->0,
                t.handoff.socket_role,
            ) is Some;
            &&& c is None ==> warns(
                r,
                "cameraInitiatedTransfer"@ + " references unknown connection '"@ + id + "'"@,
            )
            &&& !m.modes.has(mode) ==> warns(
                r,
                "cameraInitiatedTransfer"@ + " references unknown receive mode '"@ + mode + "'"@,
            )
            &&& m.modes.has(mode) && c is Some && !has_mode ==> warns(
                r,
                "cameraInitiatedTransfer"@ + " receive mode '"@ + mode
                    + "' is not available on connection '"@ + id + "'"@,
            )
            &&& c is Some && m.modes.has(mode) && has_mode && bound ==> r == n
            &&& !bound ==> r.len() > n.len()
        }),
{
    broadcast use warning_stays;

    let ctx = transfer_ctx();
    let id = t.handoff.connection@;
    let mode = t.receive.mode@;
    let c = m.connections.at(id);
    let a = ctx + " references unknown connection '"@ + id + "'"@;
    what_is_found_is_warned_of(n, c is None, a);
    let known = warned(n, c is None, a);
    let x = ctx + " references unknown receive mode '"@ + mode + "'"@;
    let y = ctx + " receive mode '"@ + mode + "' is not available on connection '"@ + id + "'"@;
    let lacking = c matches Some(v) && !crate::text::holds_text(v.modes@, mode);
    what_is_found_is_warned_of(known, true, x);
    what_is_found_is_warned_of(known, lacking, y);
    let moded = if !m.modes.has(mode) {
        warned(known, true, x)
    } else {
        warned(known, lacking, y)
    };
    let unbound = !(c matches Some(v) && (v.bindings matches Some(b) && role_binding(
        b,
        t.handoff.socket_role,
    ) is Some));
    let z = ctx + " socket role '"@ + crate::validate::steps::role_text(t.handoff.socket_role)
        + "' is not bound on connection '"@ + id + "'"@;
    what_is_found_is_warned_of(moded, unbound, z);
    assert(handoff_notes(m, t, n) == warned(moded, unbound, z));
    assert(grown(known, moded));
    assert(grown(known, warned(moded, unbound, z)));
    assert(grown(moded, warned(moded, unbound, z)));
}

/// A transfer whose head has no index, or whose metadata has no phase or one twice, is found, and
/// nothing else is.
pub proof fn unsound_metadata_is_found(t: CameraInitiatedTransfer, n: Seq<Note>)
    ensures
        grown(n, metadata_notes(t, n)),
        ({
            let r = metadata_notes(t, n);
            let p = t.receive.metadata.phases@;
            &&& t.receive.head_index == 0 ==> warns(
                r,
                "cameraInitiatedTransfer"@ + " headIndex must be non-zero"@,
            )
            &&& p.len() == 0 ==> warns(
                r,
                "cameraInitiatedTransfer"@ + " metadata must declare at least one phase"@,
            )
            &&& (exists|i: int, j: int|
                #![trigger p[i], p[j]]
                0 <= i < j < p.len() && p[i] == p[j]) ==> warns(
                r,
                "cameraInitiatedTransfer"@ + " metadata phases must not contain duplicates"@,
            )
            &&& t.receive.head_index != 0 && p.len() > 0 && p.no_duplicates() ==> r == n
        }),
{
    broadcast use warning_stays;

    let ctx = transfer_ctx();
    let p = t.receive.metadata.phases@;
    let zero = t.receive.head_index == 0;
    let a = ctx + " headIndex must be non-zero"@;
    what_is_found_is_warned_of(n, zero, a);
    let b = ctx + " metadata must declare at least one phase"@;
    what_is_found_is_warned_of(warned(n, zero, a), p.len() == 0, b);
    let c = ctx + " metadata phases must not contain duplicates"@;
    let twice = !crate::validate::lints::phases_distinct(p);
    let two = warned(warned(n, zero, a), p.len() == 0, b);
    what_is_found_is_warned_of(two, twice, c);
    assert(metadata_notes(t, n) == warned(two, twice, c));
    assert(grown(warned(n, zero, a), warned(two, twice, c)));
    assert(grown(n, warned(two, twice, c)));
    assert(grown(two, warned(two, twice, c)));
    assert(p.no_duplicates() ==> crate::validate::lints::phases_distinct(p));
}

/// A transfer that counts by a property or a member that is not declared, or uses an operation that
/// is not, is found.
pub proof fn unknown_transfer_references_are_found(
    m: CameraManifest,
    t: CameraInitiatedTransfer,
    n: Seq<Note>,
)
    ensures
        grown(n, transfer_reference_notes(m, t, n)),
        ({
            let r = transfer_reference_notes(m, t, n);
            let counted = property_at(m, t.receive.count.property@);
            &&& counted is None ==> warns(
                r,
                "cameraInitiatedTransfer"@ + " references unknown count property '"@
                    + t.receive.count.property@ + "'"@,
            )
            &&& counted is Some && !has_member(counted->0, hex_code(t.receive.count.member@))
                ==> r.len() > n.len()
            &&& property_at(m, t.receive.count.member@) is None ==> r.len() > n.len()
            &&& !operation_known(m, t.receive.metadata.operation@) ==> r.len() > n.len()
            &&& !operation_known(m, t.receive.data.operation@) ==> r.len() > n.len()
            &&& property_at(m, t.receive.data.chunk_limit_property@) is None ==> r.len() > n.len()
            &&& counted is Some && has_member(counted->0, hex_code(t.receive.count.member@))
                && property_at(m, t.receive.count.member@) is Some && operation_known(
                m,
                t.receive.metadata.operation@,
            ) && operation_known(m, t.receive.data.operation@) && property_at(
                m,
                t.receive.data.chunk_limit_property@,
            ) is Some ==> r == n
        }),
{
    broadcast use warning_stays;

    let ctx = transfer_ctx();
    let x = ctx + " references unknown count property '"@ + t.receive.count.property@ + "'"@;
    what_is_found_is_warned_of(n, true, x);
    if property_at(m, t.receive.count.property@) is None {
        let w = warned(n, true, x);
        let r = transfer_reference_notes(m, t, n);
        assert(grown(w, r));
    }
}

/// What a key names by its code, and whether a property holds a member with a code.
pub proof fn keys_name_by_their_code(m: CameraManifest, key: Seq<char>, p: Property, code: u16)
    ensures
        hex_code(key) is None ==> property_at(m, key) is None && !operation_known(m, key),
        hex_code(key) is Some ==> property_at(m, key) == coded(m.properties, hex_code(key)->0)
            && operation_known(m, key) == (coded(m.operations, hex_code(key)->0) is Some),
        !has_member(p, None),
        has_member(p, Some(code)) <==> p.payload is Some && exists|i: int|
            0 <= i < p.payload->0.members@.len() && hex_code(
                member_code(#[trigger] p.payload->0.members@[i])@,
            ) == Some(code),
{
}

/// The operations from entry `i` on add findings.
proof fn operations_grow(m: CameraManifest, n: Seq<Note>, i: int, k: int)
    requires
        0 <= i,
    ensures
        grown(n, operation_notes(m, n, i)),
        i <= k < m.operations.entries().len() ==> {
            let e = m.operations.entries()[k];
            let ctx = "operation "@ + e.0@;
            let r = operation_notes(m, n, i);
            &&& evidence_found(m, e.1.evidence@, ctx, r)
            &&& gate_found(m, e.1.requires_gate, ctx, r)
        },
    decreases m.operations.entries().len() - i,
{
    broadcast use {warning_stays, evidence_stays, gate_stays};

    let s = m.operations.entries();
    if i < s.len() {
        let ctx = "operation "@ + s[i].0@;
        undefined_evidence_is_found(m, s[i].1.evidence@, ctx, n, 0);
        let a = evidence_notes(m, s[i].1.evidence@, ctx, n, 0);
        undefined_required_gates_are_found(m, s[i].1.requires_gate, ctx, a);
        let b = gate_requirement_notes(m, s[i].1.requires_gate, ctx, a);
        operations_grow(m, b, i + 1, k);
        assert(evidence_found(m, s[i].1.evidence@, ctx, a));
        assert(gate_found(m, s[i].1.requires_gate, ctx, b));
        assert(grown(a, operation_notes(m, n, i)));
    }
}

/// Whether all evidence that is not defined is warned of.
pub open spec fn evidence_found(
    m: CameraManifest,
    ids: Seq<String>,
    ctx: Seq<char>,
    r: Seq<Note>,
) -> bool {
    forall|k: int|
        0 <= k < ids.len() && !m.evidence.has((#[trigger] ids[k])@) ==> warns(
            r,
            ctx + " references evidence id '"@ + ids[k]@
                + "' which is not defined in this manifest (provenance may live in a private repo)"@,
        )
}

/// Warnings of evidence stay.
broadcast proof fn evidence_stays(
    m: CameraManifest,
    ids: Seq<String>,
    ctx: Seq<char>,
    a: Seq<Note>,
    b: Seq<Note>,
)
    requires
        #[trigger] grown(a, b),
        #[trigger] evidence_found(m, ids, ctx, a),
    ensures
        evidence_found(m, ids, ctx, b),
{
    broadcast use warning_stays;

}

/// Whether a required gate that is not defined is warned of.
pub open spec fn gate_found(
    m: CameraManifest,
    req: Option<GateRequirement>,
    ctx: Seq<char>,
    r: Seq<Note>,
) -> bool {
    req is Some && !m.sequence_gates.has(req->0.name@) ==> warns(
        r,
        ctx + " requiresGate references gate '"@ + req->0.name@
            + "' which is not defined in this manifest"@,
    )
}

/// Warnings of gates stay.
broadcast proof fn gate_stays(
    m: CameraManifest,
    req: Option<GateRequirement>,
    ctx: Seq<char>,
    a: Seq<Note>,
    b: Seq<Note>,
)
    requires
        #[trigger] grown(a, b),
        #[trigger] gate_found(m, req, ctx, a),
    ensures
        gate_found(m, req, ctx, b),
{
    broadcast use warning_stays;

}

/// The sequence gates from entry `i` on add findings.
proof fn gates_grow(m: CameraManifest, n: Seq<Note>, i: int, k: int)
    requires
        0 <= i,
    ensures
        grown(n, sequence_gate_notes(m, n, i)),
        i <= k < m.sequence_gates.entries().len() ==> evidence_found(
            m,
            m.sequence_gates.entries()[k].1.evidence@,
            "sequenceGate "@ + m.sequence_gates.entries()[k].0@,
            sequence_gate_notes(m, n, i),
        ),
    decreases m.sequence_gates.entries().len() - i,
{
    broadcast use {warning_stays, evidence_stays};

    let s = m.sequence_gates.entries();
    if i < s.len() {
        let ctx = "sequenceGate "@ + s[i].0@;
        undefined_evidence_is_found(m, s[i].1.evidence@, ctx, n, 0);
        let a = evidence_notes(m, s[i].1.evidence@, ctx, n, 0);
        gates_grow(m, a, i + 1, k);
        assert(evidence_found(m, s[i].1.evidence@, ctx, a));
    }
}

/// The sentinels from entry `i` on add findings.
proof fn sentinels_grow(m: CameraManifest, n: Seq<Note>, i: int, k: int)
    requires
        0 <= i,
    ensures
        grown(n, sentinel_notes(m, n, i)),
        i <= k < m.sentinels.entries().len() ==> {
            let e = m.sentinels.entries()[k];
            let r = sentinel_notes(m, n, i);
            &&& evidence_found(m, e.1.evidence@, "sentinel "@ + e.0@, r)
            &&& hex_bytes(e.1.bytes@) is None ==> warns(
                r,
                "sentinel "@ + e.0@
                    + " has invalid hex bytes; transport-close resolution will fail"@,
            )
        },
    decreases m.sentinels.entries().len() - i,
{
    broadcast use {warning_stays, evidence_stays};

    let s = m.sentinels.entries();
    if i < s.len() {
        let ctx = "sentinel "@ + s[i].0@;
        undefined_evidence_is_found(m, s[i].1.evidence@, ctx, n, 0);
        let a = evidence_notes(m, s[i].1.evidence@, ctx, n, 0);
        let message = ctx + " has invalid hex bytes; transport-close resolution will fail"@;
        let found = hex_bytes(s[i].1.bytes@) is None;
        what_is_found_is_warned_of(a, found, message);
        let b = warned(a, found, message);
        sentinels_grow(m, b, i + 1, k);
        assert(evidence_found(m, s[i].1.evidence@, ctx, a));
        assert(grown(a, sentinel_notes(m, n, i)));
    }
}

/// A member of a record that names a property by its code alone, which is not declared, is found.
pub proof fn undeclared_members_are_found(
    m: CameraManifest,
    members: Seq<RecordMember>,
    ctx: Seq<char>,
    n: Seq<Note>,
    j: int,
)
    requires
        0 <= j,
    ensures
        grown(n, member_notes(m, members, ctx, n, j)),
        forall|k: int|
            j <= k < members.len() && (#[trigger] members[k]) is Code && !m.properties.has(
                member_code(members[k])@,
            ) ==> warns(
                member_notes(m, members, ctx, n, j),
                ctx + " payload member '"@ + member_code(members[k])@
                    + "' is not a defined property; use a detailed member encoding when the global type is unavailable"@,
            ),
        (forall|k: int|
            j <= k < members.len() ==> !((#[trigger] members[k]) is Code) || m.properties.has(
                member_code(members[k])@,
            )) ==> member_notes(m, members, ctx, n, j) == n,
    decreases members.len() - j,
{
    broadcast use warning_stays;

    if j < members.len() {
        let code = member_code(members[j])@;
        let found = members[j] is Code && !m.properties.has(code);
        let message = ctx + " payload member '"@ + code
            + "' is not a defined property; use a detailed member encoding when the global type is unavailable"@;
        what_is_found_is_warned_of(n, found, message);
        undeclared_members_are_found(m, members, ctx, warned(n, found, message), j + 1);
    }
}

/// The properties from entry `i` on add findings.
proof fn properties_grow(m: CameraManifest, n: Seq<Note>, i: int, k: int)
    requires
        0 <= i,
    ensures
        grown(n, property_notes(m, n, i)),
        i <= k < m.properties.entries().len() ==> {
            let e = m.properties.entries()[k];
            let ctx = "property "@ + e.0@;
            let r = property_notes(m, n, i);
            &&& evidence_found(m, e.1.evidence@, ctx, r)
            &&& gate_found(m, e.1.requires_gate, ctx, r)
            &&& e.1.payload is Some ==> forall|x: int|
                0 <= x < e.1.payload->0.members@.len() && (#[trigger] e.1.payload->0.members@[x])
                    is Code && !m.properties.has(member_code(e.1.payload->0.members@[x])@) ==> warns(
                    r,
                    ctx + " payload member '"@ + member_code(e.1.payload->0.members@[x])@
                        + "' is not a defined property; use a detailed member encoding when the global type is unavailable"@,
                )
        },
    decreases m.properties.entries().len() - i,
{
    broadcast use {warning_stays, evidence_stays, gate_stays};

    let s = m.properties.entries();
    if i < s.len() {
        let ctx = "property "@ + s[i].0@;
        let p = s[i].1;
        undefined_evidence_is_found(m, p.evidence@, ctx, n, 0);
        let a = evidence_notes(m, p.evidence@, ctx, n, 0);
        undefined_required_gates_are_found(m, p.requires_gate, ctx, a);
        let b = gate_requirement_notes(m, p.requires_gate, ctx, a);
        let c = match p.payload {
            Some(payload) => member_notes(m, payload.members@, ctx, b, 0),
            None => b,
        };
        if let Some(payload) = p.payload {
            undeclared_members_are_found(m, payload.members@, ctx, b, 0);
        }
        properties_grow(m, c, i + 1, k);
        assert(evidence_found(m, p.evidence@, ctx, a));
        assert(gate_found(m, p.requires_gate, ctx, b));
        let out = property_notes(m, n, i);
        assert(grown(c, out));
        assert(grown(b, out));
        assert(grown(a, out));
    }
}

/// The workflows from entry `i` on add findings.
proof fn workflows_grow(m: CameraManifest, n: Seq<Note>, i: int, k: int)
    requires
        0 <= i,
    ensures
        grown(n, workflow_notes(m, n, i)),
        i <= k < m.workflows.entries().len() ==> evidence_found(
            m,
            m.workflows.entries()[k].1.evidence@,
            "workflow "@ + m.workflows.entries()[k].0@,
            workflow_notes(m, n, i),
        ),
    decreases m.workflows.entries().len() - i,
{
    broadcast use {warning_stays, evidence_stays};

    let s = m.workflows.entries();
    if i < s.len() {
        let ctx = "workflow "@ + s[i].0@;
        undefined_evidence_is_found(m, s[i].1.evidence@, ctx, n, 0);
        let a = evidence_notes(m, s[i].1.evidence@, ctx, n, 0);
        workflows_grow(m, a, i + 1, k);
        assert(evidence_found(m, s[i].1.evidence@, ctx, a));
    }
}

/// The entries of a connection from `j` on add findings.
proof fn entries_grow(m: CameraManifest, c: Connection, id: Seq<char>, n: Seq<Note>, j: int)
    requires
        0 <= j,
    ensures
        grown(n, entry_notes(m, c, id, n, j)),
    decreases c.entries@.len() - j,
{
    if j < c.entries@.len() {
        let ctx = "connection "@ + id + " entry "@ + decimal(j);
        let next = match c.entries@[j].execution {
            ModeEntryExecution::Ptp { steps } => gate_step_notes(m, steps@, ctx, Seq::empty(), n, 0),
            ModeEntryExecution::ReestablishConnection(r) => gate_step_notes(
                m,
                r.exit_steps@,
                ctx + " exit"@,
                Seq::empty(),
                n,
                0,
            ),
            ModeEntryExecution::UserInstruction { .. } => n,
        };
        match c.entries@[j].execution {
            ModeEntryExecution::Ptp { steps } => gates_are_followed_step_by_step(
                m,
                steps@,
                ctx,
                Seq::empty(),
                n,
                0,
                0,
                ctx,
            ),
            ModeEntryExecution::ReestablishConnection(r) => gates_are_followed_step_by_step(
                m,
                r.exit_steps@,
                ctx + " exit"@,
                Seq::empty(),
                n,
                0,
                0,
                ctx,
            ),
            ModeEntryExecution::UserInstruction { .. } => {},
        }
        entries_grow(m, c, id, next, j + 1);
    }
}

/// The actions of a connection from entry `j` on add findings.
proof fn actions_grow(m: CameraManifest, c: Connection, id: Seq<char>, n: Seq<Note>, j: int)
    requires
        0 <= j,
    ensures
        grown(n, action_notes(m, c, id, n, j)),
    decreases c.actions.entries().len() - j,
{
    let s = c.actions.entries();
    if j < s.len() {
        let ctx = "connection "@ + id + " action "@ + verb_label(s[j].0);
        let next = match s[j].1.initiator {
            Some(initiator) => gate_step_notes(m, initiator.steps@, ctx, Seq::empty(), n, 0),
            None => n,
        };
        if let Some(initiator) = s[j].1.initiator {
            gates_are_followed_step_by_step(
                m,
                initiator.steps@,
                ctx,
                Seq::empty(),
                n,
                0,
                0,
                ctx,
            );
        }
        actions_grow(m, c, id, next, j + 1);
    }
}

/// A connection that closes its transport by a sentinel that is not defined is found, and so is the
/// undefined evidence of how it opens.
pub proof fn undefined_sentinels_are_found(
    m: CameraManifest,
    c: Connection,
    id: Seq<char>,
    n: Seq<Note>,
)
    ensures
        grown(n, connection_notes(m, c, id, n)),
        c.init is Some ==> evidence_found(
            m,
            c.init->0.evidence@,
            "connection "@ + id + " init"@,
            connection_notes(m, c, id, n),
        ),
        c.transport_close is Some && !m.sentinels.has(c.transport_close->0.sentinel@) ==> warns(
            connection_notes(m, c, id, n),
            "connection "@ + id + " transportClose references sentinel '"@
                + c.transport_close->0.sentinel@ + "' which is not defined in this manifest"@,
        ),
{
    broadcast use {warning_stays, evidence_stays};

    let ctx = "connection "@ + id + " init"@;
    let init = match c.init {
        Some(init) => evidence_notes(m, init.evidence@, ctx, n, 0),
        None => n,
    };
    if let Some(x) = c.init {
        undefined_evidence_is_found(m, x.evidence@, ctx, n, 0);
        assert(evidence_found(m, x.evidence@, ctx, init));
    }
    let close = match c.transport_close {
        Some(tc) => warned(
            init,
            !m.sentinels.has(tc.sentinel@),
            "connection "@ + id + " transportClose references sentinel '"@ + tc.sentinel@
                + "' which is not defined in this manifest"@,
        ),
        None => init,
    };
    if let Some(tc) = c.transport_close {
        what_is_found_is_warned_of(
            init,
            !m.sentinels.has(tc.sentinel@),
            "connection "@ + id + " transportClose references sentinel '"@ + tc.sentinel@
                + "' which is not defined in this manifest"@,
        );
    }
    entries_grow(m, c, id, close, 0);
    let entered = entry_notes(m, c, id, close, 0);
    actions_grow(m, c, id, entered, 0);
    let out = connection_notes(m, c, id, n);
    assert(grown(close, out));
    assert(grown(init, out));
}

/// The connections from entry `i` on add findings.
proof fn connections_grow(m: CameraManifest, n: Seq<Note>, i: int, k: int)
    requires
        0 <= i,
    ensures
        grown(n, connections_notes(m, n, i)),
        i <= k < m.connections.entries().len() ==> {
            let e = m.connections.entries()[k];
            let r = connections_notes(m, n, i);
            &&& e.1.init is Some ==> evidence_found(
                m,
                e.1.init->0.evidence@,
                "connection "@ + e.0@ + " init"@,
                r,
            )
            &&& e.1.transport_close is Some && !m.sentinels.has(e.1.transport_close->0.sentinel@)
                ==> warns(
                r,
                "connection "@ + e.0@ + " transportClose references sentinel '"@
                    + e.1.transport_close->0.sentinel@ + "' which is not defined in this manifest"@,
            )
        },
    decreases m.connections.entries().len() - i,
{
    broadcast use {warning_stays, evidence_stays};

    let s = m.connections.entries();
    if i < s.len() {
        undefined_sentinels_are_found(m, s[i].1, s[i].0@, n);
        connections_grow(m, connection_notes(m, s[i].1, s[i].0@, n), i + 1, k);
        assert(grown(connection_notes(m, s[i].1, s[i].0@, n), connections_notes(m, n, i)));
    }
}

/// The lints of a manifest find undefined evidence wherever it is cited, undefined gates wherever
/// they are required, and sentinels, members and closes that lead nowhere.
pub proof fn lints_look_everywhere(m: CameraManifest, k: int)
    ensures
        0 <= k < m.operations.entries().len() ==> {
            let e = m.operations.entries()[k];
            &&& evidence_found(m, e.1.evidence@, "operation "@ + e.0@, manifest_notes(m))
            &&& gate_found(m, e.1.requires_gate, "operation "@ + e.0@, manifest_notes(m))
        },
        0 <= k < m.properties.entries().len() ==> {
            let e = m.properties.entries()[k];
            &&& evidence_found(m, e.1.evidence@, "property "@ + e.0@, manifest_notes(m))
            &&& gate_found(m, e.1.requires_gate, "property "@ + e.0@, manifest_notes(m))
        },
        0 <= k < m.sequence_gates.entries().len() ==> evidence_found(
            m,
            m.sequence_gates.entries()[k].1.evidence@,
            "sequenceGate "@ + m.sequence_gates.entries()[k].0@,
            manifest_notes(m),
        ),
        0 <= k < m.workflows.entries().len() ==> evidence_found(
            m,
            m.workflows.entries()[k].1.evidence@,
            "workflow "@ + m.workflows.entries()[k].0@,
            manifest_notes(m),
        ),
        0 <= k < m.sentinels.entries().len() ==> evidence_found(
            m,
            m.sentinels.entries()[k].1.evidence@,
            "sentinel "@ + m.sentinels.entries()[k].0@,
            manifest_notes(m),
        ) && (hex_bytes(m.sentinels.entries()[k].1.bytes@) is None ==> warns(
            manifest_notes(m),
            "sentinel "@ + m.sentinels.entries()[k].0@
                + " has invalid hex bytes; transport-close resolution will fail"@,
        )),
        0 <= k < m.connections.entries().len() ==> {
            let e = m.connections.entries()[k];
            &&& e.1.init is Some ==> evidence_found(
                m,
                e.1.init->0.evidence@,
                "connection "@ + e.0@ + " init"@,
                manifest_notes(m),
            )
            &&& e.1.transport_close is Some && !m.sentinels.has(e.1.transport_close->0.sentinel@)
                ==> warns(
                manifest_notes(m),
                "connection "@ + e.0@ + " transportClose references sentinel '"@
                    + e.1.transport_close->0.sentinel@ + "' which is not defined in this manifest"@,
            )
        },
{
    broadcast use {warning_stays, evidence_stays, gate_stays};

    let t = transfer_notes(m, Seq::empty());
    let a = operation_notes(m, t, 0);
    operations_grow(m, t, 0, k);
    let b = sequence_gate_notes(m, a, 0);
    gates_grow(m, a, 0, k);
    let c = sentinel_notes(m, b, 0);
    sentinels_grow(m, b, 0, k);
    let d = property_notes(m, c, 0);
    properties_grow(m, c, 0, k);
    let e = workflow_notes(m, d, 0);
    workflows_grow(m, d, 0, k);
    connections_grow(m, e, 0, k);
    let out = manifest_notes(m);
    assert(out == connections_notes(m, e, 0));
    assert(grown(e, out));
    assert(grown(d, out));
    assert(grown(c, out));
    assert(grown(b, out));
    assert(grown(a, out));
}

} // verus!
