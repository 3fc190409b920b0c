//! Lints: findings that do not stop a load.

use crate::error::{Lint, Severity};
use crate::model::{
    gate_matchable, hex_bytes, hex_code, member_code, parse_hex_bytes, parse_hex_code, role_binding,
    BleStateTrigger, CameraInitiatedMetadataPhase, CameraInitiatedTransfer, CameraManifest,
    Connection, GateRequirement, ModeEntryExecution, Property, RecordMember, Step,
};
use crate::query::coded;
use crate::sorted::{insert_text, remove_text, with_text, without_text};
use crate::text::{
    contains_text, decimal, holds_text, join2, join3, join4, join5, join6, u64_text, views,
};
use crate::validate::entries::{verb_label, verb_name};
use crate::validate::steps::{role_name, role_text};
use crate::validate::{index_path, indexed};
use vstd::prelude::*;

verus! {

/// A finding: its severity and its message.
pub type Note = (Severity, Seq<char>);

/// The findings of a row of lints.
pub open spec fn noted(v: Seq<Lint>) -> Seq<Note> {
    Seq::new(v.len(), |i: int| (v[i].severity, v[i].message@))
}

/// The findings `n` with the warning `message` behind them, where `found` holds.
pub open spec fn warned(n: Seq<Note>, found: bool, message: Seq<char>) -> Seq<Note> {
    if found {
        n.push((Severity::Warning, message))
    } else {
        n
    }
}

/// Adds a warning.
fn warn(lints: &mut Vec<Lint>, message: String)
    ensures
        noted(final(lints)@) == noted(old(lints)@).push((Severity::Warning, message@)),
{
    let ghost before = lints@;
    lints.push(Lint::warn(message));
    proof {
        assert(noted(lints@) == noted(before).push((Severity::Warning, message@)));
    }
}

/// The message on an evidence id that is not defined.
pub open spec fn evidence_message(ctx: Seq<char>, id: Seq<char>) -> Seq<char> {
    ctx + " references evidence id '"@ + id
        + "' which is not defined in this manifest (provenance may live in a private repo)"@
}

/// The findings behind the evidence ids from `i` on.
pub open spec fn evidence_notes(
    m: CameraManifest,
    ids: Seq<String>,
    ctx: Seq<char>,
    n: Seq<Note>,
    i: int,
) -> Seq<Note>
    decreases ids.len() - i,
{
    if i < 0 || i >= ids.len() {
        n
    } else {
        evidence_notes(
            m,
            ids,
            ctx,
            warned(n, !m.evidence.has(ids[i]@), evidence_message(ctx, ids[i]@)),
            i + 1,
        )
    }
}

/// Notes each evidence id that is not defined.
fn check_evidence(manifest: &CameraManifest, ids: &Vec<String>, ctx: &str, lints: &mut Vec<Lint>)
    ensures
        noted(final(lints)@) == evidence_notes(*manifest, ids@, ctx@, noted(old(lints)@), 0),
{
    let mut i: usize = 0;
    while i < ids.len()
        invariant
            i <= ids.len(),
            evidence_notes(*manifest, ids@, ctx@, noted(old(lints)@), 0) == evidence_notes(
                *manifest,
                ids@,
                ctx@,
                noted(lints@),
                i as int,
            ),
        decreases ids.len() - i,
    {
        let id = ids[i].as_str();
        if !manifest.evidence.contains_key(id) {
            warn(
                lints,
                join4(
                    ctx,
                    " references evidence id '",
                    id,
                    "' which is not defined in this manifest (provenance may live in a private repo)",
                ),
            );
        }
        i = i + 1;
    }
}

/// The findings behind a gate requirement.
pub open spec fn gate_requirement_notes(
    m: CameraManifest,
    req: Option<GateRequirement>,
    ctx: Seq<char>,
    n: Seq<Note>,
) -> Seq<Note> {
    match req {
        None => n,
        Some(g) => warned(
            n,
            !m.sequence_gates.has(g.name@),
            ctx + " requiresGate references gate '"@ + g.name@
                + "' which is not defined in this manifest"@,
        ),
    }
}

/// Notes a required gate that is not defined.
fn check_gate_requirement(
    manifest: &CameraManifest,
    req: &Option<GateRequirement>,
    ctx: &str,
    lints: &mut Vec<Lint>,
)
    ensures
        noted(final(lints)@) == gate_requirement_notes(*manifest, *req, ctx@, noted(old(lints)@)),
{
    if let Some(g) = req {
        if !manifest.sequence_gates.contains_key(g.name.as_str()) {
            warn(
                lints,
                join4(
                    ctx,
                    " requiresGate references gate '",
                    g.name.as_str(),
                    "' which is not defined in this manifest",
                ),
            );
        }
    }
}

/// The findings behind the active gates from `j` on, at a step that no gate can match.
pub open spec fn unmatchable_notes(
    active: Seq<Seq<char>>,
    here: Seq<char>,
    n: Seq<Note>,
    j: int,
) -> Seq<Note>
    decreases active.len() - j,
{
    if j < 0 || j >= active.len() {
        n
    } else {
        unmatchable_notes(
            active,
            here,
            n.push(
                (
                    Severity::Warning,
                    here + " is inside sequence gate '"@ + active[j]
                        + "' but is not a matchable setProp/getProp/sendOp step"@,
                ),
            ),
            j + 1,
        )
    }
}

/// The gates that are active from a step on that starts one.
pub open spec fn gates_started(s: Step, active: Seq<Seq<char>>) -> Seq<Seq<char>> {
    match s.starts_gate {
        Some(gate) => with_text(active, gate@),
        None => active,
    }
}

/// The gates that are active behind a step.
pub open spec fn gates_after(s: Step, active: Seq<Seq<char>>) -> Seq<Seq<char>> {
    match s.completes_gate {
        Some(gate) => without_text(gates_started(s, active), gate@),
        None => gates_started(s, active),
    }
}

/// The findings behind a step where a gate starts.
pub open spec fn gate_start_notes(m: CameraManifest, s: Step, here: Seq<char>, n: Seq<Note>) -> Seq<
    Note,
> {
    match s.starts_gate {
        None => n,
        Some(gate) => warned(
            n,
            !m.sequence_gates.has(gate@),
            here + " startsGate references gate '"@ + gate@
                + "' which is not defined in this manifest"@,
        ),
    }
}

/// The findings behind a step where a gate completes, with the gates active before it.
pub open spec fn gate_completion_notes(
    m: CameraManifest,
    s: Step,
    active: Seq<Seq<char>>,
    here: Seq<char>,
    n: Seq<Note>,
) -> Seq<Note> {
    match s.completes_gate {
        None => n,
        Some(gate) => warned(
            warned(
                n,
                !m.sequence_gates.has(gate@),
                here + " completesGate references gate '"@ + gate@
                    + "' which is not defined in this manifest"@,
            ),
            !active.contains(gate@),
            here + " completesGate '"@ + gate@
                + "' has no preceding startsGate in this step sequence"@,
        ),
    }
}

/// The findings behind the steps from `i` on, where the gates `active` are open before them. A
/// gate covers the steps from the one that starts it to the one that completes it.
pub open spec fn gate_step_notes(
    m: CameraManifest,
    steps: Seq<Step>,
    ctx: Seq<char>,
    active: Seq<Seq<char>>,
    n: Seq<Note>,
    i: int,
) -> Seq<Note>
    decreases steps, steps.len() - i,
{
    if i < 0 || i >= steps.len() {
        n
    } else {
        let s = steps[i];
        let here = indexed(ctx, ".steps["@, i);
        let retried = match s.retry {
            Some(r) => gate_step_notes(m, r.steps@, here + ".retry"@, Seq::empty(), n, 0),
            None => n,
        };
        let started = gate_start_notes(m, s, here, retried);
        let open = gates_started(s, active);
        let covered = if gate_matchable(s) {
            started
        } else {
            unmatchable_notes(open, here, started, 0)
        };
        gate_step_notes(
            m,
            steps,
            ctx,
            gates_after(s, active),
            gate_completion_notes(m, s, open, here, covered),
            i + 1,
        )
    }
}

/// Notes each active gate at a step that no gate can match.
fn note_unmatchable(active: &Vec<String>, here: &str, lints: &mut Vec<Lint>)
    ensures
        noted(final(lints)@) == unmatchable_notes(views(active@), here@, noted(old(lints)@), 0),
{
    let mut j: usize = 0;
    while j < active.len()
        invariant
            j <= active.len(),
            unmatchable_notes(views(active@), here@, noted(old(lints)@), 0) == unmatchable_notes(
                views(active@),
                here@,
                noted(lints@),
                j as int,
            ),
        decreases active.len() - j,
    {
        warn(
            lints,
            join4(
                here,
                " is inside sequence gate '",
                active[j].as_str(),
                "' but is not a matchable setProp/getProp/sendOp step",
            ),
        );
        j = j + 1;
    }
}

/// Notes what is wrong with the sequence gates of a row of steps.
fn check_gate_steps(
    manifest: &CameraManifest,
    steps: &Vec<Step>,
    ctx: &str,
    lints: &mut Vec<Lint>,
)
    ensures
        noted(final(lints)@) == gate_step_notes(
            *manifest,
            steps@,
            ctx@,
            Seq::empty(),
            noted(old(lints)@),
            0,
        ),
    decreases steps,
{
    let mut active: Vec<String> = Vec::new();
    let mut i: usize = 0;
    proof {
        assert(views(active@) == Seq::<Seq<char>>::empty());
    }
    while i < steps.len()
        invariant
            i <= steps.len(),
            gate_step_notes(*manifest, steps@, ctx@, Seq::empty(), noted(old(lints)@), 0)
                == gate_step_notes(
                *manifest,
                steps@,
                ctx@,
                views(active@),
                noted(lints@),
                i as int,
            ),
        decreases steps.len() - i,
    {
        proof {
            assert(decreases_to!(steps@ => steps@[i as int]));
        }
        let step = &steps[i];
        let here = index_path(ctx, ".steps[", i);
        if let Some(retry) = &step.retry {
            check_gate_steps(manifest, &retry.steps, join2(here.as_str(), ".retry").as_str(), lints);
        }
        if let Some(gate) = &step.starts_gate {
            if !manifest.sequence_gates.contains_key(gate.as_str()) {
                warn(
                    lints,
                    join4(
                        here.as_str(),
                        " startsGate references gate '",
                        gate.as_str(),
                        "' which is not defined in this manifest",
                    ),
                );
            }
            insert_text(&mut active, gate.clone());
        }
        if !step.is_sequence_gate_matchable() {
            note_unmatchable(&active, here.as_str(), lints);
        }
        if let Some(gate) = &step.completes_gate {
            if !manifest.sequence_gates.contains_key(gate.as_str()) {
                warn(
                    lints,
                    join4(
                        here.as_str(),
                        " completesGate references gate '",
                        gate.as_str(),
                        "' which is not defined in this manifest",
                    ),
                );
            }
            let was_active = remove_text(&mut active, gate.as_str());
            if !was_active {
                warn(
                    lints,
                    join4(
                        here.as_str(),
                        " completesGate '",
                        gate.as_str(),
                        "' has no preceding startsGate in this step sequence",
                    ),
                );
            }
        }
        i = i + 1;
    }
}

/// The context of the lints on the camera-initiated transfer.
pub open spec fn transfer_ctx() -> Seq<char> {
    "cameraInitiatedTransfer"@
}

/// The findings behind the hexadecimal values of a trigger state, from `j` on.
pub open spec fn state_value_notes(
    values: Seq<String>,
    here: Seq<char>,
    n: Seq<Note>,
    j: int,
) -> Seq<Note>
    decreases values.len() - j,
{
    if j < 0 || j >= values.len() {
        n
    } else {
        state_value_notes(
            values,
            here,
            warned(
                n,
                hex_bytes(values[j]@) is None,
                here + " has invalid hex value '"@ + values[j]@ + "'"@,
            ),
            j + 1,
        )
    }
}

/// The findings behind the trigger states from `i` on.
pub open spec fn trigger_state_notes(
    states: Seq<BleStateTrigger>,
    n: Seq<Note>,
    i: int,
) -> Seq<Note>
    decreases states.len() - i,
{
    if i < 0 || i >= states.len() {
        n
    } else {
        let here = transfer_ctx() + " trigger state "@ + decimal(i);
        trigger_state_notes(
            states,
            state_value_notes(
                states[i].baseline_values@,
                here,
                state_value_notes(
                    states[i].trigger_values@,
                    here,
                    warned(
                        n,
                        states[i].trigger_values@.len() == 0,
                        here + " declares no triggerValues"@,
                    ),
                    0,
                ),
                0,
            ),
            i + 1,
        )
    }
}

/// The findings behind the hexadecimal values of a transfer.
pub open spec fn transfer_hex_notes(t: CameraInitiatedTransfer, n: Seq<Note>) -> Seq<Note> {
    let states = trigger_state_notes(
        t.trigger.states@,
        warned(
            n,
            t.trigger.states@.len() == 0,
            transfer_ctx() + " declares no trigger states"@,
        ),
        0,
    );
    match t.handoff.function_launch {
        None => states,
        Some(launch) => warned(
            states,
            hex_bytes(launch.value@) is None,
            transfer_ctx() + " functionLaunch has invalid hex value '"@ + launch.value@ + "'"@,
        ),
    }
}

/// Notes each hexadecimal value of a trigger state that is none.
fn check_state_values(values: &Vec<String>, here: &str, lints: &mut Vec<Lint>)
    ensures
        noted(final(lints)@) == state_value_notes(values@, here@, noted(old(lints)@), 0),
{
    let mut j: usize = 0;
    while j < values.len()
        invariant
            j <= values.len(),
            state_value_notes(values@, here@, noted(old(lints)@), 0) == state_value_notes(
                values@,
                here@,
                noted(lints@),
                j as int,
            ),
        decreases values.len() - j,
    {
        if parse_hex_bytes(values[j].as_str()).is_none() {
            warn(lints, join4(here, " has invalid hex value '", values[j].as_str(), "'"));
        }
        j = j + 1;
    }
}

/// Notes what is wrong with the hexadecimal values of a transfer.
fn validate_transfer_hex_values(transfer: &CameraInitiatedTransfer, lints: &mut Vec<Lint>)
    ensures
        noted(final(lints)@) == transfer_hex_notes(*transfer, noted(old(lints)@)),
{
    let ctx = "cameraInitiatedTransfer";
    let states = &transfer.trigger.states;
    if states.len() == 0 {
        warn(lints, join2(ctx, " declares no trigger states"));
    }
    let ghost start = noted(lints@);
    let mut i: usize = 0;
    while i < states.len()
        invariant
            ctx@ == transfer_ctx(),
            i <= states.len(),
            trigger_state_notes(states@, start, 0) == trigger_state_notes(
                states@,
                noted(lints@),
                i as int,
            ),
        decreases states.len() - i,
    {
        let here = join3(ctx, " trigger state ", u64_text(i as u64).as_str());
        let state = &states[i];
        if state.trigger_values.len() == 0 {
            warn(lints, join2(here.as_str(), " declares no triggerValues"));
        }
        check_state_values(&state.trigger_values, here.as_str(), lints);
        check_state_values(&state.baseline_values, here.as_str(), lints);
        i = i + 1;
    }
    if let Some(launch) = &transfer.handoff.function_launch {
        if parse_hex_bytes(launch.value.as_str()).is_none() {
            warn(
                lints,
                join4(ctx, " functionLaunch has invalid hex value '", launch.value.as_str(), "'"),
            );
        }
    }
}

/// Whether no metadata phase occurs twice.
pub open spec fn phases_distinct(v: Seq<CameraInitiatedMetadataPhase>) -> bool {
    forall|i: int, j: int| #![trigger v[i], v[j]] 0 <= i < j < v.len() ==> v[i] != v[j]
}

/// Whether no metadata phase occurs twice.
fn distinct_phases(v: &Vec<CameraInitiatedMetadataPhase>) -> (r: bool)
    ensures
        r == phases_distinct(v@),
{
    let mut i: usize = 0;
    while i < v.len()
        invariant
            i <= v.len(),
            forall|k: int, j: int| #![trigger v@[k], v@[j]] 0 <= k < j < i ==> v@[k] != v@[j],
        decreases v.len() - i,
    {
        let mut j: usize = 0;
        while j < i
            invariant
                j <= i < v.len(),
                forall|k: int| 0 <= k < j ==> #[trigger] v@[k] != v@[i as int],
            decreases i - j,
        {
            if v[j] == v[i] {
                return false;
            }
            j = j + 1;
        }
        i = i + 1;
    }
    true
}

/// Whether the record stream of a property has a member with this code.
pub open spec fn has_member(p: Property, code: Option<u16>) -> bool {
    code is Some && (p.payload matches Some(payload) && exists|i: int|
        0 <= i < payload.members@.len() && hex_code(
            member_code(#[trigger] payload.members@[i])@,
        ) == code)
}

/// Whether the record stream of a property has a member with this code.
fn contains_member(p: &Property, code: Option<u16>) -> (r: bool)
    ensures
        r == has_member(*p, code),
{
    let wanted = match code {
        None => {
            return false;
        },
        Some(wanted) => wanted,
    };
    let payload = match &p.payload {
        None => {
            return false;
        },
        Some(payload) => payload,
    };
    let mut i: usize = 0;
    while i < payload.members.len()
        invariant
            i <= payload.members.len(),
            code == Some(wanted),
            p.payload == Some(*payload),
            forall|j: int|
                0 <= j < i ==> hex_code(member_code(#[trigger] payload.members@[j])@) != code,
        decreases payload.members.len() - i,
    {
        if let Some(c) = parse_hex_code(payload.members[i].code().as_str()) {
            if c == wanted {
                return true;
            }
        }
        i = i + 1;
    }
    false
}

/// The property that a key names by its code.
pub open spec fn property_at(m: CameraManifest, key: Seq<char>) -> Option<Property> {
    match hex_code(key) {
        Some(code) => coded(m.properties, code),
        None => None,
    }
}

/// Whether a key names an operation by its code.
pub open spec fn operation_known(m: CameraManifest, key: Seq<char>) -> bool {
    hex_code(key) matches Some(code) && coded(m.operations, code) is Some
}

/// The property that a key names by its code.
fn find_property<'a>(m: &'a CameraManifest, key: &str) -> (r: Option<&'a Property>)
    ensures
        match r {
            Some(p) => property_at(*m, key@) == Some(*p),
            None => property_at(*m, key@) is None,
        },
{
    match parse_hex_code(key) {
        Some(code) => m.property(code),
        None => None,
    }
}

/// Whether a key names an operation by its code.
fn knows_operation(m: &CameraManifest, key: &str) -> (r: bool)
    ensures
        r == operation_known(*m, key@),
{
    match parse_hex_code(key) {
        Some(code) => m.operation(code).is_some(),
        None => false,
    }
}

/// The findings on where a transfer is received.
pub open spec fn handoff_notes(m: CameraManifest, t: CameraInitiatedTransfer, n: Seq<Note>) -> Seq<
    Note,
> {
    let ctx = transfer_ctx();
    let id = t.handoff.connection@;
    let mode = t.receive.mode@;
    let connection = m.connections.at(id);
    let known = warned(
        n,
        connection is None,
        ctx + " references unknown connection '"@ + id + "'"@,
    );
    let moded = if !m.modes.has(mode) {
        warned(known, true, ctx + " references unknown receive mode '"@ + mode + "'"@)
    } else {
        warned(
            known,
            connection matches Some(c) && !holds_text(c.modes@, mode),
            ctx + " receive mode '"@ + mode + "' is not available on connection '"@ + id + "'"@,
        )
    };
    warned(
        moded,
        !(connection matches Some(c) && (c.bindings matches Some(b) && role_binding(
            b,
            t.handoff.socket_role,
        ) is Some)),
        ctx + " socket role '"@ + role_text(t.handoff.socket_role)
            + "' is not bound on connection '"@ + id + "'"@,
    )
}

/// The findings on the metadata of a transfer.
pub open spec fn metadata_notes(t: CameraInitiatedTransfer, n: Seq<Note>) -> Seq<Note> {
    let ctx = transfer_ctx();
    warned(
        warned(
            warned(n, t.receive.head_index == 0, ctx + " headIndex must be non-zero"@),
            t.receive.metadata.phases@.len() == 0,
            ctx + " metadata must declare at least one phase"@,
        ),
        !phases_distinct(t.receive.metadata.phases@),
        ctx + " metadata phases must not contain duplicates"@,
    )
}

/// The findings on the properties and operations that a transfer names.
pub open spec fn transfer_reference_notes(
    m: CameraManifest,
    t: CameraInitiatedTransfer,
    n: Seq<Note>,
) -> Seq<Note> {
    let ctx = transfer_ctx();
    let property = t.receive.count.property@;
    let member = t.receive.count.member@;
    let counted = match property_at(m, property) {
        Some(p) => warned(
            n,
            !has_member(p, hex_code(member)),
            ctx + " count member '"@ + member + "' is absent from property '"@ + property
                + "' record stream"@,
        ),
        None => warned(
            n,
            true,
            ctx + " references unknown count property '"@ + property + "'"@,
        ),
    };
    let membered = warned(
        counted,
        property_at(m, member) is None,
        ctx + " references unknown count member property '"@ + member + "'"@,
    );
    let metadata = t.receive.metadata.operation@;
    let data = t.receive.data.operation@;
    let limit = t.receive.data.chunk_limit_property@;
    warned(
        warned(
            warned(
                membered,
                !operation_known(m, metadata),
                ctx + " references unknown metadata operation '"@ + metadata + "'"@,
            ),
            !operation_known(m, data),
            ctx + " references unknown data operation '"@ + data + "'"@,
        ),
        property_at(m, limit) is None,
        ctx + " references unknown chunk-limit property '"@ + limit + "'"@,
    )
}

/// The findings on the camera-initiated transfer.
pub open spec fn transfer_notes(m: CameraManifest, n: Seq<Note>) -> Seq<Note> {
    match m.camera_initiated_transfer {
        None => n,
        Some(t) => transfer_reference_notes(
            m,
            t,
            transfer_hex_notes(
                t,
                metadata_notes(
                    t,
                    handoff_notes(m, t, evidence_notes(m, t.evidence@, transfer_ctx(), n, 0)),
                ),
            ),
        ),
    }
}

/// Notes what is wrong with where a transfer is received.
fn check_handoff(m: &CameraManifest, t: &CameraInitiatedTransfer, lints: &mut Vec<Lint>)
    ensures
        noted(final(lints)@) == handoff_notes(*m, *t, noted(old(lints)@)),
{
    let ctx = "cameraInitiatedTransfer";
    let id = t.handoff.connection.as_str();
    let mode = t.receive.mode.as_str();
    let connection = m.connections.get(id);
    if connection.is_none() {
        warn(lints, join4(ctx, " references unknown connection '", id, "'"));
    }
    if !m.modes.contains_key(mode) {
        warn(lints, join4(ctx, " references unknown receive mode '", mode, "'"));
    } else {
        if let Some(c) = connection {
            if !contains_text(&c.modes, mode) {
                warn(
                    lints,
                    join6(
                        ctx,
                        " receive mode '",
                        mode,
                        "' is not available on connection '",
                        id,
                        "'",
                    ),
                );
            }
        }
    }
    let bound = match connection {
        None => false,
        Some(c) => match &c.bindings {
            None => false,
            Some(b) => b.port_for(t.handoff.socket_role).is_some(),
        },
    };
    if !bound {
        warn(
            lints,
            join6(
                ctx,
                " socket role '",
                role_name(t.handoff.socket_role),
                "' is not bound on connection '",
                id,
                "'",
            ),
        );
    }
}

/// Notes what is wrong with the metadata of a transfer.
fn check_metadata(t: &CameraInitiatedTransfer, lints: &mut Vec<Lint>)
    ensures
        noted(final(lints)@) == metadata_notes(*t, noted(old(lints)@)),
{
    let ctx = "cameraInitiatedTransfer";
    if t.receive.head_index == 0 {
        warn(lints, join2(ctx, " headIndex must be non-zero"));
    }
    if t.receive.metadata.phases.len() == 0 {
        warn(lints, join2(ctx, " metadata must declare at least one phase"));
    }
    if !distinct_phases(&t.receive.metadata.phases) {
        warn(lints, join2(ctx, " metadata phases must not contain duplicates"));
    }
}

/// Notes the properties and operations that a transfer names and the manifest does not have.
fn check_transfer_references(m: &CameraManifest, t: &CameraInitiatedTransfer, lints: &mut Vec<Lint>)
    ensures
        noted(final(lints)@) == transfer_reference_notes(*m, *t, noted(old(lints)@)),
{
    let ctx = "cameraInitiatedTransfer";
    let property = t.receive.count.property.as_str();
    let member = t.receive.count.member.as_str();
    match find_property(m, property) {
        Some(p) => {
            if !contains_member(p, parse_hex_code(member)) {
                warn(
                    lints,
                    join6(
                        ctx,
                        " count member '",
                        member,
                        "' is absent from property '",
                        property,
                        "' record stream",
                    ),
                );
            }
        },
        None => {
            warn(lints, join4(ctx, " references unknown count property '", property, "'"));
        },
    }
    if find_property(m, member).is_none() {
        warn(lints, join4(ctx, " references unknown count member property '", member, "'"));
    }
    let metadata = t.receive.metadata.operation.as_str();
    if !knows_operation(m, metadata) {
        warn(lints, join4(ctx, " references unknown metadata operation '", metadata, "'"));
    }
    let data = t.receive.data.operation.as_str();
    if !knows_operation(m, data) {
        warn(lints, join4(ctx, " references unknown data operation '", data, "'"));
    }
    let limit = t.receive.data.chunk_limit_property.as_str();
    if find_property(m, limit).is_none() {
        warn(lints, join4(ctx, " references unknown chunk-limit property '", limit, "'"));
    }
}

/// Notes what is wrong with the camera-initiated transfer.
fn check_transfer(m: &CameraManifest, lints: &mut Vec<Lint>)
    ensures
        noted(final(lints)@) == transfer_notes(*m, noted(old(lints)@)),
{
    if let Some(t) = &m.camera_initiated_transfer {
        check_evidence(m, &t.evidence, "cameraInitiatedTransfer", lints);
        check_handoff(m, t, lints);
        check_metadata(t, lints);
        validate_transfer_hex_values(t, lints);
        check_transfer_references(m, t, lints);
    }
}

/// The findings behind the operations from entry `i` on.
pub open spec fn operation_notes(m: CameraManifest, n: Seq<Note>, i: int) -> Seq<Note>
    decreases m.operations.entries().len() - i,
{
    let s = m.operations.entries();
    if i < 0 || i >= s.len() {
        n
    } else {
        let ctx = "operation "@ + s[i].0@;
        operation_notes(
            m,
            gate_requirement_notes(
                m,
                s[i].1.requires_gate,
                ctx,
                evidence_notes(m, s[i].1.evidence@, ctx, n, 0),
            ),
            i + 1,
        )
    }
}

/// The findings behind the sequence gates from entry `i` on.
pub open spec fn sequence_gate_notes(m: CameraManifest, n: Seq<Note>, i: int) -> Seq<Note>
    decreases m.sequence_gates.entries().len() - i,
{
    let s = m.sequence_gates.entries();
    if i < 0 || i >= s.len() {
        n
    } else {
        sequence_gate_notes(
            m,
            evidence_notes(m, s[i].1.evidence@, "sequenceGate "@ + s[i].0@, n, 0),
            i + 1,
        )
    }
}

/// The findings behind the sentinels from entry `i` on.
pub open spec fn sentinel_notes(m: CameraManifest, n: Seq<Note>, i: int) -> Seq<Note>
    decreases m.sentinels.entries().len() - i,
{
    let s = m.sentinels.entries();
    if i < 0 || i >= s.len() {
        n
    } else {
        let ctx = "sentinel "@ + s[i].0@;
        sentinel_notes(
            m,
            warned(
                evidence_notes(m, s[i].1.evidence@, ctx, n, 0),
                hex_bytes(s[i].1.bytes@) is None,
                ctx + " has invalid hex bytes; transport-close resolution will fail"@,
            ),
            i + 1,
        )
    }
}

/// The findings behind the record-stream members of a property from `j` on.
pub open spec fn member_notes(
    m: CameraManifest,
    members: Seq<RecordMember>,
    ctx: Seq<char>,
    n: Seq<Note>,
    j: int,
) -> Seq<Note>
    decreases members.len() - j,
{
    if j < 0 || j >= members.len() {
        n
    } else {
        let code = member_code(members[j])@;
        member_notes(
            m,
            members,
            ctx,
            warned(
                n,
                members[j] is Code && !m.properties.has(code),
                ctx + " payload member '"@ + code
                    + "' is not a defined property; use a detailed member encoding when the global type is unavailable"@,
            ),
            j + 1,
        )
    }
}

/// The findings behind the properties from entry `i` on.
pub open spec fn property_notes(m: CameraManifest, n: Seq<Note>, i: int) -> Seq<Note>
    decreases m.properties.entries().len() - i,
{
    let s = m.properties.entries();
    if i < 0 || i >= s.len() {
        n
    } else {
        let ctx = "property "@ + s[i].0@;
        let p = s[i].1;
        let gated = gate_requirement_notes(
            m,
            p.requires_gate,
            ctx,
            evidence_notes(m, p.evidence@, ctx, n, 0),
        );
        property_notes(
            m,
            match p.payload {
                Some(payload) => member_notes(m, payload.members@, ctx, gated, 0),
                None => gated,
            },
            i + 1,
        )
    }
}

/// The findings behind the workflows from entry `i` on.
pub open spec fn workflow_notes(m: CameraManifest, n: Seq<Note>, i: int) -> Seq<Note>
    decreases m.workflows.entries().len() - i,
{
    let s = m.workflows.entries();
    if i < 0 || i >= s.len() {
        n
    } else {
        workflow_notes(
            m,
            evidence_notes(m, s[i].1.evidence@, "workflow "@ + s[i].0@, n, 0),
            i + 1,
        )
    }
}

/// The findings behind the mode entries of a connection from `j` on.
pub open spec fn entry_notes(
    m: CameraManifest,
    c: Connection,
    id: Seq<char>,
    n: Seq<Note>,
    j: int,
) -> Seq<Note>
    decreases c.entries@.len() - j,
{
    if j < 0 || j >= c.entries@.len() {
        n
    } else {
        let ctx = "connection "@ + id + " entry "@ + decimal(j);
        entry_notes(
            m,
            c,
            id,
            match c.entries@[j].execution {
                ModeEntryExecution::Ptp { steps } => gate_step_notes(
                    m,
                    steps@,
                    ctx,
                    Seq::empty(),
                    n,
                    0,
                ),
                ModeEntryExecution::ReestablishConnection(r) => gate_step_notes(
                    m,
                    r.exit_steps@,
                    ctx + " exit"@,
                    Seq::empty(),
                    n,
                    0,
                ),
                ModeEntryExecution::UserInstruction { .. } => n,
            },
            j + 1,
        )
    }
}

/// The findings behind the actions of a connection from entry `j` on.
pub open spec fn action_notes(
    m: CameraManifest,
    c: Connection,
    id: Seq<char>,
    n: Seq<Note>,
    j: int,
) -> Seq<Note>
    decreases c.actions.entries().len() - j,
{
    let s = c.actions.entries();
    if j < 0 || j >= s.len() {
        n
    } else {
        action_notes(
            m,
            c,
            id,
            match s[j].1.initiator {
                Some(initiator) => gate_step_notes(
                    m,
                    initiator.steps@,
                    "connection "@ + id + " action "@ + verb_label(s[j].0),
                    Seq::empty(),
                    n,
                    0,
                ),
                None => n,
            },
            j + 1,
        )
    }
}

/// The findings behind a connection.
pub open spec fn connection_notes(
    m: CameraManifest,
    c: Connection,
    id: Seq<char>,
    n: Seq<Note>,
) -> Seq<Note> {
    let init = match c.init {
        Some(init) => evidence_notes(
            m,
            init.evidence@,
            "connection "@ + id + " init"@,
            n,
            0,
        ),
        None => n,
    };
    let close = match c.transport_close {
        Some(tc) => warned(
            init,
            !m.sentinels.has(tc.sentinel@),
            "connection "@ + id + " transportClose references sentinel '"@ + tc.sentinel@
                + "' which is not defined in this manifest"@,
        ),
        None => init,
    };
    action_notes(m, c, id, entry_notes(m, c, id, close, 0), 0)
}

/// The findings behind the connections from entry `i` on.
pub open spec fn connections_notes(m: CameraManifest, n: Seq<Note>, i: int) -> Seq<Note>
    decreases m.connections.entries().len() - i,
{
    let s = m.connections.entries();
    if i < 0 || i >= s.len() {
        n
    } else {
        connections_notes(m, connection_notes(m, s[i].1, s[i].0@, n), i + 1)
    }
}

/// The findings on a manifest.
pub open spec fn manifest_notes(m: CameraManifest) -> Seq<Note> {
    connections_notes(
        m,
        workflow_notes(
            m,
            property_notes(
                m,
                sentinel_notes(
                    m,
                    sequence_gate_notes(
                        m,
                        operation_notes(m, transfer_notes(m, Seq::empty()), 0),
                        0,
                    ),
                    0,
                ),
                0,
            ),
            0,
        ),
        0,
    )
}

/// Notes what is wrong with the operations.
fn check_operations(m: &CameraManifest, lints: &mut Vec<Lint>)
    ensures
        noted(final(lints)@) == operation_notes(*m, noted(old(lints)@), 0),
{
    let mut i: usize = 0;
    while i < m.operations.len()
        invariant
            i <= m.operations.entries().len(),
            operation_notes(*m, noted(old(lints)@), 0) == operation_notes(
                *m,
                noted(lints@),
                i as int,
            ),
        decreases m.operations.entries().len() - i,
    {
        let ctx = join2("operation ", m.operations.key_at(i).as_str());
        let op = m.operations.value_at(i);
        check_evidence(m, &op.evidence, ctx.as_str(), lints);
        check_gate_requirement(m, &op.requires_gate, ctx.as_str(), lints);
        i = i + 1;
    }
}

/// Notes what is wrong with the sequence gates.
fn check_sequence_gates(m: &CameraManifest, lints: &mut Vec<Lint>)
    ensures
        noted(final(lints)@) == sequence_gate_notes(*m, noted(old(lints)@), 0),
{
    let mut i: usize = 0;
    while i < m.sequence_gates.len()
        invariant
            i <= m.sequence_gates.entries().len(),
            sequence_gate_notes(*m, noted(old(lints)@), 0) == sequence_gate_notes(
                *m,
                noted(lints@),
                i as int,
            ),
        decreases m.sequence_gates.entries().len() - i,
    {
        let ctx = join2("sequenceGate ", m.sequence_gates.key_at(i).as_str());
        check_evidence(m, &m.sequence_gates.value_at(i).evidence, ctx.as_str(), lints);
        i = i + 1;
    }
}

/// Notes what is wrong with the sentinels.
fn check_sentinels(m: &CameraManifest, lints: &mut Vec<Lint>)
    ensures
        noted(final(lints)@) == sentinel_notes(*m, noted(old(lints)@), 0),
{
    let mut i: usize = 0;
    while i < m.sentinels.len()
        invariant
            i <= m.sentinels.entries().len(),
            sentinel_notes(*m, noted(old(lints)@), 0) == sentinel_notes(
                *m,
                noted(lints@),
                i as int,
            ),
        decreases m.sentinels.entries().len() - i,
    {
        let ctx = join2("sentinel ", m.sentinels.key_at(i).as_str());
        let sentinel = m.sentinels.value_at(i);
        check_evidence(m, &sentinel.evidence, ctx.as_str(), lints);
        if parse_hex_bytes(sentinel.bytes.as_str()).is_none() {
            warn(
                lints,
                join2(
                    ctx.as_str(),
                    " has invalid hex bytes; transport-close resolution will fail",
                ),
            );
        }
        i = i + 1;
    }
}

/// Notes the record-stream members that are no defined property.
fn check_members(
    m: &CameraManifest,
    members: &Vec<RecordMember>,
    ctx: &str,
    lints: &mut Vec<Lint>,
)
    ensures
        noted(final(lints)@) == member_notes(*m, members@, ctx@, noted(old(lints)@), 0),
{
    let mut j: usize = 0;
    while j < members.len()
        invariant
            j <= members.len(),
            member_notes(*m, members@, ctx@, noted(old(lints)@), 0) == member_notes(
                *m,
                members@,
                ctx@,
                noted(lints@),
                j as int,
            ),
        decreases members.len() - j,
    {
        if let RecordMember::Code(code) = &members[j] {
            if !m.properties.contains_key(code.as_str()) {
                warn(
                    lints,
                    join4(
                        ctx,
                        " payload member '",
                        code.as_str(),
                        "' is not a defined property; use a detailed member encoding when the global type is unavailable",
                    ),
                );
            }
        }
        j = j + 1;
    }
}

/// Notes what is wrong with the properties.
fn check_properties(m: &CameraManifest, lints: &mut Vec<Lint>)
    ensures
        noted(final(lints)@) == property_notes(*m, noted(old(lints)@), 0),
{
    let mut i: usize = 0;
    while i < m.properties.len()
        invariant
            i <= m.properties.entries().len(),
            property_notes(*m, noted(old(lints)@), 0) == property_notes(
                *m,
                noted(lints@),
                i as int,
            ),
        decreases m.properties.entries().len() - i,
    {
        let ctx = join2("property ", m.properties.key_at(i).as_str());
        let p = m.properties.value_at(i);
        check_evidence(m, &p.evidence, ctx.as_str(), lints);
        check_gate_requirement(m, &p.requires_gate, ctx.as_str(), lints);
        if let Some(payload) = &p.payload {
            check_members(m, &payload.members, ctx.as_str(), lints);
        }
        i = i + 1;
    }
}

/// Notes what is wrong with the workflows.
fn check_workflows(m: &CameraManifest, lints: &mut Vec<Lint>)
    ensures
        noted(final(lints)@) == workflow_notes(*m, noted(old(lints)@), 0),
{
    let mut i: usize = 0;
    while i < m.workflows.len()
        invariant
            i <= m.workflows.entries().len(),
            workflow_notes(*m, noted(old(lints)@), 0) == workflow_notes(
                *m,
                noted(lints@),
                i as int,
            ),
        decreases m.workflows.entries().len() - i,
    {
        let ctx = join2("workflow ", m.workflows.key_at(i).as_str());
        check_evidence(m, &m.workflows.value_at(i).evidence, ctx.as_str(), lints);
        i = i + 1;
    }
}

/// Notes what is wrong with the gates of the mode entries of a connection.
fn check_entries(m: &CameraManifest, c: &Connection, id: &str, lints: &mut Vec<Lint>)
    ensures
        noted(final(lints)@) == entry_notes(*m, *c, id@, noted(old(lints)@), 0),
{
    let mut j: usize = 0;
    while j < c.entries.len()
        invariant
            j <= c.entries.len(),
            entry_notes(*m, *c, id@, noted(old(lints)@), 0) == entry_notes(
                *m,
                *c,
                id@,
                noted(lints@),
                j as int,
            ),
        decreases c.entries.len() - j,
    {
        let ctx = join4("connection ", id, " entry ", u64_text(j as u64).as_str());
        match &c.entries[j].execution {
            ModeEntryExecution::Ptp { steps } => {
                check_gate_steps(m, steps, ctx.as_str(), lints);
            },
            ModeEntryExecution::ReestablishConnection(r) => {
                check_gate_steps(m, &r.exit_steps, join2(ctx.as_str(), " exit").as_str(), lints);
            },
            ModeEntryExecution::UserInstruction { .. } => {},
        }
        j = j + 1;
    }
}

/// Notes what is wrong with the gates of the actions of a connection.
fn check_actions(m: &CameraManifest, c: &Connection, id: &str, lints: &mut Vec<Lint>)
    ensures
        noted(final(lints)@) == action_notes(*m, *c, id@, noted(old(lints)@), 0),
{
    let mut j: usize = 0;
    while j < c.actions.len()
        invariant
            j <= c.actions.entries().len(),
            action_notes(*m, *c, id@, noted(old(lints)@), 0) == action_notes(
                *m,
                *c,
                id@,
                noted(lints@),
                j as int,
            ),
        decreases c.actions.entries().len() - j,
    {
        if let Some(initiator) = &c.actions.value_at(j).initiator {
            let ctx = join4("connection ", id, " action ", verb_name(c.actions.key_at(j)));
            check_gate_steps(m, &initiator.steps, ctx.as_str(), lints);
        }
        j = j + 1;
    }
}

/// Notes what is wrong with a connection.
fn check_connection(m: &CameraManifest, c: &Connection, id: &str, lints: &mut Vec<Lint>)
    ensures
        noted(final(lints)@) == connection_notes(*m, *c, id@, noted(old(lints)@)),
{
    if let Some(init) = &c.init {
        check_evidence(m, &init.evidence, join3("connection ", id, " init").as_str(), lints);
    }
    if let Some(tc) = &c.transport_close {
        if !m.sentinels.contains_key(tc.sentinel.as_str()) {
            warn(
                lints,
                join5(
                    "connection ",
                    id,
                    " transportClose references sentinel '",
                    tc.sentinel.as_str(),
                    "' which is not defined in this manifest",
                ),
            );
        }
    }
    check_entries(m, c, id, lints);
    check_actions(m, c, id, lints);
}

impl CameraManifest {
    /// The lints on the manifest. None of them stops a load.
    pub fn validate(&self) -> (r: Vec<Lint>)
        ensures
            noted(r@) == manifest_notes(*self),
    {
        let mut lints: Vec<Lint> = Vec::new();
        proof {
            assert(noted(lints@) == Seq::<Note>::empty());
        }
        check_transfer(self, &mut lints);
        check_operations(self, &mut lints);
        check_sequence_gates(self, &mut lints);
        check_sentinels(self, &mut lints);
        check_properties(self, &mut lints);
        check_workflows(self, &mut lints);
        let ghost start = noted(lints@);
        let mut i: usize = 0;
        while i < self.connections.len()
            invariant
                i <= self.connections.entries().len(),
                connections_notes(*self, start, 0) == connections_notes(
                    *self,
                    noted(lints@),
                    i as int,
                ),
            decreases self.connections.entries().len() - i,
        {
            check_connection(
                self,
                self.connections.value_at(i),
                self.connections.key_at(i).as_str(),
                &mut lints,
            );
            i = i + 1;
        }
        lints
    }
}

} // verus!
