//! What the rules on connections, operations and properties accept.

use crate::model::{
    binding_condition, binding_port, hex_code, hex_u32, member_code, member_encoding, role_binding,
    widths_of, Action, CameraManifest, Connection, ConnectionTransition, ControlReadSource,
    ControlRole, ControlSurfaceEntry, ObjectTransferFormatSupport, ObjectTransferResumePolicy,
    ObjectTransferStrategy, Operation, OperationHandler, Payload, PcssDiscoveryTarget, PcssKnock,
    Property, RecordMember, RecordValueEncoding, RecordValueLiteral, SocketBindings, SocketRole,
    WireFraming,
};
use crate::query::coded;
use crate::text::{holds_text, trimmed};
use crate::validate::connections::{
    binding_violation, control_surfaces_violation, edge_before, formats_violation,
    init_retries_violation, init_shape_violation, knock_violation, mode_surfaces_violation,
    object_transfer_violation, socket_bindings_violation, surface_violation, takes_handle,
    takes_window, transition_violation, transitions_violation,
};
use crate::validate::properties::{
    descriptor_violation, handler_violation, key_violation, member_before, member_value_violation,
    members_violation, payload_violation, structured_text_violation,
};
use vstd::prelude::*;

verus! {

/// Whether a text is there and holds more than white space.
pub open spec fn filled(o: Option<String>) -> bool {
    o is Some && trimmed(o->0@).len() > 0
}

/// Whether an optional text is a given one.
pub open spec fn reads(o: Option<String>, s: Seq<char>) -> bool {
    o is Some && o->0@ == s
}

/// A connection that opens as the PTP/IP standard has it names who it is, and nothing of the
/// vendor's own shapes, and frames both of its channels by the standard.
pub proof fn standard_connections_follow_the_standard(c: Connection, id: Seq<char>)
    requires
        reads(c.init_shape, "standardPtpIp"@),
    ensures
        init_shape_violation(c, id) is None <==> {
            &&& c.init is Some
            &&& trimmed(c.init->0.identity.guid@).len() > 0
            &&& trimmed(c.init->0.identity.friendly_name@).len() > 0
            &&& c.init->0.identity.client_ipv4 is None
            &&& c.init->0.expected_responder_guid is None
            &&& c.init->0.name_field_byte_count == 0
            &&& c.command_framing == Some(WireFraming::Standard)
            &&& c.event_framing == Some(WireFraming::Standard)
            &&& c.bindings is Some && c.bindings->0.event is Some
        },
{
}

/// A connection that opens in the shape of the app names who it is, if anyone, in 54 bytes.
pub proof fn app_connections_name_themselves(c: Connection, id: Seq<char>)
    requires
        reads(c.init_shape, "app82"@),
    ensures
        init_shape_violation(c, id) is None <==> c.init is None || {
            &&& trimmed(c.init->0.identity.guid@).len() > 0
            &&& trimmed(c.init->0.identity.friendly_name@).len() > 0
            &&& c.init->0.identity.client_ipv4 is None
            &&& c.init->0.expected_responder_guid is None
            &&& c.init->0.name_field_byte_count == 54
        },
{
    reveal_strlit("app82");
    reveal_strlit("standardPtpIp");
    assert("app82"@.len() != "standardPtpIp"@.len());
}

/// A connection that opens in the older shape of the app names who it is, where from, and whom it
/// expects, in 54 bytes, and frames its commands as over USB.
pub proof fn legacy_connections_name_both_sides(c: Connection, id: Seq<char>)
    requires
        reads(c.init_shape, "legacyApp82"@),
    ensures
        init_shape_violation(c, id) is None <==> {
            &&& c.init is Some
            &&& trimmed(c.init->0.identity.guid@).len() > 0
            &&& trimmed(c.init->0.identity.friendly_name@).len() > 0
            &&& filled(c.init->0.identity.client_ipv4)
            &&& filled(c.init->0.expected_responder_guid)
            &&& c.init->0.name_field_byte_count == 54
            &&& c.command_framing == Some(WireFraming::Usb)
        },
{
    reveal_strlit("app82");
    reveal_strlit("standardPtpIp");
    reveal_strlit("legacyApp82");
    assert("app82"@.len() != "legacyApp82"@.len());
    assert("standardPtpIp"@.len() != "legacyApp82"@.len());
}

/// Other shapes are left alone.
pub proof fn other_shapes_are_free(c: Connection, id: Seq<char>)
    requires
        !reads(c.init_shape, "standardPtpIp"@),
        !reads(c.init_shape, "app82"@),
        !reads(c.init_shape, "legacyApp82"@),
    ensures
        init_shape_violation(c, id) is None,
{
}

/// A socket becomes available later only if it is not the command socket, nor on its port, and only
/// after an operation that the manifest declares and the connection can run.
pub proof fn only_auxiliary_sockets_wait(
    m: CameraManifest,
    b: SocketBindings,
    id: Seq<char>,
    role: SocketRole,
)
    ensures
        binding_violation(m, b, id, role) is None <==> match role_binding(b, role) {
            None => true,
            Some(binding) => match binding_condition(binding) {
                None => true,
                Some(a) => {
                    &&& role == SocketRole::Event || role == SocketRole::LiveView
                    &&& binding_port(binding) != binding_port(b.command)
                    &&& hex_code(a.operation@) is Some
                    &&& coded(m.operations, hex_code(a.operation@)->0) is Some
                    &&& ({
                        let on = coded(m.operations, hex_code(a.operation@)->0)->0.connections@;
                        on.len() == 0 || exists|i: int| 0 <= i < on.len() && #[trigger] on[i]@ == id
                    })
                },
            },
        },
{
}

/// All three sockets of a connection keep that rule.
pub proof fn every_socket_is_checked(m: CameraManifest, c: Connection, id: Seq<char>)
    ensures
        socket_bindings_violation(m, c, id) is None <==> c.bindings is None || (binding_violation(
            m,
            c.bindings->0,
            id,
            SocketRole::Command,
        ) is None && binding_violation(m, c.bindings->0, id, SocketRole::Event) is None
            && binding_violation(m, c.bindings->0, id, SocketRole::LiveView) is None),
{
}

/// What holds of an edge that establishes another connection.
pub open spec fn edge_kept(m: CameraManifest, edges: Seq<ConnectionTransition>, i: int) -> bool {
    let t = edges[i];
    let target = m.connections.at(t.to@);
    &&& target is Some
    &&& t.mechanism is Some || t.user_instruction is Some
    &&& t.mechanism is Some ==> reads(target->0.establishment, t.mechanism->0@)
    &&& t.mechanism is None ==> t.params.entries().len() == 0
    &&& t.mode is Some ==> exists|k: int|
        0 <= k < target->0.modes@.len() && #[trigger] target->0.modes@[k]@ == t.mode->0@
    &&& forall|k: int|
        0 <= k < t.params.entries().len() ==> trimmed((#[trigger] t.params.entries()[k]).0@).len()
            > 0
    &&& forall|j: int|
        0 <= j < i ==> (#[trigger] edges[j]).to@ != t.to@ || !(edges[j].mode is None && t.mode
            is None || edges[j].mode is Some && t.mode is Some && edges[j].mode->0@ == t.mode->0@)
}

/// An edge to another connection names one that is declared, says how it is established, by the
/// mechanism of that connection or by the user, and names a mode that it has; no two edges have one
/// target and one mode.
pub proof fn edges_lead_to_connections(
    m: CameraManifest,
    edges: Seq<ConnectionTransition>,
    id: Seq<char>,
    i: int,
)
    requires
        0 <= i < edges.len(),
    ensures
        transition_violation(m, edges, id, i) is None <==> edge_kept(m, edges, i),
{
    let t = edges[i];
    let s = t.params.entries();
    if transition_violation(m, edges, id, i) is None {
        assert forall|k: int| 0 <= k < s.len() implies trimmed((#[trigger] s[k]).0@).len() > 0 by {
        }
        assert forall|j: int| 0 <= j < i implies (#[trigger] edges[j]).to@ != t.to@ || !(
        edges[j].mode is None && t.mode is None || edges[j].mode is Some && t.mode is Some
            && edges[j].mode->0@ == t.mode->0@) by {
            assert(!edge_before(edges, i));
        }
        if t.mode is Some {
            let v = m.connections.at(t.to@)->0.modes@;
            assert(holds_text(v, t.mode->0@));
        }
    }
    if edge_kept(m, edges, i) {
        assert(!edge_before(edges, i));
        if t.mode is Some {
            let v = m.connections.at(t.to@)->0.modes@;
            assert(holds_text(v, t.mode->0@));
        }
    }
}

/// All edges are checked.
pub proof fn every_edge_is_checked(
    m: CameraManifest,
    edges: Seq<ConnectionTransition>,
    id: Seq<char>,
    i: int,
)
    requires
        0 <= i,
    ensures
        transitions_violation(m, edges, id, i) is None <==> forall|k: int|
            i <= k < edges.len() ==> (#[trigger] transition_violation(m, edges, id, k)) is None,
    decreases edges.len() - i,
{
    if i < edges.len() {
        every_edge_is_checked(m, edges, id, i + 1);
        assert(transition_violation(m, edges, id, i) is None ==> true);
    }
}

/// An init is retried for reasons that are 32-bit codes, each once, with a pause between; where it
/// is not retried neither is declared.
pub proof fn retries_are_declared_whole(c: Connection, id: Seq<char>)
    ensures
        init_retries_violation(c, id) is None <==> c.init_retries is None || ({
            let r = c.init_retries->0;
            &&& r.max == 0 ==> r.backoff_ms == 0 && r.when_reasons@.len() == 0
            &&& r.max != 0 ==> r.backoff_ms != 0 && r.when_reasons@.len() > 0
            &&& forall|i: int|
                0 <= i < r.when_reasons@.len() ==> hex_u32((#[trigger] r.when_reasons@[i])@) is Some
            &&& forall|i: int, j: int|
                #![trigger r.when_reasons@[i], r.when_reasons@[j]]
                0 <= i < j < r.when_reasons@.len() ==> hex_u32(r.when_reasons@[i]@) != hex_u32(
                    r.when_reasons@[j]@,
                )
        }),
{
}

/// A discovery knock has ports, a protocol, times and attempts, and targets, each once, the default
/// among them. To retry what it discovered it must know both of the targets that this takes.
pub proof fn knocks_are_declared_whole(k: PcssKnock, path: Seq<char>)
    ensures
        knock_violation(k, path) is None <==> {
            let t = k.discovery_targets;
            &&& k.callback_port != 0 && k.knock_port != 0
            &&& trimmed(k.protocol@).len() > 0
            &&& k.retry_interval_ms != 0 && k.max_attempts != 0 && k.connect_timeout_ms != 0
            &&& t.supported@.contains(t.default)
            &&& forall|i: int, j: int|
                #![trigger t.supported@[i], t.supported@[j]]
                0 <= i < j < t.supported@.len() ==> t.supported@[i] != t.supported@[j]
            &&& t.retry_discovered_unicast ==> t.supported@.contains(
                PcssDiscoveryTarget::SubnetBroadcast,
            ) && t.supported@.contains(PcssDiscoveryTarget::ExplicitUnicast)
        },
{
    let v = k.discovery_targets.supported@;
    assert forall|t: PcssDiscoveryTarget| #[trigger]
        v.contains(t) == crate::validate::connections::has_target(v, t) by {
        if v.contains(t) {
            let i = v.index_of(t);
            assert(v[i] == t);
        }
    }
    if knock_violation(k, path) is None {
        assert(v.contains(k.discovery_targets.default));
        if k.discovery_targets.retry_discovered_unicast {
            assert(v.contains(PcssDiscoveryTarget::SubnetBroadcast));
            assert(v.contains(PcssDiscoveryTarget::ExplicitUnicast));
        }
    }
}

/// Whether the initiator of an action takes parameters of these names, in this order.
pub open spec fn takes(a: Action, names: Seq<Seq<char>>) -> bool {
    a.initiator is Some && a.initiator->0.params@.len() == names.len() && forall|k: int|
        0 <= k < names.len() ==> crate::model::declared(
            #[trigger] a.initiator->0.params@[k],
        ).name@ == names[k]
}

/// Whether an action can be taken in a mode of the connection.
pub open spec fn mode_there(c: Connection, mode: Seq<char>) -> bool {
    mode.len() == 0 || exists|i: int| 0 <= i < c.modes@.len() && #[trigger] c.modes@[i]@ == mode
}

/// An object is read whole, by its handle and from the start each time, or in windows; by an action
/// that the connection has, in a mode that it has. What completes the transfer is an action of the
/// same mode that takes the handle. Every format that is declared is one of the media.
pub proof fn objects_are_read_by_actions(m: CameraManifest, c: Connection, id: Seq<char>)
    ensures
        object_transfer_violation(m, c, id) is None <==> c.object_transfer is None || ({
            let t = c.object_transfer->0;
            let read = c.actions.at(t.read_action);
            &&& read is Some
            &&& mode_there(c, read->0.mode@)
            &&& t.strategy == ObjectTransferStrategy::WholeObject ==> takes(
                read->0,
                seq!["handle"@],
            ) && t.resume_policy == ObjectTransferResumePolicy::RestartFromZero
            &&& t.strategy != ObjectTransferStrategy::WholeObject ==> takes(
                read->0,
                seq!["handle"@, "offset"@, "length"@],
            ) && t.resume_policy != ObjectTransferResumePolicy::RestartFromZero
            &&& t.completion is Some ==> {
                let done = c.actions.at(t.completion->0.action);
                &&& done is Some
                &&& takes(done->0, seq!["handle"@])
                &&& done->0.mode@ == read->0.mode@
            }
            &&& t.formats.entries().len() > 0
            &&& forall|k: int|
                0 <= k < t.formats.entries().len() ==> format_kept(
                    m,
                    (#[trigger] t.formats.entries()[k]).0@,
                )
        }),
{
    if c.object_transfer is Some {
        let t = c.object_transfer->0;
        let path = "connections."@ + id + ".objectTransfer"@;
        formats_checked(m, t.formats.entries(), path, 0);
        if let Some(read) = c.actions.at(t.read_action) {
            taken_by_name(read);
            mode_held(c, read.mode@);
        }
        if let Some(completion) = t.completion {
            if let Some(done) = c.actions.at(completion.action) {
                taken_by_name(done);
                mode_held(c, done.mode@);
            }
        }
    }
}

/// Whether a format is a code, and one of the media of the manifest.
pub open spec fn format_kept(m: CameraManifest, code: Seq<char>) -> bool {
    hex_code(code) is Some && m.media is Some && m.media->0.formats.has(code)
}

/// All formats are checked.
proof fn formats_checked(
    m: CameraManifest,
    s: Seq<(String, ObjectTransferFormatSupport)>,
    path: Seq<char>,
    i: int,
)
    requires
        0 <= i,
    ensures
        formats_violation(m, s, path, i) is None <==> forall|k: int|
            i <= k < s.len() ==> format_kept(m, (#[trigger] s[k]).0@),
    decreases s.len() - i,
{
    if i < s.len() {
        formats_checked(m, s, path, i + 1);
        assert(format_kept(m, s[i].0@) ==> true);
    }
}

/// What an action takes, name by name.
proof fn taken_by_name(a: Action)
    ensures
        takes_handle(a) <==> takes(a, seq!["handle"@]),
        takes_window(a) <==> takes(a, seq!["handle"@, "offset"@, "length"@]),
{
    if a.initiator is Some {
        let p = a.initiator->0.params@;
        let w = seq!["handle"@, "offset"@, "length"@];
        if takes(a, seq!["handle"@]) {
            assert(crate::model::declared(p[0]).name@ == seq!["handle"@][0]);
        }
        if takes(a, w) {
            assert(crate::model::declared(p[0]).name@ == w[0]);
            assert(crate::model::declared(p[1]).name@ == w[1]);
            assert(crate::model::declared(p[2]).name@ == w[2]);
        }
    }
}

/// A mode that is not missing is there.
proof fn mode_held(c: Connection, mode: Seq<char>)
    ensures
        mode_there(c, mode) <==> !crate::validate::connections::mode_missing(c, mode),
{
    if mode_there(c, mode) && mode.len() > 0 {
        assert(holds_text(c.modes@, mode));
    }
}

/// A control surface shows a declared property that has a control for the connection or, without
/// one, for the mode; to read it back by declaration the control must declare how.
pub proof fn surfaces_show_controls(
    m: CameraManifest,
    id: Seq<char>,
    mode: Seq<char>,
    role: ControlRole,
    surface: ControlSurfaceEntry,
    path: Seq<char>,
)
    ensures
        surface_violation(m, id, mode, role, surface, path) is None <==> {
            let p = m.properties.at(surface.property@);
            &&& hex_code(surface.property@) is Some
            &&& p is Some
            &&& p->0.controls.has(id) ==> p->0.controls.at(id) is Some && (surface.read_source
                == ControlReadSource::DeclaredReadback ==> p->0.controls.at(id)->0.readback is Some)
            &&& !p->0.controls.has(id) ==> p->0.controls.at(mode) is Some && (surface.read_source
                == ControlReadSource::DeclaredReadback ==> p->0.controls.at(mode)->0.readback
                is Some)
        },
{
}

/// All surfaces of a mode are checked.
pub proof fn every_surface_is_checked(
    m: CameraManifest,
    id: Seq<char>,
    mode: Seq<char>,
    s: Seq<(ControlRole, ControlSurfaceEntry)>,
    path: Seq<char>,
    i: int,
)
    requires
        0 <= i,
    ensures
        mode_surfaces_violation(m, id, mode, s, path, i) is None <==> forall|k: int|
            i <= k < s.len() ==> surface_violation(
                m,
                id,
                mode,
                (#[trigger] s[k]).0,
                s[k].1,
                path,
            ) is None,
    decreases s.len() - i,
{
    if i < s.len() {
        every_surface_is_checked(m, id, mode, s, path, i + 1);
        assert(surface_violation(m, id, mode, s[i].0, s[i].1, path) is None ==> true);
    }
}

/// The surfaces of every mode are checked, and the mode is one of the connection.
pub proof fn surfaces_of_every_mode_are_checked(
    m: CameraManifest,
    c: Connection,
    id: Seq<char>,
    i: int,
)
    requires
        0 <= i,
    ensures
        control_surfaces_violation(m, c, id, i) is None <==> forall|k: int|
            i <= k < c.control_surfaces.entries().len() ==> mode_kept(
                m,
                c,
                id,
                #[trigger] c.control_surfaces.entries()[k],
            ),
    decreases c.control_surfaces.entries().len() - i,
{
    let s = c.control_surfaces.entries();
    if i < s.len() {
        surfaces_of_every_mode_are_checked(m, c, id, i + 1);
        assert(mode_kept(m, c, id, s[i]) ==> true);
        let mode = s[i].0@;
        mode_held(c, mode);
    }
}

/// Whether the surfaces of a mode keep their rules.
pub open spec fn mode_kept(
    m: CameraManifest,
    c: Connection,
    id: Seq<char>,
    e: (String, crate::rank_map::RankMap<ControlRole, ControlSurfaceEntry>),
) -> bool {
    let path = "connections."@ + id + ".controlSurfaces."@ + e.0@;
    &&& exists|i: int| 0 <= i < c.modes@.len() && #[trigger] c.modes@[i]@ == e.0@
    &&& mode_surfaces_violation(m, id, e.0@, e.1.entries(), path, 0) is None
}

/// The handler of an operation has what it works on: a step of a property its code, the size of an
/// object its block, which no other operation has.
pub proof fn handlers_have_what_they_work_on(op: Operation, code: Seq<char>)
    ensures
        handler_violation(op, code) is None <==> {
            &&& op.handler == Some(OperationHandler::PropertyStep) ==> op.property is Some
                && hex_code(op.property->0@) is Some
            &&& op.handler == Some(OperationHandler::ObjectSize) ==> op.object_size is Some
            &&& op.handler is None ==> op.object_size is None
        },
{
}

/// The values of a property are texts where its type is one, and integers where it is not or where
/// they bound a range.
pub proof fn values_are_of_the_type(p: Property, code: Seq<char>)
    ensures
        descriptor_violation(p, code) is None <==> {
            let text = reads(p.ptype, "str"@);
            &&& p.initial_value is Some ==> (text <==> p.initial_value->0 is Str)
            &&& p.descriptor is Some ==> forall|k: int|
                0 <= k < p.descriptor->0.values@.len() ==> ((#[trigger] p.descriptor->0.values@[k])
                    is Str <==> text) && (p.descriptor->0.form@ == "range"@
                    ==> p.descriptor->0.values@[k] is Int)
        },
{
    if p.descriptor is Some {
        let v = p.descriptor->0.values@;
        let text = reads(p.ptype, "str"@);
        if descriptor_violation(p, code) is None {
            assert forall|k: int| 0 <= k < v.len() implies ((#[trigger] v[k]) is Str <==> text) && (
            p.descriptor->0.form@ == "range"@ ==> v[k] is Int) by {
            }
        }
    }
}

/// A layout of a text has a delimiter and fields with names, each once; only texts have one.
pub proof fn layouts_name_their_fields(p: Property, code: Seq<char>)
    ensures
        structured_text_violation(p, code) is None <==> p.structured_text is None || ({
            let l = p.structured_text->0;
            &&& reads(p.ptype, "str"@)
            &&& l.delimiter@.len() > 0
            &&& l.fields@.len() > 0
            &&& forall|i: int|
                0 <= i < l.fields@.len() ==> trimmed((#[trigger] l.fields@[i]).name@).len() > 0
            &&& forall|i: int, j: int|
                #![trigger l.fields@[i], l.fields@[j]]
                0 <= i < j < l.fields@.len() ==> l.fields@[i].name@ != l.fields@[j].name@
        }),
{
}

/// The value that stands in for a member of a record fits its encoding: a number its width, with or
/// without a sign, a text a text, which may be missing only where the property is one.
pub proof fn stand_ins_fit_their_encoding(
    m: CameraManifest,
    member: RecordMember,
    code: u16,
    default_width: u8,
    here: Seq<char>,
)
    ensures
        member_value_violation(m, member, code, default_width, here) is None <==> {
            let value = match member {
                RecordMember::Detailed(d) => d.simulator_value,
                RecordMember::Code(_) => None,
            };
            match member_encoding(member, default_width) {
                RecordValueEncoding::Fixed { width } => {
                    &&& width == 1 || width == 2 || width == 4
                    &&& value is Some ==> value->0 is Unsigned
                    &&& value is Some && width == 1 ==> value->0->Unsigned_0 < 0x100
                    &&& value is Some && width == 2 ==> value->0->Unsigned_0 < 0x1_0000
                },
                RecordValueEncoding::Signed { width } => {
                    &&& width == 1 || width == 2 || width == 4
                    &&& match value {
                        None => true,
                        Some(RecordValueLiteral::String(_)) => false,
                        Some(RecordValueLiteral::Unsigned(v)) => (width == 1 ==> v < 0x80) && (width
                            == 2 ==> v < 0x8000) && (width == 4 ==> v < 0x8000_0000),
                        Some(RecordValueLiteral::Signed(v)) => (width == 1 ==> -0x80 <= v < 0x80)
                            && (width == 2 ==> -0x8000 <= v < 0x8000) && (width == 4
                            ==> -0x8000_0000 <= v < 0x8000_0000),
                    }
                },
                RecordValueEncoding::PtpString => {
                    &&& value is Some ==> value->0 is String
                    &&& value is None ==> coded(m.properties, code) is Some && reads(
                        coded(m.properties, code)->0.ptype,
                        "str"@,
                    )
                },
            }
        },
{
}

/// Whether a member of a record keeps its rules.
pub open spec fn member_kept(m: CameraManifest, payload: Payload, i: int) -> bool {
    let member = payload.members@[i];
    let code = hex_code(member_code(member)@);
    &&& code is Some
    &&& widths_of(payload).1 == 1 ==> code->0 <= 0xff
    &&& forall|j: int|
        0 <= j < i ==> hex_code(member_code(#[trigger] payload.members@[j])@) != code
}

/// The members of a record have codes, each once, that fit the width of a code, and a value that
/// fits its encoding.
pub proof fn members_have_codes_of_their_own(
    m: CameraManifest,
    payload: Payload,
    path: Seq<char>,
    i: int,
    k: int,
)
    requires
        0 <= i <= k < payload.members@.len(),
        members_violation(m, payload, path, i) is None,
    ensures
        member_kept(m, payload, k),
        exists|here: Seq<char>|
            (#[trigger] member_value_violation(
                m,
                payload.members@[k],
                hex_code(member_code(payload.members@[k])@)->0,
                widths_of(payload).2,
                here,
            )) is None,
    decreases k - i,
{
    if i < k {
        members_have_codes_of_their_own(m, payload, path, i + 1, k);
    } else {
        let code = hex_code(member_code(payload.members@[i])@)->0;
        assert(!member_before(payload.members@, code, i));
        let here = crate::validate::indexed(path, ".members["@, i);
        assert(member_value_violation(
            m,
            payload.members@[k],
            code,
            widths_of(payload).2,
            here,
        ) is None);
    }
}

/// A record counts, codes and holds values in fields of one, two or four bytes, a code in one or two.
pub proof fn records_have_proper_widths(m: CameraManifest, p: Property, code: Seq<char>)
    requires
        p.payload is Some,
        payload_violation(m, p, code) is None,
    ensures
        ({
            let (c, k, v) = widths_of(p.payload->0);
            &&& c == 1 || c == 2 || c == 4
            &&& k == 1 || k == 2
            &&& v == 1 || v == 2 || v == 4
            &&& members_violation(m, p.payload->0, "properties."@ + code + ".payload"@, 0) is None
        }),
{
}

/// Every key of the map writes a code.
pub proof fn keys_write_codes<V>(
    s: Seq<(String, V)>,
    before: Seq<char>,
    after: Seq<char>,
    i: int,
)
    requires
        0 <= i,
    ensures
        key_violation(s, before, after, i) is None <==> forall|k: int|
            i <= k < s.len() ==> hex_code((#[trigger] s[k]).0@) is Some,
    decreases s.len() - i,
{
    if i < s.len() {
        keys_write_codes(s, before, after, i + 1);
        assert(hex_code(s[i].0@) is Some ==> true);
    }
}

} // verus!
