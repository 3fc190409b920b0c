//! Rules on connections.

use crate::error::ManifestError;
use crate::model::{
    binding_condition, binding_port, declared, hex_code, hex_u32, parse_hex_code, parse_hex_u32,
    role_binding, Action, CameraManifest, Connection, ConnectionTransition, ControlReadSource,
    ControlRole, ControlSurfaceEntry, InitIdentity, ObjectTransferContract,
    ObjectTransferFormatSupport, ObjectTransferResumePolicy, ObjectTransferStrategy,
    PcssDiscoveryTarget, PcssKnock, SocketBindings, SocketRole, WireFraming,
};
use crate::name_map::NameMap;
use crate::query::{coded, covers_connection};
use crate::rank_map::RankMap;
use crate::text::{
    contains_text, debug_option, holds_text, join2, join3, join4, join5, join6, join7, option_debug,
    same, trimmed,
};
use crate::validate::properties::{is_text, option_is};
use crate::validate::steps::{blank, bound_port};
use crate::validate::{first, index_path, indexed, reports};
use vstd::prelude::*;

verus! {

/// Whether the value references for the identity are filled.
pub open spec fn identity_filled(i: InitIdentity) -> bool {
    trimmed(i.guid@).len() > 0 && trimmed(i.friendly_name@).len() > 0
}

/// Whether an optional text is filled.
pub open spec fn option_filled(o: Option<String>) -> bool {
    o matches Some(t) && trimmed(t@).len() > 0
}

/// Whether an optional text is filled.
fn filled(o: &Option<String>) -> (r: bool)
    ensures
        r == option_filled(*o),
{
    match o {
        Some(t) => !blank(t.as_str()),
        None => false,
    }
}

/// The violation of the rules on the `standardPtpIp` init shape.
pub open spec fn standard_init_violation(c: Connection, id: Seq<char>) -> Option<Seq<char>> {
    let path = "connections."@ + id + ".init"@;
    match c.init {
        None => Some(path + " is required for initShape standardPtpIp"@),
        Some(init) => if !identity_filled(init.identity) {
            Some(
                path
                    + ".identity requires non-empty guid and friendlyName value references"@,
            )
        } else if init.identity.client_ipv4 is Some || init.expected_responder_guid is Some {
            Some(path + " standardPtpIp does not use clientIpv4 or expectedResponderGuid"@)
        } else if init.name_field_byte_count != 0 {
            Some(
                path + ".nameFieldByteCount must be omitted for initShape standardPtpIp"@,
            )
        } else if c.command_framing != Some(WireFraming::Standard) {
            Some(
                "connections."@ + id
                    + ".commandFraming must be standard for initShape standardPtpIp"@,
            )
        } else if !bound_port(c.bindings, SocketRole::Event) {
            Some(
                "connections."@ + id
                    + ".bindings.event is required for initShape standardPtpIp"@,
            )
        } else if c.event_framing != Some(WireFraming::Standard) {
            Some(
                "connections."@ + id
                    + ".eventFraming must be standard for initShape standardPtpIp"@,
            )
        } else {
            None
        },
    }
}

/// The violation of the rules on the `app82` init shape.
pub open spec fn app_init_violation(c: Connection, id: Seq<char>) -> Option<Seq<char>> {
    let path = "connections."@ + id + ".init"@;
    match c.init {
        None => None,
        Some(init) => if !identity_filled(init.identity) {
            Some(
                path
                    + ".identity requires non-empty guid and friendlyName value references"@,
            )
        } else if init.identity.client_ipv4 is Some || init.expected_responder_guid is Some {
            Some(path + " app82 does not use clientIpv4 or expectedResponderGuid"@)
        } else if init.name_field_byte_count != 54 {
            Some(path + ".nameFieldByteCount must be 54 for initShape app82"@)
        } else {
            None
        },
    }
}

/// The violation of the rules on the `legacyApp82` init shape.
pub open spec fn legacy_init_violation(c: Connection, id: Seq<char>) -> Option<Seq<char>> {
    let path = "connections."@ + id + ".init"@;
    match c.init {
        None => Some(path + " is required for initShape legacyApp82"@),
        Some(init) => if !identity_filled(init.identity) {
            Some(
                path
                    + ".identity requires non-empty guid and friendlyName value references"@,
            )
        } else if !option_filled(init.identity.client_ipv4) {
            Some(path + ".identity.clientIpv4 is required for initShape legacyApp82"@)
        } else if init.name_field_byte_count != 54 {
            Some(path + ".nameFieldByteCount must be 54 for initShape legacyApp82"@)
        } else if !option_filled(init.expected_responder_guid) {
            Some(path + ".expectedResponderGuid is required for initShape legacyApp82"@)
        } else if c.command_framing != Some(WireFraming::Usb) {
            Some(
                "connections."@ + id
                    + ".commandFraming must be usb for initShape legacyApp82"@,
            )
        } else {
            None
        },
    }
}

/// The violation of the rules on the init shape of a connection.
pub open spec fn init_shape_violation(c: Connection, id: Seq<char>) -> Option<Seq<char>> {
    if is_text(c.init_shape, "standardPtpIp"@) {
        standard_init_violation(c, id)
    } else if is_text(c.init_shape, "app82"@) {
        app_init_violation(c, id)
    } else if is_text(c.init_shape, "legacyApp82"@) {
        legacy_init_violation(c, id)
    } else {
        None
    }
}

/// Whether a framing is declared, and is `f`.
fn framing_is(declared_framing: Option<WireFraming>, f: WireFraming) -> (r: bool)
    ensures
        r == (declared_framing == Some(f)),
{
    match declared_framing {
        Some(x) => x == f,
        None => false,
    }
}

/// Checks the `standardPtpIp` init shape.
fn require_valid_standard_init(connection: &Connection, connection_id: &str) -> (r: Result<
    (),
    ManifestError,
>)
    ensures
        reports(r, standard_init_violation(*connection, connection_id@)),
{
    let path = join3("connections.", connection_id, ".init");
    let init = match &connection.init {
        None => {
            return Err(
                ManifestError::Contract(
                    join2(path.as_str(), " is required for initShape standardPtpIp"),
                ),
            );
        },
        Some(init) => init,
    };
    if blank(init.identity.guid.as_str()) || blank(init.identity.friendly_name.as_str()) {
        return Err(
            ManifestError::Contract(
                join2(path.as_str(), ".identity requires non-empty guid and friendlyName value references"),
            ),
        );
    }
    if init.identity.client_ipv4.is_some() || init.expected_responder_guid.is_some() {
        return Err(
            ManifestError::Contract(
                join2(path.as_str(), " standardPtpIp does not use clientIpv4 or expectedResponderGuid"),
            ),
        );
    }
    if init.name_field_byte_count != 0 {
        return Err(
            ManifestError::Contract(
                join2(path.as_str(), ".nameFieldByteCount must be omitted for initShape standardPtpIp"),
            ),
        );
    }
    if !framing_is(connection.command_framing, WireFraming::Standard) {
        return Err(
            ManifestError::Contract(
                join3("connections.", connection_id, ".commandFraming must be standard for initShape standardPtpIp"),
            ),
        );
    }
    let bound = match &connection.bindings {
        None => false,
        Some(b) => b.port_for(SocketRole::Event).is_some(),
    };
    if !bound {
        return Err(
            ManifestError::Contract(
                join3("connections.", connection_id, ".bindings.event is required for initShape standardPtpIp"),
            ),
        );
    }
    if !framing_is(connection.event_framing, WireFraming::Standard) {
        return Err(
            ManifestError::Contract(
                join3("connections.", connection_id, ".eventFraming must be standard for initShape standardPtpIp"),
            ),
        );
    }
    Ok(())
}

/// Checks the `app82` init shape.
fn require_valid_app_init(connection: &Connection, connection_id: &str) -> (r: Result<
    (),
    ManifestError,
>)
    ensures
        reports(r, app_init_violation(*connection, connection_id@)),
{
    let init = match &connection.init {
        None => {
            return Ok(());
        },
        Some(init) => init,
    };
    let path = join3("connections.", connection_id, ".init");
    if blank(init.identity.guid.as_str()) || blank(init.identity.friendly_name.as_str()) {
        return Err(
            ManifestError::Contract(
                join2(path.as_str(), ".identity requires non-empty guid and friendlyName value references"),
            ),
        );
    }
    if init.identity.client_ipv4.is_some() || init.expected_responder_guid.is_some() {
        return Err(
            ManifestError::Contract(
                join2(path.as_str(), " app82 does not use clientIpv4 or expectedResponderGuid"),
            ),
        );
    }
    if init.name_field_byte_count != 54 {
        return Err(
            ManifestError::Contract(
                join2(path.as_str(), ".nameFieldByteCount must be 54 for initShape app82"),
            ),
        );
    }
    Ok(())
}

/// Checks the `legacyApp82` init shape.
fn require_valid_legacy_init(connection: &Connection, connection_id: &str) -> (r: Result<
    (),
    ManifestError,
>)
    ensures
        reports(r, legacy_init_violation(*connection, connection_id@)),
{
    let path = join3("connections.", connection_id, ".init");
    let init = match &connection.init {
        None => {
            return Err(
                ManifestError::Contract(
                    join2(path.as_str(), " is required for initShape legacyApp82"),
                ),
            );
        },
        Some(init) => init,
    };
    if blank(init.identity.guid.as_str()) || blank(init.identity.friendly_name.as_str()) {
        return Err(
            ManifestError::Contract(
                join2(path.as_str(), ".identity requires non-empty guid and friendlyName value references"),
            ),
        );
    }
    if !filled(&init.identity.client_ipv4) {
        return Err(
            ManifestError::Contract(
                join2(path.as_str(), ".identity.clientIpv4 is required for initShape legacyApp82"),
            ),
        );
    }
    if init.name_field_byte_count != 54 {
        return Err(
            ManifestError::Contract(
                join2(path.as_str(), ".nameFieldByteCount must be 54 for initShape legacyApp82"),
            ),
        );
    }
    if !filled(&init.expected_responder_guid) {
        return Err(
            ManifestError::Contract(
                join2(path.as_str(), ".expectedResponderGuid is required for initShape legacyApp82"),
            ),
        );
    }
    if !framing_is(connection.command_framing, WireFraming::Usb) {
        return Err(
            ManifestError::Contract(
                join3("connections.", connection_id, ".commandFraming must be usb for initShape legacyApp82"),
            ),
        );
    }
    Ok(())
}

/// Checks the init shape of a connection.
pub(crate) fn require_valid_init_shape(connection: &Connection, connection_id: &str) -> (r: Result<
    (),
    ManifestError,
>)
    ensures
        reports(r, init_shape_violation(*connection, connection_id@)),
{
    if option_is(&connection.init_shape, "standardPtpIp") {
        require_valid_standard_init(connection, connection_id)
    } else if option_is(&connection.init_shape, "app82") {
        require_valid_app_init(connection, connection_id)
    } else if option_is(&connection.init_shape, "legacyApp82") {
        require_valid_legacy_init(connection, connection_id)
    } else {
        Ok(())
    }
}

/// The field name of a socket role.
pub open spec fn role_field(role: SocketRole) -> Seq<char> {
    match role {
        SocketRole::Command => "command"@,
        SocketRole::Event => "event"@,
        SocketRole::LiveView => "liveView"@,
    }
}

/// The violation of the rules on the availability condition of one socket role: only an auxiliary
/// listener of its own port waits, and on an operation that the connection can run.
pub open spec fn binding_violation(
    m: CameraManifest,
    b: SocketBindings,
    id: Seq<char>,
    role: SocketRole,
) -> Option<Seq<char>> {
    match role_binding(b, role) {
        None => None,
        Some(binding) => match binding_condition(binding) {
            None => None,
            Some(condition) => {
                let operation = condition.operation@;
                let path = "connections."@ + id + ".bindings."@ + role_field(role)
                    + ".availableAfter.operation"@;
                if role == SocketRole::Command {
                    Some(path + " is valid only for event or live-view bindings"@)
                } else if binding_port(binding) == binding_port(b.command) {
                    Some(path + " cannot gate a listener shared with the command binding"@)
                } else {
                    match hex_code(operation) {
                        None => Some(path + " has invalid operation code '"@ + operation + "'"@),
                        Some(code) => match coded(m.operations, code) {
                            None => Some(
                                path + " references operation '"@ + operation
                                    + "' which is not defined in this manifest"@,
                            ),
                            Some(op) => if !covers_connection(op.connections@, id) {
                                Some(
                                    path + " references operation '"@ + operation
                                        + "' which is unavailable on connection '"@ + id + "'"@,
                                )
                            } else {
                                None
                            },
                        },
                    }
                }
            },
        },
    }
}

/// The violation of the rules on the socket bindings of a connection.
pub open spec fn socket_bindings_violation(m: CameraManifest, c: Connection, id: Seq<char>) -> Option<
    Seq<char>,
> {
    match c.bindings {
        None => None,
        Some(b) => first(
            binding_violation(m, b, id, SocketRole::Command),
            first(
                binding_violation(m, b, id, SocketRole::Event),
                binding_violation(m, b, id, SocketRole::LiveView),
            ),
        ),
    }
}

/// Checks the availability condition of one socket role.
fn require_valid_binding(
    manifest: &CameraManifest,
    bindings: &SocketBindings,
    connection_id: &str,
    role: SocketRole,
) -> (r: Result<(), ManifestError>)
    ensures
        reports(r, binding_violation(*manifest, *bindings, connection_id@, role)),
{
    let binding = match bindings.binding_for(role) {
        None => {
            return Ok(());
        },
        Some(b) => b,
    };
    let operation = match binding.available_after() {
        None => {
            return Ok(());
        },
        Some(a) => a.operation.as_str(),
    };
    let field = match role {
        SocketRole::Command => "command",
        SocketRole::Event => "event",
        SocketRole::LiveView => "liveView",
    };
    let path = join5(
        "connections.",
        connection_id,
        ".bindings.",
        field,
        ".availableAfter.operation",
    );
    if role == SocketRole::Command {
        return Err(
            ManifestError::Contract(
                join2(path.as_str(), " is valid only for event or live-view bindings"),
            ),
        );
    }
    if binding.port() == bindings.command.port() {
        return Err(
            ManifestError::Contract(
                join2(path.as_str(), " cannot gate a listener shared with the command binding"),
            ),
        );
    }
    let code = match parse_hex_code(operation) {
        None => {
            return Err(
                ManifestError::Contract(
                    join4(path.as_str(), " has invalid operation code '", operation, "'"),
                ),
            );
        },
        Some(code) => code,
    };
    let op = match manifest.operation(code) {
        None => {
            return Err(
                ManifestError::Contract(
                    join4(path.as_str(), " references operation '", operation, "' which is not defined in this manifest"),
                ),
            );
        },
        Some(op) => op,
    };
    if op.connections.len() != 0 && !contains_text(&op.connections, connection_id) {
        return Err(
            ManifestError::Contract(
                join6(path.as_str(), " references operation '", operation, "' which is unavailable on connection '", connection_id, "'"),
            ),
        );
    }
    Ok(())
}

/// Checks the socket bindings of a connection.
pub(crate) fn require_valid_socket_bindings(
    manifest: &CameraManifest,
    connection: &Connection,
    connection_id: &str,
) -> (r: Result<(), ManifestError>)
    ensures
        reports(r, socket_bindings_violation(*manifest, *connection, connection_id@)),
{
    match &connection.bindings {
        None => Ok(()),
        Some(b) => {
            match require_valid_binding(manifest, b, connection_id, SocketRole::Command) {
                Err(e) => {
                    return Err(e);
                },
                Ok(_) => {},
            }
            match require_valid_binding(manifest, b, connection_id, SocketRole::Event) {
                Err(e) => {
                    return Err(e);
                },
                Ok(_) => {},
            }
            require_valid_binding(manifest, b, connection_id, SocketRole::LiveView)
        },
    }
}

/// The text of an optional string.
pub open spec fn option_view(o: Option<String>) -> Option<Seq<char>> {
    match o {
        Some(s) => Some(s@),
        None => None,
    }
}

/// Whether two optional strings hold the same text, or none does.
pub(crate) fn same_option(a: &Option<String>, b: &Option<String>) -> (r: bool)
    ensures
        r == (option_view(*a) == option_view(*b)),
{
    match (a, b) {
        (Some(x), Some(y)) => same(x.as_str(), y.as_str()),
        (None, None) => true,
        _ => false,
    }
}

/// Whether an edge before `i` has the target and the mode of edge `i`.
pub open spec fn edge_before(edges: Seq<ConnectionTransition>, i: int) -> bool {
    exists|j: int|
        0 <= j < i && (#[trigger] edges[j]).to@ == edges[i].to@ && option_view(edges[j].mode)
            == option_view(edges[i].mode)
}

/// Whether a key of the map is blank.
pub open spec fn blank_key(s: Seq<(String, String)>) -> bool {
    exists|i: int| 0 <= i < s.len() && trimmed((#[trigger] s[i]).0@).len() == 0
}

/// The violation of the rules on the establishment edge `i` of a connection.
pub open spec fn transition_violation(
    m: CameraManifest,
    edges: Seq<ConnectionTransition>,
    id: Seq<char>,
    i: int,
) -> Option<Seq<char>> {
    let path = indexed("connections."@ + id, ".enables["@, i);
    let t = edges[i];
    match m.connections.at(t.to@) {
        None => Some(path + ".to references unknown connection '"@ + t.to@ + "'"@),
        Some(target) => if t.mechanism is None && t.user_instruction is None {
            Some(path + " requires mechanism or userInstruction"@)
        } else if t.params.entries().len() > 0 && t.mechanism is None {
            Some(path + ".params require a mechanism-backed establishment edge"@)
        } else if t.mechanism is Some && option_view(target.establishment) != option_view(
            t.mechanism,
        ) {
            Some(
                path + ".mechanism '"@ + t.mechanism->0@
                    + "' does not match target connection '"@ + t.to@ + "' establishment "@
                    + option_debug(target.establishment),
            )
        } else if t.mode is Some && !holds_text(target.modes@, t.mode->0@) {
            Some(
                path + ".mode '"@ + t.mode->0@ + "' is not declared by target connection '"@
                    + t.to@ + "'"@,
            )
        } else if blank_key(t.params.entries()) {
            Some(path + ".params keys must not be empty"@)
        } else if edge_before(edges, i) {
            Some(
                "connections."@ + id
                    + ".enables contains a duplicate target/mode edge to '"@ + t.to@ + "' ("@
                    + option_debug(t.mode) + ")"@,
            )
        } else {
            None
        },
    }
}

/// The violation of those rules by the edges from `i` on.
pub open spec fn transitions_violation(
    m: CameraManifest,
    edges: Seq<ConnectionTransition>,
    id: Seq<char>,
    i: int,
) -> Option<Seq<char>>
    decreases edges.len() - i,
{
    if i < 0 || i >= edges.len() {
        None
    } else {
        first(
            transition_violation(m, edges, id, i),
            transitions_violation(m, edges, id, i + 1),
        )
    }
}

/// Whether a key of the map is blank.
fn has_blank_key(m: &NameMap<String>) -> (r: bool)
    ensures
        r == blank_key(m.entries()),
{
    let mut i: usize = 0;
    while i < m.len()
        invariant
            i <= m.entries().len(),
            forall|j: int| 0 <= j < i ==> trimmed((#[trigger] m.entries()[j]).0@).len() > 0,
        decreases m.entries().len() - i,
    {
        if blank(m.key_at(i).as_str()) {
            return true;
        }
        i = i + 1;
    }
    false
}

/// Whether an edge before `i` has the target and the mode of edge `i`.
fn repeats_edge(edges: &Vec<ConnectionTransition>, i: usize) -> (r: bool)
    requires
        i < edges.len(),
    ensures
        r == edge_before(edges@, i as int),
{
    let mut j: usize = 0;
    while j < i
        invariant
            j <= i < edges.len(),
            forall|k: int|
                0 <= k < j ==> !((#[trigger] edges@[k]).to@ == edges@[i as int].to@ && option_view(
                    edges@[k].mode,
                ) == option_view(edges@[i as int].mode)),
        decreases i - j,
    {
        if same(edges[j].to.as_str(), edges[i].to.as_str()) && same_option(
            &edges[j].mode,
            &edges[i].mode,
        ) {
            return true;
        }
        j = j + 1;
    }
    false
}

/// Checks one establishment edge.
fn require_valid_transition(
    manifest: &CameraManifest,
    edges: &Vec<ConnectionTransition>,
    connection_id: &str,
    i: usize,
) -> (r: Result<(), ManifestError>)
    requires
        i < edges.len(),
    ensures
        reports(r, transition_violation(*manifest, edges@, connection_id@, i as int)),
{
    let base = join2("connections.", connection_id);
    let path = index_path(base.as_str(), ".enables[", i);
    let t = &edges[i];
    let to = t.to.as_str();
    let target = match manifest.connections.get(to) {
        None => {
            return Err(
                ManifestError::Contract(
                    join4(path.as_str(), ".to references unknown connection '", to, "'"),
                ),
            );
        },
        Some(c) => c,
    };
    if t.mechanism.is_none() && t.user_instruction.is_none() {
        return Err(
            ManifestError::Contract(
                join2(path.as_str(), " requires mechanism or userInstruction"),
            ),
        );
    }
    if !t.params.is_empty() && t.mechanism.is_none() {
        return Err(
            ManifestError::Contract(
                join2(path.as_str(), ".params require a mechanism-backed establishment edge"),
            ),
        );
    }
    if let Some(mechanism) = &t.mechanism {
        if !same_option(&target.establishment, &t.mechanism) {
            return Err(
                ManifestError::Contract(
                    join7(path.as_str(), ".mechanism '", mechanism.as_str(), "' does not match target connection '", to, "' establishment ", debug_option(&target.establishment).as_str()),
                ),
            );
        }
    }
    if let Some(mode) = &t.mode {
        if !contains_text(&target.modes, mode.as_str()) {
            return Err(
                ManifestError::Contract(
                    join6(path.as_str(), ".mode '", mode.as_str(), "' is not declared by target connection '", to, "'"),
                ),
            );
        }
    }
    if has_blank_key(&t.params) {
        return Err(
            ManifestError::Contract(
                join2(path.as_str(), ".params keys must not be empty"),
            ),
        );
    }
    if repeats_edge(edges, i) {
        return Err(
            ManifestError::Contract(
                join7("connections.", connection_id, ".enables contains a duplicate target/mode edge to '", to, "' (", debug_option(&t.mode).as_str(), ")"),
            ),
        );
    }
    Ok(())
}

/// Checks the establishment edges of a connection.
pub(crate) fn require_valid_connection_transitions(
    manifest: &CameraManifest,
    connection: &Connection,
    connection_id: &str,
) -> (r: Result<(), ManifestError>)
    ensures
        reports(r, transitions_violation(*manifest, connection.enables@, connection_id@, 0)),
{
    let mut i: usize = 0;
    while i < connection.enables.len()
        invariant
            i <= connection.enables.len(),
            transitions_violation(*manifest, connection.enables@, connection_id@, 0)
                == transitions_violation(
                *manifest,
                connection.enables@,
                connection_id@,
                i as int,
            ),
        decreases connection.enables.len() - i,
    {
        match require_valid_transition(manifest, &connection.enables, connection_id, i) {
            Err(e) => {
                return Err(e);
            },
            Ok(_) => {},
        }
        i = i + 1;
    }
    Ok(())
}

/// Whether every text of a row writes a 32-bit code.
pub open spec fn all_hex_u32(v: Seq<String>) -> bool {
    forall|i: int| 0 <= i < v.len() ==> hex_u32((#[trigger] v[i])@) is Some
}

/// Whether no two texts of a row write the same code.
pub open spec fn distinct_hex_u32(v: Seq<String>) -> bool {
    forall|i: int, j: int|
        #![trigger v[i], v[j]]
        0 <= i < j < v.len() ==> hex_u32(v[i]@) != hex_u32(v[j]@)
}

/// The violation of the rules on init retries: the reasons are distinct codes, and a retry is
/// fully declared or not at all.
pub open spec fn init_retries_violation(c: Connection, id: Seq<char>) -> Option<Seq<char>> {
    match c.init_retries {
        None => None,
        Some(retries) => {
            let path = "connections."@ + id + ".initRetries"@;
            let reasons = retries.when_reasons@;
            if !all_hex_u32(reasons) {
                Some(path + ".whenReasons entries must be 32-bit hexadecimal codes"@)
            } else if if retries.max == 0 {
                retries.backoff_ms != 0 || reasons.len() > 0
            } else {
                retries.backoff_ms == 0 || reasons.len() == 0
            } {
                Some(
                    path
                        + " requires non-empty whenReasons and non-zero backoffMs exactly when max is non-zero"@,
                )
            } else if !distinct_hex_u32(reasons) {
                Some(path + ".whenReasons must not contain duplicates"@)
            } else {
                None
            }
        },
    }
}

/// The codes that a row of texts writes, where every one writes one.
fn parse_reasons(v: &Vec<String>) -> (r: Option<Vec<u32>>)
    ensures
        match r {
            Some(codes) => all_hex_u32(v@) && codes.len() == v.len() && forall|i: int|
                0 <= i < v.len() ==> hex_u32((#[trigger] v@[i])@) == Some(codes@[i]),
            None => !all_hex_u32(v@),
        },
{
    let mut codes: Vec<u32> = Vec::new();
    let mut i: usize = 0;
    while i < v.len()
        invariant
            i <= v.len(),
            codes.len() == i,
            forall|j: int| 0 <= j < i ==> hex_u32((#[trigger] v@[j])@) == Some(codes@[j]),
        decreases v.len() - i,
    {
        match parse_hex_u32(v[i].as_str()) {
            None => {
                return None;
            },
            Some(c) => {
                codes.push(c);
            },
        }
        i = i + 1;
    }
    Some(codes)
}

/// Whether no code of a row occurs twice.
fn distinct_codes(v: &Vec<u32>) -> (r: bool)
    ensures
        r == forall|i: int, j: int| #![trigger v@[i], v@[j]] 0 <= i < j < v.len() ==> v@[i] != v@[j],
{
    let mut i: usize = 0;
    while i < v.len()
        invariant
            i <= v.len(),
            forall|k: int, j: int| #![trigger v@[k], v@[j]] 0 <= k < j < i ==> v@[k] != v@[j],
        decreases v.len() - i,
    {
        let mut j: usize = 0;
        while j < i
            invariant
                j <= i < v.len(),
                forall|k: int| 0 <= k < j ==> #[trigger] v@[k] != v@[i as int],
            decreases i - j,
        {
            if v[j] == v[i] {
                return false;
            }
            j = j + 1;
        }
        i = i + 1;
    }
    true
}

/// Checks the init retries of a connection.
fn require_valid_init_retries(connection: &Connection, connection_id: &str) -> (r: Result<
    (),
    ManifestError,
>)
    ensures
        reports(r, init_retries_violation(*connection, connection_id@)),
{
    let retries = match &connection.init_retries {
        None => {
            return Ok(());
        },
        Some(retries) => retries,
    };
    let path = join3("connections.", connection_id, ".initRetries");
    let codes = match parse_reasons(&retries.when_reasons) {
        None => {
            return Err(
                ManifestError::Contract(
                    join2(path.as_str(), ".whenReasons entries must be 32-bit hexadecimal codes"),
                ),
            );
        },
        Some(codes) => codes,
    };
    let incoherent = if retries.max == 0 {
        retries.backoff_ms != 0 || retries.when_reasons.len() > 0
    } else {
        retries.backoff_ms == 0 || retries.when_reasons.len() == 0
    };
    if incoherent {
        return Err(
            ManifestError::Contract(
                join2(path.as_str(), " requires non-empty whenReasons and non-zero backoffMs exactly when max is non-zero"),
            ),
        );
    }
    let distinct = distinct_codes(&codes);
    proof {
        let v = retries.when_reasons@;
        if distinct {
            assert forall|i: int, j: int|
                #![trigger v[i], v[j]]
                0 <= i < j < v.len() implies hex_u32(v[i]@) != hex_u32(v[j]@) by {
                assert(codes@[i] != codes@[j]);
            }
        } else {
            let (i, j) = choose|i: int, j: int|
                #![trigger codes@[i], codes@[j]]
                0 <= i < j < codes.len() && codes@[i] == codes@[j];
            assert(hex_u32(v[i]@) == hex_u32(v[j]@));
        }
    }
    if !distinct {
        return Err(
            ManifestError::Contract(
                join2(path.as_str(), ".whenReasons must not contain duplicates"),
            ),
        );
    }
    Ok(())
}

/// Whether a row of discovery targets holds `t`.
pub open spec fn has_target(v: Seq<PcssDiscoveryTarget>, t: PcssDiscoveryTarget) -> bool {
    exists|i: int| 0 <= i < v.len() && #[trigger] v[i] == t
}

/// Whether no discovery target occurs twice.
pub open spec fn distinct_targets(v: Seq<PcssDiscoveryTarget>) -> bool {
    forall|i: int, j: int| #![trigger v[i], v[j]] 0 <= i < j < v.len() ==> v[i] != v[j]
}

/// The violation of the rules on a discovery knock.
pub open spec fn knock_violation(k: PcssKnock, path: Seq<char>) -> Option<Seq<char>> {
    let t = k.discovery_targets;
    if k.callback_port == 0 || k.knock_port == 0 {
        Some(path + " callbackPort and knockPort must be non-zero"@)
    } else if trimmed(k.protocol@).len() == 0 {
        Some(path + ".protocol must not be empty"@)
    } else if k.retry_interval_ms == 0 || k.max_attempts == 0 || k.connect_timeout_ms == 0 {
        Some(
            path
                + " retryIntervalMs, maxAttempts, and connectTimeoutMs must be non-zero"@,
        )
    } else if t.supported@.len() == 0 {
        Some(path + ".discoveryTargets.supported must not be empty"@)
    } else if !has_target(t.supported@, t.default) {
        Some(path + ".discoveryTargets.default must be listed in supported"@)
    } else if !distinct_targets(t.supported@) {
        Some(path + ".discoveryTargets.supported must not contain duplicates"@)
    } else if t.retry_discovered_unicast && (!has_target(
        t.supported@,
        PcssDiscoveryTarget::SubnetBroadcast,
    ) || !has_target(t.supported@, PcssDiscoveryTarget::ExplicitUnicast)) {
        Some(
            path
                + ".discoveryTargets.retryDiscoveredUnicast requires subnetBroadcast and explicitUnicast support"@,
        )
    } else {
        None
    }
}

/// The violation of the rules on the rendezvous of a connection.
pub open spec fn rendezvous_violation(c: Connection, id: Seq<char>) -> Option<Seq<char>> {
    first(
        init_retries_violation(c, id),
        match c.knock {
            None => None,
            Some(k) => knock_violation(k, "connections."@ + id + ".knock"@),
        },
    )
}

/// Whether a row of discovery targets holds `t`.
fn contains_target(v: &Vec<PcssDiscoveryTarget>, t: PcssDiscoveryTarget) -> (r: bool)
    ensures
        r == has_target(v@, t),
{
    let mut i: usize = 0;
    while i < v.len()
        invariant
            i <= v.len(),
            forall|j: int| 0 <= j < i ==> #[trigger] v@[j] != t,
        decreases v.len() - i,
    {
        if v[i] == t {
            return true;
        }
        i = i + 1;
    }
    false
}

/// Whether no discovery target occurs twice.
fn targets_distinct(v: &Vec<PcssDiscoveryTarget>) -> (r: bool)
    ensures
        r == distinct_targets(v@),
{
    let mut i: usize = 0;
    while i < v.len()
        invariant
            i <= v.len(),
            forall|k: int, j: int| #![trigger v@[k], v@[j]] 0 <= k < j < i ==> v@[k] != v@[j],
        decreases v.len() - i,
    {
        let mut j: usize = 0;
        while j < i
            invariant
                j <= i < v.len(),
                forall|k: int| 0 <= k < j ==> #[trigger] v@[k] != v@[i as int],
            decreases i - j,
        {
            if v[j] == v[i] {
                return false;
            }
            j = j + 1;
        }
        i = i + 1;
    }
    true
}

/// Checks the rendezvous of a connection.
pub(crate) fn require_valid_pcss_rendezvous(connection: &Connection, connection_id: &str) -> (r:
    Result<(), ManifestError>)
    ensures
        reports(r, rendezvous_violation(*connection, connection_id@)),
{
    match require_valid_init_retries(connection, connection_id) {
        Err(e) => {
            return Err(e);
        },
        Ok(_) => {},
    }
    let knock = match &connection.knock {
        None => {
            return Ok(());
        },
        Some(knock) => knock,
    };
    let path = join3("connections.", connection_id, ".knock");
    if knock.callback_port == 0 || knock.knock_port == 0 {
        return Err(
            ManifestError::Contract(
                join2(path.as_str(), " callbackPort and knockPort must be non-zero"),
            ),
        );
    }
    if blank(knock.protocol.as_str()) {
        return Err(
            ManifestError::Contract(
                join2(path.as_str(), ".protocol must not be empty"),
            ),
        );
    }
    if knock.retry_interval_ms == 0 || knock.max_attempts == 0 || knock.connect_timeout_ms == 0 {
        return Err(
            ManifestError::Contract(
                join2(path.as_str(), " retryIntervalMs, maxAttempts, and connectTimeoutMs must be non-zero"),
            ),
        );
    }
    let targets = &knock.discovery_targets;
    if targets.supported.len() == 0 {
        return Err(
            ManifestError::Contract(
                join2(path.as_str(), ".discoveryTargets.supported must not be empty"),
            ),
        );
    }
    if !contains_target(&targets.supported, targets.default) {
        return Err(
            ManifestError::Contract(
                join2(path.as_str(), ".discoveryTargets.default must be listed in supported"),
            ),
        );
    }
    if !targets_distinct(&targets.supported) {
        return Err(
            ManifestError::Contract(
                join2(path.as_str(), ".discoveryTargets.supported must not contain duplicates"),
            ),
        );
    }
    if targets.retry_discovered_unicast && (!contains_target(
        &targets.supported,
        PcssDiscoveryTarget::SubnetBroadcast,
    ) || !contains_target(&targets.supported, PcssDiscoveryTarget::ExplicitUnicast)) {
        return Err(
            ManifestError::Contract(
                join2(path.as_str(), ".discoveryTargets.retryDiscoveredUnicast requires subnetBroadcast and explicitUnicast support"),
            ),
        );
    }
    Ok(())
}

/// Whether the initiator of an action takes exactly the parameter `handle`.
pub open spec fn takes_handle(a: Action) -> bool {
    a.initiator matches Some(i) && i.params@.len() == 1 && declared(i.params@[0]).name@
        == "handle"@
}

/// Whether the initiator of an action takes exactly `handle`, `offset` and `length`.
pub open spec fn takes_window(a: Action) -> bool {
    a.initiator matches Some(i) && i.params@.len() == 3 && declared(i.params@[0]).name@
        == "handle"@ && declared(i.params@[1]).name@ == "offset"@ && declared(i.params@[2]).name@
        == "length"@
}

/// Whether a mode is named and the connection does not have it.
pub open spec fn mode_missing(c: Connection, mode: Seq<char>) -> bool {
    mode.len() > 0 && !holds_text(c.modes@, mode)
}

/// The violation of the rules on the completion of an object transfer.
pub open spec fn completion_violation(
    c: Connection,
    contract: ObjectTransferContract,
    read: Action,
    path: Seq<char>,
) -> Option<Seq<char>> {
    match contract.completion {
        None => None,
        Some(completion) => match c.actions.at(completion.action) {
            None => Some(
                path + ".completion.action references a missing connection action"@,
            ),
            Some(action) => if !takes_handle(action) {
                Some(path + ".completion.action must accept exactly [handle]"@)
            } else if action.mode@ != read.mode@ {
                Some(
                    path + ".completion.action mode '"@ + action.mode@
                        + "' does not match readAction mode '"@ + read.mode@ + "'"@,
                )
            } else if mode_missing(c, action.mode@) {
                Some(
                    path + ".completion.action mode '"@ + action.mode@
                        + "' is unavailable on this connection"@,
                )
            } else {
                None
            },
        },
    }
}

/// Whether the manifest declares a media format under the key `code`.
pub open spec fn media_format_known(m: CameraManifest, code: Seq<char>) -> bool {
    m.media matches Some(media) && media.formats.has(code)
}

/// The violation of the rules on the formats of an object transfer, from entry `i` on.
pub open spec fn formats_violation(
    m: CameraManifest,
    s: Seq<(String, ObjectTransferFormatSupport)>,
    path: Seq<char>,
    i: int,
) -> Option<Seq<char>>
    decreases s.len() - i,
{
    if i < 0 || i >= s.len() {
        None
    } else if hex_code(s[i].0@) is None {
        Some(path + ".formats contains invalid object-format code '"@ + s[i].0@ + "'"@)
    } else if !media_format_known(m, s[i].0@) {
        Some(path + ".formats references unknown media format '"@ + s[i].0@ + "'"@)
    } else {
        formats_violation(m, s, path, i + 1)
    }
}

/// The violation of the rules on the object-transfer policy of a connection.
pub open spec fn object_transfer_violation(m: CameraManifest, c: Connection, id: Seq<char>) -> Option<
    Seq<char>,
> {
    match c.object_transfer {
        None => None,
        Some(contract) => {
            let path = "connections."@ + id + ".objectTransfer"@;
            let whole = contract.strategy == ObjectTransferStrategy::WholeObject;
            match c.actions.at(contract.read_action) {
                None => Some(path + ".readAction references a missing connection action"@),
                Some(read) => if mode_missing(c, read.mode@) {
                    Some(
                        path + ".readAction mode '"@ + read.mode@
                            + "' is unavailable on this connection"@,
                    )
                } else if whole && !takes_handle(read) {
                    Some(path + " wholeObject readAction must accept exactly [handle]"@)
                } else if !whole && !takes_window(read) {
                    Some(path + " chunked readAction must accept [handle, offset, length]"@)
                } else if whole != (contract.resume_policy
                    == ObjectTransferResumePolicy::RestartFromZero) {
                    Some(path + " strategy and resumePolicy are inconsistent"@)
                } else {
                    first(
                        completion_violation(c, contract, read, path),
                        if contract.formats.entries().len() == 0 {
                            Some(path + ".formats must declare at least one object format"@)
                        } else {
                            formats_violation(m, contract.formats.entries(), path, 0)
                        },
                    )
                },
            }
        },
    }
}

/// Whether the initiator of an action takes exactly the parameter `handle`.
fn accepts_handle(a: &Action) -> (r: bool)
    ensures
        r == takes_handle(*a),
{
    match &a.initiator {
        None => false,
        Some(i) => i.params.len() == 1 && same(i.params[0].name(), "handle"),
    }
}

/// Whether the initiator of an action takes exactly `handle`, `offset` and `length`.
fn accepts_window(a: &Action) -> (r: bool)
    ensures
        r == takes_window(*a),
{
    match &a.initiator {
        None => false,
        Some(i) => i.params.len() == 3 && same(i.params[0].name(), "handle") && same(
            i.params[1].name(),
            "offset",
        ) && same(i.params[2].name(), "length"),
    }
}

/// Whether a mode is named and the connection does not have it.
fn lacks_mode(c: &Connection, mode: &str) -> (r: bool)
    ensures
        r == mode_missing(*c, mode@),
{
    mode.unicode_len() > 0 && !contains_text(&c.modes, mode)
}

/// Checks the completion of an object transfer.
fn require_valid_completion(
    connection: &Connection,
    contract: &ObjectTransferContract,
    read: &Action,
    path: &str,
) -> (r: Result<(), ManifestError>)
    ensures
        reports(r, completion_violation(*connection, *contract, *read, path@)),
{
    let completion = match &contract.completion {
        None => {
            return Ok(());
        },
        Some(completion) => completion,
    };
    let action = match connection.actions.get(completion.action) {
        None => {
            return Err(
                ManifestError::Contract(
                    join2(path, ".completion.action references a missing connection action"),
                ),
            );
        },
        Some(action) => action,
    };
    if !accepts_handle(action) {
        return Err(
            ManifestError::Contract(
                join2(path, ".completion.action must accept exactly [handle]"),
            ),
        );
    }
    if !same(action.mode.as_str(), read.mode.as_str()) {
        return Err(
            ManifestError::Contract(
                join6(path, ".completion.action mode '", action.mode.as_str(), "' does not match readAction mode '", read.mode.as_str(), "'"),
            ),
        );
    }
    if lacks_mode(connection, action.mode.as_str()) {
        return Err(
            ManifestError::Contract(
                join4(path, ".completion.action mode '", action.mode.as_str(), "' is unavailable on this connection"),
            ),
        );
    }
    Ok(())
}

/// Checks the formats of an object transfer.
fn require_valid_formats(
    manifest: &CameraManifest,
    formats: &NameMap<ObjectTransferFormatSupport>,
    path: &str,
) -> (r: Result<(), ManifestError>)
    ensures
        reports(r, formats_violation(*manifest, formats.entries(), path@, 0)),
{
    let mut i: usize = 0;
    while i < formats.len()
        invariant
            i <= formats.entries().len(),
            formats_violation(*manifest, formats.entries(), path@, 0) == formats_violation(
                *manifest,
                formats.entries(),
                path@,
                i as int,
            ),
        decreases formats.entries().len() - i,
    {
        let code = formats.key_at(i).as_str();
        if parse_hex_code(code).is_none() {
            return Err(
                ManifestError::Contract(
                    join4(path, ".formats contains invalid object-format code '", code, "'"),
                ),
            );
        }
        let known = match &manifest.media {
            None => false,
            Some(media) => media.formats.contains_key(code),
        };
        if !known {
            return Err(
                ManifestError::Contract(
                    join4(path, ".formats references unknown media format '", code, "'"),
                ),
            );
        }
        i = i + 1;
    }
    Ok(())
}

/// Checks the object-transfer policy of a connection.
pub(crate) fn require_valid_object_transfer(
    manifest: &CameraManifest,
    connection: &Connection,
    connection_id: &str,
) -> (r: Result<(), ManifestError>)
    ensures
        reports(r, object_transfer_violation(*manifest, *connection, connection_id@)),
{
    let contract = match &connection.object_transfer {
        None => {
            return Ok(());
        },
        Some(contract) => contract,
    };
    let path = join3("connections.", connection_id, ".objectTransfer");
    let read = match connection.actions.get(contract.read_action) {
        None => {
            return Err(
                ManifestError::Contract(
                    join2(path.as_str(), ".readAction references a missing connection action"),
                ),
            );
        },
        Some(read) => read,
    };
    if lacks_mode(connection, read.mode.as_str()) {
        return Err(
            ManifestError::Contract(
                join4(path.as_str(), ".readAction mode '", read.mode.as_str(), "' is unavailable on this connection"),
            ),
        );
    }
    let whole = contract.strategy == ObjectTransferStrategy::WholeObject;
    if whole && !accepts_handle(read) {
        return Err(
            ManifestError::Contract(
                join2(path.as_str(), " wholeObject readAction must accept exactly [handle]"),
            ),
        );
    }
    if !whole && !accepts_window(read) {
        return Err(
            ManifestError::Contract(
                join2(path.as_str(), " chunked readAction must accept [handle, offset, length]"),
            ),
        );
    }
    if whole != (contract.resume_policy == ObjectTransferResumePolicy::RestartFromZero) {
        return Err(
            ManifestError::Contract(
                join2(path.as_str(), " strategy and resumePolicy are inconsistent"),
            ),
        );
    }
    match require_valid_completion(connection, contract, read, path.as_str()) {
        Err(e) => {
            return Err(e);
        },
        Ok(_) => {},
    }
    if contract.formats.is_empty() {
        return Err(
            ManifestError::Contract(
                join2(path.as_str(), ".formats must declare at least one object format"),
            ),
        );
    }
    require_valid_formats(manifest, &contract.formats, path.as_str())
}

/// The name of a control role.
pub open spec fn control_role_text(role: ControlRole) -> Seq<char> {
    match role {
        ControlRole::Iso => "Iso"@,
        ControlRole::ShutterSpeed => "ShutterSpeed"@,
        ControlRole::Aperture => "Aperture"@,
        ControlRole::ExposureBias => "ExposureBias"@,
        ControlRole::FocusArea => "FocusArea"@,
    }
}

/// The name of a control role.
fn control_role_name(role: ControlRole) -> (r: &'static str)
    ensures
        r@ == control_role_text(role),
{
    match role {
        ControlRole::Iso => "Iso",
        ControlRole::ShutterSpeed => "ShutterSpeed",
        ControlRole::Aperture => "Aperture",
        ControlRole::ExposureBias => "ExposureBias",
        ControlRole::FocusArea => "FocusArea",
    }
}

/// The violation of the rules on one control surface: its property is known and has a control for
/// the connection, else for the mode, which declares the readback that the surface selects.
pub open spec fn surface_violation(
    m: CameraManifest,
    id: Seq<char>,
    mode: Seq<char>,
    role: ControlRole,
    surface: ControlSurfaceEntry,
    path: Seq<char>,
) -> Option<Seq<char>> {
    let here = path + "."@ + control_role_text(role);
    let code = surface.property@;
    if hex_code(code) is None {
        Some(here + " contains invalid property code '"@ + code + "'"@)
    } else {
        match m.properties.at(code) {
            None => Some(here + " references unknown property '"@ + code + "'"@),
            Some(p) => {
                let control = if p.controls.has(id) {
                    p.controls.at(id)
                } else {
                    p.controls.at(mode)
                };
                match control {
                    None => Some(
                        here + " property '"@ + code
                            + "' has no control for this connection or mode"@,
                    ),
                    Some(c) => if surface.read_source == ControlReadSource::DeclaredReadback
                        && c.readback is None {
                        Some(
                            here
                                + " selects declaredReadback but its control has no readback property"@,
                        )
                    } else {
                        None
                    },
                }
            },
        }
    }
}

/// The violation of those rules by the surfaces of a mode, from entry `i` on.
pub open spec fn mode_surfaces_violation(
    m: CameraManifest,
    id: Seq<char>,
    mode: Seq<char>,
    s: Seq<(ControlRole, ControlSurfaceEntry)>,
    path: Seq<char>,
    i: int,
) -> Option<Seq<char>>
    decreases s.len() - i,
{
    if i < 0 || i >= s.len() {
        None
    } else {
        first(
            surface_violation(m, id, mode, s[i].0, s[i].1, path),
            mode_surfaces_violation(m, id, mode, s, path, i + 1),
        )
    }
}

/// The violation of those rules by the control surfaces of a connection, from entry `i` on.
pub open spec fn control_surfaces_violation(
    m: CameraManifest,
    c: Connection,
    id: Seq<char>,
    i: int,
) -> Option<Seq<char>>
    decreases c.control_surfaces.entries().len() - i,
{
    let s = c.control_surfaces.entries();
    if i < 0 || i >= s.len() {
        None
    } else {
        let mode = s[i].0@;
        let path = "connections."@ + id + ".controlSurfaces."@ + mode;
        if !holds_text(c.modes@, mode) {
            Some(path + " references a mode unavailable on this connection"@)
        } else {
            first(
                mode_surfaces_violation(m, id, mode, s[i].1.entries(), path, 0),
                control_surfaces_violation(m, c, id, i + 1),
            )
        }
    }
}

/// Checks one control surface.
fn require_valid_surface(
    manifest: &CameraManifest,
    connection_id: &str,
    mode: &str,
    role: ControlRole,
    surface: &ControlSurfaceEntry,
    path: &str,
) -> (r: Result<(), ManifestError>)
    ensures
        reports(
            r,
            surface_violation(*manifest, connection_id@, mode@, role, *surface, path@),
        ),
{
    let here = join3(path, ".", control_role_name(role));
    let code = surface.property.as_str();
    if parse_hex_code(code).is_none() {
        return Err(
            ManifestError::Contract(
                join4(here.as_str(), " contains invalid property code '", code, "'"),
            ),
        );
    }
    let property = match manifest.properties.get(code) {
        None => {
            return Err(
                ManifestError::Contract(
                    join4(here.as_str(), " references unknown property '", code, "'"),
                ),
            );
        },
        Some(p) => p,
    };
    let control = match property.controls.get(connection_id) {
        Some(c) => Some(c),
        None => property.controls.get(mode),
    };
    match control {
        None => {
            return Err(
                ManifestError::Contract(
                    join4(here.as_str(), " property '", code, "' has no control for this connection or mode"),
                ),
            );
        },
        Some(c) => {
            if surface.read_source == ControlReadSource::DeclaredReadback && c.readback.is_none() {
                return Err(
                    ManifestError::Contract(
                        join2(here.as_str(), " selects declaredReadback but its control has no readback property"),
                    ),
                );
            }
        },
    }
    Ok(())
}

/// Checks the surfaces of a mode.
fn require_valid_mode_surfaces(
    manifest: &CameraManifest,
    connection_id: &str,
    mode: &str,
    surfaces: &RankMap<ControlRole, ControlSurfaceEntry>,
    path: &str,
) -> (r: Result<(), ManifestError>)
    ensures
        reports(
            r,
            mode_surfaces_violation(
                *manifest,
                connection_id@,
                mode@,
                surfaces.entries(),
                path@,
                0,
            ),
        ),
{
    let mut i: usize = 0;
    while i < surfaces.len()
        invariant
            i <= surfaces.entries().len(),
            mode_surfaces_violation(
                *manifest,
                connection_id@,
                mode@,
                surfaces.entries(),
                path@,
                0,
            ) == mode_surfaces_violation(
                *manifest,
                connection_id@,
                mode@,
                surfaces.entries(),
                path@,
                i as int,
            ),
        decreases surfaces.entries().len() - i,
    {
        match require_valid_surface(manifest, connection_id, mode, surfaces.key_at(i), surfaces.value_at(i), path) {
            Err(e) => {
                return Err(e);
            },
            Ok(_) => {},
        }
        i = i + 1;
    }
    Ok(())
}

/// Checks the control surfaces of a connection.
pub(crate) fn require_valid_control_surfaces(
    manifest: &CameraManifest,
    connection: &Connection,
    connection_id: &str,
) -> (r: Result<(), ManifestError>)
    ensures
        reports(r, control_surfaces_violation(*manifest, *connection, connection_id@, 0)),
{
    let surfaces = &connection.control_surfaces;
    let mut i: usize = 0;
    while i < surfaces.len()
        invariant
            *surfaces == connection.control_surfaces,
            i <= surfaces.entries().len(),
            control_surfaces_violation(*manifest, *connection, connection_id@, 0)
                == control_surfaces_violation(*manifest, *connection, connection_id@, i as int),
        decreases surfaces.entries().len() - i,
    {
        let mode = surfaces.key_at(i).as_str();
        let path = join4("connections.", connection_id, ".controlSurfaces.", mode);
        if !contains_text(&connection.modes, mode) {
            return Err(
                ManifestError::Contract(
                    join2(path.as_str(), " references a mode unavailable on this connection"),
                ),
            );
        }
        match require_valid_mode_surfaces(manifest, connection_id, mode, surfaces.value_at(i), path.as_str()) {
            Err(e) => {
                return Err(e);
            },
            Ok(_) => {},
        }
        i = i + 1;
    }
    Ok(())
}

} // verus!
