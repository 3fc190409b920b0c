//! Connection activities: named progress steps of an establishment or a mode entry.

use crate::model::SocketRole;
use crate::text::{chars_of, same, split, split_text, views};
use vstd::prelude::*;

verus! {

#[derive(Debug, Clone, PartialEq, Eq)]
pub struct ConnectionActivityDescriptor {
    pub id: String,
    pub version: u32,
    pub display_role: ConnectionActivityDisplayRole,
    pub title: Option<String>,
    pub default_expected_duration_ms: u32,
    pub interaction_required: bool,
    pub optional: bool,
    pub binding: ConnectionActivityBinding,
}

#[derive(Debug, Clone, PartialEq, Eq)]
pub enum ConnectionActivityBinding {
    ExecutorSpan(ExecutorSpanBinding),
    HostCheckpoint(HostCheckpointBinding),
    HostEstablishment(HostEstablishmentBinding),
}

#[derive(Debug, Clone, PartialEq, Eq)]
pub struct ExecutorSpanBinding {
    pub executor_span: ConnectionActivityExecutorSpan,
}

#[derive(Debug, Clone, PartialEq, Eq)]
pub struct HostCheckpointBinding {
    pub host_checkpoint: ConnectionActivityHostCheckpoint,
}

/// A typed host-owned establishment action.
#[derive(Debug, Clone, PartialEq, Eq)]
pub struct HostEstablishmentBinding {
    pub host_establishment: ConnectionActivityHostEstablishment,
}

#[derive(Debug, Clone, PartialEq, Eq)]
pub enum ConnectionActivityHostEstablishment {
    /// Read the named runtime-scope value and require an exact observed network identity match.
    NetworkIdentityExact {
        network_identity_exact: NetworkIdentityExactBinding,
    },
    /// Open and retain the real protocol session on this socket role.
    RetainedSessionOpen {
        retained_session_open: RetainedSessionOpenBinding,
    },
}

#[derive(Debug, Clone, PartialEq, Eq)]
pub struct NetworkIdentityExactBinding {
    pub expected_scope: String,
}

#[derive(Debug, Clone, PartialEq, Eq)]
pub struct RetainedSessionOpenBinding {
    pub socket_role: SocketRole,
}

#[derive(Debug, Clone, PartialEq, Eq)]
pub struct ConnectionActivityExecutorSpan {
    pub sequence: ConnectionActivitySequence,
    pub start_step: u32,
    pub end_step_exclusive: u32,
}

#[derive(Debug, Clone, PartialEq, Eq)]
pub struct ConnectionActivityHostCheckpoint {
    pub name: String,
}

#[derive(Debug, Clone, Copy, PartialEq, Eq, Structural)]
pub enum ConnectionActivitySequence {
    Steps,
    PostExitReadiness,
}

#[derive(Debug, Clone, PartialEq, Eq)]
pub enum ConnectionActivityDisplayRole {
    Connecting,
    WaitingForCamera,
    ConfirmingPairing,
    PreparingConnection,
    StartingNetwork,
    JoiningNetwork,
    OpeningSession,
    Unknown(String),
}

/// What an activity is bound to, without the extent of an executor span.
pub enum ActivityIdentity {
    ExecutorSpan,
    HostCheckpoint(Seq<char>),
    NetworkIdentity(Seq<char>),
    RetainedSession(SocketRole),
}

/// What an activity is bound to.
pub open spec fn identity_of(d: ConnectionActivityDescriptor) -> ActivityIdentity {
    match d.binding {
        ConnectionActivityBinding::ExecutorSpan(_) => ActivityIdentity::ExecutorSpan,
        ConnectionActivityBinding::HostCheckpoint(b) => ActivityIdentity::HostCheckpoint(
            b.host_checkpoint.name@,
        ),
        ConnectionActivityBinding::HostEstablishment(b) => match b.host_establishment {
            ConnectionActivityHostEstablishment::NetworkIdentityExact { network_identity_exact } =>
                ActivityIdentity::NetworkIdentity(network_identity_exact.expected_scope@),
            ConnectionActivityHostEstablishment::RetainedSessionOpen { retained_session_open } =>
                ActivityIdentity::RetainedSession(retained_session_open.socket_role),
        },
    }
}

/// The place of a display role among the roles, and the text of an unknown one.
pub open spec fn role_mark(r: ConnectionActivityDisplayRole) -> (int, Seq<char>) {
    match r {
        ConnectionActivityDisplayRole::Connecting => (0, Seq::empty()),
        ConnectionActivityDisplayRole::WaitingForCamera => (1, Seq::empty()),
        ConnectionActivityDisplayRole::ConfirmingPairing => (2, Seq::empty()),
        ConnectionActivityDisplayRole::PreparingConnection => (3, Seq::empty()),
        ConnectionActivityDisplayRole::StartingNetwork => (4, Seq::empty()),
        ConnectionActivityDisplayRole::JoiningNetwork => (5, Seq::empty()),
        ConnectionActivityDisplayRole::OpeningSession => (6, Seq::empty()),
        ConnectionActivityDisplayRole::Unknown(raw) => (7, raw@),
    }
}

/// The token of a display role.
pub open spec fn role_token(r: ConnectionActivityDisplayRole) -> Seq<char> {
    match r {
        ConnectionActivityDisplayRole::Connecting => "connecting"@,
        ConnectionActivityDisplayRole::WaitingForCamera => "waitingForCamera"@,
        ConnectionActivityDisplayRole::ConfirmingPairing => "confirmingPairing"@,
        ConnectionActivityDisplayRole::PreparingConnection => "preparingConnection"@,
        ConnectionActivityDisplayRole::StartingNetwork => "startingNetwork"@,
        ConnectionActivityDisplayRole::JoiningNetwork => "joiningNetwork"@,
        ConnectionActivityDisplayRole::OpeningSession => "openingSession"@,
        ConnectionActivityDisplayRole::Unknown(raw) => raw@,
    }
}

impl ConnectionActivityDisplayRole {
    /// The token of the role.
    pub fn as_token(&self) -> (r: &str)
        ensures
            r@ == role_token(*self),
    {
        match self {
            ConnectionActivityDisplayRole::Connecting => "connecting",
            ConnectionActivityDisplayRole::WaitingForCamera => "waitingForCamera",
            ConnectionActivityDisplayRole::ConfirmingPairing => "confirmingPairing",
            ConnectionActivityDisplayRole::PreparingConnection => "preparingConnection",
            ConnectionActivityDisplayRole::StartingNetwork => "startingNetwork",
            ConnectionActivityDisplayRole::JoiningNetwork => "joiningNetwork",
            ConnectionActivityDisplayRole::OpeningSession => "openingSession",
            ConnectionActivityDisplayRole::Unknown(raw) => raw.as_str(),
        }
    }

    /// The role of a token. A token of no known role is kept as it is, so that the token of the
    /// result is always the token given.
    pub fn from_token(raw: String) -> (r: Self)
        ensures
            role_token(r) == raw@,
            r is Unknown ==> raw@ != "connecting"@ && raw@ != "waitingForCamera"@ && raw@
                != "confirmingPairing"@ && raw@ != "preparingConnection"@ && raw@
                != "startingNetwork"@ && raw@ != "joiningNetwork"@ && raw@ != "openingSession"@,
    {
        if same(raw.as_str(), "connecting") {
            ConnectionActivityDisplayRole::Connecting
        } else if same(raw.as_str(), "waitingForCamera") {
            ConnectionActivityDisplayRole::WaitingForCamera
        } else if same(raw.as_str(), "confirmingPairing") {
            ConnectionActivityDisplayRole::ConfirmingPairing
        } else if same(raw.as_str(), "preparingConnection") {
            ConnectionActivityDisplayRole::PreparingConnection
        } else if same(raw.as_str(), "startingNetwork") {
            ConnectionActivityDisplayRole::StartingNetwork
        } else if same(raw.as_str(), "joiningNetwork") {
            ConnectionActivityDisplayRole::JoiningNetwork
        } else if same(raw.as_str(), "openingSession") {
            ConnectionActivityDisplayRole::OpeningSession
        } else {
            ConnectionActivityDisplayRole::Unknown(raw)
        }
    }

    /// The place of the role among the roles.
    fn place(&self) -> (r: u8)
        ensures
            r == role_mark(*self).0,
    {
        match self {
            ConnectionActivityDisplayRole::Connecting => 0,
            ConnectionActivityDisplayRole::WaitingForCamera => 1,
            ConnectionActivityDisplayRole::ConfirmingPairing => 2,
            ConnectionActivityDisplayRole::PreparingConnection => 3,
            ConnectionActivityDisplayRole::StartingNetwork => 4,
            ConnectionActivityDisplayRole::JoiningNetwork => 5,
            ConnectionActivityDisplayRole::OpeningSession => 6,
            ConnectionActivityDisplayRole::Unknown(_) => 7,
        }
    }

    /// Whether two roles are the same.
    pub(crate) fn same_role(&self, other: &Self) -> (r: bool)
        ensures
            r == (role_mark(*self) == role_mark(*other)),
    {
        match (self, other) {
            (
                ConnectionActivityDisplayRole::Unknown(a),
                ConnectionActivityDisplayRole::Unknown(b),
            ) => same(a.as_str(), b.as_str()),
            _ => self.place() == other.place(),
        }
    }
}

/// What all descriptors of one activity share.
pub struct ActivityContract {
    pub role: (int, Seq<char>),
    pub expected_ms: u32,
    pub interaction_required: bool,
    pub optional: bool,
    pub identity: ActivityIdentity,
}

/// What all descriptors of one activity share.
pub open spec fn contract_of(d: ConnectionActivityDescriptor) -> ActivityContract {
    ActivityContract {
        role: role_mark(d.display_role),
        expected_ms: d.default_expected_duration_ms,
        interaction_required: d.interaction_required,
        optional: d.optional,
        identity: identity_of(d),
    }
}

/// Whether two descriptors describe the same activity and differ in what they must share.
pub open spec fn conflicting(a: ConnectionActivityDescriptor, b: ConnectionActivityDescriptor) -> bool {
    a.id@ == b.id@ && a.version == b.version && contract_of(a) != contract_of(b)
}

impl ConnectionActivityDescriptor {
    /// Whether two descriptors are bound to the same thing.
    pub(crate) fn same_identity(&self, other: &Self) -> (r: bool)
        ensures
            r == (identity_of(*self) == identity_of(*other)),
    {
        match (&self.binding, &other.binding) {
            (
                ConnectionActivityBinding::ExecutorSpan(_),
                ConnectionActivityBinding::ExecutorSpan(_),
            ) => true,
            (
                ConnectionActivityBinding::HostCheckpoint(a),
                ConnectionActivityBinding::HostCheckpoint(b),
            ) => same(a.host_checkpoint.name.as_str(), b.host_checkpoint.name.as_str()),
            (
                ConnectionActivityBinding::HostEstablishment(a),
                ConnectionActivityBinding::HostEstablishment(b),
            ) => match (&a.host_establishment, &b.host_establishment) {
                (
                    ConnectionActivityHostEstablishment::NetworkIdentityExact {
                        network_identity_exact: x,
                    },
                    ConnectionActivityHostEstablishment::NetworkIdentityExact {
                        network_identity_exact: y,
                    },
                ) => same(x.expected_scope.as_str(), y.expected_scope.as_str()),
                (
                    ConnectionActivityHostEstablishment::RetainedSessionOpen {
                        retained_session_open: x,
                    },
                    ConnectionActivityHostEstablishment::RetainedSessionOpen {
                        retained_session_open: y,
                    },
                ) => x.socket_role == y.socket_role,
                _ => false,
            },
            _ => false,
        }
    }

    /// Whether two descriptors describe the same activity and differ in what they must share.
    pub(crate) fn conflicts_with(&self, other: &Self) -> (r: bool)
        ensures
            r == conflicting(*self, *other),
    {
        if !same(self.id.as_str(), other.id.as_str()) || self.version != other.version {
            return false;
        }
        !(self.display_role.same_role(&other.display_role) && self.default_expected_duration_ms
            == other.default_expected_duration_ms && self.interaction_required
            == other.interaction_required && self.optional == other.optional && self.same_identity(
            other,
        ))
    }
}

/// Whether a segment of an activity id is filled with ASCII letters, digits, `-` and `_`.
pub open spec fn id_segment(s: Seq<char>) -> bool {
    s.len() > 0 && forall|i: int| 0 <= i < s.len() ==> id_char(#[trigger] s[i])
}

/// Whether a character may stand in an activity id.
pub open spec fn id_char(c: char) -> bool {
    ('a' <= c <= 'z') || ('A' <= c <= 'Z') || ('0' <= c <= '9') || c == '-' || c == '_'
}

/// Whether a text is an activity id: two or more dot-separated segments.
pub open spec fn activity_id(s: Seq<char>) -> bool {
    let parts = split_text(s, '.');
    parts.len() >= 2 && forall|i: int| 0 <= i < parts.len() ==> id_segment(#[trigger] parts[i])
}

/// Whether a segment of an activity id is valid.
fn valid_id_segment(segment: &str) -> (r: bool)
    ensures
        r == id_segment(segment@),
{
    let v = chars_of(segment);
    if v.len() == 0 {
        return false;
    }
    let mut i: usize = 0;
    while i < v.len()
        invariant
            v@ == segment@,
            v.len() > 0,
            i <= v.len(),
            forall|j: int| 0 <= j < i ==> id_char(#[trigger] segment@[j]),
        decreases v.len() - i,
    {
        let c: char = v[i];
        let ok = ('a' <= c && c <= 'z') || ('A' <= c && c <= 'Z') || ('0' <= c && c <= '9') || c
            == '-' || c == '_';
        if !ok {
            return false;
        }
        i = i + 1;
    }
    true
}

/// Whether a text is an activity id.
pub fn valid_activity_id(id: &str) -> (r: bool)
    ensures
        r == activity_id(id@),
{
    let parts = split(id, '.');
    let ghost texts = split_text(id@, '.');
    proof {
        assert(views(parts@).len() == texts.len());
    }
    if parts.len() < 2 {
        return false;
    }
    let mut i: usize = 0;
    while i < parts.len()
        invariant
            views(parts@) == texts,
            texts == split_text(id@, '.'),
            texts.len() >= 2,
            i <= parts.len(),
            forall|j: int| 0 <= j < i ==> id_segment(#[trigger] texts[j]),
        decreases parts.len() - i,
    {
        proof {
            assert(texts[i as int] == parts@[i as int]@);
        }
        if !valid_id_segment(parts[i].as_str()) {
            return false;
        }
        i = i + 1;
    }
    proof {
        assert(views(parts@).len() == texts.len());
    }
    true
}

} // verus!
