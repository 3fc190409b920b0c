//! Compatibility queries over a manifest.

use crate::model::{
    available_when_holds, hex_code, parse_hex_code, Action, ActionVerb, CameraManifest, Connection,
    Control, Mode, Operation, Property, Workflow,
};
use crate::name_map::NameMap;
use crate::predicate::{holds, PropView};
use crate::text::{
    contains_text, debug_texts, decimal, digits_of, has_prefix, holds_text, i64_text, join2, join3,
    join5, number_text, pad_zero, same, split, split_text, starts_with, texts_debug, views,
    zero_padded,
};
use crate::trace::{explained, OutcomeRecord, PredicateOutcome, ResolutionTrace};
use crate::version::VersionScheme;
use vstd::prelude::*;

verus! {

/// Whether an operation is available, and in the queried workflow.
#[derive(Debug, Clone, Copy, PartialEq, Eq, Structural)]
pub enum Support {
    InWorkflow,
    /// Defined by the camera but not for this workflow.
    WrongWorkflow,
    /// Not defined at all.
    Unsupported,
}

/// Availability of an operation across the orthogonal `(connection, mode)` axes plus its
/// runtime prerequisite - the precise reason it is or isn't usable now.
#[derive(Debug, Clone, Copy, PartialEq, Eq, Structural)]
pub enum Availability {
    /// Valid in this connection + mode and its `requires` predicate holds.
    Available,
    /// Defined, but not in this mode path.
    WrongMode,
    /// Defined, but not over this connection.
    WrongConnection,
    /// Valid here, but its `requires` prerequisite is unmet by observed state.
    Blocked,
    /// Not defined at all.
    Unavailable,
}

/// The value of the first entry, at `i` or after it, whose key writes `code`.
pub open spec fn coded_from<V>(s: Seq<(String, V)>, code: u16, i: int) -> Option<V>
    decreases s.len() - i,
{
    if i < 0 || i >= s.len() {
        None
    } else if hex_code(s[i].0@) == Some(code) {
        Some(s[i].1)
    } else {
        coded_from(s, code, i + 1)
    }
}

/// The value of the first entry of a code-keyed map whose key writes `code`.
pub open spec fn coded<V>(m: NameMap<V>, code: u16) -> Option<V> {
    coded_from(m.entries(), code, 0)
}

/// The value of the first entry whose key writes `code`.
pub(crate) fn find_code<V>(m: &NameMap<V>, code: u16) -> (r: Option<&V>)
    ensures
        match r {
            Some(v) => coded(*m, code) == Some(*v),
            None => coded(*m, code) is None,
        },
{
    let mut i: usize = 0;
    while i < m.len()
        invariant
            i <= m.entries().len(),
            coded(*m, code) == coded_from(m.entries(), code, i as int),
        decreases m.entries().len() - i,
    {
        match parse_hex_code(m.key_at(i).as_str()) {
            Some(c) => {
                if c == code {
                    return Some(m.value_at(i));
                }
            },
            None => {},
        }
        i = i + 1;
    }
    None
}

/// Whether a mode set covers the mode path `mode`: the empty set covers every mode, an entry
/// covers itself and what lies below it.
pub open spec fn covers_mode(modes: Seq<String>, mode: Seq<char>) -> bool {
    ||| modes.len() == 0
    ||| exists|i: int|
        0 <= i < modes.len() && (mode == (#[trigger] modes[i])@ || has_prefix(
            mode,
            modes[i]@ + "/"@,
        ))
}

/// Whether a mode set covers the mode path.
fn mode_matches(op_modes: &Vec<String>, mode_path: &str) -> (r: bool)
    ensures
        r == covers_mode(op_modes@, mode_path@),
{
    if op_modes.len() == 0 {
        return true;
    }
    let mut i: usize = 0;
    while i < op_modes.len()
        invariant
            i <= op_modes.len(),
            op_modes.len() > 0,
            forall|j: int|
                0 <= j < i ==> mode_path@ != (#[trigger] op_modes@[j])@ && !has_prefix(
                    mode_path@,
                    op_modes@[j]@ + "/"@,
                ),
        decreases op_modes.len() - i,
    {
        let m = op_modes[i].as_str();
        if same(mode_path, m) || starts_with(mode_path, join2(m, "/").as_str()) {
            return true;
        }
        i = i + 1;
    }
    false
}

/// Whether a connection set covers a connection: the empty set covers every one.
pub open spec fn covers_connection(connections: Seq<String>, id: Seq<char>) -> bool {
    connections.len() == 0 || holds_text(connections, id)
}

/// Whether a connection set covers a connection.
fn connection_matches(connections: &Vec<String>, id: &str) -> (r: bool)
    ensures
        r == covers_connection(connections@, id@),
{
    connections.len() == 0 || contains_text(connections, id)
}

/// Whether an operation is usable: defined, over this connection, in this mode, and with its
/// prerequisite met. The first of these that fails is the reason.
pub open spec fn availability(
    m: CameraManifest,
    connection: Seq<char>,
    mode: Seq<char>,
    code: u16,
    observed: Map<u16, i64>,
) -> Availability {
    match coded(m.operations, code) {
        None => Availability::Unavailable,
        Some(op) => if !covers_connection(op.connections@, connection) {
            Availability::WrongConnection
        } else if !covers_mode(op.modes@, mode) {
            Availability::WrongMode
        } else if op.requires matches Some(p) && !holds(p, observed) {
            Availability::Blocked
        } else {
            Availability::Available
        },
    }
}

/// The name of an availability.
pub open spec fn availability_text(a: Availability) -> Seq<char> {
    match a {
        Availability::Available => "Available"@,
        Availability::WrongMode => "WrongMode"@,
        Availability::WrongConnection => "WrongConnection"@,
        Availability::Blocked => "Blocked"@,
        Availability::Unavailable => "Unavailable"@,
    }
}

/// What an availability trace says.
pub struct TraceRecord {
    pub query: Seq<char>,
    pub connection: Seq<char>,
    pub mode: Seq<char>,
    pub op: u16,
    pub outcome: Seq<char>,
    pub connection_ok: bool,
    pub mode_ok: bool,
    pub requires: Option<OutcomeRecord>,
    pub reason: Seq<char>,
}

/// What an optional outcome says.
pub open spec fn outcome_record(o: Option<PredicateOutcome>) -> Option<OutcomeRecord> {
    match o {
        Some(p) => Some(p@),
        None => None,
    }
}

impl View for ResolutionTrace {
    type V = TraceRecord;

    open spec fn view(&self) -> TraceRecord {
        TraceRecord {
            query: self.query@,
            connection: self.connection@,
            mode: self.mode@,
            op: self.op,
            outcome: self.outcome@,
            connection_ok: self.connection_ok,
            mode_ok: self.mode_ok,
            requires: outcome_record(self.requires),
            reason: self.reason@,
        }
    }
}

/// The reason that a trace gives for an availability.
pub open spec fn reason_text(
    m: CameraManifest,
    connection: Seq<char>,
    mode: Seq<char>,
    code: u16,
    a: Availability,
) -> Seq<char> {
    match a {
        Availability::Unavailable => "operation 0x"@ + zero_padded(digits_of(code as nat, 16), 4)
            + " is not defined"@,
        Availability::WrongConnection => "op valid over "@ + texts_debug(
            views(coded(m.operations, code)->0.connections@),
        ) + ", not '"@ + connection + "'"@,
        Availability::WrongMode => "op valid in modes "@ + texts_debug(
            views(coded(m.operations, code)->0.modes@),
        ) + ", not '"@ + mode + "'"@,
        Availability::Blocked => "requires prerequisite unmet (see trace leaves)"@,
        Availability::Available => "available"@,
    }
}

/// The trace of an availability query.
pub open spec fn availability_trace(
    m: CameraManifest,
    connection: Seq<char>,
    mode: Seq<char>,
    code: u16,
    observed: Map<u16, i64>,
) -> TraceRecord {
    let a = availability(m, connection, mode, code, observed);
    let op = coded(m.operations, code);
    TraceRecord {
        query: "operation_available"@,
        connection,
        mode,
        op: code,
        outcome: availability_text(a),
        connection_ok: op matches Some(o) && covers_connection(o.connections@, connection),
        mode_ok: op matches Some(o) && covers_mode(o.modes@, mode),
        requires: match op {
            Some(o) => match o.requires {
                Some(p) => Some(explained(p, observed)),
                None => None,
            },
            None => None,
        },
        reason: reason_text(m, connection, mode, code, a),
    }
}

/// The texts of a row of borrowed strings.
pub open spec fn str_views(v: Seq<&str>) -> Seq<Seq<char>> {
    Seq::new(v.len(), |i: int| v[i]@)
}

/// The ids of the connections, from entry `i` on, that are available under a firmware.
pub open spec fn available_ids_from(
    s: Seq<(String, Connection)>,
    firmware: Seq<char>,
    scheme: VersionScheme,
    i: int,
) -> Seq<Seq<char>>
    decreases s.len() - i,
{
    if i < 0 || i >= s.len() {
        Seq::empty()
    } else if s[i].1.available_when matches Some(w) && !available_when_holds(w, firmware, scheme) {
        available_ids_from(s, firmware, scheme, i + 1)
    } else {
        seq![s[i].0@] + available_ids_from(s, firmware, scheme, i + 1)
    }
}

/// The path of the first mode, from entry `i` on, whose detection holds.
pub open spec fn detected_from(s: Seq<(String, Mode)>, observed: Map<u16, i64>, i: int) -> Option<
    Seq<char>,
>
    decreases s.len() - i,
{
    if i < 0 || i >= s.len() {
        None
    } else if s[i].1.detect matches Some(p) && holds(p, observed) {
        Some(s[i].0@)
    } else {
        detected_from(s, observed, i + 1)
    }
}

/// The keys of a row of entries.
pub open spec fn keys_of<V>(s: Seq<(String, V)>) -> Seq<Seq<char>> {
    Seq::new(s.len(), |i: int| s[i].0@)
}

/// The mode path of the first `n` segments.
pub open spec fn path_of(parts: Seq<Seq<char>>, n: int) -> Seq<char>
    decreases n,
{
    if n <= 0 {
        Seq::empty()
    } else {
        let above = path_of(parts, n - 1);
        if above.len() == 0 {
            parts[n - 1]
        } else {
            above + "/"@ + parts[n - 1]
        }
    }
}

/// The capabilities that the first `n` segments of a mode path bring, from the root on.
pub open spec fn capabilities_of(m: CameraManifest, parts: Seq<Seq<char>>, n: int) -> Seq<Seq<char>>
    decreases n,
{
    if n <= 0 {
        Seq::empty()
    } else {
        let above = capabilities_of(m, parts, n - 1);
        match m.modes.at(path_of(parts, n)) {
            Some(mode) => above + views(mode.capabilities@),
            None => above,
        }
    }
}

impl CameraManifest {
    /// The schema that the manifest declares.
    pub fn schema_version(&self) -> (r: &str)
        ensures
            r@ == self.schema@,
    {
        self.schema.as_str()
    }

    /// The operation with this code, whatever its workflow.
    pub fn operation(&self, code: u16) -> (r: Option<&Operation>)
        ensures
            match r {
                Some(op) => coded(self.operations, code) == Some(*op),
                None => coded(self.operations, code) is None,
            },
    {
        find_code(&self.operations, code)
    }

    /// Whether `code` is supported, and in `workflow`.
    pub fn supports_operation(&self, workflow: &str, code: u16) -> (r: Support)
        ensures
            r == (match coded(self.operations, code) {
                None => Support::Unsupported,
                Some(op) => if op.workflows@.len() == 0 || holds_text(op.workflows@, workflow@) {
                    Support::InWorkflow
                } else {
                    Support::WrongWorkflow
                },
            }),
    {
        match self.operation(code) {
            None => Support::Unsupported,
            Some(op) => if op.workflows.len() == 0 || contains_text(&op.workflows, workflow) {
                Support::InWorkflow
            } else {
                Support::WrongWorkflow
            },
        }
    }

    /// The property with this code.
    pub fn property(&self, code: u16) -> (r: Option<&Property>)
        ensures
            match r {
                Some(p) => coded(self.properties, code) == Some(*p),
                None => coded(self.properties, code) is None,
            },
    {
        find_code(&self.properties, code)
    }

    /// The control mechanism of a property in a mode or workflow.
    pub fn control_for(&self, property_code: u16, mode: &str) -> (r: Option<&Control>)
        ensures
            match r {
                Some(c) => coded(self.properties, property_code) matches Some(p) && p.controls.at(
                    mode@,
                ) == Some(*c),
                None => coded(self.properties, property_code) matches Some(p) ==> p.controls.at(
                    mode@,
                ) is None,
            },
    {
        match self.property(property_code) {
            None => None,
            Some(p) => p.controls.get(mode),
        }
    }

    /// The label of a property value.
    pub fn value_label(&self, property_code: u16, value: i64) -> (r: Option<&str>)
        ensures
            match r {
                Some(s) => coded(self.properties, property_code) matches Some(p) && p.labels.at(
                    decimal(value as int),
                ) matches Some(l) && l@ == s@,
                None => coded(self.properties, property_code) matches Some(p) ==> p.labels.at(
                    decimal(value as int),
                ) is None,
            },
    {
        match self.property(property_code) {
            None => None,
            Some(p) => match p.labels.get(i64_text(value).as_str()) {
                None => None,
                Some(s) => Some(s.as_str()),
            },
        }
    }

    /// The workflow with this id.
    pub fn workflow(&self, id: &str) -> (r: Option<&Workflow>)
        ensures
            match r {
                Some(w) => self.workflows.at(id@) == Some(*w),
                None => self.workflows.at(id@) is None,
            },
    {
        self.workflows.get(id)
    }

    /// The action of a connection under a verb.
    pub fn action(&self, connection: &str, verb: ActionVerb) -> (r: Option<&Action>)
        ensures
            match r {
                Some(a) => self.connections.at(connection@) matches Some(c) && c.actions.at(verb)
                    == Some(*a),
                None => self.connections.at(connection@) matches Some(c) ==> c.actions.at(
                    verb,
                ) is None,
            },
    {
        match self.connections.get(connection) {
            None => None,
            Some(c) => c.actions.get(verb),
        }
    }

    /// Whether an operation is usable over a connection, in a mode, with these observed values.
    pub fn operation_available(
        &self,
        connection: &str,
        mode_path: &str,
        code: u16,
        observed: &PropView,
    ) -> (r: Availability)
        ensures
            r == availability(*self, connection@, mode_path@, code, observed.observed()),
    {
        let op = match self.operation(code) {
            None => {
                return Availability::Unavailable;
            },
            Some(op) => op,
        };
        if !connection_matches(&op.connections, connection) {
            return Availability::WrongConnection;
        }
        if !mode_matches(&op.modes, mode_path) {
            return Availability::WrongMode;
        }
        if let Some(req) = &op.requires {
            if !req.eval(observed) {
                return Availability::Blocked;
            }
        }
        Availability::Available
    }

    /// The ids of the connections that are available under a firmware, in key order.
    pub fn connections_available(&self, firmware: &str, scheme: VersionScheme) -> (r: Vec<&str>)
        ensures
            str_views(r@) == available_ids_from(self.connections.entries(), firmware@, scheme, 0),
    {
        let mut out: Vec<&str> = Vec::new();
        let ghost all = available_ids_from(self.connections.entries(), firmware@, scheme, 0);
        let mut i: usize = 0;
        proof {
            assert(str_views(out@) + all == all);
        }
        while i < self.connections.len()
            invariant
                i <= self.connections.entries().len(),
                str_views(out@) + available_ids_from(
                    self.connections.entries(),
                    firmware@,
                    scheme,
                    i as int,
                ) == all,
            decreases self.connections.entries().len() - i,
        {
            let listed = match &self.connections.value_at(i).available_when {
                None => true,
                Some(w) => w.matches(firmware, scheme),
            };
            if listed {
                let ghost before = out@;
                let id = self.connections.key_at(i).as_str();
                out.push(id);
                proof {
                    assert(str_views(out@) == str_views(before) + seq![id@]);
                    assert(str_views(out@) + available_ids_from(
                        self.connections.entries(),
                        firmware@,
                        scheme,
                        i + 1,
                    ) == all);
                }
            }
            i = i + 1;
        }
        proof {
            assert(str_views(out@) == all);
        }
        out
    }

    /// The mode that the observed values put the camera in: the first whose detection holds.
    pub fn detect_mode(&self, observed: &PropView) -> (r: Option<&str>)
        ensures
            match r {
                Some(path) => detected_from(self.modes.entries(), observed.observed(), 0) == Some(
                    path@,
                ),
                None => detected_from(self.modes.entries(), observed.observed(), 0) is None,
            },
    {
        let mut i: usize = 0;
        while i < self.modes.len()
            invariant
                i <= self.modes.entries().len(),
                detected_from(self.modes.entries(), observed.observed(), 0) == detected_from(
                    self.modes.entries(),
                    observed.observed(),
                    i as int,
                ),
            decreases self.modes.entries().len() - i,
        {
            if let Some(p) = &self.modes.value_at(i).detect {
                if p.eval(observed) {
                    return Some(self.modes.key_at(i).as_str());
                }
            }
            i = i + 1;
        }
        None
    }

    /// All mode paths, in key order.
    pub fn mode_paths(&self) -> (r: Vec<&str>)
        ensures
            str_views(r@) == keys_of(self.modes.entries()),
    {
        let mut out: Vec<&str> = Vec::new();
        let mut i: usize = 0;
        while i < self.modes.len()
            invariant
                i <= self.modes.entries().len(),
                out.len() == i,
                forall|j: int| 0 <= j < i ==> (#[trigger] out@[j])@ == self.modes.entries()[j].0@,
            decreases self.modes.entries().len() - i,
        {
            out.push(self.modes.key_at(i).as_str());
            i = i + 1;
        }
        proof {
            assert(str_views(out@) == keys_of(self.modes.entries()));
        }
        out
    }

    /// The outcome of `operation_available`, with the trace that explains it.
    pub fn operation_available_explained(
        &self,
        connection: &str,
        mode_path: &str,
        code: u16,
        observed: &PropView,
    ) -> (r: (Availability, ResolutionTrace))
        ensures
            r.0 == availability(*self, connection@, mode_path@, code, observed.observed()),
            r.1@ == availability_trace(
                *self,
                connection@,
                mode_path@,
                code,
                observed.observed(),
            ),
    {
        let mut connection_ok = false;
        let mut mode_ok = false;
        let mut requires_outcome: Option<PredicateOutcome> = None;
        let (availability, reason) = match self.operation(code) {
            None => (
                Availability::Unavailable,
                join3(
                    "operation 0x",
                    pad_zero(number_text(code as u128, 16), 4).as_str(),
                    " is not defined",
                ),
            ),
            Some(op) => {
                connection_ok = connection_matches(&op.connections, connection);
                mode_ok = mode_matches(&op.modes, mode_path);
                let mut met = true;
                if let Some(p) = &op.requires {
                    let outcome = p.explain(observed);
                    met = outcome.passed;
                    requires_outcome = Some(outcome);
                }
                if !connection_ok {
                    (
                        Availability::WrongConnection,
                        join5(
                            "op valid over ",
                            debug_texts(&op.connections).as_str(),
                            ", not '",
                            connection,
                            "'",
                        ),
                    )
                } else if !mode_ok {
                    (
                        Availability::WrongMode,
                        join5(
                            "op valid in modes ",
                            debug_texts(&op.modes).as_str(),
                            ", not '",
                            mode_path,
                            "'",
                        ),
                    )
                } else if !met {
                    (
                        Availability::Blocked,
                        "requires prerequisite unmet (see trace leaves)".to_owned(),
                    )
                } else {
                    (Availability::Available, "available".to_owned())
                }
            },
        };
        let outcome = match availability {
            Availability::Available => "Available",
            Availability::WrongMode => "WrongMode",
            Availability::WrongConnection => "WrongConnection",
            Availability::Blocked => "Blocked",
            Availability::Unavailable => "Unavailable",
        };
        let trace = ResolutionTrace {
            query: "operation_available".to_owned(),
            connection: connection.to_owned(),
            mode: mode_path.to_owned(),
            op: code,
            outcome: outcome.to_owned(),
            connection_ok,
            mode_ok,
            requires: requires_outcome,
            reason,
        };
        (availability, trace)
    }

    /// The capabilities in effect at a mode path: those of its ancestors, then its own.
    pub fn capabilities(&self, mode_path: &str) -> (r: Vec<&str>)
        ensures
            str_views(r@) == capabilities_of(
                *self,
                split_text(mode_path@, '/'),
                split_text(mode_path@, '/').len() as int,
            ),
    {
        let parts = split(mode_path, '/');
        let ghost texts = split_text(mode_path@, '/');
        let mut out: Vec<&str> = Vec::new();
        let mut path = String::new();
        let mut i: usize = 0;
        while i < parts.len()
            invariant
                i <= parts.len(),
                texts == split_text(mode_path@, '/'),
                views(parts@) == texts,
                path@ == path_of(texts, i as int),
                str_views(out@) == capabilities_of(*self, texts, i as int),
            decreases parts.len() - i,
        {
            proof {
                assert(texts[i as int] == parts@[i as int]@);
            }
            if path.as_str().unicode_len() == 0 {
                path = parts[i].clone();
            } else {
                path = path.concat("/").concat(parts[i].as_str());
            }
            match self.modes.get(path.as_str()) {
                None => {},
                Some(mode) => {
                    let ghost before = out@;
                    let mut k: usize = 0;
                    while k < mode.capabilities.len()
                        invariant
                            k <= mode.capabilities.len(),
                            str_views(out@) == str_views(before) + views(mode.capabilities@).take(
                                k as int,
                            ),
                        decreases mode.capabilities.len() - k,
                    {
                        let cap = mode.capabilities[k].as_str();
                        let ghost held = out@;
                        out.push(cap);
                        proof {
                            assert(str_views(out@) == str_views(held).push(cap@));
                            assert(views(mode.capabilities@).take(k + 1) == views(
                                mode.capabilities@,
                            ).take(k as int).push(cap@));
                            assert(str_views(out@) == str_views(before) + views(
                                mode.capabilities@,
                            ).take(k + 1));
                        }
                        k = k + 1;
                    }
                    proof {
                        assert(views(mode.capabilities@).take(mode.capabilities@.len() as int)
                            == views(mode.capabilities@));
                    }
                },
            }
            i = i + 1;
        }
        proof {
            assert(texts.len() == views(parts@).len());
        }
        out
    }
}

/// A mode inherits what its parent mode can do: the capabilities of a path begin with those of
/// the path without its last segments.
pub proof fn capabilities_are_inherited(m: CameraManifest, parts: Seq<Seq<char>>, n: int, k: int)
    requires
        0 <= k <= n,
    ensures
        capabilities_of(m, parts, k).is_prefix_of(capabilities_of(m, parts, n)),
    decreases n - k,
{
    if k < n {
        capabilities_are_inherited(m, parts, n - 1, k);
    }
}

/// A mode set that covers a mode covers every mode below it.
pub proof fn mode_cover_is_inherited(modes: Seq<String>, mode: Seq<char>, below: Seq<char>)
    requires
        covers_mode(modes, mode),
        has_prefix(below, mode + "/"@),
    ensures
        covers_mode(modes, below),
{
    if modes.len() > 0 {
        let i = choose|i: int|
            0 <= i < modes.len() && (mode == (#[trigger] modes[i])@ || has_prefix(
                mode,
                modes[i]@ + "/"@,
            ));
        if mode != modes[i]@ {
            let p = modes[i]@ + "/"@;
            assert(below.take(p.len() as int) == mode.take(p.len() as int)) by {
                assert(below.take((mode + "/"@).len() as int) == mode + "/"@);
                assert forall|j: int| 0 <= j < p.len() implies below[j] == mode[j] by {
                    assert(below.take((mode + "/"@).len() as int)[j] == (mode + "/"@)[j]);
                }
            }
            assert(has_prefix(below, p));
        }
    }
}

/// A connection behind `i` is listed exactly where it is available.
proof fn listed_from(
    s: Seq<(String, Connection)>,
    firmware: Seq<char>,
    scheme: VersionScheme,
    id: Seq<char>,
    i: int,
)
    requires
        0 <= i <= s.len(),
    ensures
        available_ids_from(s, firmware, scheme, i).contains(id) == exists|k: int|
            i <= k < s.len() && (#[trigger] s[k]).0@ == id && connection_open(
                s[k].1,
                firmware,
                scheme,
            ),
    decreases s.len() - i,
{
    if i < s.len() {
        listed_from(s, firmware, scheme, id, i + 1);
        let rest = available_ids_from(s, firmware, scheme, i + 1);
        let all = available_ids_from(s, firmware, scheme, i);
        if connection_open(s[i].1, firmware, scheme) {
            assert(all == seq![s[i].0@] + rest);
            assert(all[0] == s[i].0@);
            if rest.contains(id) {
                let j = rest.index_of(id);
                assert(all[j + 1] == id);
            }
            if all.contains(id) && s[i].0@ != id {
                let j = all.index_of(id);
                assert(rest[j - 1] == id);
            }
        } else {
            assert(all == rest);
        }
        assert(all.contains(id) == (rest.contains(id) || (s[i].0@ == id && connection_open(
            s[i].1,
            firmware,
            scheme,
        ))));
    }
}

/// Whether a connection is available under a firmware: without a condition it always is.
pub open spec fn connection_open(c: Connection, firmware: Seq<char>, scheme: VersionScheme) -> bool {
    match c.available_when {
        Some(w) => available_when_holds(w, firmware, scheme),
        None => true,
    }
}

/// A connection is listed under a firmware exactly where its condition holds. One without a
/// condition is listed under every firmware.
pub proof fn listed_connections_are_open(
    m: CameraManifest,
    firmware: Seq<char>,
    scheme: VersionScheme,
    id: Seq<char>,
)
    ensures
        available_ids_from(m.connections.entries(), firmware, scheme, 0).contains(id) == exists|
            k: int,
        |
            0 <= k < m.connections.entries().len() && (#[trigger] m.connections.entries()[k]).0@
                == id && connection_open(m.connections.entries()[k].1, firmware, scheme),
{
    listed_from(m.connections.entries(), firmware, scheme, id, 0);
}

} // verus!
