//! Applying a reviewed proposal to a manifest.

use crate::generate::claims::{
    copy_numbers, row_models, DescriptorModel, ProfileModel, RowModel, Scope,
};
use crate::generate::integrity::{require_review, review_refused};
use crate::generate::propose::either;
use crate::generate::write::{
    label_models, optional_descriptor, profiles_of, scopes_of, AssertionModel, CandidateModel,
    LabelModel,
};
use crate::generate::{
    CandidateAssertion, GenerationError, Proposal, ProposalCandidate, ProposalReview,
    ReviewDisposition,
};
use crate::json::{json_i64, models, JsonModel};
use crate::model::{
    hex_code, parse_hex_code, CameraIdentity, CameraManifest, Descriptor, DescriptorValue, Evidence,
    Mode, ObservedScope, Operation, OperationKind, Property, PropertyAccess, PropertyKind,
    PropertyValueProfile, PropertyValueProfileRow, ValueSource,
};
use crate::name_map::{ascending, NameMap};
use crate::observation::{CapabilityDescriptor, CapabilityValueProfile, ExecutionContext};
use crate::order::{arrange, arranged, enter, entered, models_of, texts_before, Keyed, SortKey};
use crate::std_names::{
    operation_name, property_name, standard_operation_name, standard_property_name,
};
use crate::text::{
    copy_option, copy_texts, debug_text, join2, join4, join6, optional_text, precedes, same,
    same_option, text_debug, text_lt, text_lt_irreflexive, views,
};
use crate::validate::entries::manifest_violation;
use crate::validate::{broken_if, first};
use crate::SCHEMA_VERSION;
use vstd::prelude::*;

verus! {

impl View for ObservedScope {
    type V = Scope;

    open spec fn view(&self) -> Scope {
        (self.connection@, self.mode@, self.state@)
    }
}

impl Keyed for ObservedScope {
    type Model = Scope;

    open spec fn model(&self) -> Scope {
        self@
    }

    open spec fn key_of(m: Scope) -> SortKey {
        SortKey { major: m.0, minor: m.1, number: 0, last: m.2 }
    }

    fn sorts_before(&self, other: &Self) -> (r: bool) {
        texts_before(
            (self.connection.as_str(), self.mode.as_str(), self.state.as_str()),
            (other.connection.as_str(), other.mode.as_str(), other.state.as_str()),
        )
    }
}

impl View for PropertyValueProfileRow {
    type V = RowModel;

    open spec fn view(&self) -> RowModel {
        RowModel {
            label: self.label@,
            raw: self.raw,
            legal: self.legal,
            aliases: self.aliases@,
            write_store_raw: self.write_store_raw,
        }
    }
}

/// What the rows of a property's value profile say.
pub open spec fn property_rows(v: Seq<PropertyValueProfileRow>) -> Seq<RowModel> {
    Seq::new(v.len(), |i: int| v[i]@)
}

impl View for PropertyValueProfile {
    type V = ProfileModel;

    open spec fn view(&self) -> ProfileModel {
        ProfileModel {
            connection: optional_text(self.connection),
            mode: optional_text(self.mode),
            rows: property_rows(self.rows@),
            evidence: views(self.evidence@),
        }
    }
}

/// A text that sorts as an optional text does: what is absent comes first.
pub open spec fn optional_key(o: Option<Seq<char>>) -> Seq<char> {
    match o {
        Some(s) => seq!['!'] + s,
        None => Seq::empty(),
    }
}

/// Optional texts sort as their keys do.
pub proof fn optional_key_sorts(a: Option<Seq<char>>, b: Option<Seq<char>>)
    ensures
        text_lt(optional_key(a), optional_key(b)) == match (a, b) {
            (_, None) => false,
            (None, Some(_)) => true,
            (Some(x), Some(y)) => text_lt(x, y),
        },
        optional_key(a) == optional_key(b) ==> a == b,
{
    reveal_with_fuel(text_lt, 2);
    if a is Some && b is Some {
        assert(optional_key(a).drop_first() == a->0);
        assert(optional_key(b).drop_first() == b->0);
    }
}

/// Whether an optional text comes before another.
fn option_precedes(a: &Option<String>, b: &Option<String>) -> (r: bool)
    ensures
        r == text_lt(optional_key(optional_text(*a)), optional_key(optional_text(*b))),
{
    proof {
        optional_key_sorts(optional_text(*a), optional_text(*b));
    }
    match (a, b) {
        (_, None) => false,
        (None, Some(_)) => true,
        (Some(x), Some(y)) => precedes(x.as_str(), y.as_str()),
    }
}

impl Keyed for PropertyValueProfile {
    type Model = ProfileModel;

    open spec fn model(&self) -> ProfileModel {
        self@
    }

    open spec fn key_of(m: ProfileModel) -> SortKey {
        SortKey {
            major: optional_key(m.connection),
            minor: optional_key(m.mode),
            number: 0,
            last: Seq::empty(),
        }
    }

    fn sorts_before(&self, other: &Self) -> (r: bool) {
        proof {
            optional_key_sorts(self@.connection, other@.connection);
            optional_key_sorts(self@.mode, other@.mode);
            text_lt_irreflexive(optional_key(self@.mode));
            text_lt_irreflexive(Seq::<char>::empty());
        }
        if !same_option(&self.connection, &other.connection) {
            option_precedes(&self.connection, &other.connection)
        } else {
            option_precedes(&self.mode, &other.mode)
        }
    }
}

/// The evidence id of what observations gave.
pub const OBSERVATION_EVIDENCE: &'static str = "canonicalObservation";

/// Whether nothing changed but the camera, the evidence, the operations, the properties and the
/// modes.
pub open spec fn same_rest(a: CameraManifest, b: CameraManifest) -> bool {
    &&& a.schema == b.schema
    &&& a.semantic_assertions == b.semantic_assertions
    &&& a.sentinels == b.sentinels
    &&& a.sequence_gates == b.sequence_gates
    &&& a.camera_initiated_transfer == b.camera_initiated_transfer
    &&& a.workflows == b.workflows
    &&& a.media == b.media
    &&& a.focus_grid == b.focus_grid
    &&& a.events == b.events
    &&& a.quirks == b.quirks
    &&& a.connections == b.connections
    &&& a.values == b.values
}

/// Whether the evidence of observations is defined, and no other changed.
pub open spec fn evidence_noted(a: NameMap<Evidence>, b: NameMap<Evidence>) -> bool {
    let key = OBSERVATION_EVIDENCE@;
    &&& ascending(b.entries())
    &&& forall|k: Seq<char>| k != key ==> #[trigger] b.at(k) == a.at(k)
    &&& match a.at(key) {
        Some(e) => b.at(key) == Some(e),
        None => b.at(key) matches Some(e) && e.kind@ == "camera-observation"@ && e.path@
            == "evidence/"@ && e.date@ == ""@,
    }
}

/// Whether a mode declares nothing.
pub open spec fn blank_mode(m: Mode) -> bool {
    m.capabilities@.len() == 0 && m.detect is None && m.phase is None && m.extra.entries().len()
        == 0
}

/// Whether a mode is that of one of the first `n` scopes.
pub open spec fn observed_mode(scopes: Seq<Scope>, mode: Seq<char>, n: int) -> bool {
    exists|i: int| 0 <= i < n && i < scopes.len() && (#[trigger] scopes[i]).1 == mode
}

/// Whether the modes of the first `n` scopes are declared, and no other changed.
pub open spec fn modes_registered(
    a: NameMap<Mode>,
    b: NameMap<Mode>,
    scopes: Seq<Scope>,
    n: int,
) -> bool {
    &&& ascending(b.entries())
    &&& forall|k: Seq<char>|
        #![trigger b.at(k)]
        match a.at(k) {
            Some(m) => b.at(k) == Some(m),
            None => if observed_mode(scopes, k, n) {
                b.at(k) matches Some(m) && blank_mode(m)
            } else {
                b.at(k) is None
            },
        }
}

/// Declares the modes of the scopes.
fn register_observed_modes(modes: &mut NameMap<Mode>, scopes: &Vec<ExecutionContext>)
    ensures
        modes_registered(*old(modes), *final(modes), scopes_of(scopes@), scopes@.len() as int),
{
    let ghost all = scopes_of(scopes@);
    let mut i: usize = 0;
    modes.ordered();
    while i < scopes.len()
        invariant
            all == scopes_of(scopes@),
            i <= scopes@.len(),
            modes_registered(*old(modes), *modes, all, i as int),
        decreases scopes@.len() - i,
    {
        let mode = &scopes[i].mode;
        let ghost before = *modes;
        proof {
            assert(all[i as int].1 == mode@);
            assert forall|k: Seq<char>| observed_mode(all, k, i + 1) == (observed_mode(
                all,
                k,
                i as int,
            ) || k == mode@) by {
                if k == mode@ {
                    assert(all[i as int].1 == k);
                }
            }
        }
        if !modes.contains_key(mode.as_str()) {
            let blank = Mode {
                capabilities: Vec::new(),
                detect: None,
                phase: None,
                extra: NameMap::new(),
            };
            modes.insert(mode.clone(), blank);
        }
        modes.ordered();
        proof {
            assert forall|k: Seq<char>|
                #![trigger modes.at(k)]
                match old(modes).at(k) {
                    Some(m) => modes.at(k) == Some(m),
                    None => if observed_mode(all, k, i + 1) {
                        modes.at(k) matches Some(m) && blank_mode(m)
                    } else {
                        modes.at(k) is None
                    },
                } by {
                assert(before.at(k) == before.at(k));
            }
        }
        i = i + 1;
    }
}

/// The ascending row `v`, without repeats, with the first `n` scopes put in.
pub open spec fn with_scopes(v: Seq<Scope>, more: Seq<Scope>, n: int) -> Seq<Scope>
    decreases n,
{
    if n <= 0 || n > more.len() {
        v
    } else {
        entered::<ObservedScope>(with_scopes(v, more, n - 1), more[n - 1])
    }
}

/// All scopes of two rows, in ascending order, each once.
pub open spec fn scope_union(a: Seq<Scope>, b: Seq<Scope>) -> Seq<Scope> {
    with_scopes(with_scopes(Seq::empty(), a, a.len() as int), b, b.len() as int)
}

/// The scopes that a row of observed scopes names.
pub open spec fn observed_of(v: Seq<ObservedScope>) -> Seq<Scope> {
    Seq::new(v.len(), |i: int| v[i]@)
}

/// The observed scope of a context.
fn model_scope(c: &ExecutionContext) -> (r: ObservedScope)
    ensures
        r@ == c@,
{
    ObservedScope {
        connection: c.connection.clone(),
        mode: c.mode.clone(),
        state: c.state.clone(),
    }
}

/// All scopes of two rows, in ascending order, each once.
fn merge_scopes(target: Vec<ObservedScope>, incoming: &Vec<ExecutionContext>) -> (r: Vec<
    ObservedScope,
>)
    ensures
        observed_of(r@) == scope_union(observed_of(target@), scopes_of(incoming@)),
{
    let mut out: Vec<ObservedScope> = Vec::new();
    let ghost a = observed_of(target@);
    let ghost b = scopes_of(incoming@);
    let total: usize = target.len();
    proof {
        assert(models_of(out@) == Seq::<Scope>::empty());
    }
    for s in it: target
        invariant
            observed_of(it.seq()) == a,
            models_of(out@) == with_scopes(Seq::empty(), a, it.index() as int),
    {
        proof {
            assert(a[it.index() as int] == s@);
        }
        enter(&mut out, s);
    }
    let ghost middle = models_of(out@);
    let mut i: usize = 0;
    while i < incoming.len()
        invariant
            b == scopes_of(incoming@),
            i <= incoming@.len(),
            models_of(out@) == with_scopes(middle, b, i as int),
        decreases incoming@.len() - i,
    {
        proof {
            assert(b[i as int] == incoming@[i as int]@);
        }
        enter(&mut out, model_scope(&incoming[i]));
        i = i + 1;
    }
    proof {
        assert(models_of(out@) == observed_of(out@));
    }
    out
}

/// The modes of the first `n` scopes, in ascending order, each once.
pub open spec fn scope_modes(scopes: Seq<Scope>, n: int) -> Seq<Seq<char>>
    decreases n,
{
    if n <= 0 || n > scopes.len() {
        Seq::empty()
    } else {
        entered::<String>(scope_modes(scopes, n - 1), scopes[n - 1].1)
    }
}

/// The connections of the first `n` scopes, in ascending order, each once.
pub open spec fn scope_connections(scopes: Seq<Scope>, n: int) -> Seq<Seq<char>>
    decreases n,
{
    if n <= 0 || n > scopes.len() {
        Seq::empty()
    } else {
        entered::<String>(scope_connections(scopes, n - 1), scopes[n - 1].0)
    }
}

/// The modes and the connections of scopes, in ascending order, each once.
fn collect_places(scopes: &Vec<ExecutionContext>) -> (r: (Vec<String>, Vec<String>))
    ensures
        views(r.0@) == scope_modes(scopes_of(scopes@), scopes@.len() as int),
        views(r.1@) == scope_connections(scopes_of(scopes@), scopes@.len() as int),
{
    let ghost all = scopes_of(scopes@);
    let mut modes: Vec<String> = Vec::new();
    let mut connections: Vec<String> = Vec::new();
    proof {
        assert(models_of(modes@) == Seq::<Seq<char>>::empty());
        assert(models_of(connections@) == Seq::<Seq<char>>::empty());
    }
    let mut i: usize = 0;
    while i < scopes.len()
        invariant
            all == scopes_of(scopes@),
            i <= scopes@.len(),
            models_of(modes@) == scope_modes(all, i as int),
            models_of(connections@) == scope_connections(all, i as int),
        decreases scopes@.len() - i,
    {
        proof {
            assert(all[i as int] == scopes@[i as int]@);
        }
        enter(&mut modes, scopes[i].mode.clone());
        enter(&mut connections, scopes[i].connection.clone());
        i = i + 1;
    }
    proof {
        assert(models_of(modes@) == views(modes@));
        assert(models_of(connections@) == views(connections@));
    }
    (modes, connections)
}

/// The name of a code that no manifest named: the standard name, or the code itself.
pub open spec fn fresh_name(code: Seq<char>, standard: Option<Seq<char>>) -> Seq<char> {
    match standard {
        Some(name) => name,
        None => "raw_"@ + code,
    }
}

/// The standard name of an operation.
pub open spec fn standard_operation(code: Seq<char>) -> Option<Seq<char>> {
    match hex_code(code) {
        Some(n) => operation_name(n),
        None => None,
    }
}

/// The standard name of a property.
pub open spec fn standard_property(code: Seq<char>) -> Option<Seq<char>> {
    match hex_code(code) {
        Some(n) => property_name(n),
        None => None,
    }
}

/// Whether an operation is the one that observations alone give.
pub open spec fn fresh_operation(o: Operation, code: Seq<char>, scopes: Seq<Scope>) -> bool {
    let n = scopes.len() as int;
    &&& o.name@ == fresh_name(code, standard_operation(code))
    &&& o.kind == OperationKind::Executable
    &&& o.owner@ == ""@
    &&& o.data_phase is None
    &&& o.params@.len() == 0
    &&& o.workflows@.len() == 0
    &&& o.handler is None
    &&& o.property is None
    &&& o.object_size is None
    &&& views(o.modes@) == scope_modes(scopes, n)
    &&& views(o.connections@) == scope_connections(scopes, n)
    &&& o.requires is None
    &&& o.requires_gate is None
    &&& o.effects@.len() == 0
    &&& o.emits@.len() == 0
    &&& views(o.evidence@) == seq![OBSERVATION_EVIDENCE@]
    &&& observed_of(o.observed_scopes@) == scope_union(Seq::empty(), scopes)
}

/// Whether what no candidate changes of an operation is as before.
pub open spec fn same_operation_rest(a: Operation, b: Operation) -> bool {
    &&& b.name == a.name
    &&& b.kind == a.kind
    &&& b.owner == a.owner
    &&& b.data_phase == a.data_phase
    &&& b.params == a.params
    &&& b.workflows == a.workflows
    &&& b.handler == a.handler
    &&& b.property == a.property
    &&& b.object_size == a.object_size
    &&& b.modes == a.modes
    &&& b.connections == a.connections
    &&& b.requires == a.requires
    &&& b.requires_gate == a.requires_gate
    &&& b.effects == a.effects
    &&& b.emits == a.emits
    &&& b.evidence == a.evidence
}

/// Whether an operation gained the scopes and nothing else changed.
pub open spec fn widened_operation(a: Operation, b: Operation, scopes: Seq<Scope>) -> bool {
    &&& same_operation_rest(a, b)
    &&& observed_of(b.observed_scopes@) == scope_union(observed_of(a.observed_scopes@), scopes)
}

/// Whether the operation `code` was observed in the scopes, and no other changed.
pub open spec fn operation_applied(
    a: NameMap<Operation>,
    b: NameMap<Operation>,
    code: Seq<char>,
    scopes: Seq<Scope>,
) -> bool {
    &&& ascending(b.entries())
    &&& forall|k: Seq<char>| k != code ==> #[trigger] b.at(k) == a.at(k)
    &&& match a.at(code) {
        Some(o) => b.at(code) matches Some(p) && widened_operation(o, p, scopes),
        None => b.at(code) matches Some(p) && fresh_operation(p, code, scopes),
    }
}

/// A row that holds the evidence id of observations.
fn observation_evidence() -> (r: Vec<String>)
    ensures
        views(r@) == seq![OBSERVATION_EVIDENCE@],
{
    let mut out: Vec<String> = Vec::new();
    out.push(OBSERVATION_EVIDENCE.to_owned());
    proof {
        assert(views(out@) == seq![OBSERVATION_EVIDENCE@]);
    }
    out
}

/// The name of an operation that no manifest named.
fn name_operation(code: &str) -> (r: String)
    ensures
        r@ == fresh_name(code@, standard_operation(code@)),
{
    let standard = match parse_hex_code(code) {
        Some(n) => standard_operation_name(n),
        None => None,
    };
    match standard {
        Some(name) => name.to_owned(),
        None => join2("raw_", code),
    }
}

/// The name of a property that no manifest named.
fn name_property(code: &str) -> (r: String)
    ensures
        r@ == fresh_name(code@, standard_property(code@)),
{
    let standard = match parse_hex_code(code) {
        Some(n) => standard_property_name(n),
        None => None,
    };
    match standard {
        Some(name) => name.to_owned(),
        None => join2("raw_", code),
    }
}

/// The operation that observations alone give.
fn new_operation(code: &str, scopes: &Vec<ExecutionContext>) -> (r: Operation)
    ensures
        fresh_operation(r, code@, scopes_of(scopes@)),
{
    let (modes, connections) = collect_places(scopes);
    let none: Vec<ObservedScope> = Vec::new();
    proof {
        assert(observed_of(none@) == Seq::<Scope>::empty());
    }
    Operation {
        name: name_operation(code),
        kind: OperationKind::Executable,
        owner: "".to_owned(),
        data_phase: None,
        params: Vec::new(),
        workflows: Vec::new(),
        handler: None,
        property: None,
        object_size: None,
        modes,
        connections,
        requires: None,
        requires_gate: None,
        effects: Vec::new(),
        emits: Vec::new(),
        evidence: observation_evidence(),
        observed_scopes: merge_scopes(none, scopes),
    }
}

/// Records that the operation `code` was observed in the scopes.
fn apply_operation(
    operations: &mut NameMap<Operation>,
    code: &String,
    scopes: &Vec<ExecutionContext>,
)
    ensures
        operation_applied(*old(operations), *final(operations), code@, scopes_of(scopes@)),
{
    let operation = match operations.remove(code.as_str()) {
        Some(o) => {
            let mut operation = o;
            let mut observed: Vec<ObservedScope> = Vec::new();
            std::mem::swap(&mut operation.observed_scopes, &mut observed);
            operation.observed_scopes = merge_scopes(observed, scopes);
            operation
        },
        None => new_operation(code.as_str(), scopes),
    };
    operations.insert(code.clone(), operation);
    operations.ordered();
}

/// The access with a name.
pub open spec fn access_named(s: Seq<char>) -> Option<PropertyAccess> {
    if s == "readOnly"@ {
        Some(PropertyAccess::ReadOnly)
    } else if s == "readWrite"@ {
        Some(PropertyAccess::ReadWrite)
    } else {
        None
    }
}

/// The access with a name.
fn parse_access(s: &str) -> (r: Option<PropertyAccess>)
    ensures
        r == access_named(s@),
{
    if same(s, "readOnly") {
        Some(PropertyAccess::ReadOnly)
    } else if same(s, "readWrite") {
        Some(PropertyAccess::ReadWrite)
    } else {
        None
    }
}

/// The integers among the first `n` values.
pub open spec fn integers(v: Seq<JsonModel>, n: int) -> Seq<DescriptorValue>
    decreases n,
{
    if n <= 0 || n > v.len() {
        Seq::empty()
    } else {
        match json_i64(v[n - 1]) {
            Some(k) => integers(v, n - 1).push(DescriptorValue::Int(k)),
            None => integers(v, n - 1),
        }
    }
}

/// Whether a descriptor is the one that the camera enumerated.
pub open spec fn camera_descriptor(d: Descriptor, m: DescriptorModel) -> bool {
    d.form@ == m.form && d.values@ == integers(m.values, m.values.len() as int) && d.source == Some(
        ValueSource::Camera,
    )
}

/// The descriptor that the camera enumerated.
fn read_descriptor(d: &CapabilityDescriptor) -> (r: Descriptor)
    ensures
        camera_descriptor(r, d@),
{
    let ghost all = d@.values;
    let mut values: Vec<DescriptorValue> = Vec::new();
    let mut i: usize = 0;
    while i < d.values.len()
        invariant
            all == models(d.values@),
            i <= d.values@.len(),
            values@ == integers(all, i as int),
        decreases d.values@.len() - i,
    {
        proof {
            assert(all[i as int] == d.values@[i as int]@);
        }
        match d.values[i].as_i64() {
            Some(n) => {
                values.push(DescriptorValue::Int(n));
            },
            None => {},
        }
        i = i + 1;
    }
    Descriptor { form: d.form.clone(), values, source: Some(ValueSource::Camera) }
}

/// The first `n` profiles of another connection or mode than `p`.
pub open spec fn other_profiles(v: Seq<ProfileModel>, p: ProfileModel, n: int) -> Seq<ProfileModel>
    decreases n,
{
    if n <= 0 || n > v.len() {
        Seq::empty()
    } else if v[n - 1].connection == p.connection && v[n - 1].mode == p.mode {
        other_profiles(v, p, n - 1)
    } else {
        other_profiles(v, p, n - 1).push(v[n - 1])
    }
}

/// The profiles `v`, with the first `n` of `more` in place of those of their connection and mode.
pub open spec fn with_value_profiles(
    v: Seq<ProfileModel>,
    more: Seq<ProfileModel>,
    n: int,
) -> Seq<ProfileModel>
    decreases n,
{
    if n <= 0 || n > more.len() {
        v
    } else {
        let front = with_value_profiles(v, more, n - 1);
        other_profiles(front, more[n - 1], front.len() as int).push(more[n - 1])
    }
}

/// What a row of a property's value profiles says.
pub open spec fn value_profiles_of(v: Seq<PropertyValueProfile>) -> Seq<ProfileModel> {
    Seq::new(v.len(), |i: int| v[i]@)
}

/// The value profile of a property that a capability's says.
fn read_profile(p: &CapabilityValueProfile) -> (r: PropertyValueProfile)
    ensures
        r@ == p@,
{
    let mut rows: Vec<PropertyValueProfileRow> = Vec::new();
    let ghost all = row_models(p.rows@);
    proof {
        assert(property_rows(rows@) == all.take(0));
    }
    let mut i: usize = 0;
    while i < p.rows.len()
        invariant
            all == row_models(p.rows@),
            i <= p.rows@.len(),
            property_rows(rows@) == all.take(i as int),
        decreases p.rows@.len() - i,
    {
        let row = &p.rows[i];
        let ghost before = rows@;
        rows.push(
            PropertyValueProfileRow {
                label: row.label.clone(),
                raw: row.raw,
                legal: row.legal,
                aliases: copy_numbers(&row.aliases),
                write_store_raw: row.write_store_raw,
            },
        );
        proof {
            assert(rows@.last()@ == all[i as int]);
            assert(property_rows(rows@) == property_rows(before).push(all[i as int]));
            assert(all.take(i + 1) == all.take(i as int).push(all[i as int]));
        }
        i = i + 1;
    }
    proof {
        assert(all.take(p.rows@.len() as int) == all);
    }
    PropertyValueProfile {
        connection: copy_option(&p.connection),
        mode: copy_option(&p.mode),
        rows,
        evidence: copy_texts(&p.evidence),
    }
}

/// The profiles of another connection or mode than `p`, and `p` behind them.
fn replace_profile(v: Vec<PropertyValueProfile>, p: PropertyValueProfile) -> (r: Vec<
    PropertyValueProfile,
>)
    ensures
        value_profiles_of(r@) == other_profiles(
            value_profiles_of(v@),
            p@,
            v@.len() as int,
        ).push(p@),
{
    let mut out: Vec<PropertyValueProfile> = Vec::new();
    let ghost all = value_profiles_of(v@);
    proof {
        assert(value_profiles_of(out@) == Seq::<ProfileModel>::empty());
    }
    for current in it: v
        invariant
            value_profiles_of(it.seq()) == all,
            value_profiles_of(out@) == other_profiles(all, p@, it.index() as int),
    {
        proof {
            assert(all[it.index() as int] == current@);
        }
        if !same_option(&current.connection, &p.connection) || !same_option(
            &current.mode,
            &p.mode,
        ) {
            let ghost before = out@;
            out.push(current);
            proof {
                assert(value_profiles_of(out@) == value_profiles_of(before).push(current@));
            }
        }
    }
    let ghost before = out@;
    out.push(p);
    proof {
        assert(value_profiles_of(out@) == value_profiles_of(before).push(p@));
    }
    out
}

/// The profiles with those of the candidate in place of those of their connection and mode, in
/// the order of connection and mode.
fn merge_profiles(v: Vec<PropertyValueProfile>, more: &Vec<CapabilityValueProfile>) -> (r: Vec<
    PropertyValueProfile,
>)
    ensures
        value_profiles_of(r@) == arranged::<PropertyValueProfile>(
            with_value_profiles(
                value_profiles_of(v@),
                profiles_of(more@),
                more@.len() as int,
            ),
        ),
{
    let ghost start = value_profiles_of(v@);
    let ghost all = profiles_of(more@);
    let mut out = v;
    let mut i: usize = 0;
    while i < more.len()
        invariant
            all == profiles_of(more@),
            i <= more@.len(),
            value_profiles_of(out@) == with_value_profiles(start, all, i as int),
        decreases more@.len() - i,
    {
        proof {
            assert(all[i as int] == more@[i as int]@);
            assert(value_profiles_of(out@).len() == out@.len());
        }
        out = replace_profile(out, read_profile(&more[i]));
        i = i + 1;
    }
    proof {
        assert(models_of(out@) == value_profiles_of(out@));
    }
    let sorted = arrange(out);
    proof {
        assert(models_of(sorted@) == value_profiles_of(sorted@));
    }
    sorted
}

/// The name that the last of the first `n` labels gives a value.
pub open spec fn label_for(v: Seq<LabelModel>, raw: Seq<char>, n: int) -> Option<Seq<char>>
    decreases n,
{
    if n <= 0 || n > v.len() {
        None
    } else if v[n - 1].0 == raw {
        Some(v[n - 1].1)
    } else {
        label_for(v, raw, n - 1)
    }
}

/// Whether the first `n` labels were put in, and no other changed.
pub open spec fn labels_applied(
    a: NameMap<String>,
    b: NameMap<String>,
    labels: Seq<LabelModel>,
    n: int,
) -> bool {
    &&& ascending(b.entries())
    &&& forall|k: Seq<char>|
        #![trigger b.at(k)]
        optional_text(b.at(k)) == either(label_for(labels, k, n), optional_text(a.at(k)))
}

/// Puts labels in.
fn apply_labels(target: &mut NameMap<String>, labels: &NameMap<String>)
    ensures
        labels_applied(
            *old(target),
            *final(target),
            label_models(labels.entries()),
            labels.entries().len() as int,
        ),
{
    let ghost all = label_models(labels.entries());
    let mut i: usize = 0;
    target.ordered();
    while i < labels.len()
        invariant
            all == label_models(labels.entries()),
            i <= labels.entries().len(),
            labels_applied(*old(target), *target, all, i as int),
        decreases labels.entries().len() - i,
    {
        let ghost before = *target;
        target.insert(labels.key_at(i).clone(), labels.value_at(i).clone());
        target.ordered();
        proof {
            assert forall|k: Seq<char>|
                #![trigger target.at(k)]
                optional_text(target.at(k)) == either(
                    label_for(all, k, i + 1),
                    optional_text(old(target).at(k)),
                ) by {
                assert(before.at(k) == before.at(k));
            }
        }
        i = i + 1;
    }
}

/// Whether what no candidate changes of a property is as before.
pub open spec fn same_property_rest(a: Property, b: Property) -> bool {
    &&& b.name == a.name
    &&& b.ptp_name == a.ptp_name
    &&& b.initial_value == a.initial_value
    &&& b.kind == a.kind
    &&& b.payload == a.payload
    &&& b.computed == a.computed
    &&& b.controls == a.controls
    &&& b.value_rows == a.value_rows
    &&& b.value_encoding == a.value_encoding
    &&& b.structured_text == a.structured_text
    &&& b.requires_gate == a.requires_gate
    &&& b.evidence == a.evidence
}

/// Whether a property is the one that a code alone gives.
pub open spec fn fresh_property(p: Property, code: Seq<char>) -> bool {
    &&& p.name@ == fresh_name(code, standard_property(code))
    &&& p.ptp_name is None
    &&& p.ptype is None
    &&& p.access is None
    &&& p.initial_value is None
    &&& p.kind == PropertyKind::Setting
    &&& p.descriptor is None
    &&& p.payload is None
    &&& p.computed is None
    &&& p.controls.entries().len() == 0
    &&& p.labels.entries().len() == 0
    &&& p.value_rows@.len() == 0
    &&& p.value_profiles@.len() == 0
    &&& p.value_encoding is None
    &&& p.structured_text is None
    &&& p.requires_gate is None
    &&& views(p.evidence@) == seq![OBSERVATION_EVIDENCE@]
    &&& p.observed_scopes@.len() == 0
}

/// Whether a property gained what the assertion says of it.
pub open spec fn property_updated(a: Property, b: Property, m: AssertionModel) -> bool {
    match m {
        AssertionModel::Property {
            property_type,
            access,
            descriptor,
            labels,
            profiles,
            scopes,
            ..
        } => {
            &&& same_property_rest(a, b)
            &&& optional_text(b.ptype) == either(property_type, optional_text(a.ptype))
            &&& b.access == match access {
                Some(s) => access_named(s),
                None => a.access,
            }
            &&& match descriptor {
                Some(d) => b.descriptor matches Some(x) && camera_descriptor(x, d),
                None => b.descriptor == a.descriptor,
            }
            &&& labels_applied(a.labels, b.labels, labels, labels.len() as int)
            &&& value_profiles_of(b.value_profiles@) == arranged::<PropertyValueProfile>(
                with_value_profiles(
                    value_profiles_of(a.value_profiles@),
                    profiles,
                    profiles.len() as int,
                ),
            )
            &&& observed_of(b.observed_scopes@) == scope_union(
                observed_of(a.observed_scopes@),
                scopes,
            )
        },
        _ => false,
    }
}

/// Whether the property `code` gained what the assertion says of it, and no other changed.
pub open spec fn property_applied(
    a: NameMap<Property>,
    b: NameMap<Property>,
    code: Seq<char>,
    m: AssertionModel,
) -> bool {
    &&& ascending(b.entries())
    &&& forall|k: Seq<char>| k != code ==> #[trigger] b.at(k) == a.at(k)
    &&& match a.at(code) {
        Some(p) => b.at(code) matches Some(q) && property_updated(p, q, m),
        None => b.at(code) matches Some(q) && exists|p: Property|
            #[trigger] fresh_property(p, code) && property_updated(p, q, m),
    }
}

/// The property that a code alone gives.
fn new_property(code: &str) -> (r: Property)
    ensures
        fresh_property(r, code@),
{
    Property {
        name: name_property(code),
        ptp_name: None,
        ptype: None,
        access: None,
        initial_value: None,
        kind: PropertyKind::Setting,
        descriptor: None,
        payload: None,
        computed: None,
        controls: NameMap::new(),
        labels: NameMap::new(),
        value_rows: Vec::new(),
        value_profiles: Vec::new(),
        value_encoding: None,
        structured_text: None,
        requires_gate: None,
        evidence: observation_evidence(),
        observed_scopes: Vec::new(),
    }
}

/// How an assertion conflicts with the camera of a manifest.
pub open spec fn camera_conflict(
    c: CameraIdentity,
    manufacturer: Seq<char>,
    model: Seq<char>,
    firmware: Seq<char>,
) -> Option<Seq<char>> {
    first(
        field_conflict("manufacturer"@, c.manufacturer@, manufacturer),
        first(
            field_conflict("model"@, c.model@, model),
            field_conflict("firmware"@, c.firmware@, firmware),
        ),
    )
}

/// How a proposed value conflicts with the one that is there.
pub open spec fn field_conflict(
    field: Seq<char>,
    current: Seq<char>,
    proposed: Seq<char>,
) -> Option<Seq<char>> {
    broken_if(
        current.len() > 0 && current != proposed,
        "camera "@ + field + " "@ + text_debug(current) + " conflicts with "@ + text_debug(
            proposed,
        ),
    )
}

/// How an assertion conflicts with a manifest.
pub open spec fn apply_conflict(m: CameraManifest, a: AssertionModel) -> Option<Seq<char>> {
    match a {
        AssertionModel::CameraIdentity { manufacturer, model, firmware } => camera_conflict(
            m.camera,
            manufacturer,
            model,
            firmware,
        ),
        AssertionModel::Operation { .. } => None,
        AssertionModel::Property { code, supported, access, .. } => match access {
            Some(s) => broken_if(
                supported && access_named(s) is None,
                "property "@ + code + " has unknown access "@ + text_debug(s),
            ),
            None => None,
        },
    }
}

/// The text that is there, or the proposed one.
pub open spec fn filled(current: Seq<char>, proposed: Seq<char>) -> Seq<char> {
    if current.len() == 0 {
        proposed
    } else {
        current
    }
}

/// Whether a manifest gained what an assertion says. An assertion that something is not supported
/// changes nothing.
pub open spec fn applied(a: CameraManifest, b: CameraManifest, m: AssertionModel) -> bool {
    match m {
        AssertionModel::CameraIdentity { manufacturer, model, firmware } => {
            &&& same_rest(a, b)
            &&& b.camera.manufacturer@ == filled(a.camera.manufacturer@, manufacturer)
            &&& b.camera.model@ == filled(a.camera.model@, model)
            &&& b.camera.firmware@ == filled(a.camera.firmware@, firmware)
            &&& b.camera.identities == a.camera.identities
            &&& b.operations == a.operations
            &&& b.properties == a.properties
            &&& b.modes == a.modes
            &&& evidence_noted(a.evidence, b.evidence)
        },
        AssertionModel::Operation { code, supported, scopes } => if !supported {
            b == a
        } else {
            &&& same_rest(a, b)
            &&& b.camera == a.camera
            &&& operation_applied(a.operations, b.operations, code, scopes)
            &&& b.properties == a.properties
            &&& modes_registered(a.modes, b.modes, scopes, scopes.len() as int)
            &&& evidence_noted(a.evidence, b.evidence)
        },
        AssertionModel::Property { code, supported, scopes, .. } => if !supported {
            b == a
        } else {
            &&& same_rest(a, b)
            &&& b.camera == a.camera
            &&& b.operations == a.operations
            &&& property_applied(a.properties, b.properties, code, m)
            &&& modes_registered(a.modes, b.modes, scopes, scopes.len() as int)
            &&& evidence_noted(a.evidence, b.evidence)
        },
    }
}

/// Checks a proposed value against the one that is there.
fn require_field(field: &str, current: &str, proposed: &str) -> (r: Option<String>)
    ensures
        field_conflict(field@, current@, proposed@) == match r {
            Some(m) => Some(m@),
            None => None,
        },
{
    if current.unicode_len() > 0 && !same(current, proposed) {
        Some(
            join6(
                "camera ",
                field,
                " ",
                debug_text(current).as_str(),
                " conflicts with ",
                debug_text(proposed).as_str(),
            ),
        )
    } else {
        None
    }
}

/// Defines the evidence of observations.
fn note_evidence(evidence: &mut NameMap<Evidence>)
    ensures
        evidence_noted(*old(evidence), *final(evidence)),
{
    if !evidence.contains_key(OBSERVATION_EVIDENCE) {
        evidence.insert(
            OBSERVATION_EVIDENCE.to_owned(),
            Evidence {
                kind: "camera-observation".to_owned(),
                path: "evidence/".to_owned(),
                date: "".to_owned(),
            },
        );
    }
    evidence.ordered();
}

/// Names the camera, where the manifest leaves it open.
fn apply_identity(
    camera: &mut CameraIdentity,
    manufacturer: &String,
    model: &String,
    firmware: &String,
) -> (r: Result<(), GenerationError>)
    ensures
        match r {
            Ok(_) => camera_conflict(*old(camera), manufacturer@, model@, firmware@) is None
                && final(camera).manufacturer@ == filled(old(camera).manufacturer@, manufacturer@)
                && final(camera).model@ == filled(old(camera).model@, model@)
                && final(camera).firmware@ == filled(old(camera).firmware@, firmware@)
                && final(camera).identities == old(camera).identities,
            Err(e) => *final(camera) == *old(camera) && (e matches GenerationError::ApplyConflict(m)
                && camera_conflict(*old(camera), manufacturer@, model@, firmware@) == Some(m@)),
        },
{
    match require_field("manufacturer", camera.manufacturer.as_str(), manufacturer.as_str()) {
        Some(m) => {
            return Err(GenerationError::ApplyConflict(m));
        },
        None => {},
    }
    match require_field("model", camera.model.as_str(), model.as_str()) {
        Some(m) => {
            return Err(GenerationError::ApplyConflict(m));
        },
        None => {},
    }
    match require_field("firmware", camera.firmware.as_str(), firmware.as_str()) {
        Some(m) => {
            return Err(GenerationError::ApplyConflict(m));
        },
        None => {},
    }
    if camera.manufacturer.as_str().unicode_len() == 0 {
        camera.manufacturer = manufacturer.clone();
    }
    if camera.model.as_str().unicode_len() == 0 {
        camera.model = model.clone();
    }
    if camera.firmware.as_str().unicode_len() == 0 {
        camera.firmware = firmware.clone();
    }
    Ok(())
}

/// Records what an assertion says of a property.
fn apply_property(
    properties: &mut NameMap<Property>,
    code: &String,
    property_type: &Option<String>,
    access: Option<PropertyAccess>,
    descriptor: &Option<CapabilityDescriptor>,
    labels: &NameMap<String>,
    value_profiles: &Vec<CapabilityValueProfile>,
    scopes: &Vec<ExecutionContext>,
    Ghost(m): Ghost<AssertionModel>,
)
    requires
        m matches AssertionModel::Property {
            property_type: t,
            access: a,
            descriptor: d,
            labels: l,
            profiles: p,
            scopes: s,
            ..
        } && t == optional_text(*property_type) && access == (match a {
            Some(x) => access_named(x),
            None => None,
        }) && (a is Some ==> access is Some) && d == optional_descriptor(*descriptor) && l
            == label_models(labels.entries()) && p == profiles_of(value_profiles@) && s
            == scopes_of(scopes@),
    ensures
        property_applied(*old(properties), *final(properties), code@, m),
{
    let property = match properties.remove(code.as_str()) {
        Some(p) => p,
        None => new_property(code.as_str()),
    };
    let ghost start = property;
    let mut property = property;
    if property_type.is_some() {
        property.ptype = copy_option(property_type);
    }
    if access.is_some() {
        property.access = access;
    }
    match descriptor {
        Some(d) => {
            property.descriptor = Some(read_descriptor(d));
        },
        None => {},
    }
    apply_labels(&mut property.labels, labels);
    let mut profiles: Vec<PropertyValueProfile> = Vec::new();
    std::mem::swap(&mut property.value_profiles, &mut profiles);
    property.value_profiles = merge_profiles(profiles, value_profiles);
    let mut observed: Vec<ObservedScope> = Vec::new();
    std::mem::swap(&mut property.observed_scopes, &mut observed);
    property.observed_scopes = merge_scopes(observed, scopes);
    proof {
        assert(property_updated(start, property, m));
    }
    properties.insert(code.clone(), property);
    properties.ordered();
}

/// Records what a candidate asserts, unless it conflicts with the manifest.
pub fn apply_candidate(manifest: &mut CameraManifest, candidate: &ProposalCandidate) -> (r: Result<
    (),
    GenerationError,
>)
    ensures
        match r {
            Ok(_) => apply_conflict(*old(manifest), candidate.assertion@) is None && applied(
                *old(manifest),
                *final(manifest),
                candidate.assertion@,
            ),
            Err(e) => *final(manifest) == *old(manifest) && (
            e matches GenerationError::ApplyConflict(m) && apply_conflict(
                *old(manifest),
                candidate.assertion@,
            ) == Some(m@)),
        },
{
    let ghost m = candidate.assertion@;
    match &candidate.assertion {
        CandidateAssertion::CameraIdentity { manufacturer, model, firmware } => {
            match apply_identity(&mut manifest.camera, manufacturer, model, firmware) {
                Err(e) => {
                    return Err(e);
                },
                Ok(_) => {},
            }
        },
        CandidateAssertion::Operation { code, supported, scopes } => {
            if !*supported {
                return Ok(());
            }
            register_observed_modes(&mut manifest.modes, scopes);
            apply_operation(&mut manifest.operations, code, scopes);
        },
        CandidateAssertion::Property {
            code,
            supported,
            property_type,
            access,
            descriptor,
            labels,
            value_profiles,
            scopes,
        } => {
            if !*supported {
                return Ok(());
            }
            let declared = match access {
                Some(s) => {
                    let named = parse_access(s.as_str());
                    if named.is_none() {
                        return Err(
                            GenerationError::ApplyConflict(
                                join4(
                                    "property ",
                                    code.as_str(),
                                    " has unknown access ",
                                    debug_text(s.as_str()).as_str(),
                                ),
                            ),
                        );
                    }
                    named
                },
                None => None,
            };
            register_observed_modes(&mut manifest.modes, scopes);
            apply_property(
                &mut manifest.properties,
                code,
                property_type,
                declared,
                descriptor,
                labels,
                value_profiles,
                scopes,
                Ghost(m),
            );
        },
    }
    note_evidence(&mut manifest.evidence);
    Ok(())
}

/// Whether a manifest gained what the accepted candidates from `i` on assert, one after the other.
pub open spec fn applies(
    a: CameraManifest,
    b: CameraManifest,
    c: Seq<CandidateModel>,
    d: NameMap<ReviewDisposition>,
    i: int,
) -> bool
    decreases c.len() - i,
{
    if i < 0 || i >= c.len() {
        b == a
    } else if d.at(c[i].id) != Some(ReviewDisposition::Accept) {
        applies(a, b, c, d, i + 1)
    } else {
        apply_conflict(a, c[i].assertion) is None && exists|x: CameraManifest|
            #[trigger] applied(a, x, c[i].assertion) && applies(x, b, c, d, i + 1)
    }
}

/// What a manifest is refused for: its schema, or the first rule that it breaks.
pub open spec fn manifest_refusal(m: CameraManifest) -> Option<Seq<char>> {
    first(
        broken_if(
            m.schema@ != SCHEMA_VERSION@,
            "unsupported schema "@ + text_debug(m.schema@) + "; this build understands "@
                + text_debug(SCHEMA_VERSION@),
        ),
        manifest_violation(m),
    )
}

/// Whether the accepted candidates from `i` on are refused with a message: one of them conflicts
/// with the manifest that those before it give, or the manifest that all of them give is refused.
pub open spec fn apply_refused(
    a: CameraManifest,
    message: Seq<char>,
    c: Seq<CandidateModel>,
    d: NameMap<ReviewDisposition>,
    i: int,
) -> bool
    decreases c.len() - i,
{
    if i < 0 || i >= c.len() {
        manifest_refusal(a) == Some(message)
    } else if d.at(c[i].id) != Some(ReviewDisposition::Accept) {
        apply_refused(a, message, c, d, i + 1)
    } else if apply_conflict(a, c[i].assertion) is Some {
        apply_conflict(a, c[i].assertion) == Some(message)
    } else {
        exists|x: CameraManifest|
            #[trigger] applied(a, x, c[i].assertion) && apply_refused(x, message, c, d, i + 1)
    }
}

/// Applies only accepted candidates to a curated base. The proposal's integrity and the review's
/// binding to it are checked before the base is changed, and what comes out is a valid manifest.
pub fn apply_review(
    base: CameraManifest,
    proposal: &Proposal,
    review: &ProposalReview,
) -> (r: Result<CameraManifest, GenerationError>)
    ensures
        ({
            let c = models_of(proposal.candidates@);
            if review_refused(*proposal, *review, None) {
                match r {
                    Ok(m) => applies(base, m, c, review.decisions, 0) && manifest_refusal(m) is None,
                    Err(e) => e matches GenerationError::ApplyConflict(m) && apply_refused(
                        base,
                        m@,
                        c,
                        review.decisions,
                        0,
                    ),
                }
            } else {
                r matches Err(e) && review_refused(*proposal, *review, Some(e))
            }
        }),
{
    match require_review(proposal, review) {
        Err(e) => {
            return Err(e);
        },
        Ok(_) => {},
    }
    let ghost c = models_of(proposal.candidates@);
    let ghost d = review.decisions;
    let mut manifest = base;
    let mut i: usize = 0;
    while i < proposal.candidates.len()
        invariant
            c == models_of(proposal.candidates@),
            d == review.decisions,
            i <= proposal.candidates@.len(),
            review_refused(*proposal, *review, None),
            forall|x: CameraManifest|
                #![trigger applies(manifest, x, c, d, i as int)]
                applies(manifest, x, c, d, i as int) ==> applies(base, x, c, d, 0),
            forall|t: Seq<char>|
                #![trigger apply_refused(manifest, t, c, d, i as int)]
                apply_refused(manifest, t, c, d, i as int) ==> apply_refused(base, t, c, d, 0),
        decreases proposal.candidates@.len() - i,
    {
        let candidate = &proposal.candidates[i];
        proof {
            assert(c[i as int] == candidate.model());
        }
        let accepted = match review.decisions.get(candidate.id.as_str()) {
            Some(decision) => *decision == ReviewDisposition::Accept,
            None => false,
        };
        let ghost before = manifest;
        if accepted {
            match apply_candidate(&mut manifest, candidate) {
                Err(e) => {
                    assert(apply_refused(before, e->ApplyConflict_0@, c, d, i as int));
                    return Err(e);
                },
                Ok(_) => {},
            }
        }
        proof {
            assert forall|x: CameraManifest|
                #![trigger applies(manifest, x, c, d, i + 1)]
                applies(manifest, x, c, d, i + 1) implies applies(base, x, c, d, 0) by {
                assert(applies(before, x, c, d, i as int));
            }
            assert forall|t: Seq<char>|
                #![trigger apply_refused(manifest, t, c, d, i + 1)]
                apply_refused(manifest, t, c, d, i + 1) implies apply_refused(base, t, c, d, 0) by {
                assert(apply_refused(before, t, c, d, i as int));
            }
        }
        i = i + 1;
    }
    match manifest.require_supported_schema() {
        Err(e) => {
            let message = e.message();
            proof {
                assert(apply_refused(manifest, message@, c, d, i as int));
            }
            return Err(GenerationError::ApplyConflict(message));
        },
        Ok(_) => {},
    }
    match manifest.require_valid_mode_entries() {
        Err(e) => {
            let message = e.message();
            proof {
                assert(apply_refused(manifest, message@, c, d, i as int));
            }
            return Err(GenerationError::ApplyConflict(message));
        },
        Ok(_) => {},
    }
    proof {
        assert(applies(manifest, manifest, c, d, i as int));
    }
    Ok(manifest)
}

/// Where no candidate is accepted, the base comes out unchanged.
pub proof fn rejection_changes_nothing(
    a: CameraManifest,
    b: CameraManifest,
    c: Seq<CandidateModel>,
    d: NameMap<ReviewDisposition>,
    i: int,
)
    requires
        applies(a, b, c, d, i),
        forall|k: int|
            0 <= k < c.len() ==> d.at((#[trigger] c[k]).id) != Some(ReviewDisposition::Accept),
    ensures
        b == a,
    decreases c.len() - i,
{
    if 0 <= i < c.len() {
        let known = c[i];
        rejection_changes_nothing(a, b, c, d, i + 1);
    }
}

/// A review changes the camera, its operations, properties and modes, and notes evidence. Everything
/// else that the base declares stays as it is.
pub proof fn application_keeps_the_rest(
    a: CameraManifest,
    b: CameraManifest,
    c: Seq<CandidateModel>,
    d: NameMap<ReviewDisposition>,
    i: int,
)
    requires
        applies(a, b, c, d, i),
    ensures
        same_rest(a, b),
    decreases c.len() - i,
{
    if 0 <= i < c.len() {
        if d.at(c[i].id) != Some(ReviewDisposition::Accept) {
            application_keeps_the_rest(a, b, c, d, i + 1);
        } else {
            let x = choose|x: CameraManifest| #[trigger]
                applied(a, x, c[i].assertion) && applies(x, b, c, d, i + 1);
            application_keeps_the_rest(x, b, c, d, i + 1);
        }
    }
}

} // verus!
