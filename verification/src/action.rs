//! The action catalog of a manifest and the resolution of an invocation against it.

use crate::generate::write::{digest_json, json_digest};
use crate::json::{
    array, member_models, models, object, push_item, push_member, text_json, Json, JsonModel,
};
use crate::model::{
    declared, verb_named, verb_text, Action, ActionEffect, ActionInitiatorParameter,
    ActionParameter, ActionVerb, CameraManifest, Connection, PropertyTransitionTerminal,
    ResponderMutation,
};
use crate::name_map::{lookup_index, NameMap};
use crate::observation::ActionRole;
use crate::order::{enter, entered, models_of};
use crate::rank_map::ranked_from;
use crate::text::{
    debug_text, decimal, has_prefix, join2, join4, join5, same, starts_with, text_debug, u64_text,
};
use vstd::prelude::*;

verus! {

#[derive(Debug, Clone, PartialEq)]
pub struct ActionCatalog {
    pub revision: String,
    pub actions: Vec<ActionCatalogEntry>,
}

#[derive(Debug, Clone, PartialEq)]
pub struct ActionCatalogEntry {
    pub action_id: String,
    pub connection: String,
    pub mode: String,
    pub supported_roles: Vec<ActionRole>,
    pub parameters: Vec<ActionRoleParameters>,
    pub triggers: Vec<ActionEffect>,
    pub availability: ActionAvailability,
}

#[derive(Debug, Clone, PartialEq, Eq)]
pub struct ActionRoleParameters {
    pub role: ActionRole,
    pub parameters: Vec<ActionCatalogParameter>,
}

#[derive(Debug, Clone, PartialEq, Eq)]
pub struct ActionCatalogParameter {
    pub name: String,
    pub kind: ActionCatalogParameterKind,
    pub required: bool,
    pub default: Option<u64>,
    pub min: Option<u64>,
    pub max: Option<u64>,
}

#[derive(Debug, Clone, Copy, PartialEq, Eq, Structural)]
pub enum ActionCatalogParameterKind {
    U32,
    U64,
}

#[derive(Debug, Clone, Copy, PartialEq, Eq, Structural)]
pub enum ActionAvailability {
    Available,
}

#[derive(Debug, Clone, PartialEq, Eq)]
pub struct ActionArgument {
    pub name: String,
    pub value: u64,
}

#[derive(Debug, Clone, PartialEq, Eq)]
pub struct ActionInvocationRequest {
    pub catalog_revision: String,
    pub action_id: String,
    pub connection: String,
    pub mode: String,
    pub role: ActionRole,
    pub parameters: Vec<ActionArgument>,
}

#[derive(Debug, Clone, PartialEq, Eq)]
pub struct ResolvedActionInvocation {
    pub action: ActionVerb,
    pub role: ActionRole,
    pub parameters: NameMap<u64>,
    pub responder_mutation: Option<ResponderMutation>,
}

#[derive(Debug, Clone, PartialEq, Eq)]
pub enum ActionResolutionError {
    StaleRevision,
    UnknownConnection(String),
    UnknownAction { connection: String, action: String },
    WrongMode { expected: String, actual: String },
    WrongRole(ActionRole),
    DuplicateParameter(String),
    MissingParameter(String),
    ExtraParameter(String),
    InvalidParameter { name: String, value: u64 },
}

/// What a parameter declaration of the catalog says.
pub struct ParameterModel {
    pub name: Seq<char>,
    pub kind: ActionCatalogParameterKind,
    pub required: bool,
    pub default: Option<u64>,
    pub min: Option<u64>,
    pub max: Option<u64>,
}

impl View for ActionCatalogParameter {
    type V = ParameterModel;

    open spec fn view(&self) -> ParameterModel {
        ParameterModel {
            name: self.name@,
            kind: self.kind,
            required: self.required,
            default: self.default,
            min: self.min,
            max: self.max,
        }
    }
}

/// What a row of parameter declarations says.
pub open spec fn parameters_of(v: Seq<ActionCatalogParameter>) -> Seq<ParameterModel> {
    Seq::new(v.len(), |i: int| v[i]@)
}

/// The parameters of a role.
pub struct RoleModel {
    pub role: ActionRole,
    pub parameters: Seq<ParameterModel>,
}

impl View for ActionRoleParameters {
    type V = RoleModel;

    open spec fn view(&self) -> RoleModel {
        RoleModel { role: self.role, parameters: parameters_of(self.parameters@) }
    }
}

/// The parameters of a row of roles.
pub open spec fn roles_of(v: Seq<ActionRoleParameters>) -> Seq<RoleModel> {
    Seq::new(v.len(), |i: int| v[i]@)
}

/// What an entry of the catalog says.
pub struct EntryModel {
    pub action_id: Seq<char>,
    pub connection: Seq<char>,
    pub mode: Seq<char>,
    pub roles: Seq<ActionRole>,
    pub parameters: Seq<RoleModel>,
    pub triggers: Seq<ActionEffect>,
    pub availability: ActionAvailability,
}

impl View for ActionCatalogEntry {
    type V = EntryModel;

    open spec fn view(&self) -> EntryModel {
        EntryModel {
            action_id: self.action_id@,
            connection: self.connection@,
            mode: self.mode@,
            roles: self.supported_roles@,
            parameters: roles_of(self.parameters@),
            triggers: self.triggers@,
            availability: self.availability,
        }
    }
}

/// What the entries of the catalog say.
pub open spec fn entries_of(v: Seq<ActionCatalogEntry>) -> Seq<EntryModel> {
    Seq::new(v.len(), |i: int| v[i]@)
}

/// The number of 64 bits that a number of 32 bits is.
pub open spec fn widened(o: Option<u32>) -> Option<u64> {
    match o {
        Some(n) => Some(n as u64),
        None => None,
    }
}

/// The declaration of an initiator's parameter: a required number of 64 bits.
pub open spec fn initiator_parameter(p: ActionInitiatorParameter) -> ParameterModel {
    ParameterModel {
        name: declared(p).name@,
        kind: ActionCatalogParameterKind::U64,
        required: true,
        default: None,
        min: None,
        max: None,
    }
}

/// The declaration of a responder's parameter: a number of 32 bits, required where it has no
/// default.
pub open spec fn responder_parameter(p: ActionParameter) -> ParameterModel {
    ParameterModel {
        name: p.name@,
        kind: ActionCatalogParameterKind::U32,
        required: p.default is None,
        default: widened(p.default),
        min: widened(p.min),
        max: widened(p.max),
    }
}

/// The parameters that an action takes in a role, where it can be taken.
pub open spec fn role_parameters(a: Action, role: ActionRole) -> Option<Seq<ParameterModel>> {
    match role {
        ActionRole::Initiator => match a.initiator {
            Some(i) => Some(
                Seq::new(i.params@.len(), |k: int| initiator_parameter(i.params@[k])),
            ),
            None => None,
        },
        ActionRole::Responder => match a.responder {
            Some(r) => Some(
                Seq::new(r.params@.len(), |k: int| responder_parameter(r.params@[k])),
            ),
            None => None,
        },
    }
}

/// The role and its parameters, where the action can be taken in the role.
pub open spec fn role_model(a: Action, role: ActionRole) -> Seq<RoleModel> {
    match role_parameters(a, role) {
        Some(parameters) => seq![RoleModel { role, parameters }],
        None => Seq::empty(),
    }
}

/// The roles in which an action can be taken, and their parameters.
pub open spec fn role_models(a: Action) -> Seq<RoleModel> {
    role_model(a, ActionRole::Initiator) + role_model(a, ActionRole::Responder)
}

/// The catalog entry of an action of a connection.
pub open spec fn entry_model(connection: Seq<char>, verb: ActionVerb, a: Action) -> EntryModel {
    let roles = role_models(a);
    EntryModel {
        action_id: verb_text(verb),
        connection,
        mode: a.mode@,
        roles: Seq::new(roles.len(), |i: int| roles[i].role),
        parameters: roles,
        triggers: a.triggers@,
        availability: ActionAvailability::Available,
    }
}

/// The entries `e` with those of the first `n` actions of a connection behind them.
pub open spec fn with_actions(
    e: Seq<EntryModel>,
    connection: Seq<char>,
    actions: Seq<(ActionVerb, Action)>,
    n: int,
) -> Seq<EntryModel>
    decreases n,
{
    if n <= 0 || n > actions.len() {
        e
    } else {
        with_actions(e, connection, actions, n - 1).push(
            entry_model(connection, actions[n - 1].0, actions[n - 1].1),
        )
    }
}

/// The entries of the first `n` connections.
pub open spec fn connection_entries(c: Seq<(String, Connection)>, n: int) -> Seq<EntryModel>
    decreases n,
{
    if n <= 0 || n > c.len() {
        Seq::empty()
    } else {
        let actions = c[n - 1].1.actions.entries();
        with_actions(connection_entries(c, n - 1), c[n - 1].0@, actions, actions.len() as int)
    }
}

/// The entries of a manifest's action catalog: connections by id, actions in the order of their
/// verbs.
pub open spec fn catalog_entries(m: CameraManifest) -> Seq<EntryModel> {
    connection_entries(m.connections.entries(), m.connections.entries().len() as int)
}

/// The name of a role.
pub open spec fn action_role_name(role: ActionRole) -> Seq<char> {
    match role {
        ActionRole::Initiator => "initiator"@,
        ActionRole::Responder => "responder"@,
    }
}

/// The name of a role.
fn role_label(role: ActionRole) -> (r: &'static str)
    ensures
        r@ == action_role_name(role),
{
    match role {
        ActionRole::Initiator => "initiator",
        ActionRole::Responder => "responder",
    }
}

/// The name of a parameter kind.
pub open spec fn kind_name(k: ActionCatalogParameterKind) -> Seq<char> {
    match k {
        ActionCatalogParameterKind::U32 => "u32"@,
        ActionCatalogParameterKind::U64 => "u64"@,
    }
}

/// The members `m` with a number behind them, where there is one.
pub open spec fn with_number(
    m: Seq<(Seq<char>, JsonModel)>,
    key: Seq<char>,
    o: Option<u64>,
) -> Seq<(Seq<char>, JsonModel)> {
    match o {
        Some(n) => m.push((key, JsonModel::Unsigned(n))),
        None => m,
    }
}

/// The JSON form of a parameter declaration.
pub open spec fn parameter_json(p: ParameterModel) -> JsonModel {
    JsonModel::Object(
        with_number(
            with_number(
                with_number(
                    seq![
                        ("name"@, JsonModel::Text(p.name)),
                        ("kind"@, JsonModel::Text(kind_name(p.kind))),
                        ("required"@, JsonModel::Bool(p.required)),
                    ],
                    "default"@,
                    p.default,
                ),
                "min"@,
                p.min,
            ),
            "max"@,
            p.max,
        ),
    )
}

/// The JSON form of a role and its parameters.
pub open spec fn role_json(m: RoleModel) -> JsonModel {
    JsonModel::Object(
        seq![
            ("role"@, JsonModel::Text(action_role_name(m.role))),
            (
                "parameters"@,
                JsonModel::Array(
                    Seq::new(m.parameters.len(), |i: int| parameter_json(m.parameters[i])),
                ),
            ),
        ],
    )
}

/// The members `m` with an effect behind them, where it is there.
pub open spec fn with_effect(
    m: Seq<(Seq<char>, JsonModel)>,
    there: bool,
    key: Seq<char>,
    form: JsonModel,
) -> Seq<(Seq<char>, JsonModel)> {
    if there {
        m.push((key, form))
    } else {
        m
    }
}

/// The JSON form of an effect.
pub open spec fn effect_json(e: ActionEffect) -> JsonModel {
    let none = Seq::<(Seq<char>, JsonModel)>::empty();
    let available = match e.objects_available {
        Some(o) => JsonModel::Object(
            seq![
                ("min"@, JsonModel::Unsigned(o.min as u64)),
                ("max"@, JsonModel::Unsigned(o.max as u64)),
            ],
        ),
        None => JsonModel::Null,
    };
    JsonModel::Object(
        with_effect(
            with_effect(
                with_effect(none, e.objects_available is Some, "objectsAvailable"@, available),
                e.postview_event is Some,
                "postviewEvent"@,
                JsonModel::Object(none),
            ),
            e.live_view_stream is Some,
            "liveViewStream"@,
            JsonModel::Object(none),
        ),
    )
}

/// The JSON form of a catalog entry.
pub open spec fn entry_json(e: EntryModel) -> JsonModel {
    JsonModel::Object(
        seq![
            ("actionId"@, JsonModel::Text(e.action_id)),
            ("connection"@, JsonModel::Text(e.connection)),
            ("mode"@, JsonModel::Text(e.mode)),
            (
                "supportedRoles"@,
                JsonModel::Array(
                    Seq::new(e.roles.len(), |i: int| JsonModel::Text(action_role_name(e.roles[i]))),
                ),
            ),
            (
                "parameters"@,
                JsonModel::Array(
                    Seq::new(e.parameters.len(), |i: int| role_json(e.parameters[i])),
                ),
            ),
            (
                "triggers"@,
                JsonModel::Array(Seq::new(e.triggers.len(), |i: int| effect_json(e.triggers[i]))),
            ),
            ("availability"@, JsonModel::Text("available"@)),
        ],
    )
}

/// The revision of a catalog: the digest of its entries.
pub open spec fn revision_of(e: Seq<EntryModel>) -> Seq<char> {
    json_digest(JsonModel::Array(Seq::new(e.len(), |i: int| entry_json(e[i]))))
}

/// Adds a number, where there is one.
fn push_number(m: &mut Vec<(String, Json)>, key: &str, o: Option<u64>)
    ensures
        member_models(final(m)@) == with_number(member_models(old(m)@), key@, o),
{
    match o {
        Some(n) => push_member(m, key, Json::Unsigned(n)),
        None => {},
    }
}

/// An object without members.
fn blank_object() -> (r: Vec<(String, Json)>)
    ensures
        member_models(r@) == Seq::<(Seq<char>, JsonModel)>::empty(),
{
    let out: Vec<(String, Json)> = Vec::new();
    proof {
        assert(member_models(out@) == Seq::<(Seq<char>, JsonModel)>::empty());
    }
    out
}

/// The JSON form of a parameter declaration.
fn write_parameter(p: &ActionCatalogParameter) -> (r: Json)
    ensures
        r@ == parameter_json(p@),
{
    let kind = match p.kind {
        ActionCatalogParameterKind::U32 => "u32",
        ActionCatalogParameterKind::U64 => "u64",
    };
    let mut m = blank_object();
    push_member(&mut m, "name", text_json(p.name.as_str()));
    push_member(&mut m, "kind", text_json(kind));
    push_member(&mut m, "required", Json::Bool(p.required));
    proof {
        assert(member_models(m@) == seq![
            ("name"@, JsonModel::Text(p.name@)),
            ("kind"@, JsonModel::Text(kind@)),
            ("required"@, JsonModel::Bool(p.required)),
        ]);
    }
    push_number(&mut m, "default", p.default);
    push_number(&mut m, "min", p.min);
    push_number(&mut m, "max", p.max);
    object(m)
}

/// The JSON form of a role and its parameters.
fn write_role(v: &ActionRoleParameters) -> (r: Json)
    ensures
        r@ == role_json(v@),
{
    let ghost all = Seq::new(
        v@.parameters.len(),
        |i: int| parameter_json(v@.parameters[i]),
    );
    let mut items: Vec<Json> = Vec::new();
    let mut i: usize = 0;
    proof {
        assert(models(items@) == all.take(0));
    }
    while i < v.parameters.len()
        invariant
            all == Seq::new(v@.parameters.len(), |i: int| parameter_json(v@.parameters[i])),
            i <= v.parameters@.len(),
            models(items@) == all.take(i as int),
        decreases v.parameters@.len() - i,
    {
        push_item(&mut items, write_parameter(&v.parameters[i]));
        proof {
            assert(all.take(i + 1) == all.take(i as int).push(all[i as int]));
        }
        i = i + 1;
    }
    proof {
        assert(all.take(v.parameters@.len() as int) == all);
    }
    let mut m = blank_object();
    push_member(&mut m, "role", text_json(role_label(v.role)));
    push_member(&mut m, "parameters", array(items));
    proof {
        assert(member_models(m@) == role_json(v@)->Object_0);
    }
    object(m)
}

/// The JSON form of an effect.
fn write_effect(e: &ActionEffect) -> (r: Json)
    ensures
        r@ == effect_json(*e),
{
    let mut m = blank_object();
    match e.objects_available {
        Some(o) => {
            let mut bounds = blank_object();
            push_member(&mut bounds, "min", Json::Unsigned(o.min as u64));
            push_member(&mut bounds, "max", Json::Unsigned(o.max as u64));
            proof {
                assert(member_models(bounds@) == seq![
                    ("min"@, JsonModel::Unsigned(o.min as u64)),
                    ("max"@, JsonModel::Unsigned(o.max as u64)),
                ]);
            }
            push_member(&mut m, "objectsAvailable", object(bounds));
        },
        None => {},
    }
    if e.postview_event.is_some() {
        push_member(&mut m, "postviewEvent", object(blank_object()));
    }
    if e.live_view_stream.is_some() {
        push_member(&mut m, "liveViewStream", object(blank_object()));
    }
    object(m)
}

/// The JSON form of a catalog entry.
fn write_entry(e: &ActionCatalogEntry) -> (r: Json)
    ensures
        r@ == entry_json(e@),
{
    let ghost names = Seq::new(
        e@.roles.len(),
        |i: int| JsonModel::Text(action_role_name(e@.roles[i])),
    );
    let mut roles: Vec<Json> = Vec::new();
    let mut i: usize = 0;
    proof {
        assert(models(roles@) == names.take(0));
    }
    while i < e.supported_roles.len()
        invariant
            names == Seq::new(
                e@.roles.len(),
                |i: int| JsonModel::Text(action_role_name(e@.roles[i])),
            ),
            i <= e.supported_roles@.len(),
            models(roles@) == names.take(i as int),
        decreases e.supported_roles@.len() - i,
    {
        push_item(&mut roles, text_json(role_label(e.supported_roles[i])));
        proof {
            assert(names.take(i + 1) == names.take(i as int).push(names[i as int]));
        }
        i = i + 1;
    }
    let ghost forms = Seq::new(e@.parameters.len(), |i: int| role_json(e@.parameters[i]));
    let mut parameters: Vec<Json> = Vec::new();
    let mut k: usize = 0;
    proof {
        assert(names.take(e.supported_roles@.len() as int) == names);
        assert(models(parameters@) == forms.take(0));
    }
    while k < e.parameters.len()
        invariant
            forms == Seq::new(e@.parameters.len(), |i: int| role_json(e@.parameters[i])),
            k <= e.parameters@.len(),
            models(parameters@) == forms.take(k as int),
        decreases e.parameters@.len() - k,
    {
        push_item(&mut parameters, write_role(&e.parameters[k]));
        proof {
            assert(forms.take(k + 1) == forms.take(k as int).push(forms[k as int]));
        }
        k = k + 1;
    }
    let ghost effects = Seq::new(e@.triggers.len(), |i: int| effect_json(e@.triggers[i]));
    let mut triggers: Vec<Json> = Vec::new();
    let mut t: usize = 0;
    proof {
        assert(forms.take(e.parameters@.len() as int) == forms);
        assert(models(triggers@) == effects.take(0));
    }
    while t < e.triggers.len()
        invariant
            effects == Seq::new(e@.triggers.len(), |i: int| effect_json(e@.triggers[i])),
            t <= e.triggers@.len(),
            models(triggers@) == effects.take(t as int),
        decreases e.triggers@.len() - t,
    {
        push_item(&mut triggers, write_effect(&e.triggers[t]));
        proof {
            assert(effects.take(t + 1) == effects.take(t as int).push(effects[t as int]));
        }
        t = t + 1;
    }
    proof {
        assert(effects.take(e.triggers@.len() as int) == effects);
    }
    let mut m = blank_object();
    push_member(&mut m, "actionId", text_json(e.action_id.as_str()));
    push_member(&mut m, "connection", text_json(e.connection.as_str()));
    push_member(&mut m, "mode", text_json(e.mode.as_str()));
    push_member(&mut m, "supportedRoles", array(roles));
    push_member(&mut m, "parameters", array(parameters));
    push_member(&mut m, "triggers", array(triggers));
    push_member(&mut m, "availability", text_json("available"));
    proof {
        assert(member_models(m@) == entry_json(e@)->Object_0);
    }
    object(m)
}

/// The revision of a catalog: the digest of its entries.
fn catalog_revision(actions: &Vec<ActionCatalogEntry>) -> (r: String)
    ensures
        r@ == revision_of(entries_of(actions@)),
{
    let ghost all = Seq::new(
        entries_of(actions@).len(),
        |i: int| entry_json(entries_of(actions@)[i]),
    );
    let mut items: Vec<Json> = Vec::new();
    let mut i: usize = 0;
    proof {
        assert(models(items@) == all.take(0));
    }
    while i < actions.len()
        invariant
            all == Seq::new(
                entries_of(actions@).len(),
                |i: int| entry_json(entries_of(actions@)[i]),
            ),
            i <= actions@.len(),
            models(items@) == all.take(i as int),
        decreases actions@.len() - i,
    {
        push_item(&mut items, write_entry(&actions[i]));
        proof {
            assert(entries_of(actions@)[i as int] == actions@[i as int]@);
            assert(all.take(i + 1) == all.take(i as int).push(all[i as int]));
        }
        i = i + 1;
    }
    proof {
        assert(all.take(actions@.len() as int) == all);
    }
    digest_json(&array(items))
}

/// The number of 64 bits that a number of 32 bits is.
fn widen(o: Option<u32>) -> (r: Option<u64>)
    ensures
        r == widened(o),
{
    match o {
        Some(n) => Some(n as u64),
        None => None,
    }
}

/// The parameters that an action takes in a role, where it can be taken.
fn declared_parameters(a: &Action, role: ActionRole) -> (r: Option<Vec<ActionCatalogParameter>>)
    ensures
        role_parameters(*a, role) == match r {
            Some(v) => Some(parameters_of(v@)),
            None => None,
        },
{
    let mut out: Vec<ActionCatalogParameter> = Vec::new();
    match role {
        ActionRole::Initiator => match &a.initiator {
            None => None,
            Some(initiator) => {
                let mut i: usize = 0;
                while i < initiator.params.len()
                    invariant
                        i <= initiator.params@.len(),
                        out@.len() == i,
                        forall|k: int|
                            0 <= k < i ==> (#[trigger] out@[k])@ == initiator_parameter(
                                initiator.params@[k],
                            ),
                    decreases initiator.params@.len() - i,
                {
                    out.push(
                        ActionCatalogParameter {
                            name: initiator.params[i].name().to_owned(),
                            kind: ActionCatalogParameterKind::U64,
                            required: true,
                            default: None,
                            min: None,
                            max: None,
                        },
                    );
                    i = i + 1;
                }
                proof {
                    assert(parameters_of(out@) == role_parameters(*a, role)->0);
                }
                Some(out)
            },
        },
        ActionRole::Responder => match &a.responder {
            None => None,
            Some(responder) => {
                let mut i: usize = 0;
                while i < responder.params.len()
                    invariant
                        i <= responder.params@.len(),
                        out@.len() == i,
                        forall|k: int|
                            0 <= k < i ==> (#[trigger] out@[k])@ == responder_parameter(
                                responder.params@[k],
                            ),
                    decreases responder.params@.len() - i,
                {
                    let p = &responder.params[i];
                    out.push(
                        ActionCatalogParameter {
                            name: p.name.clone(),
                            kind: ActionCatalogParameterKind::U32,
                            required: p.default.is_none(),
                            default: widen(p.default),
                            min: widen(p.min),
                            max: widen(p.max),
                        },
                    );
                    i = i + 1;
                }
                proof {
                    assert(parameters_of(out@) == role_parameters(*a, role)->0);
                }
                Some(out)
            },
        },
    }
}

/// A copy of a row of effects.
fn copy_effects(v: &Vec<ActionEffect>) -> (r: Vec<ActionEffect>)
    ensures
        r@ == v@,
{
    let mut out: Vec<ActionEffect> = Vec::new();
    let mut i: usize = 0;
    while i < v.len()
        invariant
            i <= v@.len(),
            out@ == v@.take(i as int),
        decreases v@.len() - i,
    {
        out.push(v[i]);
        i = i + 1;
    }
    proof {
        assert(v@.take(v@.len() as int) == v@);
    }
    out
}

/// The catalog entry of an action of a connection.
fn catalog_entry(connection: &str, verb: ActionVerb, a: &Action) -> (r: ActionCatalogEntry)
    ensures
        r@ == entry_model(connection@, verb, *a),
{
    let mut supported_roles: Vec<ActionRole> = Vec::new();
    let mut parameters: Vec<ActionRoleParameters> = Vec::new();
    match declared_parameters(a, ActionRole::Initiator) {
        Some(v) => {
            supported_roles.push(ActionRole::Initiator);
            parameters.push(ActionRoleParameters { role: ActionRole::Initiator, parameters: v });
        },
        None => {},
    }
    proof {
        assert(roles_of(parameters@) == role_model(*a, ActionRole::Initiator));
    }
    let ghost before = parameters@;
    match declared_parameters(a, ActionRole::Responder) {
        Some(v) => {
            supported_roles.push(ActionRole::Responder);
            parameters.push(ActionRoleParameters { role: ActionRole::Responder, parameters: v });
        },
        None => {},
    }
    proof {
        assert(roles_of(parameters@) == role_models(*a));
        assert(supported_roles@ == entry_model(connection@, verb, *a).roles);
    }
    ActionCatalogEntry {
        action_id: verb.as_str().to_owned(),
        connection: connection.to_owned(),
        mode: a.mode.clone(),
        supported_roles,
        parameters,
        triggers: copy_effects(&a.triggers),
        availability: ActionAvailability::Available,
    }
}

impl CameraManifest {
    /// The action catalog: what can be invoked, over which connection, in which role and with which
    /// parameters.
    pub fn action_catalog(&self) -> (r: ActionCatalog)
        ensures
            entries_of(r.actions@) == catalog_entries(*self),
            r.revision@ == revision_of(catalog_entries(*self)),
    {
        let mut actions: Vec<ActionCatalogEntry> = Vec::new();
        let ghost all = self.connections.entries();
        proof {
            assert(entries_of(actions@) == Seq::<EntryModel>::empty());
        }
        let mut i: usize = 0;
        while i < self.connections.len()
            invariant
                all == self.connections.entries(),
                i <= all.len(),
                entries_of(actions@) == connection_entries(all, i as int),
            decreases all.len() - i,
        {
            let id = self.connections.key_at(i);
            let connection = self.connections.value_at(i);
            let ghost start = entries_of(actions@);
            let ghost own = connection.actions.entries();
            let mut k: usize = 0;
            while k < connection.actions.len()
                invariant
                    own == connection.actions.entries(),
                    k <= own.len(),
                    entries_of(actions@) == with_actions(start, id@, own, k as int),
                decreases own.len() - k,
            {
                let ghost before = actions@;
                let entry = catalog_entry(
                    id.as_str(),
                    connection.actions.key_at(k),
                    connection.actions.value_at(k),
                );
                actions.push(entry);
                proof {
                    assert(entries_of(actions@) == entries_of(before).push(entry@));
                }
                k = k + 1;
            }
            i = i + 1;
        }
        let revision = catalog_revision(&actions);
        ActionCatalog { revision, actions }
    }
}

/// What an invocation is refused for.
pub enum Refusal {
    StaleRevision,
    UnknownConnection(Seq<char>),
    UnknownAction { connection: Seq<char>, action: Seq<char> },
    WrongMode { expected: Seq<char>, actual: Seq<char> },
    WrongRole(ActionRole),
    DuplicateParameter(Seq<char>),
    MissingParameter(Seq<char>),
    ExtraParameter(Seq<char>),
    InvalidParameter { name: Seq<char>, value: u64 },
}

impl View for ActionResolutionError {
    type V = Refusal;

    open spec fn view(&self) -> Refusal {
        match *self {
            ActionResolutionError::StaleRevision => Refusal::StaleRevision,
            ActionResolutionError::UnknownConnection(s) => Refusal::UnknownConnection(s@),
            ActionResolutionError::UnknownAction { connection, action } => Refusal::UnknownAction {
                connection: connection@,
                action: action@,
            },
            ActionResolutionError::WrongMode { expected, actual } => Refusal::WrongMode {
                expected: expected@,
                actual: actual@,
            },
            ActionResolutionError::WrongRole(role) => Refusal::WrongRole(role),
            ActionResolutionError::DuplicateParameter(s) => Refusal::DuplicateParameter(s@),
            ActionResolutionError::MissingParameter(s) => Refusal::MissingParameter(s@),
            ActionResolutionError::ExtraParameter(s) => Refusal::ExtraParameter(s@),
            ActionResolutionError::InvalidParameter { name, value } => Refusal::InvalidParameter {
                name: name@,
                value,
            },
        }
    }
}

/// Whether one of the first `n` arguments has the name.
pub open spec fn has_argument(v: Seq<ActionArgument>, name: Seq<char>, n: int) -> bool {
    exists|i: int| 0 <= i < n && i < v.len() && (#[trigger] v[i]).name@ == name
}

/// The name of the first argument, at `i` or after it, whose name an earlier one has.
pub open spec fn repeated_argument(v: Seq<ActionArgument>, i: int) -> Option<Seq<char>>
    decreases v.len() - i,
{
    if i < 0 || i >= v.len() {
        None
    } else if has_argument(v, v[i].name@, i) {
        Some(v[i].name@)
    } else {
        repeated_argument(v, i + 1)
    }
}

/// The names of the first `n` arguments, in ascending order.
pub open spec fn argument_names(v: Seq<ActionArgument>, n: int) -> Seq<Seq<char>>
    decreases n,
{
    if n <= 0 || n > v.len() {
        Seq::empty()
    } else {
        entered::<String>(argument_names(v, n - 1), v[n - 1].name@)
    }
}

/// Whether a parameter with the name is declared.
pub open spec fn is_declared(p: Seq<ParameterModel>, name: Seq<char>) -> bool {
    exists|i: int| 0 <= i < p.len() && (#[trigger] p[i]).name == name
}

/// The first name, at `i` or after it, that is not declared.
pub open spec fn undeclared(names: Seq<Seq<char>>, p: Seq<ParameterModel>, i: int) -> Option<
    Seq<char>,
>
    decreases names.len() - i,
{
    if i < 0 || i >= names.len() {
        None
    } else if !is_declared(p, names[i]) {
        Some(names[i])
    } else {
        undeclared(names, p, i + 1)
    }
}

/// The values that the first `n` arguments give, by name.
pub open spec fn supplied(v: Seq<ActionArgument>, n: int) -> Map<Seq<char>, u64>
    decreases n,
{
    if n <= 0 || n > v.len() {
        Map::empty()
    } else {
        supplied(v, n - 1).insert(v[n - 1].name@, v[n - 1].value)
    }
}

/// Whether a value is outside the declaration of its parameter.
pub open spec fn outside(p: ParameterModel, value: u64) -> bool {
    (p.kind == ActionCatalogParameterKind::U32 && value > u32::MAX) || (p.min is Some && value
        < p.min->0) || (p.max is Some && value > p.max->0)
}

/// The values of the parameters from `i` on, defaults filled in; or the first that is missing or
/// outside its declaration.
pub open spec fn bound(p: Seq<ParameterModel>, values: Map<Seq<char>, u64>, i: int) -> Result<
    Map<Seq<char>, u64>,
    Refusal,
>
    decreases p.len() - i,
{
    if i < 0 || i >= p.len() {
        Ok(values)
    } else {
        let name = p[i].name;
        let filled = if !values.contains_key(name) && p[i].default is Some {
            values.insert(name, p[i].default->0)
        } else {
            values
        };
        if !filled.contains_key(name) {
            Err(Refusal::MissingParameter(name))
        } else if outside(p[i], filled[name]) {
            Err(Refusal::InvalidParameter { name, value: filled[name] })
        } else {
            bound(p, filled, i + 1)
        }
    }
}

/// Whether a mode is the mode of an action or lies under it. An action without a mode is valid in
/// every mode.
pub open spec fn in_mode(action: Seq<char>, mode: Seq<char>) -> bool {
    action.len() == 0 || mode == action || has_prefix(mode, action + "/"@)
}

/// What an invocation resolves to: the verb, the action, and the values of its parameters.
pub struct Invocation {
    pub verb: ActionVerb,
    pub action: Action,
    pub values: Map<Seq<char>, u64>,
}

/// The values of the arguments of an invocation, or what it is refused for.
pub open spec fn bound_arguments(
    p: Seq<ParameterModel>,
    args: Seq<ActionArgument>,
) -> Result<Map<Seq<char>, u64>, Refusal> {
    let names = argument_names(args, args.len() as int);
    if repeated_argument(args, 0) is Some {
        Err(Refusal::DuplicateParameter(repeated_argument(args, 0)->0))
    } else if undeclared(names, p, 0) is Some {
        Err(Refusal::ExtraParameter(undeclared(names, p, 0)->0))
    } else {
        bound(p, supplied(args, args.len() as int), 0)
    }
}

/// What a request resolves to, or what it is refused for: the first of these that fails. The
/// revision is that of the catalog; the connection is declared; it has the action; the mode is the
/// action's; the action can be taken in the role; the arguments are what the role declares.
pub open spec fn resolution(m: CameraManifest, q: ActionInvocationRequest) -> Result<
    Invocation,
    Refusal,
> {
    let unknown = Refusal::UnknownAction { connection: q.connection@, action: q.action_id@ };
    if q.catalog_revision@ != revision_of(catalog_entries(m)) {
        Err(Refusal::StaleRevision)
    } else {
        match m.connections.at(q.connection@) {
            None => Err(Refusal::UnknownConnection(q.connection@)),
            Some(connection) => match verb_named(q.action_id@) {
                None => Err(unknown),
                Some(verb) => match connection.actions.at(verb) {
                    None => Err(unknown),
                    Some(action) => if !in_mode(action.mode@, q.mode@) {
                        Err(Refusal::WrongMode { expected: action.mode@, actual: q.mode@ })
                    } else {
                        match role_parameters(action, q.role) {
                            None => Err(Refusal::WrongRole(q.role)),
                            Some(p) => match bound_arguments(p, q.parameters@) {
                                Err(e) => Err(e),
                                Ok(values) => Ok(Invocation { verb, action, values }),
                            },
                        }
                    },
                },
            },
        }
    }
}

/// The values of a map of numbers.
pub open spec fn values_of(m: NameMap<u64>) -> Map<Seq<char>, u64> {
    Map::new(|k: Seq<char>| m.has(k), |k: Seq<char>| m.at(k)->0)
}

/// The mutation that an action's responder makes.
pub open spec fn mutation_of(a: Action, role: ActionRole) -> Option<ResponderMutation> {
    match (a.responder, role) {
        (Some(r), ActionRole::Responder) => Some(r.mutation),
        _ => None,
    }
}

/// Whether one of the first `n` arguments has the name.
fn find_argument(v: &Vec<ActionArgument>, name: &str, n: usize) -> (r: bool)
    ensures
        r == has_argument(v@, name@, n as int),
{
    let mut i: usize = 0;
    while i < n && i < v.len()
        invariant
            i <= n,
            i <= v@.len(),
            !has_argument(v@, name@, i as int),
        decreases v@.len() - i,
    {
        if same(v[i].name.as_str(), name) {
            return true;
        }
        i = i + 1;
    }
    false
}

/// Whether a parameter with the name is declared.
fn find_declared(p: &Vec<ActionCatalogParameter>, name: &str) -> (r: bool)
    ensures
        r == is_declared(parameters_of(p@), name@),
{
    let ghost all = parameters_of(p@);
    let mut i: usize = 0;
    while i < p.len()
        invariant
            all == parameters_of(p@),
            i <= p@.len(),
            forall|k: int| 0 <= k < i ==> (#[trigger] all[k]).name != name@,
        decreases p@.len() - i,
    {
        if same(p[i].name.as_str(), name) {
            proof {
                assert(all[i as int].name == name@);
            }
            return true;
        }
        i = i + 1;
    }
    false
}

/// Puts a value in.
fn put_value(m: &mut NameMap<u64>, name: &String, value: u64)
    ensures
        values_of(*final(m)) == values_of(*old(m)).insert(name@, value),
{
    m.insert(name.clone(), value);
    proof {
        assert(values_of(*m) =~= values_of(*old(m)).insert(name@, value)) by {
            assert forall|k: Seq<char>| k != name@ implies m.has(k) == old(m).has(k) by {
                assert(m.at(k) == old(m).at(k));
            }
        }
    }
}

/// The values of the arguments of an invocation, or what it is refused for.
fn bind_arguments(p: &Vec<ActionCatalogParameter>, args: &Vec<ActionArgument>) -> (r: Result<
    NameMap<u64>,
    ActionResolutionError,
>)
    ensures
        bound_arguments(parameters_of(p@), args@) == match r {
            Ok(m) => Ok::<Map<Seq<char>, u64>, Refusal>(values_of(m)),
            Err(e) => Err::<Map<Seq<char>, u64>, Refusal>(e@),
        },
{
    let ghost ps = parameters_of(p@);
    let mut values: NameMap<u64> = NameMap::new();
    let mut names: Vec<String> = Vec::new();
    proof {
        assert(models_of(names@) == Seq::<Seq<char>>::empty());
        assert(values_of(values) =~= Map::<Seq<char>, u64>::empty());
    }
    let mut i: usize = 0;
    while i < args.len()
        invariant
            ps == parameters_of(p@),
            i <= args@.len(),
            repeated_argument(args@, 0) == repeated_argument(args@, i as int),
            models_of(names@) == argument_names(args@, i as int),
            values_of(values) == supplied(args@, i as int),
        decreases args@.len() - i,
    {
        if find_argument(args, args[i].name.as_str(), i) {
            return Err(ActionResolutionError::DuplicateParameter(args[i].name.clone()));
        }
        enter(&mut names, args[i].name.clone());
        put_value(&mut values, &args[i].name, args[i].value);
        i = i + 1;
    }
    let ghost all = models_of(names@);
    let mut k: usize = 0;
    while k < names.len()
        invariant
            ps == parameters_of(p@),
            all == models_of(names@),
            all == argument_names(args@, args@.len() as int),
            repeated_argument(args@, 0) is None,
            k <= names@.len(),
            undeclared(all, ps, 0) == undeclared(all, ps, k as int),
        decreases names@.len() - k,
    {
        proof {
            assert(all[k as int] == names@[k as int]@);
        }
        if !find_declared(p, names[k].as_str()) {
            return Err(ActionResolutionError::ExtraParameter(names[k].clone()));
        }
        k = k + 1;
    }
    let mut j: usize = 0;
    while j < p.len()
        invariant
            ps == parameters_of(p@),
            repeated_argument(args@, 0) is None,
            undeclared(argument_names(args@, args@.len() as int), ps, 0) is None,
            j <= p@.len(),
            bound(ps, supplied(args@, args@.len() as int), 0) == bound(
                ps,
                values_of(values),
                j as int,
            ),
        decreases p@.len() - j,
    {
        let parameter = &p[j];
        proof {
            assert(ps[j as int] == parameter@);
        }
        if !values.contains_key(parameter.name.as_str()) {
            match parameter.default {
                Some(default) => {
                    put_value(&mut values, &parameter.name, default);
                },
                None => {
                    return Err(ActionResolutionError::MissingParameter(parameter.name.clone()));
                },
            }
        }
        let value: u64 = match values.get(parameter.name.as_str()) {
            Some(v) => *v,
            None => 0,
        };
        proof {
            assert(values_of(values).contains_key(parameter.name@));
            assert(value == values_of(values)[parameter.name@]);
        }
        let low = match parameter.min {
            Some(min) => value < min,
            None => false,
        };
        let high = match parameter.max {
            Some(max) => value > max,
            None => false,
        };
        if (parameter.kind == ActionCatalogParameterKind::U32 && value > 0xffff_ffff) || low
            || high {
            return Err(
                ActionResolutionError::InvalidParameter { name: parameter.name.clone(), value },
            );
        }
        j = j + 1;
    }
    Ok(values)
}

/// A copy of a mutation.
fn copy_mutation(m: &ResponderMutation) -> (r: ResponderMutation)
    ensures
        r == *m,
{
    match m {
        ResponderMutation::EnqueueObjects { count_param } => ResponderMutation::EnqueueObjects {
            count_param: count_param.clone(),
        },
        ResponderMutation::PropertyTransition {
            target,
            initial,
            terminal,
            settle_after_polls,
        } => ResponderMutation::PropertyTransition {
            target: target.clone(),
            initial: *initial,
            terminal: match terminal {
                PropertyTransitionTerminal::Fixed { value } => PropertyTransitionTerminal::Fixed {
                    value: *value,
                },
                PropertyTransitionTerminal::Parameter {
                    parameter,
                } => PropertyTransitionTerminal::Parameter { parameter: parameter.clone() },
            },
            settle_after_polls: *settle_after_polls,
        },
    }
}

impl CameraManifest {
    /// Resolves an invocation against the catalog, or says why it is refused. Nothing has an effect
    /// before an invocation is resolved.
    pub fn resolve_action_invocation(&self, request: &ActionInvocationRequest) -> (r: Result<
        ResolvedActionInvocation,
        ActionResolutionError,
    >)
        ensures
            match resolution(*self, *request) {
                Ok(v) => r matches Ok(x) && x.action == v.verb && x.role == request.role
                    && values_of(x.parameters) == v.values && x.responder_mutation == mutation_of(
                    v.action,
                    request.role,
                ),
                Err(e) => r matches Err(x) && x@ == e,
            },
    {
        let catalog = self.action_catalog();
        if !same(request.catalog_revision.as_str(), catalog.revision.as_str()) {
            return Err(ActionResolutionError::StaleRevision);
        }
        let connection = match self.connections.get(request.connection.as_str()) {
            Some(c) => c,
            None => {
                return Err(
                    ActionResolutionError::UnknownConnection(request.connection.clone()),
                );
            },
        };
        let verb = match ActionVerb::parse(request.action_id.as_str()) {
            Ok(v) => v,
            Err(_) => {
                return Err(
                    ActionResolutionError::UnknownAction {
                        connection: request.connection.clone(),
                        action: request.action_id.clone(),
                    },
                );
            },
        };
        proof {
            crate::model::verb_name_round_trips(verb);
        }
        let action = match connection.actions.get(verb) {
            Some(a) => a,
            None => {
                return Err(
                    ActionResolutionError::UnknownAction {
                        connection: request.connection.clone(),
                        action: request.action_id.clone(),
                    },
                );
            },
        };
        if action.mode.as_str().unicode_len() > 0 && !same(
            request.mode.as_str(),
            action.mode.as_str(),
        ) && !starts_with(request.mode.as_str(), join2(action.mode.as_str(), "/").as_str()) {
            return Err(
                ActionResolutionError::WrongMode {
                    expected: action.mode.clone(),
                    actual: request.mode.clone(),
                },
            );
        }
        let parameters = match declared_parameters(action, request.role) {
            Some(p) => p,
            None => {
                return Err(ActionResolutionError::WrongRole(request.role));
            },
        };
        let values = match bind_arguments(&parameters, &request.parameters) {
            Err(e) => {
                return Err(e);
            },
            Ok(v) => v,
        };
        let responder_mutation = match (&action.responder, request.role) {
            (Some(responder), ActionRole::Responder) => Some(copy_mutation(&responder.mutation)),
            _ => None,
        };
        Ok(
            ResolvedActionInvocation {
                action: verb,
                role: request.role,
                parameters: values,
                responder_mutation,
            },
        )
    }
}

/// The code of a refusal.
pub open spec fn refusal_code(e: Refusal) -> Seq<char> {
    match e {
        Refusal::StaleRevision => "staleCatalogRevision"@,
        Refusal::UnknownConnection(_) => "unknownConnection"@,
        Refusal::UnknownAction { .. } => "unknownAction"@,
        Refusal::WrongMode { .. } => "wrongMode"@,
        Refusal::WrongRole(_) => "wrongRole"@,
        Refusal::DuplicateParameter(_) => "duplicateParameter"@,
        Refusal::MissingParameter(_) => "missingParameter"@,
        Refusal::ExtraParameter(_) => "extraParameter"@,
        Refusal::InvalidParameter { .. } => "invalidParameter"@,
    }
}

/// The variant name of a role.
pub open spec fn role_debug(role: ActionRole) -> Seq<char> {
    match role {
        ActionRole::Initiator => "Initiator"@,
        ActionRole::Responder => "Responder"@,
    }
}

/// What a refusal says.
pub open spec fn refusal_text(e: Refusal) -> Seq<char> {
    match e {
        Refusal::StaleRevision => "stale catalog revision"@,
        Refusal::UnknownConnection(s) => "unknown connection "@ + text_debug(s),
        Refusal::UnknownAction { connection, action } => "unknown action "@ + text_debug(action)
            + " on connection "@ + text_debug(connection),
        Refusal::WrongMode { expected, actual } => "action requires mode "@ + text_debug(expected)
            + ", got "@ + text_debug(actual),
        Refusal::WrongRole(role) => "action does not support role "@ + role_debug(role),
        Refusal::DuplicateParameter(s) => "duplicate parameter "@ + text_debug(s),
        Refusal::MissingParameter(s) => "missing parameter "@ + text_debug(s),
        Refusal::ExtraParameter(s) => "extra parameter "@ + text_debug(s),
        Refusal::InvalidParameter { name, value } => "parameter "@ + text_debug(name) + " value "@
            + decimal(value as int) + " is outside its declaration"@,
    }
}

impl ActionResolutionError {
    /// The code of the error.
    pub fn code(&self) -> (r: &'static str)
        ensures
            r@ == refusal_code(self@),
    {
        match self {
            ActionResolutionError::StaleRevision => "staleCatalogRevision",
            ActionResolutionError::UnknownConnection(_) => "unknownConnection",
            ActionResolutionError::UnknownAction { .. } => "unknownAction",
            ActionResolutionError::WrongMode { .. } => "wrongMode",
            ActionResolutionError::WrongRole(_) => "wrongRole",
            ActionResolutionError::DuplicateParameter(_) => "duplicateParameter",
            ActionResolutionError::MissingParameter(_) => "missingParameter",
            ActionResolutionError::ExtraParameter(_) => "extraParameter",
            ActionResolutionError::InvalidParameter { .. } => "invalidParameter",
        }
    }

    /// What the error says.
    pub fn message(&self) -> (r: String)
        ensures
            r@ == refusal_text(self@),
    {
        match self {
            ActionResolutionError::StaleRevision => "stale catalog revision".to_owned(),
            ActionResolutionError::UnknownConnection(s) => join2(
                "unknown connection ",
                debug_text(s.as_str()).as_str(),
            ),
            ActionResolutionError::UnknownAction { connection, action } => join4(
                "unknown action ",
                debug_text(action.as_str()).as_str(),
                " on connection ",
                debug_text(connection.as_str()).as_str(),
            ),
            ActionResolutionError::WrongMode { expected, actual } => join4(
                "action requires mode ",
                debug_text(expected.as_str()).as_str(),
                ", got ",
                debug_text(actual.as_str()).as_str(),
            ),
            ActionResolutionError::WrongRole(role) => join2(
                "action does not support role ",
                match role {
                    ActionRole::Initiator => "Initiator",
                    ActionRole::Responder => "Responder",
                },
            ),
            ActionResolutionError::DuplicateParameter(s) => join2(
                "duplicate parameter ",
                debug_text(s.as_str()).as_str(),
            ),
            ActionResolutionError::MissingParameter(s) => join2(
                "missing parameter ",
                debug_text(s.as_str()).as_str(),
            ),
            ActionResolutionError::ExtraParameter(s) => join2(
                "extra parameter ",
                debug_text(s.as_str()).as_str(),
            ),
            ActionResolutionError::InvalidParameter { name, value } => join5(
                "parameter ",
                debug_text(name.as_str()).as_str(),
                " value ",
                u64_text(*value).as_str(),
                " is outside its declaration",
            ),
        }
    }
}

/// Where the value of a verb is found.
proof fn ranked_index(s: Seq<(ActionVerb, Action)>, v: ActionVerb, i: int) -> (j: int)
    requires
        0 <= i,
        ranked_from(s, v, i) is Some,
    ensures
        i <= j < s.len(),
        s[j].0 == v,
        ranked_from(s, v, i) == Some(s[j].1),
    decreases s.len() - i,
{
    if s[i].0 == v {
        i
    } else {
        ranked_index(s, v, i + 1)
    }
}

/// The entries of a connection's actions are behind those before them.
proof fn actions_listed(
    e: Seq<EntryModel>,
    connection: Seq<char>,
    actions: Seq<(ActionVerb, Action)>,
    n: int,
)
    requires
        0 <= n <= actions.len(),
    ensures
        with_actions(e, connection, actions, n).len() == e.len() + n,
        forall|i: int|
            0 <= i < e.len() ==> #[trigger] with_actions(e, connection, actions, n)[i] == e[i],
        forall|k: int|
            0 <= k < n ==> with_actions(e, connection, actions, n)[e.len() + k] == entry_model(
                connection,
                (#[trigger] actions[k]).0,
                actions[k].1,
            ),
    decreases n,
{
    if n > 0 {
        actions_listed(e, connection, actions, n - 1);
    }
}

/// Every action of the first `n` connections is listed.
proof fn action_listed(c: Seq<(String, Connection)>, n: int, i: int, k: int)
    requires
        0 <= i < n <= c.len(),
        0 <= k < c[i].1.actions.entries().len(),
    ensures
        connection_entries(c, n).contains(
            entry_model(
                c[i].0@,
                c[i].1.actions.entries()[k].0,
                c[i].1.actions.entries()[k].1,
            ),
        ),
    decreases n,
{
    let front = connection_entries(c, n - 1);
    let actions = c[n - 1].1.actions.entries();
    actions_listed(front, c[n - 1].0@, actions, actions.len() as int);
    let all = connection_entries(c, n);
    let x = entry_model(
        c[i].0@,
        c[i].1.actions.entries()[k].0,
        c[i].1.actions.entries()[k].1,
    );
    if i == n - 1 {
        assert(actions[k] == c[i].1.actions.entries()[k]);
        assert(all[front.len() + k] == x);
    } else {
        action_listed(c, n - 1, i, k);
        let j = front.index_of(x);
        assert(all[j] == front[j]);
    }
}

/// What an invocation resolves to is listed in the catalog, under its connection and its action,
/// with its role and for its mode.
pub proof fn resolved_actions_are_listed(m: CameraManifest, q: ActionInvocationRequest) -> (e: int)
    requires
        resolution(m, q) is Ok,
    ensures
        0 <= e < catalog_entries(m).len(),
        catalog_entries(m)[e].connection == q.connection@,
        catalog_entries(m)[e].action_id == q.action_id@,
        catalog_entries(m)[e].roles.contains(q.role),
        in_mode(catalog_entries(m)[e].mode, q.mode@),
{
    let c = m.connections.entries();
    let n = c.len() as int;
    let i = lookup_index(c, q.connection@, 0);
    let verb = verb_named(q.action_id@)->0;
    let actions = c[i].1.actions.entries();
    let k = ranked_index(actions, verb, 0);
    action_listed(c, n, i, k);
    let action = actions[k].1;
    let x = entry_model(c[i].0@, verb, action);
    let roles = role_models(action);
    match q.role {
        ActionRole::Initiator => {
            assert(roles[0].role == q.role);
            assert(x.roles[0] == q.role);
        },
        ActionRole::Responder => {
            assert(roles[roles.len() - 1].role == q.role);
            assert(x.roles[roles.len() - 1] == q.role);
        },
    }
    catalog_entries(m).index_of(x)
}

/// Every declared parameter of a resolved invocation has a value inside its declaration.
pub proof fn resolved_values_fit(
    p: Seq<ParameterModel>,
    values: Map<Seq<char>, u64>,
    i: int,
    out: Map<Seq<char>, u64>,
)
    requires
        0 <= i,
        bound(p, values, i) == Ok::<Map<Seq<char>, u64>, Refusal>(out),
    ensures
        forall|n: Seq<char>| #[trigger]
            values.contains_key(n) ==> out.contains_key(n) && out[n] == values[n],
        forall|k: int|
            i <= k < p.len() ==> out.contains_key((#[trigger] p[k]).name) && !outside(
                p[k],
                out[p[k].name],
            ),
    decreases p.len() - i,
{
    if i < p.len() {
        let name = p[i].name;
        let filled = if !values.contains_key(name) && p[i].default is Some {
            values.insert(name, p[i].default->0)
        } else {
            values
        };
        resolved_values_fit(p, filled, i + 1, out);
        assert(filled.contains_key(name));
        assert forall|n: Seq<char>| #[trigger] values.contains_key(n) implies out.contains_key(n)
            && out[n] == values[n] by {
            assert(filled.contains_key(n));
        }
    }
}

} // verus!
