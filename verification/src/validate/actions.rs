//! Rules on actions.

use crate::error::ManifestError;
use crate::model::{
    declared, effect_count, hex_code, parse_hex_code, Action, ActionEffect, ActionInitiator,
    ActionInitiatorParameter, ActionInitiatorParameterDeclaration, ActionInitiatorParameterKind,
    ActionParameter, ActionResponder, CameraManifest, Loop, MissingRuntimeValue, ObjectsAvailable,
    Property, PropertyTransitionTerminal, ResponderMutation, RuntimeSetPropValue, SetPropValue,
    Step,
};
use crate::query::coded;
use crate::text::{debug_option, join2, join4, join5, join6, option_debug, same};
use crate::validate::properties::{is_text, option_is};
use crate::validate::{first, index_path, indexed, reports};
use vstd::prelude::*;

verus! {

/// The least and the greatest value of a numeric scalar type.
pub open spec fn scalar_bounds(ptype: Option<String>) -> Option<(int, int)> {
    if is_text(ptype, "u8"@) {
        Some((0, 0xff))
    } else if is_text(ptype, "u16"@) {
        Some((0, 0xffff))
    } else if is_text(ptype, "u32"@) {
        Some((0, 0xffff_ffff))
    } else if is_text(ptype, "u64"@) {
        Some((0, 0xffff_ffff_ffff_ffff))
    } else if is_text(ptype, "i16"@) {
        Some((-0x8000, 0x7fff))
    } else if is_text(ptype, "i32"@) {
        Some((-0x8000_0000, 0x7fff_ffff))
    } else {
        None
    }
}

/// The least and the greatest value of a numeric scalar type.
fn numeric_scalar_bounds(ptype: &Option<String>) -> (r: Option<(i128, i128)>)
    ensures
        match r {
            Some(b) => scalar_bounds(*ptype) == Some((b.0 as int, b.1 as int)),
            None => scalar_bounds(*ptype) is None,
        },
{
    if option_is(ptype, "u8") {
        Some((0, 0xff))
    } else if option_is(ptype, "u16") {
        Some((0, 0xffff))
    } else if option_is(ptype, "u32") {
        Some((0, 0xffff_ffff))
    } else if option_is(ptype, "u64") {
        Some((0, 0xffff_ffff_ffff_ffff))
    } else if option_is(ptype, "i16") {
        Some((-0x8000, 0x7fff))
    } else if option_is(ptype, "i32") {
        Some((-0x8000_0000, 0x7fff_ffff))
    } else {
        None
    }
}

/// Whether a value fits the scalar type of a property.
pub open spec fn scalar_fits(p: Property, value: i64) -> bool {
    scalar_bounds(p.ptype) matches Some(b) && b.0 <= value <= b.1
}

/// Whether a value fits the scalar type of a property.
fn property_scalar_fits(property: &Property, value: i64) -> (r: bool)
    ensures
        r == scalar_fits(*property, value),
{
    match numeric_scalar_bounds(&property.ptype) {
        Some((min, max)) => value as i128 >= min && value as i128 <= max,
        None => false,
    }
}

/// Whether the names of initiator parameters are filled and no name occurs twice.
pub open spec fn initiator_names_valid(params: Seq<ActionInitiatorParameter>) -> bool {
    &&& forall|i: int| 0 <= i < params.len() ==> declared(#[trigger] params[i]).name@.len() > 0
    &&& forall|i: int, j: int|
        #![trigger params[i], params[j]]
        0 <= i < j < params.len() ==> declared(params[i]).name@ != declared(params[j]).name@
}

/// Whether the names of initiator parameters are filled and no name occurs twice.
fn initiator_names_unique(params: &Vec<ActionInitiatorParameter>) -> (r: bool)
    ensures
        r == initiator_names_valid(params@),
{
    let mut i: usize = 0;
    while i < params.len()
        invariant
            i <= params.len(),
            forall|k: int| 0 <= k < i ==> declared(#[trigger] params@[k]).name@.len() > 0,
            forall|k: int, j: int|
                #![trigger params@[k], params@[j]]
                0 <= k < j < i ==> declared(params@[k]).name@ != declared(params@[j]).name@,
        decreases params.len() - i,
    {
        if params[i].name().unicode_len() == 0 {
            return false;
        }
        let mut j: usize = 0;
        while j < i
            invariant
                j <= i < params.len(),
                forall|k: int|
                    0 <= k < j ==> declared(#[trigger] params@[k]).name@ != declared(
                        params@[i as int],
                    ).name@,
            decreases i - j,
        {
            if same(params[j].name(), params[i].name()) {
                return false;
            }
            j = j + 1;
        }
        i = i + 1;
    }
    true
}

/// The violation of the rules on the triggers of an action, from `i` on.
pub open spec fn triggers_violation(t: Seq<ActionEffect>, path: Seq<char>, i: int) -> Option<
    Seq<char>,
>
    decreases t.len() - i,
{
    if i < 0 || i >= t.len() {
        None
    } else if effect_count(t[i]) != 1 {
        Some(indexed(path, ".triggers["@, i) + " must contain exactly one trigger"@)
    } else if t[i].objects_available matches Some(range) && range.min > range.max {
        Some(indexed(path, ".triggers["@, i) + ".objectsAvailable min exceeds max"@)
    } else {
        triggers_violation(t, path, i + 1)
    }
}

/// Checks the triggers of an action.
fn require_valid_triggers(t: &Vec<ActionEffect>, path: &str) -> (r: Result<(), ManifestError>)
    ensures
        reports(r, triggers_violation(t@, path@, 0)),
{
    let mut i: usize = 0;
    while i < t.len()
        invariant
            i <= t.len(),
            triggers_violation(t@, path@, 0) == triggers_violation(t@, path@, i as int),
        decreases t.len() - i,
    {
        let here = index_path(path, ".triggers[", i);
        if !t[i].is_well_formed() {
            return Err(
                ManifestError::Contract(
                    join2(here.as_str(), " must contain exactly one trigger"),
                ),
            );
        }
        if let Some(range) = t[i].objects_available {
            if range.min > range.max {
                return Err(
                    ManifestError::Contract(
                        join2(here.as_str(), ".objectsAvailable min exceeds max"),
                    ),
                );
            }
        }
        i = i + 1;
    }
    Ok(())
}

/// Whether a responder parameter before `i` has the name of parameter `i`.
pub open spec fn name_before(params: Seq<ActionParameter>, i: int) -> bool {
    exists|j: int| 0 <= j < i && (#[trigger] params[j]).name@ == params[i].name@
}

/// Whether the default of a parameter lies outside its range.
pub open spec fn default_outside(p: ActionParameter) -> bool {
    p.default matches Some(d) && ((p.min matches Some(min) && d < min) || (p.max matches Some(max)
        && d > max))
}

/// The violation of the rules on the parameters of a responder, from `i` on.
pub open spec fn responder_params_violation(
    params: Seq<ActionParameter>,
    path: Seq<char>,
    i: int,
) -> Option<Seq<char>>
    decreases params.len() - i,
{
    if i < 0 || i >= params.len() {
        None
    } else {
        let p = params[i];
        if p.name@.len() == 0 || name_before(params, i) {
            Some(path + ".responder.params names must be non-empty and unique"@)
        } else if p.min is Some && p.max is Some && p.min->0 > p.max->0 {
            Some(path + ".responder parameter '"@ + p.name@ + "' has min greater than max"@)
        } else if default_outside(p) {
            Some(path + ".responder parameter '"@ + p.name@ + "' default is out of range"@)
        } else {
            responder_params_violation(params, path, i + 1)
        }
    }
}

/// Whether a responder parameter before `i` has the name of parameter `i`.
fn repeats_name(params: &Vec<ActionParameter>, i: usize) -> (r: bool)
    requires
        i < params.len(),
    ensures
        r == name_before(params@, i as int),
{
    let mut j: usize = 0;
    while j < i
        invariant
            j <= i < params.len(),
            forall|k: int| 0 <= k < j ==> (#[trigger] params@[k]).name@ != params@[i as int].name@,
        decreases i - j,
    {
        if same(params[j].name.as_str(), params[i].name.as_str()) {
            return true;
        }
        j = j + 1;
    }
    false
}

/// Checks the parameters of a responder.
fn require_valid_responder_params(params: &Vec<ActionParameter>, path: &str) -> (r: Result<
    (),
    ManifestError,
>)
    ensures
        reports(r, responder_params_violation(params@, path@, 0)),
{
    let mut i: usize = 0;
    while i < params.len()
        invariant
            i <= params.len(),
            responder_params_violation(params@, path@, 0) == responder_params_violation(
                params@,
                path@,
                i as int,
            ),
        decreases params.len() - i,
    {
        let p = &params[i];
        if p.name.as_str().unicode_len() == 0 || repeats_name(params, i) {
            return Err(
                ManifestError::Contract(
                    join2(path, ".responder.params names must be non-empty and unique"),
                ),
            );
        }
        if let (Some(min), Some(max)) = (p.min, p.max) {
            if min > max {
                return Err(
                    ManifestError::Contract(
                        join4(path, ".responder parameter '", p.name.as_str(), "' has min greater than max"),
                    ),
                );
            }
        }
        if let Some(d) = p.default {
            let below = match p.min {
                Some(min) => d < min,
                None => false,
            };
            let above = match p.max {
                Some(max) => d > max,
                None => false,
            };
            if below || above {
                return Err(
                    ManifestError::Contract(
                        join4(path, ".responder parameter '", p.name.as_str(), "' default is out of range"),
                    ),
                );
            }
        }
        i = i + 1;
    }
    Ok(())
}

/// The first parameter, from `i` on, with the name `name`.
pub open spec fn param_named(params: Seq<ActionParameter>, name: Seq<char>, i: int) -> Option<
    ActionParameter,
>
    decreases params.len() - i,
{
    if i < 0 || i >= params.len() {
        None
    } else if params[i].name@ == name {
        Some(params[i])
    } else {
        param_named(params, name, i + 1)
    }
}

/// The first parameter with the name `name`.
fn find_param<'a>(params: &'a Vec<ActionParameter>, name: &str) -> (r: Option<&'a ActionParameter>)
    ensures
        match r {
            Some(p) => param_named(params@, name@, 0) == Some(*p),
            None => param_named(params@, name@, 0) is None,
        },
{
    let mut i: usize = 0;
    while i < params.len()
        invariant
            i <= params.len(),
            param_named(params@, name@, 0) == param_named(params@, name@, i as int),
        decreases params.len() - i,
    {
        if same(params[i].name.as_str(), name) {
            return Some(&params[i]);
        }
        i = i + 1;
    }
    None
}

/// The first object range among the triggers from `i` on.
pub open spec fn objects_range(t: Seq<ActionEffect>, i: int) -> Option<ObjectsAvailable>
    decreases t.len() - i,
{
    if i < 0 || i >= t.len() {
        None
    } else if t[i].objects_available is Some {
        t[i].objects_available
    } else {
        objects_range(t, i + 1)
    }
}

/// The first object range among the triggers.
fn find_objects_range(t: &Vec<ActionEffect>) -> (r: Option<ObjectsAvailable>)
    ensures
        r == objects_range(t@, 0),
{
    let mut i: usize = 0;
    while i < t.len()
        invariant
            i <= t.len(),
            objects_range(t@, 0) == objects_range(t@, i as int),
        decreases t.len() - i,
    {
        if t[i].objects_available.is_some() {
            return t[i].objects_available;
        }
        i = i + 1;
    }
    None
}

/// The violation of the rules on an enqueue mutation: its count parameter has the range of the
/// objects that the action makes available.
pub open spec fn enqueue_violation(
    action: Action,
    responder: ActionResponder,
    count_param: Seq<char>,
    path: Seq<char>,
) -> Option<Seq<char>> {
    match param_named(responder.params@, count_param, 0) {
        None => Some(
            path + ".responder enqueueObjects references unknown countParam '"@ + count_param
                + "'"@,
        ),
        Some(p) => match objects_range(action.triggers@, 0) {
            None => Some(
                path + ".responder enqueueObjects requires an objectsAvailable trigger"@,
            ),
            Some(range) => if p.min != Some(range.min) || p.max != Some(range.max) {
                Some(
                    path
                        + ".responder count parameter must use the objectsAvailable range"@,
                )
            } else {
                None
            },
        },
    }
}

/// The violation of the rules on the terminal value of a property transition.
pub open spec fn terminal_violation(
    responder: ActionResponder,
    terminal: PropertyTransitionTerminal,
    p: Property,
    target: Seq<char>,
    path: Seq<char>,
) -> Option<Seq<char>> {
    match terminal {
        PropertyTransitionTerminal::Fixed { value } => if !scalar_fits(p, value) {
            Some(
                path + ".responder propertyTransition terminal value is outside target '"@
                    + target + "' encoding"@,
            )
        } else {
            None
        },
        PropertyTransitionTerminal::Parameter { parameter } => match param_named(
            responder.params@,
            parameter@,
            0,
        ) {
            None => Some(
                path + ".responder propertyTransition references unknown terminal parameter '"@
                    + parameter@ + "'"@,
            ),
            Some(d) => {
                let min = match d.min {
                    Some(x) => x as int,
                    None => 0,
                };
                let max = match d.max {
                    Some(x) => x as int,
                    None => 0xffff_ffff,
                };
                if scalar_bounds(p.ptype) matches Some(b) && (min < b.0 || max > b.1) {
                    Some(
                        path + ".responder propertyTransition terminal parameter '"@ + parameter@
                            + "' range is outside target '"@ + target + "' encoding"@,
                    )
                } else {
                    None
                }
            },
        },
    }
}

/// The violation of the rules on a property transition: its target is a numeric scalar property,
/// and its values fit the property's encoding.
pub open spec fn transition_mutation_violation(
    m: CameraManifest,
    responder: ActionResponder,
    target: Seq<char>,
    initial: Option<i64>,
    terminal: PropertyTransitionTerminal,
    path: Seq<char>,
) -> Option<Seq<char>> {
    match hex_code(target) {
        None => Some(
            path + ".responder propertyTransition target '"@ + target
                + "' is not a property code"@,
        ),
        Some(code) => match coded(m.properties, code) {
            None => Some(
                path + ".responder propertyTransition references unknown target '"@ + target
                    + "'"@,
            ),
            Some(p) => if p.payload is Some || scalar_bounds(p.ptype) is None {
                Some(
                    path + ".responder propertyTransition target '"@ + target
                        + "' must be a numeric scalar property"@,
                )
            } else if initial matches Some(v) && !scalar_fits(p, v) {
                Some(
                    path + ".responder propertyTransition initial value is outside target '"@
                        + target + "' encoding"@,
                )
            } else {
                terminal_violation(responder, terminal, p, target, path)
            },
        },
    }
}

/// The violation of the rules on what an action declares.
pub open spec fn action_roles_violation(m: CameraManifest, action: Action, path: Seq<char>) -> Option<
    Seq<char>,
> {
    if action.initiator is None && action.responder is None {
        Some(path + " must declare initiator or responder"@)
    } else if action.initiator matches Some(i) && !initiator_names_valid(i.params@) {
        Some(path + ".initiator.params names must be non-empty and unique"@)
    } else {
        first(
            triggers_violation(action.triggers@, path, 0),
            match action.responder {
                None => None,
                Some(responder) => first(
                    responder_params_violation(responder.params@, path, 0),
                    match responder.mutation {
                        ResponderMutation::EnqueueObjects { count_param } => enqueue_violation(
                            action,
                            responder,
                            count_param@,
                            path,
                        ),
                        ResponderMutation::PropertyTransition { target, initial, terminal, .. } =>
                            transition_mutation_violation(
                            m,
                            responder,
                            target@,
                            initial,
                            terminal,
                            path,
                        ),
                    },
                ),
            },
        )
    }
}

/// Checks an enqueue mutation.
fn require_valid_enqueue(
    action: &Action,
    responder: &ActionResponder,
    count_param: &str,
    path: &str,
) -> (r: Result<(), ManifestError>)
    ensures
        reports(r, enqueue_violation(*action, *responder, count_param@, path@)),
{
    let p = match find_param(&responder.params, count_param) {
        None => {
            return Err(
                ManifestError::Contract(
                    join4(path, ".responder enqueueObjects references unknown countParam '", count_param, "'"),
                ),
            );
        },
        Some(p) => p,
    };
    let range = match find_objects_range(&action.triggers) {
        None => {
            return Err(
                ManifestError::Contract(
                    join2(path, ".responder enqueueObjects requires an objectsAvailable trigger"),
                ),
            );
        },
        Some(range) => range,
    };
    let min_fits = match p.min {
        Some(min) => min == range.min,
        None => false,
    };
    let max_fits = match p.max {
        Some(max) => max == range.max,
        None => false,
    };
    if !min_fits || !max_fits {
        return Err(
            ManifestError::Contract(
                join2(path, ".responder count parameter must use the objectsAvailable range"),
            ),
        );
    }
    Ok(())
}

/// Checks the terminal value of a property transition.
fn require_valid_terminal(
    responder: &ActionResponder,
    terminal: &PropertyTransitionTerminal,
    p: &Property,
    target: &str,
    path: &str,
) -> (r: Result<(), ManifestError>)
    ensures
        reports(r, terminal_violation(*responder, *terminal, *p, target@, path@)),
{
    match terminal {
        PropertyTransitionTerminal::Fixed { value } => {
            if !property_scalar_fits(p, *value) {
                return Err(
                    ManifestError::Contract(
                        join4(path, ".responder propertyTransition terminal value is outside target '", target, "' encoding"),
                    ),
                );
            }
        },
        PropertyTransitionTerminal::Parameter { parameter } => {
            let d = match find_param(&responder.params, parameter.as_str()) {
                None => {
                    return Err(
                        ManifestError::Contract(
                            join4(path, ".responder propertyTransition references unknown terminal parameter '", parameter.as_str(), "'"),
                        ),
                    );
                },
                Some(d) => d,
            };
            let min: i128 = match d.min {
                Some(x) => x as i128,
                None => 0,
            };
            let max: i128 = match d.max {
                Some(x) => x as i128,
                None => 0xffff_ffff,
            };
            if let Some((low, high)) = numeric_scalar_bounds(&p.ptype) {
                if min < low || max > high {
                    return Err(
                        ManifestError::Contract(
                            join6(path, ".responder propertyTransition terminal parameter '", parameter.as_str(), "' range is outside target '", target, "' encoding"),
                        ),
                    );
                }
            }
        },
    }
    Ok(())
}

/// Checks a property transition.
fn require_valid_transition_mutation(
    manifest: &CameraManifest,
    responder: &ActionResponder,
    target: &str,
    initial: Option<i64>,
    terminal: &PropertyTransitionTerminal,
    path: &str,
) -> (r: Result<(), ManifestError>)
    ensures
        reports(
            r,
            transition_mutation_violation(
                *manifest,
                *responder,
                target@,
                initial,
                *terminal,
                path@,
            ),
        ),
{
    let code = match parse_hex_code(target) {
        None => {
            return Err(
                ManifestError::Contract(
                    join4(path, ".responder propertyTransition target '", target, "' is not a property code"),
                ),
            );
        },
        Some(code) => code,
    };
    let p = match manifest.property(code) {
        None => {
            return Err(
                ManifestError::Contract(
                    join4(path, ".responder propertyTransition references unknown target '", target, "'"),
                ),
            );
        },
        Some(p) => p,
    };
    if p.payload.is_some() || numeric_scalar_bounds(&p.ptype).is_none() {
        return Err(
            ManifestError::Contract(
                join4(path, ".responder propertyTransition target '", target, "' must be a numeric scalar property"),
            ),
        );
    }
    if let Some(value) = initial {
        if !property_scalar_fits(p, value) {
            return Err(
                ManifestError::Contract(
                    join4(path, ".responder propertyTransition initial value is outside target '", target, "' encoding"),
                ),
            );
        }
    }
    require_valid_terminal(responder, terminal, p, target, path)
}

/// Checks what an action declares.
pub(crate) fn require_valid_action_roles(
    manifest: &CameraManifest,
    action: &Action,
    path: &str,
) -> (r: Result<(), ManifestError>)
    ensures
        reports(r, action_roles_violation(*manifest, *action, path@)),
{
    if action.initiator.is_none() && action.responder.is_none() {
        return Err(
            ManifestError::Contract(
                join2(path, " must declare initiator or responder"),
            ),
        );
    }
    if let Some(initiator) = &action.initiator {
        if !initiator_names_unique(&initiator.params) {
            return Err(
                ManifestError::Contract(
                    join2(path, ".initiator.params names must be non-empty and unique"),
                ),
            );
        }
    }
    match require_valid_triggers(&action.triggers, path) {
        Err(e) => {
            return Err(e);
        },
        Ok(_) => {},
    }
    let responder = match &action.responder {
        None => {
            return Ok(());
        },
        Some(responder) => responder,
    };
    match require_valid_responder_params(&responder.params, path) {
        Err(e) => {
            return Err(e);
        },
        Ok(_) => {},
    }
    match &responder.mutation {
        ResponderMutation::EnqueueObjects { count_param } => require_valid_enqueue(
            action,
            responder,
            count_param.as_str(),
            path,
        ),
        ResponderMutation::PropertyTransition { target, initial, terminal, .. } =>
            require_valid_transition_mutation(
            manifest,
            responder,
            target.as_str(),
            *initial,
            terminal,
            path,
        ),
    }
}

/// The last declaration, among the first `n` parameters, of the name `name`.
pub open spec fn declaration_of(
    params: Seq<ActionInitiatorParameter>,
    name: Seq<char>,
    n: int,
) -> Option<ActionInitiatorParameterDeclaration>
    decreases n,
{
    if n <= 0 || n > params.len() {
        None
    } else if declared(params[n - 1]).name@ == name {
        Some(declared(params[n - 1]))
    } else {
        declaration_of(params, name, n - 1)
    }
}

/// The last declaration of the name `name`.
fn find_declaration(params: &Vec<ActionInitiatorParameter>, name: &str) -> (r: Option<
    ActionInitiatorParameterDeclaration,
>)
    ensures
        r == declaration_of(params@, name@, params@.len() as int),
{
    let mut n: usize = params.len();
    while n > 0
        invariant
            n <= params.len(),
            declaration_of(params@, name@, params@.len() as int) == declaration_of(
                params@,
                name@,
                n as int,
            ),
        decreases n,
    {
        if same(params[n - 1].name(), name) {
            return Some(params[n - 1].normalized());
        }
        n = n - 1;
    }
    None
}

/// Whether a parameter of this kind can set a property of this type.
pub open spec fn kind_fits(kind: ActionInitiatorParameterKind, ptype: Option<String>) -> bool {
    match kind {
        ActionInitiatorParameterKind::String => is_text(ptype, "str"@),
        ActionInitiatorParameterKind::U64 => scalar_bounds(ptype) is Some,
    }
}

/// The violation of the rules on a value that a step takes from a runtime slot.
pub open spec fn runtime_reference_violation(
    m: CameraManifest,
    params: Seq<ActionInitiatorParameter>,
    s: Step,
    reference: RuntimeSetPropValue,
    here: Seq<char>,
) -> Option<Seq<char>> {
    match declaration_of(params, reference.runtime@, params.len() as int) {
        None => Some(
            here + ".value references undeclared initiator parameter '"@ + reference.runtime@
                + "'"@,
        ),
        Some(d) => if reference.if_missing == MissingRuntimeValue::Skip && d.required {
            Some(
                here + ".value ifMissing skip requires optional initiator parameter '"@
                    + reference.runtime@ + "'"@,
            )
        } else {
            match set_property(m, s) {
                None => Some(
                    here + ".value runtime reference requires a declared setProp property"@,
                ),
                Some(p) => if !kind_fits(d.kind, p.ptype) {
                    Some(
                        here + ".value parameter '"@ + reference.runtime@
                            + "' kind is incompatible with property type "@ + option_debug(
                            p.ptype,
                        ),
                    )
                } else {
                    None
                },
            }
        },
    }
}

/// The property that a step sets, where the manifest declares it.
pub open spec fn set_property(m: CameraManifest, s: Step) -> Option<Property> {
    match s.set_prop {
        None => None,
        Some(key) => match hex_code(key@) {
            None => None,
            Some(code) => coded(m.properties, code),
        },
    }
}

/// The violation of the rules on runtime values in the steps of an initiator, from `i` on.
pub open spec fn runtime_values_violation(
    m: CameraManifest,
    params: Seq<ActionInitiatorParameter>,
    steps: Seq<Step>,
    path: Seq<char>,
    i: int,
) -> Option<Seq<char>>
    decreases steps, steps.len() - i,
{
    if i < 0 || i >= steps.len() {
        None
    } else {
        first(
            step_runtime_values_violation(m, params, steps[i], indexed(path, ".steps["@, i)),
            runtime_values_violation(m, params, steps, path, i + 1),
        )
    }
}

/// The violation of those rules by a step or by a step that it holds.
pub open spec fn step_runtime_values_violation(
    m: CameraManifest,
    params: Seq<ActionInitiatorParameter>,
    s: Step,
    here: Seq<char>,
) -> Option<Seq<char>>
    decreases s, 0int,
{
    first(
        match s.value {
            Some(SetPropValue::Runtime(reference)) => runtime_reference_violation(
                m,
                params,
                s,
                reference,
                here,
            ),
            _ => None,
        },
        first(
            match s.await_until {
                Some(a) => runtime_values_violation(
                    m,
                    params,
                    a.on_each@,
                    here + ".awaitUntil"@,
                    0,
                ),
                None => None,
            },
            first(
                match s.retry {
                    Some(r) => runtime_values_violation(m, params, r.steps@, here + ".retry"@, 0),
                    None => None,
                },
                first(
                    match s.loop_step {
                        Some(Loop::ForEach { body, .. }) => runtime_values_violation(
                            m,
                            params,
                            body@,
                            here + ".loop"@,
                            0,
                        ),
                        Some(Loop::Chunk { body, .. }) => runtime_values_violation(
                            m,
                            params,
                            body@,
                            here + ".loop"@,
                            0,
                        ),
                        None => None,
                    },
                    match s.if_step {
                        Some(c) => first(
                            runtime_values_violation(
                                m,
                                params,
                                c.then_steps@,
                                here + ".if.then"@,
                                0,
                            ),
                            runtime_values_violation(
                                m,
                                params,
                                c.else_steps@,
                                here + ".if.else"@,
                                0,
                            ),
                        ),
                        None => None,
                    },
                ),
            ),
        ),
    )
}

/// Checks a value that a step takes from a runtime slot.
fn require_valid_runtime_reference(
    manifest: &CameraManifest,
    params: &Vec<ActionInitiatorParameter>,
    s: &Step,
    reference: &RuntimeSetPropValue,
    here: &str,
) -> (r: Result<(), ManifestError>)
    ensures
        reports(r, runtime_reference_violation(*manifest, params@, *s, *reference, here@)),
{
    let slot = reference.runtime.as_str();
    let d = match find_declaration(params, slot) {
        None => {
            return Err(
                ManifestError::Contract(
                    join4(here, ".value references undeclared initiator parameter '", slot, "'"),
                ),
            );
        },
        Some(d) => d,
    };
    if reference.if_missing == MissingRuntimeValue::Skip && d.required {
        return Err(
            ManifestError::Contract(
                join4(here, ".value ifMissing skip requires optional initiator parameter '", slot, "'"),
            ),
        );
    }
    let code = match &s.set_prop {
        None => None,
        Some(key) => parse_hex_code(key.as_str()),
    };
    let found = match code {
        None => None,
        Some(code) => manifest.property(code),
    };
    let p = match found {
        None => {
            return Err(
                ManifestError::Contract(
                    join2(here, ".value runtime reference requires a declared setProp property"),
                ),
            );
        },
        Some(p) => p,
    };
    let compatible = match d.kind {
        ActionInitiatorParameterKind::String => option_is(&p.ptype, "str"),
        ActionInitiatorParameterKind::U64 => numeric_scalar_bounds(&p.ptype).is_some(),
    };
    if !compatible {
        return Err(
            ManifestError::Contract(
                join5(here, ".value parameter '", slot, "' kind is incompatible with property type ", debug_option(&p.ptype).as_str()),
            ),
        );
    }
    Ok(())
}

/// Checks the runtime values in a row of steps.
fn require_valid_runtime_values(
    manifest: &CameraManifest,
    params: &Vec<ActionInitiatorParameter>,
    steps: &Vec<Step>,
    path: &str,
) -> (r: Result<(), ManifestError>)
    ensures
        reports(r, runtime_values_violation(*manifest, params@, steps@, path@, 0)),
    decreases steps, 1int,
{
    let mut i: usize = 0;
    while i < steps.len()
        invariant
            i <= steps.len(),
            runtime_values_violation(*manifest, params@, steps@, path@, 0)
                == runtime_values_violation(*manifest, params@, steps@, path@, i as int),
        decreases steps.len() - i,
    {
        proof {
            assert(decreases_to!(steps@ => steps@[i as int]));
        }
        let here = index_path(path, ".steps[", i);
        match require_valid_step_runtime_values(manifest, params, &steps[i], here.as_str()) {
            Err(e) => {
                return Err(e);
            },
            Ok(_) => {},
        }
        i = i + 1;
    }
    Ok(())
}

/// Checks the runtime values of a step and of the steps that it holds.
fn require_valid_step_runtime_values(
    manifest: &CameraManifest,
    params: &Vec<ActionInitiatorParameter>,
    s: &Step,
    here: &str,
) -> (r: Result<(), ManifestError>)
    ensures
        reports(r, step_runtime_values_violation(*manifest, params@, *s, here@)),
    decreases s, 0int,
{
    if let Some(SetPropValue::Runtime(reference)) = &s.value {
        match require_valid_runtime_reference(manifest, params, s, reference, here) {
            Err(e) => {
                return Err(e);
            },
            Ok(_) => {},
        }
    }
    if let Some(a) = &s.await_until {
        match require_valid_runtime_values(manifest, params, &a.on_each, join2(here, ".awaitUntil").as_str()) {
            Err(e) => {
                return Err(e);
            },
            Ok(_) => {},
        }
    }
    if let Some(retry) = &s.retry {
        match require_valid_runtime_values(manifest, params, &retry.steps, join2(here, ".retry").as_str()) {
            Err(e) => {
                return Err(e);
            },
            Ok(_) => {},
        }
    }
    match &s.loop_step {
        Some(Loop::ForEach { body, .. }) => {
            match require_valid_runtime_values(manifest, params, body, join2(here, ".loop").as_str()) {
                Err(e) => {
                    return Err(e);
                },
                Ok(_) => {},
            }
        },
        Some(Loop::Chunk { body, .. }) => {
            match require_valid_runtime_values(manifest, params, body, join2(here, ".loop").as_str()) {
                Err(e) => {
                    return Err(e);
                },
                Ok(_) => {},
            }
        },
        None => {},
    }
    if let Some(c) = &s.if_step {
        match require_valid_runtime_values(manifest, params, &c.then_steps, join2(here, ".if.then").as_str()) {
            Err(e) => {
                return Err(e);
            },
            Ok(_) => {},
        }
        match require_valid_runtime_values(manifest, params, &c.else_steps, join2(here, ".if.else").as_str()) {
            Err(e) => {
                return Err(e);
            },
            Ok(_) => {},
        }
    }
    Ok(())
}

/// Checks the runtime values of an initiator.
pub(crate) fn require_valid_action_runtime_values(
    manifest: &CameraManifest,
    initiator: &ActionInitiator,
    path: &str,
) -> (r: Result<(), ManifestError>)
    ensures
        reports(
            r,
            runtime_values_violation(*manifest, initiator.params@, initiator.steps@, path@, 0),
        ),
{
    require_valid_runtime_values(manifest, &initiator.params, &initiator.steps, path)
}

} // verus!
