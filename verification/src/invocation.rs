//! What an invocation of an action takes, and what it is refused for.

use crate::action::{
    argument_names, bound, bound_arguments, catalog_entries, entry_model, has_argument, in_mode,
    is_declared, mutation_of, outside, repeated_argument, resolution, revision_of, role_models,
    role_parameters, supplied, undeclared, ActionArgument, ActionCatalogParameterKind,
    ActionInvocationRequest, Invocation, ParameterModel, Refusal,
};
use crate::model::{
    verb_named, verb_text, verb_text_injective, Action, ActionInitiatorParameter, ActionVerb,
    CameraManifest, Connection,
};
use crate::observation::ActionRole;
use crate::order::{entered_rises, keys_rise, Keyed};
use vstd::prelude::*;

verus! {

/// The names of the verbs.
pub proof fn verbs_have_their_names()
    ensures
        verb_text(ActionVerb::Shutter) == "shutter"@,
        verb_text(ActionVerb::EnumerateObjects) == "enumerateObjects"@,
        verb_text(ActionVerb::GetObjectInfo) == "getObjectInfo"@,
        verb_text(ActionVerb::GetThumb) == "getThumb"@,
        verb_text(ActionVerb::GetObject) == "getObject"@,
        verb_text(ActionVerb::DeleteObject) == "deleteObject"@,
        verb_text(ActionVerb::AutofocusLock) == "autofocusLock"@,
        verb_text(ActionVerb::AutofocusRelease) == "autofocusRelease"@,
        verb_text(ActionVerb::ImportObjects) == "importObjects"@,
        verb_text(ActionVerb::ReadDeviceInfo) == "readDeviceInfo"@,
        verb_text(ActionVerb::StartLiveView) == "startLiveView"@,
        verb_text(ActionVerb::PollLiveView) == "pollLiveView"@,
        verb_text(ActionVerb::StopLiveView) == "stopLiveView"@,
        verb_text(ActionVerb::Keepalive) == "keepalive"@,
{
}

/// An action can be taken in its mode and in every mode below it; one without a mode in every mode.
pub proof fn actions_are_bound_to_their_mode(action: Seq<char>, mode: Seq<char>)
    ensures
        in_mode(action, mode) <==> action.len() == 0 || mode == action || exists|below: Seq<char>|
            mode == #[trigger] (action + seq!['/'] + below),
{
    reveal_strlit("/");
    assert("/"@ == seq!['/']);
    let p = action + "/"@;
    if crate::text::has_prefix(mode, p) {
        assert(mode == action + seq!['/'] + mode.skip(p.len() as int));
    }
    if exists|below: Seq<char>| mode == #[trigger] (action + seq!['/'] + below) {
        let below = choose|below: Seq<char>| mode == #[trigger] (action + seq!['/'] + below);
        assert((action + seq!['/'] + below).take(p.len() as int) == p);
    }
}

/// The parameters of a role: those of the initiator are required numbers of 64 bits, those of the
/// responder numbers of 32 bits with the bounds and the default that they declare, required where
/// they have no default. A role that the action does not have takes nothing.
pub proof fn roles_declare_their_parameters(a: Action, k: int)
    ensures
        role_parameters(a, ActionRole::Initiator) is Some <==> a.initiator is Some,
        role_parameters(a, ActionRole::Responder) is Some <==> a.responder is Some,
        a.initiator is Some ==> {
            let p = role_parameters(a, ActionRole::Initiator)->0;
            let v = a.initiator->0.params@;
            p.len() == v.len() && (0 <= k < v.len() ==> {
                &&& p[k].name == (match v[k] {
                    ActionInitiatorParameter::Shorthand(name) => name@,
                    ActionInitiatorParameter::Expanded(d) => d.name@,
                })
                &&& p[k].kind == ActionCatalogParameterKind::U64
                &&& p[k].required
                &&& p[k].default is None && p[k].min is None && p[k].max is None
            })
        },
        a.responder is Some ==> {
            let p = role_parameters(a, ActionRole::Responder)->0;
            let v = a.responder->0.params@;
            p.len() == v.len() && (0 <= k < v.len() ==> {
                &&& p[k].name == v[k].name@
                &&& p[k].kind == ActionCatalogParameterKind::U32
                &&& p[k].required <==> v[k].default is None
                &&& p[k].default is Some <==> v[k].default is Some
                &&& p[k].default is Some ==> p[k].default->0 == v[k].default->0
                &&& p[k].min is Some <==> v[k].min is Some
                &&& p[k].min is Some ==> p[k].min->0 == v[k].min->0
                &&& p[k].max is Some <==> v[k].max is Some
                &&& p[k].max is Some ==> p[k].max->0 == v[k].max->0
            })
        },
{
}

/// A value fits a declaration where it is within its bounds and, for a number of 32 bits, within
/// those of the type.
pub proof fn declarations_bound_their_values(p: ParameterModel, value: u64)
    ensures
        !outside(p, value) <==> {
            &&& p.kind == ActionCatalogParameterKind::U64 || value <= 0xffff_ffff
            &&& p.min is None || p.min->0 <= value
            &&& p.max is None || value <= p.max->0
        },
{
}

/// An argument whose name an earlier one has is found.
proof fn repetition_found(v: Seq<ActionArgument>, i: int, j: int, k: int)
    requires
        0 <= j < k < v.len(),
        0 <= i <= k,
        v[j].name@ == v[k].name@,
    ensures
        repeated_argument(v, i) is Some,
    decreases k - i,
{
    if i < k && !has_argument(v, v[i].name@, i) {
        repetition_found(v, i + 1, j, k);
    } else if i == k {
        assert(v[j].name@ == v[k].name@);
    }
}

/// Arguments with different names repeat none.
proof fn no_repetition(v: Seq<ActionArgument>, i: int)
    requires
        0 <= i,
        forall|j: int, k: int|
            #![trigger v[j], v[k]]
            0 <= j < k < v.len() ==> v[j].name@ != v[k].name@,
    ensures
        repeated_argument(v, i) is None,
    decreases v.len() - i,
{
    if i < v.len() {
        if has_argument(v, v[i].name@, i) {
            let j = choose|j: int|
                0 <= j < i && j < v.len() && (#[trigger] v[j]).name@ == v[i].name@;
            assert(v[j].name@ != v[i].name@);
        }
        no_repetition(v, i + 1);
    }
}

/// The names of arguments are all of theirs, and no others.
proof fn names_listed(v: Seq<ActionArgument>, n: int)
    requires
        0 <= n <= v.len(),
    ensures
        keys_rise::<String>(argument_names(v, n)),
        forall|i: int| 0 <= i < n ==> argument_names(v, n).contains((#[trigger] v[i]).name@),
        forall|k: int|
            0 <= k < argument_names(v, n).len() ==> exists|i: int|
                0 <= i < n && (#[trigger] v[i]).name@ == #[trigger] argument_names(v, n)[k],
    decreases n,
{
    if n > 0 {
        names_listed(v, n - 1);
        let front = argument_names(v, n - 1);
        let all = argument_names(v, n);
        let x = v[n - 1].name@;
        entered_rises::<String>(front, x);
        let h = choose|h: int|
            0 <= h < all.len() && String::key_of(#[trigger] all[h]) == String::key_of(x);
        assert(all[h] == x);
        assert forall|i: int| 0 <= i < n implies all.contains((#[trigger] v[i]).name@) by {
            if i < n - 1 {
                let y = front.index_of(v[i].name@);
                assert(all.contains(front[y]));
            }
        }
        assert forall|k: int| 0 <= k < all.len() implies exists|i: int|
            0 <= i < n && (#[trigger] v[i]).name@ == #[trigger] all[k] by {
            if front.contains(all[k]) {
                let y = front.index_of(all[k]);
                assert(front[y] == all[k]);
                let i = choose|i: int| 0 <= i < n - 1 && (#[trigger] v[i]).name@ == front[y];
                assert(v[i].name@ == all[k]);
            } else {
                assert(v[n - 1].name@ == all[k]);
            }
        }
    }
}

/// A name that is not declared is found.
proof fn stranger_found(names: Seq<Seq<char>>, p: Seq<ParameterModel>, i: int, k: int)
    requires
        0 <= i <= k < names.len(),
        !is_declared(p, names[k]),
    ensures
        undeclared(names, p, i) is Some,
    decreases k - i,
{
    if i < k && is_declared(p, names[i]) {
        stranger_found(names, p, i + 1, k);
    }
}

/// Where all names are declared there is none to find.
proof fn no_stranger(names: Seq<Seq<char>>, p: Seq<ParameterModel>, i: int)
    requires
        0 <= i,
        forall|k: int| 0 <= k < names.len() ==> is_declared(p, #[trigger] names[k]),
    ensures
        undeclared(names, p, i) is None,
    decreases names.len() - i,
{
    if i < names.len() {
        assert(is_declared(p, names[i]));
        no_stranger(names, p, i + 1);
    }
}

/// The values of arguments are theirs.
proof fn values_supplied(v: Seq<ActionArgument>, n: int)
    requires
        0 <= n <= v.len(),
        forall|j: int, k: int|
            #![trigger v[j], v[k]]
            0 <= j < k < v.len() ==> v[j].name@ != v[k].name@,
    ensures
        forall|i: int|
            0 <= i < n ==> supplied(v, n).contains_key((#[trigger] v[i]).name@) && supplied(v, n)[v[i].name@]
                == v[i].value,
        forall|s: Seq<char>| #[trigger]
            supplied(v, n).contains_key(s) ==> exists|i: int|
                0 <= i < n && (#[trigger] v[i]).name@ == s,
    decreases n,
{
    if n > 0 {
        values_supplied(v, n - 1);
        let front = supplied(v, n - 1);
        let all = supplied(v, n);
        assert forall|i: int| 0 <= i < n implies all.contains_key((#[trigger] v[i]).name@)
            && all[v[i].name@] == v[i].value by {
            if i < n - 1 {
                assert(v[i].name@ != v[n - 1].name@);
            }
        }
        assert forall|s: Seq<char>| #[trigger] all.contains_key(s) implies exists|i: int|
            0 <= i < n && (#[trigger] v[i]).name@ == s by {
            if s == v[n - 1].name@ {
                assert(v[n - 1].name@ == s);
            } else {
                assert(front.contains_key(s));
                let i = choose|i: int| 0 <= i < n - 1 && (#[trigger] v[i]).name@ == s;
                assert(v[i].name@ == s);
            }
        }
    }
}

/// Whether no two declarations have one name.
pub open spec fn declared_once(p: Seq<ParameterModel>) -> bool {
    forall|i: int, j: int|
        #![trigger p[i], p[j]]
        0 <= i < j < p.len() ==> p[i].name != p[j].name
}

/// The value that a parameter takes: the one that is given, or else its default.
pub open spec fn taken(p: ParameterModel, values: Map<Seq<char>, u64>) -> Option<u64> {
    if values.contains_key(p.name) {
        Some(values[p.name])
    } else {
        p.default
    }
}

/// Values are bound exactly where every parameter takes one that fits, and then each has the value
/// that it takes, and nothing else has one but what was given.
proof fn values_bound(p: Seq<ParameterModel>, values: Map<Seq<char>, u64>, i: int)
    requires
        0 <= i,
        declared_once(p),
    ensures
        bound(p, values, i) is Ok <==> forall|k: int|
            i <= k < p.len() ==> taken(#[trigger] p[k], values) is Some && !outside(
                p[k],
                taken(p[k], values)->0,
            ),
        bound(p, values, i) matches Ok(out) ==> {
            &&& forall|k: int|
                i <= k < p.len() ==> out.contains_key((#[trigger] p[k]).name) && out[p[k].name]
                    == taken(p[k], values)->0
            &&& forall|s: Seq<char>|
                values.contains_key(s) ==> #[trigger] out.contains_key(s) && out[s] == values[s]
            &&& forall|s: Seq<char>| #[trigger]
                out.contains_key(s) ==> values.contains_key(s) || exists|k: int|
                    i <= k < p.len() && (#[trigger] p[k]).name == s
        },
    decreases p.len() - i,
{
    if i < p.len() {
        let name = p[i].name;
        let filled = if !values.contains_key(name) && p[i].default is Some {
            values.insert(name, p[i].default->0)
        } else {
            values
        };
        values_bound(p, filled, i + 1);
        assert forall|k: int| i + 1 <= k < p.len() implies taken(#[trigger] p[k], filled) == taken(
            p[k],
            values,
        ) by {
            assert(p[i].name != p[k].name);
        }
        assert(filled.contains_key(name) <==> taken(p[i], values) is Some);
        let fits = filled.contains_key(name) && !outside(p[i], filled[name]);
        assert(fits <==> taken(p[i], values) is Some && !outside(p[i], taken(p[i], values)->0));
        if bound(p, values, i) is Ok {
            let out = bound(p, values, i)->Ok_0;
            assert(fits);
            assert(out.contains_key(name) && out[name] == filled[name]);
            assert forall|k: int| i <= k < p.len() implies taken(#[trigger] p[k], values) is Some
                && !outside(p[k], taken(p[k], values)->0) by {
                if k > i {
                    assert(taken(p[k], filled) == taken(p[k], values));
                }
            }
            assert forall|k: int| i <= k < p.len() implies out.contains_key((#[trigger] p[k]).name)
                && out[p[k].name] == taken(p[k], values)->0 by {
                if k > i {
                    assert(taken(p[k], filled) == taken(p[k], values));
                }
            }
            assert forall|s: Seq<char>| values.contains_key(s) implies #[trigger] out.contains_key(s)
                && out[s] == values[s] by {
                assert(filled.contains_key(s));
            }
            assert forall|s: Seq<char>| #[trigger] out.contains_key(s) implies values.contains_key(
                s,
            ) || exists|k: int| i <= k < p.len() && (#[trigger] p[k]).name == s by {
                if filled.contains_key(s) {
                    if !values.contains_key(s) {
                        assert(p[i].name == s);
                    }
                } else {
                    let k = choose|k: int| i + 1 <= k < p.len() && (#[trigger] p[k]).name == s;
                    assert(p[k].name == s);
                }
            }
        } else if fits {
            let k = choose|k: int|
                i + 1 <= k < p.len() && !(taken(#[trigger] p[k], filled) is Some && !outside(
                    p[k],
                    taken(p[k], filled)->0,
                ));
            assert(taken(p[k], filled) == taken(p[k], values));
        }
    }
}

/// Arguments that repeat a name are refused for it, and those that do not are not; arguments of a
/// name that is not declared are refused for it, and those that are declared are not.
pub proof fn arguments_are_declared_once(
    p: Seq<ParameterModel>,
    v: Seq<ActionArgument>,
    j: int,
    k: int,
)
    ensures
        0 <= j < k < v.len() && v[j].name@ == v[k].name@ ==> bound_arguments(p, v) matches Err(
            Refusal::DuplicateParameter(_),
        ),
        different(v) && 0 <= k < v.len() && (forall|i: int|
            0 <= i < p.len() ==> (#[trigger] p[i]).name != v[k].name@) ==> bound_arguments(p, v)
            matches Err(Refusal::ExtraParameter(_)),
        bound_arguments(p, v) matches Ok(_) ==> different(v) && forall|i: int|
            0 <= i < v.len() ==> is_declared(p, (#[trigger] v[i]).name@),
{
    let names = argument_names(v, v.len() as int);
    names_listed(v, v.len() as int);
    if 0 <= j < k < v.len() && v[j].name@ == v[k].name@ {
        repetition_found(v, 0, j, k);
    }
    if different(v) {
        no_repetition(v, 0);
        if 0 <= k < v.len() && (forall|i: int|
            0 <= i < p.len() ==> (#[trigger] p[i]).name != v[k].name@) {
            let x = names.index_of(v[k].name@);
            assert(!is_declared(p, names[x]));
            stranger_found(names, p, 0, x);
        }
    }
    if bound_arguments(p, v) is Ok {
        assert forall|a: int, b: int| #![trigger v[a], v[b]] 0 <= a < b < v.len() implies v[a].name@
            != v[b].name@ by {
            if v[a].name@ == v[b].name@ {
                repetition_found(v, 0, a, b);
            }
        }
        assert forall|i: int| 0 <= i < v.len() implies is_declared(p, (#[trigger] v[i]).name@) by {
            let x = names.index_of(v[i].name@);
            if !is_declared(p, names[x]) {
                stranger_found(names, p, 0, x);
            }
        }
    }
}

/// Whether no two arguments have one name.
pub open spec fn different(v: Seq<ActionArgument>) -> bool {
    forall|j: int, k: int|
        #![trigger v[j], v[k]]
        0 <= j < k < v.len() ==> v[j].name@ != v[k].name@
}

/// The value that arguments give a name.
pub open spec fn given(v: Seq<ActionArgument>, name: Seq<char>, value: u64) -> bool {
    exists|i: int| 0 <= i < v.len() && (#[trigger] v[i]).name@ == name && v[i].value == value
}

/// Whether a parameter can take a value: it fits, and it is the one that the arguments give, or the
/// default where they give none.
pub open spec fn fitted(p: ParameterModel, v: Seq<ActionArgument>, value: u64) -> bool {
    &&& !outside(p, value)
    &&& given(v, p.name, value) || ((forall|w: u64| !given(v, p.name, w)) && p.default == Some(
        value,
    ))
}

/// Whether there is a value that a parameter can take.
pub open spec fn takes_one(p: ParameterModel, v: Seq<ActionArgument>) -> bool {
    exists|value: u64| fitted(p, v, value)
}

/// Whether every parameter can take a value.
pub open spec fn all_fitted(p: Seq<ParameterModel>, v: Seq<ActionArgument>) -> bool {
    forall|k: int| 0 <= k < p.len() ==> takes_one(#[trigger] p[k], v)
}

/// Arguments that are declared, each once, are bound exactly where every parameter has a value that
/// fits it: the argument of its name, or its default where there is none. What is bound is the value
/// of each argument, and the default of each parameter without one.
pub proof fn parameters_take_arguments_or_defaults(
    p: Seq<ParameterModel>,
    v: Seq<ActionArgument>,
)
    requires
        declared_once(p),
        different(v),
        forall|i: int| 0 <= i < v.len() ==> is_declared(p, (#[trigger] v[i]).name@),
    ensures
        bound_arguments(p, v) is Ok <==> all_fitted(p, v),
        bound_arguments(p, v) matches Ok(out) ==> {
            &&& forall|i: int|
                0 <= i < v.len() ==> out.contains_key((#[trigger] v[i]).name@) && out[v[i].name@]
                    == v[i].value
            &&& forall|k: int|
                0 <= k < p.len() && !(exists|w: u64| given(v, (#[trigger] p[k]).name, w))
                    ==> out.contains_key(p[k].name) && Some(out[p[k].name]) == p[k].default
            &&& forall|s: Seq<char>| #[trigger] out.contains_key(s) ==> is_declared(p, s)
        },
{
    let n = v.len() as int;
    let names = argument_names(v, n);
    let values = supplied(v, n);
    no_repetition(v, 0);
    names_listed(v, n);
    values_supplied(v, n);
    assert forall|k: int| 0 <= k < names.len() implies is_declared(p, #[trigger] names[k]) by {
        let i = choose|i: int| 0 <= i < n && (#[trigger] v[i]).name@ == names[k];
        assert(is_declared(p, v[i].name@));
    }
    no_stranger(names, p, 0);
    values_bound(p, values, 0);
    assert(bound_arguments(p, v) == bound(p, values, 0));
    assert forall|s: Seq<char>, w: u64| #[trigger] given(v, s, w) implies values.contains_key(s)
        && values[s] == w by {
        let i = choose|i: int| 0 <= i < v.len() && (#[trigger] v[i]).name@ == s && v[i].value == w;
        assert(values[v[i].name@] == v[i].value);
    }
    assert forall|s: Seq<char>| #[trigger] values.contains_key(s) implies given(v, s, values[s]) by {
        let i = choose|i: int| 0 <= i < n && (#[trigger] v[i]).name@ == s;
        assert(values[v[i].name@] == v[i].value);
    }
    assert forall|k: int| 0 <= k < p.len() implies ((taken(#[trigger] p[k], values) is Some
        && !outside(p[k], taken(p[k], values)->0)) <==> exists|value: u64|
        fitted(p[k], v, value)) by {
        let name = p[k].name;
        if taken(p[k], values) is Some && !outside(p[k], taken(p[k], values)->0) {
            assert(fitted(p[k], v, taken(p[k], values)->0));
        }
        if exists|value: u64| fitted(p[k], v, value) {
            let value = choose|value: u64| fitted(p[k], v, value);
            if values.contains_key(name) {
                assert(given(v, name, values[name]));
            }
            assert(taken(p[k], values) == Some(value));
        }
    }
    if bound(p, values, 0) is Ok {
        assert forall|k: int| 0 <= k < p.len() implies takes_one(#[trigger] p[k], v) by {
            assert(taken(p[k], values) is Some && !outside(p[k], taken(p[k], values)->0));
        }
    } else {
        let k = choose|k: int|
            0 <= k < p.len() && !(taken(#[trigger] p[k], values) is Some && !outside(
                p[k],
                taken(p[k], values)->0,
            ));
        assert(!takes_one(p[k], v));
    }
    if bound(p, values, 0) is Ok {
        let out = bound(p, values, 0)->Ok_0;
        assert forall|i: int| 0 <= i < v.len() implies out.contains_key((#[trigger] v[i]).name@)
            && out[v[i].name@] == v[i].value by {
            assert(values.contains_key(v[i].name@));
        }
        assert forall|k: int|
            0 <= k < p.len() && !(exists|w: u64| given(v, (#[trigger] p[k]).name, w)) implies out.contains_key(
            p[k].name,
        ) && Some(out[p[k].name]) == p[k].default by {
            if values.contains_key(p[k].name) {
                assert(given(v, p[k].name, values[p[k].name]));
            }
            assert(taken(p[k], values) == p[k].default);
        }
        assert forall|s: Seq<char>| #[trigger] out.contains_key(s) implies is_declared(p, s) by {
            if values.contains_key(s) {
                let i = choose|i: int| 0 <= i < n && (#[trigger] v[i]).name@ == s;
                assert(is_declared(p, v[i].name@));
            }
        }
    }
}

/// An invocation is refused for the first of these that fails: the revision is that of the catalog,
/// the connection is declared, it has the action, the mode is the action's, and the action can be
/// taken in the role. Where none fails, its arguments decide.
pub proof fn invocations_are_refused_in_order(
    m: CameraManifest,
    q: ActionInvocationRequest,
    c: Connection,
    verb: ActionVerb,
    a: Action,
)
    ensures
        q.catalog_revision@ != revision_of(catalog_entries(m)) <==> resolution(m, q) == Err::<
            Invocation,
            Refusal,
        >(Refusal::StaleRevision),
        q.catalog_revision@ == revision_of(catalog_entries(m)) ==> {
            &&& m.connections.at(q.connection@) is None ==> resolution(m, q) == Err::<
                Invocation,
                Refusal,
            >(Refusal::UnknownConnection(q.connection@))
            &&& m.connections.at(q.connection@) == Some(c) ==> {
                let unknown = Refusal::UnknownAction {
                    connection: q.connection@,
                    action: q.action_id@,
                };
                &&& (forall|v: ActionVerb| verb_text(v) != q.action_id@) ==> resolution(m, q)
                    == Err::<Invocation, Refusal>(unknown)
                &&& verb_text(verb) == q.action_id@ && c.actions.at(verb) is None ==> resolution(
                    m,
                    q,
                ) == Err::<Invocation, Refusal>(unknown)
                &&& verb_text(verb) == q.action_id@ && c.actions.at(verb) == Some(a) ==> {
                    &&& !in_mode(a.mode@, q.mode@) ==> resolution(m, q) == Err::<
                        Invocation,
                        Refusal,
                    >(Refusal::WrongMode { expected: a.mode@, actual: q.mode@ })
                    &&& in_mode(a.mode@, q.mode@) && (q.role == ActionRole::Initiator && a.initiator
                        is None || q.role == ActionRole::Responder && a.responder is None)
                        ==> resolution(m, q) == Err::<Invocation, Refusal>(
                        Refusal::WrongRole(q.role),
                    )
                    &&& in_mode(a.mode@, q.mode@) && role_parameters(a, q.role) is Some ==> (match bound_arguments(
                        role_parameters(a, q.role)->0,
                        q.parameters@,
                    ) {
                        Ok(values) => resolution(m, q) == Ok::<Invocation, Refusal>(
                            Invocation { verb, action: a, values },
                        ),
                        Err(e) => resolution(m, q) == Err::<Invocation, Refusal>(e),
                    })
                }
            }
        },
        mutation_of(a, ActionRole::Initiator) is None,
        mutation_of(a, ActionRole::Responder) == (if a.responder is Some {
            Some(a.responder->0.mutation)
        } else {
            None
        }),
{
    if verb_text(verb) == q.action_id@ {
        let w = verb_named(q.action_id@)->0;
        assert(verb_text(w) == verb_text(verb));
        verb_text_injective(verb, w);
    }
    if bound_arguments(role_parameters(a, q.role)->0, q.parameters@) is Err {
        let p = role_parameters(a, q.role)->0;
        no_stale(p, q.parameters@);
    }
    match m.connections.at(q.connection@) {
        Some(x) => {
            if verb_named(q.action_id@) is Some {
                let w = verb_named(q.action_id@)->0;
                match x.actions.at(w) {
                    Some(y) => {
                        if role_parameters(y, q.role) is Some {
                            no_stale(role_parameters(y, q.role)->0, q.parameters@);
                        }
                    },
                    None => {},
                }
            }
        },
        None => {},
    }
}

/// Arguments are never refused for the revision.
proof fn no_stale(p: Seq<ParameterModel>, v: Seq<ActionArgument>)
    ensures
        bound_arguments(p, v) != Err::<Map<Seq<char>, u64>, Refusal>(Refusal::StaleRevision),
{
    bound_never_stale(p, supplied(v, v.len() as int), 0);
}

/// Values are never refused for the revision.
proof fn bound_never_stale(p: Seq<ParameterModel>, values: Map<Seq<char>, u64>, i: int)
    ensures
        bound(p, values, i) != Err::<Map<Seq<char>, u64>, Refusal>(Refusal::StaleRevision),
    decreases p.len() - i,
{
    if 0 <= i < p.len() {
        let name = p[i].name;
        let filled = if !values.contains_key(name) && p[i].default is Some {
            values.insert(name, p[i].default->0)
        } else {
            values
        };
        bound_never_stale(p, filled, i + 1);
    }
}

/// A parameter that is refused as missing has neither a value nor a default; one that is refused as
/// invalid has the value that is named, which does not fit it.
pub proof fn refusals_name_what_is_wrong(
    p: Seq<ParameterModel>,
    values: Map<Seq<char>, u64>,
    i: int,
) -> (k: int)
    requires
        0 <= i,
        declared_once(p),
        bound(p, values, i) is Err,
    ensures
        i <= k < p.len(),
        taken(p[k], values) is None ==> bound(p, values, i) == Err::<Map<Seq<char>, u64>, Refusal>(
            Refusal::MissingParameter(p[k].name),
        ),
        taken(p[k], values) is Some ==> outside(p[k], taken(p[k], values)->0) && bound(
            p,
            values,
            i,
        ) == Err::<Map<Seq<char>, u64>, Refusal>(
            Refusal::InvalidParameter { name: p[k].name, value: taken(p[k], values)->0 },
        ),
        forall|j: int|
            i <= j < k ==> taken(#[trigger] p[j], values) is Some && !outside(
                p[j],
                taken(p[j], values)->0,
            ),
    decreases p.len() - i,
{
    let name = p[i].name;
    let filled = if !values.contains_key(name) && p[i].default is Some {
        values.insert(name, p[i].default->0)
    } else {
        values
    };
    if filled.contains_key(name) && !outside(p[i], filled[name]) {
        let k = refusals_name_what_is_wrong(p, filled, i + 1);
        assert forall|j: int| i < j < p.len() implies taken(#[trigger] p[j], filled) == taken(
            p[j],
            values,
        ) by {
            assert(p[i].name != p[j].name);
        }
        k
    } else {
        i
    }
}

/// The catalog entry of an action says its verb, its connection and its mode, and lists the roles in
/// which it can be taken, the initiator's first.
pub proof fn entries_describe_their_action(connection: Seq<char>, verb: ActionVerb, a: Action)
    ensures
        ({
            let e = entry_model(connection, verb, a);
            &&& e.action_id == verb_text(verb)
            &&& e.connection == connection
            &&& e.mode == a.mode@
            &&& e.triggers == a.triggers@
            &&& e.roles.contains(ActionRole::Initiator) <==> a.initiator is Some
            &&& e.roles.contains(ActionRole::Responder) <==> a.responder is Some
            &&& a.initiator is Some && a.responder is Some ==> e.roles == seq![
                ActionRole::Initiator,
                ActionRole::Responder,
            ]
            &&& e.parameters.len() == e.roles.len()
        }),
{
    let e = entry_model(connection, verb, a);
    let roles = role_models(a);
    if a.initiator is Some {
        assert(roles[0].role == ActionRole::Initiator);
        assert(e.roles[0] == ActionRole::Initiator);
    }
    if a.responder is Some {
        let k = roles.len() - 1;
        assert(roles[k].role == ActionRole::Responder);
        assert(e.roles[k] == ActionRole::Responder);
    }
    if e.roles.contains(ActionRole::Initiator) {
        let i = e.roles.index_of(ActionRole::Initiator);
        assert(roles[i].role == ActionRole::Initiator);
    }
    if e.roles.contains(ActionRole::Responder) {
        let i = e.roles.index_of(ActionRole::Responder);
        assert(roles[i].role == ActionRole::Responder);
    }
    if a.initiator is Some && a.responder is Some {
        assert(e.roles =~= seq![ActionRole::Initiator, ActionRole::Responder]);
    }
}

} // verus!
