//! What a resolved index holds: literals in place of references, and UUIDs in place of GATT names.

use crate::index::parse::{
    await_source, awaited, block_resolved, body_resolved, brace_path, branched, catalog,
    entries_substituted, field_is_smaller, firmware_resolved, gatt_field, has_brace,
    items_substituted, kept_field, key_text, names_gatt, names_none, nested_resolved, path_value,
    plan_field, plan_resolved, plan_steps, plans_resolved, replaced_field, retagged_untagged,
    step_resolved, steps_resolved, substituted, uuid_like,
};
use crate::text::{split_text, trimmed};
use crate::validate::indexed;
use crate::yaml::{field, text_of, untagged, YamlModel};
use vstd::prelude::*;

verus! {

/// Whether no text among the values of a value holds a brace. What is tagged is not looked into.
pub open spec fn plain(y: YamlModel) -> bool
    decreases y,
{
    match y {
        YamlModel::Text(s) => !has_brace(trimmed(s)),
        YamlModel::Mapping(m) => forall|i: int| 0 <= i < m.len() ==> plain((#[trigger] m[i]).1),
        YamlModel::Sequence(v) => forall|i: int| 0 <= i < v.len() ==> plain(#[trigger] v[i]),
        _ => true,
    }
}

/// Whether every reference of a value that leads somewhere in `root` leads to a plain value.
pub open spec fn refers_to_plain(y: YamlModel, root: YamlModel) -> bool
    decreases y,
{
    match y {
        YamlModel::Text(s) => match brace_path(trimmed(s)) {
            Some(p) => match path_value(root, split_text(p, '.'), 0) {
                Some(v) => plain(v),
                None => true,
            },
            None => true,
        },
        YamlModel::Mapping(m) => forall|i: int|
            0 <= i < m.len() ==> refers_to_plain((#[trigger] m[i]).1, root),
        YamlModel::Sequence(v) => forall|i: int|
            0 <= i < v.len() ==> refers_to_plain(#[trigger] v[i], root),
        _ => true,
    }
}

/// The entries behind `i` stay as many, and each becomes plain exactly where its references lead to
/// plain values.
proof fn entries_replaced(
    m: Seq<(YamlModel, YamlModel)>,
    root: YamlModel,
    path: Seq<char>,
    i: int,
)
    requires
        0 <= i <= m.len(),
    ensures
        entries_substituted(m, root, path, i) matches Ok(x) ==> x.len() == m.len() - i && forall|
            k: int,
        |
            0 <= k < x.len() ==> plain((#[trigger] x[k]).1) == refers_to_plain(m[i + k].1, root),
    decreases m, m.len() - i,
{
    if i < m.len() {
        assert(decreases_to!(m => m[i]));
        assert(decreases_to!(m[i] => m[i].1));
        let at = path + "."@ + key_text(m[i].0);
        references_are_replaced(m[i].1, root, at);
        entries_replaced(m, root, path, i + 1);
        if let Ok(x) = entries_substituted(m, root, path, i) {
            let rest = entries_substituted(m, root, path, i + 1)->Ok_0;
            assert forall|k: int| 0 <= k < x.len() implies plain((#[trigger] x[k]).1)
                == refers_to_plain(m[i + k].1, root) by {
                if k > 0 {
                    assert(x[k] == rest[k - 1]);
                    assert(m[i + 1 + (k - 1)] == m[i + k]);
                }
            }
        }
    }
}

/// The items behind `i` stay as many, and each becomes plain exactly where its references lead to
/// plain values.
proof fn items_replaced(v: Seq<YamlModel>, root: YamlModel, path: Seq<char>, i: int)
    requires
        0 <= i <= v.len(),
    ensures
        items_substituted(v, root, path, i) matches Ok(x) ==> x.len() == v.len() - i && forall|
            k: int,
        |
            0 <= k < x.len() ==> plain(#[trigger] x[k]) == refers_to_plain(v[i + k], root),
    decreases v, v.len() - i,
{
    if i < v.len() {
        assert(decreases_to!(v => v[i]));
        references_are_replaced(v[i], root, indexed(path, "["@, i));
        items_replaced(v, root, path, i + 1);
        if let Ok(x) = items_substituted(v, root, path, i) {
            let rest = items_substituted(v, root, path, i + 1)->Ok_0;
            assert forall|k: int| 0 <= k < x.len() implies plain(#[trigger] x[k])
                == refers_to_plain(v[i + k], root) by {
                if k > 0 {
                    assert(x[k] == rest[k - 1]);
                    assert(v[i + 1 + (k - 1)] == v[i + k]);
                }
            }
        }
    }
}

/// What a substitution gives holds no reference any more, exactly where no reference leads to a
/// value that holds one itself.
pub proof fn references_are_replaced(y: YamlModel, root: YamlModel, path: Seq<char>)
    ensures
        substituted(y, root, path) matches Ok(v) ==> plain(v) == refers_to_plain(y, root),
    decreases y, 0int,
{
    match y {
        YamlModel::Mapping(m) => {
            assert(decreases_to!(y => m));
            entries_replaced(m, root, path, 0);
            if let Ok(x) = entries_substituted(m, root, path, 0) {
                assert(forall|k: int|
                    0 <= k < m.len() ==> plain((#[trigger] x[k]).1) == refers_to_plain(
                        m[k].1,
                        root,
                    ));
                let z = YamlModel::Mapping(x);
                assert(z->Mapping_0 == x);
                if plain(z) {
                    assert(forall|k: int| 0 <= k < x.len() ==> plain((#[trigger] x[k]).1));
                    assert forall|k: int| 0 <= k < m.len() implies refers_to_plain(
                        (#[trigger] m[k]).1,
                        root,
                    ) by {
                        assert(plain(x[k].1));
                    }
                }
            }
        },
        YamlModel::Sequence(v) => {
            assert(decreases_to!(y => v));
            items_replaced(v, root, path, 0);
            if let Ok(x) = items_substituted(v, root, path, 0) {
                assert(forall|k: int|
                    0 <= k < v.len() ==> plain(#[trigger] x[k]) == refers_to_plain(v[k], root));
                let z = YamlModel::Sequence(x);
                assert(z->Sequence_0 == x);
                if plain(z) {
                    assert(forall|k: int| 0 <= k < x.len() ==> plain(#[trigger] x[k]));
                    assert forall|k: int| 0 <= k < v.len() implies refers_to_plain(
                        #[trigger] v[k],
                        root,
                    ) by {
                        assert(plain(x[k]));
                    }
                }
            }
        },
        _ => {},
    }
}

/// Plain entries stay as they are.
proof fn entries_kept(m: Seq<(YamlModel, YamlModel)>, root: YamlModel, path: Seq<char>, i: int)
    requires
        0 <= i <= m.len(),
        forall|k: int| 0 <= k < m.len() ==> plain((#[trigger] m[k]).1),
    ensures
        entries_substituted(m, root, path, i) matches Ok(x) && x == m.skip(i),
    decreases m, m.len() - i,
{
    if i < m.len() {
        assert(decreases_to!(m => m[i]));
        assert(decreases_to!(m[i] => m[i].1));
        literals_are_kept(m[i].1, root, path + "."@ + key_text(m[i].0));
        entries_kept(m, root, path, i + 1);
        assert(m.skip(i) == seq![(m[i].0, m[i].1)] + m.skip(i + 1));
    } else {
        assert(m.skip(i) == Seq::<(YamlModel, YamlModel)>::empty());
    }
}

/// Plain items stay as they are.
proof fn items_kept(v: Seq<YamlModel>, root: YamlModel, path: Seq<char>, i: int)
    requires
        0 <= i <= v.len(),
        forall|k: int| 0 <= k < v.len() ==> plain(#[trigger] v[k]),
    ensures
        items_substituted(v, root, path, i) matches Ok(x) && x == v.skip(i),
    decreases v, v.len() - i,
{
    if i < v.len() {
        assert(decreases_to!(v => v[i]));
        literals_are_kept(v[i], root, indexed(path, "["@, i));
        items_kept(v, root, path, i + 1);
        assert(v.skip(i) == seq![v[i]] + v.skip(i + 1));
    } else {
        assert(v.skip(i) == Seq::<YamlModel>::empty());
    }
}

/// A plain value is never refused, and a substitution leaves it as it is.
pub proof fn literals_are_kept(y: YamlModel, root: YamlModel, path: Seq<char>)
    requires
        plain(y),
    ensures
        substituted(y, root, path) matches Ok(v) && v == y,
    decreases y, 0int,
{
    match y {
        YamlModel::Text(s) => {
            let t = trimmed(s);
            if brace_path(t) is Some {
                assert(t[0] == '{');
            }
        },
        YamlModel::Mapping(m) => {
            assert(decreases_to!(y => m));
            entries_kept(m, root, path, 0);
            assert(m.skip(0) == m);
        },
        YamlModel::Sequence(v) => {
            assert(decreases_to!(y => v));
            items_kept(v, root, path, 0);
            assert(v.skip(0) == v);
        },
        _ => {},
    }
}

/// Whether a text is one that the catalog gives, or a UUID.
pub open spec fn settled(t: Seq<char>, names: Map<Seq<char>, Seq<char>>) -> bool {
    uuid_like(t) || exists|k: Seq<char>| #[trigger] names.contains_key(k) && names[k] == t
}

/// Whether the `gatt` of a body, where it is a text, is settled.
pub open spec fn gatt_settled(body: YamlModel, names: Map<Seq<char>, Seq<char>>) -> bool {
    match field(body, "gatt"@) {
        Some(YamlModel::Text(t)) => settled(t, names),
        _ => true,
    }
}

/// Whether the name that the source of an await reads, or is notified of, is settled.
pub open spec fn source_settled(source: YamlModel, names: Map<Seq<char>, Seq<char>>) -> bool {
    match field(source, "read"@) {
        Some(YamlModel::Text(t)) => settled(t, names),
        _ => match field(source, "notify"@) {
            Some(n) => gatt_settled(n, names),
            None => true,
        },
    }
}

/// Whether the name that a firmware acquisition reads is settled.
pub open spec fn firmware_settled(body: YamlModel, names: Map<Seq<char>, Seq<char>>) -> bool {
    match field(body, "from"@) {
        Some(from) => match field(from, "bleRead"@) {
            Some(read) => gatt_settled(read, names),
            None => true,
        },
        None => true,
    }
}

/// Whether the steps under a text, where there is a sequence of them, are settled.
pub open spec fn nested_settled(
    body: YamlModel,
    k: Seq<char>,
    names: Map<Seq<char>, Seq<char>>,
) -> bool
    decreases body, 1int,
{
    match field(body, k) {
        Some(YamlModel::Sequence(v)) => {
            proof {
                field_is_smaller(body, k);
                let s = field(body, k)->0;
                assert(decreases_to!(s => s->Sequence_0));
            }
            forall|i: int| 0 <= i < v.len() ==> step_settled(#[trigger] v[i], names)
        },
        _ => true,
    }
}

/// Whether every GATT name in the body of a step is settled.
pub open spec fn body_settled(
    verb: Seq<char>,
    body: YamlModel,
    names: Map<Seq<char>, Seq<char>>,
) -> bool
    decreases body, 2int,
{
    if names_gatt(verb) {
        gatt_settled(body, names)
    } else if verb == "acquire"@ {
        match field(body, "from"@) {
            Some(inner) => {
                proof {
                    field_is_smaller(body, "from"@);
                }
                step_settled(inner, names)
            },
            None => true,
        }
    } else if verb == "acquireFirmware"@ {
        firmware_settled(body, names)
    } else if verb == "bleAwaitUntil"@ {
        (match field(body, "source"@) {
            Some(source) => source_settled(source, names),
            None => true,
        }) && nested_settled(body, "onEach"@, names)
    } else if verb == "if"@ {
        nested_settled(body, "then"@, names) && nested_settled(body, "else"@, names)
    } else {
        true
    }
}

/// Whether every GATT name of a step is settled.
pub open spec fn step_settled(step: YamlModel, names: Map<Seq<char>, Seq<char>>) -> bool
    decreases step, 3int,
{
    match step {
        YamlModel::Mapping(m) => if m.len() == 0 {
            true
        } else {
            let verb = match text_of(m[0].0) {
                Some(t) => t,
                None => ""@,
            };
            proof {
                assert(decreases_to!(step => step->Mapping_0));
                assert(decreases_to!(m => m[0]));
                assert(decreases_to!(m[0] => m[0].1));
            }
            body_settled(verb, m[0].1, names)
        },
        _ => true,
    }
}

/// A body whose `gatt` is resolved has it settled.
proof fn gatt_field_settles(body: YamlModel, names: Map<Seq<char>, Seq<char>>, path: Seq<char>)
    ensures
        gatt_field(body, names, path) matches Ok(x) ==> gatt_settled(x, names),
{
    replaced_field(body, "gatt"@);
    if let Some(YamlModel::Text(name)) = field(body, "gatt"@) {
        if names.contains_key(name) {
            assert(settled(names[name], names));
        }
    }
}

/// The source of an await that is resolved is settled.
proof fn await_source_settles(source: YamlModel, names: Map<Seq<char>, Seq<char>>, path: Seq<char>)
    ensures
        await_source(source, names, path) matches Ok(x) ==> source_settled(x, names),
{
    reveal_strlit("read");
    reveal_strlit("notify");
    assert("read"@[0] != "notify"@[0]);
    replaced_field(source, "read"@);
    replaced_field(source, "notify"@);
    kept_field(source, "notify"@, "read"@);
    match field(source, "read"@) {
        Some(YamlModel::Text(name)) => {
            if names.contains_key(name) {
                assert(settled(names[name], names));
            }
        },
        _ => {
            if let Some(n) = field(source, "notify"@) {
                gatt_field_settles(n, names, path + ".notify"@);
            }
        },
    }
}

/// A firmware acquisition that is resolved is settled.
proof fn firmware_settles(body: YamlModel, names: Map<Seq<char>, Seq<char>>, here: Seq<char>)
    ensures
        firmware_resolved(body, names, here) matches Ok(x) ==> firmware_settled(x, names),
{
    replaced_field(body, "from"@);
    if let Some(from) = field(body, "from"@) {
        replaced_field(from, "bleRead"@);
        if let Some(read) = field(from, "bleRead"@) {
            gatt_field_settles(read, names, here + ".from.bleRead"@);
        }
    }
}

/// The steps under a text that are resolved are settled, and no other field changes.
proof fn nested_settles(
    body: YamlModel,
    k: Seq<char>,
    names: Map<Seq<char>, Seq<char>>,
    path: Seq<char>,
)
    ensures
        nested_resolved(body, k, names, path) matches Ok(x) ==> nested_settled(x, k, names)
            && (field(x, k) is Some == field(body, k) is Some) && forall|other: Seq<char>|
            other != k ==> #[trigger] field(x, other) == field(body, other),
    decreases body, 1int, 0int,
{
    replaced_field(body, k);
    if let Some(YamlModel::Sequence(v)) = field(body, k) {
        field_is_smaller(body, k);
        let s = field(body, k)->0;
        assert(decreases_to!(s => s->Sequence_0));
        steps_settle(v, names, path, 0);
        if let Ok(x) = nested_resolved(body, k, names, path) {
            assert forall|other: Seq<char>| other != k implies #[trigger] field(x, other) == field(
                body,
                other,
            ) by {
                kept_field(body, k, other);
            }
        }
    }
}

/// The body of a step that is resolved is settled.
proof fn body_settles(
    verb: Seq<char>,
    body: YamlModel,
    names: Map<Seq<char>, Seq<char>>,
    here: Seq<char>,
)
    ensures
        body_resolved(verb, body, names, here) matches Ok(x) ==> body_settled(verb, x, names),
    decreases body, 2int, 0int,
{
    if names_none(verb) {
        reveal_strlit("bleConnect");
        reveal_strlit("bleAwaitDisconnect");
        reveal_strlit("bleRequestMtu");
        reveal_strlit("bleDiscoverServices");
        reveal_strlit("bleRead");
        reveal_strlit("bleWrite");
        reveal_strlit("bleSubscribe");
        reveal_strlit("bleNotify");
        reveal_strlit("bleWriteChunk");
        reveal_strlit("acquire");
        reveal_strlit("acquireFirmware");
        reveal_strlit("bleAwaitUntil");
        reveal_strlit("if");
        assert(verb[3] == 'C' || verb[3] == 'A' || verb[3] == 'R' || verb[3] == 'D');
        assert(verb.len() == 10 || verb.len() == 18 || verb.len() == 13 || verb.len() == 19);
        assert(body_settled(verb, body, names));
    } else if names_gatt(verb) {
        gatt_field_settles(body, names, here);
    } else if verb == "acquire"@ {
        replaced_field(body, "from"@);
        if let Some(inner) = field(body, "from"@) {
            field_is_smaller(body, "from"@);
            step_settles(inner, names, indexed(here, ".from["@, 0));
        }
    } else if verb == "acquireFirmware"@ {
        firmware_settles(body, names, here);
    } else if verb == "bleAwaitUntil"@ {
        awaited_settles(body, names, here);
    } else if verb == "if"@ {
        branched_settles(body, names, here);
    }
}

/// The body of an await that is resolved is settled.
proof fn awaited_settles(body: YamlModel, names: Map<Seq<char>, Seq<char>>, here: Seq<char>)
    ensures
        awaited(body, names, here) matches Ok(x) ==> nested_settled(x, "onEach"@, names) && match field(
            x,
            "source"@,
        ) {
            Some(source) => source_settled(source, names),
            None => true,
        },
    decreases body, 1int, 1int,
{
    reveal_strlit("onEach");
    reveal_strlit("source");
    assert("onEach"@[0] != "source"@[0]);
    nested_settles(body, "onEach"@, names, here + ".onEach"@);
    if let Some(source) = field(body, "source"@) {
        await_source_settles(source, names, here + ".source"@);
        if let Ok(b) = nested_resolved(body, "onEach"@, names, here + ".onEach"@) {
            replaced_field(b, "source"@);
            kept_field(b, "source"@, "onEach"@);
        }
    }
}

/// The body of a branch that is resolved is settled.
proof fn branched_settles(body: YamlModel, names: Map<Seq<char>, Seq<char>>, here: Seq<char>)
    ensures
        branched(body, names, here) matches Ok(x) ==> nested_settled(x, "then"@, names)
            && nested_settled(x, "else"@, names),
    decreases body, 1int, 1int,
{
    reveal_strlit("then");
    reveal_strlit("else");
    assert("then"@[0] != "else"@[0]);
    nested_settles(body, "then"@, names, here + ".then"@);
    nested_settles(body, "else"@, names, here + ".else"@);
    if let Ok(x) = nested_resolved(body, "then"@, names, here + ".then"@) {
        replaced_field(x, "else"@);
        kept_field(x, "else"@, "then"@);
    }
}

/// A step that is resolved is settled.
proof fn step_settles(step: YamlModel, names: Map<Seq<char>, Seq<char>>, at: Seq<char>)
    ensures
        step_resolved(step, names, at) matches Ok(x) ==> step_settled(x, names),
    decreases step, 3int, 0int,
{
    if let YamlModel::Mapping(m) = step {
        if m.len() > 0 {
            let verb = match text_of(m[0].0) {
                Some(t) => t,
                None => ""@,
            };
            assert(decreases_to!(step => step->Mapping_0));
            assert(decreases_to!(m => m[0]));
            assert(decreases_to!(m[0] => m[0].1));
            body_settles(verb, m[0].1, names, at + "."@ + verb);
        }
    }
}

/// Steps that are resolved stay as many, and every GATT name in them is settled.
proof fn steps_settle(
    v: Seq<YamlModel>,
    names: Map<Seq<char>, Seq<char>>,
    path: Seq<char>,
    i: int,
)
    requires
        0 <= i <= v.len(),
    ensures
        steps_resolved(v, names, path, i) matches Ok(x) ==> x.len() == v.len() - i && forall|
            k: int,
        |
            0 <= k < x.len() ==> step_settled(#[trigger] x[k], names),
    decreases v, 4int, v.len() - i,
{
    if i < v.len() {
        assert(decreases_to!(v => v[i]));
        step_settles(v[i], names, indexed(path, "["@, i));
        steps_settle(v, names, path, i + 1);
        if let Ok(x) = steps_resolved(v, names, path, i) {
            let rest = steps_resolved(v, names, path, i + 1)->Ok_0;
            assert forall|k: int| 0 <= k < x.len() implies step_settled(#[trigger] x[k], names) by {
                if k > 0 {
                    assert(x[k] == rest[k - 1]);
                }
            }
        }
    }
}

/// Whether the steps under a text of a plan are settled.
pub open spec fn plan_settled(
    plan: YamlModel,
    k: Seq<char>,
    names: Map<Seq<char>, Seq<char>>,
) -> bool {
    match field(plan, k) {
        Some(s) => match untagged(s) {
            YamlModel::Sequence(v) => forall|i: int|
                0 <= i < v.len() ==> step_settled(#[trigger] v[i], names),
            _ => true,
        },
        None => true,
    }
}

/// Whether the steps of every plan under a text of a block are settled. Only an establishment has
/// steps that tell when it can be replayed.
pub open spec fn plans_settled(
    block: YamlModel,
    k: Seq<char>,
    names: Map<Seq<char>, Seq<char>>,
    replayable: bool,
) -> bool {
    match field(block, k) {
        Some(s) => match untagged(s) {
            YamlModel::Mapping(m) => forall|i: int|
                0 <= i < m.len() ==> plan_settled((#[trigger] m[i]).1, "steps"@, names) && (
                replayable ==> plan_settled(m[i].1, "postExitReadiness"@, names)),
            _ => true,
        },
        None => true,
    }
}

/// The steps under a text of a plan that are resolved are settled, and no other field changes.
proof fn plan_steps_settle(
    plan: YamlModel,
    k: Seq<char>,
    names: Map<Seq<char>, Seq<char>>,
    path: Seq<char>,
)
    ensures
        plan_steps(plan, k, names, path) matches Ok(x) ==> plan_settled(x, k, names) && forall|
            other: Seq<char>,
        |
            other != k ==> #[trigger] field(x, other) == field(plan, other),
{
    replaced_field(plan, k);
    if let Some(s) = field(plan, k) {
        if let YamlModel::Sequence(v) = untagged(s) {
            steps_settle(v, names, path, 0);
            if let Ok(x) = plan_steps(plan, k, names, path) {
                let steps = steps_resolved(v, names, path, 0)->Ok_0;
                retagged_untagged(s, YamlModel::Sequence(steps));
                assert forall|other: Seq<char>| other != k implies #[trigger] field(x, other)
                    == field(plan, other) by {
                    kept_field(plan, k, other);
                }
            }
        }
    }
}

/// A plan that is resolved is settled.
proof fn plan_settles(
    plan: YamlModel,
    names: Map<Seq<char>, Seq<char>>,
    path: Seq<char>,
    replayable: bool,
)
    ensures
        plan_resolved(plan, names, path, replayable) matches Ok(x) ==> plan_settled(
            x,
            "steps"@,
            names,
        ) && (replayable ==> plan_settled(x, "postExitReadiness"@, names)),
{
    reveal_strlit("steps");
    reveal_strlit("postExitReadiness");
    assert("steps"@.len() != "postExitReadiness"@.len());
    if replayable {
        plan_steps_settle(plan, "postExitReadiness"@, names, path + ".postExitReadiness"@);
        if let Ok(x) = plan_steps(
            plan,
            "postExitReadiness"@,
            names,
            path + ".postExitReadiness"@,
        ) {
            plan_steps_settle(x, "steps"@, names, path + ".steps"@);
        }
    } else {
        plan_steps_settle(plan, "steps"@, names, path + ".steps"@);
    }
}

/// The plans behind `i` that are resolved are settled.
proof fn plans_settle(
    m: Seq<(YamlModel, YamlModel)>,
    names: Map<Seq<char>, Seq<char>>,
    path: Seq<char>,
    replayable: bool,
    i: int,
)
    requires
        0 <= i <= m.len(),
    ensures
        plans_resolved(m, names, path, replayable, i) matches Ok(x) ==> forall|k: int|
            0 <= k < x.len() ==> plan_settled((#[trigger] x[k]).1, "steps"@, names) && (
            replayable ==> plan_settled(x[k].1, "postExitReadiness"@, names)),
    decreases m.len() - i,
{
    if i < m.len() {
        plan_settles(m[i].1, names, path + key_text(m[i].0), replayable);
        plans_settle(m, names, path, replayable, i + 1);
        if let Ok(x) = plans_resolved(m, names, path, replayable, i) {
            let rest = plans_resolved(m, names, path, replayable, i + 1)->Ok_0;
            assert forall|k: int| 0 <= k < x.len() implies plan_settled(
                (#[trigger] x[k]).1,
                "steps"@,
                names,
            ) && (replayable ==> plan_settled(x[k].1, "postExitReadiness"@, names)) by {
                if k > 0 {
                    assert(x[k] == rest[k - 1]);
                }
            }
        }
    }
}

/// The plans under a text of a block that are resolved are settled, and no other field changes.
proof fn plan_field_settles(
    block: YamlModel,
    k: Seq<char>,
    names: Map<Seq<char>, Seq<char>>,
    path: Seq<char>,
    replayable: bool,
)
    ensures
        plan_field(block, k, names, path, replayable) matches Ok(x) ==> plans_settled(
            x,
            k,
            names,
            replayable,
        ) && forall|other: Seq<char>|
            other != k ==> #[trigger] field(x, other) == field(block, other),
{
    replaced_field(block, k);
    if let Some(s) = field(block, k) {
        if let YamlModel::Mapping(m) = untagged(s) {
            plans_settle(m, names, path, replayable, 0);
            if let Ok(x) = plan_field(block, k, names, path, replayable) {
                let plans = plans_resolved(m, names, path, replayable, 0)->Ok_0;
                retagged_untagged(s, YamlModel::Mapping(plans));
                assert forall|other: Seq<char>| other != k implies #[trigger] field(x, other)
                    == field(block, other) by {
                    kept_field(block, k, other);
                }
            }
        }
    }
}

/// Whoever walks the plans of a resolved block meets UUIDs only, those of the catalog or those that
/// were written out: no step of an establishment or of an action is left with a symbolic name. The
/// catalog, and every field but the plans, stay what they were.
pub proof fn resolved_block_is_settled(block: YamlModel, model_id: Seq<char>)
    ensures
        block_resolved(block, model_id) matches Ok(x) ==> {
            &&& plans_settled(x, "establishments"@, catalog(block), true)
            &&& plans_settled(x, "actions"@, catalog(block), false)
            &&& catalog(x) == catalog(block)
            &&& forall|other: Seq<char>|
                other != "establishments"@ && other != "actions"@ ==> #[trigger] field(x, other)
                    == field(block, other)
        },
{
    reveal_strlit("establishments");
    reveal_strlit("actions");
    reveal_strlit("gatt");
    assert("establishments"@.len() != "actions"@.len());
    assert("gatt"@.len() == 4);
    let names = catalog(block);
    let path = "models."@ + model_id;
    plan_field_settles(block, "establishments"@, names, path + ".establishments."@, true);
    if let Ok(x) = plan_field(block, "establishments"@, names, path + ".establishments."@, true) {
        plan_field_settles(x, "actions"@, names, path + ".actions."@, false);
    }
}

} // verus!
