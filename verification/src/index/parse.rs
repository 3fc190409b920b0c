//! Resolution of a manufacturer index: inheritance, static references and GATT names.
//!
//! The raw index is plain YAML. Each model's family blocks are merged, the symbolic GATT names of
//! its steps are replaced by UUIDs, and the static references of its signatures by the values that
//! they name. What is then read into records is checked here too.

use crate::error::{first_fault, faults, invalid, ConfigError, ConfigFault};
use crate::index::types::{
    AdvertCapture, AdvertPredicate, BleAdvertSignature, EstablishmentBlock, FamilyBleBlock,
    FamilyPcssBlock, IndexedModel, ManufacturerIndex, ModelView, NotifyCapture, PayloadPredicate,
    ResolvedManufacturerIndex, Signature, Step,
};
use crate::name_map::NameMap;
use crate::text::{
    chars_of, decimal, digit, is_digit, join2, join3, join4, join5, optional_text, same, split,
    split_text, trim, trimmed, u64_text, views,
};
use crate::validate::{index_path, indexed};
use crate::yaml::{
    as_text, copy_entries, entries_of, entry_models, field, find_key, get_field, get_member, item_models,
    key_index, key_index_bounds, mapping_view, member, merge_yaml, merged, retag, retagged, sequence_view,
    set_member, swap_removed, text_of, untag, untagged, with_member, Yaml, YamlModel,
};
use vstd::prelude::*;

verus! {

/// The fault of a value at a path.
fn refuse<T>(path: String, message: String) -> (r: Result<T, ConfigError>)
    ensures
        r matches Err(e) && e@ == invalid(path@, message@),
{
    Err(ConfigError::Validation { path, message })
}

/// The texts of a map.
pub open spec fn names_of(m: NameMap<String>) -> Map<Seq<char>, Seq<char>> {
    Map::new(|k: Seq<char>| m.has(k), |k: Seq<char>| m.at(k)->0@)
}

/// Whether a text is a UUID: five groups of hexadecimal digits of fixed lengths.
pub open spec fn uuid_like(s: Seq<char>) -> bool {
    let parts = split_text(s, '-');
    &&& parts.len() == 5
    &&& parts[0].len() == 8
    &&& parts[1].len() == 4
    &&& parts[2].len() == 4
    &&& parts[3].len() == 4
    &&& parts[4].len() == 12
    &&& forall|i: int| 0 <= i < parts.len() ==> hexadecimal(#[trigger] parts[i])
}

/// Whether every character is a hexadecimal digit.
pub open spec fn hexadecimal(s: Seq<char>) -> bool {
    forall|i: int| 0 <= i < s.len() ==> is_digit(#[trigger] s[i], 16)
}

/// Whether every character is a hexadecimal digit.
fn is_hexadecimal(s: &str) -> (r: bool)
    ensures
        r == hexadecimal(s@),
{
    let v = chars_of(s);
    let mut i: usize = 0;
    while i < v.len()
        invariant
            v@ == s@,
            i <= v@.len(),
            forall|k: int| 0 <= k < i ==> is_digit(#[trigger] s@[k], 16),
        decreases v@.len() - i,
    {
        if digit(v[i], 16).is_none() {
            proof {
                assert(!is_digit(s@[i as int], 16));
            }
            return false;
        }
        i = i + 1;
    }
    true
}

/// Whether a text is a UUID.
fn looks_like_uuid(s: &str) -> (r: bool)
    ensures
        r == uuid_like(s@),
{
    let parts = split(s, '-');
    let ghost texts = split_text(s@, '-');
    proof {
        assert(views(parts@).len() == texts.len());
        assert forall|i: int| 0 <= i < parts@.len() implies #[trigger] texts[i] == parts@[i]@ by {
            assert(views(parts@)[i] == parts@[i]@);
        }
    }
    if parts.len() != 5 {
        return false;
    }
    if parts[0].as_str().unicode_len() != 8 || parts[1].as_str().unicode_len() != 4
        || parts[2].as_str().unicode_len() != 4 || parts[3].as_str().unicode_len() != 4
        || parts[4].as_str().unicode_len() != 12 {
        return false;
    }
    let mut i: usize = 0;
    while i < parts.len()
        invariant
            texts == split_text(s@, '-'),
            parts@.len() == 5,
            texts.len() == 5,
            forall|k: int| 0 <= k < parts@.len() ==> #[trigger] texts[k] == parts@[k]@,
            i <= parts@.len(),
            forall|k: int| 0 <= k < i ==> hexadecimal(#[trigger] texts[k]),
        decreases parts@.len() - i,
    {
        proof {
            assert(texts[i as int] == parts@[i as int]@);
        }
        if !is_hexadecimal(parts[i].as_str()) {
            return false;
        }
        i = i + 1;
    }
    true
}

/// The UUID that a GATT name stands for: that of the catalog, or the name itself where it is one.
pub open spec fn resolved_gatt(
    name: Seq<char>,
    names: Map<Seq<char>, Seq<char>>,
    path: Seq<char>,
) -> Result<Seq<char>, ConfigFault> {
    if names.contains_key(name) {
        Ok(names[name])
    } else if uuid_like(name) {
        Ok(name)
    } else {
        Err(invalid(path + ".gatt"@, "undefined gatt symbolic name '"@ + name + "'"@))
    }
}

/// The UUID that a GATT name stands for: that of the catalog, or the name itself where it is one.
pub(crate) fn resolve_one_gatt_name(name: &str, gatt: &NameMap<String>, path: &str) -> (r: Result<
    String,
    ConfigError,
>)
    ensures
        match resolved_gatt(name@, names_of(*gatt), path@) {
            Ok(u) => r matches Ok(s) && s@ == u,
            Err(f) => r matches Err(e) && e@ == f,
        },
{
    match gatt.get(name) {
        Some(uuid) => Ok(uuid.clone()),
        None => if looks_like_uuid(name) {
            Ok(name.to_owned())
        } else {
            refuse(join2(path, ".gatt"), join3("undefined gatt symbolic name '", name, "'"))
        },
    }
}

/// Whether an outcome on YAML values is what the specification says.
pub open spec fn yields(r: Result<Yaml, ConfigError>, s: Result<YamlModel, ConfigFault>) -> bool {
    match s {
        Ok(y) => r matches Ok(v) && v@ == y,
        Err(f) => r matches Err(e) && e@ == f,
    }
}

/// A value with another one under a text.
pub open spec fn with_field(y: YamlModel, k: Seq<char>, v: YamlModel) -> YamlModel {
    match entries_of(y) {
        Some(m) => retagged(y, YamlModel::Mapping(with_member(m, k, v))),
        None => y,
    }
}

/// A value with another one under a text that it has.
fn put_field(y: &Yaml, k: &str, v: Yaml) -> (r: Yaml)
    requires
        field(y@, k@) is Some,
    ensures
        r@ == with_field(y@, k@, v@),
{
    match untag(y) {
        Yaml::Mapping(m) => {
            proof {
                mapping_view(*m);
            }
            let mut entries = copy_entries(m);
            set_member(&mut entries, k, v);
            proof {
                mapping_view(entries);
            }
            retag(y, Yaml::Mapping(entries))
        },
        _ => y.clone(),
    }
}

/// A step's body with its `gatt` resolved.
pub open spec fn gatt_field(
    body: YamlModel,
    names: Map<Seq<char>, Seq<char>>,
    path: Seq<char>,
) -> Result<YamlModel, ConfigFault> {
    match field(body, "gatt"@) {
        Some(YamlModel::Text(name)) => match resolved_gatt(name, names, path) {
            Ok(u) => Ok(with_field(body, "gatt"@, YamlModel::Text(u))),
            Err(f) => Err(f),
        },
        _ => Ok(body),
    }
}

/// A step's body with its `gatt` resolved.
fn resolve_gatt_field(body: &Yaml, gatt: &NameMap<String>, path: &str) -> (r: Result<
    Yaml,
    ConfigError,
>)
    ensures
        yields(r, gatt_field(body@, names_of(*gatt), path@)),
{
    match get_field(body, "gatt") {
        Some(Yaml::String(name)) => match resolve_one_gatt_name(name.as_str(), gatt, path) {
            Ok(u) => Ok(put_field(body, "gatt", Yaml::String(u))),
            Err(e) => Err(e),
        },
        _ => Ok(body.clone()),
    }
}

/// The source of an await with its GATT name resolved: that of `read`, or else that of `notify`.
pub open spec fn await_source(
    source: YamlModel,
    names: Map<Seq<char>, Seq<char>>,
    path: Seq<char>,
) -> Result<YamlModel, ConfigFault> {
    match field(source, "read"@) {
        Some(YamlModel::Text(name)) => match resolved_gatt(name, names, path + ".read"@) {
            Ok(u) => Ok(with_field(source, "read"@, YamlModel::Text(u))),
            Err(f) => Err(f),
        },
        _ => match field(source, "notify"@) {
            Some(n) => match gatt_field(n, names, path + ".notify"@) {
                Ok(x) => Ok(with_field(source, "notify"@, x)),
                Err(f) => Err(f),
            },
            None => Ok(source),
        },
    }
}

/// The source of an await with its GATT name resolved.
fn resolve_await_source_gatt(source: &Yaml, gatt: &NameMap<String>, path: &str) -> (r: Result<
    Yaml,
    ConfigError,
>)
    ensures
        yields(r, await_source(source@, names_of(*gatt), path@)),
{
    match get_field(source, "read") {
        Some(Yaml::String(name)) => {
            let at = join2(path, ".read");
            return match resolve_one_gatt_name(name.as_str(), gatt, at.as_str()) {
                Ok(u) => Ok(put_field(source, "read", Yaml::String(u))),
                Err(e) => Err(e),
            };
        },
        _ => {},
    }
    match get_field(source, "notify") {
        Some(n) => {
            let at = join2(path, ".notify");
            match resolve_gatt_field(n, gatt, at.as_str()) {
                Ok(x) => Ok(put_field(source, "notify", x)),
                Err(e) => Err(e),
            }
        },
        None => Ok(source.clone()),
    }
}

/// The verbs whose body names a GATT characteristic.
pub open spec fn names_gatt(verb: Seq<char>) -> bool {
    verb == "bleRead"@ || verb == "bleWrite"@ || verb == "bleSubscribe"@ || verb == "bleNotify"@
        || verb == "bleWriteChunk"@
}

/// The verbs whose body names no GATT characteristic.
pub open spec fn names_none(verb: Seq<char>) -> bool {
    verb == "bleConnect"@ || verb == "bleAwaitDisconnect"@ || verb == "bleRequestMtu"@ || verb
        == "bleDiscoverServices"@
}

/// The body of a firmware acquisition with the `gatt` of its `bleRead` source resolved.
pub open spec fn firmware_resolved(
    body: YamlModel,
    names: Map<Seq<char>, Seq<char>>,
    here: Seq<char>,
) -> Result<YamlModel, ConfigFault> {
    match field(body, "from"@) {
        Some(from) => match field(from, "bleRead"@) {
            Some(read) => match gatt_field(read, names, here + ".from.bleRead"@) {
                Ok(x) => Ok(with_field(body, "from"@, with_field(from, "bleRead"@, x))),
                Err(f) => Err(f),
            },
            None => Ok(body),
        },
        None => Ok(body),
    }
}

/// A value under a text is smaller than the value that holds it.
pub proof fn field_is_smaller(y: YamlModel, k: Seq<char>)
    ensures
        field(y, k) matches Some(v) ==> decreases_to!(y => v),
{
    untagged_is_smaller(y);
    match entries_of(y) {
        Some(m) => {
            key_index_bounds(m, k, 0);
            let i = key_index(m, k, 0);
            if i < m.len() {
                let u = untagged(y);
                assert(decreases_to!(u => u->Mapping_0));
                assert(decreases_to!(m => m[i]));
                assert(decreases_to!(m[i] => m[i].1));
            }
        },
        None => {},
    }
}

/// The value within all tags is the value, or smaller.
pub proof fn untagged_is_smaller(y: YamlModel)
    ensures
        untagged(y) == y || decreases_to!(y => untagged(y)),
    decreases y,
{
    match y {
        YamlModel::Tagged(_, value) => {
            untagged_is_smaller(*value);
        },
        _ => {},
    }
}

/// A body with the steps under a text resolved, where there is a sequence of them.
pub open spec fn nested_resolved(
    body: YamlModel,
    k: Seq<char>,
    names: Map<Seq<char>, Seq<char>>,
    path: Seq<char>,
) -> Result<YamlModel, ConfigFault>
    decreases body, 1int, 0int,
{
    match field(body, k) {
        Some(YamlModel::Sequence(v)) => {
            proof {
                field_is_smaller(body, k);
                let s = field(body, k)->0;
                assert(decreases_to!(s => s->Sequence_0));
            }
            match steps_resolved(v, names, path, 0) {
                Ok(x) => Ok(with_field(body, k, YamlModel::Sequence(x))),
                Err(f) => Err(f),
            }
        },
        _ => Ok(body),
    }
}

/// The body of a step with its GATT names resolved.
pub open spec fn body_resolved(
    verb: Seq<char>,
    body: YamlModel,
    names: Map<Seq<char>, Seq<char>>,
    here: Seq<char>,
) -> Result<YamlModel, ConfigFault>
    decreases body, 2int, 0int,
{
    if names_none(verb) {
        Ok(body)
    } else if names_gatt(verb) {
        gatt_field(body, names, here)
    } else if verb == "acquire"@ {
        match field(body, "from"@) {
            Some(inner) => {
                proof {
                    field_is_smaller(body, "from"@);
                }
                match step_resolved(inner, names, indexed(here, ".from["@, 0)) {
                    Ok(x) => Ok(with_field(body, "from"@, x)),
                    Err(f) => Err(f),
                }
            },
            None => Ok(body),
        }
    } else if verb == "acquireFirmware"@ {
        firmware_resolved(body, names, here)
    } else if verb == "bleAwaitUntil"@ {
        awaited(body, names, here)
    } else if verb == "if"@ {
        branched(body, names, here)
    } else {
        Err(
            invalid(
                here,
                "unknown step verb '"@ + verb
                    + "' (allowlist: bleConnect, bleAwaitDisconnect, bleRequestMtu, bleDiscoverServices, bleRead, bleWrite, bleSubscribe, bleNotify, bleAwaitUntil, bleWriteChunk, acquire, acquireFirmware, if)"@,
            ),
        )
    }
}

/// The body of an await with the GATT names of its source and of its steps resolved.
pub open spec fn awaited(
    body: YamlModel,
    names: Map<Seq<char>, Seq<char>>,
    here: Seq<char>,
) -> Result<YamlModel, ConfigFault>
    decreases body, 1int, 1int,
{
    match field(body, "source"@) {
        Some(source) => match await_source(source, names, here + ".source"@) {
            Ok(x) => match nested_resolved(body, "onEach"@, names, here + ".onEach"@) {
                Ok(b) => Ok(with_field(b, "source"@, x)),
                Err(f) => Err(f),
            },
            Err(f) => Err(f),
        },
        None => nested_resolved(body, "onEach"@, names, here + ".onEach"@),
    }
}

/// The body of a branch with the GATT names of both sides resolved.
pub open spec fn branched(
    body: YamlModel,
    names: Map<Seq<char>, Seq<char>>,
    here: Seq<char>,
) -> Result<YamlModel, ConfigFault>
    decreases body, 1int, 1int,
{
    match nested_resolved(body, "then"@, names, here + ".then"@) {
        Ok(x) => match nested_resolved(body, "else"@, names, here + ".else"@) {
            Ok(y) => match field(y, "else"@) {
                Some(v) => Ok(with_field(x, "else"@, v)),
                None => Ok(x),
            },
            Err(f) => Err(f),
        },
        Err(f) => Err(f),
    }
}

/// A step with its GATT names resolved. The first key of a step is its verb.
pub open spec fn step_resolved(
    step: YamlModel,
    names: Map<Seq<char>, Seq<char>>,
    at: Seq<char>,
) -> Result<YamlModel, ConfigFault>
    decreases step, 3int, 0int,
{
    match step {
        YamlModel::Mapping(m) => if m.len() == 0 {
            Ok(step)
        } else {
            let verb = match text_of(m[0].0) {
                Some(t) => t,
                None => ""@,
            };
            proof {
                assert(decreases_to!(step => step->Mapping_0));
                assert(decreases_to!(m => m[0]));
                assert(decreases_to!(m[0] => m[0].1));
            }
            match body_resolved(verb, m[0].1, names, at + "."@ + verb) {
                Ok(x) => Ok(YamlModel::Mapping(m.update(0, (m[0].0, x)))),
                Err(f) => Err(f),
            }
        },
        _ => Ok(step),
    }
}

/// The steps from `i` on with their GATT names resolved.
pub open spec fn steps_resolved(
    v: Seq<YamlModel>,
    names: Map<Seq<char>, Seq<char>>,
    path: Seq<char>,
    i: int,
) -> Result<Seq<YamlModel>, ConfigFault>
    decreases v, 4int, v.len() - i,
{
    if i < 0 || i >= v.len() {
        Ok(Seq::empty())
    } else {
        proof {
            assert(decreases_to!(v => v[i]));
        }
        match step_resolved(v[i], names, indexed(path, "["@, i)) {
            Ok(s) => match steps_resolved(v, names, path, i + 1) {
                Ok(rest) => Ok(seq![s] + rest),
                Err(f) => Err(f),
            },
            Err(f) => Err(f),
        }
    }
}

/// The body of a firmware acquisition with the `gatt` of its `bleRead` source resolved.
fn resolve_firmware(body: &Yaml, gatt: &NameMap<String>, here: &str) -> (r: Result<
    Yaml,
    ConfigError,
>)
    ensures
        yields(r, firmware_resolved(body@, names_of(*gatt), here@)),
{
    match get_field(body, "from") {
        Some(from) => match get_field(from, "bleRead") {
            Some(read) => {
                let at = join2(here, ".from.bleRead");
                match resolve_gatt_field(read, gatt, at.as_str()) {
                    Ok(x) => {
                        let source = put_field(from, "bleRead", x);
                        Ok(put_field(body, "from", source))
                    },
                    Err(e) => Err(e),
                }
            },
            None => Ok(body.clone()),
        },
        None => Ok(body.clone()),
    }
}

/// A body with the steps under a text resolved, where there is a sequence of them.
fn resolve_nested(body: &Yaml, k: &str, gatt: &NameMap<String>, path: &str) -> (r: Result<
    Yaml,
    ConfigError,
>)
    ensures
        yields(r, nested_resolved(body@, k@, names_of(*gatt), path@)),
    decreases body, 1int,
{
    match get_field(body, k) {
        Some(s) => match s {
            Yaml::Sequence(v) => {
                proof {
                    sequence_view(*v);
                    assert(decreases_to!(*s => s->Sequence_0));
                }
                match resolve_gatt_names_in_steps(v, gatt, path) {
                    Ok(x) => {
                        proof {
                            sequence_view(x);
                        }
                        Ok(put_field(body, k, Yaml::Sequence(x)))
                    },
                    Err(e) => Err(e),
                }
            },
            _ => Ok(body.clone()),
        },
        None => Ok(body.clone()),
    }
}

/// The text of a verb that is not known.
fn unknown_verb(here: &str, verb: &str) -> (r: Result<Yaml, ConfigError>)
    ensures
        r matches Err(e) && e@ == invalid(
            here@,
            "unknown step verb '"@ + verb@
                + "' (allowlist: bleConnect, bleAwaitDisconnect, bleRequestMtu, bleDiscoverServices, bleRead, bleWrite, bleSubscribe, bleNotify, bleAwaitUntil, bleWriteChunk, acquire, acquireFirmware, if)"@,
        ),
{
    refuse(
        here.to_owned(),
        join3(
            "unknown step verb '",
            verb,
            "' (allowlist: bleConnect, bleAwaitDisconnect, bleRequestMtu, bleDiscoverServices, bleRead, bleWrite, bleSubscribe, bleNotify, bleAwaitUntil, bleWriteChunk, acquire, acquireFirmware, if)",
        ),
    )
}

/// The body of an await with the GATT names of its source and of its steps resolved.
fn resolve_await(body: &Yaml, gatt: &NameMap<String>, here: &str) -> (r: Result<Yaml, ConfigError>)
    ensures
        yields(r, awaited(body@, names_of(*gatt), here@)),
    decreases body, 2int,
{
    let at_each = join2(here, ".onEach");
    match get_field(body, "source") {
        Some(source) => {
            let at = join2(here, ".source");
            match resolve_await_source_gatt(source, gatt, at.as_str()) {
                Ok(x) => match resolve_nested(body, "onEach", gatt, at_each.as_str()) {
                    Ok(b) => {
                        proof {
                            reveal_strlit("source");
                            reveal_strlit("onEach");
                            assert("source"@[0] != "onEach"@[0]);
                            kept_field(body@, "onEach"@, "source"@);
                        }
                        Ok(put_field(&b, "source", x))
                    },
                    Err(e) => Err(e),
                },
                Err(e) => Err(e),
            }
        },
        None => resolve_nested(body, "onEach", gatt, at_each.as_str()),
    }
}

/// A field stays what it is where another one is replaced.
pub proof fn kept_field(y: YamlModel, k: Seq<char>, other: Seq<char>)
    requires
        k != other,
    ensures
        forall|v: YamlModel|
            field(y, k) is Some ==> field(#[trigger] with_field(y, k, v), other) == field(y, other),
{
    assert forall|v: YamlModel|
        field(y, k) is Some implies field(#[trigger] with_field(y, k, v), other) == field(
        y,
        other,
    ) by {
        let m = entries_of(y)->0;
        retagged_untagged(y, YamlModel::Mapping(with_member(m, k, v)));
        key_index_bounds(m, k, 0);
        kept_index(m, k, v, other, 0);
        key_index_bounds(m, other, 0);
    }
}

/// The value within the tags of a retagged value is the one that was put in.
pub proof fn retagged_untagged(y: YamlModel, v: YamlModel)
    requires
        untagged(v) == v,
    ensures
        untagged(retagged(y, v)) == v,
    decreases y,
{
    match y {
        YamlModel::Tagged(_, value) => {
            retagged_untagged(*value, v);
        },
        _ => {},
    }
}

/// The place of a key stays what it is where the value under another key is replaced.
proof fn kept_index(
    m: Seq<(YamlModel, YamlModel)>,
    k: Seq<char>,
    v: YamlModel,
    other: Seq<char>,
    i: int,
)
    requires
        0 <= i <= m.len(),
        0 <= key_index(m, k, 0) < m.len(),
        m[key_index(m, k, 0)].0 == YamlModel::Text(k),
    ensures
        key_index(with_member(m, k, v), other, i) == key_index(m, other, i),
    decreases m.len() - i,
{
    if i < m.len() {
        kept_index(m, k, v, other, i + 1);
    }
}

/// The body of a branch with the GATT names of both sides resolved.
fn resolve_branch(body: &Yaml, gatt: &NameMap<String>, here: &str) -> (r: Result<Yaml, ConfigError>)
    ensures
        yields(r, branched(body@, names_of(*gatt), here@)),
    decreases body, 2int,
{
    let at_then = join2(here, ".then");
    let at_else = join2(here, ".else");
    match resolve_nested(body, "then", gatt, at_then.as_str()) {
        Ok(x) => match resolve_nested(body, "else", gatt, at_else.as_str()) {
            Ok(y) => match get_field(&y, "else") {
                Some(v) => {
                    proof {
                        reveal_strlit("then");
                        reveal_strlit("else");
                        assert("then"@[0] != "else"@[0]);
                        kept_field(body@, "then"@, "else"@);
                        replaced_field(body@, "else"@);
                    }
                    Ok(put_field(&x, "else", v.clone()))
                },
                None => Ok(x),
            },
            Err(e) => Err(e),
        },
        Err(e) => Err(e),
    }
}

/// A field is there after it is replaced exactly where it was there before.
pub proof fn replaced_field(y: YamlModel, k: Seq<char>)
    ensures
        forall|v: YamlModel|
            field(y, k) is Some ==> field(#[trigger] with_field(y, k, v), k) == Some(v),
{
    assert forall|v: YamlModel|
        field(y, k) is Some implies field(#[trigger] with_field(y, k, v), k) == Some(v) by {
        let m = entries_of(y)->0;
        retagged_untagged(y, YamlModel::Mapping(with_member(m, k, v)));
        key_index_bounds(m, k, 0);
        kept_index(m, k, v, k, 0);
    }
}

/// The body of a step with its GATT names resolved.
fn resolve_body(verb: &str, body: &Yaml, gatt: &NameMap<String>, here: &str) -> (r: Result<
    Yaml,
    ConfigError,
>)
    ensures
        yields(r, body_resolved(verb@, body@, names_of(*gatt), here@)),
    decreases body, 3int,
{
    if same(verb, "bleConnect") || same(verb, "bleAwaitDisconnect") || same(verb, "bleRequestMtu")
        || same(verb, "bleDiscoverServices") {
        Ok(body.clone())
    } else if same(verb, "bleRead") || same(verb, "bleWrite") || same(verb, "bleSubscribe") || same(
        verb,
        "bleNotify",
    ) || same(verb, "bleWriteChunk") {
        resolve_gatt_field(body, gatt, here)
    } else if same(verb, "acquire") {
        match get_field(body, "from") {
            Some(inner) => {
                let at = index_path(here, ".from[", 0);
                match resolve_step(inner, gatt, at.as_str()) {
                    Ok(x) => Ok(put_field(body, "from", x)),
                    Err(e) => Err(e),
                }
            },
            None => Ok(body.clone()),
        }
    } else if same(verb, "acquireFirmware") {
        resolve_firmware(body, gatt, here)
    } else if same(verb, "bleAwaitUntil") {
        resolve_await(body, gatt, here)
    } else if same(verb, "if") {
        resolve_branch(body, gatt, here)
    } else {
        unknown_verb(here, verb)
    }
}

/// A step with its GATT names resolved.
fn resolve_step(step: &Yaml, gatt: &NameMap<String>, at: &str) -> (r: Result<Yaml, ConfigError>)
    ensures
        yields(r, step_resolved(step@, names_of(*gatt), at@)),
    decreases step, 4int,
{
    match step {
        Yaml::Mapping(m) => {
            proof {
                mapping_view(*m);
            }
            if m.len() == 0 {
                return Ok(step.clone());
            }
            let verb = match as_text(&m[0].0) {
                Some(t) => t.as_str(),
                None => "",
            };
            let here = join3(at, ".", verb);
            proof {
                assert(entry_models(m@)[0] == (m@[0].0@, m@[0].1@));
                assert(decreases_to!(*step => step->Mapping_0));
                assert(decreases_to!(m@ => m@[0]));
                assert(decreases_to!(m@[0] => m@[0].1));
            }
            match resolve_body(verb, &m[0].1, gatt, here.as_str()) {
                Ok(x) => {
                    let ghost y = x@;
                    let mut entries = copy_entries(m);
                    let ghost before = entries@;
                    proof {
                        assert(entry_models(before).len() == m@.len());
                        assert(entry_models(before)[0].0 == before[0].0@);
                    }
                    entries[0].1 = x;
                    proof {
                        mapping_view(entries);
                        assert(entry_models(entries@) == entry_models(before).update(
                            0,
                            (before[0].0@, y),
                        ));
                    }
                    Ok(Yaml::Mapping(entries))
                },
                Err(e) => Err(e),
            }
        },
        _ => Ok(step.clone()),
    }
}

/// Steps with their GATT names resolved.
fn resolve_gatt_names_in_steps(steps: &Vec<Yaml>, gatt: &NameMap<String>, path: &str) -> (r: Result<
    Vec<Yaml>,
    ConfigError,
>)
    ensures
        match steps_resolved(item_models(steps@), names_of(*gatt), path@, 0) {
            Ok(v) => r matches Ok(x) && item_models(x@) == v,
            Err(f) => r matches Err(e) && e@ == f,
        },
    decreases steps, 5int,
{
    let ghost all = item_models(steps@);
    let ghost names = names_of(*gatt);
    let mut out: Vec<Yaml> = Vec::new();
    let mut i: usize = 0;
    proof {
        assert(item_models(out@) == Seq::<YamlModel>::empty());
        match steps_resolved(all, names, path@, 0) {
            Ok(v) => {
                assert(item_models(out@) + v == v);
            },
            Err(_) => {},
        }
    }
    while i < steps.len()
        invariant
            all == item_models(steps@),
            names == names_of(*gatt),
            i <= steps@.len(),
            steps_resolved(all, names, path@, 0) == (match steps_resolved(
                all,
                names,
                path@,
                i as int,
            ) {
                Ok(rest) => Ok(item_models(out@) + rest),
                Err(f) => Err(f),
            }),
        decreases steps@.len() - i,
    {
        proof {
            assert(all[i as int] == steps@[i as int]@);
            assert(decreases_to!(steps@ => steps@[i as int]));
        }
        let at = index_path(path, "[", i);
        match resolve_step(&steps[i], gatt, at.as_str()) {
            Ok(s) => {
                let ghost before = out@;
                out.push(s);
                proof {
                    assert(item_models(out@) == item_models(before).push(s@));
                    match steps_resolved(all, names, path@, i + 1) {
                        Ok(rest) => {
                            assert(item_models(before) + (seq![s@] + rest) == item_models(out@)
                                + rest);
                        },
                        Err(_) => {},
                    }
                }
            },
            Err(e) => {
                return Err(e);
            },
        }
        i = i + 1;
    }
    proof {
        assert(item_models(out@) + Seq::<YamlModel>::empty() == item_models(out@));
    }
    Ok(out)
}

/// The UUID that the first `n` entries of a catalog give a name: that of the last one for it.
pub open spec fn catalog_entry(m: Seq<(YamlModel, YamlModel)>, name: Seq<char>, n: int) -> Option<
    Seq<char>,
>
    decreases n,
{
    if n <= 0 {
        None
    } else if text_of(m[n - 1].0) == Some(name) && text_of(m[n - 1].1) is Some {
        text_of(m[n - 1].1)
    } else {
        catalog_entry(m, name, n - 1)
    }
}

/// The GATT catalog of a merged block: its texts under `gatt`.
pub open spec fn catalog(block: YamlModel) -> Map<Seq<char>, Seq<char>> {
    match field(block, "gatt"@) {
        Some(YamlModel::Mapping(m)) => Map::new(
            |k: Seq<char>| catalog_entry(m, k, m.len() as int) is Some,
            |k: Seq<char>| catalog_entry(m, k, m.len() as int)->0,
        ),
        _ => Map::empty(),
    }
}

/// The GATT catalog of a merged block.
fn ble_gatt_from_merged(block: &Yaml) -> (r: NameMap<String>)
    ensures
        names_of(r) == catalog(block@),
{
    let mut out: NameMap<String> = NameMap::new();
    match get_field(block, "gatt") {
        Some(Yaml::Mapping(m)) => {
            proof {
                mapping_view(*m);
            }
            let ghost all = entry_models(m@);
            let mut i: usize = 0;
            while i < m.len()
                invariant
                    all == entry_models(m@),
                    i <= m@.len(),
                    forall|k: Seq<char>|
                        optional_text(#[trigger] out.at(k)) == catalog_entry(all, k, i as int),
                decreases m@.len() - i,
            {
                proof {
                    assert(all[i as int] == (m@[i as int].0@, m@[i as int].1@));
                }
                match (as_text(&m[i].0), as_text(&m[i].1)) {
                    (Some(k), Some(v)) => {
                        out.insert(k.clone(), v.clone());
                    },
                    _ => {},
                }
                i = i + 1;
            }
            proof {
                assert forall|k: Seq<char>| #[trigger]
                    names_of(out).contains_key(k) == catalog(block@).contains_key(k) by {
                    assert(optional_text(out.at(k)) == catalog_entry(all, k, all.len() as int));
                }
                assert forall|k: Seq<char>| catalog(block@).contains_key(k) implies #[trigger]
                    names_of(out)[k] == catalog(block@)[k] by {
                    assert(optional_text(out.at(k)) == catalog_entry(all, k, all.len() as int));
                }
                assert(names_of(out) =~= catalog(block@));
            }
            out
        },
        _ => {
            proof {
                assert(names_of(out) =~= Map::<Seq<char>, Seq<char>>::empty());
            }
            out
        },
    }
}

/// A plan with the steps under a text resolved.
pub open spec fn plan_steps(
    plan: YamlModel,
    k: Seq<char>,
    names: Map<Seq<char>, Seq<char>>,
    path: Seq<char>,
) -> Result<YamlModel, ConfigFault> {
    match field(plan, k) {
        Some(s) => match untagged(s) {
            YamlModel::Sequence(v) => match steps_resolved(v, names, path, 0) {
                Ok(x) => Ok(with_field(plan, k, retagged(s, YamlModel::Sequence(x)))),
                Err(f) => Err(f),
            },
            _ => Ok(plan),
        },
        None => Ok(plan),
    }
}

/// A plan with the steps under a text resolved.
fn resolve_plan_steps(plan: &Yaml, k: &str, gatt: &NameMap<String>, path: &str) -> (r: Result<
    Yaml,
    ConfigError,
>)
    ensures
        yields(r, plan_steps(plan@, k@, names_of(*gatt), path@)),
{
    match get_field(plan, k) {
        Some(s) => match untag(s) {
            Yaml::Sequence(v) => {
                proof {
                    sequence_view(*v);
                }
                match resolve_gatt_names_in_steps(v, gatt, path) {
                    Ok(x) => {
                        proof {
                            sequence_view(x);
                        }
                        Ok(put_field(plan, k, retag(s, Yaml::Sequence(x))))
                    },
                    Err(e) => Err(e),
                }
            },
            _ => Ok(plan.clone()),
        },
        None => Ok(plan.clone()),
    }
}

/// An establishment or action plan with its steps resolved. Only an establishment has steps that
/// tell when it can be replayed.
pub open spec fn plan_resolved(
    plan: YamlModel,
    names: Map<Seq<char>, Seq<char>>,
    path: Seq<char>,
    replayable: bool,
) -> Result<YamlModel, ConfigFault> {
    if replayable {
        match plan_steps(plan, "postExitReadiness"@, names, path + ".postExitReadiness"@) {
            Ok(x) => plan_steps(x, "steps"@, names, path + ".steps"@),
            Err(f) => Err(f),
        }
    } else {
        plan_steps(plan, "steps"@, names, path + ".steps"@)
    }
}

/// An establishment or action plan with its steps resolved.
fn resolve_plan(plan: &Yaml, gatt: &NameMap<String>, path: &str, replayable: bool) -> (r: Result<
    Yaml,
    ConfigError,
>)
    ensures
        yields(r, plan_resolved(plan@, names_of(*gatt), path@, replayable)),
{
    let at_steps = join2(path, ".steps");
    if replayable {
        let at = join2(path, ".postExitReadiness");
        match resolve_plan_steps(plan, "postExitReadiness", gatt, at.as_str()) {
            Ok(x) => resolve_plan_steps(&x, "steps", gatt, at_steps.as_str()),
            Err(e) => Err(e),
        }
    } else {
        resolve_plan_steps(plan, "steps", gatt, at_steps.as_str())
    }
}

/// The text of a key; `?` where it is none.
pub open spec fn key_text(k: YamlModel) -> Seq<char> {
    match text_of(k) {
        Some(t) => t,
        None => "?"@,
    }
}

/// The plans from `i` on with their steps resolved.
pub open spec fn plans_resolved(
    m: Seq<(YamlModel, YamlModel)>,
    names: Map<Seq<char>, Seq<char>>,
    path: Seq<char>,
    replayable: bool,
    i: int,
) -> Result<Seq<(YamlModel, YamlModel)>, ConfigFault>
    decreases m.len() - i,
{
    if i < 0 || i >= m.len() {
        Ok(Seq::empty())
    } else {
        match plan_resolved(m[i].1, names, path + key_text(m[i].0), replayable) {
            Ok(x) => match plans_resolved(m, names, path, replayable, i + 1) {
                Ok(rest) => Ok(seq![(m[i].0, x)] + rest),
                Err(f) => Err(f),
            },
            Err(f) => Err(f),
        }
    }
}

/// Plans with their steps resolved.
fn resolve_plans(m: &Vec<(Yaml, Yaml)>, gatt: &NameMap<String>, path: &str, replayable: bool) -> (r:
    Result<Vec<(Yaml, Yaml)>, ConfigError>)
    ensures
        match plans_resolved(entry_models(m@), names_of(*gatt), path@, replayable, 0) {
            Ok(v) => r matches Ok(x) && entry_models(x@) == v,
            Err(f) => r matches Err(e) && e@ == f,
        },
{
    let ghost all = entry_models(m@);
    let ghost names = names_of(*gatt);
    let mut out: Vec<(Yaml, Yaml)> = Vec::new();
    let mut i: usize = 0;
    proof {
        assert(entry_models(out@) == Seq::<(YamlModel, YamlModel)>::empty());
        match plans_resolved(all, names, path@, replayable, 0) {
            Ok(v) => {
                assert(entry_models(out@) + v == v);
            },
            Err(_) => {},
        }
    }
    while i < m.len()
        invariant
            all == entry_models(m@),
            names == names_of(*gatt),
            i <= m@.len(),
            plans_resolved(all, names, path@, replayable, 0) == (match plans_resolved(
                all,
                names,
                path@,
                replayable,
                i as int,
            ) {
                Ok(rest) => Ok(entry_models(out@) + rest),
                Err(f) => Err(f),
            }),
        decreases m@.len() - i,
    {
        proof {
            assert(all[i as int] == (m@[i as int].0@, m@[i as int].1@));
        }
        let name = match as_text(&m[i].0) {
            Some(t) => t.as_str(),
            None => "?",
        };
        let at = join2(path, name);
        match resolve_plan(&m[i].1, gatt, at.as_str(), replayable) {
            Ok(x) => {
                let ghost before = out@;
                let ghost e = (all[i as int].0, x@);
                out.push((m[i].0.clone(), x));
                proof {
                    assert(entry_models(out@) == entry_models(before).push(e));
                    match plans_resolved(all, names, path@, replayable, i + 1) {
                        Ok(rest) => {
                            assert(entry_models(before) + (seq![e] + rest) == entry_models(out@)
                                + rest);
                        },
                        Err(_) => {},
                    }
                }
            },
            Err(e) => {
                return Err(e);
            },
        }
        i = i + 1;
    }
    proof {
        assert(entry_models(out@) + Seq::<(YamlModel, YamlModel)>::empty() == entry_models(out@));
    }
    Ok(out)
}

/// A block with the plans under a text resolved.
pub open spec fn plan_field(
    block: YamlModel,
    k: Seq<char>,
    names: Map<Seq<char>, Seq<char>>,
    path: Seq<char>,
    replayable: bool,
) -> Result<YamlModel, ConfigFault> {
    match field(block, k) {
        Some(s) => match untagged(s) {
            YamlModel::Mapping(m) => match plans_resolved(m, names, path, replayable, 0) {
                Ok(x) => Ok(with_field(block, k, retagged(s, YamlModel::Mapping(x)))),
                Err(f) => Err(f),
            },
            _ => Ok(block),
        },
        None => Ok(block),
    }
}

/// A block with the plans under a text resolved.
fn resolve_plan_field(
    block: &Yaml,
    k: &str,
    gatt: &NameMap<String>,
    path: &str,
    replayable: bool,
) -> (r: Result<Yaml, ConfigError>)
    ensures
        yields(r, plan_field(block@, k@, names_of(*gatt), path@, replayable)),
{
    match get_field(block, k) {
        Some(s) => match untag(s) {
            Yaml::Mapping(m) => {
                proof {
                    mapping_view(*m);
                }
                match resolve_plans(m, gatt, path, replayable) {
                    Ok(x) => {
                        proof {
                            mapping_view(x);
                        }
                        Ok(put_field(block, k, retag(s, Yaml::Mapping(x))))
                    },
                    Err(e) => Err(e),
                }
            },
            _ => Ok(block.clone()),
        },
        None => Ok(block.clone()),
    }
}

/// A merged BLE block with every GATT name of its plans resolved by its own catalog.
pub open spec fn block_resolved(block: YamlModel, model_id: Seq<char>) -> Result<
    YamlModel,
    ConfigFault,
> {
    let names = catalog(block);
    let path = "models."@ + model_id;
    match plan_field(block, "establishments"@, names, path + ".establishments."@, true) {
        Ok(x) => plan_field(x, "actions"@, names, path + ".actions."@, false),
        Err(f) => Err(f),
    }
}

/// The blocks under `k` of the families of a model, from the `i`-th on, merged onto `base`.
pub open spec fn families_merged(
    index: ManufacturerIndex,
    model: IndexedModel,
    k: Seq<char>,
    base: YamlModel,
    i: int,
) -> Result<YamlModel, ConfigFault>
    decreases model.inherits@.len() - i,
{
    if i < 0 || i >= model.inherits@.len() {
        Ok(base)
    } else {
        match index.families.at(model.inherits@[i]@) {
            None => Err(
                ConfigFault::UnknownFamily {
                    model_id: model.id@,
                    family_id: model.inherits@[i]@,
                },
            ),
            Some(family) => match field(family@, k) {
                Some(block) => families_merged(index, model, k, merged(base, block), i + 1),
                None => families_merged(index, model, k, base, i + 1),
            },
        }
    }
}

/// The blocks under a text of the families of a model, merged. A later family overrides an earlier
/// one, and no block at all is `Null`.
pub fn merge_families(index: &ManufacturerIndex, model: &IndexedModel, k: &str) -> (r: Result<
    Yaml,
    ConfigError,
>)
    ensures
        yields(r, families_merged(*index, *model, k@, YamlModel::Null, 0)),
{
    let mut out = Yaml::Null;
    let mut i: usize = 0;
    while i < model.inherits.len()
        invariant
            i <= model.inherits@.len(),
            families_merged(*index, *model, k@, YamlModel::Null, 0) == families_merged(
                *index,
                *model,
                k@,
                out@,
                i as int,
            ),
        decreases model.inherits@.len() - i,
    {
        match index.families.get(model.inherits[i].as_str()) {
            None => {
                return Err(
                    ConfigError::UnknownFamily {
                        model_id: model.id.clone(),
                        family_id: model.inherits[i].clone(),
                    },
                );
            },
            Some(family) => {
                match get_field(family, k) {
                    Some(block) => {
                        out = merge_yaml(out, block);
                    },
                    None => {},
                }
            },
        }
        i = i + 1;
    }
    Ok(out)
}

/// The BLE block of a model: that of its families merged, with GATT names resolved. `Null` where no
/// family has one.
pub open spec fn ble_block(index: ManufacturerIndex, model: IndexedModel) -> Result<
    YamlModel,
    ConfigFault,
> {
    match families_merged(index, model, "ble"@, YamlModel::Null, 0) {
        Ok(block) => if block is Null {
            Ok(block)
        } else {
            block_resolved(block, model.id@)
        },
        Err(f) => Err(f),
    }
}

/// The BLE block of a model.
pub fn build_ble_block(index: &ManufacturerIndex, model: &IndexedModel) -> (r: Result<
    Yaml,
    ConfigError,
>)
    ensures
        yields(r, ble_block(*index, *model)),
{
    match merge_families(index, model, "ble") {
        Ok(block) => {
            match &block {
                Yaml::Null => {
                    return Ok(Yaml::Null);
                },
                _ => {},
            }
            let gatt = ble_gatt_from_merged(&block);
            let at = join3("models.", model.id.as_str(), ".establishments.");
            match resolve_plan_field(&block, "establishments", &gatt, at.as_str(), true) {
                Ok(x) => {
                    let at_actions = join3("models.", model.id.as_str(), ".actions.");
                    resolve_plan_field(&x, "actions", &gatt, at_actions.as_str(), false)
                },
                Err(e) => Err(e),
            }
        },
        Err(e) => Err(e),
    }
}

/// Whether a text holds a brace.
pub open spec fn has_brace(s: Seq<char>) -> bool {
    exists|i: int| 0 <= i < s.len() && (#[trigger] s[i] == '{' || s[i] == '}')
}

/// The path between the braces of a text that is one reference and nothing else.
pub open spec fn brace_path(s: Seq<char>) -> Option<Seq<char>> {
    if s.len() >= 2 && s[0] == '{' && s.last() == '}' {
        let path = s.subrange(1, s.len() - 1);
        if path.len() == 0 || has_brace(path) {
            None
        } else {
            Some(path)
        }
    } else {
        None
    }
}

/// Whether a text holds a brace.
fn holds_brace(s: &str) -> (r: bool)
    ensures
        r == has_brace(s@),
{
    let v = chars_of(s);
    let mut i: usize = 0;
    while i < v.len()
        invariant
            v@ == s@,
            i <= v@.len(),
            forall|k: int| 0 <= k < i ==> #[trigger] s@[k] != '{' && s@[k] != '}',
        decreases v@.len() - i,
    {
        if v[i] == '{' || v[i] == '}' {
            proof {
                assert(s@[i as int] == '{' || s@[i as int] == '}');
            }
            return true;
        }
        i = i + 1;
    }
    false
}

/// The path between the braces of a text that is one reference and nothing else.
fn whole_brace_path(s: &str) -> (r: Option<&str>)
    ensures
        brace_path(s@) == match r {
            Some(p) => Some(p@),
            None => None,
        },
{
    let n: usize = s.unicode_len();
    if n < 2 || s.get_char(0) != '{' || s.get_char(n - 1) != '}' {
        return None;
    }
    let path = s.substring_char(1, n - 1);
    if path.unicode_len() == 0 || holds_brace(path) {
        None
    } else {
        Some(path)
    }
}

/// The value at a dotted path, from its `i`-th segment on.
pub open spec fn path_value(root: YamlModel, path: Seq<Seq<char>>, i: int) -> Option<YamlModel>
    decreases path.len() - i,
{
    if i < 0 || i >= path.len() {
        Some(root)
    } else {
        match root {
            YamlModel::Mapping(m) => match member(m, path[i]) {
                Some(v) => path_value(v, path, i + 1),
                None => None,
            },
            _ => None,
        }
    }
}

/// The value at a dotted path.
fn lookup_path<'a>(root: &'a Yaml, path: &str) -> (r: Option<&'a Yaml>)
    ensures
        path_value(root@, split_text(path@, '.'), 0) == match r {
            Some(v) => Some(v@),
            None => None,
        },
{
    let segments = split(path, '.');
    let ghost texts = split_text(path@, '.');
    proof {
        assert(views(segments@).len() == texts.len());
    }
    let mut at = root;
    let mut i: usize = 0;
    while i < segments.len()
        invariant
            views(segments@) == texts,
            texts == split_text(path@, '.'),
            texts.len() == segments@.len(),
            i <= segments@.len(),
            path_value(root@, texts, 0) == path_value(at@, texts, i as int),
        decreases segments@.len() - i,
    {
        proof {
            assert(views(segments@)[i as int] == segments@[i as int]@);
        }
        match at {
            Yaml::Mapping(m) => {
                proof {
                    mapping_view(*m);
                }
                match get_member(m, segments[i].as_str()) {
                    Some(v) => {
                        at = v;
                    },
                    None => {
                        return None;
                    },
                }
            },
            _ => {
                return None;
            },
        }
        i = i + 1;
    }
    Some(at)
}

/// A value with every text that is a reference replaced by what it refers to in `root`. A text that
/// only contains a reference is refused.
pub open spec fn substituted(y: YamlModel, root: YamlModel, path: Seq<char>) -> Result<
    YamlModel,
    ConfigFault,
>
    decreases y, 0int,
{
    match y {
        YamlModel::Text(s) => text_substituted(s, root, path),
        YamlModel::Mapping(m) => match entries_substituted(m, root, path, 0) {
            Ok(x) => Ok(YamlModel::Mapping(x)),
            Err(f) => Err(f),
        },
        YamlModel::Sequence(v) => match items_substituted(v, root, path, 0) {
            Ok(x) => Ok(YamlModel::Sequence(x)),
            Err(f) => Err(f),
        },
        _ => Ok(y),
    }
}

/// What a text stands for.
pub open spec fn text_substituted(s: Seq<char>, root: YamlModel, path: Seq<char>) -> Result<
    YamlModel,
    ConfigFault,
> {
    let t = trimmed(s);
    match brace_path(t) {
        Some(p) => match path_value(root, split_text(p, '.'), 0) {
            Some(v) => Ok(v),
            None => Err(invalid(path, "unresolved static ref '{"@ + p + "}'"@)),
        },
        None => if has_brace(t) {
            Err(
                invalid(
                    path,
                    "string '"@ + t
                        + "' has embedded '{...}' — only whole-string static refs are allowed at index-load (§11.1)"@,
                ),
            )
        } else {
            Ok(YamlModel::Text(s))
        },
    }
}

/// The entries from `i` on with their values substituted.
pub open spec fn entries_substituted(
    m: Seq<(YamlModel, YamlModel)>,
    root: YamlModel,
    path: Seq<char>,
    i: int,
) -> Result<Seq<(YamlModel, YamlModel)>, ConfigFault>
    decreases m, m.len() - i,
{
    if i < 0 || i >= m.len() {
        Ok(Seq::empty())
    } else {
        match substituted(m[i].1, root, path + "."@ + key_text(m[i].0)) {
            Ok(x) => match entries_substituted(m, root, path, i + 1) {
                Ok(rest) => Ok(seq![(m[i].0, x)] + rest),
                Err(f) => Err(f),
            },
            Err(f) => Err(f),
        }
    }
}

/// The items from `i` on substituted.
pub open spec fn items_substituted(
    v: Seq<YamlModel>,
    root: YamlModel,
    path: Seq<char>,
    i: int,
) -> Result<Seq<YamlModel>, ConfigFault>
    decreases v, v.len() - i,
{
    if i < 0 || i >= v.len() {
        Ok(Seq::empty())
    } else {
        match substituted(v[i], root, indexed(path, "["@, i)) {
            Ok(x) => match items_substituted(v, root, path, i + 1) {
                Ok(rest) => Ok(seq![x] + rest),
                Err(f) => Err(f),
            },
            Err(f) => Err(f),
        }
    }
}

/// What a text stands for.
fn substitute_text(s: &String, root: &Yaml, path: &str) -> (r: Result<Yaml, ConfigError>)
    ensures
        yields(r, text_substituted(s@, root@, path@)),
{
    let t = trim(s.as_str());
    match whole_brace_path(t) {
        Some(p) => match lookup_path(root, p) {
            Some(v) => Ok(v.clone()),
            None => refuse(path.to_owned(), join3("unresolved static ref '{", p, "}'")),
        },
        None => if holds_brace(t) {
            refuse(
                path.to_owned(),
                join3(
                    "string '",
                    t,
                    "' has embedded '{...}' — only whole-string static refs are allowed at index-load (§11.1)",
                ),
            )
        } else {
            Ok(Yaml::String(s.clone()))
        },
    }
}

/// A value with every text that is a reference replaced by what it refers to in `root`.
fn substitute_static_paths(y: &Yaml, root: &Yaml, path: &str) -> (r: Result<Yaml, ConfigError>)
    ensures
        yields(r, substituted(y@, root@, path@)),
    decreases y,
{
    match y {
        Yaml::String(s) => substitute_text(s, root, path),
        Yaml::Mapping(m) => {
            proof {
                mapping_view(*m);
            }
            let ghost all = entry_models(m@);
            let mut out: Vec<(Yaml, Yaml)> = Vec::new();
            let mut i: usize = 0;
            proof {
                assert(entry_models(out@) == Seq::<(YamlModel, YamlModel)>::empty());
                match entries_substituted(all, root@, path@, 0) {
                    Ok(v) => {
                        assert(entry_models(out@) + v == v);
                    },
                    Err(_) => {},
                }
            }
            while i < m.len()
                invariant
                    *y == Yaml::Mapping(*m),
                    y@ == YamlModel::Mapping(all),
                    all == entry_models(m@),
                    i <= m@.len(),
                    entries_substituted(all, root@, path@, 0) == (match entries_substituted(
                        all,
                        root@,
                        path@,
                        i as int,
                    ) {
                        Ok(rest) => Ok(entry_models(out@) + rest),
                        Err(f) => Err(f),
                    }),
                decreases m@.len() - i,
            {
                proof {
                    assert(all[i as int] == (m@[i as int].0@, m@[i as int].1@));
                    assert(decreases_to!(*y => y->Mapping_0));
                    assert(decreases_to!(m@ => m@[i as int]));
                    assert(decreases_to!(m@[i as int] => m@[i as int].1));
                }
                let key = match as_text(&m[i].0) {
                    Some(t) => t.as_str(),
                    None => "?",
                };
                let at = join3(path, ".", key);
                match substitute_static_paths(&m[i].1, root, at.as_str()) {
                    Ok(x) => {
                        let ghost before = out@;
                        let ghost e = (all[i as int].0, x@);
                        out.push((m[i].0.clone(), x));
                        proof {
                            assert(entry_models(out@) == entry_models(before).push(e));
                            match entries_substituted(all, root@, path@, i + 1) {
                                Ok(rest) => {
                                    assert(entry_models(before) + (seq![e] + rest) == entry_models(
                                        out@,
                                    ) + rest);
                                },
                                Err(_) => {},
                            }
                        }
                    },
                    Err(e) => {
                        return Err(e);
                    },
                }
                i = i + 1;
            }
            proof {
                mapping_view(out);
                assert(entry_models(out@) + Seq::<(YamlModel, YamlModel)>::empty() == entry_models(
                    out@,
                ));
            }
            Ok(Yaml::Mapping(out))
        },
        Yaml::Sequence(v) => {
            proof {
                sequence_view(*v);
            }
            let ghost all = item_models(v@);
            let mut out: Vec<Yaml> = Vec::new();
            let mut i: usize = 0;
            proof {
                assert(item_models(out@) == Seq::<YamlModel>::empty());
                match items_substituted(all, root@, path@, 0) {
                    Ok(w) => {
                        assert(item_models(out@) + w == w);
                    },
                    Err(_) => {},
                }
            }
            while i < v.len()
                invariant
                    *y == Yaml::Sequence(*v),
                    y@ == YamlModel::Sequence(all),
                    all == item_models(v@),
                    i <= v@.len(),
                    items_substituted(all, root@, path@, 0) == (match items_substituted(
                        all,
                        root@,
                        path@,
                        i as int,
                    ) {
                        Ok(rest) => Ok(item_models(out@) + rest),
                        Err(f) => Err(f),
                    }),
                decreases v@.len() - i,
            {
                proof {
                    assert(all[i as int] == v@[i as int]@);
                    assert(decreases_to!(*y => y->Sequence_0));
                    assert(decreases_to!(v@ => v@[i as int]));
                }
                let at = index_path(path, "[", i);
                match substitute_static_paths(&v[i], root, at.as_str()) {
                    Ok(x) => {
                        let ghost before = out@;
                        out.push(x);
                        proof {
                            assert(item_models(out@) == item_models(before).push(x@));
                            match items_substituted(all, root@, path@, i + 1) {
                                Ok(rest) => {
                                    assert(item_models(before) + (seq![x@] + rest) == item_models(
                                        out@,
                                    ) + rest);
                                },
                                Err(_) => {},
                            }
                        }
                    },
                    Err(e) => {
                        return Err(e);
                    },
                }
                i = i + 1;
            }
            proof {
                sequence_view(out);
                assert(item_models(out@) + Seq::<YamlModel>::empty() == item_models(out@));
            }
            Ok(Yaml::Sequence(out))
        },
        _ => Ok(y.clone()),
    }
}

/// What the references of a signature are looked up in: the signature, and the model's BLE block.
pub open spec fn envelope(signature: YamlModel, ble: YamlModel) -> YamlModel {
    YamlModel::Mapping(
        seq![(YamlModel::Text("__sig__"@), signature), (YamlModel::Text("ble"@), ble)],
    )
}

/// A signature with its references replaced. The block is searched for references too, and one in it
/// that does not resolve is refused.
pub open spec fn signature_substituted(
    signature: YamlModel,
    ble: YamlModel,
    path: Seq<char>,
) -> Result<YamlModel, ConfigFault> {
    let root = envelope(signature, ble);
    match substituted(signature, root, path + ".__sig__"@) {
        Ok(x) => match substituted(ble, root, path + ".ble"@) {
            Ok(_) => Ok(x),
            Err(f) => Err(f),
        },
        Err(f) => Err(f),
    }
}

/// A signature with its references replaced.
fn substitute_signature(signature: &Yaml, ble: &Yaml, path: &str) -> (r: Result<Yaml, ConfigError>)
    ensures
        yields(r, signature_substituted(signature@, ble@, path@)),
{
    let mut entries: Vec<(Yaml, Yaml)> = Vec::new();
    entries.push((Yaml::String("__sig__".to_owned()), signature.clone()));
    entries.push((Yaml::String("ble".to_owned()), ble.clone()));
    proof {
        mapping_view(entries);
        assert(entry_models(entries@) == envelope(signature@, ble@)->Mapping_0);
    }
    let root = Yaml::Mapping(entries);
    let at_signature = join2(path, ".__sig__");
    match substitute_static_paths(signature, &root, at_signature.as_str()) {
        Ok(x) => {
            let at_ble = join2(path, ".ble");
            match substitute_static_paths(ble, &root, at_ble.as_str()) {
                Ok(_) => Ok(x),
                Err(e) => Err(e),
            }
        },
        Err(e) => Err(e),
    }
}

/// The first fault of the steps from `i` on.
pub open spec fn step_faults(v: Seq<Step>, path: Seq<char>, i: int) -> Option<ConfigFault>
    decreases v, v.len() - i,
{
    if i < 0 || i >= v.len() {
        None
    } else {
        first_fault(step_fault(v[i], indexed(path, "["@, i)), step_faults(v, path, i + 1))
    }
}

/// The first capture from `i` on that can never capture a byte.
pub open spec fn capture_fault(v: Seq<NotifyCapture>, path: Seq<char>, i: int) -> Option<
    ConfigFault,
>
    decreases v.len() - i,
{
    if i < 0 || i >= v.len() {
        None
    } else if v[i].length == Some(0usize) {
        Some(
            invalid(
                indexed(path, ".capture["@, i) + ".length"@,
                "capture length 0 can never capture bytes"@,
            ),
        )
    } else {
        capture_fault(v, path, i + 1)
    }
}

/// The first fault of a step: an await without a budget, or a capture of no bytes, in it or in a
/// step within it.
pub open spec fn step_fault(s: Step, path: Seq<char>) -> Option<ConfigFault>
    decreases s, 0int,
{
    match s {
        Step::If(x) => first_fault(
            step_faults(x.then_steps@, path + ".then"@, 0),
            step_faults(x.else_steps@, path + ".else"@, 0),
        ),
        Step::Acquire(x) => step_fault(*x.from, path + ".from"@),
        Step::BleAwaitUntil(x) => if x.timeout_ms == 0 {
            Some(
                invalid(
                    path + ".timeoutMs"@,
                    "bleAwaitUntil timeoutMs must be > 0 (an await needs a budget)"@,
                ),
            )
        } else {
            first_fault(
                capture_fault(x.capture@, path, 0),
                step_faults(x.on_each@, path + ".onEach"@, 0),
            )
        },
        Step::BleAwaitDisconnect(x) => if x.timeout_ms == 0 {
            Some(
                invalid(path + ".timeoutMs"@, "bleAwaitDisconnect timeoutMs must be > 0"@),
            )
        } else {
            None
        },
        _ => None,
    }
}

/// Checks the captures of a notification.
fn validate_captures(v: &Vec<NotifyCapture>, path: &str) -> (r: Result<(), ConfigError>)
    ensures
        faults(r, capture_fault(v@, path@, 0)),
{
    let mut i: usize = 0;
    while i < v.len()
        invariant
            i <= v@.len(),
            capture_fault(v@, path@, 0) == capture_fault(v@, path@, i as int),
        decreases v@.len() - i,
    {
        match v[i].length {
            Some(n) => {
                if n == 0 {
                    let at = index_path(path, ".capture[", i);
                    return refuse(
                        join2(at.as_str(), ".length"),
                        "capture length 0 can never capture bytes".to_owned(),
                    );
                }
            },
            None => {},
        }
        i = i + 1;
    }
    Ok(())
}

/// Checks steps.
fn validate_steps(v: &Vec<Step>, path: &str) -> (r: Result<(), ConfigError>)
    ensures
        faults(r, step_faults(v@, path@, 0)),
    decreases v, 1int,
{
    let mut i: usize = 0;
    while i < v.len()
        invariant
            i <= v@.len(),
            step_faults(v@, path@, 0) == step_faults(v@, path@, i as int),
        decreases v@.len() - i,
    {
        proof {
            assert(decreases_to!(v@ => v@[i as int]));
        }
        let at = index_path(path, "[", i);
        match validate_step(&v[i], at.as_str()) {
            Err(e) => {
                return Err(e);
            },
            Ok(_) => {},
        }
        i = i + 1;
    }
    Ok(())
}

/// Checks a step, and the steps within it.
fn validate_step(s: &Step, path: &str) -> (r: Result<(), ConfigError>)
    ensures
        faults(r, step_fault(*s, path@)),
    decreases s, 0int,
{
    match s {
        Step::If(x) => {
            proof {
                assert(decreases_to!(*s => s->If_0));
                assert(decreases_to!(*x => x.then_steps));
                assert(decreases_to!(*x => x.else_steps));
            }
            let at_then = join2(path, ".then");
            match validate_steps(&x.then_steps, at_then.as_str()) {
                Err(e) => {
                    return Err(e);
                },
                Ok(_) => {},
            }
            let at_else = join2(path, ".else");
            validate_steps(&x.else_steps, at_else.as_str())
        },
        Step::Acquire(x) => {
            proof {
                assert(decreases_to!(*s => s->Acquire_0));
                assert(decreases_to!(*x => x.from));
            }
            let at = join2(path, ".from");
            validate_step(&x.from, at.as_str())
        },
        Step::BleAwaitUntil(x) => {
            if x.timeout_ms == 0 {
                return refuse(
                    join2(path, ".timeoutMs"),
                    "bleAwaitUntil timeoutMs must be > 0 (an await needs a budget)".to_owned(),
                );
            }
            match validate_captures(&x.capture, path) {
                Err(e) => {
                    return Err(e);
                },
                Ok(_) => {},
            }
            proof {
                assert(decreases_to!(*s => s->BleAwaitUntil_0));
                assert(decreases_to!(*x => x.on_each));
            }
            let at = join2(path, ".onEach");
            validate_steps(&x.on_each, at.as_str())
        },
        Step::BleAwaitDisconnect(x) => {
            if x.timeout_ms == 0 {
                return refuse(
                    join2(path, ".timeoutMs"),
                    "bleAwaitDisconnect timeoutMs must be > 0".to_owned(),
                );
            }
            Ok(())
        },
        _ => Ok(()),
    }
}

/// The first firmware acquisition among the steps from `i` on.
pub open spec fn firmware_faults(v: Seq<Step>, path: Seq<char>, i: int) -> Option<ConfigFault>
    decreases v, v.len() - i,
{
    if i < 0 || i >= v.len() {
        None
    } else {
        first_fault(firmware_fault(v[i], indexed(path, "["@, i)), firmware_faults(v, path, i + 1))
    }
}

/// The first firmware acquisition in a step.
pub open spec fn firmware_fault(s: Step, path: Seq<char>) -> Option<ConfigFault>
    decreases s, 0int,
{
    match s {
        Step::AcquireFirmware(_) => Some(
            invalid(
                path,
                "acquireFirmware is not allowed in postExitReadiness (firmware tiering applies to steps only)"@,
            ),
        ),
        Step::Acquire(x) => firmware_fault(*x.from, path + ".from"@),
        Step::If(x) => first_fault(
            firmware_faults(x.then_steps@, path + ".then"@, 0),
            firmware_faults(x.else_steps@, path + ".else"@, 0),
        ),
        Step::BleAwaitUntil(x) => firmware_faults(x.on_each@, path + ".onEach"@, 0),
        _ => None,
    }
}

/// Checks that no step acquires firmware.
fn forbid_in_steps(v: &Vec<Step>, path: &str) -> (r: Result<(), ConfigError>)
    ensures
        faults(r, firmware_faults(v@, path@, 0)),
    decreases v, 1int,
{
    let mut i: usize = 0;
    while i < v.len()
        invariant
            i <= v@.len(),
            firmware_faults(v@, path@, 0) == firmware_faults(v@, path@, i as int),
        decreases v@.len() - i,
    {
        proof {
            assert(decreases_to!(v@ => v@[i as int]));
        }
        let at = index_path(path, "[", i);
        match forbid_acquire_firmware(&v[i], at.as_str()) {
            Err(e) => {
                return Err(e);
            },
            Ok(_) => {},
        }
        i = i + 1;
    }
    Ok(())
}

/// Checks that a step acquires no firmware: the steps before a replay are walked without the
/// refinement that a firmware acquisition is for.
fn forbid_acquire_firmware(s: &Step, path: &str) -> (r: Result<(), ConfigError>)
    ensures
        faults(r, firmware_fault(*s, path@)),
    decreases s, 0int,
{
    match s {
        Step::AcquireFirmware(_) => refuse(
            path.to_owned(),
            "acquireFirmware is not allowed in postExitReadiness (firmware tiering applies to steps only)".to_owned(),
        ),
        Step::Acquire(x) => {
            proof {
                assert(decreases_to!(*s => s->Acquire_0));
                assert(decreases_to!(*x => x.from));
            }
            let at = join2(path, ".from");
            forbid_acquire_firmware(&x.from, at.as_str())
        },
        Step::If(x) => {
            proof {
                assert(decreases_to!(*s => s->If_0));
                assert(decreases_to!(*x => x.then_steps));
                assert(decreases_to!(*x => x.else_steps));
            }
            let at_then = join2(path, ".then");
            match forbid_in_steps(&x.then_steps, at_then.as_str()) {
                Err(e) => {
                    return Err(e);
                },
                Ok(_) => {},
            }
            let at_else = join2(path, ".else");
            forbid_in_steps(&x.else_steps, at_else.as_str())
        },
        Step::BleAwaitUntil(x) => {
            proof {
                assert(decreases_to!(*s => s->BleAwaitUntil_0));
                assert(decreases_to!(*x => x.on_each));
            }
            let at = join2(path, ".onEach");
            forbid_in_steps(&x.on_each, at.as_str())
        },
        _ => Ok(()),
    }
}

/// The first fault of the steps of a replay gate, from `i` on: that of the step itself, or a
/// firmware acquisition.
pub open spec fn readiness_faults(v: Seq<Step>, path: Seq<char>, i: int) -> Option<ConfigFault>
    decreases v.len() - i,
{
    if i < 0 || i >= v.len() {
        None
    } else {
        let at = indexed(path, "["@, i);
        first_fault(
            first_fault(step_fault(v[i], at), firmware_fault(v[i], at)),
            readiness_faults(v, path, i + 1),
        )
    }
}

/// The first fault of an establishment.
pub open spec fn establishment_fault(
    e: EstablishmentBlock,
    model_id: Seq<char>,
    mechanism: Seq<char>,
) -> Option<ConfigFault> {
    let path = "models."@ + model_id + ".establishments."@ + mechanism;
    first_fault(
        readiness_faults(e.post_exit_readiness@, path + ".postExitReadiness"@, 0),
        step_faults(e.steps@, path + ".steps"@, 0),
    )
}

/// Checks an establishment.
fn validate_establishment(e: &EstablishmentBlock, model_id: &str, mechanism: &str) -> (r: Result<
    (),
    ConfigError,
>)
    ensures
        faults(r, establishment_fault(*e, model_id@, mechanism@)),
{
    let path = join4("models.", model_id, ".establishments.", mechanism);
    let at_gate = join2(path.as_str(), ".postExitReadiness");
    let mut i: usize = 0;
    while i < e.post_exit_readiness.len()
        invariant
            path@ == "models."@ + model_id@ + ".establishments."@ + mechanism@,
            at_gate@ == path@ + ".postExitReadiness"@,
            i <= e.post_exit_readiness@.len(),
            readiness_faults(e.post_exit_readiness@, at_gate@, 0) == readiness_faults(
                e.post_exit_readiness@,
                at_gate@,
                i as int,
            ),
        decreases e.post_exit_readiness@.len() - i,
    {
        let at = index_path(at_gate.as_str(), "[", i);
        match validate_step(&e.post_exit_readiness[i], at.as_str()) {
            Err(e) => {
                return Err(e);
            },
            Ok(_) => {},
        }
        match forbid_acquire_firmware(&e.post_exit_readiness[i], at.as_str()) {
            Err(e) => {
                return Err(e);
            },
            Ok(_) => {},
        }
        i = i + 1;
    }
    let at_steps = join2(path.as_str(), ".steps");
    validate_steps(&e.steps, at_steps.as_str())
}

/// The first fault of the establishments from `i` on.
pub open spec fn establishment_faults(
    m: Seq<(String, EstablishmentBlock)>,
    model_id: Seq<char>,
    i: int,
) -> Option<ConfigFault>
    decreases m.len() - i,
{
    if i < 0 || i >= m.len() {
        None
    } else {
        first_fault(
            establishment_fault(m[i].1, model_id, m[i].0@),
            establishment_faults(m, model_id, i + 1),
        )
    }
}

/// Checks the establishments of a model.
fn validate_establishments(m: &NameMap<EstablishmentBlock>, model_id: &str) -> (r: Result<
    (),
    ConfigError,
>)
    ensures
        faults(r, establishment_faults(m.entries(), model_id@, 0)),
{
    let mut i: usize = 0;
    while i < m.len()
        invariant
            i <= m.entries().len(),
            establishment_faults(m.entries(), model_id@, 0) == establishment_faults(
                m.entries(),
                model_id@,
                i as int,
            ),
        decreases m.entries().len() - i,
    {
        match validate_establishment(m.value_at(i), model_id, m.key_at(i).as_str()) {
            Err(e) => {
                return Err(e);
            },
            Ok(_) => {},
        }
        i = i + 1;
    }
    Ok(())
}

/// Whether an assertion among those from `i` on tests no bit.
pub open spec fn masks_none(p: PayloadPredicate) -> bool {
    exists|i: int| 0 <= i < p.assert_bits@.len() && (#[trigger] p.assert_bits@[i]).mask == 0
}

/// What is wrong with constraints on a payload.
pub open spec fn payload_violation(context: Seq<char>, p: PayloadPredicate) -> Option<Seq<char>> {
    if p.length is Some && p.min_length is Some {
        Some(context + ": length and minLength are mutually exclusive"@)
    } else if masks_none(p) {
        Some(context + ": assertBits mask 0 always yields 0"@)
    } else {
        None
    }
}

/// What is wrong with an advert predicate: an empty list, a constraint that always holds or never
/// can, or forms that exclude each other.
pub open spec fn advert_violation(p: AdvertPredicate) -> Option<Seq<char>>
    decreases p, 0int,
{
    match p {
        AdvertPredicate::All(v) => advert_violations(v@, 0),
        AdvertPredicate::Any(v) => advert_violations(v@, 0),
        AdvertPredicate::Not(inner) => advert_violation(*inner),
        AdvertPredicate::ManufacturerData(m) => if m.company_id is None && m.payload.is_vacuous() {
            Some("manufacturerData: no companyId and no payload constraint (vacuous)"@)
        } else {
            payload_violation("manufacturerData"@, m.payload)
        },
        AdvertPredicate::ServiceUuids { contains } => if contains@.len() == 0 {
            Some("serviceUuids.contains: empty UUID"@)
        } else {
            None
        },
        AdvertPredicate::ServiceData { uuid, payload } => if uuid@.len() == 0 {
            Some("serviceData: empty UUID"@)
        } else {
            payload_violation("serviceData"@, payload)
        },
        AdvertPredicate::LocalName(n) => if one_of(n.equals is Some, n.prefix is Some, n.contains is Some) {
            None
        } else {
            Some("localName: exactly one of equals/prefix/contains required"@)
        },
        AdvertPredicate::TxPower { min, max } => if min is None && max is None {
            Some("txPower: at least one of min/max required"@)
        } else {
            None
        },
        AdvertPredicate::RawAdRecord { payload, .. } => payload_violation("rawAdRecord"@, payload),
    }
}

/// Whether exactly one of three holds.
pub open spec fn one_of(a: bool, b: bool, c: bool) -> bool {
    (a && !b && !c) || (!a && b && !c) || (!a && !b && c)
}

/// What is wrong with a list of advert predicates, from `i` on.
pub open spec fn advert_violations(v: Seq<AdvertPredicate>, i: int) -> Option<Seq<char>>
    decreases v, v.len() - i,
{
    if v.len() == 0 {
        Some("all/any: empty predicate list"@)
    } else if i < 0 || i >= v.len() {
        None
    } else {
        match advert_violation(v[i]) {
            Some(m) => Some(m),
            None => advert_violations(v, i + 1),
        }
    }
}

/// Whether a verdict gives the violation `v`, or none where there is none.
pub open spec fn violates(r: Result<(), String>, v: Option<Seq<char>>) -> bool {
    match v {
        None => r is Ok,
        Some(t) => r matches Err(m) && m@ == t,
    }
}

/// Checks constraints on a payload.
fn validate_payload(context: &str, p: &PayloadPredicate) -> (r: Result<(), String>)
    ensures
        violates(r, payload_violation(context@, *p)),
{
    if p.length.is_some() && p.min_length.is_some() {
        return Err(join2(context, ": length and minLength are mutually exclusive"));
    }
    let mut i: usize = 0;
    while i < p.assert_bits.len()
        invariant
            p.length is None || p.min_length is None,
            i <= p.assert_bits@.len(),
            forall|k: int| 0 <= k < i ==> (#[trigger] p.assert_bits@[k]).mask != 0,
        decreases p.assert_bits@.len() - i,
    {
        if p.assert_bits[i].mask == 0 {
            proof {
                assert(p.assert_bits@[i as int].mask == 0);
            }
            return Err(join2(context, ": assertBits mask 0 always yields 0"));
        }
        i = i + 1;
    }
    Ok(())
}

/// Checks a list of advert predicates.
fn validate_predicates(v: &Vec<AdvertPredicate>) -> (r: Result<(), String>)
    ensures
        violates(r, advert_violations(v@, 0)),
    decreases v, 1int,
{
    if v.len() == 0 {
        return Err("all/any: empty predicate list".to_owned());
    }
    let mut i: usize = 0;
    while i < v.len()
        invariant
            v@.len() > 0,
            i <= v@.len(),
            advert_violations(v@, 0) == advert_violations(v@, i as int),
        decreases v@.len() - i,
    {
        proof {
            assert(decreases_to!(v@ => v@[i as int]));
        }
        match validate_advert_predicate(&v[i]) {
            Err(e) => {
                return Err(e);
            },
            Ok(_) => {},
        }
        i = i + 1;
    }
    Ok(())
}

/// Checks an advert predicate.
pub fn validate_advert_predicate(p: &AdvertPredicate) -> (r: Result<(), String>)
    ensures
        violates(r, advert_violation(*p)),
    decreases p, 0int,
{
    match p {
        AdvertPredicate::All(v) => {
            proof {
                assert(decreases_to!(*p => p->All_0));
            }
            validate_predicates(v)
        },
        AdvertPredicate::Any(v) => {
            proof {
                assert(decreases_to!(*p => p->Any_0));
            }
            validate_predicates(v)
        },
        AdvertPredicate::Not(inner) => validate_advert_predicate(inner),
        AdvertPredicate::ManufacturerData(m) => {
            if m.company_id.is_none() && m.payload.is_empty() {
                return Err(
                    "manufacturerData: no companyId and no payload constraint (vacuous)".to_owned(),
                );
            }
            validate_payload("manufacturerData", &m.payload)
        },
        AdvertPredicate::ServiceUuids { contains } => {
            if contains.as_str().unicode_len() == 0 {
                return Err("serviceUuids.contains: empty UUID".to_owned());
            }
            Ok(())
        },
        AdvertPredicate::ServiceData { uuid, payload } => {
            if uuid.as_str().unicode_len() == 0 {
                return Err("serviceData: empty UUID".to_owned());
            }
            validate_payload("serviceData", payload)
        },
        AdvertPredicate::LocalName(n) => {
            let a = n.equals.is_some();
            let b = n.prefix.is_some();
            let c = n.contains.is_some();
            if (a && !b && !c) || (!a && b && !c) || (!a && !b && c) {
                Ok(())
            } else {
                Err("localName: exactly one of equals/prefix/contains required".to_owned())
            }
        },
        AdvertPredicate::TxPower { min, max } => {
            if min.is_none() && max.is_none() {
                return Err("txPower: at least one of min/max required".to_owned());
            }
            Ok(())
        },
        AdvertPredicate::RawAdRecord { payload, .. } => validate_payload("rawAdRecord", payload),
    }
}

/// The first advert capture from `i` on that can never capture a byte.
pub open spec fn advert_capture_violation(v: Seq<AdvertCapture>, i: int) -> Option<Seq<char>>
    decreases v.len() - i,
{
    if i < 0 || i >= v.len() {
        None
    } else if v[i].length == Some(0usize) {
        Some("capture["@ + decimal(i) + "]: length 0 can never capture bytes"@)
    } else {
        advert_capture_violation(v, i + 1)
    }
}

/// What is wrong with a signature.
pub open spec fn signature_violation(s: Signature) -> Option<Seq<char>> {
    match s {
        Signature::BleAdvert(x) => match advert_violation(x.require) {
            Some(m) => Some(m),
            None => advert_capture_violation(x.capture@, 0),
        },
        Signature::PcssNotify(_) => None,
    }
}

/// Checks a signature.
pub fn validate_signature(s: &Signature) -> (r: Result<(), String>)
    ensures
        violates(r, signature_violation(*s)),
{
    match s {
        Signature::BleAdvert(x) => {
            match validate_advert_predicate(&x.require) {
                Err(e) => {
                    return Err(e);
                },
                Ok(_) => {},
            }
            let mut i: usize = 0;
            while i < x.capture.len()
                invariant
                    *s == Signature::BleAdvert(*x),
                    advert_violation(x.require) is None,
                    i <= x.capture@.len(),
                    advert_capture_violation(x.capture@, 0) == advert_capture_violation(
                        x.capture@,
                        i as int,
                    ),
                decreases x.capture@.len() - i,
            {
                match x.capture[i].length {
                    Some(n) => {
                        if n == 0 {
                            let at = u64_text(i as u64);
                            return Err(
                                join3(
                                    "capture[",
                                    at.as_str(),
                                    "]: length 0 can never capture bytes",
                                ),
                            );
                        }
                    },
                    None => {},
                }
                i = i + 1;
            }
            Ok(())
        },
        Signature::PcssNotify(_) => Ok(()),
    }
}

/// Whether a signature captures or scopes a name.
pub open spec fn binds_name(s: BleAdvertSignature, name: Seq<char>) -> bool {
    s.scope.has(name) || exists|i: int|
        0 <= i < s.capture@.len() && (#[trigger] s.capture@[i]).name@ == name
}

/// Whether a signature captures or scopes a name.
fn is_bound(s: &BleAdvertSignature, name: &str) -> (r: bool)
    ensures
        r == binds_name(*s, name@),
{
    if s.scope.contains_key(name) {
        return true;
    }
    let mut i: usize = 0;
    while i < s.capture.len()
        invariant
            !s.scope.has(name@),
            i <= s.capture@.len(),
            forall|k: int| 0 <= k < i ==> (#[trigger] s.capture@[k]).name@ != name@,
        decreases s.capture@.len() - i,
    {
        if same(s.capture[i].name.as_str(), name) {
            proof {
                assert(s.capture@[i as int].name@ == name@);
            }
            return true;
        }
        i = i + 1;
    }
    false
}

/// The first identity key from `i` on that a signature does not bind.
pub open spec fn identity_fault(
    s: BleAdvertSignature,
    keys: Seq<String>,
    path: Seq<char>,
    i: int,
) -> Option<ConfigFault>
    decreases keys.len() - i,
{
    if i < 0 || i >= keys.len() {
        None
    } else if !binds_name(s, keys[i]@) {
        Some(
            invalid(
                path + ".identity"@,
                "identity key '"@ + keys[i]@ + "' is not captured or scoped"@,
            ),
        )
    } else {
        identity_fault(s, keys, path, i + 1)
    }
}

/// The fault of a signature's reconnect route.
pub open spec fn route_fault(ble: FamilyBleBlock, s: BleAdvertSignature, path: Seq<char>) -> Option<
    ConfigFault,
> {
    match s.reconnect {
        None => None,
        Some(route) => if ble.reconnect is None {
            Some(invalid(path, "requires a family reconnect policy"@))
        } else if route.identity@.len() == 0 {
            Some(invalid(path + ".identity"@, "must declare at least one identity key"@))
        } else if !ble.establishments.has(route.mechanism@) {
            Some(
                invalid(
                    path + ".mechanism"@,
                    "unknown establishment '"@ + route.mechanism@ + "'"@,
                ),
            )
        } else {
            identity_fault(s, route.identity@, path, 0)
        },
    }
}

/// The first fault of a reconnect route among the signatures from `i` on.
pub open spec fn route_faults(
    ble: FamilyBleBlock,
    model_id: Seq<char>,
    v: Seq<(String, Signature)>,
    i: int,
) -> Option<ConfigFault>
    decreases v.len() - i,
{
    if i < 0 || i >= v.len() {
        None
    } else {
        match v[i].1 {
            Signature::BleAdvert(s) => first_fault(
                route_fault(
                    ble,
                    s,
                    "models."@ + model_id + ".signatures."@ + v[i].0@ + ".reconnect"@,
                ),
                route_faults(ble, model_id, v, i + 1),
            ),
            Signature::PcssNotify(_) => route_faults(ble, model_id, v, i + 1),
        }
    }
}

/// The fault of what a model declares for reconnecting.
pub open spec fn reconnect_fault(
    ble: Option<FamilyBleBlock>,
    model_id: Seq<char>,
    v: Seq<(String, Signature)>,
) -> Option<ConfigFault> {
    match ble {
        None => None,
        Some(b) => if b.reconnect matches Some(policy) && policy.scan_timeout_ms == 0 {
            Some(
                invalid(
                    "models."@ + model_id + ".ble.reconnect.scanTimeoutMs"@,
                    "must be greater than zero"@,
                ),
            )
        } else {
            route_faults(b, model_id, v, 0)
        },
    }
}

/// Checks a signature's reconnect route.
fn validate_route(ble: &FamilyBleBlock, s: &BleAdvertSignature, path: &str) -> (r: Result<
    (),
    ConfigError,
>)
    ensures
        faults(r, route_fault(*ble, *s, path@)),
{
    let route = match &s.reconnect {
        None => {
            return Ok(());
        },
        Some(route) => route,
    };
    if ble.reconnect.is_none() {
        return refuse(path.to_owned(), "requires a family reconnect policy".to_owned());
    }
    if route.identity.len() == 0 {
        return refuse(
            join2(path, ".identity"),
            "must declare at least one identity key".to_owned(),
        );
    }
    if !ble.establishments.contains_key(route.mechanism.as_str()) {
        return refuse(
            join2(path, ".mechanism"),
            join3("unknown establishment '", route.mechanism.as_str(), "'"),
        );
    }
    let mut i: usize = 0;
    while i < route.identity.len()
        invariant
            s.reconnect == Some(*route),
            ble.reconnect is Some,
            route.identity@.len() > 0,
            ble.establishments.has(route.mechanism@),
            i <= route.identity@.len(),
            identity_fault(*s, route.identity@, path@, 0) == identity_fault(
                *s,
                route.identity@,
                path@,
                i as int,
            ),
        decreases route.identity@.len() - i,
    {
        if !is_bound(s, route.identity[i].as_str()) {
            return refuse(
                join2(path, ".identity"),
                join3(
                    "identity key '",
                    route.identity[i].as_str(),
                    "' is not captured or scoped",
                ),
            );
        }
        i = i + 1;
    }
    Ok(())
}

/// Checks what a model declares for reconnecting.
fn validate_reconnect_contract(
    ble: &Option<FamilyBleBlock>,
    model_id: &str,
    signatures: &Vec<(String, Signature)>,
) -> (r: Result<(), ConfigError>)
    ensures
        faults(r, reconnect_fault(*ble, model_id@, signatures@)),
{
    let block = match ble {
        None => {
            return Ok(());
        },
        Some(b) => b,
    };
    match &block.reconnect {
        Some(policy) => {
            if policy.scan_timeout_ms == 0 {
                return refuse(
                    join3("models.", model_id, ".ble.reconnect.scanTimeoutMs"),
                    "must be greater than zero".to_owned(),
                );
            }
        },
        None => {},
    }
    let mut i: usize = 0;
    while i < signatures.len()
        invariant
            *ble == Some(*block),
            !(block.reconnect matches Some(policy) && policy.scan_timeout_ms == 0),
            i <= signatures@.len(),
            route_faults(*block, model_id@, signatures@, 0) == route_faults(
                *block,
                model_id@,
                signatures@,
                i as int,
            ),
        decreases signatures@.len() - i,
    {
        match &signatures[i].1 {
            Signature::BleAdvert(s) => {
                let path = join5(
                    "models.",
                    model_id,
                    ".signatures.",
                    signatures[i].0.as_str(),
                    ".reconnect",
                );
                match validate_route(block, s, path.as_str()) {
                    Err(e) => {
                        return Err(e);
                    },
                    Ok(_) => {},
                }
            },
            Signature::PcssNotify(_) => {},
        }
        i = i + 1;
    }
    Ok(())
}

/// A signature of a model with its references replaced, or why they could not be.
#[derive(Debug)]
pub struct PreparedSignature {
    pub name: String,
    pub value: Result<Yaml, ConfigError>,
}

/// What a model declares, as plain YAML: its families' blocks merged, and its signatures in order.
#[derive(Debug)]
pub struct PreparedModel {
    pub ble: Yaml,
    pub pcss: Yaml,
    pub signatures: Vec<PreparedSignature>,
}

/// Whether a prepared model is what the index declares of it.
pub open spec fn prepares(p: PreparedModel, index: ManufacturerIndex, model: IndexedModel) -> bool {
    &&& ble_block(index, model) == Ok::<YamlModel, ConfigFault>(p.ble@)
    &&& families_merged(index, model, "pcss"@, YamlModel::Null, 0) == Ok::<YamlModel, ConfigFault>(
        p.pcss@,
    )
    &&& p.signatures@.len() == model.signatures@.len()
    &&& forall|i: int|
        0 <= i < p.signatures@.len() ==> {
            let s = #[trigger] p.signatures@[i];
            s.name@ == model.signatures@[i].0@ && yields(
                s.value,
                signature_substituted(
                    model.signatures@[i].1@,
                    p.ble@,
                    "models."@ + model.id@ + ".signatures."@ + model.signatures@[i].0@,
                ),
            )
        }
}

/// Prepares a model: merges its families, resolves GATT names and replaces the references of its
/// signatures.
pub fn prepare_model(index: &ManufacturerIndex, model: &IndexedModel) -> (r: Result<
    PreparedModel,
    ConfigError,
>)
    ensures
        match ble_block(*index, *model) {
            Ok(_) => match families_merged(*index, *model, "pcss"@, YamlModel::Null, 0) {
                Ok(_) => r matches Ok(p) && prepares(p, *index, *model),
                Err(f) => r matches Err(e) && e@ == f,
            },
            Err(f) => r matches Err(e) && e@ == f,
        },
{
    let ble = match build_ble_block(index, model) {
        Ok(b) => b,
        Err(e) => {
            return Err(e);
        },
    };
    let pcss = match merge_families(index, model, "pcss") {
        Ok(p) => p,
        Err(e) => {
            return Err(e);
        },
    };
    let mut signatures: Vec<PreparedSignature> = Vec::new();
    let mut i: usize = 0;
    while i < model.signatures.len()
        invariant
            i <= model.signatures@.len(),
            signatures@.len() == i,
            forall|k: int|
                0 <= k < signatures@.len() ==> {
                    let s = #[trigger] signatures@[k];
                    s.name@ == model.signatures@[k].0@ && yields(
                        s.value,
                        signature_substituted(
                            model.signatures@[k].1@,
                            ble@,
                            "models."@ + model.id@ + ".signatures."@ + model.signatures@[k].0@,
                        ),
                    )
                },
        decreases model.signatures@.len() - i,
    {
        let path = join4(
            "models.",
            model.id.as_str(),
            ".signatures.",
            model.signatures[i].0.as_str(),
        );
        let value = substitute_signature(&model.signatures[i].1, &ble, path.as_str());
        signatures.push(PreparedSignature { name: model.signatures[i].0.clone(), value });
        i = i + 1;
    }
    Ok(PreparedModel { ble, pcss, signatures })
}

/// What is read of a signature before its kind is known: the kind, and the rest.
pub open spec fn kind_apart(y: YamlModel) -> Result<(YamlModel, YamlModel), Seq<char>> {
    match y {
        YamlModel::Mapping(m) => match member(m, "kind"@) {
            Some(kind) => Ok(
                (kind, YamlModel::Mapping(swap_removed(m, key_index(m, "kind"@, 0)))),
            ),
            None => Err("signature missing required `kind` field"@),
        },
        _ => Err("signature must be a mapping"@),
    }
}

/// Parts the kind of a signature from the rest of it.
pub fn signature_parts(value: Yaml) -> (r: Result<(Yaml, Yaml), String>)
    ensures
        match kind_apart(value@) {
            Ok((kind, body)) => r matches Ok((k, b)) && k@ == kind && b@ == body,
            Err(m) => r matches Err(e) && e@ == m,
        },
{
    match value {
        Yaml::Mapping(entries) => {
            proof {
                mapping_view(entries);
            }
            let mut m = entries;
            let i: usize = find_key(&m, "kind");
            if i >= m.len() {
                return Err("signature missing required `kind` field".to_owned());
            }
            let ghost before = m@;
            let (_, kind) = m.swap_remove(i);
            proof {
                mapping_view(m);
                assert(entry_models(m@) == swap_removed(entry_models(before), i as int));
                assert(entry_models(before)[i as int] == (before[i as int].0@, before[i as int].1@));
            }
            Ok((kind, Yaml::Mapping(m)))
        },
        _ => Err("signature must be a mapping".to_owned()),
    }
}

/// What came of reading a signature into a record.
#[derive(Debug)]
pub enum SignatureReading {
    /// Its references could not be replaced.
    Refused(ConfigError),
    /// It is no signature; the text says why.
    Unreadable(String),
    Read(Signature),
}

/// What a model declares, read into records. A block that could not be read gives the reason.
#[derive(Debug)]
pub struct DecodedModel {
    pub ble: Option<Result<FamilyBleBlock, String>>,
    pub pcss: Option<Result<FamilyPcssBlock, String>>,
    pub signatures: Vec<(String, SignatureReading)>,
}

/// The fault of a signature that was read.
pub open spec fn reading_fault(model_id: Seq<char>, name: Seq<char>, s: SignatureReading) -> Option<
    ConfigFault,
> {
    let path = "models."@ + model_id + ".signatures."@ + name;
    match s {
        SignatureReading::Refused(e) => Some(e@),
        SignatureReading::Unreadable(m) => Some(invalid(path, m@)),
        SignatureReading::Read(x) => match signature_violation(x) {
            Some(m) => Some(invalid(path, m)),
            None => None,
        },
    }
}

/// The first fault of the signatures from `i` on.
pub open spec fn reading_faults(
    model_id: Seq<char>,
    v: Seq<(String, SignatureReading)>,
    i: int,
) -> Option<ConfigFault>
    decreases v.len() - i,
{
    if i < 0 || i >= v.len() {
        None
    } else {
        first_fault(
            reading_fault(model_id, v[i].0@, v[i].1),
            reading_faults(model_id, v, i + 1),
        )
    }
}

/// The signatures that were read.
pub open spec fn read_signatures(v: Seq<(String, SignatureReading)>) -> Seq<(String, Signature)> {
    Seq::new(v.len(), |i: int| (v[i].0, v[i].1->Read_0))
}

/// The block that was read, where there is one.
pub open spec fn read_block<T>(o: Option<Result<T, String>>) -> Option<T> {
    match o {
        Some(Ok(b)) => Some(b),
        _ => None,
    }
}

/// The fault of a block that was not read.
pub open spec fn unread_fault<T>(
    o: Option<Result<T, String>>,
    path: Seq<char>,
    what: Seq<char>,
) -> Option<ConfigFault> {
    match o {
        Some(Err(m)) => Some(invalid(path, what + m@)),
        _ => None,
    }
}

/// The first fault of a model that was read.
pub open spec fn model_fault(model_id: Seq<char>, d: DecodedModel) -> Option<ConfigFault> {
    let unread = unread_fault(d.ble, "models."@ + model_id + ".ble"@, "typed ble decode: "@);
    let plans = match read_block(d.ble) {
        Some(b) => establishment_faults(b.establishments.entries(), model_id, 0),
        None => None,
    };
    let policy = unread_fault(d.pcss, "models."@ + model_id + ".pcss"@, "typed pcss decode: "@);
    let signatures = reading_faults(model_id, d.signatures@, 0);
    let reconnect = reconnect_fault(read_block(d.ble), model_id, read_signatures(d.signatures@));
    first_fault(
        first_fault(unread, plans),
        first_fault(policy, first_fault(signatures, reconnect)),
    )
}

/// Whether a view is that of a model that was read.
pub open spec fn shows_model(v: ModelView, model: IndexedModel, d: DecodedModel) -> bool {
    &&& v.id@ == model.id@
    &&& v.display_name@ == model.display_name@
    &&& v.fallback == model.fallback
    &&& v.manifest_path@ == model.manifest@
    &&& v.ble == read_block(d.ble)
    &&& v.pcss == read_block(d.pcss)
    &&& v.signatures@ == read_signatures(d.signatures@)
}

/// The block that was read, or the fault of one that was not.
fn accept_block<T>(o: Option<Result<T, String>>, model_id: &str, suffix: &str, what: &str) -> (r:
    Result<Option<T>, ConfigError>)
    ensures
        match unread_fault(o, "models."@ + model_id@ + suffix@, what@) {
            Some(f) => r matches Err(e) && e@ == f,
            None => r == Ok::<Option<T>, ConfigError>(read_block(o)),
        },
{
    match o {
        Some(Ok(b)) => Ok(Some(b)),
        Some(Err(m)) => refuse(join3("models.", model_id, suffix), join2(what, m.as_str())),
        None => Ok(None),
    }
}

/// Checks the signatures that were read.
fn accept_signatures(v: Vec<(String, SignatureReading)>, model_id: &str) -> (r: Result<
    Vec<(String, Signature)>,
    ConfigError,
>)
    ensures
        match reading_faults(model_id@, v@, 0) {
            Some(f) => r matches Err(e) && e@ == f,
            None => r matches Ok(x) && x@ == read_signatures(v@),
        },
{
    let ghost all = v@;
    let mut rest = v;
    let mut out: Vec<(String, Signature)> = Vec::new();
    proof {
        assert(all.skip(0) == all);
    }
    while rest.len() > 0
        invariant
            all == v@,
            out@.len() + rest@.len() == all.len(),
            rest@ == all.skip(out@.len() as int),
            forall|k: int|
                0 <= k < out@.len() ==> (#[trigger] out@[k]) == (all[k].0, all[k].1->Read_0),
            reading_faults(model_id@, all, 0) == reading_faults(
                model_id@,
                all,
                out@.len() as int,
            ),
        decreases rest@.len(),
    {
        let ghost n = out@.len() as int;
        let (name, reading) = rest.remove(0);
        proof {
            assert(all.skip(n)[0] == all[n]);
            assert(rest@ == all.skip(n + 1));
        }
        match reading {
            SignatureReading::Refused(e) => {
                return Err(e);
            },
            SignatureReading::Unreadable(m) => {
                return refuse(join4("models.", model_id, ".signatures.", name.as_str()), m);
            },
            SignatureReading::Read(s) => {
                match validate_signature(&s) {
                    Ok(_) => {},
                    Err(m) => {
                        return refuse(join4("models.", model_id, ".signatures.", name.as_str()), m);
                    },
                }
                out.push((name, s));
            },
        }
    }
    proof {
        assert(out@ == read_signatures(all));
    }
    Ok(out)
}

/// The view of a model that was read, where every rule on it is kept.
pub fn resolve_model(model: &IndexedModel, decoded: DecodedModel) -> (r: Result<
    ModelView,
    ConfigError,
>)
    ensures
        match model_fault(model.id@, decoded) {
            Some(f) => r matches Err(e) && e@ == f,
            None => r matches Ok(v) && shows_model(v, *model, decoded),
        },
{
    let id = model.id.as_str();
    let DecodedModel { ble: raw_ble, pcss: raw_pcss, signatures: raw_signatures } = decoded;
    let ble = match accept_block(raw_ble, id, ".ble", "typed ble decode: ") {
        Ok(b) => b,
        Err(e) => {
            return Err(e);
        },
    };
    match &ble {
        Some(b) => {
            match validate_establishments(&b.establishments, id) {
                Err(e) => {
                    return Err(e);
                },
                Ok(_) => {},
            }
        },
        None => {},
    }
    let pcss = match accept_block(raw_pcss, id, ".pcss", "typed pcss decode: ") {
        Ok(p) => p,
        Err(e) => {
            return Err(e);
        },
    };
    let signatures = match accept_signatures(raw_signatures, id) {
        Ok(s) => s,
        Err(e) => {
            return Err(e);
        },
    };
    match validate_reconnect_contract(&ble, id, &signatures) {
        Err(e) => {
            return Err(e);
        },
        Ok(_) => {},
    }
    Ok(
        ModelView {
            id: model.id.clone(),
            display_name: model.display_name.clone(),
            fallback: model.fallback,
            manifest_path: model.manifest.clone(),
            ble,
            pcss,
            signatures,
        },
    )
}

/// The first fault of the models from `i` on.
pub open spec fn index_fault(
    models: Seq<IndexedModel>,
    decoded: Seq<Result<DecodedModel, ConfigError>>,
    i: int,
) -> Option<ConfigFault>
    decreases models.len() - i,
{
    if i < 0 || i >= models.len() || i >= decoded.len() {
        None
    } else {
        match decoded[i] {
            Err(e) => Some(e@),
            Ok(d) => first_fault(
                model_fault(models[i].id@, d),
                index_fault(models, decoded, i + 1),
            ),
        }
    }
}

impl ResolvedManufacturerIndex {
    /// The index of the models that were read, in the order in which they are declared. The first
    /// fault ends the load.
    pub fn resolve(
        index: &ManufacturerIndex,
        decoded: Vec<Result<DecodedModel, ConfigError>>,
    ) -> (r: Result<Self, ConfigError>)
        requires
            decoded@.len() == index.models@.len(),
        ensures
            match index_fault(index.models@, decoded@, 0) {
                Some(f) => r matches Err(e) && e@ == f,
                None => r matches Ok(x) && x.manufacturer@ == index.manufacturer@
                    && x.models@.len() == index.models@.len() && forall|i: int|
                    0 <= i < x.models@.len() ==> shows_model(
                        #[trigger] x.models@[i],
                        index.models@[i],
                        decoded@[i]->Ok_0,
                    ),
            },
    {
        let ghost all = decoded@;
        let mut rest = decoded;
        let mut models: Vec<ModelView> = Vec::new();
        proof {
            assert(all.skip(0) == all);
        }
        while rest.len() > 0
            invariant
                all == decoded@,
                all.len() == index.models@.len(),
                models@.len() + rest@.len() == all.len(),
                rest@ == all.skip(models@.len() as int),
                forall|i: int|
                    0 <= i < models@.len() ==> shows_model(
                        #[trigger] models@[i],
                        index.models@[i],
                        all[i]->Ok_0,
                    ),
                index_fault(index.models@, all, 0) == index_fault(
                    index.models@,
                    all,
                    models@.len() as int,
                ),
            decreases rest@.len(),
        {
            let ghost n = models@.len() as int;
            let i: usize = models.len();
            let outcome = rest.remove(0);
            proof {
                assert(all.skip(n)[0] == all[n]);
                assert(rest@ == all.skip(n + 1));
            }
            match outcome {
                Err(e) => {
                    return Err(e);
                },
                Ok(d) => match resolve_model(&index.models[i], d) {
                    Ok(view) => {
                        models.push(view);
                    },
                    Err(e) => {
                        return Err(e);
                    },
                },
            }
        }
        Ok(ResolvedManufacturerIndex { manufacturer: index.manufacturer.clone(), models })
    }
}

} // verus!
