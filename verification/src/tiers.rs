//! YAML text, and a manifest in tiers of it.

use crate::error::ManifestError;
use crate::yaml::{
    entry_models, item_models, mapping_view, merge_yaml, merged, sequence_view, Yaml, YamlModel,
    YamlNumber,
};
use vstd::prelude::*;

verus! {

/// `serde_yaml::Value`: a YAML value as the parser gives it.
#[verifier::external_type_specification]
#[verifier::external_body]
pub struct ExParsedYaml(serde_yaml::Value);

/// What a parsed value holds.
pub uninterp spec fn parsed_model(v: serde_yaml::Value) -> YamlModel;

/// What a YAML text says, or the parser's message on why it says nothing.
pub uninterp spec fn yaml_text(text: Seq<char>) -> Result<YamlModel, Seq<char>>;

/// `serde_yaml::from_str` into a `serde_yaml::Value`: what the text says, or the text of the error.
/// Both depend on the text alone.
#[verifier::external_body]
fn parse_yaml(text: &str) -> (r: Result<serde_yaml::Value, String>)
    ensures
        yaml_text(text@) == match r {
            Ok(v) => Ok(parsed_model(v)),
            Err(m) => Err(m@),
        },
{
    serde_yaml::from_str::<serde_yaml::Value>(text).map_err(|e| e.to_string())
}

/// A parsed value with its outermost layer opened.
enum Layer {
    Null,
    Bool(bool),
    Number(YamlNumber),
    Text(String),
    Sequence(Vec<serde_yaml::Value>),
    Mapping(Vec<(serde_yaml::Value, serde_yaml::Value)>),
    Tagged(String, serde_yaml::Value),
}

/// What a layer holds.
spec fn layer_model(l: Layer) -> YamlModel {
    match l {
        Layer::Null => YamlModel::Null,
        Layer::Bool(b) => YamlModel::Bool(b),
        Layer::Number(YamlNumber::Unsigned(n)) => YamlModel::Unsigned(n),
        Layer::Number(YamlNumber::Negative(n)) => YamlModel::Negative(n),
        Layer::Number(YamlNumber::Float { text }) => YamlModel::Float(text@),
        Layer::Text(s) => YamlModel::Text(s@),
        Layer::Sequence(v) => YamlModel::Sequence(
            Seq::new(v@.len(), |i: int| parsed_model(v@[i])),
        ),
        Layer::Mapping(m) => YamlModel::Mapping(
            Seq::new(m@.len(), |i: int| (parsed_model(m@[i].0), parsed_model(m@[i].1))),
        ),
        Layer::Tagged(tag, v) => YamlModel::Tagged(tag@, Box::new(parsed_model(v))),
    }
}

/// The variants of `serde_yaml::Value`, one for one, with what they hold. A mapping hands out its
/// entries in their order. A number is told apart by `Number::as_u64` and `Number::as_i64`, and a
/// float, like a tag, is handed out as it is displayed.
#[verifier::external_body]
fn open_layer(value: serde_yaml::Value) -> (r: Layer)
    ensures
        layer_model(r) == parsed_model(value),
{
    match value {
        serde_yaml::Value::Null => Layer::Null,
        serde_yaml::Value::Bool(b) => Layer::Bool(b),
        serde_yaml::Value::Number(n) => Layer::Number(match (n.as_u64(), n.as_i64()) {
            (Some(u), _) => YamlNumber::Unsigned(u),
            (None, Some(i)) => YamlNumber::Negative(i),
            (None, None) => YamlNumber::Float { text: n.to_string() },
        }),
        serde_yaml::Value::String(s) => Layer::Text(s),
        serde_yaml::Value::Sequence(v) => Layer::Sequence(v),
        serde_yaml::Value::Mapping(m) => Layer::Mapping(m.into_iter().collect()),
        serde_yaml::Value::Tagged(t) => Layer::Tagged(t.tag.to_string(), t.value),
    }
}

/// A parsed value, layer by layer.
fn convert(value: serde_yaml::Value) -> (r: Yaml)
    ensures
        r@ == parsed_model(value),
    decreases parsed_model(value),
{
    let ghost model = parsed_model(value);
    match open_layer(value) {
        Layer::Null => Yaml::Null,
        Layer::Bool(b) => Yaml::Bool(b),
        Layer::Number(n) => Yaml::Number(n),
        Layer::Text(s) => Yaml::String(s),
        Layer::Sequence(v) => {
            let mut out: Vec<Yaml> = Vec::new();
            let ghost items = model->Sequence_0;
            for item in it: v
                invariant
                    model == parsed_model(value),
                    decreases_to!(model => items),
                    items == Seq::new(it.seq().len(), |i: int| parsed_model(it.seq()[i])),
                    out@.len() == it.index(),
                    forall|k: int| 0 <= k < out@.len() ==> (#[trigger] out@[k])@ == items[k],
            {
                proof {
                    let k = it.index() as int;
                    assert(items[k] == parsed_model(item));
                    assert(decreases_to!(items => items[k]));
                }
                out.push(convert(item));
            }
            proof {
                sequence_view(out);
                assert(item_models(out@) == items);
            }
            Yaml::Sequence(out)
        },
        Layer::Mapping(m) => {
            let mut out: Vec<(Yaml, Yaml)> = Vec::new();
            let ghost entries = model->Mapping_0;
            for entry in it: m
                invariant
                    model == parsed_model(value),
                    decreases_to!(model => entries),
                    entries == Seq::new(
                        it.seq().len(),
                        |i: int| (parsed_model(it.seq()[i].0), parsed_model(it.seq()[i].1)),
                    ),
                    out@.len() == it.index(),
                    forall|k: int|
                        0 <= k < out@.len() ==> (
                        #[trigger] out@[k]).0@ == entries[k].0 && out@[k].1@ == entries[k].1,
            {
                let (key, member) = entry;
                proof {
                    let k = it.index() as int;
                    assert(entries[k] == (parsed_model(key), parsed_model(member)));
                    assert(decreases_to!(entries => entries[k]));
                    assert(decreases_to!(entries[k] => entries[k].0));
                    assert(decreases_to!(entries[k] => entries[k].1));
                }
                out.push((convert(key), convert(member)));
            }
            proof {
                mapping_view(out);
                assert(entry_models(out@) == entries);
            }
            Yaml::Mapping(out)
        },
        Layer::Tagged(tag, v) => {
            proof {
                assert(decreases_to!(model => model->Tagged_1));
            }
            Yaml::Tagged { tag, value: Box::new(convert(v)) }
        },
    }
}

/// What a YAML text says.
pub fn read_yaml(text: &str) -> (r: Result<Yaml, String>)
    ensures
        yaml_text(text@) == match r {
            Ok(y) => Ok(y@),
            Err(m) => Err(m@),
        },
{
    match parse_yaml(text) {
        Ok(v) => Ok(convert(v)),
        Err(m) => Err(m),
    }
}

/// A value with the overlays from `i` on merged onto it, each onto what those before it gave; or the
/// message on the first overlay that is no YAML.
pub open spec fn tiers_merged(base: YamlModel, overlays: Seq<&str>, i: int) -> Result<
    YamlModel,
    Seq<char>,
>
    decreases overlays.len() - i,
{
    if i < 0 || i >= overlays.len() {
        Ok(base)
    } else {
        match yaml_text(overlays[i]@) {
            Ok(overlay) => tiers_merged(merged(base, overlay), overlays, i + 1),
            Err(message) => Err(message),
        }
    }
}

/// What the texts of a manifest in tiers say together: the base, with the overlays merged onto it.
pub open spec fn tiers(base: Seq<char>, overlays: Seq<&str>) -> Result<YamlModel, Seq<char>> {
    match yaml_text(base) {
        Ok(b) => tiers_merged(b, overlays, 0),
        Err(message) => Err(message),
    }
}

/// The value of a manifest in tiers: the overlays are merged onto the base member by member, the
/// most specific last, so that an overlay overrides only what it names. The first text that is no
/// YAML ends the reading.
pub fn merge_tiers(base: &str, overlays: &[&str]) -> (r: Result<Yaml, ManifestError>)
    ensures
        match tiers(base@, overlays@) {
            Ok(y) => r matches Ok(v) && v@ == y,
            Err(message) => r matches Err(ManifestError::Yaml(m)) && m@ == message,
        },
{
    let mut value = match read_yaml(base) {
        Ok(v) => v,
        Err(m) => {
            return Err(ManifestError::Yaml(m));
        },
    };
    let mut i: usize = 0;
    while i < overlays.len()
        invariant
            i <= overlays@.len(),
            tiers(base@, overlays@) == tiers_merged(value@, overlays@, i as int),
        decreases overlays@.len() - i,
    {
        match read_yaml(overlays[i]) {
            Ok(overlay) => {
                value = merge_yaml(value, &overlay);
            },
            Err(m) => {
                return Err(ManifestError::Yaml(m));
            },
        }
        i = i + 1;
    }
    Ok(value)
}

/// One more overlay does not change how those before it are merged.
proof fn tiers_extend(base: YamlModel, overlays: Seq<&str>, last: &str, i: int)
    requires
        0 <= i <= overlays.len(),
    ensures
        tiers_merged(base, overlays.push(last), i) == match tiers_merged(base, overlays, i) {
            Ok(b) => match yaml_text(last@) {
                Ok(overlay) => Ok(merged(b, overlay)),
                Err(message) => Err(message),
            },
            Err(message) => Err(message),
        },
    decreases overlays.len() - i,
{
    let all = overlays.push(last);
    if i < overlays.len() {
        assert(all[i] == overlays[i]);
        if let Ok(overlay) = yaml_text(overlays[i]@) {
            tiers_extend(merged(base, overlay), overlays, last, i + 1);
        }
    } else {
        assert(all[i] == last);
        if let Ok(overlay) = yaml_text(last@) {
            assert(tiers_merged(merged(base, overlay), all, i + 1) == Ok::<YamlModel, Seq<char>>(
                merged(base, overlay),
            ));
        }
    }
}

/// The last tier is the most specific: it is merged onto what all tiers before it say together, and
/// it counts only where each of them is YAML.
pub proof fn last_tier_goes_on_top(base: Seq<char>, overlays: Seq<&str>, last: &str)
    ensures
        tiers(base, overlays.push(last)) == match tiers(base, overlays) {
            Ok(b) => match yaml_text(last@) {
                Ok(overlay) => Ok(merged(b, overlay)),
                Err(message) => Err(message),
            },
            Err(message) => Err(message),
        },
{
    if let Ok(b) = yaml_text(base) {
        tiers_extend(b, overlays, last, 0);
    }
}

} // verus!
