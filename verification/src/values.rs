//! What values are equal, how values are merged, and what numbers and texts they hold.

use crate::json::{
    compact, compact_items, compact_members, has_member, json_char, json_chars, json_i64,
    json_string, same_json, Json, JsonModel,
};
use crate::observation::{
    line_common, line_ordinal, line_record, line_run, line_schema, ptp_type_of, typed_i64,
    valid_representation, ObservationLine, TypedPropertyValue,
};
use crate::spelling::{decimals_read_back, written_numbers_read_back};
use crate::text::decimal;
use crate::yaml::{
    entries_of, field, has_entry, key_index_bounds, merge_is_memberwise, merged, same_yaml,
    text_keys, text_of, unsigned_of, Yaml, YamlModel, YamlNumber,
};
use vstd::prelude::*;

verus! {

/// A JSON value stands for what it holds: a scalar for itself, an array for what its items stand
/// for, in their order, and an object for its names with what their values stand for.
pub proof fn json_stands_for_what_it_holds(j: Json, k: int)
    ensures
        match j {
            Json::Null => j@ == JsonModel::Null,
            Json::Bool(b) => j@ == JsonModel::Bool(b),
            Json::Unsigned(n) => j@ == JsonModel::Unsigned(n),
            Json::Negative(n) => j@ == JsonModel::Negative(n),
            Json::Float { text } => j@ == JsonModel::Float(text@),
            Json::String(s) => j@ == JsonModel::Text(s@),
            Json::Array(v) => j@ matches JsonModel::Array(m) && m.len() == v@.len() && (0 <= k
                < v@.len() ==> m[k] == v@[k]@),
            Json::Object(v) => j@ matches JsonModel::Object(m) && m.len() == v@.len() && (0 <= k
                < v@.len() ==> m[k] == (v@[k].0@, v@[k].1@)),
        },
{
    match j {
        Json::Array(v) => crate::json::array_view(v),
        Json::Object(v) => crate::json::object_view(v),
        _ => {},
    }
}

/// Every JSON value without a name twice in an object is equal to itself.
pub proof fn json_equals_itself(a: JsonModel)
    ensures
        same_json(a, a),
    decreases a, 0int,
{
    match a {
        JsonModel::Array(x) => {
            assert forall|i: int| 0 <= i < x.len() implies same_json(x[i], #[trigger] x[i]) by {
                json_equals_itself(x[i]);
            }
        },
        JsonModel::Object(x) => {
            assert forall|i: int| 0 <= i < x.len() implies has_member(
                #[trigger] x[i].0,
                x[i].1,
                x,
            ) by {
                json_equals_itself(x[i].1);
                assert(x[i].0 == x[i].0 && same_json(x[i].1, x[i].1));
            }
        },
        _ => {},
    }
}

/// Equal JSON values are of one kind. Scalars are equal where they hold the same, arrays where they
/// hold equal items in the same order, objects where they hold equal values under the same names.
pub proof fn equal_json_holds_the_same(a: JsonModel, b: JsonModel, k: int)
    requires
        same_json(a, b),
    ensures
        a is Null <==> b is Null,
        a is Bool <==> b is Bool,
        a is Unsigned <==> b is Unsigned,
        a is Negative <==> b is Negative,
        a is Float <==> b is Float,
        a is Text <==> b is Text,
        a is Array <==> b is Array,
        a is Object <==> b is Object,
        a is Bool || a is Unsigned || a is Negative || a is Text ==> a == b,
        a matches JsonModel::Array(x) ==> x.len() == b->Array_0.len() && (0 <= k < x.len()
            ==> same_json(x[k], b->Array_0[k])),
        a matches JsonModel::Object(x) ==> x.len() == b->Object_0.len() && (0 <= k < x.len()
            ==> exists|i: int|
            0 <= i < b->Object_0.len() && (#[trigger] b->Object_0[i]).0 == x[k].0 && same_json(
                x[k].1,
                b->Object_0[i].1,
            )),
{
    match a {
        JsonModel::Array(x) => {
            let y = b->Array_0;
            if 0 <= k < x.len() {
                assert(same_json(x[k], y[k]));
            }
        },
        JsonModel::Object(x) => {
            let y = b->Object_0;
            if 0 <= k < x.len() {
                assert(has_member(x[k].0, x[k].1, y));
            }
        },
        _ => {},
    }
}

/// The number that a JSON value holds is the one it is, where it has at most 63 bits and a sign.
pub proof fn json_numbers_are_theirs(n: u64, m: i64, s: Seq<char>, b: bool)
    ensures
        n <= 0x7fff_ffff_ffff_ffff ==> json_i64(JsonModel::Unsigned(n)) == Some(n as i64),
        n > 0x7fff_ffff_ffff_ffff ==> json_i64(JsonModel::Unsigned(n)) is None,
        json_i64(JsonModel::Negative(m)) == Some(m),
        json_i64(JsonModel::Text(s)) is None,
        json_i64(JsonModel::Float(s)) is None,
        json_i64(JsonModel::Bool(b)) is None,
        json_i64(JsonModel::Null) is None,
{
}

/// A JSON text is written between quotes. Characters of it are written as they are, but for quotes,
/// backslashes and control characters, which a backslash leads.
pub proof fn json_texts_are_quoted(s: Seq<char>, c: char)
    ensures
        compact(JsonModel::Text(s)) == json_string(s),
        json_string(s).len() >= 2,
        json_string(s)[0] == '"',
        json_string(s).last() == '"',
        json_string(s.push(c)) == json_string(s).drop_last() + json_char(c) + seq!['"'],
        c != '"' && c != '\\' && c as int >= 32 ==> json_char(c) == seq![c],
        c == '"' || c == '\\' ==> json_char(c) == seq!['\\', c],
        (c as int) < 32 ==> json_char(c).len() >= 2 && json_char(c)[0] == '\\' && json_char(c)[1]
            == (if c as int == 8 {
            'b'
        } else if c as int == 9 {
            't'
        } else if c as int == 10 {
            'n'
        } else if c as int == 12 {
            'f'
        } else if c as int == 13 {
            'r'
        } else {
            'u'
        }),
{
    assert(s.push(c).drop_last() == s);
    assert(json_string(s).drop_last() == seq!['"'] + json_chars(s));
    assert(json_string(s.push(c)) == json_string(s).drop_last() + json_char(c) + seq!['"']);
}

/// A YAML value stands for what it holds.
pub proof fn yaml_stands_for_what_it_holds(y: Yaml, k: int)
    ensures
        match y {
            Yaml::Null => y@ == YamlModel::Null,
            Yaml::Bool(b) => y@ == YamlModel::Bool(b),
            Yaml::Number(YamlNumber::Unsigned(n)) => y@ == YamlModel::Unsigned(n),
            Yaml::Number(YamlNumber::Negative(n)) => y@ == YamlModel::Negative(n),
            Yaml::Number(YamlNumber::Float { text }) => y@ == YamlModel::Float(text@),
            Yaml::String(s) => y@ == YamlModel::Text(s@),
            Yaml::Sequence(v) => y@ matches YamlModel::Sequence(m) && m.len() == v@.len() && (0
                <= k < v@.len() ==> m[k] == v@[k]@),
            Yaml::Mapping(v) => y@ matches YamlModel::Mapping(m) && m.len() == v@.len() && (0 <= k
                < v@.len() ==> m[k] == (v@[k].0@, v@[k].1@)),
            Yaml::Tagged { tag, value } => y@ matches YamlModel::Tagged(t, v) && t == tag@ && *v
                == (*value)@,
        },
{
    reveal_with_fuel(crate::yaml::yaml_model, 2);
    match y {
        Yaml::Sequence(v) => crate::yaml::sequence_view(v),
        Yaml::Mapping(v) => crate::yaml::mapping_view(v),
        _ => {},
    }
}

/// Equal YAML values are of one kind and hold the same.
pub proof fn equal_yaml_holds_the_same(a: YamlModel, b: YamlModel, k: int)
    requires
        same_yaml(a, b),
    ensures
        a is Null <==> b is Null,
        a is Float <==> b is Float,
        a is Bool || a is Unsigned || a is Negative || a is Text || b is Bool || b is Unsigned
            || b is Negative || b is Text ==> a == b,
        a is Sequence <==> b is Sequence,
        a is Mapping <==> b is Mapping,
        a is Tagged <==> b is Tagged,
        a matches YamlModel::Sequence(x) ==> x.len() == b->Sequence_0.len() && (0 <= k < x.len()
            ==> same_yaml(x[k], b->Sequence_0[k])),
        a matches YamlModel::Mapping(x) ==> x.len() == b->Mapping_0.len() && (0 <= k < x.len()
            ==> exists|i: int|
            0 <= i < b->Mapping_0.len() && same_yaml(x[k].0, (#[trigger] b->Mapping_0[i]).0)
                && same_yaml(x[k].1, b->Mapping_0[i].1)),
        a matches YamlModel::Tagged(t, v) ==> b->Tagged_0 == t && same_yaml(*v, *b->Tagged_1),
{
    match a {
        YamlModel::Sequence(x) => {
            let y = b->Sequence_0;
            if 0 <= k < x.len() {
                assert(same_yaml(x[k], y[k]));
            }
        },
        YamlModel::Mapping(x) => {
            let y = b->Mapping_0;
            if 0 <= k < x.len() {
                assert(has_entry(x[k], y));
            }
        },
        _ => {},
    }
}

/// Every YAML value is equal to itself.
pub proof fn yaml_equals_itself(a: YamlModel)
    ensures
        same_yaml(a, a),
    decreases a, 0int,
{
    match a {
        YamlModel::Sequence(x) => {
            assert forall|i: int| 0 <= i < x.len() implies same_yaml(x[i], #[trigger] x[i]) by {
                yaml_equals_itself(x[i]);
            }
        },
        YamlModel::Mapping(x) => {
            assert forall|i: int| 0 <= i < x.len() implies has_entry(#[trigger] x[i], x) by {
                yaml_equals_itself(x[i].0);
                yaml_equals_itself(x[i].1);
                assert(same_yaml(x[i].0, x[i].0) && same_yaml(x[i].1, x[i].1));
            }
        },
        YamlModel::Tagged(_, v) => yaml_equals_itself(*v),
        _ => {},
    }
}

/// Tags do not count for what a value is.
pub proof fn tags_do_not_count(tag: Seq<char>, v: YamlModel, k: Seq<char>)
    ensures
        ({
            let y = YamlModel::Tagged(tag, Box::new(v));
            &&& text_of(y) == text_of(v)
            &&& unsigned_of(y) == unsigned_of(v)
            &&& entries_of(y) == entries_of(v)
            &&& field(y, k) == field(v, k)
        }),
        v matches YamlModel::Text(s) ==> text_of(v) == Some(s),
        text_of(v) is Some && v !is Tagged ==> v is Text,
        v matches YamlModel::Unsigned(n) ==> unsigned_of(v) == Some(n),
        unsigned_of(v) is Some && v !is Tagged ==> v is Unsigned,
        v matches YamlModel::Mapping(m) ==> entries_of(v) == Some(m),
        entries_of(v) is Some && v !is Tagged ==> v is Mapping,
{
}

/// The value under a name is that of the first entry with the name as its key.
pub proof fn fields_are_looked_up_by_name(m: Seq<(YamlModel, YamlModel)>, k: Seq<char>, i: int)
    ensures
        0 <= i < m.len() && m[i].0 == YamlModel::Text(k) && (forall|j: int|
            0 <= j < i ==> (#[trigger] m[j]).0 != YamlModel::Text(k)) ==> field(
            YamlModel::Mapping(m),
            k,
        ) == Some(m[i].1),
        (forall|j: int| 0 <= j < m.len() ==> (#[trigger] m[j]).0 != YamlModel::Text(k)) ==> field(
            YamlModel::Mapping(m),
            k,
        ) is None,
{
    key_index_bounds(m, k, 0);
}

/// An overlay replaces what it is put on, unless both are mappings.
pub proof fn overlays_replace(base: YamlModel, overlay: YamlModel)
    ensures
        base !is Mapping || overlay !is Mapping ==> merged(base, overlay) == overlay,
        base is Mapping && overlay is Mapping ==> merged(base, overlay) is Mapping,
{
}

/// Where both are mappings, what only the base or only the overlay holds under a name stays, and
/// what both hold is merged: nested mappings in turn, anything else replaced by the overlay's.
pub proof fn mappings_are_merged_by_name(
    b: Seq<(YamlModel, YamlModel)>,
    o: Seq<(YamlModel, YamlModel)>,
    k: Seq<char>,
)
    requires
        text_keys(b),
        text_keys(o),
    ensures
        ({
            let base = YamlModel::Mapping(b);
            let overlay = YamlModel::Mapping(o);
            let r = merged(base, overlay);
            &&& field(overlay, k) is None ==> field(r, k) == field(base, k)
            &&& field(base, k) is None ==> field(r, k) == field(overlay, k)
            &&& field(overlay, k) is Some && field(overlay, k)->0 !is Mapping ==> field(r, k)
                == field(overlay, k)
            &&& field(base, k) is Some && field(base, k)->0 !is Mapping && field(overlay, k) is Some
                ==> field(r, k) == field(overlay, k)
            &&& field(base, k) is Some && field(overlay, k) is Some ==> field(r, k) == Some(
                merged(field(base, k)->0, field(overlay, k)->0),
            )
        }),
{
    merge_is_memberwise(b, o, k);
}

/// The type of a value of a property is that of the value.
pub proof fn values_have_their_type(v: TypedPropertyValue)
    ensures
        v is I8 ==> ptp_type_of(v) == "i8"@,
        v is I16 ==> ptp_type_of(v) == "i16"@,
        v is I32 ==> ptp_type_of(v) == "i32"@,
        v is I64 ==> ptp_type_of(v) == "i64"@,
        v is I128 ==> ptp_type_of(v) == "i128"@,
        v is U8 ==> ptp_type_of(v) == "u8"@,
        v is U16 ==> ptp_type_of(v) == "u16"@,
        v is U32 ==> ptp_type_of(v) == "u32"@,
        v is U64 ==> ptp_type_of(v) == "u64"@,
        v is U128 ==> ptp_type_of(v) == "u128"@,
        v is String ==> ptp_type_of(v) == "str"@,
{
}

/// A number that is held as one is that number, and a text is none.
pub proof fn held_numbers_are_theirs(v: TypedPropertyValue)
    ensures
        v matches TypedPropertyValue::I8 { value } ==> typed_i64(v) == Some(value as i64),
        v matches TypedPropertyValue::I16 { value } ==> typed_i64(v) == Some(value as i64),
        v matches TypedPropertyValue::I32 { value } ==> typed_i64(v) == Some(value as i64),
        v matches TypedPropertyValue::U8 { value } ==> typed_i64(v) == Some(value as i64),
        v matches TypedPropertyValue::U16 { value } ==> typed_i64(v) == Some(value as i64),
        v matches TypedPropertyValue::U32 { value } ==> typed_i64(v) == Some(value as i64),
        v is String ==> typed_i64(v) is None,
{
}

/// What a line says of itself is what its record says.
pub proof fn lines_say_what_their_record_says(l: ObservationLine)
    ensures
        l matches ObservationLine::BundleHeader(h) ==> line_common(l) is None && line_schema(l)
            == h.schema@ && line_run(l) == h.run_id@ && line_record(l) == h.record_id@
            && line_ordinal(l) == h.ordinal,
        l matches ObservationLine::Lifecycle(v) ==> line_common(l) == Some(v.common),
        l matches ObservationLine::BleGatt(v) ==> line_common(l) == Some(v.common),
        l matches ObservationLine::PtpTransaction(v) ==> line_common(l) == Some(v.common),
        l matches ObservationLine::PtpEvent(v) ==> line_common(l) == Some(v.common),
        l matches ObservationLine::HttpExchange(v) ==> line_common(l) == Some(v.common),
        l matches ObservationLine::Capability(v) ==> line_common(l) == Some(v.common),
        l matches ObservationLine::ActionInvocation(v) ==> line_common(l) == Some(v.common),
        line_common(l) matches Some(c) ==> line_schema(l) == c.schema@ && line_run(l) == c.run_id@
            && line_record(l) == c.record_id@ && line_ordinal(l) == c.ordinal,
{
}

/// A number of 64 bits or more is held by its decimal text, within the bounds of its type; others
/// are held as they are.
pub proof fn long_numbers_are_held_by_their_text(v: TypedPropertyValue, n: int)
    ensures
        v matches TypedPropertyValue::I64 { value } && value@ == decimal(n)
            ==> (valid_representation(v) <==> i64::MIN <= n <= i64::MAX),
        v matches TypedPropertyValue::I128 { value } && value@ == decimal(n)
            ==> (valid_representation(v) <==> i128::MIN <= n <= i128::MAX),
        v matches TypedPropertyValue::U64 { value } && value@ == decimal(n)
            ==> (valid_representation(v) <==> 0 <= n <= u64::MAX),
        v matches TypedPropertyValue::U128 { value } && value@ == decimal(n)
            ==> (valid_representation(v) <==> 0 <= n <= u128::MAX),
        v is I8 || v is I16 || v is I32 || v is U8 || v is U16 || v is U32 || v is String
            ==> valid_representation(v),
{
    decimals_read_back(n, i64::MIN as int, i64::MAX as int);
    decimals_read_back(n, i128::MIN as int, i128::MAX as int);
    decimals_read_back(n, 0, u64::MAX as int);
    decimals_read_back(n, 0, u128::MAX as int);
}

/// A number that is held by its text is the number that the text writes, where it has 64 bits.
pub proof fn long_numbers_are_theirs(v: TypedPropertyValue, n: int)
    ensures
        v matches TypedPropertyValue::I64 { value } && value@ == decimal(n) && i64::MIN <= n
            <= i64::MAX ==> typed_i64(v) == Some(n as i64),
        v matches TypedPropertyValue::I128 { value } && value@ == decimal(n) && i64::MIN <= n
            <= i64::MAX ==> typed_i64(v) == Some(n as i64),
        v matches TypedPropertyValue::I128 { value } && value@ == decimal(n) && !(i64::MIN <= n
            <= i64::MAX) ==> typed_i64(v) is None,
        v matches TypedPropertyValue::U64 { value } && value@ == decimal(n) && 0 <= n <= i64::MAX
            ==> typed_i64(v) == Some(n as i64),
        v matches TypedPropertyValue::U128 { value } && value@ == decimal(n) && 0 <= n <= i64::MAX
            ==> typed_i64(v) == Some(n as i64),
        v matches TypedPropertyValue::U64 { value } && value@ == decimal(n) && n > i64::MAX
            ==> typed_i64(v) is None,
{
    decimals_read_back(n, i128::MIN as int, i128::MAX as int);
    if n >= 0 {
        written_numbers_read_back(n as nat, 10, u128::MAX as int);
    }
}

/// What is behind does not count for how the first items are written.
proof fn items_alike(a: Seq<JsonModel>, b: Seq<JsonModel>, n: int)
    requires
        0 <= n <= a.len() <= b.len(),
        forall|i: int| 0 <= i < n ==> #[trigger] b[i] == a[i],
    ensures
        compact_items(a, n) == compact_items(b, n),
    decreases n,
{
    if n > 0 {
        assert(b[n - 1] == a[n - 1]);
        assert(b[0] == a[0]);
        items_alike(a, b, n - 1);
    }
}

/// What is behind does not count for how the first members are written.
proof fn members_alike(a: Seq<(Seq<char>, JsonModel)>, b: Seq<(Seq<char>, JsonModel)>, n: int)
    requires
        0 <= n <= a.len() <= b.len(),
        forall|i: int| 0 <= i < n ==> #[trigger] b[i] == a[i],
    ensures
        compact_members(a, n) == compact_members(b, n),
    decreases n,
{
    if n > 0 {
        assert(b[n - 1] == a[n - 1]);
        assert(b[0] == a[0]);
        members_alike(a, b, n - 1);
    }
}

/// Scalars are written as words and numbers; an array between brackets and an object between braces,
/// item by item in their order, with commas between, a member by its name, a colon and its value.
pub proof fn json_is_written_item_by_item(
    v: Seq<JsonModel>,
    x: JsonModel,
    m: Seq<(Seq<char>, JsonModel)>,
    name: Seq<char>,
    n: u64,
) -> (r: (Seq<char>, Seq<char>))
    ensures
        compact(JsonModel::Null) == "null"@,
        compact(JsonModel::Bool(true)) == "true"@,
        compact(JsonModel::Bool(false)) == "false"@,
        compact(JsonModel::Unsigned(n)) == decimal(n as int),
        compact(JsonModel::Array(v)) == "["@ + r.0 + "]"@,
        compact(JsonModel::Object(m)) == "{"@ + r.1 + "}"@,
        v.len() == 0 ==> r.0.len() == 0 && compact(JsonModel::Array(v.push(x))) == "["@ + compact(x)
            + "]"@,
        v.len() > 0 ==> compact(JsonModel::Array(v.push(x))) == "["@ + (r.0 + ","@ + compact(x))
            + "]"@,
        m.len() == 0 ==> r.1.len() == 0 && compact(JsonModel::Object(m.push((name, x)))) == "{"@ + (
        json_string(name) + ":"@ + compact(x)) + "}"@,
        m.len() > 0 ==> compact(JsonModel::Object(m.push((name, x)))) == "{"@ + (r.1 + ","@ + (
        json_string(name) + ":"@ + compact(x))) + "}"@,
{
    let w = v.push(x);
    let o = m.push((name, x));
    items_alike(v, w, v.len() as int);
    members_alike(m, o, m.len() as int);
    assert(w[v.len() as int] == x);
    assert(o[m.len() as int] == (name, x));
    assert(compact(JsonModel::Array(w)) == "["@ + compact_items(w, w.len() as int) + "]"@);
    assert(compact(JsonModel::Object(o)) == "{"@ + compact_members(o, o.len() as int) + "}"@);
    (compact_items(v, v.len() as int), compact_members(m, m.len() as int))
}

} // verus!
