//! What the written forms of an index are read as.

use crate::index::grammar::{
    byte_source, condition, form_entry, form_knows, named_entries, named_transform, notify_until,
    scalar_of, step_value, ByteSourceModel, Form, Operands, UntilModel, ValueModel,
};
use crate::index::types::{predicate_of, Encoding, PredicateOp, Transform};
use crate::text::decimal;
use crate::yaml::{member, text_of, unsigned_of, Yaml, YamlModel};
use vstd::prelude::*;

verus! {

/// A form is one entry, under a name that it knows.
pub proof fn forms_are_one_known_entry(f: Form, m: Seq<(YamlModel, YamlModel)>)
    ensures
        form_entry(f, m) is Ok <==> m.len() == 1 && text_of(m[0].0) is Some && form_knows(
            f,
            text_of(m[0].0)->0,
        ),
        form_entry(f, m) matches Ok(e) ==> text_of(m[0].0) == Some(e.0) && e.1 == m[0].1,
{
}

/// The names of the small forms.
pub proof fn forms_know_their_names(s: Seq<char>)
    ensures
        form_knows(Form::AwaitSource, s) <==> s == "read"@ || s == "notify"@,
        form_knows(Form::AcquireSource, s) <==> s == "bleAdvert"@ || s == "bleRead"@ || s
            == "userPrompt"@,
        form_knows(Form::AwaitUntilSource, s) <==> s == "poll"@ || s == "event"@,
        form_knows(Form::Loop, s) <==> s == "forEach"@ || s == "chunk"@,
        form_knows(Form::Transform, s) <==> s == "bitOr"@ || s == "bitAnd"@ || s == "slice"@ || s
            == "dropPrefix"@ || s == "reverseBytes"@ || s == "uuidFromBytes"@ || s == "bits"@,
{
}

/// A scalar is its text: a word for a truth value, digits for a number. Nothing else is one.
pub proof fn scalars_are_their_text(y: YamlModel)
    ensures
        y matches YamlModel::Text(s) ==> scalar_of(y) == Some(s),
        y == YamlModel::Bool(true) ==> scalar_of(y) == Some("true"@),
        y == YamlModel::Bool(false) ==> scalar_of(y) == Some("false"@),
        y matches YamlModel::Unsigned(n) ==> scalar_of(y) == Some(decimal(n as int)),
        y matches YamlModel::Negative(n) ==> scalar_of(y) == Some(decimal(n as int)),
        y matches YamlModel::Float(s) ==> scalar_of(y) == Some(s),
        y is Null || y is Sequence || y is Mapping || y is Tagged ==> scalar_of(y) is None,
{
}

/// A condition is one comparison of one field with a scalar.
pub proof fn conditions_are_one_comparison(raw: Seq<(String, Vec<(String, Yaml)>)>)
    ensures
        condition(raw) is Ok <==> raw.len() == 1 && raw[0].1@.len() == 1 && predicate_of(
            raw[0].1@[0].0@,
        ) is Some && scalar_of(raw[0].1@[0].1@) is Some,
        condition(raw) matches Ok(c) ==> c.0 == raw[0].0@ && predicate_of(raw[0].1@[0].0@) == Some(
            c.1,
        ) && scalar_of(raw[0].1@[0].1@) == Some(c.2),
{
}

/// The tokens of the comparisons.
pub proof fn comparisons_have_their_tokens(s: Seq<char>)
    ensures
        predicate_of("eq"@) == Some(PredicateOp::Eq),
        predicate_of("ne"@) == Some(PredicateOp::Ne),
        predicate_of("gt"@) == Some(PredicateOp::Gt),
        predicate_of("gte"@) == Some(PredicateOp::Gte),
        predicate_of("lt"@) == Some(PredicateOp::Lt),
        predicate_of("lte"@) == Some(PredicateOp::Lte),
        predicate_of("in"@) == Some(PredicateOp::In),
        s != "eq"@ && s != "ne"@ && s != "gt"@ && s != "gte"@ && s != "lt"@ && s != "lte"@ && s
            != "in"@ ==> predicate_of(s) is None,
{
    crate::index::types::predicate_tokens_round_trip(PredicateOp::Eq, s);
    crate::index::types::predicate_tokens_round_trip(PredicateOp::Ne, s);
    crate::index::types::predicate_tokens_round_trip(PredicateOp::Gt, s);
    crate::index::types::predicate_tokens_round_trip(PredicateOp::Gte, s);
    crate::index::types::predicate_tokens_round_trip(PredicateOp::Lt, s);
    crate::index::types::predicate_tokens_round_trip(PredicateOp::Lte, s);
    crate::index::types::predicate_tokens_round_trip(PredicateOp::In, s);
}

/// The names of the transforms differ.
proof fn transform_names_differ()
    ensures
        "bitOr"@ != "bitAnd"@,
        "bitOr"@ != "dropPrefix"@,
        "bitOr"@ != "reverseBytes"@,
        "bitOr"@ != "uuidFromBytes"@,
        "bitOr"@ != "slice"@,
        "bitOr"@ != "bits"@,
        "bitAnd"@ != "dropPrefix"@,
        "bitAnd"@ != "reverseBytes"@,
        "bitAnd"@ != "uuidFromBytes"@,
        "bitAnd"@ != "slice"@,
        "bitAnd"@ != "bits"@,
        "dropPrefix"@ != "reverseBytes"@,
        "dropPrefix"@ != "uuidFromBytes"@,
        "dropPrefix"@ != "slice"@,
        "dropPrefix"@ != "bits"@,
        "reverseBytes"@ != "uuidFromBytes"@,
        "reverseBytes"@ != "slice"@,
        "reverseBytes"@ != "bits"@,
        "uuidFromBytes"@ != "slice"@,
        "uuidFromBytes"@ != "bits"@,
        "slice"@ != "bits"@,
{
    reveal_strlit("bitOr");
    reveal_strlit("bitAnd");
    reveal_strlit("dropPrefix");
    reveal_strlit("reverseBytes");
    reveal_strlit("uuidFromBytes");
    reveal_strlit("slice");
    reveal_strlit("bits");
    assert("bitOr"@.len() == 5);
    assert("bitAnd"@.len() == 6);
    assert("dropPrefix"@.len() == 10);
    assert("reverseBytes"@.len() == 12);
    assert("uuidFromBytes"@.len() == 13);
    assert("slice"@.len() == 5);
    assert("bits"@.len() == 4);
    assert("bitOr"@[0] == 'b');
    assert("slice"@[0] == 's');
}

/// A transform is read by its name: masks and prefixes with a number, turns of bytes without
/// anything, windows and bit fields with what was read of them, unless they can hold nothing.
pub proof fn transforms_are_read_by_name(
    value: YamlModel,
    operands: Operands,
    n: u64,
    at: usize,
    length: Option<usize>,
    mask: u64,
    shift: u32,
)
    ensures
        unsigned_of(value) == Some(n) ==> named_transform("bitOr"@, value, operands) == Ok::<
            Transform,
            Seq<char>,
        >(Transform::BitOr(n)),
        unsigned_of(value) == Some(n) ==> named_transform("bitAnd"@, value, operands) == Ok::<
            Transform,
            Seq<char>,
        >(Transform::BitAnd(n)),
        unsigned_of(value) == Some(n) ==> named_transform("dropPrefix"@, value, operands) == Ok::<
            Transform,
            Seq<char>,
        >(Transform::DropPrefix(n as usize)),
        unsigned_of(value) is None ==> named_transform("bitOr"@, value, operands) is Err
            && named_transform("bitAnd"@, value, operands) is Err && named_transform(
            "dropPrefix"@,
            value,
            operands,
        ) is Err,
        value is Null || value == YamlModel::Mapping(Seq::empty()) ==> named_transform(
            "reverseBytes"@,
            value,
            operands,
        ) == Ok::<Transform, Seq<char>>(Transform::ReverseBytes),
        value is Null || value == YamlModel::Mapping(Seq::empty()) ==> named_transform(
            "uuidFromBytes"@,
            value,
            operands,
        ) == Ok::<Transform, Seq<char>>(Transform::UuidFromBytes),
        value is Text || value is Unsigned || value is Bool ==> named_transform(
            "reverseBytes"@,
            value,
            operands,
        ) is Err && named_transform("uuidFromBytes"@, value, operands) is Err,
        length != Some(0usize) ==> named_transform(
            "slice"@,
            value,
            (Operands::Slice { at, length }),
        ) == Ok::<Transform, Seq<char>>((Transform::Slice { at, length })),
        length == Some(0usize) ==> named_transform(
            "slice"@,
            value,
            (Operands::Slice { at, length }),
        ) is Err,
        mask != 0 && shift < 64 ==> named_transform(
            "bits"@,
            value,
            (Operands::Bits { mask, shift }),
        ) == Ok::<Transform, Seq<char>>((Transform::Bits { mask, shift })),
        mask == 0 || shift >= 64 ==> named_transform(
            "bits"@,
            value,
            (Operands::Bits { mask, shift }),
        ) is Err,
{
    transform_names_differ();
}

/// The source of bytes is read by its name: the data of the manufacturer and the local name bare, a
/// record by its type, up to 255, and the data of a service by its id.
pub proof fn sources_of_bytes_are_read_by_name(m: Seq<(YamlModel, YamlModel)>, v: YamlModel, n: u64, s: Seq<char>)
    ensures
        byte_source(YamlModel::Text("manufacturerData"@)) == Ok::<ByteSourceModel, Seq<char>>(
            ByteSourceModel::ManufacturerData,
        ),
        byte_source(YamlModel::Text("localName"@)) == Ok::<ByteSourceModel, Seq<char>>(
            ByteSourceModel::LocalName,
        ),
        s != "manufacturerData"@ && s != "localName"@ ==> byte_source(YamlModel::Text(s)) is Err,
        m.len() != 1 ==> byte_source(YamlModel::Mapping(m)) is Err,
        unsigned_of(v) == Some(n) && n <= 255 ==> byte_source(
            YamlModel::Mapping(seq![(YamlModel::Text("rawAdRecord"@), v)]),
        ) == Ok::<ByteSourceModel, Seq<char>>(ByteSourceModel::RawAdRecord(n as u8)),
        unsigned_of(v) == Some(n) && n > 255 ==> byte_source(
            YamlModel::Mapping(seq![(YamlModel::Text("rawAdRecord"@), v)]),
        ) is Err,
        text_of(v) == Some(s) ==> byte_source(
            YamlModel::Mapping(seq![(YamlModel::Text("serviceData"@), v)]),
        ) == Ok::<ByteSourceModel, Seq<char>>(ByteSourceModel::ServiceData(s)),
        text_of(v) is None ==> byte_source(
            YamlModel::Mapping(seq![(YamlModel::Text("serviceData"@), v)]),
        ) is Err,
        v is Null || v is Bool || v is Unsigned || v is Sequence ==> byte_source(v) is Err,
{
    reveal_strlit("manufacturerData");
    reveal_strlit("localName");
    reveal_strlit("rawAdRecord");
    reveal_strlit("serviceData");
    assert("manufacturerData"@.len() == 16);
    assert("localName"@.len() == 9);
    assert("rawAdRecord"@[0] == 'r');
    assert("serviceData"@[0] == 's');
}

/// A wait for a notification ends with any, with an equal one, or with one that matches; an equal
/// one is asked for first.
pub proof fn waits_end_by_their_form(
    m: Seq<(YamlModel, YamlModel)>,
    e: Option<Encoding>,
    s: Seq<char>,
)
    ensures
        ({
            let encoding = Ok::<Option<Encoding>, String>(e);
            let r = notify_until(YamlModel::Mapping(m), encoding);
            &&& notify_until(YamlModel::Text("any"@), encoding) == Ok::<UntilModel, Seq<char>>(
                UntilModel::Any,
            )
            &&& s != "any"@ ==> notify_until(YamlModel::Text(s), encoding) is Err
            &&& member(m, "equals"@) is Some ==> r == Ok::<UntilModel, Seq<char>>(
                UntilModel::Equals(member(m, "equals"@)->0, e),
            )
            &&& member(m, "equals"@) is None && member(m, "matches"@) is Some && text_of(
                member(m, "matches"@)->0,
            ) == Some(s) ==> r == Ok::<UntilModel, Seq<char>>(UntilModel::Matches(s))
            &&& member(m, "equals"@) is None && member(m, "matches"@) is None ==> r is Err
            &&& notify_until(YamlModel::Null, encoding) is Err
        }),
{
}

/// The value of a step is a literal, a template, a capture or a slot, the first of these that is
/// there.
pub proof fn values_of_steps_are_read_in_order(
    m: Seq<(YamlModel, YamlModel)>,
    e: Option<Encoding>,
    t: Vec<Transform>,
    s: Seq<char>,
)
    ensures
        ({
            let r = step_value(
                m,
                Ok::<Option<Encoding>, String>(e),
                Ok::<Vec<Transform>, String>(t),
            );
            let literal = member(m, "literal"@);
            let template = member(m, "template"@);
            let captured = member(m, "captured"@);
            let runtime = member(m, "runtime"@);
            &&& literal is Some ==> r == Ok::<ValueModel, Seq<char>>(
                ValueModel::Literal(literal->0),
            )
            &&& literal is None && template is Some && text_of(template->0) == Some(s) ==> r
                == Ok::<ValueModel, Seq<char>>(ValueModel::Template(s, t@))
            &&& literal is None && template is None && captured is Some && text_of(captured->0)
                == Some(s) ==> r == Ok::<ValueModel, Seq<char>>(ValueModel::Captured(s, t@))
            &&& literal is None && template is None && captured is None && runtime is Some
                && text_of(runtime->0) == Some(s) ==> r == Ok::<ValueModel, Seq<char>>(
                ValueModel::Runtime(s, e, t@),
            )
            &&& literal is None && template is None && captured is None && runtime is None ==> r
                is Err
        }),
{
}

/// Named entries are all of the mapping, in its order.
pub proof fn named_entries_keep_their_order(m: Seq<(YamlModel, YamlModel)>, n: int, k: int)
    requires
        0 <= k < n <= m.len(),
        named_entries(m, n) is Ok,
    ensures
        named_entries(m, n)->Ok_0.len() == n,
        text_of(m[k].0) == Some(named_entries(m, n)->Ok_0[k].0),
        named_entries(m, n)->Ok_0[k].1 == m[k].1,
    decreases n,
{
    if k < n - 1 {
        named_entries_keep_their_order(m, n - 1, k);
    } else if n > 1 {
        named_entries_keep_their_order(m, n - 1, 0);
    }
}

} // verus!
