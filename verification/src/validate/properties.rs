//! Rules on operations and properties.

use crate::error::ManifestError;
use crate::model::{
    hex_code, member_code, member_encoding, parse_hex_code, widths_of, CameraManifest,
    DescriptorValue, Operation, OperationHandler, Payload, Property, RecordMember,
    RecordValueEncoding, RecordValueLiteral, StructuredTextField,
};
use crate::query::coded;
use crate::text::{
    decimal, digits_of, i64_text, join2, join3, join4, join5, number_text, pad_zero, same, trimmed,
    u64_text, zero_padded,
};
use crate::validate::steps::blank;
use crate::validate::{first, index_path, indexed, reports};
use vstd::prelude::*;

verus! {

/// Whether an optional text is `name`.
pub open spec fn is_text(o: Option<String>, name: Seq<char>) -> bool {
    o matches Some(t) && t@ == name
}

/// Whether an optional text is `name`.
pub(crate) fn option_is(o: &Option<String>, name: &str) -> (r: bool)
    ensures
        r == is_text(*o, name@),
{
    match o {
        Some(t) => same(t.as_str(), name),
        None => false,
    }
}

/// A 16-bit code as `0x` and four digits.
pub open spec fn code_text(code: u16) -> Seq<char> {
    "0x"@ + zero_padded(digits_of(code as nat, 16), 4)
}

/// A 16-bit code as `0x` and four digits.
pub(crate) fn code_string(code: u16) -> (r: String)
    ensures
        r@ == code_text(code),
{
    join2("0x", pad_zero(number_text(code as u128, 16), 4).as_str())
}

/// The first key, from entry `i` on, that writes no code.
pub open spec fn key_violation<V>(
    s: Seq<(String, V)>,
    before: Seq<char>,
    after: Seq<char>,
    i: int,
) -> Option<Seq<char>>
    decreases s.len() - i,
{
    if i < 0 || i >= s.len() {
        None
    } else if hex_code(s[i].0@) is None {
        Some(before + s[i].0@ + after)
    } else {
        key_violation(s, before, after, i + 1)
    }
}

/// The violation of the rules on the handler of an operation: a property step names a property
/// code, and an object-size handler stands exactly with its block.
pub open spec fn handler_violation(op: Operation, code: Seq<char>) -> Option<Seq<char>> {
    match op.handler {
        Some(OperationHandler::PropertyStep) => match op.property {
            None => Some(
                "operation '"@ + code + "' handler 'property.step' requires a 'property' code"@,
            ),
            Some(p) => if hex_code(p@) is None {
                Some(
                    "operation '"@ + code + "' handler 'property.step' property '"@ + p@
                        + "' is not a hex property code"@,
                )
            } else {
                None
            },
        },
        Some(OperationHandler::ObjectSize) => if op.object_size is None {
            Some(
                "operation '"@ + code
                    + "' handler 'object.size' requires an 'objectSize' block"@,
            )
        } else {
            None
        },
        None => if op.object_size is Some {
            Some(
                "operation '"@ + code
                    + "' declares 'objectSize' without handler 'object.size'"@,
            )
        } else {
            None
        },
    }
}

/// Checks the handler of an operation.
pub(crate) fn require_valid_operation_handler(operation: &Operation, code: &str) -> (r: Result<
    (),
    ManifestError,
>)
    ensures
        reports(r, handler_violation(*operation, code@)),
{
    match operation.handler {
        Some(OperationHandler::PropertyStep) => match &operation.property {
            None => {
                return Err(
                    ManifestError::Contract(
                        join3("operation '", code, "' handler 'property.step' requires a 'property' code"),
                    ),
                );
            },
            Some(p) => {
                if parse_hex_code(p.as_str()).is_none() {
                    return Err(
                        ManifestError::Contract(
                            join5("operation '", code, "' handler 'property.step' property '", p.as_str(), "' is not a hex property code"),
                        ),
                    );
                }
            },
        },
        Some(OperationHandler::ObjectSize) => {
            if operation.object_size.is_none() {
                return Err(
                    ManifestError::Contract(
                        join3("operation '", code, "' handler 'object.size' requires an 'objectSize' block"),
                    ),
                );
            }
        },
        None => {
            if operation.object_size.is_some() {
                return Err(
                    ManifestError::Contract(
                        join3("operation '", code, "' declares 'objectSize' without handler 'object.size'"),
                    ),
                );
            }
        },
    }
    Ok(())
}

/// Whether some value of a descriptor is a text.
pub open spec fn lists_text(v: Seq<DescriptorValue>) -> bool {
    exists|i: int| 0 <= i < v.len() && (#[trigger] v[i]) is Str
}

/// Whether some value of a descriptor is an integer.
pub open spec fn lists_int(v: Seq<DescriptorValue>) -> bool {
    exists|i: int| 0 <= i < v.len() && (#[trigger] v[i]) is Int
}

/// Whether some value is a text, and whether some value is an integer.
fn listed_kinds(v: &Vec<DescriptorValue>) -> (r: (bool, bool))
    ensures
        r.0 == lists_text(v@),
        r.1 == lists_int(v@),
{
    let mut text = false;
    let mut number = false;
    let mut i: usize = 0;
    while i < v.len()
        invariant
            i <= v.len(),
            text == exists|j: int| 0 <= j < i && (#[trigger] v@[j]) is Str,
            number == exists|j: int| 0 <= j < i && (#[trigger] v@[j]) is Int,
        decreases v.len() - i,
    {
        match &v[i] {
            DescriptorValue::Str(_) => {
                proof {
                    assert(v@[i as int] is Str);
                }
                text = true;
            },
            DescriptorValue::Int(_) => {
                proof {
                    assert(v@[i as int] is Int);
                }
                number = true;
            },
        }
        i = i + 1;
    }
    (text, number)
}

/// The violation of the rules on the values of a property: texts for a text property, integers
/// for every other, and integers in a range.
pub open spec fn descriptor_violation(p: Property, code: Seq<char>) -> Option<Seq<char>> {
    let text = is_text(p.ptype, "str"@);
    if text && (p.initial_value matches Some(v) && v is Int) {
        Some(
            "properties."@ + code
                + ".initialValue must be a quoted string for a property with type str"@,
        )
    } else if !text && (p.initial_value matches Some(v) && v is Str) {
        Some(
            "properties."@ + code
                + ".initialValue must be an integer for a property with a numeric type"@,
        )
    } else {
        match p.descriptor {
            None => None,
            Some(d) => {
                let path = "properties."@ + code + ".descriptor.values"@;
                if d.form@ == "range"@ && lists_text(d.values@) {
                    Some(
                        path
                            + " contains a string value but form range requires integer values"@,
                    )
                } else if lists_text(d.values@) && !text {
                    Some(
                        path + " contains a string value but property "@ + code
                            + " does not have type str"@,
                    )
                } else if lists_int(d.values@) && text {
                    Some(
                        path + " contains an integer value but property "@ + code
                            + " has type str; string enum values must be quoted in YAML"@,
                    )
                } else {
                    None
                }
            },
        }
    }
}

/// Checks the initial value and the descriptor of a property.
pub(crate) fn require_valid_descriptor(property: &Property, code: &str) -> (r: Result<
    (),
    ManifestError,
>)
    ensures
        reports(r, descriptor_violation(*property, code@)),
{
    let text = option_is(&property.ptype, "str");
    match &property.initial_value {
        Some(DescriptorValue::Int(_)) => {
            if text {
                return Err(
                    ManifestError::Contract(
                        join3("properties.", code, ".initialValue must be a quoted string for a property with type str"),
                    ),
                );
            }
        },
        Some(DescriptorValue::Str(_)) => {
            if !text {
                return Err(
                    ManifestError::Contract(
                        join3("properties.", code, ".initialValue must be an integer for a property with a numeric type"),
                    ),
                );
            }
        },
        None => {},
    }
    let descriptor = match &property.descriptor {
        None => {
            return Ok(());
        },
        Some(d) => d,
    };
    let path = join3("properties.", code, ".descriptor.values");
    let kinds = listed_kinds(&descriptor.values);
    if same(descriptor.form.as_str(), "range") && kinds.0 {
        return Err(
            ManifestError::Contract(
                join2(path.as_str(), " contains a string value but form range requires integer values"),
            ),
        );
    }
    if kinds.0 && !text {
        return Err(
            ManifestError::Contract(
                join4(path.as_str(), " contains a string value but property ", code, " does not have type str"),
            ),
        );
    }
    if kinds.1 && text {
        return Err(
            ManifestError::Contract(
                join4(path.as_str(), " contains an integer value but property ", code, " has type str; string enum values must be quoted in YAML"),
            ),
        );
    }
    Ok(())
}

/// Whether the names of the fields are filled and no name occurs twice.
pub open spec fn field_names_unique(fields: Seq<StructuredTextField>) -> bool {
    &&& forall|i: int| 0 <= i < fields.len() ==> trimmed((#[trigger] fields[i]).name@).len() > 0
    &&& forall|i: int, j: int|
        #![trigger fields[i], fields[j]]
        0 <= i < j < fields.len() ==> fields[i].name@ != fields[j].name@
}

/// The violation of the rules on a structured-text layout.
pub open spec fn structured_text_violation(p: Property, code: Seq<char>) -> Option<Seq<char>> {
    match p.structured_text {
        None => None,
        Some(layout) => {
            let path = "properties."@ + code + ".structuredText"@;
            if !is_text(p.ptype, "str"@) {
                Some(path + " is valid only for a property with type str"@)
            } else if layout.delimiter@.len() == 0 || layout.fields@.len() == 0 {
                Some(path + " requires a non-empty delimiter and at least one field"@)
            } else if !field_names_unique(layout.fields@) {
                Some(path + ".fields must have unique, non-empty names"@)
            } else {
                None
            }
        },
    }
}

/// Whether the names of the fields are filled and no name occurs twice.
fn names_unique(fields: &Vec<StructuredTextField>) -> (r: bool)
    ensures
        r == field_names_unique(fields@),
{
    let mut i: usize = 0;
    while i < fields.len()
        invariant
            i <= fields.len(),
            forall|k: int| 0 <= k < i ==> trimmed((#[trigger] fields@[k]).name@).len() > 0,
            forall|k: int, j: int|
                #![trigger fields@[k], fields@[j]]
                0 <= k < j < i ==> fields@[k].name@ != fields@[j].name@,
        decreases fields.len() - i,
    {
        if blank(fields[i].name.as_str()) {
            return false;
        }
        let mut j: usize = 0;
        while j < i
            invariant
                j <= i < fields.len(),
                forall|k: int| 0 <= k < j ==> (#[trigger] fields@[k]).name@ != fields@[i as int].name@,
            decreases i - j,
        {
            if same(fields[j].name.as_str(), fields[i].name.as_str()) {
                return false;
            }
            j = j + 1;
        }
        i = i + 1;
    }
    true
}

/// Checks the structured-text layout of a property.
pub(crate) fn require_valid_structured_text(property: &Property, code: &str) -> (r: Result<
    (),
    ManifestError,
>)
    ensures
        reports(r, structured_text_violation(*property, code@)),
{
    let layout = match &property.structured_text {
        None => {
            return Ok(());
        },
        Some(layout) => layout,
    };
    let path = join3("properties.", code, ".structuredText");
    if !option_is(&property.ptype, "str") {
        return Err(
            ManifestError::Contract(
                join2(path.as_str(), " is valid only for a property with type str"),
            ),
        );
    }
    if layout.delimiter.as_str().unicode_len() == 0 || layout.fields.len() == 0 {
        return Err(
            ManifestError::Contract(
                join2(path.as_str(), " requires a non-empty delimiter and at least one field"),
            ),
        );
    }
    if !names_unique(&layout.fields) {
        return Err(
            ManifestError::Contract(
                join2(path.as_str(), ".fields must have unique, non-empty names"),
            ),
        );
    }
    Ok(())
}

/// Whether a value field may have this width.
pub open spec fn value_width(w: u8) -> bool {
    w == 1 || w == 2 || w == 4
}

/// The violation of the rules on the encoding of a record-stream member and on the literal that
/// stands in for it.
pub open spec fn member_value_violation(
    m: CameraManifest,
    member: RecordMember,
    code: u16,
    default_width: u8,
    here: Seq<char>,
) -> Option<Seq<char>> {
    let literal = match member {
        RecordMember::Detailed(d) => d.simulator_value,
        RecordMember::Code(_) => None,
    };
    match member_encoding(member, default_width) {
        RecordValueEncoding::Fixed { width } => if !value_width(width) {
            Some(here + " uses unsupported fixed width "@ + decimal(width as int))
        } else {
            match literal {
                None => None,
                Some(RecordValueLiteral::Unsigned(v)) => if v > (if width == 1 {
                    0xffu32
                } else if width == 2 {
                    0xffff
                } else {
                    0xffff_ffff
                }) {
                    Some(
                        here + ".simulatorValue "@ + decimal(v as int)
                            + " does not fit width "@ + decimal(width as int),
                    )
                } else {
                    None
                },
                Some(_) => Some(
                    here + ".simulatorValue must be unsigned for a fixed encoding"@,
                ),
            }
        },
        RecordValueEncoding::Signed { width } => if !value_width(width) {
            Some(here + " uses unsupported signed width "@ + decimal(width as int))
        } else {
            match literal {
                None => None,
                Some(RecordValueLiteral::String(_)) => Some(
                    here + ".simulatorValue must be numeric for a signed encoding"@,
                ),
                Some(RecordValueLiteral::Unsigned(v)) => signed_violation(v as int, width, here),
                Some(RecordValueLiteral::Signed(v)) => signed_violation(v as int, width, here),
            }
        },
        RecordValueEncoding::PtpString => if literal matches Some(v) && !(v is String) {
            Some(here + ".simulatorValue must be a string for ptpString"@)
        } else if literal is None && !(coded(m.properties, code) matches Some(p) && is_text(
            p.ptype,
            "str"@,
        )) {
            Some(
                here
                    + " ptpString requires simulatorValue when the global property is not type str"@,
            )
        } else {
            None
        },
    }
}

/// The bound of a signed field: the values lie from its negative up to it, itself excluded.
pub open spec fn signed_bound(width: u8) -> int {
    if width == 1 {
        0x80
    } else if width == 2 {
        0x8000
    } else {
        0x8000_0000
    }
}

/// The violation where a value does not fit a signed field.
pub open spec fn signed_violation(v: int, width: u8, here: Seq<char>) -> Option<Seq<char>> {
    if -signed_bound(width) <= v < signed_bound(width) {
        None
    } else {
        Some(
            here + ".simulatorValue "@ + decimal(v) + " does not fit signed width "@ + decimal(
                width as int,
            ),
        )
    }
}

/// Whether a member before `i` writes the code `code`.
pub open spec fn member_before(members: Seq<RecordMember>, code: u16, i: int) -> bool {
    exists|j: int| 0 <= j < i && hex_code(member_code(#[trigger] members[j])@) == Some(code)
}

/// The violation of the rules on the members of a record stream from `i` on.
pub open spec fn members_violation(
    m: CameraManifest,
    payload: Payload,
    path: Seq<char>,
    i: int,
) -> Option<Seq<char>>
    decreases payload.members@.len() - i,
{
    if i < 0 || i >= payload.members@.len() {
        None
    } else {
        let here = indexed(path, ".members["@, i);
        let member = payload.members@[i];
        match hex_code(member_code(member)@) {
            None => Some(
                here + " has invalid property code '"@ + member_code(member)@ + "'"@,
            ),
            Some(code) => if widths_of(payload).1 == 1 && code > 0xff {
                Some(here + " code "@ + code_text(code) + " does not fit codeWidth 1"@)
            } else if member_before(payload.members@, code, i) {
                Some(path + " repeats member code "@ + code_text(code))
            } else {
                first(
                    member_value_violation(m, member, code, widths_of(payload).2, here),
                    members_violation(m, payload, path, i + 1),
                )
            },
        }
    }
}

/// The violation of the rules on the record stream of a property.
pub open spec fn payload_violation(m: CameraManifest, p: Property, code: Seq<char>) -> Option<
    Seq<char>,
> {
    match p.payload {
        None => None,
        Some(payload) => {
            let path = "properties."@ + code + ".payload"@;
            let (c, k, v) = widths_of(payload);
            if !value_width(c) || !(k == 1 || k == 2) || !value_width(v) {
                Some(
                    path + " uses unsupported widths count="@ + decimal(c as int) + " code="@
                        + decimal(k as int) + " value="@ + decimal(v as int),
                )
            } else {
                members_violation(m, payload, path, 0)
            }
        },
    }
}

/// Checks that a value fits a signed field.
fn require_signed_fit(v: i64, width: u8, here: &str) -> (r: Result<(), ManifestError>)
    ensures
        reports(r, signed_violation(v as int, width, here@)),
{
    let bound: i64 = if width == 1 {
        0x80
    } else if width == 2 {
        0x8000
    } else {
        0x8000_0000
    };
    if -bound <= v && v < bound {
        Ok(())
    } else {
        return Err(
            ManifestError::Contract(
                join5(here, ".simulatorValue ", i64_text(v).as_str(), " does not fit signed width ", u64_text(width as u64).as_str()),
            ),
        );
    }
}

/// Checks the encoding of a record-stream member and the literal that stands in for it.
fn require_valid_member_value(
    manifest: &CameraManifest,
    member: &RecordMember,
    code: u16,
    default_width: u8,
    here: &str,
) -> (r: Result<(), ManifestError>)
    ensures
        reports(r, member_value_violation(*manifest, *member, code, default_width, here@)),
{
    let literal = member.simulator_value();
    match member.encoding(default_width) {
        RecordValueEncoding::Fixed { width } => {
            if width != 1 && width != 2 && width != 4 {
                return Err(
                    ManifestError::Contract(
                        join3(here, " uses unsupported fixed width ", u64_text(width as u64).as_str()),
                    ),
                );
            }
            match literal {
                None => {},
                Some(RecordValueLiteral::Unsigned(value)) => {
                    let max: u32 = if width == 1 {
                        0xff
                    } else if width == 2 {
                        0xffff
                    } else {
                        0xffff_ffff
                    };
                    if *value > max {
                        return Err(
                            ManifestError::Contract(
                                join5(here, ".simulatorValue ", u64_text(*value as u64).as_str(), " does not fit width ", u64_text(width as u64).as_str()),
                            ),
                        );
                    }
                },
                Some(_) => {
                    return Err(
                        ManifestError::Contract(
                            join2(here, ".simulatorValue must be unsigned for a fixed encoding"),
                        ),
                    );
                },
            }
        },
        RecordValueEncoding::Signed { width } => {
            if width != 1 && width != 2 && width != 4 {
                return Err(
                    ManifestError::Contract(
                        join3(here, " uses unsupported signed width ", u64_text(width as u64).as_str()),
                    ),
                );
            }
            match literal {
                None => {},
                Some(RecordValueLiteral::String(_)) => {
                    return Err(
                        ManifestError::Contract(
                            join2(here, ".simulatorValue must be numeric for a signed encoding"),
                        ),
                    );
                },
                Some(RecordValueLiteral::Unsigned(value)) => {
                    return require_signed_fit(*value as i64, width, here);
                },
                Some(RecordValueLiteral::Signed(value)) => {
                    return require_signed_fit(*value as i64, width, here);
                },
            }
        },
        RecordValueEncoding::PtpString => {
            match literal {
                Some(RecordValueLiteral::String(_)) => {},
                Some(_) => {
                    return Err(
                        ManifestError::Contract(
                            join2(here, ".simulatorValue must be a string for ptpString"),
                        ),
                    );
                },
                None => {
                    let mutable_text = match manifest.property(code) {
                        Some(p) => option_is(&p.ptype, "str"),
                        None => false,
                    };
                    if !mutable_text {
                        return Err(
                            ManifestError::Contract(
                                join2(here, " ptpString requires simulatorValue when the global property is not type str"),
                            ),
                        );
                    }
                },
            }
        },
    }
    Ok(())
}

/// Whether a member before `i` writes the code `code`.
fn seen_before(members: &Vec<RecordMember>, code: u16, i: usize) -> (r: bool)
    requires
        i <= members.len(),
    ensures
        r == member_before(members@, code, i as int),
{
    let mut j: usize = 0;
    while j < i
        invariant
            j <= i <= members.len(),
            forall|k: int|
                0 <= k < j ==> hex_code(member_code(#[trigger] members@[k])@) != Some(code),
        decreases i - j,
    {
        if let Some(c) = parse_hex_code(members[j].code().as_str()) {
            if c == code {
                return true;
            }
        }
        j = j + 1;
    }
    false
}

/// Checks the record stream of a property.
pub(crate) fn require_valid_payload(
    manifest: &CameraManifest,
    property: &Property,
    code: &str,
) -> (r: Result<(), ManifestError>)
    ensures
        reports(r, payload_violation(*manifest, *property, code@)),
{
    let payload = match &property.payload {
        None => {
            return Ok(());
        },
        Some(payload) => payload,
    };
    let path = join3("properties.", code, ".payload");
    let (count_width, code_width, default_width) = payload.record_widths();
    if (count_width != 1 && count_width != 2 && count_width != 4) || (code_width != 1 && code_width
        != 2) || (default_width != 1 && default_width != 2 && default_width != 4) {
        let head = join4(
            path.as_str(),
            " uses unsupported widths count=",
            u64_text(count_width as u64).as_str(),
            " code=",
        );
        return Err(
            ManifestError::Contract(
                join4(head.as_str(), u64_text(code_width as u64).as_str(), " value=", u64_text(default_width as u64).as_str()),
            ),
        );
    }
    let mut i: usize = 0;
    while i < payload.members.len()
        invariant
            i <= payload.members.len(),
            (count_width, code_width, default_width) == widths_of(*payload),
            payload_violation(*manifest, *property, code@) == members_violation(
                *manifest,
                *payload,
                path@,
                i as int,
            ),
        decreases payload.members.len() - i,
    {
        let here = index_path(path.as_str(), ".members[", i);
        let member = &payload.members[i];
        let code = match parse_hex_code(member.code().as_str()) {
            None => {
                return Err(
                    ManifestError::Contract(
                        join4(here.as_str(), " has invalid property code '", member.code().as_str(), "'"),
                    ),
                );
            },
            Some(code) => code,
        };
        if code_width == 1 && code > 0xff {
            return Err(
                ManifestError::Contract(
                    join4(here.as_str(), " code ", code_string(code).as_str(), " does not fit codeWidth 1"),
                ),
            );
        }
        if seen_before(&payload.members, code, i) {
            return Err(
                ManifestError::Contract(
                    join3(path.as_str(), " repeats member code ", code_string(code).as_str()),
                ),
            );
        }
        match require_valid_member_value(manifest, member, code, default_width, here.as_str()) {
            Err(e) => {
                return Err(e);
            },
            Ok(_) => {},
        }
        i = i + 1;
    }
    Ok(())
}

} // verus!
