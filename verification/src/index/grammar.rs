//! The forms of an index file that are told apart by the name of their one entry.

use crate::index::types::{
    predicate_of, AdvertByteSource, BleNotifyUntil, Encoding, Predicate, PredicateOp,
    StepValue, Transform,
};
use crate::order::{arrange, arranged, models_of};
use crate::text::{
    debug_texts, decimal, i64_text, join2, join3, join5, join7, same, texts_debug, u64_text, views,
};
use crate::yaml::{
    as_text, as_unsigned, entry_models, get_member, mapping_view, member, text_of,
    unsigned_of, Yaml, YamlModel, YamlNumber,
};
use vstd::prelude::*;

verus! {

/// Whether a result is what a form says: a value, or the message on why there is none.
pub open spec fn reads<T, M>(r: Result<T, String>, view: spec_fn(T) -> M, form: Result<M, Seq<char>>) -> bool {
    match form {
        Ok(m) => r matches Ok(v) && view(v) == m,
        Err(t) => r matches Err(e) && e@ == t,
    }
}

/// The forms that are told apart by the name of their one entry.
#[derive(Debug, Clone, Copy, PartialEq, Eq, Structural)]
pub enum Form {
    /// A BLE step, by its verb.
    Step,
    /// A transform.
    Transform,
    /// Where a value is acquired.
    AcquireSource,
    /// What a BLE step waits on.
    AwaitSource,
    /// A predicate over an advert.
    AdvertPredicate,
    /// What a PTP step waits on.
    AwaitUntilSource,
    /// A loop over PTP steps.
    Loop,
}

/// What a form is called.
pub open spec fn form_title(f: Form) -> Seq<char> {
    match f {
        Form::Step => "step"@,
        Form::Transform => "transform"@,
        Form::AcquireSource => "acquireSource"@,
        Form::AwaitSource => "awaitSource"@,
        Form::AdvertPredicate => "advert predicate"@,
        Form::AwaitUntilSource => "awaitUntil source"@,
        Form::Loop => "loop"@,
    }
}

/// What the name of its entry is called.
pub open spec fn form_key(f: Form) -> Seq<char> {
    match f {
        Form::Step => "step verb key"@,
        Form::Transform => "transform key"@,
        Form::AcquireSource => "acquireSource key"@,
        Form::AwaitSource => "awaitSource key"@,
        Form::AdvertPredicate => "advert predicate key"@,
        Form::AwaitUntilSource => "awaitUntil source key"@,
        Form::Loop => "loop key"@,
    }
}

/// What an unknown one is called.
pub open spec fn form_kind(f: Form) -> Seq<char> {
    match f {
        Form::Step => "step verb"@,
        Form::Transform => "transform"@,
        Form::AcquireSource => "acquireSource"@,
        Form::AwaitSource => "awaitSource"@,
        Form::AdvertPredicate => "advert predicate"@,
        Form::AwaitUntilSource => "awaitUntil source"@,
        Form::Loop => "loop kind"@,
    }
}

/// What to do with several entries.
pub open spec fn form_hint(f: Form) -> Seq<char> {
    match f {
        Form::Step => ""@,
        Form::Transform => ""@,
        Form::AcquireSource => ""@,
        Form::AwaitSource => ""@,
        Form::AdvertPredicate => "; wrap siblings in all:/any:"@,
        Form::AwaitUntilSource => ""@,
        Form::Loop => ""@,
    }
}

/// The names that an entry can have, as a message lists them.
pub open spec fn form_list(f: Form) -> Seq<char> {
    match f {
        Form::Step => "bleConnect, bleAwaitDisconnect, bleRequestMtu, bleDiscoverServices, bleRead, bleWrite, bleSubscribe, bleNotify, bleAwaitUntil, bleWriteChunk, acquire, acquireFirmware, if"@,
        Form::Transform => "bitOr, bitAnd, slice, dropPrefix, reverseBytes, uuidFromBytes, bits"@,
        Form::AcquireSource => "bleAdvert, bleRead, userPrompt"@,
        Form::AwaitSource => "read, notify"@,
        Form::AdvertPredicate => "all, any, not, manufacturerData, serviceUuids, serviceData, localName, txPower, rawAdRecord"@,
        Form::AwaitUntilSource => "poll, event"@,
        Form::Loop => "forEach, chunk"@,
    }
}

/// Whether an entry of the form can have the name.
pub open spec fn form_knows(f: Form, s: Seq<char>) -> bool {
    match f {
        Form::Step => s == "bleConnect"@ || s == "bleAwaitDisconnect"@ || s == "bleRequestMtu"@ || s == "bleDiscoverServices"@ || s == "bleRead"@ || s == "bleWrite"@ || s == "bleSubscribe"@ || s == "bleNotify"@ || s == "bleAwaitUntil"@ || s == "bleWriteChunk"@ || s == "acquire"@ || s == "acquireFirmware"@ || s == "if"@,
        Form::Transform => s == "bitOr"@ || s == "bitAnd"@ || s == "slice"@ || s == "dropPrefix"@ || s == "reverseBytes"@ || s == "uuidFromBytes"@ || s == "bits"@,
        Form::AcquireSource => s == "bleAdvert"@ || s == "bleRead"@ || s == "userPrompt"@,
        Form::AwaitSource => s == "read"@ || s == "notify"@,
        Form::AdvertPredicate => s == "all"@ || s == "any"@ || s == "not"@ || s == "manufacturerData"@ || s == "serviceUuids"@ || s == "serviceData"@ || s == "localName"@ || s == "txPower"@ || s == "rawAdRecord"@,
        Form::AwaitUntilSource => s == "poll"@ || s == "event"@,
        Form::Loop => s == "forEach"@ || s == "chunk"@,
    }
}

/// What a form is called.
fn title_of(f: Form) -> (r: &'static str)
    ensures
        r@ == form_title(f),
{
    match f {
        Form::Step => "step",
        Form::Transform => "transform",
        Form::AcquireSource => "acquireSource",
        Form::AwaitSource => "awaitSource",
        Form::AdvertPredicate => "advert predicate",
        Form::AwaitUntilSource => "awaitUntil source",
        Form::Loop => "loop",
    }
}

/// What the name of its entry is called.
fn key_of(f: Form) -> (r: &'static str)
    ensures
        r@ == form_key(f),
{
    match f {
        Form::Step => "step verb key",
        Form::Transform => "transform key",
        Form::AcquireSource => "acquireSource key",
        Form::AwaitSource => "awaitSource key",
        Form::AdvertPredicate => "advert predicate key",
        Form::AwaitUntilSource => "awaitUntil source key",
        Form::Loop => "loop key",
    }
}

/// What an unknown one is called.
fn kind_of(f: Form) -> (r: &'static str)
    ensures
        r@ == form_kind(f),
{
    match f {
        Form::Step => "step verb",
        Form::Transform => "transform",
        Form::AcquireSource => "acquireSource",
        Form::AwaitSource => "awaitSource",
        Form::AdvertPredicate => "advert predicate",
        Form::AwaitUntilSource => "awaitUntil source",
        Form::Loop => "loop kind",
    }
}

/// What to do with several entries.
fn hint_of(f: Form) -> (r: &'static str)
    ensures
        r@ == form_hint(f),
{
    match f {
        Form::Step => "",
        Form::Transform => "",
        Form::AcquireSource => "",
        Form::AwaitSource => "",
        Form::AdvertPredicate => "; wrap siblings in all:/any:",
        Form::AwaitUntilSource => "",
        Form::Loop => "",
    }
}

/// The names that an entry can have, as a message lists them.
fn list_of(f: Form) -> (r: &'static str)
    ensures
        r@ == form_list(f),
{
    match f {
        Form::Step => "bleConnect, bleAwaitDisconnect, bleRequestMtu, bleDiscoverServices, bleRead, bleWrite, bleSubscribe, bleNotify, bleAwaitUntil, bleWriteChunk, acquire, acquireFirmware, if",
        Form::Transform => "bitOr, bitAnd, slice, dropPrefix, reverseBytes, uuidFromBytes, bits",
        Form::AcquireSource => "bleAdvert, bleRead, userPrompt",
        Form::AwaitSource => "read, notify",
        Form::AdvertPredicate => "all, any, not, manufacturerData, serviceUuids, serviceData, localName, txPower, rawAdRecord",
        Form::AwaitUntilSource => "poll, event",
        Form::Loop => "forEach, chunk",
    }
}

/// Whether an entry of the form can have the name.
fn knows(f: Form, s: &str) -> (r: bool)
    ensures
        r == form_knows(f, s@),
{
    match f {
        Form::Step => same(s, "bleConnect") || same(s, "bleAwaitDisconnect") || same(s, "bleRequestMtu") || same(s, "bleDiscoverServices") || same(s, "bleRead") || same(s, "bleWrite") || same(s, "bleSubscribe") || same(s, "bleNotify") || same(s, "bleAwaitUntil") || same(s, "bleWriteChunk") || same(s, "acquire") || same(s, "acquireFirmware") || same(s, "if"),
        Form::Transform => same(s, "bitOr") || same(s, "bitAnd") || same(s, "slice") || same(s, "dropPrefix") || same(s, "reverseBytes") || same(s, "uuidFromBytes") || same(s, "bits"),
        Form::AcquireSource => same(s, "bleAdvert") || same(s, "bleRead") || same(s, "userPrompt"),
        Form::AwaitSource => same(s, "read") || same(s, "notify"),
        Form::AdvertPredicate => same(s, "all") || same(s, "any") || same(s, "not") || same(s, "manufacturerData") || same(s, "serviceUuids") || same(s, "serviceData") || same(s, "localName") || same(s, "txPower") || same(s, "rawAdRecord"),
        Form::AwaitUntilSource => same(s, "poll") || same(s, "event"),
        Form::Loop => same(s, "forEach") || same(s, "chunk"),
    }
}

/// The name and the value of the one entry of a form.
pub open spec fn form_entry(f: Form, m: Seq<(YamlModel, YamlModel)>) -> Result<
    (Seq<char>, YamlModel),
    Seq<char>,
> {
    if m.len() != 1 {
        Err(
            form_title(f) + " must be a single-entry mapping (got "@ + decimal(m.len() as int)
                + " keys)"@ + form_hint(f),
        )
    } else {
        match text_of(m[0].0) {
            None => Err(form_key(f) + " must be a string"@),
            Some(name) => if form_knows(f, name) {
                Ok((name, m[0].1))
            } else {
                Err(
                    "unknown "@ + form_kind(f) + " '"@ + name + "' (allowlist: "@ + form_list(f)
                        + ")"@,
                )
            },
        }
    }
}

/// The name and the value of the one entry of a form.
pub fn read_form(f: Form, m: Vec<(Yaml, Yaml)>) -> (r: Result<(String, Yaml), String>)
    ensures
        reads(r, |v: (String, Yaml)| (v.0@, v.1@), form_entry(f, entry_models(m@))),
{
    if m.len() != 1 {
        return Err(
            join5(
                title_of(f),
                " must be a single-entry mapping (got ",
                u64_text(m.len() as u64).as_str(),
                " keys)",
                hint_of(f),
            ),
        );
    }
    let mut entries = m;
    proof {
        assert(entry_models(entries@)[0] == (entries@[0].0@, entries@[0].1@));
    }
    let (k, v) = entries.remove(0);
    match as_text(&k) {
        None => Err(join2(key_of(f), " must be a string")),
        Some(name) => if knows(f, name.as_str()) {
            Ok((name.clone(), v))
        } else {
            Err(
                join7(
                    "unknown ",
                    kind_of(f),
                    " '",
                    name.as_str(),
                    "' (allowlist: ",
                    list_of(f),
                    ")",
                ),
            )
        },
    }
}

/// The text that an entry must be.
pub fn require_text(y: &Yaml, message: &str) -> (r: Result<String, String>)
    ensures
        match text_of(y@) {
            Some(s) => r matches Ok(v) && v@ == s,
            None => r matches Err(e) && e@ == message@,
        },
{
    match as_text(y) {
        Some(s) => Ok(s.clone()),
        None => Err(message.to_owned()),
    }
}

/// The text of a scalar.
pub open spec fn scalar_of(y: YamlModel) -> Option<Seq<char>> {
    match y {
        YamlModel::Text(s) => Some(s),
        YamlModel::Bool(b) => Some(
            if b {
                "true"@
            } else {
                "false"@
            },
        ),
        YamlModel::Unsigned(n) => Some(decimal(n as int)),
        YamlModel::Negative(n) => Some(decimal(n as int)),
        YamlModel::Float(s) => Some(s),
        _ => None,
    }
}

/// The text of a scalar.
pub fn scalar_text(y: &Yaml) -> (r: Option<String>)
    ensures
        scalar_of(y@) == match r {
            Some(s) => Some(s@),
            None => None,
        },
{
    match y {
        Yaml::String(s) => Some(s.clone()),
        Yaml::Bool(b) => if *b {
            Some("true".to_owned())
        } else {
            Some("false".to_owned())
        },
        Yaml::Number(YamlNumber::Unsigned(n)) => Some(u64_text(*n)),
        Yaml::Number(YamlNumber::Negative(n)) => Some(i64_text(*n)),
        Yaml::Number(YamlNumber::Float { text }) => Some(text.clone()),
        _ => None,
    }
}

/// The operators by field that a condition is written as.
pub type RawPredicate = Vec<(String, Vec<(String, Yaml)>)>;

/// What a condition compares: the field, how, and with what.
pub open spec fn condition(raw: Seq<(String, Vec<(String, Yaml)>)>) -> Result<
    (Seq<char>, PredicateOp, Seq<char>),
    Seq<char>,
> {
    if raw.len() != 1 {
        Err("predicate must have exactly one field name at the top level"@)
    } else {
        let field = raw[0].0@;
        let inner = raw[0].1@;
        if inner.len() != 1 {
            Err("predicate on '"@ + field + "' must have exactly one operator"@)
        } else {
            let token = inner[0].0@;
            match predicate_of(token) {
                None => Err(
                    "unknown predicate operator '"@ + token
                        + "' (allowlist: eq, ne, gt, gte, lt, lte, in)"@,
                ),
                Some(op) => match scalar_of(inner[0].1@) {
                    None => Err(
                        "predicate value for '"@ + field + "."@ + token + "' must be a scalar"@,
                    ),
                    Some(value) => Ok((field, op, value)),
                },
            }
        }
    }
}

/// The condition that `{ <field>: { <operator>: <value> } }` writes. The value becomes text.
pub fn read_predicate(raw: &RawPredicate) -> (r: Result<Predicate, String>)
    ensures
        reads(r, |p: Predicate| (p.field@, p.op, p.value@), condition(raw@)),
{
    if raw.len() != 1 {
        return Err("predicate must have exactly one field name at the top level".to_owned());
    }
    let field = &raw[0].0;
    let inner = &raw[0].1;
    if inner.len() != 1 {
        return Err(join3("predicate on '", field.as_str(), "' must have exactly one operator"));
    }
    let token = inner[0].0.as_str();
    match PredicateOp::from_token(token) {
        None => Err(
            join3(
                "unknown predicate operator '",
                token,
                "' (allowlist: eq, ne, gt, gte, lt, lte, in)",
            ),
        ),
        Some(op) => match scalar_text(&inner[0].1) {
            None => Err(
                join5("predicate value for '", field.as_str(), ".", token, "' must be a scalar"),
            ),
            Some(value) => Ok(Predicate { field: field.clone(), op, value }),
        },
    }
}

/// What the operands of a transform were read as, where it has several.
pub enum Operands {
    Slice { at: usize, length: Option<usize> },
    Bits { mask: u64, shift: u32 },
    Unreadable { message: String },
    Plain,
}

/// A window of bytes, where it can hold some.
pub open spec fn window(at: usize, length: Option<usize>) -> Result<Transform, Seq<char>> {
    if length == Some(0usize) {
        Err("slice: length 0 can never capture bytes"@)
    } else {
        Ok(Transform::Slice { at, length })
    }
}

/// A bit field, where it can be other than zero.
pub open spec fn bit_field(mask: u64, shift: u32) -> Result<Transform, Seq<char>> {
    if mask == 0 {
        Err("bits: mask 0 always yields 0"@)
    } else if shift >= 64 {
        Err("bits: shift must be < 64"@)
    } else {
        Ok(Transform::Bits { mask, shift })
    }
}

/// Whether a value stands for no operand.
pub open spec fn no_operand(y: YamlModel) -> bool {
    match y {
        YamlModel::Null => true,
        YamlModel::Mapping(m) => m.len() == 0,
        _ => false,
    }
}

/// The transform that a name and its operand write.
pub open spec fn named_transform(name: Seq<char>, value: YamlModel, operands: Operands) -> Result<
    Transform,
    Seq<char>,
> {
    let number_missing = Err::<Transform, Seq<char>>(name + ": <u64 operand> required"@);
    let operand_given = Err::<Transform, Seq<char>>(name + ": takes no operand (use {})"@);
    if name == "bitOr"@ {
        match unsigned_of(value) {
            Some(n) => Ok(Transform::BitOr(n)),
            None => number_missing,
        }
    } else if name == "bitAnd"@ {
        match unsigned_of(value) {
            Some(n) => Ok(Transform::BitAnd(n)),
            None => number_missing,
        }
    } else if name == "dropPrefix"@ {
        match unsigned_of(value) {
            Some(n) => Ok(Transform::DropPrefix(n as usize)),
            None => number_missing,
        }
    } else if name == "reverseBytes"@ {
        if no_operand(value) {
            Ok(Transform::ReverseBytes)
        } else {
            operand_given
        }
    } else if name == "uuidFromBytes"@ {
        if no_operand(value) {
            Ok(Transform::UuidFromBytes)
        } else {
            operand_given
        }
    } else if name == "slice"@ {
        match operands {
            Operands::Slice { at, length } => window(at, length),
            Operands::Unreadable { message } => Err("slice: "@ + message@),
            _ => Err("slice: "@),
        }
    } else if name == "bits"@ {
        match operands {
            Operands::Bits { mask, shift } => bit_field(mask, shift),
            Operands::Unreadable { message } => Err("bits: "@ + message@),
            _ => Err("bits: "@),
        }
    } else {
        Err(
            "unknown transform '"@ + name
                + "' (allowlist: bitOr, bitAnd, slice, dropPrefix, reverseBytes, uuidFromBytes, bits)"@,
        )
    }
}

/// The unsigned operand of a transform.
fn number_operand(name: &str, value: &Yaml) -> (r: Result<u64, String>)
    ensures
        match unsigned_of(value@) {
            Some(n) => r == Ok::<u64, String>(n),
            None => r matches Err(e) && e@ == name@ + ": <u64 operand> required"@,
        },
{
    match as_unsigned(value) {
        Some(n) => Ok(n),
        None => Err(join2(name, ": <u64 operand> required")),
    }
}

/// Checks that a transform is given no operand.
fn require_no_operand(name: &str, value: &Yaml) -> (r: Result<(), String>)
    ensures
        match r {
            Ok(_) => no_operand(value@),
            Err(e) => !no_operand(value@) && e@ == name@ + ": takes no operand (use {})"@,
        },
{
    match value {
        Yaml::Null => Ok(()),
        Yaml::Mapping(m) => {
            proof {
                mapping_view(*m);
            }
            if m.len() == 0 {
                Ok(())
            } else {
                Err(join2(name, ": takes no operand (use {})"))
            }
        },
        _ => Err(join2(name, ": takes no operand (use {})")),
    }
}

/// The transform that a name and its operand write. What could never succeed is refused: a window of
/// no bytes, a bit field of no bits, a shift past the last bit.
pub fn read_transform(name: &str, value: &Yaml, operands: Operands) -> (r: Result<
    Transform,
    String,
>)
    ensures
        reads(r, |t: Transform| t, named_transform(name@, value@, operands)),
{
    if same(name, "bitOr") {
        match number_operand(name, value) {
            Ok(n) => Ok(Transform::BitOr(n)),
            Err(e) => Err(e),
        }
    } else if same(name, "bitAnd") {
        match number_operand(name, value) {
            Ok(n) => Ok(Transform::BitAnd(n)),
            Err(e) => Err(e),
        }
    } else if same(name, "dropPrefix") {
        match number_operand(name, value) {
            Ok(n) => Ok(Transform::DropPrefix(n as usize)),
            Err(e) => Err(e),
        }
    } else if same(name, "reverseBytes") {
        match require_no_operand(name, value) {
            Ok(_) => Ok(Transform::ReverseBytes),
            Err(e) => Err(e),
        }
    } else if same(name, "uuidFromBytes") {
        match require_no_operand(name, value) {
            Ok(_) => Ok(Transform::UuidFromBytes),
            Err(e) => Err(e),
        }
    } else if same(name, "slice") {
        match operands {
            Operands::Slice { at, length } => {
                match length {
                    Some(n) => {
                        if n == 0 {
                            return Err("slice: length 0 can never capture bytes".to_owned());
                        }
                    },
                    None => {},
                }
                Ok(Transform::Slice { at, length })
            },
            Operands::Unreadable { message } => Err(join2("slice: ", message.as_str())),
            _ => Err("slice: ".to_owned()),
        }
    } else if same(name, "bits") {
        match operands {
            Operands::Bits { mask, shift } => if mask == 0 {
                Err("bits: mask 0 always yields 0".to_owned())
            } else if shift >= 64 {
                Err("bits: shift must be < 64".to_owned())
            } else {
                Ok(Transform::Bits { mask, shift })
            },
            Operands::Unreadable { message } => Err(join2("bits: ", message.as_str())),
            _ => Err("bits: ".to_owned()),
        }
    } else {
        Err(
            join3(
                "unknown transform '",
                name,
                "' (allowlist: bitOr, bitAnd, slice, dropPrefix, reverseBytes, uuidFromBytes, bits)",
            ),
        )
    }
}

/// Where an advert capture reads its bytes, apart from how it is stored.
pub enum ByteSourceModel {
    ManufacturerData,
    RawAdRecord(u8),
    ServiceData(Seq<char>),
    LocalName,
}

impl View for AdvertByteSource {
    type V = ByteSourceModel;

    open spec fn view(&self) -> ByteSourceModel {
        match *self {
            AdvertByteSource::ManufacturerData => ByteSourceModel::ManufacturerData,
            AdvertByteSource::RawAdRecord { ad_type } => ByteSourceModel::RawAdRecord(ad_type),
            AdvertByteSource::ServiceData { uuid } => ByteSourceModel::ServiceData(uuid@),
            AdvertByteSource::LocalName => ByteSourceModel::LocalName,
        }
    }
}

/// The byte source that a value writes: a bare name, or a mapping with one entry.
pub open spec fn byte_source(y: YamlModel) -> Result<ByteSourceModel, Seq<char>> {
    match y {
        YamlModel::Text(s) => if s == "manufacturerData"@ {
            Ok(ByteSourceModel::ManufacturerData)
        } else if s == "localName"@ {
            Ok(ByteSourceModel::LocalName)
        } else {
            Err(
                "unknown capture source '"@ + s
                    + "' (bare-string allowlist: manufacturerData, localName)"@,
            )
        },
        YamlModel::Mapping(m) => if m.len() != 1 {
            Err("capture source mapping must have exactly one key"@)
        } else {
            match text_of(m[0].0) {
                None => Err("capture source key must be a string"@),
                Some(name) => if name == "rawAdRecord"@ {
                    match unsigned_of(m[0].1) {
                        Some(n) => if n <= 0xff {
                            Ok(ByteSourceModel::RawAdRecord(n as u8))
                        } else {
                            Err("rawAdRecord: <u8 AD type> required"@)
                        },
                        None => Err("rawAdRecord: <u8 AD type> required"@),
                    }
                } else if name == "serviceData"@ {
                    match text_of(m[0].1) {
                        Some(uuid) => Ok(ByteSourceModel::ServiceData(uuid)),
                        None => Err("serviceData: <uuid string> required"@),
                    }
                } else {
                    Err(
                        "unknown capture source '"@ + name
                            + "' (mapping allowlist: rawAdRecord, serviceData)"@,
                    )
                },
            }
        },
        _ => Err("capture source: invalid shape"@),
    }
}

/// The byte source that a value writes.
pub fn read_byte_source(y: &Yaml) -> (r: Result<AdvertByteSource, String>)
    ensures
        reads(r, |s: AdvertByteSource| s@, byte_source(y@)),
{
    match y {
        Yaml::String(s) => if same(s.as_str(), "manufacturerData") {
            Ok(AdvertByteSource::ManufacturerData)
        } else if same(s.as_str(), "localName") {
            Ok(AdvertByteSource::LocalName)
        } else {
            Err(
                join3(
                    "unknown capture source '",
                    s.as_str(),
                    "' (bare-string allowlist: manufacturerData, localName)",
                ),
            )
        },
        Yaml::Mapping(m) => {
            proof {
                mapping_view(*m);
            }
            if m.len() != 1 {
                return Err("capture source mapping must have exactly one key".to_owned());
            }
            proof {
                assert(entry_models(m@)[0] == (m@[0].0@, m@[0].1@));
            }
            let body = &m[0].1;
            match as_text(&m[0].0) {
                None => Err("capture source key must be a string".to_owned()),
                Some(name) => if same(name.as_str(), "rawAdRecord") {
                    match as_unsigned(body) {
                        Some(n) => if n <= 0xff {
                            Ok(AdvertByteSource::RawAdRecord { ad_type: n as u8 })
                        } else {
                            Err("rawAdRecord: <u8 AD type> required".to_owned())
                        },
                        None => Err("rawAdRecord: <u8 AD type> required".to_owned()),
                    }
                } else if same(name.as_str(), "serviceData") {
                    match as_text(body) {
                        Some(uuid) => Ok(AdvertByteSource::ServiceData { uuid: uuid.clone() }),
                        None => Err("serviceData: <uuid string> required".to_owned()),
                    }
                } else {
                    Err(
                        join3(
                            "unknown capture source '",
                            name.as_str(),
                            "' (mapping allowlist: rawAdRecord, serviceData)",
                        ),
                    )
                },
            }
        },
        _ => Err("capture source: invalid shape".to_owned()),
    }
}

/// What a wait for a notification accepts, apart from how it is stored.
pub enum UntilModel {
    Any,
    Equals(YamlModel, Option<Encoding>),
    Matches(Seq<char>),
}

impl View for BleNotifyUntil {
    type V = UntilModel;

    open spec fn view(&self) -> UntilModel {
        match *self {
            BleNotifyUntil::Any => UntilModel::Any,
            BleNotifyUntil::Equals { value, encoding } => UntilModel::Equals(value@, encoding),
            BleNotifyUntil::Matches { pattern } => UntilModel::Matches(pattern@),
        }
    }
}

/// What a wait for a notification accepts, as a value writes it. `encoding` is what its member of
/// that name was read as.
pub open spec fn notify_until(y: YamlModel, encoding: Result<Option<Encoding>, String>) -> Result<
    UntilModel,
    Seq<char>,
> {
    match y {
        YamlModel::Text(s) => if s == "any"@ {
            Ok(UntilModel::Any)
        } else {
            Err(
                "bleNotify until: '"@ + s
                    + "' (only the bare 'any' string form is supported; use a mapping for equals/matches)"@,
            )
        },
        YamlModel::Mapping(m) => match member(m, "equals"@) {
            Some(value) => match encoding {
                Ok(e) => Ok(UntilModel::Equals(value, e)),
                Err(message) => Err(message@),
            },
            None => match member(m, "matches"@) {
                Some(pattern) => match text_of(pattern) {
                    Some(s) => Ok(UntilModel::Matches(s)),
                    None => Err("matches: <string> required"@),
                },
                None => Err(
                    "bleNotify until: expected `any`, `{equals:...}`, or `{matches:...}`"@,
                ),
            },
        },
        _ => Err("bleNotify until: invalid shape"@),
    }
}

/// What a wait for a notification accepts.
pub fn read_notify_until(y: &Yaml, encoding: Result<Option<Encoding>, String>) -> (r: Result<
    BleNotifyUntil,
    String,
>)
    ensures
        reads(r, |u: BleNotifyUntil| u@, notify_until(y@, encoding)),
{
    match y {
        Yaml::String(s) => if same(s.as_str(), "any") {
            Ok(BleNotifyUntil::Any)
        } else {
            Err(
                join3(
                    "bleNotify until: '",
                    s.as_str(),
                    "' (only the bare 'any' string form is supported; use a mapping for equals/matches)",
                ),
            )
        },
        Yaml::Mapping(m) => {
            proof {
                mapping_view(*m);
            }
            match get_member(m, "equals") {
                Some(value) => {
                    return match encoding {
                        Ok(e) => Ok(BleNotifyUntil::Equals { value: value.clone(), encoding: e }),
                        Err(message) => Err(message),
                    };
                },
                None => {},
            }
            match get_member(m, "matches") {
                Some(pattern) => match as_text(pattern) {
                    Some(s) => Ok(BleNotifyUntil::Matches { pattern: s.clone() }),
                    None => Err("matches: <string> required".to_owned()),
                },
                None => Err(
                    "bleNotify until: expected `any`, `{equals:...}`, or `{matches:...}`".to_owned(),
                ),
            }
        },
        _ => Err("bleNotify until: invalid shape".to_owned()),
    }
}

/// The value of a step, apart from how it is stored.
pub enum ValueModel {
    Literal(YamlModel),
    Template(Seq<char>, Seq<Transform>),
    Runtime(Seq<char>, Option<Encoding>, Seq<Transform>),
    Captured(Seq<char>, Seq<Transform>),
}

impl View for StepValue {
    type V = ValueModel;

    open spec fn view(&self) -> ValueModel {
        match *self {
            StepValue::Literal { literal } => ValueModel::Literal(literal@),
            StepValue::Template { template, transform } => ValueModel::Template(
                template@,
                transform@,
            ),
            StepValue::Runtime { runtime, encoding, transform } => ValueModel::Runtime(
                runtime@,
                encoding,
                transform@,
            ),
            StepValue::Captured { captured, transform } => ValueModel::Captured(
                captured@,
                transform@,
            ),
        }
    }
}

/// The names of entries; the empty text for a key that is none.
pub open spec fn entry_names(m: Seq<(YamlModel, YamlModel)>) -> Seq<Seq<char>> {
    Seq::new(
        m.len(),
        |i: int|
            match text_of(m[i].0) {
                Some(s) => s,
                None => Seq::empty(),
            },
    )
}

/// The value of a step, as a mapping writes it: the first of the four forms that is there.
/// `encoding` and `transform` are what its members of these names were read as.
pub open spec fn step_value(
    m: Seq<(YamlModel, YamlModel)>,
    encoding: Result<Option<Encoding>, String>,
    transform: Result<Vec<Transform>, String>,
) -> Result<ValueModel, Seq<char>> {
    match member(m, "literal"@) {
        Some(v) => Ok(ValueModel::Literal(v)),
        None => match member(m, "template"@) {
            Some(v) => match text_of(v) {
                None => Err("template: <string> required"@),
                Some(s) => match transform {
                    Ok(t) => Ok(ValueModel::Template(s, t@)),
                    Err(e) => Err("transform: "@ + e@),
                },
            },
            None => match member(m, "captured"@) {
                Some(v) => match text_of(v) {
                    None => Err("captured: <string> required"@),
                    Some(s) => match transform {
                        Ok(t) => Ok(ValueModel::Captured(s, t@)),
                        Err(e) => Err("transform: "@ + e@),
                    },
                },
                None => match member(m, "runtime"@) {
                    Some(v) => match text_of(v) {
                        None => Err("runtime: <string> required"@),
                        Some(s) => match encoding {
                            Err(e) => Err("runtime.encoding: "@ + e@),
                            Ok(c) => match transform {
                                Ok(t) => Ok(ValueModel::Runtime(s, c, t@)),
                                Err(e) => Err("transform: "@ + e@),
                            },
                        },
                    },
                    None => Err(
                        "stepValue must be one of: literal, template, runtime, captured (got keys: "@
                            + texts_debug(arranged::<String>(entry_names(m))) + ")"@,
                    ),
                },
            },
        },
    }
}

/// The names of entries, in ascending order.
fn collect_names(m: &Vec<(Yaml, Yaml)>) -> (r: Vec<String>)
    ensures
        views(r@) == arranged::<String>(entry_names(entry_models(m@))),
{
    let mut out: Vec<String> = Vec::new();
    let mut i: usize = 0;
    while i < m.len()
        invariant
            i <= m@.len(),
            out@.len() == i,
            forall|k: int|
                0 <= k < i ==> (#[trigger] out@[k])@ == entry_names(entry_models(m@))[k],
        decreases m@.len() - i,
    {
        proof {
            assert(entry_models(m@)[i as int] == (m@[i as int].0@, m@[i as int].1@));
        }
        match as_text(&m[i].0) {
            Some(s) => out.push(s.clone()),
            None => {
                let none = String::new();
                proof {
                    assert(none@ =~= Seq::<char>::empty());
                }
                out.push(none);
            },
        }
        i = i + 1;
    }
    proof {
        assert(models_of(out@) == entry_names(entry_models(m@)));
    }
    let r = arrange(out);
    proof {
        assert(models_of(r@) == views(r@));
    }
    r
}

/// The transforms that were read, or why they were not.
fn chain(transform: Result<Vec<Transform>, String>) -> (r: Result<Vec<Transform>, String>)
    ensures
        match transform {
            Ok(t) => r == Ok::<Vec<Transform>, String>(t),
            Err(e) => r matches Err(x) && x@ == "transform: "@ + e@,
        },
{
    match transform {
        Ok(t) => Ok(t),
        Err(e) => Err(join2("transform: ", e.as_str())),
    }
}

/// The value of a step.
pub fn read_step_value(
    m: &Vec<(Yaml, Yaml)>,
    encoding: Result<Option<Encoding>, String>,
    transform: Result<Vec<Transform>, String>,
) -> (r: Result<StepValue, String>)
    ensures
        reads(r, |v: StepValue| v@, step_value(entry_models(m@), encoding, transform)),
{
    match get_member(m, "literal") {
        Some(v) => {
            return Ok(StepValue::Literal { literal: v.clone() });
        },
        None => {},
    }
    match get_member(m, "template") {
        Some(v) => {
            return match as_text(v) {
                None => Err("template: <string> required".to_owned()),
                Some(s) => match chain(transform) {
                    Ok(t) => Ok(StepValue::Template { template: s.clone(), transform: t }),
                    Err(e) => Err(e),
                },
            };
        },
        None => {},
    }
    match get_member(m, "captured") {
        Some(v) => {
            return match as_text(v) {
                None => Err("captured: <string> required".to_owned()),
                Some(s) => match chain(transform) {
                    Ok(t) => Ok(StepValue::Captured { captured: s.clone(), transform: t }),
                    Err(e) => Err(e),
                },
            };
        },
        None => {},
    }
    match get_member(m, "runtime") {
        Some(v) => match as_text(v) {
            None => Err("runtime: <string> required".to_owned()),
            Some(s) => match encoding {
                Err(e) => Err(join2("runtime.encoding: ", e.as_str())),
                Ok(c) => match chain(transform) {
                    Ok(t) => Ok(
                        StepValue::Runtime { runtime: s.clone(), encoding: c, transform: t },
                    ),
                    Err(e) => Err(e),
                },
            },
        },
        None => {
            let names = collect_names(m);
            Err(
                join3(
                    "stepValue must be one of: literal, template, runtime, captured (got keys: ",
                    debug_texts(&names).as_str(),
                    ")",
                ),
            )
        },
    }
}

/// The signatures of a model, in the order of the file.
pub open spec fn named_entries(m: Seq<(YamlModel, YamlModel)>, n: int) -> Result<
    Seq<(Seq<char>, YamlModel)>,
    Seq<char>,
>
    decreases n,
{
    if n <= 0 || n > m.len() {
        Ok(Seq::empty())
    } else {
        match named_entries(m, n - 1) {
            Err(e) => Err(e),
            Ok(front) => match text_of(m[n - 1].0) {
                Some(name) => Ok(front.push((name, m[n - 1].1))),
                None => Err("signature key must be a string"@),
            },
        }
    }
}

/// What signatures say, apart from how they are stored.
pub open spec fn signatures_view(v: Seq<(String, Yaml)>) -> Seq<(Seq<char>, YamlModel)> {
    Seq::new(v.len(), |i: int| (v[i].0@, v[i].1@))
}

/// Once a key is refused, more entries do not change that.
proof fn refused_stays(m: Seq<(YamlModel, YamlModel)>, i: int, n: int)
    requires
        0 <= i <= n <= m.len(),
        named_entries(m, i) is Err,
    ensures
        named_entries(m, n) == named_entries(m, i),
    decreases n - i,
{
    if i < n {
        refused_stays(m, i, n - 1);
    }
}

/// The signatures of a model, in the order of the file, which decides on precedence.
pub fn ordered_signatures(m: Vec<(Yaml, Yaml)>) -> (r: Result<Vec<(String, Yaml)>, String>)
    ensures
        reads(
            r,
            |v: Vec<(String, Yaml)>| signatures_view(v@),
            named_entries(entry_models(m@), m@.len() as int),
        ),
{
    let ghost all = entry_models(m@);
    let total: usize = m.len();
    let mut out: Vec<(String, Yaml)> = Vec::new();
    proof {
        assert(signatures_view(out@) == Seq::<(Seq<char>, YamlModel)>::empty());
    }
    for entry in it: m
        invariant
            entry_models(it.seq()) == all,
            total == all.len(),
            named_entries(all, it.index() as int) == Ok::<Seq<(Seq<char>, YamlModel)>, Seq<char>>(
                signatures_view(out@),
            ),
    {
        let ghost k = it.index() as int;
        let ghost before = out@;
        let (key, value) = entry;
        proof {
            assert(all[k] == (key@, value@));
        }
        match as_text(&key) {
            Some(name) => {
                out.push((name.clone(), value));
                proof {
                    assert(signatures_view(out@) == signatures_view(before).push(
                        (out@.last().0@, value@),
                    ));
                }
            },
            None => {
                proof {
                    refused_stays(all, k + 1, total as int);
                }
                return Err("signature key must be a string".to_owned());
            },
        }
    }
    Ok(out)
}

} // verus!
