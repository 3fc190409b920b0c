//! The forms of an index that are told apart by the name of their one entry.

use camera_config::index::grammar::{
    ordered_signatures, read_byte_source, read_form, read_notify_until, read_predicate,
    read_step_value, read_transform, require_text, scalar_text, Form, Operands,
};
use camera_config::index::types::{AdvertByteSource, BleNotifyUntil, StepValue, Transform};
use camera_config::index::{Encoding, PredicateOp};
use camera_config::model::{mode_execution, ModeEntryExecution, ReestablishConnection};
use camera_config::name_map::NameMap;
use camera_config::yaml::{Yaml, YamlNumber};

fn text(s: &str) -> Yaml {
    Yaml::String(s.into())
}

fn number(n: u64) -> Yaml {
    Yaml::Number(YamlNumber::Unsigned(n))
}

fn entries(items: Vec<(&str, Yaml)>) -> Vec<(Yaml, Yaml)> {
    items.into_iter().map(|(k, v)| (text(k), v)).collect()
}

fn mapping(items: Vec<(&str, Yaml)>) -> Yaml {
    Yaml::Mapping(entries(items))
}

#[test]
fn await_until_source_rejects_unknown_key() {
    let err = read_form(
        Form::AwaitUntilSource,
        entries(vec![("notify", text("0xd209"))]),
    )
    .unwrap_err();
    assert!(
        err.contains("unknown awaitUntil source"),
        "expected allowlist error, got: {err}"
    );
    assert_eq!(err, "unknown awaitUntil source 'notify' (allowlist: poll, event)");
}

#[test]
fn a_form_has_one_known_entry() {
    assert_eq!(
        read_form(Form::AwaitUntilSource, entries(vec![("poll", text("0xd209"))])),
        Ok(("poll".to_string(), text("0xd209")))
    );
    assert_eq!(
        read_form(Form::Loop, Vec::new()).unwrap_err(),
        "loop must be a single-entry mapping (got 0 keys)"
    );
    assert_eq!(
        read_form(
            Form::AdvertPredicate,
            entries(vec![("all", Yaml::Null), ("any", Yaml::Null)])
        )
        .unwrap_err(),
        "advert predicate must be a single-entry mapping (got 2 keys); wrap siblings in all:/any:"
    );
    assert_eq!(
        read_form(Form::Step, vec![(number(1), Yaml::Null)]).unwrap_err(),
        "step verb key must be a string"
    );
    assert_eq!(
        read_form(Form::Loop, entries(vec![("while", Yaml::Null)])).unwrap_err(),
        "unknown loop kind 'while' (allowlist: forEach, chunk)"
    );
    let unknown = read_form(Form::Step, entries(vec![("blink", Yaml::Null)])).unwrap_err();
    assert!(unknown.starts_with("unknown step verb 'blink' (allowlist: bleConnect, "));
    assert!(unknown.ends_with("acquireFirmware, if)"));
    assert_eq!(
        read_form(Form::AcquireSource, entries(vec![("advert", Yaml::Null)])).unwrap_err(),
        "unknown acquireSource 'advert' (allowlist: bleAdvert, bleRead, userPrompt)"
    );
    assert_eq!(
        read_form(Form::AwaitSource, entries(vec![("poll", Yaml::Null)])).unwrap_err(),
        "unknown awaitSource 'poll' (allowlist: read, notify)"
    );
}

#[test]
fn a_text_is_required() {
    assert_eq!(require_text(&text("0xd209"), "message"), Ok("0xd209".to_string()));
    assert_eq!(require_text(&number(1), "message"), Err("message".to_string()));
}

#[test]
fn scalars_become_text() {
    assert_eq!(scalar_text(&Yaml::Bool(true)), Some("true".to_string()));
    assert_eq!(scalar_text(&number(12)), Some("12".to_string()));
    assert_eq!(
        scalar_text(&Yaml::Number(YamlNumber::Negative(-3))),
        Some("-3".to_string())
    );
    assert_eq!(
        scalar_text(&Yaml::Number(YamlNumber::Float { text: "1.5".to_string() })),
        Some("1.5".to_string())
    );
    assert_eq!(scalar_text(&Yaml::Null), None);
    assert_eq!(scalar_text(&mapping(vec![])), None);
}

#[test]
fn a_predicate_compares_one_field_once() {
    let raw = |field: &str, inner: Vec<(&str, Yaml)>| {
        let inner: Vec<(String, Yaml)> =
            inner.into_iter().map(|(k, v)| (k.to_string(), v)).collect();
        vec![(field.to_string(), inner)]
    };
    let p = read_predicate(&raw("firmware", vec![("gte", number(3))])).unwrap();
    assert_eq!(p.field, "firmware");
    assert_eq!(p.op, PredicateOp::Gte);
    assert_eq!(p.value, "3");
    assert_eq!(
        read_predicate(&Vec::new()).unwrap_err(),
        "predicate must have exactly one field name at the top level"
    );
    assert_eq!(
        read_predicate(&raw("firmware", vec![])).unwrap_err(),
        "predicate on 'firmware' must have exactly one operator"
    );
    assert_eq!(
        read_predicate(&raw("firmware", vec![("like", number(3))])).unwrap_err(),
        "unknown predicate operator 'like' (allowlist: eq, ne, gt, gte, lt, lte, in)"
    );
    assert_eq!(
        read_predicate(&raw("firmware", vec![("eq", Yaml::Null)])).unwrap_err(),
        "predicate value for 'firmware.eq' must be a scalar"
    );
}

#[test]
fn transforms_that_never_succeed_are_refused() {
    let plain = |name: &str, value: Yaml| read_transform(name, &value, Operands::Plain);
    assert_eq!(plain("bitOr", number(8)), Ok(Transform::BitOr(8)));
    assert_eq!(plain("bitAnd", number(0xff)), Ok(Transform::BitAnd(0xff)));
    assert_eq!(plain("dropPrefix", number(2)), Ok(Transform::DropPrefix(2)));
    assert_eq!(plain("reverseBytes", Yaml::Null), Ok(Transform::ReverseBytes));
    assert_eq!(plain("uuidFromBytes", mapping(vec![])), Ok(Transform::UuidFromBytes));
    assert_eq!(plain("bitOr", text("8")).unwrap_err(), "bitOr: <u64 operand> required");
    assert_eq!(
        plain("reverseBytes", number(1)).unwrap_err(),
        "reverseBytes: takes no operand (use {})"
    );
    assert_eq!(
        plain("rot13", Yaml::Null).unwrap_err(),
        "unknown transform 'rot13' (allowlist: bitOr, bitAnd, slice, dropPrefix, reverseBytes, \
         uuidFromBytes, bits)"
    );

    let slice = |at, length| read_transform("slice", &Yaml::Null, Operands::Slice { at, length });
    assert_eq!(slice(1, Some(2)), Ok(Transform::Slice { at: 1, length: Some(2) }));
    assert_eq!(slice(1, None), Ok(Transform::Slice { at: 1, length: None }));
    assert_eq!(slice(1, Some(0)).unwrap_err(), "slice: length 0 can never capture bytes");

    let bits = |mask, shift| read_transform("bits", &Yaml::Null, Operands::Bits { mask, shift });
    assert_eq!(bits(6, 1), Ok(Transform::Bits { mask: 6, shift: 1 }));
    assert_eq!(bits(0, 1).unwrap_err(), "bits: mask 0 always yields 0");
    assert_eq!(bits(1, 64).unwrap_err(), "bits: shift must be < 64");

    let unreadable = Operands::Unreadable { message: "missing field `mask`".to_string() };
    assert_eq!(
        read_transform("bits", &Yaml::Null, unreadable).unwrap_err(),
        "bits: missing field `mask`"
    );
}

#[test]
fn byte_sources_are_named_or_have_one_entry() {
    assert_eq!(read_byte_source(&text("localName")), Ok(AdvertByteSource::LocalName));
    assert_eq!(
        read_byte_source(&text("manufacturerData")),
        Ok(AdvertByteSource::ManufacturerData)
    );
    assert_eq!(
        read_byte_source(&mapping(vec![("rawAdRecord", number(0x16))])),
        Ok(AdvertByteSource::RawAdRecord { ad_type: 0x16 })
    );
    assert_eq!(
        read_byte_source(&mapping(vec![("serviceData", text("fd5f"))])),
        Ok(AdvertByteSource::ServiceData { uuid: "fd5f".to_string() })
    );
    let refused = |y: Yaml| read_byte_source(&y).unwrap_err();
    assert_eq!(
        refused(text("rssi")),
        "unknown capture source 'rssi' (bare-string allowlist: manufacturerData, localName)"
    );
    assert_eq!(refused(mapping(vec![])), "capture source mapping must have exactly one key");
    assert_eq!(
        refused(Yaml::Mapping(vec![(number(1), Yaml::Null)])),
        "capture source key must be a string"
    );
    assert_eq!(
        refused(mapping(vec![("rawAdRecord", number(256))])),
        "rawAdRecord: <u8 AD type> required"
    );
    assert_eq!(
        refused(mapping(vec![("serviceData", number(1))])),
        "serviceData: <uuid string> required"
    );
    assert_eq!(
        refused(mapping(vec![("rssi", number(1))])),
        "unknown capture source 'rssi' (mapping allowlist: rawAdRecord, serviceData)"
    );
    assert_eq!(refused(Yaml::Null), "capture source: invalid shape");
}

#[test]
fn a_wait_accepts_any_equals_or_matches() {
    assert!(matches!(
        read_notify_until(&text("any"), Ok(None)),
        Ok(BleNotifyUntil::Any)
    ));
    match read_notify_until(&mapping(vec![("equals", number(1))]), Ok(Some(Encoding::U8))) {
        Ok(BleNotifyUntil::Equals { value, encoding }) => {
            assert_eq!(value, number(1));
            assert_eq!(encoding, Some(Encoding::U8));
        }
        other => panic!("expected equals, got {other:?}"),
    }
    match read_notify_until(&mapping(vec![("matches", text("^0x"))]), Ok(None)) {
        Ok(BleNotifyUntil::Matches { pattern }) => assert_eq!(pattern, "^0x"),
        other => panic!("expected matches, got {other:?}"),
    }
    let refused = |y: Yaml| read_notify_until(&y, Ok(None)).unwrap_err();
    assert_eq!(
        refused(text("all")),
        "bleNotify until: 'all' (only the bare 'any' string form is supported; use a mapping for \
         equals/matches)"
    );
    assert_eq!(refused(mapping(vec![("matches", number(1))])), "matches: <string> required");
    assert_eq!(
        refused(mapping(vec![])),
        "bleNotify until: expected `any`, `{equals:...}`, or `{matches:...}`"
    );
    assert_eq!(refused(Yaml::Null), "bleNotify until: invalid shape");
    assert_eq!(
        read_notify_until(&mapping(vec![("equals", number(1))]), Err("no encoding".to_string()))
            .unwrap_err(),
        "no encoding"
    );
}

#[test]
fn a_step_value_has_one_of_four_forms() {
    let read = |items: Vec<(&str, Yaml)>| {
        read_step_value(
            &entries(items),
            Ok(Some(Encoding::Utf8)),
            Ok(vec![Transform::ReverseBytes]),
        )
    };
    match read(vec![("literal", number(7))]) {
        Ok(StepValue::Literal { literal }) => assert_eq!(literal, number(7)),
        other => panic!("expected literal, got {other:?}"),
    }
    match read(vec![("template", text("{name}"))]) {
        Ok(StepValue::Template { template, transform }) => {
            assert_eq!(template, "{name}");
            assert_eq!(transform, [Transform::ReverseBytes]);
        }
        other => panic!("expected template, got {other:?}"),
    }
    match read(vec![("runtime", text("terminalName")), ("captured", text("token"))]) {
        Ok(StepValue::Captured { captured, .. }) => assert_eq!(captured, "token"),
        other => panic!("expected captured, got {other:?}"),
    }
    match read(vec![("runtime", text("terminalName"))]) {
        Ok(StepValue::Runtime { runtime, encoding, transform }) => {
            assert_eq!(runtime, "terminalName");
            assert_eq!(encoding, Some(Encoding::Utf8));
            assert_eq!(transform, [Transform::ReverseBytes]);
        }
        other => panic!("expected runtime, got {other:?}"),
    }
    for name in ["template", "captured", "runtime"] {
        assert_eq!(
            read(vec![(name, number(1))]).unwrap_err(),
            format!("{name}: <string> required")
        );
        assert_eq!(
            read_step_value(
                &entries(vec![(name, text("x"))]),
                Ok(None),
                Err("bad chain".to_string())
            )
            .unwrap_err(),
            "transform: bad chain"
        );
    }
    assert_eq!(
        read_step_value(
            &entries(vec![("runtime", text("x"))]),
            Err("bad encoding".to_string()),
            Ok(Vec::new())
        )
        .unwrap_err(),
        "runtime.encoding: bad encoding"
    );
    assert_eq!(
        read(vec![("zeta", number(1)), ("alpha", number(2))]).unwrap_err(),
        "stepValue must be one of: literal, template, runtime, captured (got keys: \
         [\"alpha\", \"zeta\"])"
    );
}

#[test]
fn signatures_keep_the_order_of_the_file() {
    let ordered =
        ordered_signatures(entries(vec![("zeta", number(1)), ("alpha", number(2))])).unwrap();
    assert_eq!(
        ordered,
        [("zeta".to_string(), number(1)), ("alpha".to_string(), number(2))]
    );
    assert_eq!(
        ordered_signatures(vec![(text("zeta"), number(1)), (number(2), number(2))]).unwrap_err(),
        "signature key must be a string"
    );
}

#[test]
fn a_mode_entry_has_exactly_one_execution() {
    let reestablish =
        || ReestablishConnection { exit_steps: Vec::new(), params: NameMap::new() };
    assert!(matches!(
        mode_execution(Some(Vec::new()), None, None),
        Ok(ModeEntryExecution::Ptp { steps }) if steps.is_empty()
    ));
    assert!(matches!(
        mode_execution(None, Some(reestablish()), None),
        Ok(ModeEntryExecution::ReestablishConnection(_))
    ));
    assert!(matches!(
        mode_execution(None, None, Some("turn the dial".to_string())),
        Ok(ModeEntryExecution::UserInstruction { instruction }) if instruction == "turn the dial"
    ));
    let message =
        "mode entry requires exactly one of steps, reestablishConnection, or userInstruction";
    assert_eq!(mode_execution(None, None, None).unwrap_err(), message);
    assert_eq!(
        mode_execution(Some(Vec::new()), Some(reestablish()), None).unwrap_err(),
        message
    );
    assert_eq!(
        mode_execution(Some(Vec::new()), None, Some("turn".to_string())).unwrap_err(),
        message
    );
}
