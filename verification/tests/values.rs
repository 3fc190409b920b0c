//! The small values of a manifest: codes, sockets, record members, typed numbers.

use camera_config::activity::valid_activity_id;
use camera_config::generate::parse::{read_envelope, BundleLine};
use camera_config::json::Json;
use camera_config::name_map::NameMap;
use camera_config::text::chars_of;
use camera_config::{
    parse_hex_bytes, parse_hex_code, parse_hex_u32, ActionInitiatorParameter,
    ActionInitiatorParameterKind, ActionVerb, DescriptorValue, InventoryCompleteness, Leaf,
    MissingRuntimeValue, OperationKind, Payload, PayloadForm, PropView, PropertyKind, RecordLayout, RecordMember, RecordMemberDetail,
    RecordValueEncoding, RecordValueLiteral, RuntimeSetPropValue, SetPropValue, SocketAvailability, SocketBinding,
    SocketBindingDescriptor, SocketBindings, SocketRole, TypedPropertyValue,
    OBSERVATION_SCHEMA_VERSION,
};

#[test]
fn hexadecimal_codes_are_read() {
    assert_eq!(parse_hex_code("0x101b"), Some(0x101b));
    assert_eq!(parse_hex_code(" 0X101B "), Some(0x101b));
    assert_eq!(parse_hex_code("0x1_0000"), None);
    assert_eq!(parse_hex_code("0x10000"), None);
    assert_eq!(parse_hex_code(""), None);
    assert_eq!(parse_hex_u32("0xffffffff"), Some(u32::MAX));
    assert_eq!(parse_hex_u32("0x100000000"), None);
    assert_eq!(parse_hex_bytes("0x0aFF"), Some(vec![0x0a, 0xff]));
    assert_eq!(parse_hex_bytes("0af"), None);
    assert_eq!(parse_hex_bytes("0x"), None);
}

#[test]
fn activity_ids_have_two_or_more_segments() {
    assert!(valid_activity_id("wifi.join"));
    assert!(valid_activity_id("ble.pair-1.confirm_2"));
    assert!(!valid_activity_id("wifi"));
    assert!(!valid_activity_id("wifi."));
    assert!(!valid_activity_id("wifi.join now"));
}

#[test]
fn texts_are_cut_into_characters() {
    assert_eq!(chars_of("aé✓"), ['a', 'é', '✓']);
}

#[test]
fn kinds_say_what_they_are() {
    assert!(OperationKind::Executable.is_executable());
    assert!(!OperationKind::AdvertisedOnly.is_executable());
    assert!(PropertyKind::Setting.is_setting());
    assert!(!PropertyKind::Scaffold.is_setting());
    assert!(InventoryCompleteness::Partial.is_partial());
    assert!(!InventoryCompleteness::Complete.is_partial());
}

#[test]
fn numbers_fit_or_are_none() {
    assert_eq!(DescriptorValue::Int(-4).as_i64(), Some(-4));
    assert_eq!(DescriptorValue::Str("4".into()).as_i64(), None);
    assert_eq!(Json::Unsigned(7).as_i64(), Some(7));
    assert_eq!(Json::Unsigned(u64::MAX).as_i64(), None);
    assert_eq!(Json::Negative(-7).as_i64(), Some(-7));
    assert_eq!(Json::String("7".into()).as_i64(), None);

    let i64_of = |value: &str| TypedPropertyValue::I64 { value: value.into() };
    assert!(i64_of("-9223372036854775808").has_valid_representation());
    assert_eq!(i64_of("-9223372036854775808").as_i64(), Some(i64::MIN));
    assert!(!i64_of("9223372036854775808").has_valid_representation());
    assert!(!i64_of("007").has_valid_representation());
    assert!(!i64_of("+7").has_valid_representation());
    assert!(TypedPropertyValue::U8 { value: 255 }.has_valid_representation());
    assert_eq!(TypedPropertyValue::U8 { value: 255 }.as_i64(), Some(255));
}

#[test]
fn sockets_have_a_port_and_a_condition() {
    let bindings = SocketBindings {
        host: None,
        command: SocketBinding::Port(15740),
        event: Some(SocketBinding::Descriptor(SocketBindingDescriptor {
            port: 55741,
            available_after: Some(SocketAvailability { operation: "0x101c".into() }),
        })),
        live_view: None,
    };
    assert_eq!(bindings.command.port(), 15740);
    assert!(bindings.command.available_after().is_none());
    assert_eq!(bindings.port_for(SocketRole::Command), Some(15740));
    assert_eq!(bindings.port_for(SocketRole::Event), Some(55741));
    assert_eq!(bindings.port_for(SocketRole::LiveView), None);
    assert_eq!(bindings.binding_for(SocketRole::Command), Some(&SocketBinding::Port(15740)));
    assert_eq!(
        bindings.available_after(SocketRole::Event).map(|a| a.operation.as_str()),
        Some("0x101c")
    );
    assert!(bindings.available_after(SocketRole::LiveView).is_none());
}

#[test]
fn records_are_framed_at_their_declared_widths() {
    let mut payload = Payload {
        form: PayloadForm::RecordStream,
        count_width: None,
        record: None,
        members: Vec::new(),
    };
    assert_eq!(payload.record_widths(), (2, 2, 4));
    payload.count_width = Some(4);
    payload.record = Some(RecordLayout { code_width: 4, value_width: 8 });
    assert_eq!(payload.record_widths(), (4, 4, 8));

    let bare = RecordMember::Code("0xd001".into());
    assert!(bare.simulator_value().is_none());
    let detailed = RecordMember::Detailed(RecordMemberDetail {
        code: "0xd002".into(),
        encoding: RecordValueEncoding::Fixed { width: 2 },
        simulator_value: Some(RecordValueLiteral::Unsigned(3)),
    });
    assert_eq!(detailed.simulator_value(), Some(&RecordValueLiteral::Unsigned(3)));
}

#[test]
fn a_bare_parameter_name_is_a_required_number() {
    let declared = ActionInitiatorParameter::Shorthand("handle".into()).normalized();
    assert_eq!(declared.name, "handle");
    assert_eq!(declared.kind, ActionInitiatorParameterKind::U64);
    assert!(declared.required);
    let again = ActionInitiatorParameter::Expanded(declared).normalized();
    assert_eq!(again.name, "handle");
    assert!(again.required);
}

#[test]
fn observations_are_looked_up_by_code() {
    let mut view = PropView::new();
    view.set(0xd212, 5);
    view.set(0xd212, 6);
    let leaf = Leaf {
        prop: "0xd212".into(),
        mask: None,
        eq: Some(6),
        ne: None,
        lt: None,
        gt: None,
    };
    assert_eq!(leaf.observed_in(&view), Some(6));
    let unread = Leaf { prop: "0xd213".into(), ..leaf };
    assert_eq!(unread.observed_in(&view), None);
}

#[test]
fn maps_keep_their_names_in_order() {
    let mut map = NameMap::new();
    map.insert("b".to_string(), 1);
    map.insert("a".to_string(), 2);
    map.insert("b".to_string(), 3);
    assert_eq!(map.key_at(0), "a");
    assert_eq!(*map.value_at(1), 3);
    assert_eq!(map.into_entries(), [("a".to_string(), 2), ("b".to_string(), 3)]);
}

#[test]
fn an_envelope_decides_who_a_line_is() {
    let line = |decoded: &str| BundleLine {
        text: "{}".to_string(),
        decoded: Err(decoded.to_string()),
    };
    let some = |s: &str| Some(s.to_string());

    let missing = read_envelope(line("unread"), some("r1"), some("run"), None);
    assert_eq!(missing.identity, "run:r1");
    assert!(missing.counts_as_record);
    assert_eq!(missing.faults[0].code, "O002");
    assert_eq!(missing.faults[0].message, "record is missing string field 'schema'");

    let unknown = read_envelope(line("unread"), some("r1"), None, some("other/v1"));
    assert_eq!(unknown.identity, "unknown-run:r1");
    assert_eq!(unknown.faults[0].message, "unknown schema \"other/v1\"");

    let invalid =
        read_envelope(line("missing field"), None, None, some(OBSERVATION_SCHEMA_VERSION));
    assert_eq!(
        invalid.identity,
        "raw:44136fa355b3678a1146ad16f7e8649e94fb4fc21fe77e8310c060f61caaff8a"
    );
    assert_eq!(invalid.faults[0].code, "O003");
    assert_eq!(invalid.faults[0].message, "invalid or unknown record: missing field");
}

#[test]
fn a_parameter_equals_its_name() {
    let short = ActionInitiatorParameter::Shorthand("handle".into());
    let full = ActionInitiatorParameter::Expanded(short.normalized());
    for parameter in [&short, &full] {
        assert!(*parameter == "handle");
        assert!(*parameter == "handle".to_string());
        assert!(*parameter != "Handle");
        assert!(*parameter != "handle ".to_string());
    }
}

#[test]
fn a_set_value_equals_the_literal_that_it_is() {
    assert!(SetPropValue::from(6) == 6);
    assert!(SetPropValue::from(6) != 7);
    let runtime = SetPropValue::Runtime(RuntimeSetPropValue {
        runtime: "6".into(),
        if_missing: MissingRuntimeValue::Error,
    });
    assert!(runtime != 6);
}

#[test]
fn a_text_makes_a_text_value() {
    assert_eq!(DescriptorValue::from("6"), DescriptorValue::Str("6".into()));
    assert_eq!(DescriptorValue::from(6), DescriptorValue::Int(6));
}

#[test]
fn a_text_that_names_no_verb_is_named_in_the_error() {
    assert_eq!(
        "get-object".parse::<ActionVerb>(),
        Err("unknown action verb 'get-object'".to_string())
    );
}
