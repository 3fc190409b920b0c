//! The rules on a manifest, its lints, and the queries on it.

use camera_config::model::{Evidence, ObjectSizeHandler, ScalarEncoding};
use camera_config::name_map::NameMap;
use camera_config::query::{Availability, Support};
use camera_config::yaml::Yaml;
use camera_config::{
    ActionVerb, AvailableWhen, AwaitSource, AwaitUntil, CameraIdentity, CameraManifest, Connection,
    ConnectionActivityBinding, ConnectionActivityDescriptor, ConnectionActivityDisplayRole,
    ConnectionActivityExecutorSpan, ConnectionActivitySequence, ExecutorSpanBinding,
    Control, Descriptor, DescriptorValue, InitIdentity, InitShape, Leaf, Mode, ModeEntry,
    ModeEntryExecution, Operation, OperationHandler, OperationKind, PcssDiscoveryTarget,
    PcssDiscoveryTargets, PcssKnock, Predicate, PropView, Property, PropertyAccess, PropertyKind,
    ReestablishConnection, SemanticAssertionLedger, SentinelFrame, SetPropValue, Severity, Step,
    StepParam, TransportClose, ValuePolicy, ValueSource, VersionCond, VersionScheme, Workflow,
    SCHEMA_VERSION,
};

fn map<V>(entries: Vec<(&str, V)>) -> NameMap<V> {
    let mut out = NameMap::new();
    for (key, value) in entries {
        out.insert(key.to_string(), value);
    }
    out
}

fn texts(v: &[&str]) -> Vec<String> {
    v.iter().map(|s| s.to_string()).collect()
}

fn manifest(manufacturer: &str, model: &str, firmware: &str) -> CameraManifest {
    CameraManifest {
        schema: SCHEMA_VERSION.to_string(),
        camera: CameraIdentity {
            manufacturer: manufacturer.into(),
            model: model.into(),
            firmware: firmware.into(),
            identities: NameMap::new(),
        },
        evidence: NameMap::new(),
        semantic_assertions: SemanticAssertionLedger::default(),
        sentinels: NameMap::new(),
        sequence_gates: NameMap::new(),
        camera_initiated_transfer: None,
        operations: NameMap::new(),
        properties: NameMap::new(),
        workflows: NameMap::new(),
        media: None,
        focus_grid: None,
        events: NameMap::new(),
        quirks: Vec::new(),
        modes: NameMap::new(),
        connections: NameMap::new(),
        values: NameMap::new(),
    }
}

fn operation(name: &str) -> Operation {
    Operation {
        name: name.into(),
        kind: OperationKind::Executable,
        owner: String::new(),
        data_phase: None,
        params: Vec::new(),
        workflows: Vec::new(),
        handler: None,
        property: None,
        object_size: None,
        modes: Vec::new(),
        connections: Vec::new(),
        requires: None,
        requires_gate: None,
        effects: Vec::new(),
        emits: Vec::new(),
        evidence: Vec::new(),
        observed_scopes: Vec::new(),
    }
}

fn property(name: &str) -> Property {
    Property {
        name: name.into(),
        ptp_name: None,
        ptype: None,
        access: None,
        initial_value: None,
        kind: PropertyKind::Setting,
        descriptor: None,
        payload: None,
        computed: None,
        controls: NameMap::new(),
        labels: NameMap::new(),
        value_rows: Vec::new(),
        value_profiles: Vec::new(),
        value_encoding: None,
        structured_text: None,
        requires_gate: None,
        evidence: Vec::new(),
        observed_scopes: Vec::new(),
    }
}

fn leaf(prop: &str) -> Leaf {
    Leaf {
        prop: prop.into(),
        mask: None,
        eq: None,
        ne: None,
        lt: None,
        gt: None,
    }
}

fn step() -> Step {
    Step { repeat: 1, ..Default::default() }
}

fn ints(v: &[i64]) -> Vec<DescriptorValue> {
    v.iter().map(|n| DescriptorValue::Int(*n)).collect()
}

fn sample() -> CameraManifest {
    let mut m = manifest("FUJIFILM", "GFX100 II", "2.30");
    m.operations = map(vec![(
        "0x101c",
        Operation {
            owner: "standard-ptp".into(),
            workflows: texts(&["liveView"]),
            evidence: texts(&["appLiveViewCapture"]),
            ..operation("InitiateOpenCapture")
        },
    )]);
    m.properties = map(vec![(
        "0x5007",
        Property {
            ptp_name: Some("FNumber".into()),
            ptype: Some("u16".into()),
            access: Some(PropertyAccess::ReadWrite),
            descriptor: Some(Descriptor {
                form: "enum".into(),
                values: ints(&[280, 400, 560, 800, 65535]),
                source: None,
            }),
            controls: map(vec![
                (
                    "liveView",
                    Control {
                        set_method: Some("vendorStep".into()),
                        operation: Some("0x902d".into()),
                        readback: Some("0xd212".into()),
                    },
                ),
                (
                    "tether",
                    Control {
                        set_method: Some("absolute".into()),
                        operation: Some("0x1016".into()),
                        readback: None,
                    },
                ),
            ]),
            labels: map(vec![("280", "f/2.8".to_string()), ("65535", "body".to_string())]),
            evidence: texts(&["appLiveViewCapture"]),
            ..property("aperture")
        },
    )]);
    m.workflows = map(vec![(
        "liveView",
        Workflow {
            transport: Some("appAp".into()),
            states: texts(&["sessionOpen", "streaming"]),
            transitions: Vec::new(),
            sockets: NameMap::new(),
            evidence: Vec::new(),
        },
    )]);
    m.evidence = map(vec![(
        "appLiveViewCapture",
        Evidence {
            kind: "wire-capture".into(),
            path: "docs/APP_LIVEVIEW_CODE_MAP.md".into(),
            date: String::new(),
        },
    )]);
    m
}

fn refusal(m: &CameraManifest) -> String {
    m.require_valid_mode_entries().unwrap_err().message()
}

#[test]
fn loads_and_queries() {
    let m = sample();
    assert!(m.require_valid_mode_entries().is_ok());
    m.require_supported_schema().unwrap();
    assert_eq!(m.camera.model, "GFX100 II");

    assert_eq!(m.supports_operation("liveView", 0x101c), Support::InWorkflow);
    assert_eq!(m.supports_operation("imageImport", 0x101c), Support::WrongWorkflow);
    assert_eq!(m.supports_operation("liveView", 0x9999), Support::Unsupported);

    let lv = m.control_for(0x5007, "liveView").unwrap();
    assert_eq!(lv.set_method.as_deref(), Some("vendorStep"));
    assert_eq!(lv.operation.as_deref(), Some("0x902d"));
    let tether = m.control_for(0x5007, "tether").unwrap();
    assert_eq!(tether.set_method.as_deref(), Some("absolute"));

    assert_eq!(m.value_label(0x5007, 280), Some("f/2.8"));
    assert_eq!(m.value_label(0x5007, 65535), Some("body"));
    assert_eq!(m.value_label(0x5007, 999), None);
}

#[test]
fn defined_evidence_produces_no_lint() {
    assert!(sample().validate().is_empty());
}

#[test]
fn unresolved_evidence_is_a_warning_not_an_error() {
    let mut m = sample();
    m.evidence = NameMap::new();
    assert!(m.require_valid_mode_entries().is_ok(), "still loads");
    let lints = m.validate();
    assert!(!lints.is_empty(), "should warn about unresolved evidence");
    assert!(lints.iter().all(|l| l.severity == Severity::Warning));
}

#[test]
fn descriptor_values_must_match_the_property_type() {
    let with_property = |ptype: &str, values: Vec<DescriptorValue>| {
        let mut m = manifest("EXAMPLE", "MODEL", "1.0");
        m.properties = map(vec![(
            "0xd001",
            Property {
                ptype: Some(ptype.into()),
                descriptor: Some(Descriptor { form: "enum".into(), values, source: None }),
                ..property("example")
            },
        )]);
        m
    };

    let string_error =
        refusal(&with_property("u16", vec![DescriptorValue::Str("4000x2664".into())]));
    assert!(
        string_error.contains(
            "properties.0xd001.descriptor.values contains a string value but property 0xd001 does not have type str"
        ),
        "got: {string_error}"
    );

    let integer_error = refusal(&with_property("str", ints(&[1])));
    assert!(
        integer_error.contains(
            "properties.0xd001.descriptor.values contains an integer value but property 0xd001 has type str; string enum values must be quoted in YAML"
        ),
        "got: {integer_error}"
    );
}

fn with_initial(ptype: &str, value: DescriptorValue) -> CameraManifest {
    let mut m = manifest("EXAMPLE", "MODEL", "1.0");
    m.properties = map(vec![(
        "0xd001",
        Property {
            ptype: Some(ptype.into()),
            initial_value: Some(value),
            ..property("example")
        },
    )]);
    m
}

#[test]
fn string_properties_must_not_have_integer_initial_values() {
    let error = refusal(&with_initial("str", DescriptorValue::Int(1)));
    assert!(
        error.contains(
            "properties.0xd001.initialValue must be a quoted string for a property with type str"
        ),
        "got: {error}"
    );
}

#[test]
fn string_properties_accept_quoted_string_initial_values() {
    let m = with_initial("str", DescriptorValue::Str("4000x2664".into()));
    assert!(m.require_valid_mode_entries().is_ok());
    assert_eq!(
        m.properties.get("0xd001").unwrap().initial_value,
        Some(DescriptorValue::Str("4000x2664".to_string()))
    );
}

#[test]
fn numeric_properties_reject_string_initial_values() {
    let error = refusal(&with_initial("u16", DescriptorValue::Str("4000x2664".into())));
    assert!(
        error.contains(
            "properties.0xd001.initialValue must be an integer for a property with a numeric type"
        ),
        "got: {error}"
    );
}

#[test]
fn range_descriptors_reject_string_values_but_allow_empty_string_ranges() {
    let with_values = |values: Vec<DescriptorValue>| {
        let mut m = manifest("EXAMPLE", "MODEL", "1.0");
        m.properties = map(vec![(
            "0xd001",
            Property {
                ptype: Some("str".into()),
                descriptor: Some(Descriptor { form: "range".into(), values, source: None }),
                ..property("example")
            },
        )]);
        m
    };

    let error = refusal(&with_values(vec![
        DescriptorValue::Str("a".into()),
        DescriptorValue::Str("b".into()),
    ]));
    assert!(
        error.contains(
            "properties.0xd001.descriptor.values contains a string value but form range requires integer values"
        ),
        "got: {error}"
    );
    assert!(
        with_values(vec![]).require_valid_mode_entries().is_ok(),
        "an empty range on a string property remains valid"
    );
}

#[test]
fn property_catalog_keys_must_be_hex_codes() {
    let mut m = manifest("EXAMPLE", "MODEL", "1.0");
    m.properties = map(vec![("0xzz", property("invalid"))]);
    let error = refusal(&m);
    assert!(
        error.contains("properties map key '0xzz' is not a hex property code"),
        "got: {error}"
    );
}

#[test]
fn operation_catalog_keys_must_be_hex_codes() {
    let mut m = manifest("EXAMPLE", "MODEL", "1.0");
    m.operations = map(vec![("0xzz", operation("invalid"))]);
    let error = refusal(&m);
    assert!(
        error.contains("operations map key '0xzz' is not a hex operation code"),
        "got: {error}"
    );
}

#[test]
fn init_shape_validation_lints_undefined_evidence() {
    let with_init = |evidence: &str| {
        let mut m = sample();
        m.connections = map(vec![(
            "app",
            Connection {
                init: Some(InitShape {
                    identity: InitIdentity {
                        guid: "initiatorGuid".into(),
                        friendly_name: "initFriendlyName".into(),
                        client_ipv4: None,
                    },
                    name_field_byte_count: 54,
                    evidence: texts(&[evidence]),
                    expected_responder_guid: None,
                }),
                ..Default::default()
            },
        )]);
        assert!(m.require_valid_mode_entries().is_ok(), "init-shape manifest loads");
        m
    };

    assert!(
        with_init("appLiveViewCapture").validate().is_empty(),
        "defined init-shape evidence should not produce a lint"
    );

    let lints = with_init("missingInitEvidence").validate();
    assert!(
        lints.iter().any(|lint| {
            lint.message.contains(
                "connection app init references evidence id 'missingInitEvidence' which is not defined",
            )
        }),
        "missing init-shape evidence lint; got {lints:?}"
    );
    assert!(lints.iter().all(|lint| lint.severity == Severity::Warning));
}

#[test]
fn sentinel_validation_lints_evidence_reference_and_bytes() {
    let mut m = sample();
    m.sentinels = map(vec![(
        "badFrame",
        SentinelFrame {
            bytes: "0xz".into(),
            evidence: texts(&["missingEvidence"]),
        },
    )]);
    assert!(m.require_valid_mode_entries().is_ok(), "sentinel manifest loads");
    let messages: Vec<_> = m.validate().into_iter().map(|l| l.message).collect();
    assert!(
        messages
            .iter()
            .any(|m| m.contains("sentinel badFrame references evidence id 'missingEvidence'")),
        "missing sentinel evidence lint; got {messages:?}"
    );
    assert!(
        messages.iter().any(|m| m.contains("sentinel badFrame has invalid hex bytes")),
        "missing sentinel bytes lint; got {messages:?}"
    );
}

#[test]
fn transport_close_validation_lints_unknown_sentinel() {
    let mut m = sample();
    m.connections = map(vec![(
        "app",
        Connection {
            transport_close: Some(TransportClose {
                sentinel: "missingFrame".into(),
                when: None,
            }),
            ..Default::default()
        },
    )]);
    assert!(m.require_valid_mode_entries().is_ok(), "transport-close manifest loads");
    let messages: Vec<_> = m.validate().into_iter().map(|l| l.message).collect();
    assert!(
        messages.iter().any(|m| {
            m.contains(
                "connection app transportClose references sentinel 'missingFrame' which is not defined",
            )
        }),
        "missing unknown transport-close sentinel lint; got {messages:?}"
    );
}

#[test]
fn pcss_discovery_targets_are_closed_and_consistent() {
    let with_targets = |default: PcssDiscoveryTarget, supported: Vec<PcssDiscoveryTarget>| {
        let mut m = sample();
        m.connections = map(vec![(
            "wireless-tether",
            Connection {
                knock: Some(PcssKnock {
                    callback_port: 51560,
                    knock_port: 51562,
                    protocol: "PCSS/1.0".into(),
                    camera_name: None,
                    discovery_targets: PcssDiscoveryTargets {
                        default,
                        supported,
                        retry_discovered_unicast: true,
                    },
                    retry_interval_ms: 10_000,
                    max_attempts: 10,
                    connect_timeout_ms: 5_000,
                }),
                ..Default::default()
            },
        )]);
        m
    };
    let broadcast = PcssDiscoveryTarget::SubnetBroadcast;
    let unicast = PcssDiscoveryTarget::ExplicitUnicast;
    assert!(
        with_targets(broadcast, vec![broadcast, unicast]).require_valid_mode_entries().is_ok(),
        "valid PCSS target modes load"
    );
    assert!(refusal(&with_targets(unicast, vec![broadcast]))
        .contains("default must be listed in supported"));
    assert!(refusal(&with_targets(broadcast, vec![broadcast, broadcast]))
        .contains("must not contain duplicates"));
    assert!(refusal(&with_targets(broadcast, vec![broadcast]))
        .contains("retryDiscoveredUnicast requires subnetBroadcast and explicitUnicast"));
}

#[test]
fn wrong_schema_is_rejected_explicitly() {
    let mut m = sample();
    m.schema = "camera-config/v999".into();
    assert!(m.require_valid_mode_entries().is_ok());
    let error = m.require_supported_schema().unwrap_err();
    assert_eq!(
        error.message(),
        "unsupported schema \"camera-config/v999\"; this build understands \"camera-config/v1\""
    );
}

#[test]
fn property_step_handler_requires_a_property_code() {
    let mut m = manifest("TESTCO", "TM1", "1");
    m.operations = map(vec![(
        "0x902c",
        Operation {
            handler: Some(OperationHandler::PropertyStep),
            ..operation("StepSomething")
        },
    )]);
    let err = refusal(&m);
    assert!(
        err.contains("handler 'property.step' requires a 'property' code"),
        "err: {err}"
    );
}

#[test]
fn object_size_handler_requires_its_block_and_vice_versa() {
    let with_operation = |op: Operation| {
        let mut m = manifest("TESTCO", "TM1", "1");
        m.operations = map(vec![("0x9803", op)]);
        m
    };
    let err = refusal(&with_operation(Operation {
        handler: Some(OperationHandler::ObjectSize),
        ..operation("ObjectSize")
    }));
    assert!(
        err.contains("handler 'object.size' requires an 'objectSize' block"),
        "err: {err}"
    );

    let err = refusal(&with_operation(Operation {
        object_size: Some(ObjectSizeHandler {
            handle_param: 0,
            encoding: ScalarEncoding::U64Le,
            required_params: Vec::new(),
        }),
        ..operation("ObjectSize")
    }));
    assert!(
        err.contains("declares 'objectSize' without handler 'object.size'"),
        "err: {err}"
    );
}

fn grown() -> CameraManifest {
    let mut m = manifest("FUJIFILM", "GFX100 II", "2.30");
    m.operations = map(vec![
        (
            "0x101c",
            Operation {
                modes: texts(&["Shooting"]),
                requires: Some(Predicate::Leaf(Leaf {
                    mask: Some(0x00ff),
                    ne: Some(0),
                    ..leaf("0xd212")
                })),
                ..operation("InitiateOpenCapture")
            },
        ),
        (
            "0x902d",
            Operation {
                modes: texts(&["Shooting/Stills"]),
                connections: texts(&["xlv-http"]),
                ..operation("StepFNumber")
            },
        ),
    ]);
    m.properties = map(vec![(
        "0xd001",
        Property {
            descriptor: Some(Descriptor {
                form: "enum".into(),
                values: Vec::new(),
                source: Some(ValueSource::Camera),
            }),
            ..property("recordingMode")
        },
    )]);
    m.modes = map(vec![
        (
            "Shooting",
            Mode { capabilities: texts(&["exposureControl"]), ..Default::default() },
        ),
        (
            "Shooting/Stills",
            Mode {
                capabilities: texts(&["liveView"]),
                detect: Some(Predicate::Leaf(Leaf { eq: Some(0x1600), ..leaf("0xdf01") })),
                ..Default::default()
            },
        ),
    ]);
    m.connections = map(vec![
        (
            "xlv-http",
            Connection {
                kind: Some("http".into()),
                modes: texts(&["Shooting/Video"]),
                ..Default::default()
            },
        ),
        (
            "instax-printer",
            Connection {
                ref_id: Some("instax-printer".into()),
                available_when: Some(AvailableWhen {
                    firmware: Some(VersionCond { lt: Some("2.40".into()), ..Default::default() }),
                }),
                ..Default::default()
            },
        ),
    ]);
    m.values = map(vec![
        (
            "initiatorGuid",
            ValuePolicy::Fixed { value: Yaml::String("f2e4538f-...".into()) },
        ),
        (
            "sessionId",
            ValuePolicy::Generated { scheme: "uuidv4".into(), persist: true },
        ),
    ]);
    m
}

#[test]
fn grown_schema_loads() {
    let m = grown();
    assert!(m.require_valid_mode_entries().is_ok());
    assert_eq!(m.modes.len(), 2);
    assert!(m.modes.get("Shooting/Stills").unwrap().detect.is_some());
    assert_eq!(m.operations.get("0x902d").unwrap().connections, vec!["xlv-http"]);
    assert!(m.operation(0x101c).unwrap().requires.is_some());
    assert_eq!(m.mode_paths(), vec!["Shooting", "Shooting/Stills"]);
}

#[test]
fn instax_fw_gate_present_on_230_gone_on_240() {
    let m = grown();
    let cond = m.connections.get("instax-printer").unwrap().available_when.as_ref().unwrap();
    let s = VersionScheme::DottedInt;
    assert!(cond.matches("2.30", s), "instax available on 2.30");
    assert!(cond.matches("2.39", s));
    assert!(!cond.matches("2.40", s), "instax removed at 2.40");
    assert!(!cond.matches("3.00", s));
}

#[test]
fn value_source_inference() {
    let cam = Descriptor {
        form: "enum".into(),
        values: vec![],
        source: Some(ValueSource::Camera),
    };
    assert_eq!(cam.effective_source(), ValueSource::Camera);
    let declared = Descriptor {
        form: "enum".into(),
        values: vec![1.into(), 2.into()],
        source: None,
    };
    assert_eq!(declared.effective_source(), ValueSource::Manifest);
    let empty = Descriptor {
        form: "enum".into(),
        values: vec![],
        source: None,
    };
    assert_eq!(empty.effective_source(), ValueSource::Camera);
}

fn entry(to: &str, from: Option<&str>, steps: Vec<Step>) -> ModeEntry {
    ModeEntry {
        to: to.into(),
        from: from.map(String::from),
        execution: ModeEntryExecution::Ptp { steps },
        activities: Vec::new(),
        requires: None,
    }
}

fn with_entries(kind: Option<&str>, entries: Vec<ModeEntry>) -> CameraManifest {
    let mut m = manifest("FUJIFILM", "GFX100 II", "2.30");
    m.connections = map(vec![(
        "app",
        Connection {
            kind: kind.map(String::from),
            entries,
            ..Default::default()
        },
    )]);
    m
}

#[test]
fn mode_entry_steps_parse() {
    let m = with_entries(
        Some("ptpip-app"),
        vec![
            entry(
                "Shooting/Stills",
                None,
                vec![
                    Step {
                        set_prop: Some("0xdf00".into()),
                        value: Some(SetPropValue::Literal(6)),
                        ..step()
                    },
                    Step {
                        set_prop: Some("0xdf01".into()),
                        value: Some(SetPropValue::Literal(0x16)),
                        ..step()
                    },
                    Step { read_echo: Some("0xdf2a".into()), ..step() },
                    Step { send_op: Some("0x902b".into()), repeat: 4, ..step() },
                    Step { send_op: Some("0x101c".into()), ..step() },
                ],
            ),
            entry(
                "ImageTransfer",
                Some("Shooting/Stills"),
                vec![
                    Step { send_op: Some("0x1018".into()), ..step() },
                    Step {
                        set_prop: Some("0xdf01".into()),
                        value: Some(SetPropValue::Literal(0x14)),
                        ..step()
                    },
                ],
            ),
        ],
    );
    assert!(m.require_valid_mode_entries().is_ok());
    let entries = &m.connections.get("app").unwrap().entries;
    assert_eq!(entries.len(), 2);
    let lv = &entries[0];
    assert_eq!(lv.to, "Shooting/Stills");
    assert!(lv.from.is_none(), "cold entry");
    let steps = lv.ptp_steps().expect("PTP execution");
    assert_eq!(steps.len(), 5);
    assert_eq!(steps[0].set_prop.as_deref(), Some("0xdf00"));
    assert_eq!(steps[0].value, Some(SetPropValue::Literal(6)));
    assert_eq!(steps[3].repeat, 4);
    assert_eq!(steps[4].send_op.as_deref(), Some("0x101c"));
    assert!(steps.iter().all(Step::is_well_formed));
    assert_eq!(entries[1].from.as_deref(), Some("Shooting/Stills"));
}

#[test]
fn step_params_tolerant_and_runtime_slots_parse() {
    let m = with_entries(
        None,
        vec![entry(
            "ImageTransfer",
            None,
            vec![
                Step { get_prop: Some("0xdf28".into()), tolerant: true, ..step() },
                Step {
                    set_prop: Some("0xdf28".into()),
                    value: Some(SetPropValue::Literal(3)),
                    ..step()
                },
                Step {
                    send_op: Some("0x9053".into()),
                    params: vec![StepParam::Literal(0), StepParam::Literal(0x7530)],
                    tolerant: true,
                    ..step()
                },
                Step {
                    send_op: Some("0x1018".into()),
                    params: vec![StepParam::Runtime {
                        runtime: "openCaptureTxId".into(),
                        shift: 0,
                        mask: None,
                    }],
                    ..step()
                },
            ],
        )],
    );
    assert!(m.require_valid_mode_entries().is_ok());
    let entries = &m.connections.get("app").unwrap().entries;
    let steps = entries[0].ptp_steps().expect("PTP execution");
    assert!(steps[0].tolerant && steps[0].get_prop.as_deref() == Some("0xdf28"));
    assert_eq!(steps[1].set_prop.as_deref(), Some("0xdf28"));
    assert_eq!(steps[2].params, vec![StepParam::Literal(0), StepParam::Literal(0x7530)]);
    assert_eq!(
        steps[3].params,
        vec![StepParam::Runtime {
            runtime: "openCaptureTxId".into(),
            shift: 0,
            mask: None,
        }]
    );
    assert!(steps.iter().all(Step::is_well_formed));
    assert!(steps[0].is_sequence_gate_matchable());
    assert!(steps[2].is_sequence_gate_matchable());
    assert!(!steps[3].is_sequence_gate_matchable());
}

#[test]
fn await_until_step_parses() {
    let m = with_entries(
        None,
        vec![entry(
            "Shooting/Stills",
            None,
            vec![
                Step {
                    send_op: Some("0x9026".into()),
                    params: vec![StepParam::Literal(0x0906_0403)],
                    ..step()
                },
                Step {
                    await_until: Some(AwaitUntil {
                        source: AwaitSource::Poll { prop: "0xd209".into() },
                        until: Predicate::Leaf(Leaf { eq: Some(1), ..leaf("0xd209") }),
                        on_each: vec![Step {
                            get_prop: Some("0xd212".into()),
                            tolerant: true,
                            ..step()
                        }],
                        timeout_ms: 5000,
                        interval_ms: 250,
                    }),
                    ..step()
                },
            ],
        )],
    );
    assert!(m.require_valid_mode_entries().is_ok());
    let entries = &m.connections.get("app").unwrap().entries;
    let steps = entries[0].ptp_steps().expect("PTP execution");
    assert_eq!(steps.len(), 2);
    assert_eq!(steps[0].send_op.as_deref(), Some("0x9026"));
    let aw = steps[1].await_until.as_ref().expect("awaitUntil parsed");
    assert_eq!(aw.source, AwaitSource::Poll { prop: "0xd209".into() });
    assert_eq!(aw.timeout_ms, 5000);
    assert_eq!(aw.interval_ms, 250);
    assert_eq!(aw.on_each.len(), 1);
    assert_eq!(aw.on_each[0].get_prop.as_deref(), Some("0xd212"));
    assert!(aw.until.eval(&PropView::new().with(0xd209, 1)));
    assert!(!aw.until.eval(&PropView::new().with(0xd209, 0)));
    assert!(steps.iter().all(Step::is_well_formed));
}

#[test]
fn action_verb_parser_is_exact_and_round_trips() {
    for verb in [
        ActionVerb::Shutter,
        ActionVerb::EnumerateObjects,
        ActionVerb::GetObjectInfo,
        ActionVerb::GetThumb,
        ActionVerb::GetObject,
        ActionVerb::DeleteObject,
        ActionVerb::AutofocusLock,
        ActionVerb::AutofocusRelease,
        ActionVerb::ImportObjects,
        ActionVerb::ReadDeviceInfo,
        ActionVerb::StartLiveView,
        ActionVerb::PollLiveView,
        ActionVerb::StopLiveView,
        ActionVerb::Keepalive,
    ] {
        assert_eq!(verb.as_str().parse::<ActionVerb>(), Ok(verb));
    }
    for invalid in ["GetObject", "get-object", " getObject", "unknown"] {
        assert!(invalid.parse::<ActionVerb>().is_err(), "accepted {invalid:?}");
    }
}

fn gated() -> CameraManifest {
    let mut m = manifest("FUJIFILM", "GFX100 II", "2.30");
    m.operations = map(vec![
        (
            "0x902d",
            Operation {
                modes: texts(&["Shooting/Stills"]),
                connections: texts(&["xlv-http"]),
                ..operation("StepFNumber")
            },
        ),
        (
            "0x1007",
            Operation { modes: texts(&["ImageTransfer"]), ..operation("GetObjectHandles") },
        ),
        (
            "0x101c",
            Operation {
                modes: texts(&["Shooting"]),
                requires: Some(Predicate::Leaf(Leaf {
                    mask: Some(0x00ff),
                    ne: Some(0),
                    ..leaf("0xd212")
                })),
                ..operation("InitiateOpenCapture")
            },
        ),
    ]);
    m.modes = map(vec![
        (
            "Shooting",
            Mode { capabilities: texts(&["exposureControl"]), ..Default::default() },
        ),
        (
            "Shooting/Stills",
            Mode {
                capabilities: texts(&["liveView"]),
                detect: Some(Predicate::Leaf(Leaf { eq: Some(0x1600), ..leaf("0xdf01") })),
                ..Default::default()
            },
        ),
        (
            "ImageTransfer",
            Mode {
                detect: Some(Predicate::Leaf(Leaf { eq: Some(0x1400), ..leaf("0xdf01") })),
                ..Default::default()
            },
        ),
    ]);
    m.connections = map(vec![
        ("xlv-http", Connection { kind: Some("http".into()), ..Default::default() }),
        (
            "instax-printer",
            Connection {
                ref_id: Some("instax-printer".into()),
                available_when: Some(AvailableWhen {
                    firmware: Some(VersionCond { lt: Some("2.40".into()), ..Default::default() }),
                }),
                ..Default::default()
            },
        ),
    ]);
    m
}

#[test]
fn gating_intersects_connection_and_mode() {
    let m = gated();
    let any = PropView::new();
    assert_eq!(
        m.operation_available("xlv-http", "Shooting/Stills", 0x902d, &any),
        Availability::Available
    );
    assert_eq!(
        m.operation_available("xlv-http", "ImageTransfer", 0x902d, &any),
        Availability::WrongMode
    );
    assert_eq!(
        m.operation_available("usb", "Shooting/Stills", 0x902d, &any),
        Availability::WrongConnection
    );
    assert_eq!(
        m.operation_available("xlv-http", "Shooting/Stills", 0x9999, &any),
        Availability::Unavailable
    );
}

#[test]
fn mode_prefix_inheritance() {
    let m = gated();
    let any = PropView::new();
    let ready = PropView::new().with(0xd212, 0x01);
    assert_eq!(
        m.operation_available("xlv-http", "Shooting/Stills", 0x101c, &ready),
        Availability::Available
    );
    assert_eq!(
        m.operation_available("xlv-http", "Shooting/Stills", 0x101c, &any),
        Availability::Blocked
    );
    let (availability, trace) =
        m.operation_available_explained("xlv-http", "Shooting/Stills", 0x101c, &any);
    assert_eq!(availability, Availability::Blocked);
    assert!(trace.requires.is_some());
}

#[test]
fn detect_mode_and_capabilities() {
    let m = gated();
    assert_eq!(
        m.detect_mode(&PropView::new().with(0xdf01, 0x1600)),
        Some("Shooting/Stills")
    );
    assert_eq!(m.detect_mode(&PropView::new().with(0xdf01, 0x1400)), Some("ImageTransfer"));
    assert_eq!(m.detect_mode(&PropView::new().with(0xdf01, 0x9999)), None);
    let caps = m.capabilities("Shooting/Stills");
    assert!(caps.contains(&"exposureControl"));
    assert!(caps.contains(&"liveView"));
}

#[test]
fn instax_connection_gated_by_firmware() {
    let m = gated();
    let s = VersionScheme::DottedInt;
    assert!(m.connections_available("2.30", s).contains(&"instax-printer"));
    assert!(!m.connections_available("2.40", s).contains(&"instax-printer"));
    assert!(m.connections_available("2.40", s).contains(&"xlv-http"));
}

#[test]
fn an_accepted_reestablishing_entry_has_a_mechanism_and_a_cold_entry() {
    let reestablish = || ModeEntry {
        to: "ImageTransfer".into(),
        from: Some("Shooting".into()),
        execution: ModeEntryExecution::ReestablishConnection(ReestablishConnection {
            exit_steps: vec![Step { send_op: Some("0x1018".into()), ..step() }],
            params: NameMap::new(),
        }),
        activities: Vec::new(),
        requires: None,
    };
    let cold = || {
        entry(
            "ImageTransfer",
            None,
            vec![Step { send_op: Some("0x101c".into()), ..step() }],
        )
    };
    let mut m = with_entries(None, vec![reestablish(), cold()]);
    assert_eq!(
        refusal(&m),
        "connections.app.entries[0] reestablishes a connection with no establishment mechanism"
    );
    let mut with_mechanism = m.connections.remove("app").unwrap();
    with_mechanism.establishment = Some("ble-establish-wifi-ap".into());
    m.connections.insert("app".into(), with_mechanism);
    assert!(m.require_valid_mode_entries().is_ok());

    let mut without_cold = with_entries(None, vec![reestablish()]);
    let mut c = without_cold.connections.remove("app").unwrap();
    c.establishment = Some("ble-establish-wifi-ap".into());
    without_cold.connections.insert("app".into(), c);
    assert_eq!(
        refusal(&without_cold),
        "connections.app.entries[0] requires a non-recursive cold PTP entry for 'ImageTransfer'"
    );
}

#[test]
fn executor_spans_cover_the_steps_without_a_gap() {
    let activity = |id: &str, start_step: u32, end_step_exclusive: u32| {
        ConnectionActivityDescriptor {
            id: id.into(),
            version: 1,
            display_role: ConnectionActivityDisplayRole::PreparingConnection,
            title: None,
            default_expected_duration_ms: 500,
            interaction_required: false,
            optional: false,
            binding: ConnectionActivityBinding::ExecutorSpan(ExecutorSpanBinding {
                executor_span: ConnectionActivityExecutorSpan {
                    sequence: ConnectionActivitySequence::Steps,
                    start_step,
                    end_step_exclusive,
                },
            }),
        }
    };
    let with_activities = |activities: Vec<ConnectionActivityDescriptor>| {
        let steps = vec![
            Step { send_op: Some("0x101c".into()), ..step() },
            Step { send_op: Some("0x101b".into()), ..step() },
            Step { send_op: Some("0x1018".into()), ..step() },
        ];
        let entry = ModeEntry { activities, ..entry("Shooting", None, steps) };
        with_entries(None, vec![entry])
    };
    let whole = with_activities(vec![activity("mode.open", 0, 1), activity("mode.settle", 1, 3)]);
    assert!(whole.require_valid_mode_entries().is_ok());

    let gap = with_activities(vec![activity("mode.open", 0, 1), activity("mode.settle", 2, 3)]);
    assert_eq!(
        refusal(&gap),
        "connections.app.entries[0].activities[1].executorSpan must continue ordered coverage at \
         step 1"
    );
    let short = with_activities(vec![activity("mode.open", 0, 2)]);
    assert_eq!(
        refusal(&short),
        "connections.app.entries[0].activities covers 2 of 3 top-level steps"
    );
    let unnamed = with_activities(vec![activity("open", 0, 3)]);
    assert_eq!(
        refusal(&unnamed),
        "connections.app.entries[0].activities[0].id must be unique with at least two \
         dot-delimited segments"
    );
}
