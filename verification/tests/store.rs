//! Configuration stores: single bodies, and a manufacturer index with its bodies.

use std::sync::Arc;

use camera_config::index::types::{
    BleAdvertConstants, BleAdvertSignature, Confidence, FamilyBleBlock, ModelView,
    ReconnectDisposition, ReconnectSuggestion, ResolvedManufacturerIndex, Signature,
    SuggestsBlock,
};
use camera_config::index::types::{AdvertPredicate, BleReconnectPolicy, LocalNamePredicate};
use camera_config::model::{
    BleLiteralWrite, BleStateTrigger, CameraInitiatedData, CameraInitiatedHandoff,
    CameraInitiatedMetadata, CameraInitiatedMetadataPhase, CameraInitiatedMonitorRecovery,
    CameraInitiatedReceive, CameraInitiatedTransfer, CameraInitiatedTrigger, RecordMemberRef,
    SocketBinding, SocketBindings, SocketRole, TransferCompletion, TriggerMatch,
};
use camera_config::name_map::NameMap;
use camera_config::store::{resolve_camera_initiated_transfer, ModelBodies};
use camera_config::yaml::Yaml;
use camera_config::{
    AvailableWhen, CameraIdentity, CameraManifest, ConfigError, ConfigStore, Connection,
    ManufacturerDefaults, SemanticAssertionLedger, ValuePolicy, VersionCond, VersionScheme,
    SCHEMA_VERSION,
};

fn map<V>(entries: Vec<(&str, V)>) -> NameMap<V> {
    let mut out = NameMap::new();
    for (key, value) in entries {
        out.insert(key.to_string(), value);
    }
    out
}

fn manifest(model: &str, firmware: &str) -> CameraManifest {
    CameraManifest {
        schema: SCHEMA_VERSION.to_string(),
        camera: CameraIdentity {
            manufacturer: "FUJIFILM".into(),
            model: model.into(),
            firmware: firmware.into(),
            identities: NameMap::new(),
        },
        evidence: NameMap::new(),
        semantic_assertions: SemanticAssertionLedger::default(),
        sentinels: NameMap::new(),
        sequence_gates: NameMap::new(),
        camera_initiated_transfer: None,
        operations: NameMap::new(),
        properties: NameMap::new(),
        workflows: NameMap::new(),
        media: None,
        focus_grid: None,
        events: NameMap::new(),
        quirks: Vec::new(),
        modes: NameMap::new(),
        connections: NameMap::new(),
        values: NameMap::new(),
    }
}

fn body() -> CameraManifest {
    let mut m = manifest("GFX100 II", "2.30");
    m.values = map(vec![(
        "sessionId",
        ValuePolicy::Generated { scheme: "uuidv4".into(), persist: false },
    )]);
    m.connections = map(vec![(
        "instax-printer",
        Connection {
            ref_id: Some("instax-printer".into()),
            available_when: Some(AvailableWhen {
                firmware: Some(VersionCond { lt: Some("2.40".into()), ..Default::default() }),
                ..Default::default()
            }),
            ..Default::default()
        },
    )]);
    m
}

fn fuji() -> ManufacturerDefaults {
    ManufacturerDefaults {
        manufacturer: "FUJIFILM".into(),
        version_order: Some("dotted-int".into()),
        values: map(vec![
            ("initiatorGuid", ValuePolicy::Fixed { value: Yaml::String("f2e4538f-...".into()) }),
            (
                "sessionId",
                ValuePolicy::Fixed { value: Yaml::String("should-be-overridden".into()) },
            ),
        ]),
        extra: NameMap::new(),
    }
}

fn store() -> ConfigStore {
    ConfigStore::new(body()).with_manufacturer(fuji())
}

#[test]
fn version_scheme_resolves_with_failsoft_default() {
    assert_eq!(store().version_scheme(), VersionScheme::DottedInt);
    // No manufacturer / unknown name -> default scheme, no panic.
    let bare = ConfigStore::new(body());
    assert_eq!(bare.version_scheme(), VersionScheme::DottedInt);
    let mut odd = fuji();
    odd.version_order = Some("no-such-order".into());
    let odd = ConfigStore::new(body()).with_manufacturer(odd);
    assert_eq!(odd.version_scheme(), VersionScheme::DottedInt);
}

#[test]
fn value_body_overrides_manufacturer() {
    let s = store();
    // Body defines sessionId -> body wins over the manufacturer's fixed value.
    assert!(matches!(s.value("sessionId"), Some(ValuePolicy::Generated { .. })));
    // Manufacturer-only value falls through.
    assert!(matches!(s.value("initiatorGuid"), Some(ValuePolicy::Fixed { .. })));
    assert!(s.value("nope").is_none());
}

#[test]
fn connections_available_uses_camera_firmware() {
    // firmware "2.30" in the body -> instax available.
    assert!(store().connections_available().contains(&"instax-printer"));
    let mut later = body();
    later.camera.firmware = "2.40".into();
    assert!(ConfigStore::new(later).connections_available().is_empty());
}

#[test]
fn model_store_selects_requested_body_for_direct_queries() {
    let mut indexed = store();
    let mut second = manifest("X-T5", "4.20");
    second.connections = map(vec![(
        "app",
        Connection { kind: Some("ptpip".into()), ..Default::default() },
    )]);
    indexed.bodies.insert("xt5".into(), Arc::new(second));

    let selected = indexed.model_store("xt5").expect("indexed body exists");
    assert_eq!(selected.manifest.camera.model, "X-T5");
    assert!(selected.manifest.connections.contains_key("app"));
    assert!(selected.value("initiatorGuid").is_some());
    assert!(indexed.model_store("missing").is_none());
    assert_eq!(indexed.body("xt5").unwrap().camera.firmware, "4.20");
    assert!(indexed.body("missing").is_none());
}

const UUID: &str = "F557D96B-8FD1-4A37-A22E-9DE5E5EE9D3A";

fn transfer() -> CameraInitiatedTransfer {
    CameraInitiatedTransfer {
        trigger: CameraInitiatedTrigger {
            match_mode: TriggerMatch::All,
            states: vec![BleStateTrigger {
                gatt: "autoTransferState".into(),
                trigger_values: vec!["01".into(), "0x0203".into()],
                baseline_values: vec!["00".into()],
            }],
        },
        handoff: CameraInitiatedHandoff {
            connection: "app".into(),
            socket_role: SocketRole::Command,
            cached_credentials_allowed: true,
            function_launch: Some(BleLiteralWrite {
                gatt: UUID.into(),
                value: "0a0b".into(),
                required: true,
            }),
        },
        monitor_recovery: None,
        receive: CameraInitiatedReceive {
            mode: "transfer".into(),
            count: RecordMemberRef { property: "0xd222".into(), member: "0xd500".into() },
            head_index: 1,
            metadata: CameraInitiatedMetadata {
                operation: "0x1008".into(),
                phases: vec![CameraInitiatedMetadataPhase::AfterModeEntry],
            },
            data: CameraInitiatedData {
                operation: "0x101b".into(),
                chunk_limit_property: "0xd235".into(),
            },
            completion: TransferCompletion::ReadToEof,
        },
        evidence: vec!["capture".into()],
    }
}

fn app_body() -> CameraManifest {
    let mut m = manifest("X-T5", "4.20");
    m.connections = map(vec![(
        "app",
        Connection {
            kind: Some("ptpip".into()),
            bindings: Some(SocketBindings {
                host: Some("192.168.0.1".into()),
                command: SocketBinding::Port(55740),
                event: None,
                live_view: None,
            }),
            ..Default::default()
        },
    )]);
    m
}

fn gatt() -> NameMap<String> {
    map(vec![("autoTransferState", UUID.to_string())])
}

#[test]
fn a_transfer_is_resolved_to_codes_bytes_and_an_endpoint() {
    let resolved =
        resolve_camera_initiated_transfer("xt5", &transfer(), &gatt(), &app_body()).unwrap();
    assert_eq!(resolved.trigger_states.len(), 1);
    assert_eq!(resolved.trigger_states[0].gatt_uuid, UUID);
    assert_eq!(resolved.trigger_states[0].trigger_values, vec![vec![1], vec![2, 3]]);
    assert_eq!(resolved.trigger_states[0].baseline_values, vec![vec![0]]);
    assert_eq!(resolved.endpoint_host.as_deref(), Some("192.168.0.1"));
    assert_eq!(resolved.endpoint_port, 55740);
    assert_eq!(resolved.function_launch.as_ref().unwrap().value, vec![10, 11]);
    assert_eq!(resolved.count_property, 0xd222);
    assert_eq!(resolved.count_member, 0xd500);
    assert_eq!(resolved.metadata_operation, 0x1008);
    assert_eq!(resolved.data_operation, 0x101b);
    assert_eq!(resolved.chunk_limit_property, 0xd235);
    assert_eq!(resolved.evidence, vec!["capture".to_string()]);
}

fn fault(r: Result<camera_config::ResolvedCameraInitiatedTransfer, ConfigError>) -> (String, String) {
    match r {
        Err(ConfigError::Validation { path, message }) => (path, message),
        other => panic!("expected a validation fault, got {other:?}"),
    }
}

#[test]
fn a_transfer_that_names_nothing_known_is_refused_where_it_does() {
    let at = "models.xt5.cameraInitiatedTransfer";
    let body = app_body();
    let refuse = |t: &CameraInitiatedTransfer, names: &NameMap<String>| {
        fault(resolve_camera_initiated_transfer("xt5", t, names, &body))
    };
    let (path, message) = refuse(&transfer(), &NameMap::new());
    assert_eq!(path, format!("{at}.trigger.states[0].gatt"));
    assert!(message.contains("autoTransferState"));

    let mut t = transfer();
    t.trigger.states[0].trigger_values[1] = "0x02g".into();
    assert_eq!(
        refuse(&t, &gatt()),
        (
            format!("{at}.trigger.states[0].triggerValues[1]"),
            "invalid hex bytes '0x02g'".to_string()
        )
    );

    let mut t = transfer();
    t.handoff.connection = "usb".into();
    assert_eq!(
        refuse(&t, &gatt()),
        (format!("{at}.handoff.connection"), "unknown connection 'usb'".to_string())
    );

    let mut t = transfer();
    t.handoff.socket_role = SocketRole::Event;
    let (path, message) = refuse(&t, &gatt());
    assert_eq!(path, format!("{at}.handoff.socketRole"));
    assert!(message.starts_with("connection does not bind role"));

    let mut t = transfer();
    t.receive.data.chunk_limit_property = "limit".into();
    assert_eq!(
        refuse(&t, &gatt()),
        (
            format!("{at}.receive.data.chunkLimitProperty"),
            "invalid PTP code 'limit'".to_string()
        )
    );
}

fn view(id: &str) -> ModelView {
    ModelView {
        id: id.into(),
        display_name: id.to_uppercase(),
        fallback: false,
        manifest_path: format!("{id}.yaml"),
        ble: Some(FamilyBleBlock {
            gatt: gatt(),
            advert: BleAdvertConstants::default(),
            establishments: NameMap::new(),
            reconnect: None,
            actions: NameMap::new(),
        }),
        pcss: None,
        signatures: Vec::new(),
    }
}

fn index(models: Vec<ModelView>) -> ResolvedManufacturerIndex {
    ResolvedManufacturerIndex { manufacturer: "FUJIFILM".into(), models }
}

fn with_transfer() -> CameraManifest {
    let mut m = app_body();
    m.evidence = map(vec![(
        "capture",
        camera_config::model::Evidence {
            kind: "wire-capture".into(),
            path: "capture.md".into(),
            date: String::new(),
        },
    )]);
    m.camera_initiated_transfer = Some(transfer());
    m
}

fn bodies(entries: Vec<(&str, CameraManifest)>) -> ModelBodies {
    let mut out = NameMap::new();
    for (id, m) in entries {
        out.insert(id.to_string(), Ok(Arc::new(m)));
    }
    out
}

#[test]
fn an_index_is_loaded_with_the_first_model_as_its_manifest() {
    let loaded = ConfigStore::from_manufacturer_index(
        index(vec![view("gfx"), view("xt5")]),
        &bodies(vec![("gfx", body()), ("xt5", app_body())]),
    )
    .unwrap();
    assert_eq!(loaded.manifest.camera.model, "GFX100 II");
    assert_eq!(loaded.body("xt5").unwrap().camera.model, "X-T5");
    assert_eq!(loaded.index.as_ref().unwrap().models.len(), 2);
    assert!(loaded.manufacturer.is_none());
    assert!(loaded.camera_initiated_transfer("xt5").is_none());
}

#[test]
fn an_index_without_models_is_refused() {
    let refused = ConfigStore::from_manufacturer_index(index(vec![]), &bodies(vec![]));
    match refused {
        Err(ConfigError::Validation { path, message }) => {
            assert_eq!(path, "models");
            assert_eq!(message, "manufacturer index declares zero models");
        }
        other => panic!("expected a validation fault, got {other:?}"),
    }
}

#[test]
fn a_body_that_cannot_be_read_ends_the_load() {
    let mut unread: ModelBodies = NameMap::new();
    unread.insert("gfx".into(), Err("no such file".into()));
    let refused = ConfigStore::from_manufacturer_index(index(vec![view("gfx")]), &unread);
    assert!(refused.is_err());
    let missing =
        ConfigStore::from_manufacturer_index(index(vec![view("gfx")]), &bodies(vec![]));
    assert!(missing.is_err());
}

#[test]
fn monitor_recovery_needs_a_saved_camera_route() {
    let mut m = with_transfer();
    if let Some(t) = &mut m.camera_initiated_transfer {
        t.monitor_recovery = Some(CameraInitiatedMonitorRecovery::SavedCameraReconnect);
    }
    let refused =
        ConfigStore::from_manufacturer_index(index(vec![view("xt5")]), &bodies(vec![("xt5", m)]));
    assert!(refused.is_err());
}

#[test]
fn signatures_are_found_by_name() {
    let mut v = view("xt5");
    v.signatures.push((
        "paired".into(),
        Signature::BleAdvert(BleAdvertSignature {
            require: AdvertPredicate::LocalName(LocalNamePredicate {
                prefix: Some("X-T5".into()),
                ..Default::default()
            }),
            capture: Vec::new(),
            scope: NameMap::new(),
            suggests: SuggestsBlock { connection: "ble".into(), confidence: Confidence::High },
            discoverable: true,
            reconnect: Some(ReconnectSuggestion {
                disposition: ReconnectDisposition::Ready,
                mechanism: "ble-reconnect".into(),
                identity: vec!["serial".into()],
            }),
        }),
    ));
    if let Some(b) = &mut v.ble {
        b.reconnect = Some(BleReconnectPolicy { scan_timeout_ms: 1000 });
    }
    assert!(v.signature("paired").is_some());
    assert!(v.signature("other").is_none());
}
