//! From a manufacturer index to resolved models.

use camera_config::index::parse::{
    build_ble_block, merge_families, prepare_model, signature_parts, validate_advert_predicate,
    validate_signature, DecodedModel, SignatureReading,
};
use camera_config::index::types::{
    AdvertPredicate, BleAdvertSignature, BleConnectStep, BleReconnectPolicy, BleReadStep,
    Confidence, EstablishmentBlock, FamilyBleBlock, IndexedModel, LocalNamePredicate,
    ManufacturerIndex, MfgDataPredicate, PayloadPredicate, ReconnectDisposition,
    ReconnectSuggestion, ResolvedManufacturerIndex, Signature, StepOptions, SuggestsBlock,
};
use camera_config::index::{Encoding, PredicateOp, Step};
use camera_config::name_map::NameMap;
use camera_config::yaml::{merge_yaml, Yaml, YamlNumber};
use camera_config::ConfigError;

const UUID: &str = "F557D96B-8FD1-4A37-A22E-9DE5E5EE9D3A";

fn text(s: &str) -> Yaml {
    Yaml::String(s.into())
}

fn number(n: u64) -> Yaml {
    Yaml::Number(YamlNumber::Unsigned(n))
}

fn mapping(entries: Vec<(&str, Yaml)>) -> Yaml {
    let mut out = Vec::new();
    for (k, v) in entries {
        out.push((text(k), v));
    }
    Yaml::Mapping(out)
}

fn member<'a>(y: &'a Yaml, path: &[&str]) -> &'a Yaml {
    let mut at = y;
    for key in path {
        at = match at {
            Yaml::Mapping(entries) => {
                &entries.iter().find(|e| e.0 == text(key)).expect("member").1
            }
            other => panic!("not a mapping: {other:?}"),
        };
    }
    at
}

fn model(id: &str, inherits: &[&str]) -> IndexedModel {
    IndexedModel {
        id: id.into(),
        display_name: id.to_uppercase(),
        inherits: inherits.iter().map(|s| s.to_string()).collect(),
        manifest: format!("{id}.yaml"),
        fallback: false,
        signatures: Vec::new(),
    }
}

fn family(entries: Vec<(&str, Yaml)>) -> Yaml {
    mapping(vec![("ble", mapping(entries))])
}

fn index(families: Vec<(&str, Yaml)>, models: Vec<IndexedModel>) -> ManufacturerIndex {
    let mut all = NameMap::new();
    for (k, v) in families {
        all.insert(k.to_string(), v);
    }
    ManufacturerIndex { manufacturer: "FUJIFILM".into(), families: all, models }
}

fn validation(e: ConfigError) -> (String, String) {
    match e {
        ConfigError::Validation { path, message } => (path, message),
        other => panic!("expected a validation fault, got {other:?}"),
    }
}

#[test]
fn mappings_merge_member_by_member_and_the_overlay_wins() {
    let base = mapping(vec![("a", number(1)), ("b", mapping(vec![("x", number(2))]))]);
    let overlay = mapping(vec![("b", mapping(vec![("y", number(3))])), ("a", text("one"))]);
    let merged = merge_yaml(base, &overlay);
    assert_eq!(member(&merged, &["a"]), &text("one"));
    assert_eq!(member(&merged, &["b", "x"]), &number(2));
    assert_eq!(member(&merged, &["b", "y"]), &number(3));
    assert_eq!(merge_yaml(Yaml::Sequence(vec![number(1)]), &number(2)), number(2));
}

#[test]
fn families_merge_in_the_order_of_inheritance() {
    let m = model("xt5", &["base", "red"]);
    let ix = index(
        vec![
            ("base", family(vec![("gatt", mapping(vec![("state", text(UUID))]))])),
            ("red", family(vec![("reconnect", mapping(vec![("scanTimeoutMs", number(5))]))])),
        ],
        vec![],
    );
    let merged = merge_families(&ix, &m, "ble").unwrap();
    assert_eq!(member(&merged, &["gatt", "state"]), &text(UUID));
    assert_eq!(member(&merged, &["reconnect", "scanTimeoutMs"]), &number(5));
    assert_eq!(merge_families(&ix, &model("x", &[]), "ble").unwrap(), Yaml::Null);
    let unknown = merge_families(&ix, &model("x", &["none"]), "ble").unwrap_err();
    assert!(matches!(
        unknown,
        ConfigError::UnknownFamily { model_id, family_id } if model_id == "x" && family_id == "none"
    ));
}

fn plan(gatt: &str) -> Yaml {
    let read = mapping(vec![(
        "bleRead",
        mapping(vec![("gatt", text(gatt)), ("encoding", text("utf8")), ("captureAs", text("s"))]),
    )]);
    mapping(vec![(
        "ble-pair",
        mapping(vec![("mechanism", text("ble-pair")), ("steps", Yaml::Sequence(vec![read]))]),
    )])
}

#[test]
fn gatt_names_of_steps_become_uuids() {
    let m = model("xt5", &["base"]);
    let ix = |gatt: &str| {
        index(
            vec![(
                "base",
                family(vec![
                    ("gatt", mapping(vec![("state", text(UUID))])),
                    ("establishments", plan(gatt)),
                ]),
            )],
            vec![],
        )
    };
    let block = build_ble_block(&ix("state"), &m).unwrap();
    let steps = member(&block, &["establishments", "ble-pair", "steps"]);
    match steps {
        Yaml::Sequence(v) => assert_eq!(member(&v[0], &["bleRead", "gatt"]), &text(UUID)),
        other => panic!("not a sequence: {other:?}"),
    }
    assert!(build_ble_block(&ix(UUID), &m).is_ok());
    let (_, message) = validation(build_ble_block(&ix("unheard-of"), &m).unwrap_err());
    assert!(message.contains("unheard-of"));
}

#[test]
fn references_in_signatures_are_replaced_by_what_they_name() {
    let mut m = model("xt5", &["base"]);
    m.signatures.push((
        "advert".into(),
        mapping(vec![
            ("kind", text("ble-advert")),
            ("require", mapping(vec![("companyId", text("{ble.advert.manufacturerCompanyId}"))])),
        ]),
    ));
    m.signatures.push((
        "broken".into(),
        mapping(vec![("require", text("{ble.advert.unknown}"))]),
    ));
    let ix = index(
        vec![(
            "base",
            family(vec![("advert", mapping(vec![("manufacturerCompanyId", number(1240))]))]),
        )],
        vec![],
    );
    let prepared = prepare_model(&ix, &m).unwrap();
    assert_eq!(prepared.signatures.len(), 2);
    let value = prepared.signatures[0].value.as_ref().unwrap();
    assert_eq!(member(value, &["require", "companyId"]), &number(1240));
    assert!(prepared.signatures[1].value.is_err());
}

#[test]
fn a_signature_is_parted_into_its_kind_and_the_rest() {
    let (kind, rest) = signature_parts(mapping(vec![
        ("kind", text("ble-advert")),
        ("require", number(1)),
    ]))
    .unwrap();
    assert_eq!(kind, text("ble-advert"));
    assert_eq!(rest, mapping(vec![("require", number(1))]));
    assert!(signature_parts(mapping(vec![("require", number(1))])).is_err());
    assert!(signature_parts(number(1)).is_err());
}

fn named(prefix: &str) -> AdvertPredicate {
    AdvertPredicate::LocalName(LocalNamePredicate {
        prefix: Some(prefix.into()),
        ..Default::default()
    })
}

fn advert(require: AdvertPredicate) -> BleAdvertSignature {
    BleAdvertSignature {
        require,
        capture: Vec::new(),
        scope: NameMap::new(),
        suggests: SuggestsBlock { connection: "ble".into(), confidence: Confidence::High },
        discoverable: true,
        reconnect: None,
    }
}

#[test]
fn predicates_that_say_nothing_are_refused() {
    assert!(validate_advert_predicate(&named("X-")).is_ok());
    assert!(validate_advert_predicate(&AdvertPredicate::All(vec![])).is_err());
    assert!(validate_advert_predicate(&AdvertPredicate::Any(vec![])).is_err());
    assert!(validate_advert_predicate(&AdvertPredicate::TxPower { min: None, max: None }).is_err());
    assert!(validate_advert_predicate(&AdvertPredicate::LocalName(LocalNamePredicate::default()))
        .is_err());
    assert!(validate_advert_predicate(&AdvertPredicate::All(vec![
        named("X-"),
        AdvertPredicate::Not(Box::new(AdvertPredicate::Any(vec![]))),
    ]))
    .is_err());
    let vacuous = MfgDataPredicate { company_id: None, payload: PayloadPredicate::default() };
    assert!(validate_advert_predicate(&AdvertPredicate::ManufacturerData(vacuous)).is_err());
    assert!(validate_signature(&Signature::BleAdvert(advert(named("X-")))).is_ok());
}

#[test]
fn tokens_are_read_back() {
    for token in ["utf8", "utf8-cstring", "ascii", "bytes", "u8", "u32", "u16-le", "u32-be"] {
        assert_eq!(Encoding::from_token(token).unwrap().as_token(), token);
    }
    assert!(Encoding::from_token("latin1").is_none());
    for token in ["eq", "ne", "gt", "gte", "lt", "lte", "in"] {
        assert_eq!(PredicateOp::from_token(token).unwrap().as_token(), token);
    }
    assert!(PredicateOp::from_token("like").is_none());
}

fn block() -> FamilyBleBlock {
    FamilyBleBlock {
        gatt: NameMap::new(),
        advert: Default::default(),
        establishments: NameMap::new(),
        reconnect: Some(BleReconnectPolicy { scan_timeout_ms: 1000 }),
        actions: NameMap::new(),
    }
}

fn establishment(mechanism: &str, steps: Vec<Step>) -> EstablishmentBlock {
    EstablishmentBlock {
        mechanism: mechanism.into(),
        prerequisite: None,
        on_demand: false,
        params: Vec::new(),
        persist: Vec::new(),
        activities: Vec::new(),
        post_exit_readiness: Vec::new(),
        steps,
    }
}

fn resolve(decoded: DecodedModel) -> Result<ResolvedManufacturerIndex, ConfigError> {
    ResolvedManufacturerIndex::resolve(&index(vec![], vec![model("xt5", &[])]), vec![Ok(decoded)])
}

#[test]
fn a_model_is_resolved_with_its_block_and_signatures() {
    let mut ble = block();
    ble.establishments.insert(
        "ble-reconnect".into(),
        establishment("ble-reconnect", vec![Step::BleConnect(BleConnectStep::default())]),
    );
    let mut signature = advert(named("X-"));
    signature.scope.insert("serial".into(), "1".into());
    signature.reconnect = Some(ReconnectSuggestion {
        disposition: ReconnectDisposition::Ready,
        mechanism: "ble-reconnect".into(),
        identity: vec!["serial".into()],
    });
    let resolved = resolve(DecodedModel {
        ble: Some(Ok(ble)),
        pcss: None,
        signatures: vec![(
            "paired".into(),
            SignatureReading::Read(Signature::BleAdvert(signature)),
        )],
    })
    .unwrap();
    assert_eq!(resolved.manufacturer, "FUJIFILM");
    assert_eq!(resolved.models[0].display_name, "XT5");
    assert_eq!(resolved.models[0].manifest_path, "xt5.yaml");
    assert!(resolved.models[0].signature("paired").is_some());
    assert!(resolved.models[0].ble.as_ref().unwrap().establishment("ble-reconnect").is_some());
    assert!(resolved.models[0].ble.as_ref().unwrap().establishment("ble-pair").is_none());
    assert!(resolved.models[0].ble.as_ref().unwrap().action("write-time").is_none());
}

#[test]
fn what_could_not_be_read_is_a_fault_of_the_model() {
    let (path, message) = validation(
        resolve(DecodedModel { ble: Some(Err("bad".into())), pcss: None, signatures: vec![] })
            .unwrap_err(),
    );
    assert_eq!(path, "models.xt5.ble");
    assert_eq!(message, "typed ble decode: bad");
    let (path, message) = validation(
        resolve(DecodedModel {
            ble: None,
            pcss: None,
            signatures: vec![("advert".into(), SignatureReading::Unreadable("bad".into()))],
        })
        .unwrap_err(),
    );
    assert_eq!(path, "models.xt5.signatures.advert");
    assert_eq!(message, "bad");
    let refused = ResolvedManufacturerIndex::resolve(
        &index(vec![], vec![model("xt5", &[])]),
        vec![Err(ConfigError::Validation { path: "p".into(), message: "m".into() })],
    );
    assert_eq!(validation(refused.unwrap_err()), ("p".to_string(), "m".to_string()));
}

#[test]
fn a_reconnect_route_must_exist() {
    let mut signature = advert(named("X-"));
    signature.reconnect = Some(ReconnectSuggestion {
        disposition: ReconnectDisposition::Ready,
        mechanism: "ble-reconnect".into(),
        identity: vec!["serial".into()],
    });
    let (path, _) = validation(
        resolve(DecodedModel {
            ble: Some(Ok(block())),
            pcss: None,
            signatures: vec![(
                "paired".into(),
                SignatureReading::Read(Signature::BleAdvert(signature)),
            )],
        })
        .unwrap_err(),
    );
    assert!(path.starts_with("models.xt5.signatures.paired.reconnect"));
}

#[test]
fn steps_know_their_verb_and_options() {
    let read = Step::BleRead(BleReadStep {
        gatt: UUID.into(),
        encoding: Encoding::Utf8,
        capture_as: "s".into(),
        transform: Vec::new(),
        opts: StepOptions { tolerant: true, retries: 2, retry_delay_ms: 10 },
    });
    assert_eq!(read.verb_name(), "bleRead");
    assert_eq!(read.options().retries, 2);
    assert_eq!(Step::BleConnect(BleConnectStep::default()).verb_name(), "bleConnect");
}

#[test]
fn a_resolved_signature_holds_literals_only() {
    let prepared = |company: Yaml| {
        let mut m = model("xt5", &["base"]);
        m.signatures.push((
            "advert".into(),
            mapping(vec![
                ("name", text("X-T5")),
                ("company", text("{ble.advert.manufacturerCompanyId}")),
            ]),
        ));
        let ix = index(
            vec![(
                "base",
                family(vec![("advert", mapping(vec![("manufacturerCompanyId", company)]))]),
            )],
            vec![],
        );
        prepare_model(&ix, &m).unwrap().signatures.remove(0).value.unwrap()
    };
    let literal = prepared(number(1240));
    assert_eq!(member(&literal, &["name"]), &text("X-T5"));
    assert_eq!(member(&literal, &["company"]), &number(1240));
    let chained = prepared(text("{ble.advert}"));
    assert_eq!(member(&chained, &["company"]), &text("{ble.advert}"));
}

#[test]
fn nested_steps_name_uuids_too() {
    let m = model("xt5", &["base"]);
    let subscribe =
        mapping(vec![("bleSubscribe", mapping(vec![("gatt", text("state"))]))]);
    let wait = mapping(vec![(
        "bleAwaitUntil",
        mapping(vec![
            ("source", mapping(vec![("read", text("state"))])),
            ("onEach", Yaml::Sequence(vec![subscribe.clone()])),
        ]),
    )]);
    let branch = mapping(vec![(
        "if",
        mapping(vec![
            ("then", Yaml::Sequence(vec![subscribe.clone()])),
            ("else", Yaml::Sequence(vec![wait])),
        ]),
    )]);
    let plans = |steps: Vec<Yaml>| {
        mapping(vec![("pair", mapping(vec![("steps", Yaml::Sequence(steps))]))])
    };
    let ix = index(
        vec![(
            "base",
            family(vec![
                ("gatt", mapping(vec![("state", text(UUID))])),
                ("establishments", plans(vec![branch])),
                ("actions", plans(vec![subscribe])),
            ]),
        )],
        vec![],
    );
    let block = build_ble_block(&ix, &m).unwrap();
    let item = |y: &Yaml, path: &[&str]| match member(y, path) {
        Yaml::Sequence(v) => v[0].clone(),
        other => panic!("not a sequence: {other:?}"),
    };
    let branch = item(&block, &["establishments", "pair", "steps"]);
    let on_true = item(&branch, &["if", "then"]);
    assert_eq!(member(&on_true, &["bleSubscribe", "gatt"]), &text(UUID));
    let wait = item(&branch, &["if", "else"]);
    assert_eq!(member(&wait, &["bleAwaitUntil", "source", "read"]), &text(UUID));
    let each = item(&wait, &["bleAwaitUntil", "onEach"]);
    assert_eq!(member(&each, &["bleSubscribe", "gatt"]), &text(UUID));
    let action = item(&block, &["actions", "pair", "steps"]);
    assert_eq!(member(&action, &["bleSubscribe", "gatt"]), &text(UUID));
    assert_eq!(member(&block, &["gatt", "state"]), &text(UUID));
}

#[test]
fn a_reference_must_be_the_whole_text() {
    let mut m = model("xt5", &["base"]);
    m.signatures.push((
        "advert".into(),
        mapping(vec![("require", text(" prefix-{ble.advert.name} "))]),
    ));
    m.signatures.push(("unknown".into(), mapping(vec![("require", text("{ble.advert.none}"))])));
    let ix = index(
        vec![("base", family(vec![("advert", mapping(vec![("name", text("X-T5"))]))]))],
        vec![],
    );
    let mut faults = Vec::new();
    for signature in prepare_model(&ix, &m).unwrap().signatures {
        faults.push(validation(signature.value.unwrap_err()).1);
    }
    assert_eq!(
        faults,
        [
            "string 'prefix-{ble.advert.name}' has embedded '{...}' — only whole-string static \
             refs are allowed at index-load (§11.1)",
            "unresolved static ref '{ble.advert.none}'",
        ]
    );
}
