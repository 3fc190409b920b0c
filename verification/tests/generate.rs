//! From observation bundles to reports, proposals and reviewed manifests.

use camera_config::generate::apply::apply_candidate;
use camera_config::generate::parse::{bundle_lines, BundleLine};
use camera_config::json::Json;
use camera_config::name_map::NameMap;
use camera_config::{
    apply_review, proposal_json, propose, validate_bundles, validation_report_json,
    ArtifactRange, BundleHeader, CameraContext, CameraIdentity, CameraManifest,
    CandidateAssertion, CapabilityDescriptor, CapabilityRecord, CapabilitySubject, CaptureClock,
    CaptureContext, CaptureInterface, CaptureInterfaceType, ClientContext, ClockMapping,
    ClockPoint, ClockType, ClockUnit, Confidence, ControlEvidenceBasis, ControlObservedEffect,
    EpistemicClass, EpistemicMetadata, ExecutionContext, GenerationError, InventoryCompleteness,
    LossCounters, ObservationCommon, ObservationLine, ProposalCandidate, ProposalRecordStatus,
    ProposalReview,
    PtpEventRecord, PtpRequest, PtpTransactionRecord, PtpTransport, Readback, ReadbackSource,
    RecordDisposition, ReviewDisposition, SemanticAssertionLedger, SettlingRule,
    TransactionOutcome, ValidationReport, ValidationStatus, OBSERVATION_SCHEMA_VERSION,
    REVIEW_SCHEMA, SCHEMA_VERSION,
};

type Line = (serde_json::Value, Result<ObservationLine, String>);

fn json(text: &str) -> serde_json::Value {
    serde_json::from_str(text).unwrap()
}

fn epistemic() -> EpistemicMetadata {
    EpistemicMetadata {
        class: EpistemicClass::SyntheticFixture,
        confidence: Confidence::Exact,
        alternatives: Vec::new(),
        falsifier: None,
        unknowns: Vec::new(),
    }
}

fn header_record(run_id: &str, record_id: &str) -> BundleHeader {
    let mut tool_versions = NameMap::new();
    tool_versions.insert("fixture".to_string(), "1".to_string());
    BundleHeader {
        schema: OBSERVATION_SCHEMA_VERSION.into(),
        run_id: run_id.into(),
        record_id: record_id.into(),
        ordinal: 0,
        camera: CameraContext {
            manufacturer: "EXAMPLE".into(),
            model: "MODEL 1".into(),
            body_id: "body-a".into(),
            firmware: "1.0".into(),
        },
        client: ClientContext {
            artifact: "test".into(),
            version: "1".into(),
            platform: "test".into(),
        },
        capture: CaptureContext {
            interfaces: vec![CaptureInterface {
                id: "fixture".into(),
                interface_type: CaptureInterfaceType::Synthetic,
                role: "test".into(),
            }],
            clocks: vec![CaptureClock {
                id: "mono".into(),
                clock_type: ClockType::Monotonic,
                unit: ClockUnit::Nanoseconds,
            }],
            clock_mappings: Vec::new(),
            loss: LossCounters { dropped_records: 0, dropped_bytes: 0, truncated_payloads: 0 },
            redactions: Vec::new(),
            tool_versions,
            artifacts: Vec::new(),
        },
        epistemic: epistemic(),
    }
}

fn header_value(run_id: &str, record_id: &str) -> serde_json::Value {
    let mut value = json(
        r#"{
            "kind": "bundleHeader",
            "schema": "camera-observation/v1",
            "ordinal": 0,
            "camera": {
                "manufacturer": "EXAMPLE", "model": "MODEL 1", "bodyId": "body-a",
                "firmware": "1.0"
            },
            "client": { "artifact": "test", "version": "1", "platform": "test" },
            "capture": {
                "interfaces": [{ "id": "fixture", "interfaceType": "synthetic", "role": "test" }],
                "clocks": [{ "id": "mono", "clockType": "monotonic", "unit": "nanoseconds" }],
                "clockMappings": [],
                "loss": { "droppedRecords": 0, "droppedBytes": 0, "truncatedPayloads": 0 },
                "redactions": [],
                "toolVersions": { "fixture": "1" },
                "artifacts": []
            },
            "epistemic": {
                "class": "syntheticFixture", "confidence": "exact",
                "alternatives": [], "unknowns": []
            }
        }"#,
    );
    value["runId"] = run_id.into();
    value["recordId"] = record_id.into();
    value
}

fn header(run_id: &str, record_id: &str) -> Line {
    (
        header_value(run_id, record_id),
        Ok(ObservationLine::BundleHeader(header_record(run_id, record_id))),
    )
}

fn bundle(header: Line, records: Vec<Line>) -> Vec<BundleLine> {
    let mut out = Vec::new();
    for (value, decoded) in std::iter::once(header).chain(records) {
        out.push(BundleLine { text: serde_json::to_string(&value).unwrap(), decoded });
    }
    out
}

fn canonical(records: Vec<Line>) -> Vec<BundleLine> {
    bundle(header("run-1", "header"), records)
}

fn common_record(record_id: &str, ordinal: u64) -> ObservationCommon {
    ObservationCommon {
        schema: OBSERVATION_SCHEMA_VERSION.into(),
        run_id: "run-1".into(),
        record_id: record_id.into(),
        ordinal,
        context: ExecutionContext {
            connection: "usb".into(),
            mode: "shooting/stills".into(),
            state: "ready".into(),
        },
        time: ClockPoint { clock: "mono".into(), value: ordinal },
        physical_context: NameMap::new(),
        artifact_ranges: Vec::new(),
        epistemic: epistemic(),
    }
}

fn common_value(record_id: &str, ordinal: u64) -> serde_json::Value {
    let mut value = json(
        r#"{
            "schema": "camera-observation/v1",
            "runId": "run-1",
            "context": { "connection": "usb", "mode": "shooting/stills", "state": "ready" },
            "physicalContext": {}, "artifactRanges": [],
            "epistemic": {
                "class": "syntheticFixture", "confidence": "exact",
                "alternatives": [], "unknowns": []
            }
        }"#,
    );
    value["recordId"] = record_id.into();
    value["ordinal"] = ordinal.into();
    value["time"] = json(r#"{ "clock": "mono" }"#);
    value["time"]["value"] = ordinal.into();
    value
}

fn transaction(record_id: &str, ordinal: u64, session: &str, transaction_id: u32) -> Line {
    let mut value = common_value(record_id, ordinal);
    value["kind"] = "ptpTransaction".into();
    value["transport"] = "ptpIp".into();
    value["connectionInstance"] = "conn-1".into();
    value["session"] = session.into();
    value["endpointSet"] = "command".into();
    value["transactionId"] = transaction_id.into();
    value["request"] =
        json(r#"{ "framing": "standard", "operation": "0x1002", "parameters": [1] }"#);
    value["outcome"] = "timeout".into();
    let record = PtpTransactionRecord {
        common: common_record(record_id, ordinal),
        transport: PtpTransport::PtpIp,
        connection_instance: "conn-1".into(),
        session: session.into(),
        endpoint_set: "command".into(),
        transaction_id,
        request: PtpRequest {
            framing: "standard".into(),
            operation: "0x1002".into(),
            parameters: vec![1],
            data: None,
        },
        response: None,
        outcome: TransactionOutcome::Timeout,
        evidence_basis: None,
        observed_effect: None,
        readback: None,
    };
    (value, Ok(ObservationLine::PtpTransaction(Box::new(record))))
}

fn event(
    record_id: &str,
    ordinal: u64,
    session: &str,
    transaction_id: u32,
    transaction_record_id: Option<&str>,
) -> Line {
    let mut value = common_value(record_id, ordinal);
    value["kind"] = "ptpEvent".into();
    value["connectionInstance"] = "conn-1".into();
    value["session"] = session.into();
    value["endpointSet"] = "event".into();
    value["transactionId"] = transaction_id.into();
    if let Some(id) = transaction_record_id {
        value["transactionRecordId"] = id.into();
    }
    value["event"] = "0x4002".into();
    let record = PtpEventRecord {
        common: common_record(record_id, ordinal),
        connection_instance: "conn-1".into(),
        session: session.into(),
        endpoint_set: "event".into(),
        transaction_id,
        transaction_record_id: transaction_record_id.map(String::from),
        event: "0x4002".into(),
        parameters: Vec::new(),
        payload: None,
    };
    (value, Ok(ObservationLine::PtpEvent(record)))
}

fn capability_value(
    mut value: serde_json::Value,
    subject: serde_json::Value,
    basis: &str,
    effect: &str,
    readback: serde_json::Value,
) -> serde_json::Value {
    value["kind"] = "capability".into();
    value["subject"] = subject;
    value["evidenceBasis"] = basis.into();
    value["observedEffect"] = effect.into();
    value["readback"] = readback;
    value
}

fn not_observed() -> serde_json::Value {
    json(r#"{ "status": "notObserved", "reason": "descriptor enumeration" }"#)
}

fn property_subject(code: &str, property_type: &str, values: &[u64]) -> CapabilitySubject {
    CapabilitySubject::Property {
        code: code.into(),
        supported: true,
        canonical_name: None,
        source_native_name: None,
        property_type: Some(property_type.into()),
        access: Some("readWrite".into()),
        descriptor: Some(CapabilityDescriptor {
            form: "enum".into(),
            values: values.iter().map(|v| Json::Unsigned(*v)).collect(),
        }),
        labels: NameMap::new(),
        value_rows: Vec::new(),
        value_profiles: Vec::new(),
    }
}

fn property_value(code: &str, property_type: &str, values: &[u64]) -> serde_json::Value {
    let mut subject = json(
        r#"{
            "type": "property", "supported": true, "access": "readWrite",
            "descriptor": { "form": "enum" }
        }"#,
    );
    subject["code"] = code.into();
    subject["propertyType"] = property_type.into();
    subject["descriptor"]["values"] = values.to_vec().into();
    subject
}

fn enumerated(common: ObservationCommon, subject: CapabilitySubject) -> ObservationLine {
    ObservationLine::Capability(Box::new(CapabilityRecord {
        common,
        subject,
        inventory_completeness: InventoryCompleteness::Partial,
        evidence_basis: ControlEvidenceBasis::DescriptorOnly,
        observed_effect: ControlObservedEffect::Unknown,
        readback: Readback::NotObserved { reason: "descriptor enumeration".into() },
    }))
}

fn descriptor_property(
    run_id: &str,
    record_id: &str,
    ordinal: u64,
    state: &str,
    values: &[u64],
) -> Line {
    let mut value = capability_value(
        common_value(record_id, ordinal),
        property_value("0xd001", "u16", values),
        "descriptorOnly",
        "unknown",
        not_observed(),
    );
    value["runId"] = run_id.into();
    value["context"]["state"] = state.into();
    let mut common = common_record(record_id, ordinal);
    common.run_id = run_id.into();
    common.context.state = state.into();
    (value, Ok(enumerated(common, property_subject("0xd001", "u16", values))))
}

fn observed_operation(record_id: &str, observed_clock: &str) -> Line {
    let mut readback = json(
        r#"{
            "status": "observed", "baseline": 0, "request": 1,
            "settling": { "deadlineMs": 100 }, "observed": 1, "source": "directProperty"
        }"#,
    );
    readback["observedAt"] = json(r#"{ "value": 2 }"#);
    readback["observedAt"]["clock"] = observed_clock.into();
    let value = capability_value(
        common_value(record_id, 1),
        json(r#"{ "type": "operation", "code": "0x1014", "supported": true }"#),
        "writeProbe",
        "confirmed",
        readback,
    );
    let record = CapabilityRecord {
        common: common_record(record_id, 1),
        subject: CapabilitySubject::Operation {
            code: "0x1014".into(),
            supported: true,
            canonical_name: None,
        },
        inventory_completeness: InventoryCompleteness::Partial,
        evidence_basis: ControlEvidenceBasis::WriteProbe,
        observed_effect: ControlObservedEffect::Confirmed,
        readback: Readback::Observed {
            baseline: Json::Unsigned(0),
            request: Json::Unsigned(1),
            settling: SettlingRule {
                deadline_ms: 100,
                poll_interval_ms: None,
                stable_samples: None,
            },
            observed: Json::Unsigned(1),
            observed_at: ClockPoint { clock: observed_clock.into(), value: 2 },
            source: ReadbackSource::DirectProperty,
        },
    };
    (value, Ok(ObservationLine::Capability(Box::new(record))))
}

fn header_with_wall_clock(include_mapping: bool) -> Line {
    let mut value = header_value("run-1", "header");
    let mut record = header_record("run-1", "header");
    value["capture"]["clocks"]
        .as_array_mut()
        .unwrap()
        .push(json(r#"{ "id": "wall", "clockType": "wall", "unit": "milliseconds" }"#));
    record.capture.clocks.push(CaptureClock {
        id: "wall".into(),
        clock_type: ClockType::Wall,
        unit: ClockUnit::Milliseconds,
    });
    if include_mapping {
        value["capture"]["clockMappings"]
            .as_array_mut()
            .unwrap()
            .push(json(r#"{ "from": "mono", "to": "wall", "offset": 0, "uncertainty": 1 }"#));
        record.capture.clock_mappings.push(ClockMapping {
            from: "mono".into(),
            to: "wall".into(),
            offset: 0,
            uncertainty: 1,
        });
    }
    (value, Ok(ObservationLine::BundleHeader(record)))
}

fn has_code(report: &ValidationReport, code: &str) -> bool {
    report.dispositions.iter().any(|entry| entry.code == code)
}

fn unreadable(mut line: Line, reason: &str) -> Line {
    line.1 = Err(reason.into());
    line
}

#[test]
fn malformed_or_unknown_records_fail_the_complete_bundle() {
    let input = || {
        canonical(vec![(
            json(
                r#"{
                    "kind": "unknown", "schema": "camera-observation/v1",
                    "runId": "run-1", "recordId": "bad", "ordinal": 1
                }"#,
            ),
            Err("unknown variant `unknown`".into()),
        )])
    };
    let report = validate_bundles(vec![input()]).unwrap_err();
    assert_eq!(report.total_nonblank, 2);
    assert_eq!(report.rejected, 1);
    assert!(has_code(&report, "O003"));
    assert!(propose(vec![input()]).is_err());
}

#[test]
fn ptp_events_accept_exact_links_and_explicitly_unmatched_events() {
    let input = canonical(vec![
        transaction("transaction", 1, "session-1", 7),
        event("exact", 2, "session-1", 0, Some("transaction")),
        event("unmatched", 3, "session-1", 99, None),
    ]);
    let validated = validate_bundles(vec![input]).expect("event correlations are canonical");
    assert_eq!(validated.report.rejected, 0);
}

#[test]
fn ptp_event_links_reject_cross_session_correlations() {
    let input = canonical(vec![
        transaction("transaction", 1, "session-1", 7),
        event("cross-session", 2, "session-2", 0, Some("transaction")),
    ]);
    let report = validate_bundles(vec![input]).unwrap_err();
    assert!(report
        .dispositions
        .iter()
        .any(|entry| entry.identity == "run-1:cross-session" && entry.code == "O121"));
}

#[test]
fn blank_and_whitespace_bundles_have_the_same_missing_header_rejection() {
    let lines = |text: &str| {
        let mut out = Vec::new();
        for line in bundle_lines(text) {
            out.push(BundleLine { text: line, decoded: Err("not read".into()) });
        }
        out
    };
    let blank = validate_bundles(vec![lines("")]).unwrap_err();
    let whitespace = validate_bundles(vec![lines(" \n\t\r\n")]).unwrap_err();
    assert_eq!(blank, whitespace);
    assert_eq!(blank.total_nonblank, 0);
    assert_eq!(blank.accepted, 0);
    assert_eq!(blank.rejected, 1);
    assert_eq!(blank.dispositions.len(), 1);
    assert_eq!(blank.dispositions[0].identity, "bundle:missing-header");
    assert_eq!(blank.dispositions[0].code, "O010");
    assert!(propose(vec![lines("")]).is_err());
    assert!(propose(vec![lines(" \n\t\r\n")]).is_err());
}

#[test]
fn tagged_observation_line_rejects_an_unknown_field() {
    let mut record = descriptor_property("run-1", "prop", 1, "ready", &[1, 2]);
    record.0["unexpected"] = true.into();
    let input = canonical(vec![unreadable(record, "unknown field `unexpected`")]);
    let report = validate_bundles(vec![input]).unwrap_err();
    assert!(has_code(&report, "O003"));
}

#[test]
fn tagged_readback_and_capability_subject_reject_unknown_fields() {
    let mut readback = descriptor_property("run-1", "readback", 1, "ready", &[1, 2]);
    readback.0["readback"]["unexpected"] = true.into();
    let mut subject = descriptor_property("run-1", "subject", 1, "ready", &[1, 2]);
    subject.0["subject"]["unexpected"] = true.into();
    for record in [readback, subject] {
        let input = canonical(vec![unreadable(record, "unknown field `unexpected`")]);
        let report = validate_bundles(vec![input]).unwrap_err();
        assert!(has_code(&report, "O003"));
    }
}

#[test]
fn cross_scope_structural_conflicts_are_order_independent_and_not_proposable() {
    let first = || {
        bundle(
            header("run-a", "header-a"),
            vec![descriptor_property("run-a", "prop-a", 1, "ready", &[1, 2])],
        )
    };
    let second = || {
        bundle(
            header("run-b", "header-b"),
            vec![descriptor_property("run-b", "prop-b", 1, "recording", &[1, 3])],
        )
    };
    let forward_report = validate_bundles(vec![first(), second()]).unwrap_err();
    let reversed_report = validate_bundles(vec![second(), first()]).unwrap_err();
    assert_eq!(forward_report, reversed_report);
    assert_eq!(forward_report.rejected, 2);
    assert_eq!(
        forward_report.dispositions.iter().filter(|entry| entry.code == "O401").count(),
        2
    );
    assert!(!has_code(&forward_report, "O400"));
    assert_eq!(propose(vec![first(), second()]).unwrap_err(), forward_report);
    assert_eq!(propose(vec![second(), first()]).unwrap_err(), reversed_report);
}

#[test]
fn observed_readback_rejects_an_unknown_clock() {
    let input = canonical(vec![observed_operation("op", "unknown")]);
    let report = validate_bundles(vec![input]).unwrap_err();
    assert!(has_code(&report, "O031"));
}

#[test]
fn observed_readback_rejects_a_missing_clock_mapping() {
    let input = bundle(header_with_wall_clock(false), vec![observed_operation("op", "wall")]);
    let report = validate_bundles(vec![input]).unwrap_err();
    assert!(has_code(&report, "O032"));
}

#[test]
fn observed_readback_accepts_a_declared_mapped_clock() {
    let input = bundle(header_with_wall_clock(true), vec![observed_operation("op", "wall")]);
    let validated = validate_bundles(vec![input]).unwrap();
    assert_eq!(validated.report.rejected, 0);
    assert_eq!(validated.report.accepted, 2);
}

#[test]
fn duplicate_run_rejection_marks_every_header_independent_of_input_order() {
    let first = || bundle(header("duplicate-run", "header-a"), vec![]);
    let second = || bundle(header("duplicate-run", "header-b"), vec![]);
    let forward = validate_bundles(vec![first(), second()]).unwrap_err();
    let reversed = validate_bundles(vec![second(), first()]).unwrap_err();
    assert_eq!(forward, reversed);
    assert_eq!(forward.rejected, 2);
    assert_eq!(
        forward
            .dispositions
            .iter()
            .map(|entry| (entry.identity.as_str(), entry.code.as_str()))
            .collect::<Vec<_>>(),
        vec![("duplicate-run:header-a", "O013"), ("duplicate-run:header-b", "O013")]
    );
}

fn operation_record() -> Line {
    let value = capability_value(
        common_value("op", 1),
        json(r#"{ "type": "operation", "code": "0x1014", "supported": true }"#),
        "descriptorOnly",
        "unknown",
        not_observed(),
    );
    let subject = CapabilitySubject::Operation {
        code: "0x1014".into(),
        supported: true,
        canonical_name: None,
    };
    (value, Ok(enumerated(common_record("op", 1), subject)))
}

fn property_record() -> Line {
    let value = capability_value(
        common_value("prop", 2),
        property_value("0x500d", "u32", &[1, 2]),
        "descriptorOnly",
        "unknown",
        not_observed(),
    );
    (value, Ok(enumerated(common_record("prop", 2), property_subject("0x500d", "u32", &[1, 2]))))
}

#[test]
fn proposal_is_identical_when_records_are_reordered() {
    let first = canonical(vec![operation_record(), property_record()]);
    let second = canonical(vec![property_record(), operation_record()]);
    assert_eq!(
        proposal_json(&propose(vec![first]).unwrap()),
        proposal_json(&propose(vec![second]).unwrap())
    );
}

fn base(manufacturer: &str, model: &str, firmware: &str) -> CameraManifest {
    CameraManifest {
        schema: SCHEMA_VERSION.to_string(),
        camera: CameraIdentity {
            manufacturer: manufacturer.into(),
            model: model.into(),
            firmware: firmware.into(),
            identities: NameMap::new(),
        },
        evidence: NameMap::new(),
        semantic_assertions: SemanticAssertionLedger::default(),
        sentinels: NameMap::new(),
        sequence_gates: NameMap::new(),
        camera_initiated_transfer: None,
        operations: NameMap::new(),
        properties: NameMap::new(),
        workflows: NameMap::new(),
        media: None,
        focus_grid: None,
        events: NameMap::new(),
        quirks: Vec::new(),
        modes: NameMap::new(),
        connections: NameMap::new(),
        values: NameMap::new(),
    }
}

fn example() -> CameraManifest {
    base("EXAMPLE", "MODEL 1", "1.0")
}

#[test]
fn review_digest_and_candidate_coverage_are_fail_closed() {
    let proposal = propose(vec![canonical(vec![])]).unwrap();
    let review = ProposalReview {
        schema: REVIEW_SCHEMA.to_string(),
        proposal_digest: "stale".to_string(),
        decisions: NameMap::new(),
    };
    assert!(matches!(
        apply_review(example(), &proposal, &review),
        Err(GenerationError::ReviewDigest { .. })
    ));

    let mut tampered = proposal.clone();
    tampered.candidates[0].source_records.push("forged:record".into());
    let mut decisions = NameMap::new();
    for candidate in &tampered.candidates {
        decisions.insert(candidate.id.clone(), ReviewDisposition::Reject);
    }
    let review = ProposalReview {
        schema: REVIEW_SCHEMA.to_string(),
        proposal_digest: tampered.digest.clone(),
        decisions,
    };
    assert!(matches!(
        apply_review(example(), &tampered, &review),
        Err(GenerationError::ProposalIntegrity(_))
    ));
}

#[test]
fn an_accepted_review_adds_what_was_proposed() {
    let proposal = propose(vec![canonical(vec![operation_record(), property_record()])]).unwrap();
    assert_eq!(proposal.candidates.len(), 4);
    assert!(proposal
        .record_dispositions
        .iter()
        .any(|d| d.identity == "run-1:op" && d.status == ProposalRecordStatus::Proposed));
    assert!(proposal.candidates.iter().any(|c| matches!(
        &c.assertion,
        CandidateAssertion::Operation { code, supported: true, .. } if code == "0x1014"
    )));
    let mut decisions = NameMap::new();
    for candidate in &proposal.candidates {
        decisions.insert(candidate.id.clone(), ReviewDisposition::Accept);
    }
    let review = ProposalReview {
        schema: REVIEW_SCHEMA.to_string(),
        proposal_digest: proposal.digest.clone(),
        decisions,
    };
    let merged = apply_review(example(), &proposal, &review).unwrap();
    assert_eq!(merged.operations.get("0x1014").unwrap().name, "GetDevicePropDesc");
    let property = merged.properties.get("0x500d").unwrap();
    assert_eq!(property.ptype.as_deref(), Some("u32"));
    assert_eq!(property.descriptor.as_ref().unwrap().values.len(), 2);

    let other = apply_review(base("EXAMPLE", "MODEL 2", "1.0"), &proposal, &review);
    assert!(matches!(other, Err(GenerationError::ApplyConflict(_))));
}

#[test]
fn a_review_must_decide_every_candidate_and_no_other() {
    let proposal = propose(vec![canonical(vec![operation_record()])]).unwrap();
    let review = |decisions: NameMap<ReviewDisposition>| ProposalReview {
        schema: REVIEW_SCHEMA.to_string(),
        proposal_digest: proposal.digest.clone(),
        decisions,
    };
    let missing = apply_review(example(), &proposal, &review(NameMap::new()));
    assert!(matches!(missing, Err(GenerationError::ReviewCoverage(_))));
    let mut extra = NameMap::new();
    for candidate in &proposal.candidates {
        extra.insert(candidate.id.clone(), ReviewDisposition::Defer);
    }
    extra.insert("candidate-of-nothing".to_string(), ReviewDisposition::Accept);
    assert!(matches!(
        apply_review(example(), &proposal, &review(extra)),
        Err(GenerationError::ReviewCoverage(_))
    ));
    let other_schema = ProposalReview {
        schema: "camera-config-review/v0".into(),
        proposal_digest: proposal.digest.clone(),
        decisions: NameMap::new(),
    };
    let refused = apply_review(example(), &proposal, &other_schema).unwrap_err();
    assert_eq!(
        refused.message(),
        "proposal review uses schema \"camera-config-review/v0\"; expected \"camera-config-review/v1\""
    );
}

#[test]
fn deferring_everything_changes_nothing() {
    let proposal = propose(vec![canonical(vec![operation_record(), property_record()])]).unwrap();
    let mut decisions = NameMap::new();
    for candidate in &proposal.candidates {
        decisions.insert(candidate.id.clone(), ReviewDisposition::Defer);
    }
    let review = ProposalReview {
        schema: REVIEW_SCHEMA.to_string(),
        proposal_digest: proposal.digest.clone(),
        decisions,
    };
    let merged = apply_review(example(), &proposal, &review).unwrap();
    assert!(merged.operations.is_empty());
    assert!(merged.properties.is_empty());
}

#[test]
fn digests_and_candidate_ids_are_of_the_written_json() {
    let proposal = propose(vec![canonical(vec![operation_record()])]).unwrap();
    assert_eq!(proposal.digest.len(), 64);
    assert!(proposal.digest.chars().all(|c| c.is_ascii_hexdigit()));
    let written = json(&proposal_json(&proposal));
    assert_eq!(written["schema"], "camera-config-proposal/v1");
    assert_eq!(written["digest"], proposal.digest.as_str());
    assert_eq!(written["candidates"].as_array().unwrap().len(), proposal.candidates.len());
    assert_eq!(written["candidates"][0]["id"], proposal.candidates[0].id.as_str());
}

#[test]
fn reports_are_written_as_json() {
    let report = validate_bundles(vec![vec![]]).unwrap_err();
    let written = json(&validation_report_json(&report));
    assert_eq!(written["schema"], "camera-observation-validation/v1");
    assert_eq!(written["totalNonblank"], 0);
    assert_eq!(written["rejected"], 1);
    assert_eq!(written["dispositions"][0]["code"], "O010");
    assert_eq!(written["dispositions"][0]["status"], "rejected");
}

#[test]
fn artifact_ranges_must_lie_in_declared_artifacts() {
    let mut record = operation_record();
    record.0["artifactRanges"] = json(r#"[{ "artifact": "pcap", "offset": 0, "length": 4 }]"#);
    if let Ok(ObservationLine::Capability(capability)) = &mut record.1 {
        capability.common.artifact_ranges.push(ArtifactRange {
            artifact: "pcap".into(),
            offset: 0,
            length: 4,
        });
    }
    let report = validate_bundles(vec![canonical(vec![record])]).unwrap_err();
    assert_eq!(report.rejected, 1);
}

#[test]
fn a_conflict_in_one_scope_marks_both_facts() {
    let contrary = |record_id: &str, ordinal: u64, values: &[u64]| {
        descriptor_property("run-1", record_id, ordinal, "ready", values)
    };
    let report = validate_bundles(vec![canonical(vec![
        contrary("a", 1, &[1, 2]),
        contrary("b", 2, &[1, 3]),
    ])])
    .unwrap_err();
    assert_eq!(report.rejected, 2);
    assert!(has_code(&report, "O400"));
    assert!(!has_code(&report, "O401"));
}

#[test]
fn applying_a_review_again_changes_nothing() {
    let proposal = propose(vec![canonical(vec![operation_record(), property_record()])]).unwrap();
    let mut decisions = NameMap::new();
    for candidate in &proposal.candidates {
        decisions.insert(candidate.id.clone(), ReviewDisposition::Accept);
    }
    let review = ProposalReview {
        schema: REVIEW_SCHEMA.to_string(),
        proposal_digest: proposal.digest.clone(),
        decisions,
    };
    let once = apply_review(example(), &proposal, &review).unwrap();
    assert_eq!(once.operations.get("0x1014").unwrap().observed_scopes.len(), 1);
    let written = format!("{once:?}");
    let twice = apply_review(once, &proposal, &review).unwrap();
    assert_eq!(format!("{twice:?}"), written);
}

#[test]
fn every_line_is_accepted_or_rejected_once() {
    let bundle = || {
        let mut record = operation_record();
        record.1 = Err("unread".to_string());
        canonical(vec![record, property_record()])
    };
    let report = validate_bundles(vec![bundle()]).unwrap_err();
    assert_eq!(report.total_nonblank, 3);
    assert_eq!(report.accepted + report.rejected, report.total_nonblank);
    for pair in report.dispositions.windows(2) {
        let key = |d: &RecordDisposition| (d.identity.clone(), d.code.clone(), d.message.clone());
        assert!(key(&pair[0]) < key(&pair[1]));
    }
}

#[test]
fn candidates_draw_on_distinct_sorted_records() {
    let proposal = propose(vec![canonical(vec![operation_record(), property_record()])]).unwrap();
    assert_eq!(proposal.record_dispositions.len(), 3);
    assert!(proposal.candidates.windows(2).all(|pair| pair[0].id < pair[1].id));
    for candidate in &proposal.candidates {
        assert!(!candidate.source_records.is_empty());
        assert!(candidate.source_records.windows(2).all(|pair| pair[0] < pair[1]));
    }
    for record in &proposal.record_dispositions {
        let cited =
            proposal.candidates.iter().any(|c| c.source_records.contains(&record.identity));
        assert_eq!(record.status == ProposalRecordStatus::Proposed, cited);
    }
}

#[test]
fn texts_are_quoted_with_escapes() {
    let report = ValidationReport {
        schema: "a\"b\\c/é".into(),
        total_nonblank: 0,
        accepted: 0,
        rejected: 1,
        dispositions: vec![RecordDisposition {
            identity: "\u{8}\t\n\u{c}\r".into(),
            status: ValidationStatus::Rejected,
            code: "\u{1}\u{1f}\u{7f}".into(),
            message: String::new(),
        }],
    };
    let written = validation_report_json(&report);
    assert!(written.contains(r#""schema": "a\"b\\c/é""#), "{written}");
    assert!(written.contains(r#""identity": "\b\t\n\f\r""#), "{written}");
    assert!(written.contains("\"code\": \"\\u0001\\u001f\u{7f}\""), "{written}");
}

fn candidate(assertion: CandidateAssertion) -> ProposalCandidate {
    ProposalCandidate { id: "candidate".into(), assertion, source_records: Vec::new() }
}

fn scope(state: &str) -> ExecutionContext {
    ExecutionContext { connection: "app".into(), mode: "idle".into(), state: state.into() }
}

fn operation(supported: bool, scopes: Vec<ExecutionContext>) -> ProposalCandidate {
    candidate(CandidateAssertion::Operation { code: "0x1014".into(), supported, scopes })
}

#[test]
fn a_candidate_on_what_is_not_supported_changes_nothing() {
    let mut manifest = example();
    let before = format!("{manifest:?}");
    apply_candidate(&mut manifest, &operation(false, vec![scope("ready")])).unwrap();
    assert_eq!(format!("{manifest:?}"), before);
}

#[test]
fn an_identity_fills_what_is_empty_and_overwrites_nothing() {
    let identity = |firmware: &str| {
        candidate(CandidateAssertion::CameraIdentity {
            manufacturer: "EXAMPLE".into(),
            model: "MODEL 1".into(),
            firmware: firmware.into(),
        })
    };
    let mut manifest = base("EXAMPLE", "", "1.0");
    let before = format!("{manifest:?}");
    assert_eq!(
        apply_candidate(&mut manifest, &identity("2.0")).unwrap_err(),
        GenerationError::ApplyConflict(
            "camera firmware \"1.0\" conflicts with \"2.0\"".to_string()
        )
    );
    assert_eq!(format!("{manifest:?}"), before);
    apply_candidate(&mut manifest, &identity("1.0")).unwrap();
    assert_eq!(manifest.camera.model, "MODEL 1");
    assert_eq!(manifest.camera.firmware, "1.0");
}

#[test]
fn a_known_operation_gains_scopes_only() {
    let mut manifest = example();
    apply_candidate(&mut manifest, &operation(true, vec![scope("ready")])).unwrap();
    let name = manifest.operations.get("0x1014").unwrap().name.clone();
    let more = operation(true, vec![scope("ready"), scope("busy"), scope("busy")]);
    apply_candidate(&mut manifest, &more).unwrap();
    let known = manifest.operations.get("0x1014").unwrap();
    assert_eq!(known.name, name);
    let states: Vec<&str> = known.observed_scopes.iter().map(|s| s.state.as_str()).collect();
    assert_eq!(states, ["busy", "ready"]);
    let once = format!("{manifest:?}");
    apply_candidate(&mut manifest, &more).unwrap();
    assert_eq!(format!("{manifest:?}"), once);
}
