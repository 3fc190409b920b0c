//! Payload metadata and the observation recorder.

use camera_config::generate::parse::BundleLine;
use camera_config::json::Json;
use camera_config::name_map::NameMap;
use camera_config::{
    direct_epistemic, no_loss, payload_metadata, validate_bundles, ActionOutcome, ActionRole,
    BleGattOperation,
    BleGattRecord, BundleHeader, CameraContext, CaptureClock, CaptureContext, CaptureInterface,
    CaptureInterfaceType, ClientContext, ClockType, ClockUnit, ExecutionContext, LifecycleMarker,
    ObservationLine, ObservationRecorder, PayloadMetadataBuilder, RecorderError, TransportOutcome,
    OBSERVATION_SCHEMA_VERSION,
};
use camera_config::recorder::{require_header, STREAM_RANGE_BYTES};

fn header(run_id: &str) -> BundleHeader {
    let mut tool_versions = NameMap::new();
    tool_versions.insert("test".to_string(), "1".to_string());
    BundleHeader {
        schema: OBSERVATION_SCHEMA_VERSION.into(),
        run_id: run_id.into(),
        record_id: "header".into(),
        ordinal: 0,
        camera: CameraContext {
            manufacturer: "TEST".into(),
            model: "BODY".into(),
            body_id: "sanitized-body".into(),
            firmware: "1".into(),
        },
        client: ClientContext {
            artifact: "test".into(),
            version: "1".into(),
            platform: "test".into(),
        },
        capture: CaptureContext {
            interfaces: vec![CaptureInterface {
                id: "test".into(),
                interface_type: CaptureInterfaceType::Synthetic,
                role: "test".into(),
            }],
            clocks: vec![CaptureClock {
                id: "process-monotonic".into(),
                clock_type: ClockType::Monotonic,
                unit: ClockUnit::Milliseconds,
            }],
            clock_mappings: Vec::new(),
            loss: no_loss(),
            redactions: Vec::new(),
            tool_versions,
            artifacts: Vec::new(),
        },
        epistemic: direct_epistemic(),
    }
}

fn context(mode: &str, state: &str) -> ExecutionContext {
    ExecutionContext {
        connection: "app".into(),
        mode: mode.into(),
        state: state.into(),
    }
}

fn lines_of(recorder: &ObservationRecorder) -> Vec<ObservationLine> {
    let mut lines = vec![ObservationLine::BundleHeader(recorder.header().clone())];
    lines.extend(recorder.records_after(0).into_iter().cloned());
    lines
}

#[test]
fn bounded_payload_hashes_the_complete_transfer() {
    let payload = vec![0xab; STREAM_RANGE_BYTES * 2 + 17];
    let metadata = payload_metadata(&payload);
    assert_eq!(metadata.length, payload.len() as u64);
    assert_eq!(metadata.sha256.len(), 64);
    assert!(metadata.inline_hex.is_none());
    assert_eq!(metadata.stream_ranges.len(), 3);
    assert_eq!(metadata.stream_ranges[0].offset, 0);
    assert_eq!(metadata.stream_ranges[0].length, STREAM_RANGE_BYTES as u64);
    assert_eq!(metadata.stream_ranges[2].offset, (STREAM_RANGE_BYTES * 2) as u64);
    assert_eq!(metadata.stream_ranges[2].length, 17);
    assert_eq!(metadata.stream_ranges[0].sha256.len(), 64);

    let mut split = PayloadMetadataBuilder::new();
    for chunk in payload.chunks(997) {
        split.update(chunk);
    }
    assert_eq!(
        split.metadata(),
        metadata,
        "range hashes must not depend on transport read boundaries"
    );

    let mut recorder = ObservationRecorder::open(header("large-run"), None).unwrap();
    recorder
        .append(context("image-transfer", "streaming"), 0, |common| {
            ObservationLine::BleGatt(BleGattRecord {
                common,
                connection_instance: "fixture".into(),
                operation: BleGattOperation::Notify,
                service: "service".into(),
                characteristic: "characteristic".into(),
                outcome: TransportOutcome::Completed,
                payload: Some(metadata),
            })
        })
        .unwrap();
    let mut bundle = Vec::new();
    for line in lines_of(&recorder) {
        let text = format!(
            "{{\"schema\":\"{}\",\"runId\":\"{}\",\"recordId\":\"{}\",\"ordinal\":{}}}",
            OBSERVATION_SCHEMA_VERSION,
            line.run_id(),
            line.record_id(),
            line.ordinal(),
        );
        bundle.push(BundleLine { text, decoded: Ok(line) });
    }
    let validated = validate_bundles(vec![bundle]).unwrap();
    assert_eq!(validated.report.total_nonblank, 2);
    assert_eq!(validated.report.rejected, 0);
}

#[test]
fn restart_preserves_cursor_and_rejects_a_different_run() {
    let mut recorder = ObservationRecorder::open(header("run"), None).unwrap();
    recorder
        .record_lifecycle(
            context("idle", "ready"),
            0,
            LifecycleMarker::ConnectionOpened,
            None,
            None,
            NameMap::new(),
        )
        .unwrap();
    let written = lines_of(&recorder);

    let reopened = ObservationRecorder::open(header("run"), Some(written.clone())).unwrap();
    assert_eq!(reopened.cursor(), 1);
    assert!(ObservationRecorder::open(header("other"), Some(written)).is_err());
}

#[test]
fn a_small_payload_is_kept_inline_with_its_digest() {
    let metadata = payload_metadata(b"abc");
    assert_eq!(metadata.length, 3);
    assert_eq!(metadata.inline_hex.as_deref(), Some("616263"));
    assert_eq!(
        metadata.sha256,
        "ba7816bf8f01cfea414140de5dae2223b00361a396177a9cb410ff61f20015ad"
    );
    assert_eq!(
        payload_metadata(b"").sha256,
        "e3b0c44298fc1c149afbf4c8996fb92427ae41e4649b934ca495991b7852b855"
    );
}

#[test]
fn appended_records_take_the_next_ordinal() {
    let mut recorder = ObservationRecorder::open(header("run"), None).unwrap();
    assert_eq!(recorder.cursor(), 0);
    for expected in 1..4 {
        let ordinal = recorder
            .record_lifecycle(
                context("idle", "ready"),
                expected,
                LifecycleMarker::Retry,
                None,
                Some(1),
                NameMap::new(),
            )
            .unwrap();
        assert_eq!(ordinal, expected);
    }
    assert_eq!(recorder.cursor(), 3);
    assert_eq!(recorder.run_id(), "run");
    let after: Vec<u64> = recorder.records_after(1).iter().map(|l| l.ordinal()).collect();
    assert_eq!(after, vec![2, 3]);
}

#[test]
fn a_partial_bundle_is_not_opened() {
    let mut recorder = ObservationRecorder::open(header("run"), None).unwrap();
    for at in 0..2 {
        recorder
            .record_lifecycle(
                context("idle", "ready"),
                at,
                LifecycleMarker::Discovery,
                None,
                None,
                NameMap::new(),
            )
            .unwrap();
    }
    let mut lines = lines_of(&recorder);
    lines.remove(1);
    assert!(ObservationRecorder::open(header("run"), Some(lines)).is_err());
    assert!(ObservationRecorder::open(header("run"), Some(Vec::new())).is_err());
    let mut unnamed = header("run");
    unnamed.run_id = String::new();
    let refused = ObservationRecorder::open(unnamed, None).err().unwrap();
    assert!(matches!(&refused, RecorderError::Contract(_)));
    assert!(refused.message().contains("nonempty IDs"));
}

#[test]
fn a_line_of_another_run_or_ordinal_is_refused() {
    let mut recorder = ObservationRecorder::open(header("run"), None).unwrap();
    recorder
        .record_lifecycle(
            context("idle", "ready"),
            0,
            LifecycleMarker::Discovery,
            None,
            None,
            NameMap::new(),
        )
        .unwrap();
    let again = lines_of(&recorder).remove(1);
    assert!(recorder.accepts(&again).is_err());
    assert!(recorder.append_line(again).is_err());
    assert_eq!(recorder.cursor(), 1);
}

#[test]
fn an_invocation_is_recorded_with_its_parameters() {
    let mut recorder = ObservationRecorder::open(header("run"), None).unwrap();
    let next = recorder.next_common(context("idle", "ready"), 12);
    assert_eq!(next.record_id, "record-0000000000000001");
    assert_eq!(next.ordinal, 1);
    assert_eq!(next.time.clock, "process-monotonic");
    assert_eq!(next.time.value, 12);
    let mut parameters = NameMap::new();
    parameters.insert("handle".to_string(), Json::Unsigned(7));
    let ordinal = recorder
        .record_action(
            context("idle", "ready"),
            12,
            "revision".to_string(),
            "app.shutter".to_string(),
            ActionRole::Initiator,
            parameters,
            ActionOutcome::Succeeded,
        )
        .unwrap();
    assert_eq!(ordinal, 1);
    match recorder.records_after(0)[0] {
        ObservationLine::ActionInvocation(record) => {
            assert_eq!(record.common, next);
            assert_eq!(record.catalog_revision, "revision");
            assert_eq!(record.action_id, "app.shutter");
            assert_eq!(record.role, ActionRole::Initiator);
            assert_eq!(record.parameters.get("handle"), Some(&Json::Unsigned(7)));
            assert_eq!(record.outcome, ActionOutcome::Succeeded);
        }
        other => panic!("expected an action invocation, got {other:?}"),
    }
}

#[test]
fn a_header_opens_a_bundle_only_where_it_is_canonical() {
    assert!(require_header(&header("run")).is_ok());
    let mut late = header("run");
    late.ordinal = 1;
    assert!(matches!(
        require_header(&late),
        Err(RecorderError::Contract(m))
            if m == "header must use camera-observation/v1 with nonempty IDs and ordinal zero"
    ));
}
