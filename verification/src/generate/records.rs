//! The checks on one record and on a bundle's header.

use crate::generate::fields::{
    fault_models, identifier_faults, payload_faults, payload_opt_faults, ptp_code_faults, refuse,
    refused, sanitized_faults, sha256_faults, validate_identifier, validate_payload,
    validate_payload_opt, validate_ptp_code, validate_sanitized, validate_sha256, Fault, FaultModel,
};
use crate::generate::parse::{line_values, ParsedLine};
use crate::json::{equal_json, same_json};
use crate::observation::{
    ArtifactMetadata, BundleHeader, CapabilityRecord, CapabilitySubject, CaptureClock,
    CaptureContext, CaptureInterface, ClockMapping, ControlEvidenceBasis, ControlObservedEffect,
    HttpExchangeRecord, ObservationLine, PtpEventRecord, PtpTransactionRecord, Readback,
    TransactionOutcome, TransportOutcome,
};
use crate::text::{debug_text, join2, same, text_debug};
use vstd::prelude::*;

verus! {

/// Whether an outcome is known and is not `wanted`.
pub open spec fn other_outcome(
    outcome: Option<TransactionOutcome>,
    wanted: TransactionOutcome,
) -> bool {
    outcome is Some && outcome->0 != wanted
}

/// The faults behind the claims on basis, effect and readback.
pub open spec fn claim_faults(
    outcome: Option<TransactionOutcome>,
    basis: ControlEvidenceBasis,
    effect: ControlObservedEffect,
    readback: Readback,
    f: Seq<FaultModel>,
) -> Seq<FaultModel> {
    if basis == ControlEvidenceBasis::DescriptorOnly {
        refused(
            f,
            effect != ControlObservedEffect::Unknown || readback !is NotObserved,
            "O111"@,
            "descriptorOnly requires unknown effect and notObserved readback"@,
        )
    } else {
        let failed = other_outcome(outcome, TransactionOutcome::Completed);
        match effect {
            ControlObservedEffect::Confirmed => match readback {
                Readback::Observed { request, observed, .. } => if same_json(
                    request@,
                    observed@,
                ) {
                    refused(f, failed, "O112"@, "confirmed effect requires an ok transaction"@)
                } else {
                    refused(
                        f,
                        true,
                        "O112"@,
                        "confirmed effect requires matching observed readback"@,
                    )
                },
                Readback::NotObserved { .. } => refused(
                    f,
                    true,
                    "O112"@,
                    "confirmed effect requires matching observed readback"@,
                ),
            },
            ControlObservedEffect::AckNoEffect => match readback {
                Readback::Observed { baseline, request, observed, .. } => if same_json(
                    observed@,
                    baseline@,
                ) && !same_json(observed@, request@) {
                    refused(f, failed, "O113"@, "ackNoEffect requires an ok transaction"@)
                } else {
                    refused(
                        f,
                        true,
                        "O113"@,
                        "ackNoEffect requires observed baseline distinct from request"@,
                    )
                },
                Readback::NotObserved { .. } => refused(
                    f,
                    true,
                    "O113"@,
                    "ackNoEffect requires observed baseline distinct from request"@,
                ),
            },
            ControlObservedEffect::ProtocolRefused => refused(
                f,
                readback !is NotObserved || other_outcome(outcome, TransactionOutcome::NonOk),
                "O114"@,
                "protocolRefused requires nonOk transaction and notObserved readback"@,
            ),
            ControlObservedEffect::DestructiveClamp => match readback {
                Readback::Observed { request, observed, .. } => if !same_json(
                    request@,
                    observed@,
                ) {
                    refused(f, failed, "O115"@, "destructiveClamp requires an ok transaction"@)
                } else {
                    refused(
                        f,
                        true,
                        "O115"@,
                        "destructiveClamp requires an observed value distinct from request"@,
                    )
                },
                Readback::NotObserved { .. } => refused(
                    f,
                    true,
                    "O115"@,
                    "destructiveClamp requires an observed value distinct from request"@,
                ),
            },
            ControlObservedEffect::Unknown => refused(
                f,
                readback !is NotObserved,
                "O116"@,
                "unknown effect requires notObserved readback"@,
            ),
        }
    }
}

/// Whether nothing was read back.
fn not_observed(readback: &Readback) -> (r: bool)
    ensures
        r == (*readback is NotObserved),
{
    match readback {
        Readback::NotObserved { .. } => true,
        Readback::Observed { .. } => false,
    }
}

/// Whether an outcome is known and is not `wanted`.
fn is_other_outcome(outcome: Option<TransactionOutcome>, wanted: TransactionOutcome) -> (r: bool)
    ensures
        r == other_outcome(outcome, wanted),
{
    match outcome {
        Some(o) => o != wanted,
        None => false,
    }
}

/// Refuses claims on basis, effect and readback that do not agree with each other or with the
/// outcome.
fn validate_orthogonal_claims(
    outcome: Option<TransactionOutcome>,
    basis: ControlEvidenceBasis,
    effect: ControlObservedEffect,
    readback: &Readback,
    faults: &mut Vec<Fault>,
)
    ensures
        fault_models(final(faults)@) == claim_faults(
            outcome,
            basis,
            effect,
            *readback,
            fault_models(old(faults)@),
        ),
{
    if basis == ControlEvidenceBasis::DescriptorOnly {
        if effect != ControlObservedEffect::Unknown || !not_observed(readback) {
            refuse(
                faults,
                "O111",
                "descriptorOnly requires unknown effect and notObserved readback".to_owned(),
            );
        }
        return;
    }
    let failed = is_other_outcome(outcome, TransactionOutcome::Completed);
    match effect {
        ControlObservedEffect::Confirmed => {
            let matching = match readback {
                Readback::Observed { request, observed, .. } => equal_json(request, observed),
                Readback::NotObserved { .. } => false,
            };
            if !matching {
                refuse(
                    faults,
                    "O112",
                    "confirmed effect requires matching observed readback".to_owned(),
                );
            } else if failed {
                refuse(faults, "O112", "confirmed effect requires an ok transaction".to_owned());
            }
        },
        ControlObservedEffect::AckNoEffect => {
            let unchanged = match readback {
                Readback::Observed { baseline, request, observed, .. } => equal_json(
                    observed,
                    baseline,
                ) && !equal_json(observed, request),
                Readback::NotObserved { .. } => false,
            };
            if !unchanged {
                refuse(
                    faults,
                    "O113",
                    "ackNoEffect requires observed baseline distinct from request".to_owned(),
                );
            } else if failed {
                refuse(faults, "O113", "ackNoEffect requires an ok transaction".to_owned());
            }
        },
        ControlObservedEffect::ProtocolRefused => {
            if !not_observed(readback) || is_other_outcome(outcome, TransactionOutcome::NonOk) {
                refuse(
                    faults,
                    "O114",
                    "protocolRefused requires nonOk transaction and notObserved readback".to_owned(),
                );
            }
        },
        ControlObservedEffect::DestructiveClamp => {
            let clamped = match readback {
                Readback::Observed { request, observed, .. } => !equal_json(request, observed),
                Readback::NotObserved { .. } => false,
            };
            if !clamped {
                refuse(
                    faults,
                    "O115",
                    "destructiveClamp requires an observed value distinct from request".to_owned(),
                );
            } else if failed {
                refuse(faults, "O115", "destructiveClamp requires an ok transaction".to_owned());
            }
        },
        ControlObservedEffect::Unknown => {
            if !not_observed(readback) {
                refuse(faults, "O116", "unknown effect requires notObserved readback".to_owned());
            }
        },
    }
}

/// Whether one of the first `n` clocks has the id.
pub open spec fn has_clock(clocks: Seq<CaptureClock>, id: Seq<char>, n: int) -> bool {
    exists|i: int| 0 <= i < n && i < clocks.len() && (#[trigger] clocks[i]).id@ == id
}

/// Whether one of the first `n` clocks has the id.
pub(crate) fn find_clock(clocks: &Vec<CaptureClock>, id: &str, n: usize) -> (r: bool)
    ensures
        r == has_clock(clocks@, id@, n as int),
{
    let mut i: usize = 0;
    while i < n && i < clocks.len()
        invariant
            i <= n,
            i <= clocks.len(),
            !has_clock(clocks@, id@, i as int),
        decreases clocks.len() - i,
    {
        if same(clocks[i].id.as_str(), id) {
            return true;
        }
        i = i + 1;
    }
    false
}

/// Whether a declared mapping links the two clocks, in one direction or the other.
pub open spec fn has_mapping(mappings: Seq<ClockMapping>, a: Seq<char>, b: Seq<char>) -> bool {
    exists|i: int|
        0 <= i < mappings.len() && links((#[trigger] mappings[i]), a, b)
}

/// Whether a mapping links the two clocks, in one direction or the other.
pub open spec fn links(m: ClockMapping, a: Seq<char>, b: Seq<char>) -> bool {
    (m.from@ == a && m.to@ == b) || (m.from@ == b && m.to@ == a)
}

/// Whether a declared mapping links the two clocks.
fn find_mapping(mappings: &Vec<ClockMapping>, a: &str, b: &str) -> (r: bool)
    ensures
        r == has_mapping(mappings@, a@, b@),
{
    let mut i: usize = 0;
    while i < mappings.len()
        invariant
            i <= mappings.len(),
            forall|k: int| 0 <= k < i ==> !links((#[trigger] mappings@[k]), a@, b@),
        decreases mappings.len() - i,
    {
        let from = mappings[i].from.as_str();
        let to = mappings[i].to.as_str();
        if (same(from, a) && same(to, b)) || (same(from, b) && same(to, a)) {
            return true;
        }
        i = i + 1;
    }
    false
}

/// Whether one of the first `n` interfaces has the id.
pub open spec fn has_interface(v: Seq<CaptureInterface>, id: Seq<char>, n: int) -> bool {
    exists|i: int| 0 <= i < n && i < v.len() && (#[trigger] v[i]).id@ == id
}

/// Whether one of the first `n` artifacts has the id.
pub open spec fn has_artifact(v: Seq<ArtifactMetadata>, id: Seq<char>, n: int) -> bool {
    exists|i: int| 0 <= i < n && i < v.len() && (#[trigger] v[i]).id@ == id
}

/// The faults behind the interfaces from `i` on.
pub open spec fn interface_faults(
    v: Seq<CaptureInterface>,
    f: Seq<FaultModel>,
    i: int,
) -> Seq<FaultModel>
    decreases v.len() - i,
{
    if i < 0 || i >= v.len() {
        f
    } else {
        interface_faults(
            v,
            refused(
                identifier_faults(v[i].id@, "capture interface id"@, f),
                has_interface(v, v[i].id@, i),
                "O044"@,
                "duplicate capture interface "@ + text_debug(v[i].id@),
            ),
            i + 1,
        )
    }
}

/// Refuses interface ids that are no identifiers or repeat.
fn validate_interfaces(v: &Vec<CaptureInterface>, faults: &mut Vec<Fault>)
    ensures
        fault_models(final(faults)@) == interface_faults(v@, fault_models(old(faults)@), 0),
{
    let mut i: usize = 0;
    while i < v.len()
        invariant
            i <= v.len(),
            interface_faults(v@, fault_models(old(faults)@), 0) == interface_faults(
                v@,
                fault_models(faults@),
                i as int,
            ),
        decreases v.len() - i,
    {
        let id = v[i].id.as_str();
        validate_identifier(id, "capture interface id", faults);
        let mut repeated = false;
        let mut k: usize = 0;
        while k < i && !repeated
            invariant
                k <= i,
                i < v.len(),
                id@ == v@[i as int].id@,
                repeated == has_interface(v@, id@, k as int),
            decreases i - k,
        {
            repeated = same(v[k].id.as_str(), id);
            proof {
                assert(repeated ==> v@[k as int].id@ == id@);
            }
            k = k + 1;
        }
        if repeated {
            refuse(
                faults,
                "O044",
                join2("duplicate capture interface ", debug_text(id).as_str()),
            );
        }
        i = i + 1;
    }
}

/// The faults behind the clocks from `i` on.
pub open spec fn clock_faults(v: Seq<CaptureClock>, f: Seq<FaultModel>, i: int) -> Seq<FaultModel>
    decreases v.len() - i,
{
    if i < 0 || i >= v.len() {
        f
    } else {
        clock_faults(
            v,
            refused(
                identifier_faults(v[i].id@, "clock id"@, f),
                has_clock(v, v[i].id@, i),
                "O045"@,
                "duplicate clock "@ + text_debug(v[i].id@),
            ),
            i + 1,
        )
    }
}

/// Refuses clock ids that are no identifiers or repeat.
fn validate_clocks(v: &Vec<CaptureClock>, faults: &mut Vec<Fault>)
    ensures
        fault_models(final(faults)@) == clock_faults(v@, fault_models(old(faults)@), 0),
{
    let mut i: usize = 0;
    while i < v.len()
        invariant
            i <= v.len(),
            clock_faults(v@, fault_models(old(faults)@), 0) == clock_faults(
                v@,
                fault_models(faults@),
                i as int,
            ),
        decreases v.len() - i,
    {
        let id = v[i].id.as_str();
        validate_identifier(id, "clock id", faults);
        if find_clock(v, id, i) {
            refuse(faults, "O045", join2("duplicate clock ", debug_text(id).as_str()));
        }
        i = i + 1;
    }
}

/// The faults behind the clock mappings from `i` on.
pub open spec fn mapping_faults(c: CaptureContext, f: Seq<FaultModel>, i: int) -> Seq<FaultModel>
    decreases c.clock_mappings@.len() - i,
{
    if i < 0 || i >= c.clock_mappings@.len() {
        f
    } else {
        let m = c.clock_mappings@[i];
        let n = c.clocks@.len() as int;
        mapping_faults(
            c,
            refused(
                f,
                m.from@ == m.to@ || !has_clock(c.clocks@, m.from@, n) || !has_clock(
                    c.clocks@,
                    m.to@,
                    n,
                ),
                "O046"@,
                "clock mapping must link two declared distinct clocks"@,
            ),
            i + 1,
        )
    }
}

/// Refuses clock mappings that do not link two declared clocks.
fn validate_mappings(c: &CaptureContext, faults: &mut Vec<Fault>)
    ensures
        fault_models(final(faults)@) == mapping_faults(*c, fault_models(old(faults)@), 0),
{
    let mut i: usize = 0;
    while i < c.clock_mappings.len()
        invariant
            i <= c.clock_mappings.len(),
            mapping_faults(*c, fault_models(old(faults)@), 0) == mapping_faults(
                *c,
                fault_models(faults@),
                i as int,
            ),
        decreases c.clock_mappings.len() - i,
    {
        let from = c.clock_mappings[i].from.as_str();
        let to = c.clock_mappings[i].to.as_str();
        let n: usize = c.clocks.len();
        if same(from, to) || !find_clock(&c.clocks, from, n) || !find_clock(&c.clocks, to, n) {
            refuse(
                faults,
                "O046",
                "clock mapping must link two declared distinct clocks".to_owned(),
            );
        }
        i = i + 1;
    }
}

/// The faults behind the artifacts from `i` on.
pub open spec fn artifact_faults(
    v: Seq<ArtifactMetadata>,
    f: Seq<FaultModel>,
    i: int,
) -> Seq<FaultModel>
    decreases v.len() - i,
{
    if i < 0 || i >= v.len() {
        f
    } else {
        artifact_faults(
            v,
            refused(
                sha256_faults(v[i].sha256@, identifier_faults(v[i].id@, "artifact id"@, f)),
                has_artifact(v, v[i].id@, i),
                "O047"@,
                "duplicate artifact "@ + text_debug(v[i].id@),
            ),
            i + 1,
        )
    }
}

/// Refuses artifacts whose id is no identifier or repeats, or whose digest is none.
fn validate_artifacts(v: &Vec<ArtifactMetadata>, faults: &mut Vec<Fault>)
    ensures
        fault_models(final(faults)@) == artifact_faults(v@, fault_models(old(faults)@), 0),
{
    let mut i: usize = 0;
    while i < v.len()
        invariant
            i <= v.len(),
            artifact_faults(v@, fault_models(old(faults)@), 0) == artifact_faults(
                v@,
                fault_models(faults@),
                i as int,
            ),
        decreases v.len() - i,
    {
        let id = v[i].id.as_str();
        validate_identifier(id, "artifact id", faults);
        validate_sha256(v[i].sha256.as_str(), faults);
        let mut repeated = false;
        let mut k: usize = 0;
        while k < i && !repeated
            invariant
                k <= i,
                i < v.len(),
                id@ == v@[i as int].id@,
                repeated == has_artifact(v@, id@, k as int),
            decreases i - k,
        {
            repeated = same(v[k].id.as_str(), id);
            proof {
                assert(repeated ==> v@[k as int].id@ == id@);
            }
            k = k + 1;
        }
        if repeated {
            refuse(faults, "O047", join2("duplicate artifact ", debug_text(id).as_str()));
        }
        i = i + 1;
    }
}

/// The faults behind the names in a header.
pub open spec fn name_faults(h: BundleHeader, f: Seq<FaultModel>) -> Seq<FaultModel> {
    let f1 = sanitized_faults(h.camera.manufacturer@, "camera.manufacturer"@, f);
    let f2 = sanitized_faults(h.camera.model@, "camera.model"@, f1);
    let f3 = sanitized_faults(h.camera.body_id@, "camera.bodyId"@, f2);
    let f4 = sanitized_faults(h.camera.firmware@, "camera.firmware"@, f3);
    let f5 = sanitized_faults(h.client.artifact@, "client.artifact"@, f4);
    let f6 = sanitized_faults(h.client.version@, "client.version"@, f5);
    sanitized_faults(h.client.platform@, "client.platform"@, f6)
}

/// The faults behind what a header says of the capture.
pub open spec fn capture_faults(c: CaptureContext, f: Seq<FaultModel>) -> Seq<FaultModel> {
    let f1 = refused(
        f,
        c.interfaces@.len() == 0,
        "O040"@,
        "capture.interfaces must not be empty"@,
    );
    let f2 = refused(f1, c.clocks@.len() == 0, "O041"@, "capture.clocks must not be empty"@);
    let f3 = refused(
        f2,
        c.tool_versions.entries().len() == 0,
        "O042"@,
        "capture.toolVersions must not be empty"@,
    );
    let f4 = refused(
        f3,
        c.loss.dropped_records != 0 || c.loss.dropped_bytes != 0 || c.loss.truncated_payloads != 0,
        "O043"@,
        "loss or truncation makes the bundle non-proposable"@,
    );
    let f5 = interface_faults(c.interfaces@, f4, 0);
    let f6 = clock_faults(c.clocks@, f5, 0);
    let f7 = mapping_faults(c, f6, 0);
    artifact_faults(c.artifacts@, f7, 0)
}

/// The faults behind a header.
pub open spec fn header_faults(h: BundleHeader, f: Seq<FaultModel>) -> Seq<FaultModel> {
    capture_faults(h.capture, name_faults(h, f))
}

/// Refuses a header that does not account for its capture.
pub(crate) fn validate_header(header: &BundleHeader, faults: &mut Vec<Fault>)
    ensures
        fault_models(final(faults)@) == header_faults(*header, fault_models(old(faults)@)),
{
    validate_sanitized(header.camera.manufacturer.as_str(), "camera.manufacturer", faults);
    validate_sanitized(header.camera.model.as_str(), "camera.model", faults);
    validate_sanitized(header.camera.body_id.as_str(), "camera.bodyId", faults);
    validate_sanitized(header.camera.firmware.as_str(), "camera.firmware", faults);
    validate_sanitized(header.client.artifact.as_str(), "client.artifact", faults);
    validate_sanitized(header.client.version.as_str(), "client.version", faults);
    validate_sanitized(header.client.platform.as_str(), "client.platform", faults);
    let capture = &header.capture;
    if capture.interfaces.len() == 0 {
        refuse(faults, "O040", "capture.interfaces must not be empty".to_owned());
    }
    if capture.clocks.len() == 0 {
        refuse(faults, "O041", "capture.clocks must not be empty".to_owned());
    }
    if capture.tool_versions.is_empty() {
        refuse(faults, "O042", "capture.toolVersions must not be empty".to_owned());
    }
    if capture.loss.dropped_records != 0 || capture.loss.dropped_bytes != 0
        || capture.loss.truncated_payloads != 0 {
        refuse(faults, "O043", "loss or truncation makes the bundle non-proposable".to_owned());
    }
    validate_interfaces(&capture.interfaces, faults);
    validate_clocks(&capture.clocks, faults);
    validate_mappings(capture, faults);
    validate_artifacts(&capture.artifacts, faults);
}

/// The code of a transaction's response.
pub open spec fn response_code(t: PtpTransactionRecord) -> Option<Seq<char>> {
    match t.response {
        Some(r) => Some(r.code@),
        None => None,
    }
}

/// The faults behind the codes and payloads of a transaction.
pub open spec fn phase_faults(
    t: PtpTransactionRecord,
    artifacts: Seq<ArtifactMetadata>,
    f: Seq<FaultModel>,
) -> Seq<FaultModel> {
    let f1 = ptp_code_faults(t.request.operation@, "operation"@, f);
    let f2 = match t.request.data {
        Some(d) => payload_faults(d.payload, artifacts, f1),
        None => f1,
    };
    match t.response {
        Some(r) => {
            let f3 = ptp_code_faults(r.code@, "response"@, f2);
            match r.data {
                Some(d) => payload_faults(d.payload, artifacts, f3),
                None => f3,
            }
        },
        None => f2,
    }
}

/// The faults behind a transaction's outcome.
pub open spec fn outcome_faults(t: PtpTransactionRecord, f: Seq<FaultModel>) -> Seq<FaultModel> {
    let code = response_code(t);
    match t.outcome {
        TransactionOutcome::Completed => refused(
            f,
            code != Some("0x2001"@),
            "O101"@,
            "ok PTP outcome requires response 0x2001"@,
        ),
        TransactionOutcome::NonOk => refused(
            f,
            code is None || code == Some("0x2001"@),
            "O102"@,
            "nonOk PTP outcome requires a non-0x2001 response"@,
        ),
        TransactionOutcome::Timeout | TransactionOutcome::TransportAbort => refused(
            f,
            code is Some,
            "O103"@,
            "timeout/transportAbort cannot carry a response"@,
        ),
        TransactionOutcome::Incomplete => refused(
            f,
            true,
            "O104"@,
            "incomplete PTP transaction is not accepted"@,
        ),
    }
}

/// The faults behind the claims of a transaction: all three are there, or none is.
pub open spec fn transaction_claim_faults(
    t: PtpTransactionRecord,
    f: Seq<FaultModel>,
) -> Seq<FaultModel> {
    match (t.evidence_basis, t.observed_effect, t.readback) {
        (None, None, None) => f,
        (Some(basis), Some(effect), Some(readback)) => claim_faults(
            Some(t.outcome),
            basis,
            effect,
            readback,
            f,
        ),
        _ => refused(
            f,
            true,
            "O110"@,
            "evidenceBasis, observedEffect, and readback must be supplied together"@,
        ),
    }
}

/// Refuses a transaction whose response does not fit its outcome, or whose claims do not agree.
fn validate_transaction(
    record: &PtpTransactionRecord,
    artifacts: &Vec<ArtifactMetadata>,
    faults: &mut Vec<Fault>,
)
    ensures
        fault_models(final(faults)@) == transaction_claim_faults(
            *record,
            outcome_faults(*record, phase_faults(*record, artifacts@, fault_models(old(faults)@))),
        ),
{
    validate_ptp_code(record.request.operation.as_str(), "operation", faults);
    match &record.request.data {
        Some(data) => validate_payload(&data.payload, artifacts, faults),
        None => {},
    }
    let (answered, approved) = match &record.response {
        Some(response) => {
            validate_ptp_code(response.code.as_str(), "response", faults);
            match &response.data {
                Some(data) => validate_payload(&data.payload, artifacts, faults),
                None => {},
            }
            (true, same(response.code.as_str(), "0x2001"))
        },
        None => (false, false),
    };
    match record.outcome {
        TransactionOutcome::Completed => {
            if !approved {
                refuse(faults, "O101", "ok PTP outcome requires response 0x2001".to_owned());
            }
        },
        TransactionOutcome::NonOk => {
            if !answered || approved {
                refuse(
                    faults,
                    "O102",
                    "nonOk PTP outcome requires a non-0x2001 response".to_owned(),
                );
            }
        },
        TransactionOutcome::Timeout | TransactionOutcome::TransportAbort => {
            if answered {
                refuse(faults, "O103", "timeout/transportAbort cannot carry a response".to_owned());
            }
        },
        TransactionOutcome::Incomplete => {
            refuse(faults, "O104", "incomplete PTP transaction is not accepted".to_owned());
        },
    }
    match (record.evidence_basis, record.observed_effect, &record.readback) {
        (None, None, None) => {},
        (Some(basis), Some(effect), Some(readback)) => {
            validate_orthogonal_claims(Some(record.outcome), basis, effect, readback, faults);
        },
        _ => {
            refuse(
                faults,
                "O110",
                "evidenceBasis, observedEffect, and readback must be supplied together".to_owned(),
            );
        },
    }
}

/// Where a transaction ran: its connection instance and its session.
pub type Venue = (Seq<char>, Seq<char>);

/// Where the line's transaction ran, where it is one of the run with the id.
pub open spec fn venue_of(line: Option<ObservationLine>, run: Seq<char>, id: Seq<char>) -> Option<Venue> {
    match line {
        Some(ObservationLine::PtpTransaction(t)) => if t.common.run_id@ == run
            && t.common.record_id@ == id {
            Some((t.connection_instance@, t.session@))
        } else {
            None
        },
        _ => None,
    }
}

/// Where the last transaction of the run with the id, among the first `n` lines, ran.
pub open spec fn transaction_venue(
    lines: Seq<Option<ObservationLine>>,
    run: Seq<char>,
    id: Seq<char>,
    n: int,
) -> Option<Venue>
    decreases n,
{
    if n <= 0 || n > lines.len() {
        None
    } else if venue_of(lines[n - 1], run, id) is Some {
        venue_of(lines[n - 1], run, id)
    } else {
        transaction_venue(lines, run, id, n - 1)
    }
}

/// Where the last transaction of the run with the id ran.
fn find_venue<'a>(lines: &'a Vec<ParsedLine>, run: &str, id: &str) -> (r: Option<
    (&'a str, &'a str),
>)
    ensures
        transaction_venue(line_values(lines@), run@, id@, lines@.len() as int) == match r {
            Some((connection, session)) => Some((connection@, session@)),
            None => None,
        },
{
    let mut n: usize = lines.len();
    while n > 0
        invariant
            n <= lines.len(),
            transaction_venue(line_values(lines@), run@, id@, lines@.len() as int)
                == transaction_venue(line_values(lines@), run@, id@, n as int),
        decreases n,
    {
        proof {
            assert(line_values(lines@)[n - 1] == lines@[n - 1].value);
        }
        match &lines[n - 1].value {
            Some(ObservationLine::PtpTransaction(t)) => {
                if same(t.common.run_id.as_str(), run) && same(t.common.record_id.as_str(), id) {
                    return Some((t.connection_instance.as_str(), t.session.as_str()));
                }
            },
            _ => {},
        }
        n = n - 1;
    }
    None
}

/// The faults behind an event.
pub open spec fn event_faults(
    e: PtpEventRecord,
    artifacts: Seq<ArtifactMetadata>,
    lines: Seq<Option<ObservationLine>>,
    run: Seq<char>,
    f: Seq<FaultModel>,
) -> Seq<FaultModel> {
    let f1 = payload_opt_faults(e.payload, artifacts, ptp_code_faults(e.event@, "event"@, f));
    match e.transaction_record_id {
        None => f1,
        Some(id) => match transaction_venue(lines, run, id@, lines.len() as int) {
            None => refused(
                f1,
                true,
                "O120"@,
                "PTP event has a dangling transactionRecordId"@,
            ),
            Some(venue) => refused(
                f1,
                venue != (e.connection_instance@, e.session@),
                "O121"@,
                "PTP event transaction link crosses connection or session"@,
            ),
        },
    }
}

/// The faults behind an HTTP exchange.
pub open spec fn exchange_faults(
    x: HttpExchangeRecord,
    artifacts: Seq<ArtifactMetadata>,
    f: Seq<FaultModel>,
) -> Seq<FaultModel> {
    let f1 = payload_opt_faults(x.request.body, artifacts, f);
    let f2 = match x.response {
        Some(r) => payload_opt_faults(r.body, artifacts, f1),
        None => f1,
    };
    match x.outcome {
        TransportOutcome::Completed => refused(
            f2,
            x.response is None,
            "O130"@,
            "successful HTTP exchange requires a response"@,
        ),
        TransportOutcome::Timeout | TransportOutcome::Abort => refused(
            f2,
            x.response is Some,
            "O131"@,
            "timeout/abort HTTP exchange cannot carry a response"@,
        ),
        TransportOutcome::Incomplete => refused(
            f2,
            true,
            "O132"@,
            "incomplete HTTP exchange is not accepted"@,
        ),
    }
}

/// Refuses an exchange whose response does not fit its outcome.
fn validate_exchange(
    record: &HttpExchangeRecord,
    artifacts: &Vec<ArtifactMetadata>,
    faults: &mut Vec<Fault>,
)
    ensures
        fault_models(final(faults)@) == exchange_faults(
            *record,
            artifacts@,
            fault_models(old(faults)@),
        ),
{
    validate_payload_opt(&record.request.body, artifacts, faults);
    match &record.response {
        Some(response) => validate_payload_opt(&response.body, artifacts, faults),
        None => {},
    }
    match record.outcome {
        TransportOutcome::Completed => {
            if record.response.is_none() {
                refuse(faults, "O130", "successful HTTP exchange requires a response".to_owned());
            }
        },
        TransportOutcome::Timeout | TransportOutcome::Abort => {
            if record.response.is_some() {
                refuse(
                    faults,
                    "O131",
                    "timeout/abort HTTP exchange cannot carry a response".to_owned(),
                );
            }
        },
        TransportOutcome::Incomplete => {
            refuse(faults, "O132", "incomplete HTTP exchange is not accepted".to_owned());
        },
    }
}

/// The faults behind a capability.
pub open spec fn capability_faults(c: CapabilityRecord, f: Seq<FaultModel>) -> Seq<FaultModel> {
    let f1 = match c.subject {
        CapabilitySubject::Identity { .. } => f,
        CapabilitySubject::Operation { code, .. } => ptp_code_faults(
            code@,
            "capability code"@,
            f,
        ),
        CapabilitySubject::Property { code, .. } => ptp_code_faults(code@, "capability code"@, f),
    };
    claim_faults(None, c.evidence_basis, c.observed_effect, c.readback, f1)
}

/// Refuses a capability whose code is none or whose claims do not agree.
fn validate_capability(record: &CapabilityRecord, faults: &mut Vec<Fault>)
    ensures
        fault_models(final(faults)@) == capability_faults(*record, fault_models(old(faults)@)),
{
    match &record.subject {
        CapabilitySubject::Identity { .. } => {},
        CapabilitySubject::Operation { code, .. } => {
            validate_ptp_code(code.as_str(), "capability code", faults);
        },
        CapabilitySubject::Property { code, .. } => {
            validate_ptp_code(code.as_str(), "capability code", faults);
        },
    }
    validate_orthogonal_claims(
        None,
        record.evidence_basis,
        record.observed_effect,
        &record.readback,
        faults,
    );
}

/// The faults behind what is peculiar to the kind of a record.
pub open spec fn kind_faults(
    line: ObservationLine,
    artifacts: Seq<ArtifactMetadata>,
    lines: Seq<Option<ObservationLine>>,
    run: Seq<char>,
    f: Seq<FaultModel>,
) -> Seq<FaultModel> {
    match line {
        ObservationLine::BundleHeader(_) => f,
        ObservationLine::Lifecycle(_) => f,
        ObservationLine::BleGatt(r) => refused(
            payload_opt_faults(r.payload, artifacts, f),
            r.outcome == TransportOutcome::Incomplete,
            "O100"@,
            "incomplete BLE record is not accepted"@,
        ),
        ObservationLine::PtpTransaction(r) => transaction_claim_faults(
            *r,
            outcome_faults(*r, phase_faults(*r, artifacts, f)),
        ),
        ObservationLine::PtpEvent(r) => event_faults(r, artifacts, lines, run, f),
        ObservationLine::HttpExchange(r) => exchange_faults(r, artifacts, f),
        ObservationLine::Capability(r) => capability_faults(*r, f),
        ObservationLine::ActionInvocation(r) => identifier_faults(
            r.action_id@,
            "actionId"@,
            identifier_faults(r.catalog_revision@, "catalogRevision"@, f),
        ),
    }
}

/// The clock that a record's readback and the record itself were timed by.
pub open spec fn readback_clocks(line: ObservationLine) -> Option<(Seq<char>, Seq<char>)> {
    match line {
        ObservationLine::PtpTransaction(r) => match r.readback {
            Some(Readback::Observed { observed_at, .. }) => Some(
                (observed_at.clock@, r.common.time.clock@),
            ),
            _ => None,
        },
        ObservationLine::Capability(r) => match r.readback {
            Readback::Observed { observed_at, .. } => Some(
                (observed_at.clock@, r.common.time.clock@),
            ),
            _ => None,
        },
        _ => None,
    }
}

/// The faults behind the clock of a readback.
pub open spec fn readback_faults(
    line: ObservationLine,
    c: CaptureContext,
    f: Seq<FaultModel>,
) -> Seq<FaultModel> {
    match readback_clocks(line) {
        None => f,
        Some((clock, record_clock)) => if !has_clock(c.clocks@, clock, c.clocks@.len() as int) {
            refused(f, true, "O031"@, "readback uses unknown clock "@ + text_debug(clock))
        } else {
            refused(
                f,
                clock != record_clock && !has_mapping(c.clock_mappings@, record_clock, clock),
                "O032"@,
                "readback clock differs from record clock without a declared mapping"@,
            )
        },
    }
}

/// Refuses a readback whose clock is not declared, or not linked to the record's own.
fn validate_readback_clock(
    clock: &str,
    record_clock: &str,
    c: &CaptureContext,
    faults: &mut Vec<Fault>,
)
    ensures
        fault_models(final(faults)@) == (if !has_clock(
            c.clocks@,
            clock@,
            c.clocks@.len() as int,
        ) {
            refused(
                fault_models(old(faults)@),
                true,
                "O031"@,
                "readback uses unknown clock "@ + text_debug(clock@),
            )
        } else {
            refused(
                fault_models(old(faults)@),
                clock@ != record_clock@ && !has_mapping(c.clock_mappings@, record_clock@, clock@),
                "O032"@,
                "readback clock differs from record clock without a declared mapping"@,
            )
        }),
{
    if !find_clock(&c.clocks, clock, c.clocks.len()) {
        refuse(faults, "O031", join2("readback uses unknown clock ", debug_text(clock).as_str()));
    } else if !same(clock, record_clock) && !find_mapping(&c.clock_mappings, record_clock, clock) {
        refuse(
            faults,
            "O032",
            "readback clock differs from record clock without a declared mapping".to_owned(),
        );
    }
}

/// The faults behind the content of a record.
pub open spec fn record_faults(
    line: ObservationLine,
    c: CaptureContext,
    lines: Seq<Option<ObservationLine>>,
    run: Seq<char>,
    f: Seq<FaultModel>,
) -> Seq<FaultModel> {
    readback_faults(line, c, kind_faults(line, c.artifacts@, lines, run, f))
}

/// Refuses a record whose content does not agree with itself, with its bundle's header, or with the
/// transaction it names among the lines of its bundle.
pub(crate) fn validate_record(
    value: &ObservationLine,
    c: &CaptureContext,
    lines: &Vec<ParsedLine>,
    run: &str,
    faults: &mut Vec<Fault>,
)
    ensures
        fault_models(final(faults)@) == record_faults(
            *value,
            *c,
            line_values(lines@),
            run@,
            fault_models(old(faults)@),
        ),
{
    match value {
        ObservationLine::BundleHeader(_) => {},
        ObservationLine::Lifecycle(_) => {},
        ObservationLine::BleGatt(record) => {
            validate_payload_opt(&record.payload, &c.artifacts, faults);
            if record.outcome == TransportOutcome::Incomplete {
                refuse(faults, "O100", "incomplete BLE record is not accepted".to_owned());
            }
        },
        ObservationLine::PtpTransaction(record) => {
            validate_transaction(record, &c.artifacts, faults);
        },
        ObservationLine::PtpEvent(record) => {
            validate_ptp_code(record.event.as_str(), "event", faults);
            validate_payload_opt(&record.payload, &c.artifacts, faults);
            match &record.transaction_record_id {
                None => {},
                Some(id) => match find_venue(lines, run, id.as_str()) {
                    None => {
                        refuse(
                            faults,
                            "O120",
                            "PTP event has a dangling transactionRecordId".to_owned(),
                        );
                    },
                    Some((connection, session)) => {
                        if !same(connection, record.connection_instance.as_str()) || !same(
                            session,
                            record.session.as_str(),
                        ) {
                            refuse(
                                faults,
                                "O121",
                                "PTP event transaction link crosses connection or session".to_owned(),
                            );
                        }
                    },
                },
            }
        },
        ObservationLine::HttpExchange(record) => {
            validate_exchange(record, &c.artifacts, faults);
        },
        ObservationLine::Capability(record) => {
            validate_capability(record, faults);
        },
        ObservationLine::ActionInvocation(record) => {
            validate_identifier(record.catalog_revision.as_str(), "catalogRevision", faults);
            validate_identifier(record.action_id.as_str(), "actionId", faults);
        },
    }
    match value {
        ObservationLine::PtpTransaction(record) => match &record.readback {
            Some(Readback::Observed { observed_at, .. }) => {
                validate_readback_clock(
                    observed_at.clock.as_str(),
                    record.common.time.clock.as_str(),
                    c,
                    faults,
                );
            },
            _ => {},
        },
        ObservationLine::Capability(record) => match &record.readback {
            Readback::Observed { observed_at, .. } => {
                validate_readback_clock(
                    observed_at.clock.as_str(),
                    record.common.time.clock.as_str(),
                    c,
                    faults,
                );
            },
            _ => {},
        },
        _ => {},
    }
}

} // verus!
