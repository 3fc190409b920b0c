//! What the verdict on a set of bundles does not depend on.

use crate::bag::{
    changed_forgets_order, gathered, gathered_forgets_order, gathered_from, holds_both,
    joined_elements, row_has_other, row_holds_both,
};
use crate::generate::bundle::{
    checked_bundle, correlation_key, correlation_keys, header_at, header_count, header_index, id_key, id_keys,
    is_header, leading_faults, ordinal_key, ordinal_keys, line_faults, repeat_faults, repeats, value_faults, values_of,
    with_faults,
};
use crate::generate::claims::same_descriptor;
use crate::generate::conflicts::{
    capability_of, clashes, conflict_lines, contested, contested_lines, descriptors_conflict,
    fact_keys, facts_conflict, global_key, labels_conflict, named_otherwise, profile_conflict,
    profiles_conflict, run_key, run_keys, run_lines, scoped_key,
};
use crate::generate::fields::{
    context_faults, identifier_faults, payload_faults, payload_opt_faults, ptp_code_faults,
    range_faults, ranges_faults, refused, sha256_faults, stream_faults, FaultModel,
};
use crate::generate::parse::{parsed_bundle, parsed_line, BundleLine, Parsed};
use crate::generate::propose::proposes;
use crate::generate::records::{
    artifact_faults, claim_faults, clock_faults, has_artifact, has_clock, has_interface,
    header_faults, interface_faults, kind_faults, mapping_faults, name_faults, outcome_faults,
    phase_faults, record_faults, transaction_claim_faults, transaction_venue, venue_of,
};
use crate::generate::report::{
    accepted_headers, accepted_records, all_dispositions, checked_lines, counts_as, judged_lines,
    line_dispositions, reports_on, tally, DispositionModel, Tally,
};
use crate::generate::write::links_of;
use crate::generate::{Proposal, RecordDisposition, ValidationReport, ValidationStatus};
use crate::json::{names_once, same_json, same_json_symmetric};
use crate::name_map::{ascending, lookup_at, lookup_index, NameMap};
use crate::observation::{
    line_common, line_ordinal, line_record, line_run, line_schema, ArtifactMetadata, ArtifactRange,
    BundleHeader, CapabilityDescriptor, CapabilitySubject, CaptureClock, CaptureContext,
    CaptureInterface, CapabilityValueProfile, ControlEvidenceBasis, ControlObservedEffect,
    ObservationLine, OBSERVATION_SCHEMA_VERSION, PayloadMetadata, PayloadRange,
    PtpTransactionRecord, Readback, TransactionOutcome,
};
use crate::order::{arranged, arranged_forgets_order, keys_identify, models_of, Keyed};
use crate::text::text_debug;
use vstd::multiset::Multiset;
use vstd::prelude::*;

verus! {

/// Whether no fault has the code of an acceptance, and none is there twice.
pub open spec fn coded(f: Seq<FaultModel>) -> bool {
    &&& forall|i: int| 0 <= i < f.len() ==> (#[trigger] f[i]).0 != "O000"@
    &&& f.no_duplicates()
}

/// No code of a fault is that of an acceptance.
pub proof fn codes_apart()
    ensures
        "O001"@ != "O000"@,
        "O002"@ != "O000"@,
        "O003"@ != "O000"@,
        "O010"@ != "O000"@,
        "O011"@ != "O000"@,
        "O012"@ != "O000"@,
        "O013"@ != "O000"@,
        "O014"@ != "O000"@,
        "O020"@ != "O000"@,
        "O021"@ != "O000"@,
        "O022"@ != "O000"@,
        "O023"@ != "O000"@,
        "O030"@ != "O000"@,
        "O031"@ != "O000"@,
        "O032"@ != "O000"@,
        "O040"@ != "O000"@,
        "O041"@ != "O000"@,
        "O042"@ != "O000"@,
        "O043"@ != "O000"@,
        "O044"@ != "O000"@,
        "O045"@ != "O000"@,
        "O046"@ != "O000"@,
        "O047"@ != "O000"@,
        "O050"@ != "O000"@,
        "O051"@ != "O000"@,
        "O060"@ != "O000"@,
        "O061"@ != "O000"@,
        "O070"@ != "O000"@,
        "O071"@ != "O000"@,
        "O080"@ != "O000"@,
        "O081"@ != "O000"@,
        "O082"@ != "O000"@,
        "O083"@ != "O000"@,
        "O084"@ != "O000"@,
        "O085"@ != "O000"@,
        "O086"@ != "O000"@,
        "O087"@ != "O000"@,
        "O088"@ != "O000"@,
        "O100"@ != "O000"@,
        "O101"@ != "O000"@,
        "O102"@ != "O000"@,
        "O103"@ != "O000"@,
        "O104"@ != "O000"@,
        "O110"@ != "O000"@,
        "O111"@ != "O000"@,
        "O112"@ != "O000"@,
        "O113"@ != "O000"@,
        "O114"@ != "O000"@,
        "O115"@ != "O000"@,
        "O116"@ != "O000"@,
        "O120"@ != "O000"@,
        "O121"@ != "O000"@,
        "O130"@ != "O000"@,
        "O131"@ != "O000"@,
        "O132"@ != "O000"@,
        "O400"@ != "O000"@,
        "O401"@ != "O000"@,
{
    reveal_strlit("O000");
    reveal_strlit("O001");
    assert("O001"@[3] != "O000"@[3]);
    reveal_strlit("O002");
    assert("O002"@[3] != "O000"@[3]);
    reveal_strlit("O003");
    assert("O003"@[3] != "O000"@[3]);
    reveal_strlit("O010");
    assert("O010"@[2] != "O000"@[2]);
    reveal_strlit("O011");
    assert("O011"@[2] != "O000"@[2]);
    reveal_strlit("O012");
    assert("O012"@[2] != "O000"@[2]);
    reveal_strlit("O013");
    assert("O013"@[2] != "O000"@[2]);
    reveal_strlit("O014");
    assert("O014"@[2] != "O000"@[2]);
    reveal_strlit("O020");
    assert("O020"@[2] != "O000"@[2]);
    reveal_strlit("O021");
    assert("O021"@[2] != "O000"@[2]);
    reveal_strlit("O022");
    assert("O022"@[2] != "O000"@[2]);
    reveal_strlit("O023");
    assert("O023"@[2] != "O000"@[2]);
    reveal_strlit("O030");
    assert("O030"@[2] != "O000"@[2]);
    reveal_strlit("O031");
    assert("O031"@[2] != "O000"@[2]);
    reveal_strlit("O032");
    assert("O032"@[2] != "O000"@[2]);
    reveal_strlit("O040");
    assert("O040"@[2] != "O000"@[2]);
    reveal_strlit("O041");
    assert("O041"@[2] != "O000"@[2]);
    reveal_strlit("O042");
    assert("O042"@[2] != "O000"@[2]);
    reveal_strlit("O043");
    assert("O043"@[2] != "O000"@[2]);
    reveal_strlit("O044");
    assert("O044"@[2] != "O000"@[2]);
    reveal_strlit("O045");
    assert("O045"@[2] != "O000"@[2]);
    reveal_strlit("O046");
    assert("O046"@[2] != "O000"@[2]);
    reveal_strlit("O047");
    assert("O047"@[2] != "O000"@[2]);
    reveal_strlit("O050");
    assert("O050"@[2] != "O000"@[2]);
    reveal_strlit("O051");
    assert("O051"@[2] != "O000"@[2]);
    reveal_strlit("O060");
    assert("O060"@[2] != "O000"@[2]);
    reveal_strlit("O061");
    assert("O061"@[2] != "O000"@[2]);
    reveal_strlit("O070");
    assert("O070"@[2] != "O000"@[2]);
    reveal_strlit("O071");
    assert("O071"@[2] != "O000"@[2]);
    reveal_strlit("O080");
    assert("O080"@[2] != "O000"@[2]);
    reveal_strlit("O081");
    assert("O081"@[2] != "O000"@[2]);
    reveal_strlit("O082");
    assert("O082"@[2] != "O000"@[2]);
    reveal_strlit("O083");
    assert("O083"@[2] != "O000"@[2]);
    reveal_strlit("O084");
    assert("O084"@[2] != "O000"@[2]);
    reveal_strlit("O085");
    assert("O085"@[2] != "O000"@[2]);
    reveal_strlit("O086");
    assert("O086"@[2] != "O000"@[2]);
    reveal_strlit("O087");
    assert("O087"@[2] != "O000"@[2]);
    reveal_strlit("O088");
    assert("O088"@[2] != "O000"@[2]);
    reveal_strlit("O100");
    assert("O100"@[1] != "O000"@[1]);
    reveal_strlit("O101");
    assert("O101"@[1] != "O000"@[1]);
    reveal_strlit("O102");
    assert("O102"@[1] != "O000"@[1]);
    reveal_strlit("O103");
    assert("O103"@[1] != "O000"@[1]);
    reveal_strlit("O104");
    assert("O104"@[1] != "O000"@[1]);
    reveal_strlit("O110");
    assert("O110"@[1] != "O000"@[1]);
    reveal_strlit("O111");
    assert("O111"@[1] != "O000"@[1]);
    reveal_strlit("O112");
    assert("O112"@[1] != "O000"@[1]);
    reveal_strlit("O113");
    assert("O113"@[1] != "O000"@[1]);
    reveal_strlit("O114");
    assert("O114"@[1] != "O000"@[1]);
    reveal_strlit("O115");
    assert("O115"@[1] != "O000"@[1]);
    reveal_strlit("O116");
    assert("O116"@[1] != "O000"@[1]);
    reveal_strlit("O120");
    assert("O120"@[1] != "O000"@[1]);
    reveal_strlit("O121");
    assert("O121"@[1] != "O000"@[1]);
    reveal_strlit("O130");
    assert("O130"@[1] != "O000"@[1]);
    reveal_strlit("O131");
    assert("O131"@[1] != "O000"@[1]);
    reveal_strlit("O132");
    assert("O132"@[1] != "O000"@[1]);
    reveal_strlit("O400");
    assert("O400"@[1] != "O000"@[1]);
    reveal_strlit("O401");
    assert("O401"@[1] != "O000"@[1]);
}

/// Refusing keeps the faults that are there, adds none twice, and keeps the codes apart from that of
/// an acceptance.
broadcast proof fn refused_coded(
    f: Seq<FaultModel>,
    broken: bool,
    code: Seq<char>,
    message: Seq<char>,
)
    requires
        coded(f),
        code != "O000"@,
    ensures
        coded(#[trigger] refused(f, broken, code, message)),
        refused(f, broken, code, message).len() >= f.len(),
{
    let g = refused(f, broken, code, message);
    assert forall|i: int| 0 <= i < g.len() implies (#[trigger] g[i]).0 != "O000"@ by {
        if i < f.len() {
            assert(g[i] == f[i]);
        }
    }
}

/// The faults behind ranges leave those before them, and keep their codes apart.
proof fn ranges_coded(ranges: Seq<ArtifactRange>, artifacts: Seq<ArtifactMetadata>, f: Seq<FaultModel>, i: int)
    requires
        coded(f),
    ensures
        coded(ranges_faults(ranges, artifacts, f, i)),
        ranges_faults(ranges, artifacts, f, i).len() >= f.len(),
    decreases ranges.len() - i,
{
    broadcast use refused_coded;

    codes_apart();
    if 0 <= i < ranges.len() {
        ranges_coded(ranges, artifacts, range_faults(ranges[i], artifacts, f), i + 1);
    }
}

/// The faults behind a stream leave those before them, and keep their codes apart.
proof fn stream_coded(ranges: Seq<PayloadRange>, offset: u64, f: Seq<FaultModel>, i: int)
    requires
        coded(f),
    ensures
        coded(stream_faults(ranges, offset, f, i).0),
        stream_faults(ranges, offset, f, i).0.len() >= f.len(),
    decreases ranges.len() - i,
{
    broadcast use refused_coded;

    codes_apart();
    if 0 <= i < ranges.len() {
        let range = ranges[i];
        let checked = refused(
            sha256_faults(range.sha256@, f),
            range.length == 0 || range.offset != offset,
            "O086"@,
            "stream ranges must be nonempty, contiguous, and start at zero"@,
        );
        assert(coded(sha256_faults(range.sha256@, f)));
        assert(coded(checked));
        if range.offset + range.length > u64::MAX {
            stream_coded(
                ranges,
                offset,
                refused(checked, true, "O087"@, "stream range offset overflows"@),
                i + 1,
            );
        } else {
            stream_coded(ranges, (range.offset + range.length) as u64, checked, i + 1);
        }
    }
}

/// The faults behind a payload leave those before them, and keep their codes apart.
proof fn payload_coded(payload: PayloadMetadata, artifacts: Seq<ArtifactMetadata>, f: Seq<FaultModel>)
    requires
        coded(f),
    ensures
        coded(payload_faults(payload, artifacts, f)),
        payload_faults(payload, artifacts, f).len() >= f.len(),
{
    broadcast use refused_coded;

    codes_apart();
    let summed = sha256_faults(payload.sha256@, f);
    assert(coded(summed));
    stream_coded(payload.stream_ranges@, 0, summed, 0);
    let (streamed, end) = stream_faults(payload.stream_ranges@, 0, summed, 0);
    let whole = refused(
        streamed,
        payload.stream_ranges@.len() > 0 && end != payload.length,
        "O088"@,
        "stream ranges do not account for payload length"@,
    );
    assert(coded(whole));
    ranges_coded(payload.ranges@, artifacts, whole, 0);
}

/// The faults behind an optional payload leave those before them, and keep their codes apart.
proof fn payload_opt_coded(payload: Option<PayloadMetadata>, artifacts: Seq<ArtifactMetadata>, f: Seq<FaultModel>)
    requires
        coded(f),
    ensures
        coded(payload_opt_faults(payload, artifacts, f)),
        payload_opt_faults(payload, artifacts, f).len() >= f.len(),
{
    broadcast use refused_coded;

    codes_apart();
    match payload {
        Some(p) => payload_coded(p, artifacts, f),
        None => {},
    }
}

/// The faults behind claims leave those before them, and keep their codes apart.
proof fn claims_coded(outcome: Option<TransactionOutcome>, basis: ControlEvidenceBasis, effect: ControlObservedEffect, readback: Readback, f: Seq<FaultModel>)
    requires
        coded(f),
    ensures
        coded(claim_faults(outcome, basis, effect, readback, f)),
        claim_faults(outcome, basis, effect, readback, f).len() >= f.len(),
{
    broadcast use refused_coded;

    codes_apart();
}

/// The faults behind interfaces leave those before them, and keep their codes apart.
proof fn interfaces_coded(v: Seq<CaptureInterface>, f: Seq<FaultModel>, i: int)
    requires
        coded(f),
    ensures
        coded(interface_faults(v, f, i)),
        interface_faults(v, f, i).len() >= f.len(),
    decreases v.len() - i,
{
    broadcast use refused_coded;

    codes_apart();
    if 0 <= i < v.len() {
        interfaces_coded(
            v,
            refused(
                identifier_faults(v[i].id@, "capture interface id"@, f),
                has_interface(v, v[i].id@, i),
                "O044"@,
                "duplicate capture interface "@ + text_debug(v[i].id@),
            ),
            i + 1,
        );
    }
}

/// The faults behind clocks leave those before them, and keep their codes apart.
proof fn clocks_coded(v: Seq<CaptureClock>, f: Seq<FaultModel>, i: int)
    requires
        coded(f),
    ensures
        coded(clock_faults(v, f, i)),
        clock_faults(v, f, i).len() >= f.len(),
    decreases v.len() - i,
{
    broadcast use refused_coded;

    codes_apart();
    if 0 <= i < v.len() {
        clocks_coded(
            v,
            refused(
                identifier_faults(v[i].id@, "clock id"@, f),
                has_clock(v, v[i].id@, i),
                "O045"@,
                "duplicate clock "@ + text_debug(v[i].id@),
            ),
            i + 1,
        );
    }
}

/// The faults behind artifacts leave those before them, and keep their codes apart.
proof fn artifacts_coded(v: Seq<ArtifactMetadata>, f: Seq<FaultModel>, i: int)
    requires
        coded(f),
    ensures
        coded(artifact_faults(v, f, i)),
        artifact_faults(v, f, i).len() >= f.len(),
    decreases v.len() - i,
{
    broadcast use refused_coded;

    codes_apart();
    if 0 <= i < v.len() {
        artifacts_coded(
            v,
            refused(
                sha256_faults(v[i].sha256@, identifier_faults(v[i].id@, "artifact id"@, f)),
                has_artifact(v, v[i].id@, i),
                "O047"@,
                "duplicate artifact "@ + text_debug(v[i].id@),
            ),
            i + 1,
        );
    }
}

/// The faults behind clock mappings leave those before them, and keep their codes apart.
proof fn mappings_coded(c: CaptureContext, f: Seq<FaultModel>, i: int)
    requires
        coded(f),
    ensures
        coded(mapping_faults(c, f, i)),
        mapping_faults(c, f, i).len() >= f.len(),
    decreases c.clock_mappings@.len() - i,
{
    broadcast use refused_coded;

    codes_apart();
    if 0 <= i < c.clock_mappings@.len() {
        let m = c.clock_mappings@[i];
        let n = c.clocks@.len() as int;
        let g = refused(
            f,
            m.from@ == m.to@ || !has_clock(c.clocks@, m.from@, n) || !has_clock(
                c.clocks@,
                m.to@,
                n,
            ),
            "O046"@,
            "clock mapping must link two declared distinct clocks"@,
        );
        assert(coded(g));
        mappings_coded(c, g, i + 1);
    }
}

/// The faults behind a header leave those before them, and keep their codes apart.
proof fn header_coded(h: BundleHeader, f: Seq<FaultModel>)
    requires
        coded(f),
    ensures
        coded(header_faults(h, f)),
        header_faults(h, f).len() >= f.len(),
{
    broadcast use refused_coded;

    codes_apart();
    let c = h.capture;
    let named = name_faults(h, f);
    assert(coded(named));
    let f1 = refused(
        named,
        c.interfaces@.len() == 0,
        "O040"@,
        "capture.interfaces must not be empty"@,
    );
    let f2 = refused(f1, c.clocks@.len() == 0, "O041"@, "capture.clocks must not be empty"@);
    let f3 = refused(
        f2,
        c.tool_versions.entries().len() == 0,
        "O042"@,
        "capture.toolVersions must not be empty"@,
    );
    let f4 = refused(
        f3,
        c.loss.dropped_records != 0 || c.loss.dropped_bytes != 0 || c.loss.truncated_payloads != 0,
        "O043"@,
        "loss or truncation makes the bundle non-proposable"@,
    );
    assert(coded(f4));
    interfaces_coded(c.interfaces@, f4, 0);
    let f5 = interface_faults(c.interfaces@, f4, 0);
    clocks_coded(c.clocks@, f5, 0);
    let f6 = clock_faults(c.clocks@, f5, 0);
    mappings_coded(c, f6, 0);
    artifacts_coded(c.artifacts@, mapping_faults(c, f6, 0), 0);
}

/// The faults behind a transaction leave those before them, and keep their codes apart.
proof fn transaction_coded(t: PtpTransactionRecord, artifacts: Seq<ArtifactMetadata>, f: Seq<FaultModel>)
    requires
        coded(f),
    ensures
        coded(transaction_claim_faults(t, outcome_faults(t, phase_faults(t, artifacts, f)))),
        transaction_claim_faults(t, outcome_faults(t, phase_faults(t, artifacts, f))).len() >= f.len(),
{
    broadcast use refused_coded;

    codes_apart();
    let f1 = ptp_code_faults(t.request.operation@, "operation"@, f);
    assert(coded(f1));
    let f2 = match t.request.data {
        Some(d) => payload_faults(d.payload, artifacts, f1),
        None => f1,
    };
    match t.request.data {
        Some(d) => payload_coded(d.payload, artifacts, f1),
        None => {},
    }
    match t.response {
        Some(r) => {
            let f3 = ptp_code_faults(r.code@, "response"@, f2);
            assert(coded(f3));
            match r.data {
                Some(d) => payload_coded(d.payload, artifacts, f3),
                None => {},
            }
        },
        None => {},
    }
    let g = phase_faults(t, artifacts, f);
    assert(coded(g));
    let o = outcome_faults(t, g);
    assert(coded(o));
    match (t.evidence_basis, t.observed_effect, t.readback) {
        (Some(basis), Some(effect), Some(readback)) => claims_coded(
            Some(t.outcome),
            basis,
            effect,
            readback,
            o,
        ),
        _ => {},
    }
}

/// The faults behind the content of a record leave those before them, and keep their codes apart.
proof fn record_coded(line: ObservationLine, c: CaptureContext, lines: Seq<Option<ObservationLine>>, run: Seq<char>, f: Seq<FaultModel>)
    requires
        coded(f),
    ensures
        coded(record_faults(line, c, lines, run, f)),
        record_faults(line, c, lines, run, f).len() >= f.len(),
{
    broadcast use refused_coded;

    codes_apart();
    let artifacts = c.artifacts@;
    match line {
        ObservationLine::BleGatt(r) => {
            payload_opt_coded(r.payload, artifacts, f);
        },
        ObservationLine::PtpTransaction(r) => {
            transaction_coded(*r, artifacts, f);
        },
        ObservationLine::PtpEvent(r) => {
            let g = ptp_code_faults(r.event@, "event"@, f);
            assert(coded(g));
            payload_opt_coded(r.payload, artifacts, g);
        },
        ObservationLine::HttpExchange(r) => {
            payload_opt_coded(r.request.body, artifacts, f);
            let g = payload_opt_faults(r.request.body, artifacts, f);
            match r.response {
                Some(x) => payload_opt_coded(x.body, artifacts, g),
                None => {},
            }
        },
        ObservationLine::Capability(r) => {
            let g = match r.subject {
                CapabilitySubject::Identity { .. } => f,
                CapabilitySubject::Operation { code, .. } => ptp_code_faults(
                    code@,
                    "capability code"@,
                    f,
                ),
                CapabilitySubject::Property { code, .. } => ptp_code_faults(
                    code@,
                    "capability code"@,
                    f,
                ),
            };
            assert(coded(g));
            claims_coded(None, r.evidence_basis, r.observed_effect, r.readback, g);
        },
        _ => {},
    }
    assert(coded(kind_faults(line, artifacts, lines, run, f)));
}

/// The faults behind what a line says of itself leave those before them, and keep their codes apart.
proof fn value_coded(v: Seq<Option<ObservationLine>>, header: BundleHeader, line: ObservationLine, f: Seq<FaultModel>)
    requires
        coded(f),
    ensures
        coded(value_faults(v, header, line, f)),
        value_faults(v, header, line, f).len() >= f.len(),
        value_faults(v, header, line, f).len() == 0 ==> line_run(line) == header.run_id@,
{
    broadcast use refused_coded;

    codes_apart();
    let run = header.run_id@;
    let clocks = header.capture.clocks@;
    let f1 = refused(
        f,
        line_schema(line) != OBSERVATION_SCHEMA_VERSION@,
        "O002"@,
        "record schema discriminator is not canonical"@,
    );
    let f2 = refused(
        f1,
        line_run(line) != run,
        "O014"@,
        "record runId does not match its bundle header"@,
    );
    let f3 = identifier_faults(line_record(line), "recordId"@, f2);
    let f4 = refused(
        f3,
        line !is BundleHeader && line_ordinal(line) == 0,
        "O023"@,
        "non-header ordinal must be positive"@,
    );
    assert(coded(f4));
    match line_common(line) {
        None => {},
        Some(common) => {
            let f5 = refused(
                f4,
                !has_clock(clocks, common.time.clock@, clocks.len() as int),
                "O030"@,
                "unknown clock "@ + text_debug(common.time.clock@),
            );
            let f6 = context_faults(common.context, f5);
            assert(coded(f6));
            ranges_coded(common.artifact_ranges@, header.capture.artifacts@, f6, 0);
            let f7 = ranges_faults(common.artifact_ranges@, header.capture.artifacts@, f6, 0);
            record_coded(line, header.capture, v, run, f7);
        },
    }
}

/// The faults behind a line of a bundle leave those before them, and keep their codes apart.
pub proof fn line_coded(v: Seq<Option<ObservationLine>>, i: int, f: Seq<FaultModel>)
    requires
        coded(f),
    ensures
        coded(line_faults(v, i, f)),
        line_faults(v, i, f).len() >= f.len(),
{
    broadcast use refused_coded;

    codes_apart();
    let count = header_count(v, 0);
    let h = header_index(v, 0);
    if count == 1 {
        let header = header_at(v, h);
        if i == h {
            let f1 = refused(
                f,
                h != 0,
                "O011"@,
                "bundle header must be the first nonblank record"@,
            );
            let f2 = refused(
                f1,
                header.ordinal != 0,
                "O012"@,
                "bundle header ordinal must be zero"@,
            );
            let f3 = identifier_faults(header.run_id@, "runId"@, f2);
            let f4 = identifier_faults(header.record_id@, "recordId"@, f3);
            assert(coded(f4));
            header_coded(header, f4);
        }
        let led = leading_faults(v, h, i, f);
        assert(coded(led));
        let g = repeat_faults(v, header.run_id@, i, led);
        assert(coded(g));
        match v[i] {
            None => {},
            Some(line) => {
                value_coded(v, header, line, g);
            },
        }
    }
}

/// The lines of a bundle, and of all of them, keep their codes apart.
pub proof fn checked_coded(bundles: Seq<Vec<BundleLine>>)
    ensures
        forall|i: int| 0 <= i < checked_lines(bundles).len() ==> coded((#[trigger] checked_lines(bundles)[i]).faults),
    decreases bundles.len(),
{
    if bundles.len() > 0 {
        checked_coded(bundles.drop_last());
        let b = bundles.last()@;
        let lines = parsed_bundle(b);
        let front = checked_lines(bundles.drop_last());
        assert forall|i: int| 0 <= i < checked_lines(bundles).len() implies coded(
            (#[trigger] checked_lines(bundles)[i]).faults,
        ) by {
            if i < front.len() {
                assert(checked_lines(bundles)[i] == front[i]);
            } else {
                let k = i - front.len();
                assert(checked_lines(bundles)[i] == checked_bundle(lines)[k]);
                codes_apart();
                assert(coded(lines[k].faults));
                line_coded(values_of(lines), k, lines[k].faults);
            }
        }
    }
}

/// Whether what a line says of a property is well formed: no label and no member of a descriptor's
/// values is named twice.
pub open spec fn names_apart(v: Option<ObservationLine>) -> bool {
    match capability_of(v) {
        Some(r) => match r.subject {
            CapabilitySubject::Property { labels, descriptor, .. } => ascending(labels.entries())
                && match descriptor {
                Some(d) => forall|i: int|
                    0 <= i < d@.values.len() ==> names_once(#[trigger] d@.values[i]),
                None => true,
            },
            _ => true,
        },
        None => true,
    }
}

/// Sets of labels conflict in both directions.
proof fn label_conflict_reversed(a: NameMap<String>, b: NameMap<String>)
    requires
        ascending(a.entries()),
        labels_conflict(a, b),
    ensures
        labels_conflict(b, a),
{
    let i = choose|i: int|
        0 <= i < a.entries().len() && named_otherwise(b, #[trigger] a.entries()[i]);
    let k = a.entries()[i].0@;
    lookup_at(a.entries(), 0, i);
    let j = lookup_index(b.entries(), k, 0);
    assert(named_otherwise(a, b.entries()[j]));
}

/// Descriptors conflict in both directions.
proof fn descriptor_conflict_symmetric(
    a: Option<CapabilityDescriptor>,
    b: Option<CapabilityDescriptor>,
)
    requires
        a is Some ==> forall|i: int|
            0 <= i < a->0@.values.len() ==> names_once(#[trigger] a->0@.values[i]),
        b is Some ==> forall|i: int|
            0 <= i < b->0@.values.len() ==> names_once(#[trigger] b->0@.values[i]),
    ensures
        descriptors_conflict(a, b) == descriptors_conflict(b, a),
{
    if a is Some && b is Some {
        let x = a->0@;
        let y = b->0@;
        assert forall|i: int| 0 <= i < x.values.len() && x.values.len() == y.values.len() implies
            #[trigger] same_json(x.values[i], y.values[i]) == same_json(y.values[i], x.values[i]) by {
            same_json_symmetric(x.values[i], y.values[i]);
        }
        if same_descriptor(x, y) {
            assert forall|i: int| 0 <= i < y.values.len() implies same_json(
                #[trigger] y.values[i],
                x.values[i],
            ) by {
                assert(same_json(x.values[i], y.values[i]));
            }
        }
        if same_descriptor(y, x) {
            assert forall|i: int| 0 <= i < x.values.len() implies same_json(
                #[trigger] x.values[i],
                y.values[i],
            ) by {
                assert(same_json(y.values[i], x.values[i]));
            }
        }
    }
}

/// Value profiles conflict in both directions.
proof fn profiles_conflict_reversed(
    a: Seq<CapabilityValueProfile>,
    b: Seq<CapabilityValueProfile>,
)
    requires
        profiles_conflict(a, b),
    ensures
        profiles_conflict(b, a),
{
    let (i, j) = choose|i: int, j: int|
        #![trigger a[i], b[j]]
        0 <= i < a.len() && 0 <= j < b.len() && profile_conflict(a[i], b[j]);
    assert(profile_conflict(b[j], a[i]));
}

/// Two facts conflict in both directions.
pub proof fn conflicts_are_mutual(
    a: Option<ObservationLine>,
    b: Option<ObservationLine>,
    scoped: bool,
)
    requires
        names_apart(a),
        names_apart(b),
        facts_conflict(a, b, scoped),
    ensures
        facts_conflict(b, a, scoped),
{
    let x = capability_of(a)->0;
    let y = capability_of(b)->0;
    match (x.subject, y.subject) {
        (
            CapabilitySubject::Property {
                descriptor: x_descriptor,
                labels: x_labels,
                value_profiles: x_profiles,
                ..
            },
            CapabilitySubject::Property {
                descriptor: y_descriptor,
                labels: y_labels,
                value_profiles: y_profiles,
                ..
            },
        ) => {
            descriptor_conflict_symmetric(x_descriptor, y_descriptor);
            if labels_conflict(x_labels, y_labels) {
                label_conflict_reversed(x_labels, y_labels);
            }
            if profiles_conflict(x_profiles@, y_profiles@) {
                profiles_conflict_reversed(x_profiles@, y_profiles@);
            }
        },
        _ => {},
    }
}

/// Whether another of the lines names the run that a header names.
pub open spec fn run_repeated(m: Multiset<Parsed>, l: Parsed) -> bool {
    run_key(l.value) is Some && exists|b: Parsed| #[trigger]
        holds_both(m, l, b) && run_key(b.value) == run_key(l.value)
}

/// A run is repeated among lines wherever they stand.
proof fn run_repeats_anywhere(lines: Seq<Parsed>, i: int)
    requires
        0 <= i < lines.len(),
    ensures
        repeats(run_keys(values_of(lines)), i) == run_repeated(lines.to_multiset(), lines[i]),
{
    let keys = run_keys(values_of(lines));
    let m = lines.to_multiset();
    assert(keys[i] == run_key(lines[i].value));
    if repeats(keys, i) {
        let j = choose|j: int| 0 <= j < keys.len() && j != i && #[trigger] keys[j] == keys[i];
        assert(keys[j] == run_key(lines[j].value));
        row_holds_both(lines, i, j);
        assert(holds_both(m, lines[i], lines[j]));
    }
    if run_repeated(m, lines[i]) {
        let b = choose|b: Parsed| #[trigger]
            holds_both(m, lines[i], b) && run_key(b.value) == run_key(lines[i].value);
        let j = row_has_other(lines, i, b);
        assert(keys[j] == run_key(lines[j].value));
    }
}

/// What a line's capability fact is about.
pub open spec fn fact_key(v: Option<ObservationLine>, scoped: bool) -> Option<Seq<char>> {
    if scoped {
        scoped_key(v)
    } else {
        global_key(v)
    }
}

/// Whether two of the lines conflict on what a line is about.
pub open spec fn disputed(m: Multiset<Parsed>, scoped: bool, l: Parsed) -> bool {
    fact_key(l.value, scoped) is Some && exists|a: Parsed, b: Parsed| #[trigger]
        holds_both(m, a, b) && fact_key(a.value, scoped) == fact_key(l.value, scoped) && fact_key(
            b.value,
            scoped,
        ) == fact_key(l.value, scoped) && facts_conflict(a.value, b.value, scoped)
}

/// Whether what each of the lines says of a property is well formed.
pub open spec fn all_names_apart(lines: Seq<Parsed>) -> bool {
    forall|i: int| 0 <= i < lines.len() ==> names_apart((#[trigger] lines[i]).value)
}

/// A fact is contested among lines wherever they stand.
proof fn contested_anywhere(lines: Seq<Parsed>, scoped: bool, i: int)
    requires
        0 <= i < lines.len(),
        all_names_apart(lines),
    ensures
        contested(values_of(lines), scoped, i) == disputed(lines.to_multiset(), scoped, lines[i]),
{
    broadcast use vstd::seq_lib::group_to_multiset_ensures;

    let v = values_of(lines);
    let keys = fact_keys(v, scoped);
    let m = lines.to_multiset();
    let l = lines[i];
    assert(keys[i] == fact_key(l.value, scoped));
    if contested(v, scoped, i) {
        let p = choose|p: int|
            0 <= p < v.len() && #[trigger] keys[p] == keys[i] && clashes(v, scoped, p);
        let q = choose|q: int|
            p < q < v.len() && #[trigger] keys[q] == keys[p] && facts_conflict(v[p], v[q], scoped);
        row_holds_both(lines, p, q);
        assert(keys[p] == fact_key(lines[p].value, scoped));
        assert(keys[q] == fact_key(lines[q].value, scoped));
        assert(holds_both(m, lines[p], lines[q]));
    }
    if disputed(m, scoped, l) {
        let (a, b) = choose|a: Parsed, b: Parsed| #[trigger]
            holds_both(m, a, b) && fact_key(a.value, scoped) == fact_key(l.value, scoped)
                && fact_key(b.value, scoped) == fact_key(l.value, scoped) && facts_conflict(
                a.value,
                b.value,
                scoped,
            );
        assert(m.count(a) > 0);
        assert(lines.contains(a));
        let p = lines.index_of(a);
        assert(lines[p] == a);
        let q = row_has_other(lines, p, b);
        assert(keys[p] == fact_key(a.value, scoped));
        assert(keys[q] == fact_key(b.value, scoped));
        assert(v[p] == a.value && v[q] == b.value);
        assert(names_apart(lines[p].value) && names_apart(lines[q].value));
        if p < q {
            assert(clashes(v, scoped, p));
        } else {
            conflicts_are_mutual(a.value, b.value, scoped);
            assert(keys[p] == keys[q]);
            assert(clashes(v, scoped, q));
        }
    }
}

/// What is well formed is so in any order.
proof fn names_apart_anywhere(s: Seq<Parsed>, t: Seq<Parsed>)
    requires
        s.to_multiset() == t.to_multiset(),
        all_names_apart(s),
    ensures
        all_names_apart(t),
{
    broadcast use vstd::seq_lib::group_to_multiset_ensures;

    assert forall|i: int| 0 <= i < t.len() implies names_apart((#[trigger] t[i]).value) by {
        assert(t.contains(t[i]));
        assert(t.to_multiset().count(t[i]) > 0);
        assert(s.contains(t[i]));
        let k = s.index_of(t[i]);
        assert(names_apart(s[k].value));
    }
}

/// Runs named twice are found in any order of the lines.
proof fn run_lines_forget_order(s: Seq<Parsed>, t: Seq<Parsed>)
    requires
        s.to_multiset() == t.to_multiset(),
    ensures
        run_lines(s).to_multiset() == run_lines(t).to_multiset(),
{
    let m = s.to_multiset();
    let g = |l: Parsed|
        with_faults(
            l,
            refused(l.faults, run_repeated(m, l), "O013"@, "duplicate runId across bundles"@),
        );
    assert forall|i: int| 0 <= i < s.len() implies run_lines(s)[i] == #[trigger] s.map_values(g)[i] by {
        run_repeats_anywhere(s, i);
    }
    assert forall|i: int| 0 <= i < t.len() implies run_lines(t)[i] == #[trigger] t.map_values(g)[i] by {
        run_repeats_anywhere(t, i);
    }
    assert(run_lines(s) =~= s.map_values(g));
    assert(run_lines(t) =~= t.map_values(g));
    changed_forgets_order(s, t, g);
}

/// Contested facts are found in any order of the lines.
proof fn contested_lines_forget_order(
    s: Seq<Parsed>,
    t: Seq<Parsed>,
    scoped: bool,
    code: Seq<char>,
    message: Seq<char>,
)
    requires
        s.to_multiset() == t.to_multiset(),
        all_names_apart(s),
    ensures
        contested_lines(s, scoped, code, message).to_multiset() == contested_lines(
            t,
            scoped,
            code,
            message,
        ).to_multiset(),
        all_names_apart(contested_lines(s, scoped, code, message)),
{
    let m = s.to_multiset();
    let g = |l: Parsed| with_faults(l, refused(l.faults, disputed(m, scoped, l), code, message));
    names_apart_anywhere(s, t);
    let a = contested_lines(s, scoped, code, message);
    let b = contested_lines(t, scoped, code, message);
    assert forall|i: int| 0 <= i < s.len() implies a[i] == #[trigger] s.map_values(g)[i] by {
        contested_anywhere(s, scoped, i);
    }
    assert forall|i: int| 0 <= i < t.len() implies b[i] == #[trigger] t.map_values(g)[i] by {
        contested_anywhere(t, scoped, i);
    }
    assert(a =~= s.map_values(g));
    assert(b =~= t.map_values(g));
    changed_forgets_order(s, t, g);
    assert forall|i: int| 0 <= i < a.len() implies names_apart((#[trigger] a[i]).value) by {
        assert(a[i].value == s[i].value);
        assert(names_apart(s[i].value));
    }
}

/// Walking the first `n` lines for their dispositions is gathering them.
pub proof fn dispositions_gathered(lines: Seq<Parsed>, n: int)
    requires
        0 <= n <= lines.len(),
    ensures
        all_dispositions(lines, n) == gathered(lines.take(n), |l: Parsed| line_dispositions(l)),
    decreases n,
{
    if n > 0 {
        dispositions_gathered(lines, n - 1);
        assert(lines.take(n).drop_last() == lines.take(n - 1));
        assert(lines.take(n).last() == lines[n - 1]);
    }
}

/// The line where it counts, and nothing where it does not.
pub open spec fn counted(l: Parsed, t: Tally) -> Seq<Parsed> {
    if counts_as(l, t) {
        seq![l]
    } else {
        Seq::empty()
    }
}

/// Counting the first `n` lines is gathering those that count.
proof fn tally_gathered(lines: Seq<Parsed>, t: Tally, n: int)
    requires
        0 <= n <= lines.len(),
    ensures
        tally(lines, t, n) == gathered(lines.take(n), |l: Parsed| counted(l, t)).len(),
    decreases n,
{
    if n > 0 {
        tally_gathered(lines, t, n - 1);
        assert(lines.take(n).drop_last() == lines.take(n - 1));
        assert(lines.take(n).last() == lines[n - 1]);
    }
}

/// The header that an accepted line holds.
pub open spec fn line_header(l: Parsed) -> Seq<BundleHeader> {
    match l.value {
        Some(ObservationLine::BundleHeader(h)) => if l.faults.len() == 0 {
            seq![h]
        } else {
            Seq::empty()
        },
        _ => Seq::empty(),
    }
}

/// Walking the first `n` lines for their headers is gathering them.
pub proof fn headers_gathered(lines: Seq<Parsed>, n: int)
    requires
        0 <= n <= lines.len(),
    ensures
        accepted_headers(lines, n) == gathered(lines.take(n), |l: Parsed| line_header(l)),
    decreases n,
{
    if n > 0 {
        headers_gathered(lines, n - 1);
        assert(lines.take(n).drop_last() == lines.take(n - 1));
        assert(lines.take(n).last() == lines[n - 1]);
    }
}

/// The record that an accepted line holds.
pub open spec fn accepted_record(l: Parsed) -> Seq<ObservationLine> {
    match l.value {
        Some(v) => if l.faults.len() == 0 && v !is BundleHeader {
            seq![v]
        } else {
            Seq::empty()
        },
        None => Seq::empty(),
    }
}

/// Walking the first `n` lines for their records is gathering them.
pub proof fn records_gathered(lines: Seq<Parsed>, n: int)
    requires
        0 <= n <= lines.len(),
    ensures
        accepted_records(lines, n) == gathered(lines.take(n), |l: Parsed| accepted_record(l)),
    decreases n,
{
    if n > 0 {
        records_gathered(lines, n - 1);
        assert(lines.take(n).drop_last() == lines.take(n - 1));
        assert(lines.take(n).last() == lines[n - 1]);
    }
}

/// Whether the codes of every line are apart from that of an acceptance.
pub open spec fn all_coded(lines: Seq<Parsed>) -> bool {
    forall|i: int| 0 <= i < lines.len() ==> coded((#[trigger] lines[i]).faults)
}

/// Judging lines together keeps their codes apart.
pub proof fn judged_coded(lines: Seq<Parsed>)
    requires
        all_coded(lines),
    ensures
        all_coded(conflict_lines(run_lines(lines))),
{
    broadcast use refused_coded;

    codes_apart();
    let a = run_lines(lines);
    assert(all_coded(a)) by {
        assert forall|i: int| 0 <= i < a.len() implies coded((#[trigger] a[i]).faults) by {
            assert(coded(lines[i].faults));
        }
    }
    let b = contested_lines(
        a,
        true,
        "O400"@,
        "conflicting capability fact in one exact scope"@,
    );
    assert(all_coded(b)) by {
        assert forall|i: int| 0 <= i < b.len() implies coded((#[trigger] b[i]).faults) by {
            assert(coded(a[i].faults));
        }
    }
    let c = conflict_lines(a);
    assert forall|i: int| 0 <= i < c.len() implies coded((#[trigger] c[i]).faults) by {
        assert(coded(b[i].faults));
    }
}

/// A disposition is an acceptance exactly where it has the code of one.
proof fn status_follows_code(lines: Seq<Parsed>, n: int, k: int)
    requires
        all_coded(lines),
        0 <= n <= lines.len(),
        0 <= k < all_dispositions(lines, n).len(),
    ensures
        all_dispositions(lines, n)[k].status == (if all_dispositions(lines, n)[k].code == "O000"@ {
            ValidationStatus::Accepted
        } else {
            ValidationStatus::Rejected
        }),
    decreases n,
{
    if n > 0 {
        let front = all_dispositions(lines, n - 1);
        if k < front.len() {
            status_follows_code(lines, n - 1, k);
            assert(all_dispositions(lines, n)[k] == front[k]);
        } else {
            assert(all_dispositions(lines, n)[k] == line_dispositions(lines[n - 1])[k - front.len()]);
            assert(coded(lines[n - 1].faults));
        }
    }
}

/// The identity, code and message of a disposition tell it from others.
proof fn dispositions_told_apart(lines: Seq<Parsed>)
    requires
        all_coded(lines),
    ensures
        keys_identify::<RecordDisposition>(
            all_dispositions(lines, lines.len() as int).to_multiset(),
        ),
{
    broadcast use vstd::seq_lib::group_to_multiset_ensures;

    let n = lines.len() as int;
    let all = all_dispositions(lines, n);
    let m = all.to_multiset();
    assert forall|a: DispositionModel, b: DispositionModel|
        #![trigger m.count(a), m.count(b)]
        m.count(a) > 0 && m.count(b) > 0 && RecordDisposition::key_of(a)
            == RecordDisposition::key_of(b) implies a == b by {
        assert(all.contains(a) && all.contains(b));
        status_follows_code(lines, n, all.index_of(a));
        status_follows_code(lines, n, all.index_of(b));
    }
}

/// What is said of lines judged together is the same in any order of the lines.
proof fn judgement_forgets_order(s: Seq<Parsed>, t: Seq<Parsed>)
    requires
        s.to_multiset() == t.to_multiset(),
        all_names_apart(s),
        all_coded(s),
    ensures
        ({
            let a = conflict_lines(run_lines(s));
            let b = conflict_lines(run_lines(t));
            let m = a.len() as int;
            let n = b.len() as int;
            &&& m == n
            &&& forall|k: Tally| #[trigger] tally(a, k, m) == tally(b, k, n)
            &&& arranged::<RecordDisposition>(all_dispositions(a, m)) == arranged::<
                RecordDisposition,
            >(all_dispositions(b, n))
            &&& accepted_headers(a, m).to_multiset() == accepted_headers(b, n).to_multiset()
            &&& accepted_records(a, m).to_multiset() == accepted_records(b, n).to_multiset()
        }),
{
    broadcast use vstd::seq_lib::group_to_multiset_ensures;

    run_lines_forget_order(s, t);
    let s1 = run_lines(s);
    let t1 = run_lines(t);
    assert(all_names_apart(s1)) by {
        assert forall|i: int| 0 <= i < s1.len() implies names_apart((#[trigger] s1[i]).value) by {
            assert(names_apart(s[i].value));
        }
    }
    let one = "conflicting capability fact in one exact scope"@;
    let two = "capability facts conflict across scopes that the manifest cannot represent"@;
    contested_lines_forget_order(s1, t1, true, "O400"@, one);
    let s2 = contested_lines(s1, true, "O400"@, one);
    let t2 = contested_lines(t1, true, "O400"@, one);
    contested_lines_forget_order(s2, t2, false, "O401"@, two);
    let a = conflict_lines(s1);
    let b = conflict_lines(t1);
    let m = a.len() as int;
    let n = b.len() as int;
    assert(a.to_multiset() == b.to_multiset());
    assert(a.to_multiset().len() == m && b.to_multiset().len() == n);
    assert(a.take(m) == a && b.take(n) == b);
    assert forall|k: Tally| #[trigger] tally(a, k, m) == tally(b, k, n) by {
        let f = |l: Parsed| counted(l, k);
        tally_gathered(a, k, m);
        tally_gathered(b, k, n);
        gathered_forgets_order(a, b, f);
        assert(gathered(a, f).to_multiset().len() == gathered(a, f).len());
        assert(gathered(b, f).to_multiset().len() == gathered(b, f).len());
    }
    judged_coded(s);
    dispositions_gathered(a, m);
    dispositions_gathered(b, n);
    gathered_forgets_order(a, b, |l: Parsed| line_dispositions(l));
    dispositions_told_apart(a);
    arranged_forgets_order::<RecordDisposition>(all_dispositions(a, m), all_dispositions(b, n));
    headers_gathered(a, m);
    headers_gathered(b, n);
    gathered_forgets_order(a, b, |l: Parsed| line_header(l));
    records_gathered(a, m);
    records_gathered(b, n);
    gathered_forgets_order(a, b, |l: Parsed| accepted_record(l));
}

/// Walking the bundles for their lines is gathering them.
proof fn lines_gathered(bundles: Seq<Vec<BundleLine>>)
    ensures
        checked_lines(bundles) == gathered(
            bundles,
            |b: Vec<BundleLine>| checked_bundle(parsed_bundle(b@)),
        ),
    decreases bundles.len(),
{
    if bundles.len() > 0 {
        lines_gathered(bundles.drop_last());
    }
}

/// Whether what each line of the bundles says of a property is well formed.
pub open spec fn bundles_name_apart(bundles: Seq<Vec<BundleLine>>) -> bool {
    forall|i: int, j: int|
        0 <= i < bundles.len() && 0 <= j < bundles[i]@.len() ==> match (
        #[trigger] bundles[i]@[j]).decoded {
            Ok(v) => names_apart(Some(v)),
            Err(_) => true,
        }
}

/// The lines of well-formed bundles are well formed.
proof fn checked_names_apart(bundles: Seq<Vec<BundleLine>>)
    requires
        bundles_name_apart(bundles),
    ensures
        all_names_apart(checked_lines(bundles)),
    decreases bundles.len(),
{
    let all = checked_lines(bundles);
    if bundles.len() > 0 {
        let front = bundles.drop_last();
        assert forall|i: int, j: int|
            0 <= i < front.len() && 0 <= j < front[i]@.len() implies match (
            #[trigger] front[i]@[j]).decoded {
                Ok(v) => names_apart(Some(v)),
                Err(_) => true,
            } by {
            let known = bundles[i]@[j].decoded;
            assert(front[i] == bundles[i]);
        }
        checked_names_apart(front);
        let before = checked_lines(front);
        let k = bundles.len() - 1;
        let lines = parsed_bundle(bundles[k]@);
        assert forall|i: int| 0 <= i < all.len() implies names_apart((#[trigger] all[i]).value) by {
            if i < before.len() {
                assert(all[i] == before[i]);
            } else {
                let j = i - before.len();
                assert(all[i] == checked_bundle(lines)[j]);
                assert(all[i].value == lines[j].value);
                if bundles[k]@.len() > 0 {
                    assert(lines[j] == parsed_line(bundles[k]@[j]));
                    let known = bundles[k]@[j].decoded;
                }
            }
        }
    }
}

/// The report on bundles is the same in whatever order the bundles are given.
pub proof fn report_forgets_order(
    a: Seq<Vec<BundleLine>>,
    b: Seq<Vec<BundleLine>>,
    r: ValidationReport,
    s: ValidationReport,
)
    requires
        a.to_multiset() == b.to_multiset(),
        bundles_name_apart(a),
        reports_on(r, judged_lines(a)),
        reports_on(s, judged_lines(b)),
    ensures
        r.schema@ == s.schema@,
        r.total_nonblank == s.total_nonblank,
        r.accepted == s.accepted,
        r.rejected == s.rejected,
        models_of(r.dispositions@) == models_of(s.dispositions@),
{
    lines_gathered(a);
    lines_gathered(b);
    gathered_forgets_order(a, b, |x: Vec<BundleLine>| checked_bundle(parsed_bundle(x@)));
    checked_names_apart(a);
    checked_coded(a);
    judgement_forgets_order(checked_lines(a), checked_lines(b));
}

/// Where line `k` of bundle `b` stands among the lines of all bundles.
pub open spec fn spot(bundles: Seq<Vec<BundleLine>>, b: int, k: int) -> int {
    checked_lines(bundles.take(b)).len() + k
}

/// The lines of a bundle that are checked.
pub open spec fn bundle_lines_checked(bundles: Seq<Vec<BundleLine>>, b: int) -> Seq<Parsed> {
    checked_bundle(parsed_bundle(bundles[b]@))
}

/// A line of a bundle stands where its spot is.
pub proof fn spot_holds(bundles: Seq<Vec<BundleLine>>, b: int, k: int)
    requires
        0 <= b < bundles.len(),
        0 <= k < parsed_bundle(bundles[b]@).len(),
    ensures
        0 <= spot(bundles, b, k) < checked_lines(bundles).len(),
        checked_lines(bundles)[spot(bundles, b, k)] == bundle_lines_checked(bundles, b)[k],
    decreases bundles.len(),
{
    let front = bundles.drop_last();
    if b == bundles.len() - 1 {
        assert(bundles.take(b) == front);
    } else {
        spot_holds(front, b, k);
        assert(front.take(b) == bundles.take(b));
        assert(front[b] == bundles[b]);
    }
}

/// Each line stands at the spot of a line of a bundle.
pub proof fn spot_found(bundles: Seq<Vec<BundleLine>>, i: int) -> (r: (int, int))
    requires
        0 <= i < checked_lines(bundles).len(),
    ensures
        0 <= r.0 < bundles.len(),
        0 <= r.1 < parsed_bundle(bundles[r.0]@).len(),
        spot(bundles, r.0, r.1) == i,
    decreases bundles.len(),
{
    let front = bundles.drop_last();
    let before = checked_lines(front);
    if i < before.len() {
        let (b, k) = spot_found(front, i);
        assert(front.take(b) == bundles.take(b));
        assert(front[b] == bundles[b]);
        (b, k)
    } else {
        assert(bundles.take(bundles.len() - 1) == front);
        (bundles.len() - 1, i - before.len())
    }
}

/// The lines of fewer bundles are no more.
proof fn fewer_lines(bundles: Seq<Vec<BundleLine>>, b: int, c: int)
    requires
        0 <= b <= c <= bundles.len(),
    ensures
        checked_lines(bundles.take(b)).len() <= checked_lines(bundles.take(c)).len(),
    decreases c - b,
{
    if b < c {
        fewer_lines(bundles, b, c - 1);
        assert(bundles.take(c).drop_last() == bundles.take(c - 1));
    }
}

/// Lines of different bundles stand at different spots.
proof fn spots_apart(bundles: Seq<Vec<BundleLine>>, b: int, k: int, c: int, l: int)
    requires
        0 <= b < c < bundles.len(),
        0 <= k < parsed_bundle(bundles[b]@).len(),
        0 <= l,
    ensures
        spot(bundles, b, k) < spot(bundles, c, l),
{
    assert(bundles.take(b + 1).drop_last() == bundles.take(b));
    assert(bundles.take(b + 1).last() == bundles[b]);
    fewer_lines(bundles, b + 1, c);
}

/// Where nothing is rejected, no line has a fault.
pub proof fn nothing_rejected(lines: Seq<Parsed>, n: int, i: int)
    requires
        tally(lines, Tally::Rejected, n) == 0,
        0 <= i < n <= lines.len(),
    ensures
        lines[i].faults.len() == 0,
    decreases n,
{
    if i < n - 1 {
        nothing_rejected(lines, n - 1, i);
    }
}

/// Whether nothing in the bundles is rejected.
pub open spec fn all_accepted(bundles: Seq<Vec<BundleLine>>) -> bool {
    tally(judged_lines(bundles), Tally::Rejected, judged_lines(bundles).len() as int) == 0
}

/// What is accepted has no fault by itself, and repeats no run.
pub proof fn accepted_line(bundles: Seq<Vec<BundleLine>>, i: int)
    requires
        all_accepted(bundles),
        0 <= i < checked_lines(bundles).len(),
    ensures
        checked_lines(bundles)[i].faults.len() == 0,
        !repeats(run_keys(values_of(checked_lines(bundles))), i),
{
    let lines = judged_lines(bundles);
    nothing_rejected(lines, lines.len() as int, i);
}

/// What holds of a line without faults: the bundle has one header, which leads it; the line is of
/// the header's run; and no other line of the run has its id, its ordinal or its correlation.
proof fn faultless_line(v: Seq<Option<ObservationLine>>, i: int, f: Seq<FaultModel>)
    requires
        coded(f),
        0 <= i < v.len(),
        line_faults(v, i, f).len() == 0,
    ensures
        f.len() == 0,
        header_count(v, 0) == 1,
        i == header_index(v, 0) ==> i == 0,
        !repeats(id_keys(v, header_at(v, header_index(v, 0)).run_id@), i),
        !repeats(ordinal_keys(v, header_at(v, header_index(v, 0)).run_id@), i),
        !repeats(correlation_keys(v, header_at(v, header_index(v, 0)).run_id@), i),
        v[i] is Some ==> line_run(v[i]->0) == header_at(v, header_index(v, 0)).run_id@,
{
    broadcast use refused_coded;

    codes_apart();
    line_coded(v, i, f);
    let h = header_index(v, 0);
    if header_count(v, 0) == 1 {
        let header = header_at(v, h);
        if i == h {
            let f1 = refused(
                f,
                h != 0,
                "O011"@,
                "bundle header must be the first nonblank record"@,
            );
            let f2 = refused(
                f1,
                header.ordinal != 0,
                "O012"@,
                "bundle header ordinal must be zero"@,
            );
            let f3 = identifier_faults(header.run_id@, "runId"@, f2);
            let f4 = identifier_faults(header.record_id@, "recordId"@, f3);
            assert(coded(f4));
            assert(f4.len() >= f1.len());
            header_coded(header, f4);
        }
        let led = leading_faults(v, h, i, f);
        assert(coded(led));
        let g = repeat_faults(v, header.run_id@, i, led);
        assert(coded(g));
        assert(g.len() >= led.len());
        match v[i] {
            None => {},
            Some(line) => {
                value_coded(v, header, line, g);
            },
        }
    }
}

/// The one header of a bundle is where it is found.
proof fn header_found(v: Seq<Option<ObservationLine>>, i: int)
    requires
        header_count(v, i) > 0,
        0 <= i,
    ensures
        i <= header_index(v, i) < v.len(),
        is_header(v[header_index(v, i)]),
    decreases v.len() - i,
{
    if !is_header(v[i]) {
        header_found(v, i + 1);
    }
}

/// What holds of an accepted bundle, of line `k`: the header leads it, and the line is of its run.
proof fn accepted_bundle(bundles: Seq<Vec<BundleLine>>, b: int, k: int)
    requires
        all_accepted(bundles),
        0 <= b < bundles.len(),
        0 <= k < parsed_bundle(bundles[b]@).len(),
    ensures
        ({
            let v = values_of(parsed_bundle(bundles[b]@));
            &&& header_count(v, 0) == 1
            &&& header_index(v, 0) == 0
            &&& is_header(v[0])
            &&& bundle_lines_checked(bundles, b)[k].faults.len() == 0
            &&& !repeats(id_keys(v, header_at(v, 0).run_id@), k)
            &&& !repeats(ordinal_keys(v, header_at(v, 0).run_id@), k)
            &&& !repeats(correlation_keys(v, header_at(v, 0).run_id@), k)
            &&& v[k] is Some ==> line_run(v[k]->0) == header_at(v, 0).run_id@
        }),
{
    let lines = parsed_bundle(bundles[b]@);
    let v = values_of(lines);
    spot_holds(bundles, b, k);
    accepted_line(bundles, spot(bundles, b, k));
    codes_apart();
    assert(coded(lines[k].faults));
    faultless_line(v, k, lines[k].faults);
    header_found(v, 0);
    let h = header_index(v, 0);
    spot_holds(bundles, b, h);
    accepted_line(bundles, spot(bundles, b, h));
    assert(coded(lines[h].faults));
    faultless_line(v, h, lines[h].faults);
}

/// The header of an accepted bundle is a line that names the run.
proof fn accepted_header(bundles: Seq<Vec<BundleLine>>, b: int)
    requires
        all_accepted(bundles),
        0 <= b < bundles.len(),
    ensures
        ({
            let v = values_of(parsed_bundle(bundles[b]@));
            let all = checked_lines(bundles);
            &&& 0 <= spot(bundles, b, 0) < all.len()
            &&& run_keys(values_of(all))[spot(bundles, b, 0)] == Some(header_at(v, 0).run_id@)
        }),
{
    accepted_bundle(bundles, b, 0);
    spot_holds(bundles, b, 0);
}

/// The runs of accepted headers tell them apart.
proof fn headers_told_apart(bundles: Seq<Vec<BundleLine>>)
    requires
        all_accepted(bundles),
    ensures
        ({
            let lines = judged_lines(bundles);
            keys_identify::<BundleHeader>(
                accepted_headers(lines, lines.len() as int).to_multiset(),
            )
        }),
{
    broadcast use vstd::seq_lib::group_to_multiset_ensures;

    let lines = judged_lines(bundles);
    let n = lines.len() as int;
    let all = accepted_headers(lines, n);
    let m = all.to_multiset();
    let keys = run_keys(values_of(checked_lines(bundles)));
    headers_gathered(lines, n);
    assert(lines.take(n) == lines);
    let f = |l: Parsed| line_header(l);
    assert forall|a: BundleHeader, b: BundleHeader|
        #![trigger m.count(a), m.count(b)]
        m.count(a) > 0 && m.count(b) > 0 && BundleHeader::key_of(a)
            == BundleHeader::key_of(b) implies a == b by {
        assert(all.contains(a) && all.contains(b));
        let i = gathered_from(lines, f, a);
        let j = gathered_from(lines, f, b);
        assert(line_header(lines[i]).contains(a));
        assert(line_header(lines[j]).contains(b));
        assert(lines[i].value == Some(ObservationLine::BundleHeader(a)));
        assert(lines[j].value == Some(ObservationLine::BundleHeader(b)));
        assert(keys[i] == Some(a.run_id@));
        assert(keys[j] == Some(b.run_id@));
        accepted_line(bundles, i);
        if i != j {
            assert(keys[j] == keys[i]);
            assert(repeats(keys, i));
        }
    }
}

/// The run, ordinal and id of accepted records tell them apart.
proof fn records_told_apart(bundles: Seq<Vec<BundleLine>>)
    requires
        all_accepted(bundles),
    ensures
        ({
            let lines = judged_lines(bundles);
            keys_identify::<ObservationLine>(
                accepted_records(lines, lines.len() as int).to_multiset(),
            )
        }),
{
    broadcast use vstd::seq_lib::group_to_multiset_ensures;

    let lines = judged_lines(bundles);
    let n = lines.len() as int;
    let all = accepted_records(lines, n);
    let m = all.to_multiset();
    records_gathered(lines, n);
    assert(lines.take(n) == lines);
    let f = |l: Parsed| accepted_record(l);
    assert forall|a: ObservationLine, b: ObservationLine|
        #![trigger m.count(a), m.count(b)]
        m.count(a) > 0 && m.count(b) > 0 && ObservationLine::key_of(a)
            == ObservationLine::key_of(b) implies a == b by {
        assert(all.contains(a) && all.contains(b));
        let i = gathered_from(lines, f, a);
        let j = gathered_from(lines, f, b);
        assert(accepted_record(lines[i]).contains(a));
        assert(accepted_record(lines[j]).contains(b));
        assert(lines[i].value == Some(a));
        assert(lines[j].value == Some(b));
        let (p, k) = spot_found(bundles, i);
        let (q, l) = spot_found(bundles, j);
        spot_holds(bundles, p, k);
        spot_holds(bundles, q, l);
        accepted_bundle(bundles, p, k);
        accepted_bundle(bundles, q, l);
        assert(line_run(a) == line_run(b));
        if p == q {
            same_bundle(values_of(parsed_bundle(bundles[p]@)), k, l);
        } else {
            accepted_header(bundles, p);
            accepted_header(bundles, q);
            let keys = run_keys(values_of(checked_lines(bundles)));
            let x = spot(bundles, p, 0);
            let y = spot(bundles, q, 0);
            if p < q {
                spots_apart(bundles, p, 0, q, 0);
            } else {
                spots_apart(bundles, q, 0, p, 0);
            }
            accepted_line(bundles, x);
            assert(keys[x] == keys[y]);
            assert(repeats(keys, x));
        }
    }
}

/// Two lines of a run with one ordinal, which no other line has, are one.
proof fn same_bundle(v: Seq<Option<ObservationLine>>, k: int, l: int)
    requires
        0 <= k < v.len(),
        0 <= l < v.len(),
        v[k] is Some,
        v[l] is Some,
        line_run(v[k]->0) == header_at(v, 0).run_id@,
        line_run(v[l]->0) == header_at(v, 0).run_id@,
        line_ordinal(v[k]->0) == line_ordinal(v[l]->0),
        !repeats(ordinal_keys(v, header_at(v, 0).run_id@), k),
    ensures
        k == l,
{
    let keys = ordinal_keys(v, header_at(v, 0).run_id@);
    assert(keys[k] == Some(line_ordinal(v[k]->0)));
    assert(keys[l] == Some(line_ordinal(v[l]->0)));
    if k != l {
        assert(keys[l] == keys[k]);
        assert(repeats(keys, k));
    }
}

/// Whether two proposals say the same.
pub open spec fn same_proposal(p: Proposal, q: Proposal) -> bool {
    &&& p.schema@ == q.schema@
    &&& p.observation_schema@ == q.observation_schema@
    &&& models_of(p.candidates@) == models_of(q.candidates@)
    &&& links_of(p.record_dispositions@) == links_of(q.record_dispositions@)
    &&& p.digest@ == q.digest@
}

/// Whether a proposal is what the bundles give.
pub open spec fn proposed_from(p: Proposal, bundles: Seq<Vec<BundleLine>>) -> bool {
    let lines = judged_lines(bundles);
    let n = lines.len() as int;
    &&& all_accepted(bundles)
    &&& proposes(
        p,
        arranged::<BundleHeader>(accepted_headers(lines, n)),
        arranged::<ObservationLine>(accepted_records(lines, n)),
        arranged::<RecordDisposition>(all_dispositions(lines, n)),
    )
}

/// The same lines, in whatever order, give the same proposal.
proof fn same_lines_propose_the_same(
    a: Seq<Vec<BundleLine>>,
    b: Seq<Vec<BundleLine>>,
    p: Proposal,
    q: Proposal,
)
    requires
        checked_lines(a).to_multiset() == checked_lines(b).to_multiset(),
        bundles_name_apart(a),
        proposed_from(p, a),
        proposed_from(q, b),
    ensures
        same_proposal(p, q),
{
    checked_names_apart(a);
    checked_coded(a);
    judgement_forgets_order(checked_lines(a), checked_lines(b));
    headers_told_apart(a);
    records_told_apart(a);
    let x = judged_lines(a);
    let y = judged_lines(b);
    let n = x.len() as int;
    arranged_forgets_order::<BundleHeader>(accepted_headers(x, n), accepted_headers(y, n));
    arranged_forgets_order::<ObservationLine>(accepted_records(x, n), accepted_records(y, n));
}

/// The proposal from bundles is the same in whatever order the bundles are given.
pub proof fn proposal_forgets_bundle_order(
    a: Seq<Vec<BundleLine>>,
    b: Seq<Vec<BundleLine>>,
    p: Proposal,
    q: Proposal,
)
    requires
        a.to_multiset() == b.to_multiset(),
        bundles_name_apart(a),
        proposed_from(p, a),
        proposed_from(q, b),
    ensures
        same_proposal(p, q),
{
    lines_gathered(a);
    lines_gathered(b);
    gathered_forgets_order(a, b, |x: Vec<BundleLine>| checked_bundle(parsed_bundle(x@)));
    same_lines_propose_the_same(a, b, p, q);
}

/// Where only the first line is a header, no other is.
proof fn only_header(v: Seq<Option<ObservationLine>>, i: int, k: int)
    requires
        0 <= i <= k < v.len(),
        header_count(v, i) == 0,
    ensures
        !is_header(v[k]),
    decreases k - i,
{
    if i < k {
        only_header(v, i + 1, k);
    }
}

/// Where no line from `i` on is a header, none is counted.
proof fn no_header(v: Seq<Option<ObservationLine>>, i: int)
    requires
        0 <= i <= v.len(),
        forall|k: int| i <= k < v.len() ==> !is_header(#[trigger] v[k]),
    ensures
        header_count(v, i) == 0,
    decreases v.len() - i,
{
    if i < v.len() {
        assert(!is_header(v[i]));
        no_header(v, i + 1);
    }
}

/// The keys of lines.
pub open spec fn keys_by<K>(
    lines: Seq<Parsed>,
    key: spec_fn(Option<ObservationLine>) -> Option<K>,
) -> Seq<Option<K>> {
    Seq::new(lines.len(), |n: int| key(lines[n].value))
}

/// A line that repeats no other does so in no other order.
proof fn unrepeated_anywhere<K>(
    s: Seq<Parsed>,
    t: Seq<Parsed>,
    i: int,
    j: int,
    key: spec_fn(Option<ObservationLine>) -> Option<K>,
)
    requires
        s.to_multiset() == t.to_multiset(),
        0 <= i < s.len(),
        0 <= j < t.len(),
        s[i] == t[j],
        !repeats(keys_by(s, key), i),
    ensures
        !repeats(keys_by(t, key), j),
{
    let a = keys_by(s, key);
    let b = keys_by(t, key);
    if repeats(b, j) {
        let q = choose|q: int| 0 <= q < b.len() && q != j && #[trigger] b[q] == b[j];
        row_holds_both(t, j, q);
        let p = row_has_other(s, i, t[q]);
        assert(a[p] == a[i]);
        assert(repeats(a, i));
    }
}

/// The venue of a transaction is that of a line that holds one.
proof fn venue_found(v: Seq<Option<ObservationLine>>, run: Seq<char>, id: Seq<char>, n: int) -> (k:
    int)
    requires
        transaction_venue(v, run, id, n) is Some,
        n <= v.len(),
    ensures
        0 <= k < n,
        venue_of(v[k], run, id) == transaction_venue(v, run, id, n),
    decreases n,
{
    if venue_of(v[n - 1], run, id) is Some {
        n - 1
    } else {
        venue_found(v, run, id, n - 1)
    }
}

/// Where a line holds the transaction, there is a venue.
proof fn venue_there(
    v: Seq<Option<ObservationLine>>,
    run: Seq<char>,
    id: Seq<char>,
    n: int,
    k: int,
)
    requires
        0 <= k < n <= v.len(),
        venue_of(v[k], run, id) is Some,
    ensures
        transaction_venue(v, run, id, n) is Some,
    decreases n,
{
    if k < n - 1 {
        venue_there(v, run, id, n - 1, k);
    }
}

/// Whether the lines are those of a bundle led by its one header, in which no line of the run has
/// the id, the ordinal or the correlation of another.
pub open spec fn orderly(lines: Seq<Parsed>) -> bool {
    let v = values_of(lines);
    let run = header_at(v, 0).run_id@;
    &&& lines.len() > 0
    &&& is_header(v[0])
    &&& header_count(v, 0) == 1
    &&& forall|k: int|
        #![trigger lines[k]]
        0 <= k < lines.len() ==> !repeats(id_keys(v, run), k) && !repeats(ordinal_keys(v, run), k)
            && !repeats(correlation_keys(v, run), k)
}

/// Where a line stands among the same lines in another order, behind the same first line.
proof fn moved_line(s: Seq<Parsed>, t: Seq<Parsed>, j: int) -> (i: int)
    requires
        s.to_multiset() == t.to_multiset(),
        s.len() > 0,
        t.len() > 0,
        s[0] == t[0],
        0 <= j < t.len(),
    ensures
        0 <= i < s.len(),
        s[i] == t[j],
        i == 0 <==> j == 0,
{
    if j == 0 {
        0
    } else {
        row_holds_both(t, 0, j);
        row_has_other(s, 0, t[j])
    }
}

/// The venue of a transaction does not depend on the order of the lines.
proof fn venue_anywhere(s: Seq<Parsed>, t: Seq<Parsed>, id: Seq<char>)
    requires
        s.to_multiset() == t.to_multiset(),
        orderly(s),
        t.len() > 0,
        s[0] == t[0],
    ensures
        ({
            let run = header_at(values_of(s), 0).run_id@;
            transaction_venue(values_of(s), run, id, s.len() as int) == transaction_venue(
                values_of(t),
                run,
                id,
                t.len() as int,
            )
        }),
{
    let v = values_of(s);
    let w = values_of(t);
    let run = header_at(v, 0).run_id@;
    let m = s.len() as int;
    let n = t.len() as int;
    if transaction_venue(w, run, id, n) is Some {
        let j = venue_found(w, run, id, n);
        let i = moved_line(s, t, j);
        assert(v[i] == w[j]);
        venue_there(v, run, id, m, i);
        let k = venue_found(v, run, id, m);
        let keys = id_keys(v, run);
        assert(keys[i] == Some(id));
        assert(keys[k] == Some(id));
        assert(!repeats(keys, i)) by {
            let known = s[i];
        }
        if k != i {
            assert(keys[k] == keys[i]);
            assert(repeats(keys, i));
        }
    } else if transaction_venue(v, run, id, m) is Some {
        let i = venue_found(v, run, id, m);
        let j = moved_line(t, s, i);
        assert(v[i] == w[j]);
        venue_there(w, run, id, n, j);
    }
}

/// The faults of a line of an orderly bundle do not depend on the order of the lines behind the
/// first.
proof fn faults_anywhere(s: Seq<Parsed>, t: Seq<Parsed>, i: int, j: int, f: Seq<FaultModel>)
    requires
        s.to_multiset() == t.to_multiset(),
        orderly(s),
        t.len() > 0,
        s[0] == t[0],
        0 <= i < s.len(),
        0 <= j < t.len(),
        s[i] == t[j],
        i == 0 <==> j == 0,
    ensures
        line_faults(values_of(s), i, f) == line_faults(values_of(t), j, f),
{
    let v = values_of(s);
    let w = values_of(t);
    assert(v[0] == w[0]);
    assert(v[i] == w[j]);
    assert(header_count(v, 1) == 0);
    assert forall|k: int| 1 <= k < w.len() implies !is_header(#[trigger] w[k]) by {
        let p = moved_line(s, t, k);
        only_header(v, 1, p);
        assert(v[p] == w[k]);
    }
    no_header(w, 1);
    assert(header_count(w, 0) == 1);
    assert(header_index(v, 0) == 0);
    assert(header_index(w, 0) == 0);
    let header = header_at(v, 0);
    assert(header_at(w, 0) == header);
    let run = header.run_id@;
    let by_id = |x: Option<ObservationLine>| id_key(x, run);
    let by_ordinal = |x: Option<ObservationLine>| ordinal_key(x, run);
    let by_correlation = |x: Option<ObservationLine>| correlation_key(x, run);
    let known = s[i];
    assert(id_keys(v, run) =~= keys_by(s, by_id));
    assert(id_keys(w, run) =~= keys_by(t, by_id));
    assert(ordinal_keys(v, run) =~= keys_by(s, by_ordinal));
    assert(ordinal_keys(w, run) =~= keys_by(t, by_ordinal));
    assert(correlation_keys(v, run) =~= keys_by(s, by_correlation));
    assert(correlation_keys(w, run) =~= keys_by(t, by_correlation));
    unrepeated_anywhere(s, t, i, j, by_id);
    unrepeated_anywhere(s, t, i, j, by_ordinal);
    unrepeated_anywhere(s, t, i, j, by_correlation);
    match v[i] {
        Some(ObservationLine::PtpEvent(e)) => {
            match e.transaction_record_id {
                Some(id) => {
                    venue_anywhere(s, t, id@);
                },
                None => {},
            }
        },
        _ => {},
    }
}

/// Whether the bundles of one row are those of the other, each with its lines behind the first in
/// some other order.
pub open spec fn records_reordered(a: Seq<Vec<BundleLine>>, b: Seq<Vec<BundleLine>>) -> bool {
    a.len() == b.len() && forall|i: int|
        #![trigger a[i], b[i]]
        0 <= i < a.len() ==> a[i]@.to_multiset() == b[i]@.to_multiset() && (a[i]@.len() > 0
            ==> a[i]@[0] == b[i]@[0])
}

/// The lines of an accepted bundle, checked in another order, are the same lines.
proof fn bundle_forgets_order(bundles: Seq<Vec<BundleLine>>, b: int, other: Seq<BundleLine>)
    requires
        all_accepted(bundles),
        0 <= b < bundles.len(),
        bundles[b]@.to_multiset() == other.to_multiset(),
        bundles[b]@.len() > 0 ==> bundles[b]@[0] == other[0],
    ensures
        bundle_lines_checked(bundles, b).to_multiset() == checked_bundle(
            parsed_bundle(other),
        ).to_multiset(),
{
    broadcast use vstd::seq_lib::group_to_multiset_ensures;

    let own = bundles[b]@;
    assert(own.len() == own.to_multiset().len());
    assert(other.len() == other.to_multiset().len());
    if own.len() == 0 {
        assert(own == other);
    } else {
        let s = parsed_bundle(own);
        let t = parsed_bundle(other);
        let g = |l: BundleLine| parsed_line(l);
        assert(s =~= own.map_values(g));
        assert(t =~= other.map_values(g));
        changed_forgets_order(own, other, g);
        assert(s[0] == t[0]);
        let v = values_of(s);
        assert forall|k: int|
            #![trigger s[k]]
            0 <= k < s.len() implies !repeats(id_keys(v, header_at(v, 0).run_id@), k) && !repeats(
            ordinal_keys(v, header_at(v, 0).run_id@),
            k,
        ) && !repeats(correlation_keys(v, header_at(v, 0).run_id@), k) by {
            accepted_bundle(bundles, b, k);
        }
        accepted_bundle(bundles, b, 0);
        assert(orderly(s));
        codes_apart();
        assert forall|k: int| 0 <= k < s.len() implies #[trigger] s[k] == checked_bundle(s)[k] by {
            accepted_bundle(bundles, b, k);
            assert(coded(s[k].faults));
            faultless_line(v, k, s[k].faults);
            assert(s[k].faults =~= checked_bundle(s)[k].faults);
        }
        assert forall|k: int| 0 <= k < t.len() implies #[trigger] t[k] == checked_bundle(t)[k] by {
            let i = moved_line(s, t, k);
            faults_anywhere(s, t, i, k, t[k].faults);
            assert(s[i] == checked_bundle(s)[i]);
            assert(t[k].faults =~= checked_bundle(t)[k].faults);
        }
        assert(checked_bundle(s) =~= s);
        assert(checked_bundle(t) =~= t);
    }
}

/// The lines of accepted bundles, checked in another order, are the same lines.
proof fn bundles_forget_order(
    a: Seq<Vec<BundleLine>>,
    b: Seq<Vec<BundleLine>>,
    n: int,
)
    requires
        all_accepted(a),
        records_reordered(a, b),
        0 <= n <= a.len(),
    ensures
        checked_lines(a.take(n)).to_multiset() == checked_lines(b.take(n)).to_multiset(),
    decreases n,
{
    if n > 0 {
        bundles_forget_order(a, b, n - 1);
        assert(a.take(n).drop_last() == a.take(n - 1));
        assert(b.take(n).drop_last() == b.take(n - 1));
        let x = a[n - 1];
        let y = b[n - 1];
        assert(a.take(n).last() == x && b.take(n).last() == y);
        bundle_forgets_order(a, n - 1, y@);
        joined_elements(checked_lines(a.take(n - 1)), checked_bundle(parsed_bundle(x@)));
        joined_elements(checked_lines(b.take(n - 1)), checked_bundle(parsed_bundle(y@)));
    } else {
        assert(a.take(0) == b.take(0));
    }
}

/// Bundles that are accepted are accepted, and give the same proposal, in whatever order the
/// records behind each header are given.
pub proof fn proposal_forgets_record_order(
    a: Seq<Vec<BundleLine>>,
    b: Seq<Vec<BundleLine>>,
    p: Proposal,
    q: Proposal,
)
    requires
        records_reordered(a, b),
        bundles_name_apart(a),
        proposed_from(p, a),
    ensures
        all_accepted(b),
        proposed_from(q, b) ==> same_proposal(p, q),
{
    bundles_forget_order(a, b, a.len() as int);
    assert(a.take(a.len() as int) == a);
    assert(b.take(b.len() as int) == b);
    checked_names_apart(a);
    checked_coded(a);
    judgement_forgets_order(checked_lines(a), checked_lines(b));
    let x = judged_lines(a);
    let y = judged_lines(b);
    assert(tally(x, Tally::Rejected, x.len() as int) == tally(y, Tally::Rejected, y.len() as int));
    if proposed_from(q, b) {
        same_lines_propose_the_same(a, b, p, q);
    }
}

} // verus!
