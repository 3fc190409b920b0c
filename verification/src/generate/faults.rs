//! Which faults a line of a bundle has, told from what it holds.

use crate::generate::bundle::{
    correlation_keys, header_at, header_count, header_index, id_keys, leading_faults, line_faults,
    ordinal_keys, repeat_faults, repeats,
};
use crate::generate::fields::{
    context_faults, identifier_faults, payload_faults, payload_opt_faults, ptp_code_faults,
    range_faults, ranges_faults, refused, sha256_faults, stream_faults, FaultModel,
};
use crate::generate::records::{
    claim_faults, has_clock, kind_faults, outcome_faults, phase_faults, transaction_claim_faults,
    transaction_venue,
};
use crate::json::same_json;
use crate::text::text_debug;
use crate::observation::{
    line_common, line_ordinal, line_record, line_run, line_schema, OBSERVATION_SCHEMA_VERSION,
    ArtifactMetadata, ArtifactRange, BundleHeader, CapabilityRecord, CapabilitySubject,
    ControlEvidenceBasis, ControlObservedEffect, HttpExchangeRecord, ObservationLine,
    PayloadMetadata, PayloadRange, PtpEventRecord, PtpTransactionRecord, Readback,
    TransactionOutcome, TransportOutcome,
};
use vstd::prelude::*;

verus! {

/// The number of a code: the three digits behind its letter.
pub open spec fn number(code: Seq<char>) -> int {
    if code.len() == 4 {
        100 * (code[1] as int - '0' as int) + 10 * (code[2] as int - '0' as int) + (code[3] as int
            - '0' as int)
    } else {
        -1
    }
}

/// The numbers of the codes.
pub proof fn codes_are_numbered()
    ensures
        number("O001"@) == 1,
        number("O002"@) == 2,
        number("O003"@) == 3,
        number("O010"@) == 10,
        number("O011"@) == 11,
        number("O012"@) == 12,
        number("O013"@) == 13,
        number("O014"@) == 14,
        number("O020"@) == 20,
        number("O021"@) == 21,
        number("O022"@) == 22,
        number("O023"@) == 23,
        number("O030"@) == 30,
        number("O031"@) == 31,
        number("O032"@) == 32,
        number("O040"@) == 40,
        number("O041"@) == 41,
        number("O042"@) == 42,
        number("O043"@) == 43,
        number("O044"@) == 44,
        number("O045"@) == 45,
        number("O046"@) == 46,
        number("O047"@) == 47,
        number("O050"@) == 50,
        number("O051"@) == 51,
        number("O060"@) == 60,
        number("O061"@) == 61,
        number("O070"@) == 70,
        number("O071"@) == 71,
        number("O080"@) == 80,
        number("O081"@) == 81,
        number("O082"@) == 82,
        number("O083"@) == 83,
        number("O084"@) == 84,
        number("O085"@) == 85,
        number("O086"@) == 86,
        number("O087"@) == 87,
        number("O088"@) == 88,
        number("O100"@) == 100,
        number("O101"@) == 101,
        number("O102"@) == 102,
        number("O103"@) == 103,
        number("O104"@) == 104,
        number("O110"@) == 110,
        number("O111"@) == 111,
        number("O112"@) == 112,
        number("O113"@) == 113,
        number("O114"@) == 114,
        number("O115"@) == 115,
        number("O116"@) == 116,
        number("O120"@) == 120,
        number("O121"@) == 121,
        number("O130"@) == 130,
        number("O131"@) == 131,
        number("O132"@) == 132,
        number("O400"@) == 400,
        number("O401"@) == 401,
{
    reveal_strlit("O001");
    reveal_strlit("O002");
    reveal_strlit("O003");
    reveal_strlit("O010");
    reveal_strlit("O011");
    reveal_strlit("O012");
    reveal_strlit("O013");
    reveal_strlit("O014");
    reveal_strlit("O020");
    reveal_strlit("O021");
    reveal_strlit("O022");
    reveal_strlit("O023");
    reveal_strlit("O030");
    reveal_strlit("O031");
    reveal_strlit("O032");
    reveal_strlit("O040");
    reveal_strlit("O041");
    reveal_strlit("O042");
    reveal_strlit("O043");
    reveal_strlit("O044");
    reveal_strlit("O045");
    reveal_strlit("O046");
    reveal_strlit("O047");
    reveal_strlit("O050");
    reveal_strlit("O051");
    reveal_strlit("O060");
    reveal_strlit("O061");
    reveal_strlit("O070");
    reveal_strlit("O071");
    reveal_strlit("O080");
    reveal_strlit("O081");
    reveal_strlit("O082");
    reveal_strlit("O083");
    reveal_strlit("O084");
    reveal_strlit("O085");
    reveal_strlit("O086");
    reveal_strlit("O087");
    reveal_strlit("O088");
    reveal_strlit("O100");
    reveal_strlit("O101");
    reveal_strlit("O102");
    reveal_strlit("O103");
    reveal_strlit("O104");
    reveal_strlit("O110");
    reveal_strlit("O111");
    reveal_strlit("O112");
    reveal_strlit("O113");
    reveal_strlit("O114");
    reveal_strlit("O115");
    reveal_strlit("O116");
    reveal_strlit("O120");
    reveal_strlit("O121");
    reveal_strlit("O130");
    reveal_strlit("O131");
    reveal_strlit("O132");
    reveal_strlit("O400");
    reveal_strlit("O401");
}

/// Refusing adds the fault where it is broken, and no other.
pub broadcast proof fn refused_has(
    f: Seq<FaultModel>,
    broken: bool,
    code: Seq<char>,
    message: Seq<char>,
    x: FaultModel,
)
    ensures
        (#[trigger] refused(f, broken, code, message).contains(x)) == (f.contains(x) || (broken
            && x == (code, message))),
{
    let r = refused(f, broken, code, message);
    if f.contains(x) {
        let i = f.index_of(x);
        assert(r[i] == x);
    }
    if broken && x == (code, message) && !f.contains(x) {
        assert(r[f.len() as int] == x);
    }
    if r.contains(x) && !f.contains(x) {
        let i = r.index_of(x);
        if i < f.len() {
            assert(f[i] == x);
        }
    }
}

/// The ranges of artifacts add no other faults than their own.
pub proof fn ranges_keep(
    ranges: Seq<ArtifactRange>,
    artifacts: Seq<ArtifactMetadata>,
    f: Seq<FaultModel>,
    i: int,
    x: FaultModel,
)
    requires
        number(x.0) != 70,
        number(x.0) != 71,
    ensures
        ranges_faults(ranges, artifacts, f, i).contains(x) == f.contains(x),
    decreases ranges.len() - i,
{
    broadcast use refused_has;

    codes_are_numbered();
    if 0 <= i < ranges.len() {
        ranges_keep(ranges, artifacts, range_faults(ranges[i], artifacts, f), i + 1, x);
    }
}

/// The ranges of a stream add no other faults than their own.
pub proof fn streams_keep(
    ranges: Seq<PayloadRange>,
    offset: u64,
    f: Seq<FaultModel>,
    i: int,
    x: FaultModel,
)
    requires
        number(x.0) != 61,
        number(x.0) != 86,
        number(x.0) != 87,
    ensures
        stream_faults(ranges, offset, f, i).0.contains(x) == f.contains(x),
    decreases ranges.len() - i,
{
    broadcast use refused_has;

    codes_are_numbered();
    if 0 <= i < ranges.len() {
        let range = ranges[i];
        let checked = refused(
            sha256_faults(range.sha256@, f),
            range.length == 0 || range.offset != offset,
            "O086"@,
            "stream ranges must be nonempty, contiguous, and start at zero"@,
        );
        if range.offset + range.length > u64::MAX {
            streams_keep(
                ranges,
                offset,
                refused(checked, true, "O087"@, "stream range offset overflows"@),
                i + 1,
                x,
            );
        } else {
            streams_keep(ranges, (range.offset + range.length) as u64, checked, i + 1, x);
        }
    }
}

/// Whether a code is none of those of payloads.
pub open spec fn not_of_payloads(x: FaultModel) -> bool {
    number(x.0) < 61 || number(x.0) > 88
}

/// A payload adds no other faults than its own.
proof fn payload_keeps(
    p: PayloadMetadata,
    artifacts: Seq<ArtifactMetadata>,
    f: Seq<FaultModel>,
    x: FaultModel,
)
    requires
        not_of_payloads(x),
    ensures
        payload_faults(p, artifacts, f).contains(x) == f.contains(x),
{
    broadcast use refused_has;

    codes_are_numbered();
    let (streamed, end) = stream_faults(p.stream_ranges@, 0, sha256_faults(p.sha256@, f), 0);
    streams_keep(p.stream_ranges@, 0, sha256_faults(p.sha256@, f), 0, x);
    let g = refused(
        streamed,
        p.stream_ranges@.len() > 0 && end != p.length,
        "O088"@,
        "stream ranges do not account for payload length"@,
    );
    ranges_keep(p.ranges@, artifacts, g, 0, x);
}

/// An optional payload adds no other faults than its own.
proof fn payload_opt_keeps(
    p: Option<PayloadMetadata>,
    artifacts: Seq<ArtifactMetadata>,
    f: Seq<FaultModel>,
    x: FaultModel,
)
    requires
        not_of_payloads(x),
    ensures
        payload_opt_faults(p, artifacts, f).contains(x) == f.contains(x),
{
    if p is Some {
        payload_keeps(p->0, artifacts, f, x);
    }
}

/// The phases of a transaction add no other faults than those of codes and payloads.
proof fn phases_keep(
    t: PtpTransactionRecord,
    artifacts: Seq<ArtifactMetadata>,
    f: Seq<FaultModel>,
    x: FaultModel,
)
    requires
        not_of_payloads(x),
        number(x.0) != 60,
    ensures
        phase_faults(t, artifacts, f).contains(x) == f.contains(x),
{
    broadcast use refused_has;

    codes_are_numbered();
    let f1 = ptp_code_faults(t.request.operation@, "operation"@, f);
    let f2 = match t.request.data {
        Some(d) => payload_faults(d.payload, artifacts, f1),
        None => f1,
    };
    if t.request.data is Some {
        payload_keeps(t.request.data->0.payload, artifacts, f1, x);
    }
    if t.response is Some && t.response->0.data is Some {
        let f3 = ptp_code_faults(t.response->0.code@, "response"@, f2);
        payload_keeps(t.response->0.data->0.payload, artifacts, f3, x);
    }
}

/// Whether the first line of a bundle is the header, and no other line is one.
pub open spec fn led_by(v: Seq<Option<ObservationLine>>, h: BundleHeader) -> bool {
    &&& v.len() > 0
    &&& v[0] == Some(ObservationLine::BundleHeader(h))
    &&& forall|j: int|
        0 < j < v.len() ==> !((#[trigger] v[j]) is Some && v[j]->0 is BundleHeader)
}

/// Behind the header no line is one.
proof fn no_header_from(v: Seq<Option<ObservationLine>>, i: int)
    requires
        0 <= i,
        forall|j: int| i <= j < v.len() ==> !((#[trigger] v[j]) is Some && v[j]->0 is BundleHeader),
    ensures
        header_count(v, i) == 0,
    decreases v.len() - i,
{
    if i < v.len() {
        assert(!(v[i] is Some && v[i]->0 is BundleHeader));
        no_header_from(v, i + 1);
    }
}

/// The header of a bundle is the one that leads it.
pub proof fn led_header(v: Seq<Option<ObservationLine>>, h: BundleHeader)
    requires
        led_by(v, h),
    ensures
        header_count(v, 0) == 1,
        header_index(v, 0) == 0,
        header_at(v, 0) == h,
{
    no_header_from(v, 1);
    reveal_with_fuel(header_count, 2);
}

/// The faults that a line has, where it holds a record.
pub open spec fn faults_at(v: Seq<Option<ObservationLine>>, i: int) -> Seq<FaultModel> {
    line_faults(v, i, Seq::empty())
}

/// Whether a code is of what is peculiar to the kind of a record.
pub open spec fn of_the_kind(x: FaultModel) -> bool {
    100 <= number(x.0) <= 132
}

/// A fault of what is peculiar to the kind of a record comes from there.
proof fn kind_decides(
    v: Seq<Option<ObservationLine>>,
    h: BundleHeader,
    i: int,
    line: ObservationLine,
    x: FaultModel,
) -> (f: Seq<FaultModel>)
    requires
        led_by(v, h),
        0 < i < v.len(),
        v[i] == Some(line),
        of_the_kind(x),
    ensures
        !f.contains(x),
        faults_at(v, i).contains(x) == kind_faults(
            line,
            h.capture.artifacts@,
            v,
            h.run_id@,
            f,
        ).contains(x),
{
    broadcast use refused_has;

    led_header(v, h);
    codes_are_numbered();
    let e = Seq::<FaultModel>::empty();
    let g = repeat_faults(v, h.run_id@, i, leading_faults(v, 0, i, e));
    assert(!e.contains(x));
    assert(!g.contains(x));
    assert(line !is BundleHeader);
    let common = line_common(line)->0;
    let clocks = h.capture.clocks@;
    let f1 = refused(
        g,
        line_schema(line) != OBSERVATION_SCHEMA_VERSION@,
        "O002"@,
        "record schema discriminator is not canonical"@,
    );
    let f2 = refused(
        f1,
        line_run(line) != h.run_id@,
        "O014"@,
        "record runId does not match its bundle header"@,
    );
    let f3 = identifier_faults(line_record(line), "recordId"@, f2);
    let f4 = refused(
        f3,
        line !is BundleHeader && line_ordinal(line) == 0,
        "O023"@,
        "non-header ordinal must be positive"@,
    );
    let f5 = refused(
        f4,
        !has_clock(clocks, common.time.clock@, clocks.len() as int),
        "O030"@,
        "unknown clock "@ + text_debug(common.time.clock@),
    );
    let f6 = context_faults(common.context, f5);
    ranges_keep(common.artifact_ranges@, h.capture.artifacts@, f6, 0, x);
    let f7 = ranges_faults(common.artifact_ranges@, h.capture.artifacts@, f6, 0);
    assert(!f7.contains(x));
    f7
}

/// Whether an observed readback shows the requested value.
pub open spec fn shows_request(r: Readback) -> bool {
    r is Observed && same_json(r->request@, r->observed@)
}

/// Whether an observed readback shows the value that was there before.
pub open spec fn shows_baseline(r: Readback) -> bool {
    r is Observed && same_json(r->observed@, r->baseline@)
}

/// What the claims on basis, effect and readback break, given the outcome of the transaction where
/// there is one.
proof fn claims_break(
    outcome: Option<TransactionOutcome>,
    basis: ControlEvidenceBasis,
    effect: ControlObservedEffect,
    readback: Readback,
    f: Seq<FaultModel>,
    x: FaultModel,
)
    requires
        110 <= number(x.0) <= 116 ==> !f.contains(x),
    ensures
        !(111 <= number(x.0) <= 116) ==> claim_faults(outcome, basis, effect, readback, f).contains(
            x,
        ) == f.contains(x),
        claims_hold(
            outcome,
            basis,
            effect,
            readback,
            x,
            claim_faults(outcome, basis, effect, readback, f),
        ),
{
    broadcast use refused_has;

    codes_are_numbered();
    reveal_strlit("confirmed effect requires matching observed readback");
    reveal_strlit("confirmed effect requires an ok transaction");
    reveal_strlit("ackNoEffect requires observed baseline distinct from request");
    reveal_strlit("ackNoEffect requires an ok transaction");
    reveal_strlit("destructiveClamp requires an observed value distinct from request");
    reveal_strlit("destructiveClamp requires an ok transaction");
    assert("confirmed effect requires matching observed readback"@.len()
        != "confirmed effect requires an ok transaction"@.len());
    assert("ackNoEffect requires observed baseline distinct from request"@.len()
        != "ackNoEffect requires an ok transaction"@.len());
    assert("destructiveClamp requires an observed value distinct from request"@.len()
        != "destructiveClamp requires an ok transaction"@.len());
}

/// A capability record that claims a confirmed effect is refused for it exactly where its readback
/// was not observed, or shows another value than the one that was asked for; the value from before
/// plays no part. The other claims are held to their readback in the same way: an effect that was
/// acknowledged without effect shows the value from before and not the one that was asked for, a
/// clamped one another than the one that was asked for, and the rest have none. A capability that is
/// known from its descriptor alone claims no effect and has no readback.
pub proof fn capability_claims_are_held_to_their_readback(
    v: Seq<Option<ObservationLine>>,
    h: BundleHeader,
    i: int,
    r: Box<CapabilityRecord>,
)
    requires
        led_by(v, h),
        0 < i < v.len(),
        v[i] == Some(ObservationLine::Capability(r)),
    ensures
        ({
            let g = faults_at(v, i);
            let described = r.evidence_basis == ControlEvidenceBasis::DescriptorOnly;
            let b = r.readback;
            &&& g.contains(
                ("O111"@, "descriptorOnly requires unknown effect and notObserved readback"@),
            ) <==> described && (r.observed_effect != ControlObservedEffect::Unknown || b
                is Observed)
            &&& g.contains(("O112"@, "confirmed effect requires matching observed readback"@))
                <==> !described && r.observed_effect == ControlObservedEffect::Confirmed && !(b
                is Observed && same_json(b->request@, b->observed@))
            &&& !g.contains(("O112"@, "confirmed effect requires an ok transaction"@))
            &&& g.contains(
                ("O113"@, "ackNoEffect requires observed baseline distinct from request"@),
            ) <==> !described && r.observed_effect == ControlObservedEffect::AckNoEffect && !(b
                is Observed && same_json(b->observed@, b->baseline@) && !same_json(
                b->observed@,
                b->request@,
            ))
            &&& g.contains(
                ("O114"@, "protocolRefused requires nonOk transaction and notObserved readback"@),
            ) <==> !described && r.observed_effect == ControlObservedEffect::ProtocolRefused && b
                is Observed
            &&& g.contains(
                ("O115"@, "destructiveClamp requires an observed value distinct from request"@),
            ) <==> !described && r.observed_effect == ControlObservedEffect::DestructiveClamp
                && !(b is Observed && !same_json(b->request@, b->observed@))
            &&& g.contains(("O116"@, "unknown effect requires notObserved readback"@))
                <==> !described && r.observed_effect == ControlObservedEffect::Unknown && b
                is Observed
        }),
{
    let line = ObservationLine::Capability(r);
    codes_are_numbered();
    capability_claim(v, h, i, r, ("O111"@, "descriptorOnly requires unknown effect and notObserved readback"@));
    capability_claim(v, h, i, r, ("O112"@, "confirmed effect requires matching observed readback"@));
    capability_claim(v, h, i, r, ("O112"@, "confirmed effect requires an ok transaction"@));
    capability_claim(v, h, i, r, ("O113"@, "ackNoEffect requires observed baseline distinct from request"@));
    capability_claim(v, h, i, r, ("O114"@, "protocolRefused requires nonOk transaction and notObserved readback"@));
    capability_claim(v, h, i, r, ("O115"@, "destructiveClamp requires an observed value distinct from request"@));
    capability_claim(v, h, i, r, ("O116"@, "unknown effect requires notObserved readback"@));
}

/// A fault of a claim of a capability comes from the claim.
proof fn capability_claim(
    v: Seq<Option<ObservationLine>>,
    h: BundleHeader,
    i: int,
    r: Box<CapabilityRecord>,
    x: FaultModel,
)
    requires
        led_by(v, h),
        0 < i < v.len(),
        v[i] == Some(ObservationLine::Capability(r)),
        111 <= number(x.0) <= 116,
    ensures
        exists|f: Seq<FaultModel>|
            !f.contains(x) && faults_at(v, i).contains(x) == (#[trigger] claim_faults(
                None,
                r.evidence_basis,
                r.observed_effect,
                r.readback,
                f,
            )).contains(x),
        claims_hold(None, r.evidence_basis, r.observed_effect, r.readback, x, faults_at(v, i)),
{
    broadcast use refused_has;

    codes_are_numbered();
    let line = ObservationLine::Capability(r);
    let f = kind_decides(v, h, i, line, x);
    let g = match r.subject {
        CapabilitySubject::Identity { .. } => f,
        CapabilitySubject::Operation { code, .. } => ptp_code_faults(
            code@,
            "capability code"@,
            f,
        ),
        CapabilitySubject::Property { code, .. } => ptp_code_faults(code@, "capability code"@, f),
    };
    assert(!g.contains(x));
    let all = claim_faults(None, r.evidence_basis, r.observed_effect, r.readback, g);
    assert(faults_at(v, i).contains(x) == all.contains(x));
    claims_break(None, r.evidence_basis, r.observed_effect, r.readback, g, x);
}

/// Whether the faults of a claim are those that its readback and the outcome give.
pub open spec fn claims_hold(
    outcome: Option<TransactionOutcome>,
    basis: ControlEvidenceBasis,
    effect: ControlObservedEffect,
    readback: Readback,
    x: FaultModel,
    g: Seq<FaultModel>,
) -> bool {
    let described = basis == ControlEvidenceBasis::DescriptorOnly;
    let failed = outcome is Some && outcome->0 != TransactionOutcome::Completed;
    &&& x == ("O111"@, "descriptorOnly requires unknown effect and notObserved readback"@) ==> (
    g.contains(x) <==> described && (effect != ControlObservedEffect::Unknown || readback
        is Observed))
    &&& x == ("O112"@, "confirmed effect requires matching observed readback"@) ==> (g.contains(x)
        <==> !described && effect == ControlObservedEffect::Confirmed && !shows_request(readback))
    &&& x == ("O112"@, "confirmed effect requires an ok transaction"@) ==> (g.contains(x)
        <==> !described && effect == ControlObservedEffect::Confirmed && shows_request(readback)
        && failed)
    &&& x == ("O113"@, "ackNoEffect requires observed baseline distinct from request"@) ==> (
    g.contains(x) <==> !described && effect == ControlObservedEffect::AckNoEffect && !(
    shows_baseline(readback) && !same_json(readback->observed@, readback->request@)))
    &&& x == ("O113"@, "ackNoEffect requires an ok transaction"@) ==> (g.contains(x)
        <==> !described && effect == ControlObservedEffect::AckNoEffect && shows_baseline(readback)
        && !same_json(readback->observed@, readback->request@) && failed)
    &&& x == ("O114"@, "protocolRefused requires nonOk transaction and notObserved readback"@)
        ==> (g.contains(x) <==> !described && effect == ControlObservedEffect::ProtocolRefused && (
    readback is Observed || (outcome is Some && outcome->0 != TransactionOutcome::NonOk)))
    &&& x == ("O115"@, "destructiveClamp requires an observed value distinct from request"@) ==> (
    g.contains(x) <==> !described && effect == ControlObservedEffect::DestructiveClamp && !(
    readback is Observed && !shows_request(readback)))
    &&& x == ("O115"@, "destructiveClamp requires an ok transaction"@) ==> (g.contains(x)
        <==> !described && effect == ControlObservedEffect::DestructiveClamp && readback is Observed
        && !shows_request(readback) && failed)
    &&& x == ("O116"@, "unknown effect requires notObserved readback"@) ==> (g.contains(x)
        <==> !described && effect == ControlObservedEffect::Unknown && readback is Observed)
}

/// A fault of a transaction comes from its outcome or its claims.
proof fn transaction_fault(
    v: Seq<Option<ObservationLine>>,
    h: BundleHeader,
    i: int,
    t: Box<PtpTransactionRecord>,
    x: FaultModel,
) -> (f: Seq<FaultModel>)
    requires
        led_by(v, h),
        0 < i < v.len(),
        v[i] == Some(ObservationLine::PtpTransaction(t)),
        of_the_kind(x),
    ensures
        !f.contains(x),
        faults_at(v, i).contains(x) == transaction_claim_faults(
            *t,
            outcome_faults(*t, f),
        ).contains(x),
{
    let f = kind_decides(v, h, i, ObservationLine::PtpTransaction(t), x);
    phases_keep(*t, h.capture.artifacts@, f, x);
    phase_faults(*t, h.capture.artifacts@, f)
}

/// A transaction is refused for its outcome exactly where its response does not fit it: one that
/// completed has the response `0x2001`, one that was refused another response, and one that timed
/// out or was aborted none. An incomplete one is always refused.
pub proof fn outcomes_are_held_to_their_response(
    v: Seq<Option<ObservationLine>>,
    h: BundleHeader,
    i: int,
    t: Box<PtpTransactionRecord>,
)
    requires
        led_by(v, h),
        0 < i < v.len(),
        v[i] == Some(ObservationLine::PtpTransaction(t)),
    ensures
        ({
            let g = faults_at(v, i);
            let fine = t.response is Some && t.response->0.code@ == "0x2001"@;
            &&& g.contains(("O101"@, "ok PTP outcome requires response 0x2001"@)) <==> t.outcome
                == TransactionOutcome::Completed && !fine
            &&& g.contains(("O102"@, "nonOk PTP outcome requires a non-0x2001 response"@))
                <==> t.outcome == TransactionOutcome::NonOk && (t.response is None || fine)
            &&& g.contains(("O103"@, "timeout/transportAbort cannot carry a response"@)) <==> (
            t.outcome == TransactionOutcome::Timeout || t.outcome
                == TransactionOutcome::TransportAbort) && t.response is Some
            &&& g.contains(("O104"@, "incomplete PTP transaction is not accepted"@)) <==> t.outcome
                == TransactionOutcome::Incomplete
            &&& g.contains(
                (
                    "O110"@,
                    "evidenceBasis, observedEffect, and readback must be supplied together"@,
                ),
            ) <==> !((t.evidence_basis is Some && t.observed_effect is Some && t.readback is Some)
                || (t.evidence_basis is None && t.observed_effect is None && t.readback is None))
        }),
{
    broadcast use refused_has;

    codes_are_numbered();
    transaction_outcome(v, h, i, t, ("O101"@, "ok PTP outcome requires response 0x2001"@));
    transaction_outcome(v, h, i, t, ("O102"@, "nonOk PTP outcome requires a non-0x2001 response"@));
    transaction_outcome(v, h, i, t, ("O103"@, "timeout/transportAbort cannot carry a response"@));
    transaction_outcome(v, h, i, t, ("O104"@, "incomplete PTP transaction is not accepted"@));
    let x = ("O110"@, "evidenceBasis, observedEffect, and readback must be supplied together"@);
    let f = transaction_fault(v, h, i, t, x);
    let g = outcome_faults(*t, f);
    assert(!g.contains(x));
    if t.evidence_basis is Some && t.observed_effect is Some && t.readback is Some {
        claims_break(
            Some(t.outcome),
            t.evidence_basis->0,
            t.observed_effect->0,
            t.readback->0,
            g,
            x,
        );
    }
}

/// A fault of an outcome comes from the outcome.
proof fn transaction_outcome(
    v: Seq<Option<ObservationLine>>,
    h: BundleHeader,
    i: int,
    t: Box<PtpTransactionRecord>,
    x: FaultModel,
)
    requires
        led_by(v, h),
        0 < i < v.len(),
        v[i] == Some(ObservationLine::PtpTransaction(t)),
        101 <= number(x.0) <= 104,
    ensures
        ({
            let g = faults_at(v, i);
            let fine = t.response is Some && t.response->0.code@ == "0x2001"@;
            &&& x == ("O101"@, "ok PTP outcome requires response 0x2001"@) ==> (g.contains(x)
                <==> t.outcome == TransactionOutcome::Completed && !fine)
            &&& x == ("O102"@, "nonOk PTP outcome requires a non-0x2001 response"@) ==> (g.contains(
                x,
            ) <==> t.outcome == TransactionOutcome::NonOk && (t.response is None || fine))
            &&& x == ("O103"@, "timeout/transportAbort cannot carry a response"@) ==> (g.contains(x)
                <==> (t.outcome == TransactionOutcome::Timeout || t.outcome
                == TransactionOutcome::TransportAbort) && t.response is Some)
            &&& x == ("O104"@, "incomplete PTP transaction is not accepted"@) ==> (g.contains(x)
                <==> t.outcome == TransactionOutcome::Incomplete)
        }),
{
    broadcast use refused_has;

    codes_are_numbered();
    let f = transaction_fault(v, h, i, t, x);
    let g = outcome_faults(*t, f);
    if t.evidence_basis is Some && t.observed_effect is Some && t.readback is Some {
        claims_break(
            Some(t.outcome),
            t.evidence_basis->0,
            t.observed_effect->0,
            t.readback->0,
            g,
            x,
        );
    }
    assert(faults_at(v, i).contains(x) == g.contains(x));
}

/// A transaction that claims an effect is held to its readback and to its outcome: a confirmed
/// effect, one without effect and a clamped one need a completed transaction, a refused one a
/// transaction that was not.
pub proof fn transaction_claims_are_held_to_their_outcome(
    v: Seq<Option<ObservationLine>>,
    h: BundleHeader,
    i: int,
    t: Box<PtpTransactionRecord>,
    basis: ControlEvidenceBasis,
    effect: ControlObservedEffect,
    b: Readback,
)
    requires
        led_by(v, h),
        0 < i < v.len(),
        v[i] == Some(ObservationLine::PtpTransaction(t)),
        t.evidence_basis == Some(basis),
        t.observed_effect == Some(effect),
        t.readback == Some(b),
        basis != ControlEvidenceBasis::DescriptorOnly,
    ensures
        ({
            let g = faults_at(v, i);
            let done = t.outcome == TransactionOutcome::Completed;
            let matching = b is Observed && same_json(b->request@, b->observed@);
            let unchanged = b is Observed && same_json(b->observed@, b->baseline@) && !same_json(
                b->observed@,
                b->request@,
            );
            let clamped = b is Observed && !same_json(b->request@, b->observed@);
            &&& g.contains(("O112"@, "confirmed effect requires matching observed readback"@))
                <==> effect == ControlObservedEffect::Confirmed && !matching
            &&& g.contains(("O112"@, "confirmed effect requires an ok transaction"@)) <==> effect
                == ControlObservedEffect::Confirmed && matching && !done
            &&& g.contains(
                ("O113"@, "ackNoEffect requires observed baseline distinct from request"@),
            ) <==> effect == ControlObservedEffect::AckNoEffect && !unchanged
            &&& g.contains(("O113"@, "ackNoEffect requires an ok transaction"@)) <==> effect
                == ControlObservedEffect::AckNoEffect && unchanged && !done
            &&& g.contains(
                ("O114"@, "protocolRefused requires nonOk transaction and notObserved readback"@),
            ) <==> effect == ControlObservedEffect::ProtocolRefused && (b is Observed || t.outcome
                != TransactionOutcome::NonOk)
            &&& g.contains(
                ("O115"@, "destructiveClamp requires an observed value distinct from request"@),
            ) <==> effect == ControlObservedEffect::DestructiveClamp && !clamped
            &&& g.contains(("O115"@, "destructiveClamp requires an ok transaction"@)) <==> effect
                == ControlObservedEffect::DestructiveClamp && clamped && !done
            &&& g.contains(("O116"@, "unknown effect requires notObserved readback"@)) <==> effect
                == ControlObservedEffect::Unknown && b is Observed
        }),
{
    codes_are_numbered();
    transaction_claim(v, h, i, t, ("O112"@, "confirmed effect requires matching observed readback"@));
    transaction_claim(v, h, i, t, ("O112"@, "confirmed effect requires an ok transaction"@));
    transaction_claim(
        v,
        h,
        i,
        t,
        ("O113"@, "ackNoEffect requires observed baseline distinct from request"@),
    );
    transaction_claim(v, h, i, t, ("O113"@, "ackNoEffect requires an ok transaction"@));
    transaction_claim(
        v,
        h,
        i,
        t,
        ("O114"@, "protocolRefused requires nonOk transaction and notObserved readback"@),
    );
    transaction_claim(
        v,
        h,
        i,
        t,
        ("O115"@, "destructiveClamp requires an observed value distinct from request"@),
    );
    transaction_claim(v, h, i, t, ("O115"@, "destructiveClamp requires an ok transaction"@));
    transaction_claim(v, h, i, t, ("O116"@, "unknown effect requires notObserved readback"@));
}

/// A fault of a claim of a transaction comes from the claim.
proof fn transaction_claim(
    v: Seq<Option<ObservationLine>>,
    h: BundleHeader,
    i: int,
    t: Box<PtpTransactionRecord>,
    x: FaultModel,
)
    requires
        led_by(v, h),
        0 < i < v.len(),
        v[i] == Some(ObservationLine::PtpTransaction(t)),
        t.evidence_basis is Some && t.observed_effect is Some && t.readback is Some,
        111 <= number(x.0) <= 116,
    ensures
        claims_hold(
            Some(t.outcome),
            t.evidence_basis->0,
            t.observed_effect->0,
            t.readback->0,
            x,
            faults_at(v, i),
        ),
{
    broadcast use refused_has;

    codes_are_numbered();
    let f = transaction_fault(v, h, i, t, x);
    let g = outcome_faults(*t, f);
    assert(!g.contains(x));
    claims_break(Some(t.outcome), t.evidence_basis->0, t.observed_effect->0, t.readback->0, g, x);
}

/// The transaction of a run with an id ran where the last line that holds it says.
proof fn last_venue(
    lines: Seq<Option<ObservationLine>>,
    run: Seq<char>,
    id: Seq<char>,
    n: int,
    k: int,
)
    requires
        0 <= k < n <= lines.len(),
        is_transaction(lines[k], run, id),
        forall|j: int| k < j < n ==> !is_transaction(#[trigger] lines[j], run, id),
    ensures
        transaction_venue(lines, run, id, n) == Some(
            (
                lines[k]->0->PtpTransaction_0.connection_instance@,
                lines[k]->0->PtpTransaction_0.session@,
            ),
        ),
    decreases n,
{
    if k < n - 1 {
        assert(!is_transaction(lines[n - 1], run, id));
        last_venue(lines, run, id, n - 1, k);
    }
}

/// A run without the transaction says nothing of it.
proof fn no_venue(lines: Seq<Option<ObservationLine>>, run: Seq<char>, id: Seq<char>, n: int)
    requires
        0 <= n <= lines.len(),
        forall|j: int| 0 <= j < n ==> !is_transaction(#[trigger] lines[j], run, id),
    ensures
        transaction_venue(lines, run, id, n) is None,
    decreases n,
{
    if n > 0 {
        assert(!is_transaction(lines[n - 1], run, id));
        no_venue(lines, run, id, n - 1);
    }
}

/// Whether a line holds the transaction of a run with an id.
pub open spec fn is_transaction(
    line: Option<ObservationLine>,
    run: Seq<char>,
    id: Seq<char>,
) -> bool {
    line is Some && line->0 is PtpTransaction && line->0->PtpTransaction_0.common.run_id@ == run
        && line->0->PtpTransaction_0.common.record_id@ == id
}

/// An event that names a transaction is refused exactly where no line of the run holds it, or the one
/// that does ran over another connection or in another session. One that names none is not refused
/// for it.
pub proof fn events_are_linked_to_their_transaction(
    v: Seq<Option<ObservationLine>>,
    h: BundleHeader,
    i: int,
    e: PtpEventRecord,
    k: int,
)
    requires
        led_by(v, h),
        0 < i < v.len(),
        v[i] == Some(ObservationLine::PtpEvent(e)),
    ensures
        ({
            let g = faults_at(v, i);
            let dangling = ("O120"@, "PTP event has a dangling transactionRecordId"@);
            let crossing = ("O121"@, "PTP event transaction link crosses connection or session"@);
            &&& e.transaction_record_id is None ==> !g.contains(dangling) && !g.contains(crossing)
            &&& e.transaction_record_id is Some && (forall|j: int|
                0 <= j < v.len() ==> !is_transaction(
                    #[trigger] v[j],
                    h.run_id@,
                    e.transaction_record_id->0@,
                )) ==> g.contains(dangling) && !g.contains(crossing)
            &&& e.transaction_record_id is Some && 0 <= k < v.len() && is_transaction(
                v[k],
                h.run_id@,
                e.transaction_record_id->0@,
            ) && (forall|j: int|
                k < j < v.len() ==> !is_transaction(
                    #[trigger] v[j],
                    h.run_id@,
                    e.transaction_record_id->0@,
                )) ==> {
                let t = v[k]->0->PtpTransaction_0;
                &&& !g.contains(dangling)
                &&& g.contains(crossing) <==> t.connection_instance@ != e.connection_instance@
                    || t.session@ != e.session@
            }
        }),
{
    broadcast use refused_has;

    codes_are_numbered();
    let line = ObservationLine::PtpEvent(e);
    let a = h.capture.artifacts@;
    let dangling = ("O120"@, "PTP event has a dangling transactionRecordId"@);
    let crossing = ("O121"@, "PTP event transaction link crosses connection or session"@);
    let f = kind_decides(v, h, i, line, dangling);
    let g = kind_decides(v, h, i, line, crossing);
    payload_opt_keeps(e.payload, a, ptp_code_faults(e.event@, "event"@, f), dangling);
    payload_opt_keeps(e.payload, a, ptp_code_faults(e.event@, "event"@, g), crossing);
    if e.transaction_record_id is Some {
        let id = e.transaction_record_id->0@;
        if forall|j: int| 0 <= j < v.len() ==> !is_transaction(#[trigger] v[j], h.run_id@, id) {
            no_venue(v, h.run_id@, id, v.len() as int);
        }
        if 0 <= k < v.len() && is_transaction(v[k], h.run_id@, id) && (forall|j: int|
            k < j < v.len() ==> !is_transaction(#[trigger] v[j], h.run_id@, id)) {
            last_venue(v, h.run_id@, id, v.len() as int, k);
        }
    }
}

/// An HTTP exchange that completed needs a response, one that timed out or was aborted has none, and
/// an incomplete one is refused; so is an incomplete BLE record, and no other.
pub proof fn exchanges_are_held_to_their_outcome(
    v: Seq<Option<ObservationLine>>,
    h: BundleHeader,
    i: int,
    line: ObservationLine,
)
    requires
        led_by(v, h),
        0 < i < v.len(),
        v[i] == Some(line),
    ensures
        line is HttpExchange ==> ({
            let g = faults_at(v, i);
            let x = line->HttpExchange_0;
            &&& g.contains(("O130"@, "successful HTTP exchange requires a response"@)) <==> x.outcome
                == TransportOutcome::Completed && x.response is None
            &&& g.contains(("O131"@, "timeout/abort HTTP exchange cannot carry a response"@)) <==> (
            x.outcome == TransportOutcome::Timeout || x.outcome == TransportOutcome::Abort)
                && x.response is Some
            &&& g.contains(("O132"@, "incomplete HTTP exchange is not accepted"@)) <==> x.outcome
                == TransportOutcome::Incomplete
        }),
        line is BleGatt ==> (faults_at(v, i).contains(
            ("O100"@, "incomplete BLE record is not accepted"@),
        ) <==> line->BleGatt_0.outcome == TransportOutcome::Incomplete),
{
    broadcast use refused_has;

    codes_are_numbered();
    let a = h.capture.artifacts@;
    if line is HttpExchange {
        let x = line->HttpExchange_0;
        exchange_fault(v, h, i, x, ("O130"@, "successful HTTP exchange requires a response"@));
        exchange_fault(v, h, i, x, ("O131"@, "timeout/abort HTTP exchange cannot carry a response"@));
        exchange_fault(v, h, i, x, ("O132"@, "incomplete HTTP exchange is not accepted"@));
    }
    if line is BleGatt {
        let x = ("O100"@, "incomplete BLE record is not accepted"@);
        let f = kind_decides(v, h, i, line, x);
        payload_opt_keeps(line->BleGatt_0.payload, a, f, x);
    }
}

/// A fault of an exchange comes from its outcome.
proof fn exchange_fault(
    v: Seq<Option<ObservationLine>>,
    h: BundleHeader,
    i: int,
    r: HttpExchangeRecord,
    x: FaultModel,
)
    requires
        led_by(v, h),
        0 < i < v.len(),
        v[i] == Some(ObservationLine::HttpExchange(r)),
        130 <= number(x.0) <= 132,
    ensures
        ({
            let g = faults_at(v, i);
            &&& x == ("O130"@, "successful HTTP exchange requires a response"@) ==> (g.contains(x)
                <==> r.outcome == TransportOutcome::Completed && r.response is None)
            &&& x == ("O131"@, "timeout/abort HTTP exchange cannot carry a response"@) ==> (
            g.contains(x) <==> (r.outcome == TransportOutcome::Timeout || r.outcome
                == TransportOutcome::Abort) && r.response is Some)
            &&& x == ("O132"@, "incomplete HTTP exchange is not accepted"@) ==> (g.contains(x)
                <==> r.outcome == TransportOutcome::Incomplete)
        }),
{
    broadcast use refused_has;

    codes_are_numbered();
    let a = h.capture.artifacts@;
    let f = kind_decides(v, h, i, ObservationLine::HttpExchange(r), x);
    payload_opt_keeps(r.request.body, a, f, x);
    let f1 = payload_opt_faults(r.request.body, a, f);
    if r.response is Some {
        payload_opt_keeps(r.response->0.body, a, f1, x);
    }
}

/// What is peculiar to the kind of a record adds no fault of its place in the bundle.
proof fn kind_keeps(
    line: ObservationLine,
    artifacts: Seq<ArtifactMetadata>,
    lines: Seq<Option<ObservationLine>>,
    run: Seq<char>,
    f: Seq<FaultModel>,
    x: FaultModel,
)
    requires
        0 <= number(x.0) < 50,
    ensures
        kind_faults(line, artifacts, lines, run, f).contains(x) == f.contains(x),
{
    broadcast use refused_has;

    codes_are_numbered();
    match line {
        ObservationLine::BleGatt(r) => {
            payload_opt_keeps(r.payload, artifacts, f, x);
        },
        ObservationLine::PtpTransaction(t) => {
            phases_keep(*t, artifacts, f, x);
            let g = outcome_faults(*t, phase_faults(*t, artifacts, f));
            if t.evidence_basis is Some && t.observed_effect is Some && t.readback is Some {
                claims_break(
                    Some(t.outcome),
                    t.evidence_basis->0,
                    t.observed_effect->0,
                    t.readback->0,
                    g,
                    x,
                );
            }
        },
        ObservationLine::PtpEvent(e) => {
            payload_opt_keeps(e.payload, artifacts, ptp_code_faults(e.event@, "event"@, f), x);
        },
        ObservationLine::HttpExchange(r) => {
            payload_opt_keeps(r.request.body, artifacts, f, x);
            let f1 = payload_opt_faults(r.request.body, artifacts, f);
            if r.response is Some {
                payload_opt_keeps(r.response->0.body, artifacts, f1, x);
            }
        },
        ObservationLine::Capability(r) => {
            let g = match r.subject {
                CapabilitySubject::Identity { .. } => f,
                CapabilitySubject::Operation { code, .. } => ptp_code_faults(
                    code@,
                    "capability code"@,
                    f,
                ),
                CapabilitySubject::Property { code, .. } => ptp_code_faults(
                    code@,
                    "capability code"@,
                    f,
                ),
            };
            claims_break(None, r.evidence_basis, r.observed_effect, r.readback, g, x);
        },
        _ => {},
    }
}

/// Whether a header declares a clock.
pub open spec fn declares_clock(h: BundleHeader, id: Seq<char>) -> bool {
    exists|i: int| 0 <= i < h.capture.clocks@.len() && (#[trigger] h.capture.clocks@[i]).id@ == id
}

/// Whether a header declares how two clocks relate, in one direction or the other.
pub open spec fn relates_clocks(h: BundleHeader, a: Seq<char>, b: Seq<char>) -> bool {
    exists|i: int|
        0 <= i < h.capture.clock_mappings@.len() && {
            let m = #[trigger] h.capture.clock_mappings@[i];
            (m.from@ == a && m.to@ == b) || (m.from@ == b && m.to@ == a)
        }
}

/// The readback of a record, where it was observed.
pub open spec fn observed_readback(line: ObservationLine) -> Option<Readback> {
    if line is Capability && line->Capability_0.readback is Observed {
        Some(line->Capability_0.readback)
    } else if line is PtpTransaction && line->PtpTransaction_0.readback is Some
        && line->PtpTransaction_0.readback->0 is Observed {
        line->PtpTransaction_0.readback
    } else {
        None
    }
}

/// Where a record stands in its bundle: it has the schema of observations, is of the header's run,
/// and its ordinal is positive; no other line of the run has its id or its ordinal.
pub proof fn records_are_held_to_their_bundle(
    v: Seq<Option<ObservationLine>>,
    h: BundleHeader,
    i: int,
    line: ObservationLine,
)
    requires
        led_by(v, h),
        0 < i < v.len(),
        v[i] == Some(line),
    ensures
        ({
            let g = faults_at(v, i);
            let c = line_common(line)->0;
            &&& g.contains(("O002"@, "record schema discriminator is not canonical"@))
                <==> c.schema@ != "camera-observation/v1"@
            &&& g.contains(("O014"@, "record runId does not match its bundle header"@))
                <==> c.run_id@ != h.run_id@
            &&& g.contains(("O023"@, "non-header ordinal must be positive"@)) <==> c.ordinal == 0
            &&& g.contains(("O020"@, "duplicate recordId within run"@)) <==> c.run_id@ == h.run_id@
                && exists|j: int|
                0 <= j < v.len() && j != i && #[trigger] v[j] is Some && line_run(v[j]->0)
                    == h.run_id@ && line_record(v[j]->0) == c.record_id@
            &&& g.contains(("O021"@, "duplicate ordinal within run"@)) <==> c.run_id@ == h.run_id@
                && exists|j: int|
                0 <= j < v.len() && j != i && #[trigger] v[j] is Some && line_run(v[j]->0)
                    == h.run_id@ && line_ordinal(v[j]->0) == c.ordinal
        }),
{
    placed(v, h, i, line, ("O002"@, "record schema discriminator is not canonical"@));
    placed(v, h, i, line, ("O014"@, "record runId does not match its bundle header"@));
    placed(v, h, i, line, ("O023"@, "non-header ordinal must be positive"@));
    placed(v, h, i, line, ("O020"@, "duplicate recordId within run"@));
    placed(v, h, i, line, ("O021"@, "duplicate ordinal within run"@));
    codes_are_numbered();
    let c = line_common(line)->0;
    let ids = id_keys(v, h.run_id@);
    let ordinals = ordinal_keys(v, h.run_id@);
    if repeats(ids, i) {
        let j = choose|j: int| 0 <= j < ids.len() && j != i && #[trigger] ids[j] == ids[i];
        assert(v[j] is Some);
    }
    if c.run_id@ == h.run_id@ && exists|j: int|
        0 <= j < v.len() && j != i && #[trigger] v[j] is Some && line_run(v[j]->0) == h.run_id@
            && line_record(v[j]->0) == c.record_id@ {
        let j = choose|j: int|
            0 <= j < v.len() && j != i && #[trigger] v[j] is Some && line_run(v[j]->0) == h.run_id@
                && line_record(v[j]->0) == c.record_id@;
        assert(ids[j] == ids[i]);
    }
    if repeats(ordinals, i) {
        let j = choose|j: int|
            0 <= j < ordinals.len() && j != i && #[trigger] ordinals[j] == ordinals[i];
        assert(v[j] is Some);
    }
    if c.run_id@ == h.run_id@ && exists|j: int|
        0 <= j < v.len() && j != i && #[trigger] v[j] is Some && line_run(v[j]->0) == h.run_id@
            && line_ordinal(v[j]->0) == c.ordinal {
        let j = choose|j: int|
            0 <= j < v.len() && j != i && #[trigger] v[j] is Some && line_run(v[j]->0) == h.run_id@
                && line_ordinal(v[j]->0) == c.ordinal;
        assert(ordinals[j] == ordinals[i]);
    }
}

/// A record must be timed by a clock that the header declares, and so must its readback; the two may
/// differ only where the header declares how they relate.
pub proof fn records_are_timed_by_declared_clocks(
    v: Seq<Option<ObservationLine>>,
    h: BundleHeader,
    i: int,
    line: ObservationLine,
)
    requires
        led_by(v, h),
        0 < i < v.len(),
        v[i] == Some(line),
    ensures
        ({
            let g = faults_at(v, i);
            let c = line_common(line)->0;
            let b = observed_readback(line);
            &&& g.contains(("O030"@, "unknown clock "@ + text_debug(c.time.clock@)))
                <==> !declares_clock(h, c.time.clock@)
            &&& b is Some ==> (g.contains(
                ("O031"@, "readback uses unknown clock "@ + text_debug(b->0->observed_at.clock@)),
            ) <==> !declares_clock(h, b->0->observed_at.clock@))
            &&& g.contains(
                ("O032"@, "readback clock differs from record clock without a declared mapping"@),
            ) <==> b is Some && declares_clock(h, b->0->observed_at.clock@)
                && b->0->observed_at.clock@ != c.time.clock@ && !relates_clocks(
                h,
                c.time.clock@,
                b->0->observed_at.clock@,
            )
        }),
{
    let c = line_common(line)->0;
    placed(v, h, i, line, ("O030"@, "unknown clock "@ + text_debug(c.time.clock@)));
    placed(
        v,
        h,
        i,
        line,
        ("O032"@, "readback clock differs from record clock without a declared mapping"@),
    );
    let b = observed_readback(line);
    if b is Some {
        placed(
            v,
            h,
            i,
            line,
            ("O031"@, "readback uses unknown clock "@ + text_debug(b->0->observed_at.clock@)),
        );
    }
    clocks_found(h, c.time.clock@);
    if b is Some {
        clocks_found(h, b->0->observed_at.clock@);
        let (p, q) = (c.time.clock@, b->0->observed_at.clock@);
        let m = h.capture.clock_mappings@;
        if relates_clocks(h, p, q) {
            let k = choose|k: int|
                0 <= k < m.len() && {
                    let x = #[trigger] m[k];
                    (x.from@ == p && x.to@ == q) || (x.from@ == q && x.to@ == p)
                };
            assert(crate::generate::records::links(m[k], p, q));
        }
        if crate::generate::records::has_mapping(m, p, q) {
            let k = choose|k: int|
                0 <= k < m.len() && crate::generate::records::links((#[trigger] m[k]), p, q);
            assert(m[k].from@ == p || m[k].from@ == q);
        }
    }
    codes_are_numbered();
}

/// A clock is declared where one of the clocks has its id.
proof fn clocks_found(h: BundleHeader, id: Seq<char>)
    ensures
        has_clock(h.capture.clocks@, id, h.capture.clocks@.len() as int) == declares_clock(h, id),
{
}

/// A fault of the place of a record in its bundle comes from its place.
proof fn placed(
    v: Seq<Option<ObservationLine>>,
    h: BundleHeader,
    i: int,
    line: ObservationLine,
    x: FaultModel,
)
    requires
        led_by(v, h),
        0 < i < v.len(),
        v[i] == Some(line),
    ensures
        0 <= number(x.0) < 50 ==> ({
            let g = faults_at(v, i);
            let c = line_common(line)->0;
            let n = h.capture.clocks@.len() as int;
            let b = observed_readback(line);
            g.contains(x) == {
                ||| repeats(id_keys(v, h.run_id@), i) && x == (
                    "O020"@,
                    "duplicate recordId within run"@,
                )
                ||| repeats(ordinal_keys(v, h.run_id@), i) && x == (
                    "O021"@,
                    "duplicate ordinal within run"@,
                )
                ||| repeats(correlation_keys(v, h.run_id@), i) && x == (
                    "O022"@,
                    "duplicate PTP transaction correlation identity"@,
                )
                ||| c.schema@ != OBSERVATION_SCHEMA_VERSION@ && x == (
                    "O002"@,
                    "record schema discriminator is not canonical"@,
                )
                ||| c.run_id@ != h.run_id@ && x == (
                    "O014"@,
                    "record runId does not match its bundle header"@,
                )
                ||| c.ordinal == 0 && x == ("O023"@, "non-header ordinal must be positive"@)
                ||| !has_clock(h.capture.clocks@, c.time.clock@, n) && x == (
                    "O030"@,
                    "unknown clock "@ + text_debug(c.time.clock@),
                )
                ||| b is Some && !has_clock(h.capture.clocks@, b->0->observed_at.clock@, n) && x
                    == (
                    "O031"@,
                    "readback uses unknown clock "@ + text_debug(b->0->observed_at.clock@),
                )
                ||| b is Some && has_clock(h.capture.clocks@, b->0->observed_at.clock@, n)
                    && b->0->observed_at.clock@ != c.time.clock@
                    && !crate::generate::records::has_mapping(
                    h.capture.clock_mappings@,
                    c.time.clock@,
                    b->0->observed_at.clock@,
                ) && x == (
                    "O032"@,
                    "readback clock differs from record clock without a declared mapping"@,
                )
            }
        }),
{
    broadcast use refused_has;

    led_header(v, h);
    codes_are_numbered();
    if 0 <= number(x.0) < 50 {
        let e = Seq::<FaultModel>::empty();
        let g = repeat_faults(v, h.run_id@, i, leading_faults(v, 0, i, e));
        let common = line_common(line)->0;
        let clocks = h.capture.clocks@;
        let f1 = refused(
            g,
            line_schema(line) != OBSERVATION_SCHEMA_VERSION@,
            "O002"@,
            "record schema discriminator is not canonical"@,
        );
        let f2 = refused(
            f1,
            line_run(line) != h.run_id@,
            "O014"@,
            "record runId does not match its bundle header"@,
        );
        let f3 = identifier_faults(line_record(line), "recordId"@, f2);
        let f4 = refused(
            f3,
            line !is BundleHeader && line_ordinal(line) == 0,
            "O023"@,
            "non-header ordinal must be positive"@,
        );
        let f5 = refused(
            f4,
            !has_clock(clocks, common.time.clock@, clocks.len() as int),
            "O030"@,
            "unknown clock "@ + text_debug(common.time.clock@),
        );
        let f6 = context_faults(common.context, f5);
        ranges_keep(common.artifact_ranges@, h.capture.artifacts@, f6, 0, x);
        let f7 = ranges_faults(common.artifact_ranges@, h.capture.artifacts@, f6, 0);
        kind_keeps(line, h.capture.artifacts@, v, h.run_id@, f7, x);
        assert(f6.contains(x) == f5.contains(x));
        assert(!e.contains(x));
    }
}

} // verus!
