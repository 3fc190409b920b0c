//! What a recorder records, and what it refuses.

use crate::digest::sha256_text;
use crate::observation::{
    line_ordinal, line_run, line_schema, BundleHeader, Confidence, EpistemicClass, ExecutionContext,
    ObservationCommon, ObservationLine, PayloadMetadata,
};
use crate::recorder::{
    append_violation, bundle_violation, describes, is_next_common, is_range, line_violation,
    open_violation, opens, Alike,
};
use crate::text::{digits_of, zero_padded};
use vstd::prelude::*;

verus! {

/// The metadata of a payload give its length and digest. A payload of up to 4096 bytes is held as
/// it is, a longer one by the digests of its ranges of 65536 bytes, one behind the other, of which
/// the last may be shorter; together they are the payload.
pub proof fn payloads_are_held_or_digested(m: PayloadMetadata, bytes: Seq<u8>, k: int)
    requires
        describes(m, bytes),
    ensures
        m.length == bytes.len(),
        m.sha256@ == sha256_text(bytes),
        m.ranges@.len() == 0,
        bytes.len() <= 4096 ==> m.inline_hex is Some && m.inline_hex->0@.len() == 2 * bytes.len()
            && m.stream_ranges@.len() == 0,
        bytes.len() > 4096 ==> m.inline_hex is None && (m.stream_ranges@.len() - 1) * 65536
            < bytes.len() <= m.stream_ranges@.len() * 65536,
        0 <= k < m.stream_ranges@.len() ==> {
            let r = m.stream_ranges@[k];
            &&& r.offset == 65536 * k
            &&& k < m.stream_ranges@.len() - 1 ==> r.length == 65536
            &&& k == m.stream_ranges@.len() - 1 ==> r.offset + r.length == bytes.len()
            &&& r.sha256@ == sha256_text(bytes.subrange(r.offset as int, r.offset + r.length))
        },
{
    if bytes.len() <= 4096 {
        crate::recorder::hex_reads_back(bytes);
        hex_is_twice_as_long(bytes);
    } else {
        let n = m.stream_ranges@.len() as int;
        assert(n == (bytes.len() + 0xffff) / 0x1_0000);
        assert((n - 1) * 65536 < bytes.len() <= n * 65536);
        if 0 <= k < n {
            assert(is_range(m.stream_ranges@[k], bytes, k));
            assert(k < n - 1 ==> (k + 1) * 65536 <= (n - 1) * 65536);
        }
    }
}

/// Bytes are written by two digits each.
proof fn hex_is_twice_as_long(bytes: Seq<u8>)
    ensures
        crate::digest::hex_of(bytes).len() == 2 * bytes.len(),
    decreases bytes.len(),
{
    if bytes.len() > 0 {
        hex_is_twice_as_long(bytes.drop_last());
    }
}

/// A header opens a bundle where it names the schema, the run and itself, and is the first record.
pub proof fn headers_open_bundles(h: BundleHeader)
    ensures
        opens(h) <==> {
            &&& h.schema@ == "camera-observation/v1"@
            &&& h.ordinal == 0
            &&& h.run_id@.len() > 0
            &&& h.record_id@.len() > 0
        },
        open_violation(h, None) is None <==> opens(h),
{
}

/// A bundle is gone on with where it begins with the same header, and its lines are those of the
/// run, each with its place as its ordinal.
pub proof fn bundles_are_gone_on_with(v: Seq<ObservationLine>, h: BundleHeader)
    ensures
        bundle_violation(v, h) is None <==> {
            &&& v.len() > 0
            &&& v[0] matches ObservationLine::BundleHeader(g) && g.alike(&h)
            &&& forall|i: int|
                0 <= i < v.len() ==> line_schema(#[trigger] v[i]) == "camera-observation/v1"@
                    && line_run(v[i]) == h.run_id@ && line_ordinal(v[i]) == i
        },
{
    lines_checked(v, h.run_id@, 0);
}

/// All lines are checked.
proof fn lines_checked(v: Seq<ObservationLine>, run: Seq<char>, i: int)
    requires
        0 <= i,
    ensures
        line_violation(v, run, i) is None <==> forall|k: int|
            i <= k < v.len() ==> line_schema(#[trigger] v[k]) == "camera-observation/v1"@
                && line_run(v[k]) == run && line_ordinal(v[k]) == k,
    decreases v.len() - i,
{
    if i < v.len() {
        lines_checked(v, run, i + 1);
        assert(line_schema(v[i]) == line_schema(v[i]));
    }
}

/// A line is appended where it is of the schema and the run, and its ordinal is the next.
pub proof fn the_next_line_is_appended(l: ObservationLine, run: Seq<char>, n: nat)
    ensures
        append_violation(l, run, n) is None <==> {
            &&& line_schema(l) == "camera-observation/v1"@
            &&& line_run(l) == run
            &&& line_ordinal(l) == n
            &&& n < usize::MAX
        },
{
}

/// A record is made of what is known of it: the run, the ordinal, where it stands and when, as a
/// direct and exact observation.
pub proof fn records_say_where_and_when(
    c: ObservationCommon,
    run: Seq<char>,
    ordinal: u64,
    context: ExecutionContext,
    elapsed_ms: u64,
)
    requires
        is_next_common(c, run, ordinal, context, elapsed_ms),
    ensures
        c.schema@ == "camera-observation/v1"@,
        c.run_id@ == run,
        c.ordinal == ordinal,
        c.context == context,
        c.time.clock@ == "process-monotonic"@,
        c.time.value == elapsed_ms,
        c.epistemic.class == EpistemicClass::DirectObservation,
        c.epistemic.confidence == Confidence::Exact,
        c.epistemic.alternatives@.len() == 0,
        c.epistemic.unknowns@.len() == 0,
        c.epistemic.falsifier is None,
        c.artifact_ranges@.len() == 0,
        c.record_id@ == "record-"@ + zero_padded(digits_of(ordinal as nat, 16), 16),
{
}

/// Headers are the same where they say the same of the run, the camera, the client, the capture and
/// what is known.
pub proof fn same_headers_say_the_same(a: BundleHeader, b: BundleHeader, k: int)
    requires
        a.alike(&b),
    ensures
        a.schema@ == b.schema@,
        a.run_id@ == b.run_id@,
        a.record_id@ == b.record_id@,
        a.ordinal == b.ordinal,
        a.camera.manufacturer@ == b.camera.manufacturer@,
        a.camera.model@ == b.camera.model@,
        a.camera.body_id@ == b.camera.body_id@,
        a.camera.firmware@ == b.camera.firmware@,
        a.client.artifact@ == b.client.artifact@,
        a.client.version@ == b.client.version@,
        a.client.platform@ == b.client.platform@,
        a.capture.loss == b.capture.loss,
        a.capture.interfaces@.len() == b.capture.interfaces@.len(),
        a.capture.clocks@.len() == b.capture.clocks@.len(),
        a.capture.clock_mappings@.len() == b.capture.clock_mappings@.len(),
        a.capture.redactions@.len() == b.capture.redactions@.len(),
        a.capture.artifacts@.len() == b.capture.artifacts@.len(),
        0 <= k < a.capture.interfaces@.len() ==> a.capture.interfaces@[k].id@
            == b.capture.interfaces@[k].id@ && a.capture.interfaces@[k].interface_type
            == b.capture.interfaces@[k].interface_type && a.capture.interfaces@[k].role@
            == b.capture.interfaces@[k].role@,
        0 <= k < a.capture.clocks@.len() ==> a.capture.clocks@[k].id@ == b.capture.clocks@[k].id@
            && a.capture.clocks@[k].clock_type == b.capture.clocks@[k].clock_type
            && a.capture.clocks@[k].unit == b.capture.clocks@[k].unit,
        0 <= k < a.capture.clock_mappings@.len() ==> a.capture.clock_mappings@[k].from@
            == b.capture.clock_mappings@[k].from@ && a.capture.clock_mappings@[k].to@
            == b.capture.clock_mappings@[k].to@ && a.capture.clock_mappings@[k].offset
            == b.capture.clock_mappings@[k].offset && a.capture.clock_mappings@[k].uncertainty
            == b.capture.clock_mappings@[k].uncertainty,
        0 <= k < a.capture.redactions@.len() ==> a.capture.redactions@[k].field@
            == b.capture.redactions@[k].field@ && a.capture.redactions@[k].method
            == b.capture.redactions@[k].method,
        0 <= k < a.capture.artifacts@.len() ==> a.capture.artifacts@[k].id@
            == b.capture.artifacts@[k].id@ && a.capture.artifacts@[k].length
            == b.capture.artifacts@[k].length && a.capture.artifacts@[k].sha256@
            == b.capture.artifacts@[k].sha256@ && a.capture.artifacts@[k].media_type@
            == b.capture.artifacts@[k].media_type@,
        a.epistemic.class == b.epistemic.class,
        a.epistemic.confidence == b.epistemic.confidence,
{
    if 0 <= k < a.capture.interfaces@.len() {
        assert(a.capture.interfaces@[k].alike(&b.capture.interfaces@[k]));
    }
    if 0 <= k < a.capture.clocks@.len() {
        assert(a.capture.clocks@[k].alike(&b.capture.clocks@[k]));
    }
    if 0 <= k < a.capture.clock_mappings@.len() {
        assert(a.capture.clock_mappings@[k].alike(&b.capture.clock_mappings@[k]));
    }
    if 0 <= k < a.capture.redactions@.len() {
        assert(a.capture.redactions@[k].alike(&b.capture.redactions@[k]));
    }
    if 0 <= k < a.capture.artifacts@.len() {
        assert(a.capture.artifacts@[k].alike(&b.capture.artifacts@[k]));
    }
}

} // verus!
