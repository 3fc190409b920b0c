//! What the fields, the payload and the header of a record must be.

use crate::digest::sha256_text;
use crate::generate::bundle::{leading_faults, repeat_faults, value_faults};
use crate::generate::faults::{
    codes_are_numbered, faults_at, led_by, led_header, number, refused_has,
};
use crate::generate::fields::{
    artifact_length, context_faults, identifier_faults, is_identifier, is_ptp_code, is_sanitized,
    is_sha256, payload_faults, payload_opt_faults, ptp_code_faults, range_faults, ranges_faults,
    refused, sha256_faults, stream_faults, total_length, FaultModel,
};
use crate::generate::records::{
    artifact_faults, capture_faults, clock_faults, has_artifact, has_clock, has_interface,
    header_faults, interface_faults, kind_faults, mapping_faults, name_faults, phase_faults,
};
use crate::observation::{
    line_common, line_ordinal, line_record, line_run, line_schema, ArtifactMetadata, ArtifactRange,
    BundleHeader, CaptureClock, CaptureContext, CaptureInterface, ObservationLine, PayloadMetadata,
    PayloadRange, OBSERVATION_SCHEMA_VERSION,
};
use crate::text::{text_debug, trimmed};
use vstd::prelude::*;

verus! {

/// A stable identifier has one to 160 characters: ASCII letters and digits, and `. _ : - @`.
pub proof fn identifiers_are_stable(s: Seq<char>)
    ensures
        is_identifier(s) <==> 1 <= s.len() <= 160 && forall|i: int|
            0 <= i < s.len() ==> {
                ||| 'a' <= #[trigger] s[i] <= 'z'
                ||| 'A' <= s[i] <= 'Z'
                ||| '0' <= s[i] <= '9'
                ||| s[i] == '.'
                ||| s[i] == '_'
                ||| s[i] == ':'
                ||| s[i] == '-'
                ||| s[i] == '@'
            },
{
}

/// A PTP code is `0x` and four hexadecimal digits in lower case.
pub proof fn ptp_codes_have_four_digits(s: Seq<char>)
    ensures
        is_ptp_code(s) <==> s.len() == 6 && s[0] == '0' && s[1] == 'x' && forall|i: int|
            2 <= i < 6 ==> '0' <= #[trigger] s[i] <= '9' || 'a' <= s[i] <= 'f',
{
    reveal_strlit("0x");
    if is_ptp_code(s) {
        assert(s.take(2)[0] == '0' && s.take(2)[1] == 'x');
    }
    if s.len() == 6 && s[0] == '0' && s[1] == 'x' {
        assert(s.take(2) == "0x"@);
    }
}

/// A digest is 64 hexadecimal digits in lower case.
pub proof fn digests_have_sixty_four_digits(s: Seq<char>)
    ensures
        is_sha256(s) <==> s.len() == 64 && forall|i: int|
            0 <= i < 64 ==> '0' <= #[trigger] s[i] <= '9' || 'a' <= s[i] <= 'f',
{
}

/// A free text is not blank, holds no line break and no backslash, does not begin with a slash, and
/// nowhere holds a tilde before a slash.
pub proof fn free_texts_hold_no_host_path(s: Seq<char>)
    ensures
        is_sanitized(s) <==> {
            &&& trimmed(s).len() > 0
            &&& forall|i: int|
                0 <= i < s.len() ==> #[trigger] s[i] != '\n' && s[i] != '\r' && s[i] != '\\'
            &&& s[0] != '/'
            &&& !(exists|i: int| 0 <= i && i + 1 < s.len() && #[trigger] s[i] == '~' && s[i + 1] == '/')
        },
{
    if s.contains('\n') {
        let i = s.index_of('\n');
        assert(s[i] == '\n');
    }
    if s.contains('\r') {
        let i = s.index_of('\r');
        assert(s[i] == '\r');
    }
    if s.contains('\\') {
        let i = s.index_of('\\');
        assert(s[i] == '\\');
    }
}

/// The faults of ranges are added to what is there.
proof fn ranges_add(
    ranges: Seq<ArtifactRange>,
    artifacts: Seq<ArtifactMetadata>,
    f: Seq<FaultModel>,
    i: int,
    x: FaultModel,
)
    requires
        0 <= i,
    ensures
        ranges_faults(ranges, artifacts, f, i).contains(x) <==> f.contains(x) || exists|k: int|
            i <= k < ranges.len() && range_faults(
                #[trigger] ranges[k],
                artifacts,
                Seq::empty(),
            ).contains(x),
    decreases ranges.len() - i,
{
    broadcast use refused_has;

    if i < ranges.len() {
        let g = range_faults(ranges[i], artifacts, f);
        ranges_add(ranges, artifacts, g, i + 1, x);
        assert(!Seq::<FaultModel>::empty().contains(x));
        assert(g.contains(x) <==> f.contains(x) || range_faults(
            ranges[i],
            artifacts,
            Seq::empty(),
        ).contains(x));
        let all = ranges_faults(ranges, artifacts, f, i);
        if exists|k: int|
            i <= k < ranges.len() && range_faults(
                #[trigger] ranges[k],
                artifacts,
                Seq::empty(),
            ).contains(x) {
            let k = choose|k: int|
                i <= k < ranges.len() && range_faults(
                    #[trigger] ranges[k],
                    artifacts,
                    Seq::empty(),
                ).contains(x);
            if k > i {
                assert(range_faults(ranges[k], artifacts, Seq::empty()).contains(x));
            }
        }
        if all.contains(x) && !f.contains(x) {
            if !range_faults(ranges[i], artifacts, Seq::empty()).contains(x) {
                let k = choose|k: int|
                    i + 1 <= k < ranges.len() && range_faults(
                        #[trigger] ranges[k],
                        artifacts,
                        Seq::empty(),
                    ).contains(x);
                assert(range_faults(ranges[k], artifacts, Seq::empty()).contains(x));
            }
        }
    }
}

/// The length of an artifact is that of the last with its id.
proof fn last_artifact(v: Seq<ArtifactMetadata>, id: Seq<char>, n: int, k: int)
    requires
        0 <= k < n <= v.len(),
        v[k].id@ == id,
        forall|j: int| k < j < n ==> (#[trigger] v[j]).id@ != id,
    ensures
        artifact_length(v, id, n) == Some(v[k].length),
    decreases n,
{
    if k < n - 1 {
        assert(v[n - 1].id@ != id);
        last_artifact(v, id, n - 1, k);
    }
}

/// Without an artifact there is no length.
proof fn no_artifact(v: Seq<ArtifactMetadata>, id: Seq<char>, n: int)
    requires
        0 <= n <= v.len(),
        forall|j: int| 0 <= j < n ==> (#[trigger] v[j]).id@ != id,
    ensures
        artifact_length(v, id, n) is None,
    decreases n,
{
    if n > 0 {
        assert(v[n - 1].id@ != id);
        no_artifact(v, id, n - 1);
    }
}

/// A range must be of a declared artifact, must not be empty, and must end within it.
pub proof fn ranges_lie_in_their_artifact(
    r: ArtifactRange,
    v: Seq<ArtifactMetadata>,
    k: int,
)
    ensures
        ({
            let g = range_faults(r, v, Seq::empty());
            let outside = ("O071"@, "artifact range is empty, overflowing, or out of bounds"@);
            &&& (forall|j: int| 0 <= j < v.len() ==> (#[trigger] v[j]).id@ != r.artifact@)
                ==> g.contains(("O070"@, "unknown artifact "@ + text_debug(r.artifact@)))
            &&& 0 <= k < v.len() && v[k].id@ == r.artifact@ && (forall|j: int|
                k < j < v.len() ==> (#[trigger] v[j]).id@ != r.artifact@) ==> {
                &&& g.contains(outside) <==> r.length == 0 || r.offset + r.length > v[k].length
                &&& forall|x: FaultModel| #[trigger] g.contains(x) ==> x == outside
            }
        }),
{
    broadcast use refused_has;

    let e = Seq::<FaultModel>::empty();
    assert forall|x: FaultModel| !#[trigger] e.contains(x) by {}
    if forall|j: int| 0 <= j < v.len() ==> (#[trigger] v[j]).id@ != r.artifact@ {
        no_artifact(v, r.artifact@, v.len() as int);
        let x = ("O070"@, "unknown artifact "@ + text_debug(r.artifact@));
        assert(refused(e, true, x.0, x.1).contains(x));
    }
    if 0 <= k < v.len() && v[k].id@ == r.artifact@ && (forall|j: int|
        k < j < v.len() ==> (#[trigger] v[j]).id@ != r.artifact@) {
        last_artifact(v, r.artifact@, v.len() as int, k);
    }
}

/// Whether stream ranges from `i` on follow one another from an offset, none of them empty.
pub open spec fn contiguous(v: Seq<PayloadRange>, i: int, offset: int) -> bool
    decreases v.len() - i,
{
    if i < 0 || i >= v.len() {
        true
    } else {
        v[i].offset == offset && v[i].length > 0 && v[i].offset + v[i].length <= u64::MAX
            && contiguous(v, i + 1, v[i].offset + v[i].length)
    }
}

/// Whether a fault is of a stream whose ranges do not follow one another.
pub open spec fn of_a_broken_stream(x: FaultModel) -> bool {
    x == ("O086"@, "stream ranges must be nonempty, contiguous, and start at zero"@) || x == (
        "O087"@,
        "stream range offset overflows"@,
    )
}

/// Ranges of a stream have a fault of the stream exactly where they do not follow one another; and
/// where they do, the stream ends where the last of them does.
proof fn streams_follow(v: Seq<PayloadRange>, offset: u64, f: Seq<FaultModel>, i: int)
    requires
        0 <= i,
        forall|x: FaultModel| of_a_broken_stream(x) ==> !#[trigger] f.contains(x),
    ensures
        ({
            let g = stream_faults(v, offset, f, i);
            &&& (exists|x: FaultModel| of_a_broken_stream(x) && #[trigger] g.0.contains(x))
                <==> !contiguous(v, i, offset as int)
            &&& contiguous(v, i, offset as int) && i < v.len() ==> g.1 == v.last().offset
                + v.last().length
            &&& contiguous(v, i, offset as int) && i >= v.len() ==> g.1 == offset
        }),
    decreases v.len() - i,
{
    broadcast use refused_has;

    codes_are_numbered();
    if i < v.len() {
        let range = v[i];
        let a = ("O086"@, "stream ranges must be nonempty, contiguous, and start at zero"@);
        let b = ("O087"@, "stream range offset overflows"@);
        let checked = refused(
            sha256_faults(range.sha256@, f),
            range.length == 0 || range.offset != offset,
            a.0,
            a.1,
        );
        let over = range.offset + range.length > u64::MAX;
        let g = if over {
            refused(checked, true, b.0, b.1)
        } else {
            checked
        };
        let next = if over {
            offset
        } else {
            (range.offset + range.length) as u64
        };
        let all = stream_faults(v, offset, f, i);
        assert(all == stream_faults(v, next, g, i + 1));
        assert(g.contains(a) <==> range.length == 0 || range.offset != offset) by {
            assert(!f.contains(a));
        }
        assert(g.contains(b) <==> over) by {
            assert(!f.contains(b));
        }
        if g.contains(a) || g.contains(b) {
            stream_keeps_all(v, next, g, i + 1, a);
            stream_keeps_all(v, next, g, i + 1, b);
            assert(all.0.contains(a) || all.0.contains(b));
            assert(of_a_broken_stream(a) && of_a_broken_stream(b));
        } else {
            assert forall|x: FaultModel| of_a_broken_stream(x) implies !#[trigger] g.contains(x) by {}
            streams_follow(v, next, g, i + 1);
        }
    } else {
        assert(stream_faults(v, offset, f, i).0 == f);
    }
}

/// The ranges of a stream drop no fault.
proof fn stream_keeps_all(v: Seq<PayloadRange>, offset: u64, f: Seq<FaultModel>, i: int, x: FaultModel)
    ensures
        f.contains(x) ==> stream_faults(v, offset, f, i).0.contains(x),
    decreases v.len() - i,
{
    broadcast use refused_has;

    if 0 <= i < v.len() {
        let range = v[i];
        let checked = refused(
            sha256_faults(range.sha256@, f),
            range.length == 0 || range.offset != offset,
            "O086"@,
            "stream ranges must be nonempty, contiguous, and start at zero"@,
        );
        if range.offset + range.length > u64::MAX {
            stream_keeps_all(
                v,
                offset,
                refused(checked, true, "O087"@, "stream range offset overflows"@),
                i + 1,
                x,
            );
        } else {
            stream_keeps_all(v, (range.offset + range.length) as u64, checked, i + 1, x);
        }
    }
}

/// What a stream adds does not depend on what is there, and neither does its end.
proof fn streams_add_the_same(
    v: Seq<PayloadRange>,
    offset: u64,
    f: Seq<FaultModel>,
    g: Seq<FaultModel>,
    i: int,
    x: FaultModel,
)
    requires
        f.contains(x) == g.contains(x),
    ensures
        stream_faults(v, offset, f, i).0.contains(x) == stream_faults(v, offset, g, i).0.contains(
            x,
        ),
        stream_faults(v, offset, f, i).1 == stream_faults(v, offset, g, i).1,
    decreases v.len() - i,
{
    broadcast use refused_has;

    if 0 <= i < v.len() {
        let range = v[i];
        let broken = range.length == 0 || range.offset != offset;
        let m = "stream ranges must be nonempty, contiguous, and start at zero"@;
        let a = refused(sha256_faults(range.sha256@, f), broken, "O086"@, m);
        let b = refused(sha256_faults(range.sha256@, g), broken, "O086"@, m);
        if range.offset + range.length > u64::MAX {
            streams_add_the_same(
                v,
                offset,
                refused(a, true, "O087"@, "stream range offset overflows"@),
                refused(b, true, "O087"@, "stream range offset overflows"@),
                i + 1,
                x,
            );
        } else {
            streams_add_the_same(v, (range.offset + range.length) as u64, a, b, i + 1, x);
        }
    }
}

/// A payload adds its own faults to what is there, and drops none.
proof fn payload_adds(
    p: PayloadMetadata,
    artifacts: Seq<ArtifactMetadata>,
    f: Seq<FaultModel>,
    x: FaultModel,
)
    ensures
        payload_faults(p, artifacts, f).contains(x) <==> f.contains(x) || payload_faults(
            p,
            artifacts,
            Seq::empty(),
        ).contains(x),
{
    broadcast use refused_has;

    let e = Seq::<FaultModel>::empty();
    assert(!e.contains(x));
    let a = sha256_faults(p.sha256@, f);
    let b = sha256_faults(p.sha256@, e);
    let (s, end) = stream_faults(p.stream_ranges@, 0, a, 0);
    let (t, last) = stream_faults(p.stream_ranges@, 0, b, 0);
    if !f.contains(x) {
        streams_add_the_same(p.stream_ranges@, 0, a, b, 0, x);
    } else {
        stream_keeps_all(p.stream_ranges@, 0, a, 0, x);
    }
    let broken = p.stream_ranges@.len() > 0 && end != p.length;
    let m = "stream ranges do not account for payload length"@;
    let late = p.stream_ranges@.len() > 0 && last != p.length;
    ranges_add(p.ranges@, artifacts, refused(s, broken, "O088"@, m), 0, x);
    ranges_add(p.ranges@, artifacts, refused(t, late, "O088"@, m), 0, x);
}

/// The stream ranges have a fault of their digests where one of them has no digest.
proof fn stream_digests(v: Seq<PayloadRange>, offset: u64, f: Seq<FaultModel>, i: int)
    requires
        0 <= i,
    ensures
        ({
            let x = ("O061"@, "SHA-256 must be 64 lowercase hexadecimal digits"@);
            stream_faults(v, offset, f, i).0.contains(x) <==> f.contains(x) || exists|k: int|
                i <= k < v.len() && !is_sha256((#[trigger] v[k]).sha256@)
        }),
    decreases v.len() - i,
{
    broadcast use refused_has;

    codes_are_numbered();
    let x = ("O061"@, "SHA-256 must be 64 lowercase hexadecimal digits"@);
    if i < v.len() {
        let range = v[i];
        let checked = refused(
            sha256_faults(range.sha256@, f),
            range.length == 0 || range.offset != offset,
            "O086"@,
            "stream ranges must be nonempty, contiguous, and start at zero"@,
        );
        let over = range.offset + range.length > u64::MAX;
        let g = if over {
            refused(checked, true, "O087"@, "stream range offset overflows"@)
        } else {
            checked
        };
        let next = if over {
            offset
        } else {
            (range.offset + range.length) as u64
        };
        stream_digests(v, next, g, i + 1);
        assert(g.contains(x) <==> f.contains(x) || !is_sha256(v[i].sha256@));
        if exists|k: int| i <= k < v.len() && !is_sha256((#[trigger] v[k]).sha256@) {
            let k = choose|k: int| i <= k < v.len() && !is_sha256((#[trigger] v[k]).sha256@);
            assert(k == i || !is_sha256(v[k].sha256@));
        }
        if exists|k: int| i + 1 <= k < v.len() && !is_sha256((#[trigger] v[k]).sha256@) {
            let k = choose|k: int| i + 1 <= k < v.len() && !is_sha256((#[trigger] v[k]).sha256@);
            assert(!is_sha256(v[k].sha256@));
        }
    }
}

/// A payload without stream ranges and artifact ranges has its bytes with it: at most as many as the
/// recorder keeps, in lower-case digits, as many as it says, and with the digest that it says. One
/// that is not empty and has no bytes with it needs stream ranges.
pub proof fn inline_payloads_are_what_they_say(
    p: PayloadMetadata,
    artifacts: Seq<ArtifactMetadata>,
)
    requires
        p.stream_ranges@.len() == 0,
        p.ranges@.len() == 0,
    ensures
        ({
            let g = payload_faults(p, artifacts, Seq::empty());
            let s = p.inline_hex->0@;
            let there = p.inline_hex is Some;
            let written = s.len() % 2 == 0 && forall|i: int|
                0 <= i < s.len() ==> '0' <= #[trigger] s[i] <= '9' || 'a' <= s[i] <= 'f';
            &&& g.contains(("O061"@, "SHA-256 must be 64 lowercase hexadecimal digits"@))
                <==> !is_sha256(p.sha256@)
            &&& g.contains(("O080"@, "inline payload exceeds the recorder bound"@)) <==> there
                && p.length > 4096
            &&& g.contains(("O081"@, "inlineHex must contain lowercase even-length hexadecimal"@))
                <==> there && !written
            &&& g.contains(("O082"@, "inlineHex length does not match payload length"@)) <==> there
                && written && s.len() / 2 != p.length
            &&& g.contains(("O083"@, "inlineHex SHA-256 does not match payload metadata"@))
                <==> there && written && sha256_text(crate::model::paired_bytes(s)) != p.sha256@
            &&& g.contains(("O084"@, "non-inline payload requires streaming ranges"@)) <==> !there
                && p.length > 0
            &&& !g.contains(("O085"@, "artifact ranges do not account for payload length"@))
            &&& !g.contains(("O088"@, "stream ranges do not account for payload length"@))
        }),
{
    broadcast use refused_has;

    codes_are_numbered();
    let e = Seq::<FaultModel>::empty();
    assert forall|x: FaultModel| !#[trigger] e.contains(x) by {}
    let s = p.inline_hex->0@;
    assert(crate::model::paired_bytes(s).len() == s.len() / 2);
}

/// The stream ranges of a payload follow one another from zero and account for its length, none of
/// them empty, and each has a digest; the artifact ranges of one that has no bytes with it account
/// for its length.
pub proof fn streamed_payloads_are_accounted_for(
    p: PayloadMetadata,
    artifacts: Seq<ArtifactMetadata>,
)
    ensures
        ({
            let g = payload_faults(p, artifacts, Seq::empty());
            let v = p.stream_ranges@;
            &&& !contiguous(v, 0, 0) ==> exists|x: FaultModel|
                of_a_broken_stream(x) && #[trigger] g.contains(x)
            &&& contiguous(v, 0, 0) ==> (g.contains(
                ("O088"@, "stream ranges do not account for payload length"@),
            ) <==> v.len() > 0 && v.last().offset + v.last().length != p.length)
            &&& (exists|k: int| 0 <= k < v.len() && !is_sha256((#[trigger] v[k]).sha256@))
                ==> g.contains(("O061"@, "SHA-256 must be 64 lowercase hexadecimal digits"@))
            &&& p.inline_hex is None ==> (g.contains(
                ("O084"@, "non-inline payload requires streaming ranges"@),
            ) <==> p.length > 0 && v.len() == 0)
            &&& p.inline_hex is None ==> (g.contains(
                ("O085"@, "artifact ranges do not account for payload length"@),
            ) <==> p.length > 0 && p.ranges@.len() > 0 && total_length(p.ranges@, 0) != p.length)
            &&& forall|k: int, x: FaultModel|
                #![trigger range_faults(p.ranges@[k], artifacts, Seq::empty()).contains(x)]
                0 <= k < p.ranges@.len() && range_faults(
                    p.ranges@[k],
                    artifacts,
                    Seq::empty(),
                ).contains(x) ==> g.contains(x)
        }),
{
    broadcast use refused_has;

    codes_are_numbered();
    let e = Seq::<FaultModel>::empty();
    assert forall|x: FaultModel| !#[trigger] e.contains(x) by {}
    let v = p.stream_ranges@;
    let a = sha256_faults(p.sha256@, e);
    assert forall|x: FaultModel| of_a_broken_stream(x) implies !#[trigger] a.contains(x) by {}
    let (s, end) = stream_faults(v, 0, a, 0);
    streams_follow(v, 0, a, 0);
    stream_digests(v, 0, a, 0);
    let m = "stream ranges do not account for payload length"@;
    let t = refused(s, v.len() > 0 && end != p.length, "O088"@, m);
    let u = ranges_faults(p.ranges@, artifacts, t, 0);
    let g = payload_faults(p, artifacts, e);
    assert forall|x: FaultModel| t.contains(x) implies #[trigger] g.contains(x) by {
        ranges_add(p.ranges@, artifacts, t, 0, x);
    }
    if !contiguous(v, 0, 0) {
        let x = choose|x: FaultModel| of_a_broken_stream(x) && #[trigger] s.contains(x);
        assert(t.contains(x));
        assert(g.contains(x));
    }
    let late = ("O088"@, m);
    crate::generate::faults::streams_keep(v, 0, a, 0, late);
    crate::generate::faults::ranges_keep(p.ranges@, artifacts, t, 0, late);
    let bare = ("O084"@, "non-inline payload requires streaming ranges"@);
    crate::generate::faults::streams_keep(v, 0, a, 0, bare);
    crate::generate::faults::ranges_keep(p.ranges@, artifacts, t, 0, bare);
    let short = ("O085"@, "artifact ranges do not account for payload length"@);
    crate::generate::faults::streams_keep(v, 0, a, 0, short);
    crate::generate::faults::ranges_keep(p.ranges@, artifacts, t, 0, short);
    if exists|k: int| 0 <= k < v.len() && !is_sha256((#[trigger] v[k]).sha256@) {
        let x = ("O061"@, "SHA-256 must be 64 lowercase hexadecimal digits"@);
        assert(s.contains(x));
        assert(t.contains(x));
        assert(g.contains(x));
    }
    assert forall|k: int, x: FaultModel|
        #![trigger range_faults(p.ranges@[k], artifacts, Seq::empty()).contains(x)]
        0 <= k < p.ranges@.len() && range_faults(p.ranges@[k], artifacts, Seq::empty()).contains(
            x,
        ) implies g.contains(x) by {
        ranges_add(p.ranges@, artifacts, t, 0, x);
        assert(u.contains(x));
    }
}

/// The length of artifact ranges is the sum of their lengths.
pub proof fn artifact_lengths_add_up(v: Seq<ArtifactRange>, i: int)
    requires
        0 <= i < v.len(),
    ensures
        total_length(v, i) == v[i].length + total_length(v, i + 1),
        total_length(v, v.len() as int) == 0,
{
}

/// The payloads of a record.
pub open spec fn payload_in(line: ObservationLine, p: PayloadMetadata) -> bool {
    match line {
        ObservationLine::BleGatt(r) => r.payload == Some(p),
        ObservationLine::PtpEvent(r) => r.payload == Some(p),
        ObservationLine::HttpExchange(r) => r.request.body == Some(p) || (r.response is Some
            && r.response->0.body == Some(p)),
        ObservationLine::PtpTransaction(r) => (r.request.data is Some && r.request.data->0.payload
            == p) || (r.response is Some && r.response->0.data is Some
            && r.response->0.data->0.payload == p),
        _ => false,
    }
}

/// Every payload of a record is checked: its faults are faults of the line.
pub proof fn every_payload_is_checked(
    v: Seq<Option<ObservationLine>>,
    h: BundleHeader,
    i: int,
    line: ObservationLine,
    p: PayloadMetadata,
    x: FaultModel,
)
    requires
        led_by(v, h),
        0 < i < v.len(),
        v[i] == Some(line),
        payload_in(line, p),
        payload_faults(p, h.capture.artifacts@, Seq::empty()).contains(x),
    ensures
        faults_at(v, i).contains(x),
{
    broadcast use refused_has;

    let a = h.capture.artifacts@;
    let f = content_faults(v, h, i, line);
    match line {
        ObservationLine::BleGatt(r) => {
            payload_adds(p, a, f, x);
        },
        ObservationLine::PtpEvent(r) => {
            payload_adds(p, a, ptp_code_faults(r.event@, "event"@, f), x);
        },
        ObservationLine::HttpExchange(r) => {
            if r.request.body == Some(p) {
                payload_adds(p, a, f, x);
            }
            let f1 = payload_opt_faults(r.request.body, a, f);
            if r.response is Some && r.response->0.body is Some {
                let q = r.response->0.body->0;
                payload_adds(q, a, f1, x);
            }
        },
        ObservationLine::PtpTransaction(t) => {
            let f1 = ptp_code_faults(t.request.operation@, "operation"@, f);
            let f2 = match t.request.data {
                Some(d) => payload_faults(d.payload, a, f1),
                None => f1,
            };
            if t.request.data is Some {
                payload_adds(t.request.data->0.payload, a, f1, x);
            }
            if t.response is Some {
                let f3 = ptp_code_faults(t.response->0.code@, "response"@, f2);
                if t.response->0.data is Some {
                    payload_adds(t.response->0.data->0.payload, a, f3, x);
                }
            }
            assert(phase_faults(*t, a, f).contains(x));
        },
        _ => {},
    }
    assert(kind_faults(line, a, v, h.run_id@, f).contains(x));
}

/// The faults of a record before those of its kind.
proof fn content_faults(
    v: Seq<Option<ObservationLine>>,
    h: BundleHeader,
    i: int,
    line: ObservationLine,
) -> (f: Seq<FaultModel>)
    requires
        led_by(v, h),
        0 < i < v.len(),
        v[i] == Some(line),
    ensures
        forall|x: FaultModel|
            kind_faults(line, h.capture.artifacts@, v, h.run_id@, f).contains(x)
                ==> #[trigger] faults_at(v, i).contains(x),
        forall|x: FaultModel| context_faults(line_common(line)->0.context, Seq::empty()).contains(x) ==> #[trigger] f.contains(x),
        !is_identifier(line_common(line)->0.record_id@) ==> f.contains(
            ("O050"@, "recordId"@ + " is not a stable identifier"@),
        ),
        forall|k: int, x: FaultModel|
            #![trigger range_faults(
                line_common(line)->0.artifact_ranges@[k],
                h.capture.artifacts@,
                Seq::empty(),
            ).contains(x)]
            0 <= k < line_common(line)->0.artifact_ranges@.len() && range_faults(
                line_common(line)->0.artifact_ranges@[k],
                h.capture.artifacts@,
                Seq::empty(),
            ).contains(x) ==> f.contains(x),
{
    broadcast use refused_has;

    led_header(v, h);
    let e = Seq::<FaultModel>::empty();
    let g = repeat_faults(v, h.run_id@, i, leading_faults(v, 0, i, e));
    let c = line_common(line)->0;
    let clocks = h.capture.clocks@;
    let f1 = refused(
        g,
        line_schema(line) != OBSERVATION_SCHEMA_VERSION@,
        "O002"@,
        "record schema discriminator is not canonical"@,
    );
    let f2 = refused(
        f1,
        line_run(line) != h.run_id@,
        "O014"@,
        "record runId does not match its bundle header"@,
    );
    let f3 = identifier_faults(line_record(line), "recordId"@, f2);
    let f4 = refused(
        f3,
        line !is BundleHeader && line_ordinal(line) == 0,
        "O023"@,
        "non-header ordinal must be positive"@,
    );
    let f5 = refused(
        f4,
        !has_clock(clocks, c.time.clock@, clocks.len() as int),
        "O030"@,
        "unknown clock "@ + text_debug(c.time.clock@),
    );
    let f6 = context_faults(c.context, f5);
    let f7 = ranges_faults(c.artifact_ranges@, h.capture.artifacts@, f6, 0);
    assert forall|x: FaultModel| f6.contains(x) implies #[trigger] f7.contains(x) by {
        ranges_add(c.artifact_ranges@, h.capture.artifacts@, f6, 0, x);
    }
    assert forall|x: FaultModel| context_faults(c.context, Seq::empty()).contains(x) implies #[trigger] f7.contains(
        x,
    ) by {
        assert(!e.contains(x));
        assert(f6.contains(x));
    }
    assert forall|k: int, x: FaultModel|
        #![trigger range_faults(c.artifact_ranges@[k], h.capture.artifacts@, Seq::empty()).contains(x)]
        0 <= k < c.artifact_ranges@.len() && range_faults(
            c.artifact_ranges@[k],
            h.capture.artifacts@,
            Seq::empty(),
        ).contains(x) implies f7.contains(x) by {
        ranges_add(c.artifact_ranges@, h.capture.artifacts@, f6, 0, x);
    }
    if !is_identifier(c.record_id@) {
        let x = ("O050"@, "recordId"@ + " is not a stable identifier"@);
        assert(f3.contains(x));
        assert(f6.contains(x));
    }
    let r = kind_faults(line, h.capture.artifacts@, v, h.run_id@, f7);
    assert forall|x: FaultModel| r.contains(x) implies #[trigger] faults_at(v, i).contains(x) by {}
    f7
}

/// The texts and codes of a record are checked: a context that is no free text, an id that is no
/// stable identifier, a code that is no PTP code and a range outside its artifact are faults.
pub proof fn every_field_is_checked(
    v: Seq<Option<ObservationLine>>,
    h: BundleHeader,
    i: int,
    line: ObservationLine,
)
    requires
        led_by(v, h),
        0 < i < v.len(),
        v[i] == Some(line),
    ensures
        ({
            let g = faults_at(v, i);
            let c = line_common(line)->0;
            let bad = " is empty or contains a host path"@;
            let loose = " must be lowercase 0x followed by four hex digits"@;
            let unstable = " is not a stable identifier"@;
            &&& !is_sanitized(c.context.connection@) ==> g.contains(
                ("O051"@, "context.connection"@ + bad),
            )
            &&& !is_sanitized(c.context.mode@) ==> g.contains(("O051"@, "context.mode"@ + bad))
            &&& !is_sanitized(c.context.state@) ==> g.contains(("O051"@, "context.state"@ + bad))
            &&& !is_identifier(c.record_id@) ==> g.contains(("O050"@, "recordId"@ + unstable))
            &&& forall|k: int, x: FaultModel|
                #![trigger range_faults(
                    c.artifact_ranges@[k],
                    h.capture.artifacts@,
                    Seq::empty(),
                ).contains(x)]
                0 <= k < c.artifact_ranges@.len() && range_faults(
                    c.artifact_ranges@[k],
                    h.capture.artifacts@,
                    Seq::empty(),
                ).contains(x) ==> g.contains(x)
            &&& line is Capability && line->Capability_0.subject is Operation && !is_ptp_code(
                line->Capability_0.subject->Operation_code@,
            ) ==> g.contains(("O060"@, "capability code"@ + loose))
            &&& line is Capability && line->Capability_0.subject is Property && !is_ptp_code(
                line->Capability_0.subject->Property_code@,
            ) ==> g.contains(("O060"@, "capability code"@ + loose))
            &&& line is PtpEvent && !is_ptp_code(line->PtpEvent_0.event@) ==> g.contains(
                ("O060"@, "event"@ + loose),
            )
            &&& line is PtpTransaction && !is_ptp_code(
                line->PtpTransaction_0.request.operation@,
            ) ==> g.contains(("O060"@, "operation"@ + loose))
            &&& line is PtpTransaction && line->PtpTransaction_0.response is Some && !is_ptp_code(
                line->PtpTransaction_0.response->0.code@,
            ) ==> g.contains(("O060"@, "response"@ + loose))
            &&& line is ActionInvocation && !is_identifier(
                line->ActionInvocation_0.action_id@,
            ) ==> g.contains(("O050"@, "actionId"@ + unstable))
            &&& line is ActionInvocation && !is_identifier(
                line->ActionInvocation_0.catalog_revision@,
            ) ==> g.contains(("O050"@, "catalogRevision"@ + unstable))
        }),
{
    broadcast use refused_has;

    let a = h.capture.artifacts@;
    let f = content_faults(v, h, i, line);
    let k = kind_faults(line, a, v, h.run_id@, f);
    let g = faults_at(v, i);
    let c = line_common(line)->0;
    let loose = " must be lowercase 0x followed by four hex digits"@;
    kind_drops_nothing(line, a, v, h.run_id@, f);
    assert forall|x: FaultModel| f.contains(x) implies #[trigger] g.contains(x) by {
        assert(k.contains(x));
    }
    let e = Seq::<FaultModel>::empty();
    let bad = " is empty or contains a host path"@;
    let s = context_faults(c.context, e);
    if !is_sanitized(c.context.connection@) {
        assert(s.contains(("O051"@, "context.connection"@ + bad)));
    }
    if !is_sanitized(c.context.mode@) {
        assert(s.contains(("O051"@, "context.mode"@ + bad)));
    }
    if !is_sanitized(c.context.state@) {
        assert(s.contains(("O051"@, "context.state"@ + bad)));
    }
    match line {
        ObservationLine::PtpTransaction(t) => {
            let x = ("O060"@, "operation"@ + loose);
            let y = ("O060"@, "response"@ + loose);
            let f1 = ptp_code_faults(t.request.operation@, "operation"@, f);
            let f2 = match t.request.data {
                Some(d) => payload_faults(d.payload, a, f1),
                None => f1,
            };
            if t.request.data is Some {
                payload_adds(t.request.data->0.payload, a, f1, x);
            }
            if t.response is Some {
                let f3 = ptp_code_faults(t.response->0.code@, "response"@, f2);
                if t.response->0.data is Some {
                    payload_adds(t.response->0.data->0.payload, a, f3, x);
                    payload_adds(t.response->0.data->0.payload, a, f3, y);
                }
            }
            let p = phase_faults(*t, a, f);
            if !is_ptp_code(t.request.operation@) {
                assert(p.contains(x));
                assert(k.contains(x));
            }
            if t.response is Some && !is_ptp_code(t.response->0.code@) {
                assert(p.contains(y));
                assert(k.contains(y));
            }
        },
        ObservationLine::PtpEvent(r) => {
            let x = ("O060"@, "event"@ + loose);
            let f1 = ptp_code_faults(r.event@, "event"@, f);
            if r.payload is Some {
                payload_adds(r.payload->0, a, f1, x);
            }
            if !is_ptp_code(r.event@) {
                assert(f1.contains(x));
                assert(k.contains(x));
            }
        },
        ObservationLine::Capability(r) => {
            let x = ("O060"@, "capability code"@ + loose);
            if r.subject is Operation && !is_ptp_code(r.subject->Operation_code@) {
                assert(ptp_code_faults(
                    r.subject->Operation_code@,
                    "capability code"@,
                    f,
                ).contains(x));
                assert(k.contains(x));
            }
            if r.subject is Property && !is_ptp_code(r.subject->Property_code@) {
                assert(ptp_code_faults(
                    r.subject->Property_code@,
                    "capability code"@,
                    f,
                ).contains(x));
                assert(k.contains(x));
            }
        },
        ObservationLine::ActionInvocation(r) => {
            let unstable = " is not a stable identifier"@;
            let x = ("O050"@, "actionId"@ + unstable);
            let y = ("O050"@, "catalogRevision"@ + unstable);
            if !is_identifier(r.action_id@) {
                assert(k.contains(x));
            }
            if !is_identifier(r.catalog_revision@) {
                assert(k.contains(y));
            }
        },
        _ => {},
    }
}

/// What is peculiar to the kind of a record drops no fault.
proof fn kind_drops_nothing(
    line: ObservationLine,
    a: Seq<ArtifactMetadata>,
    v: Seq<Option<ObservationLine>>,
    run: Seq<char>,
    f: Seq<FaultModel>,
)
    ensures
        forall|x: FaultModel|
            f.contains(x) ==> #[trigger] kind_faults(line, a, v, run, f).contains(x),
{
    broadcast use refused_has;

    let k = kind_faults(line, a, v, run, f);
    assert forall|x: FaultModel| f.contains(x) implies #[trigger] k.contains(x) by {
        match line {
            ObservationLine::BleGatt(r) => {
                if r.payload is Some {
                    payload_adds(r.payload->0, a, f, x);
                }
            },
            ObservationLine::PtpEvent(r) => {
                if r.payload is Some {
                    payload_adds(r.payload->0, a, ptp_code_faults(r.event@, "event"@, f), x);
                }
            },
            ObservationLine::HttpExchange(r) => {
                if r.request.body is Some {
                    payload_adds(r.request.body->0, a, f, x);
                }
                let f1 = payload_opt_faults(r.request.body, a, f);
                if r.response is Some && r.response->0.body is Some {
                    payload_adds(r.response->0.body->0, a, f1, x);
                }
            },
            ObservationLine::PtpTransaction(t) => {
                let f1 = ptp_code_faults(t.request.operation@, "operation"@, f);
                let f2 = match t.request.data {
                    Some(d) => payload_faults(d.payload, a, f1),
                    None => f1,
                };
                if t.request.data is Some {
                    payload_adds(t.request.data->0.payload, a, f1, x);
                }
                if t.response is Some {
                    let f3 = ptp_code_faults(t.response->0.code@, "response"@, f2);
                    if t.response->0.data is Some {
                        payload_adds(t.response->0.data->0.payload, a, f3, x);
                    }
                }
                assert(phase_faults(*t, a, f).contains(x));
            },
            _ => {},
        }
    }
}

/// The faults of interfaces are added to what is there: one for each id that an earlier interface
/// has.
proof fn interfaces_add(v: Seq<CaptureInterface>, f: Seq<FaultModel>, i: int, x: FaultModel)
    requires
        0 <= i,
        number(x.0) != 50,
    ensures
        interface_faults(v, f, i).contains(x) <==> f.contains(x) || exists|k: int|
            i <= k < v.len() && has_interface(v, (#[trigger] v[k]).id@, k) && x == (
                "O044"@,
                "duplicate capture interface "@ + text_debug(v[k].id@),
            ),
    decreases v.len() - i,
{
    broadcast use refused_has;

    codes_are_numbered();
    if i < v.len() {
        let g = refused(
            identifier_faults(v[i].id@, "capture interface id"@, f),
            has_interface(v, v[i].id@, i),
            "O044"@,
            "duplicate capture interface "@ + text_debug(v[i].id@),
        );
        interfaces_add(v, g, i + 1, x);
        if interface_faults(v, f, i).contains(x) && !g.contains(x) {
            let k = choose|k: int|
                i + 1 <= k < v.len() && has_interface(v, (#[trigger] v[k]).id@, k) && x == (
                    "O044"@,
                    "duplicate capture interface "@ + text_debug(v[k].id@),
                );
            assert(has_interface(v, v[k].id@, k));
        }
        if g.contains(x) && !f.contains(x) {
            assert(has_interface(v, v[i].id@, i));
        }
        if exists|k: int|
            i <= k < v.len() && has_interface(v, (#[trigger] v[k]).id@, k) && x == (
                "O044"@,
                "duplicate capture interface "@ + text_debug(v[k].id@),
            ) {
            let k = choose|k: int|
                i <= k < v.len() && has_interface(v, (#[trigger] v[k]).id@, k) && x == (
                    "O044"@,
                    "duplicate capture interface "@ + text_debug(v[k].id@),
                );
            assert(k == i || has_interface(v, v[k].id@, k));
        }
    }
}

/// The faults of clocks are added to what is there: one for each id that an earlier clock has.
proof fn clocks_add(v: Seq<CaptureClock>, f: Seq<FaultModel>, i: int, x: FaultModel)
    requires
        0 <= i,
        number(x.0) != 50,
    ensures
        clock_faults(v, f, i).contains(x) <==> f.contains(x) || exists|k: int|
            i <= k < v.len() && has_clock(v, (#[trigger] v[k]).id@, k) && x == (
                "O045"@,
                "duplicate clock "@ + text_debug(v[k].id@),
            ),
    decreases v.len() - i,
{
    broadcast use refused_has;

    codes_are_numbered();
    if i < v.len() {
        let g = refused(
            identifier_faults(v[i].id@, "clock id"@, f),
            has_clock(v, v[i].id@, i),
            "O045"@,
            "duplicate clock "@ + text_debug(v[i].id@),
        );
        clocks_add(v, g, i + 1, x);
        if clock_faults(v, f, i).contains(x) && !g.contains(x) {
            let k = choose|k: int|
                i + 1 <= k < v.len() && has_clock(v, (#[trigger] v[k]).id@, k) && x == (
                    "O045"@,
                    "duplicate clock "@ + text_debug(v[k].id@),
                );
            assert(has_clock(v, v[k].id@, k));
        }
        if g.contains(x) && !f.contains(x) {
            assert(has_clock(v, v[i].id@, i));
        }
        if exists|k: int|
            i <= k < v.len() && has_clock(v, (#[trigger] v[k]).id@, k) && x == (
                "O045"@,
                "duplicate clock "@ + text_debug(v[k].id@),
            ) {
            let k = choose|k: int|
                i <= k < v.len() && has_clock(v, (#[trigger] v[k]).id@, k) && x == (
                    "O045"@,
                    "duplicate clock "@ + text_debug(v[k].id@),
                );
            assert(k == i || has_clock(v, v[k].id@, k));
        }
    }
}

/// Whether a mapping does not link two declared clocks that differ.
pub open spec fn misses_clocks(c: CaptureContext, k: int) -> bool {
    let m = c.clock_mappings@[k];
    ||| m.from@ == m.to@
    ||| forall|i: int| 0 <= i < c.clocks@.len() ==> (#[trigger] c.clocks@[i]).id@ != m.from@
    ||| forall|i: int| 0 <= i < c.clocks@.len() ==> (#[trigger] c.clocks@[i]).id@ != m.to@
}

/// The faults of clock mappings are added to what is there.
proof fn mappings_add(c: CaptureContext, f: Seq<FaultModel>, i: int, x: FaultModel)
    requires
        0 <= i,
    ensures
        mapping_faults(c, f, i).contains(x) <==> f.contains(x) || (x == (
            "O046"@,
            "clock mapping must link two declared distinct clocks"@,
        ) && exists|k: int| i <= k < c.clock_mappings@.len() && #[trigger] misses_clocks(c, k)),
    decreases c.clock_mappings@.len() - i,
{
    broadcast use refused_has;

    if i < c.clock_mappings@.len() {
        let m = c.clock_mappings@[i];
        let n = c.clocks@.len() as int;
        let broken = m.from@ == m.to@ || !has_clock(c.clocks@, m.from@, n) || !has_clock(
            c.clocks@,
            m.to@,
            n,
        );
        assert(broken == misses_clocks(c, i));
        mappings_add(
            c,
            refused(f, broken, "O046"@, "clock mapping must link two declared distinct clocks"@),
            i + 1,
            x,
        );
        if exists|k: int| i <= k < c.clock_mappings@.len() && #[trigger] misses_clocks(c, k) {
            let k = choose|k: int| i <= k < c.clock_mappings@.len() && #[trigger] misses_clocks(c, k);
            assert(k == i || (i + 1 <= k && misses_clocks(c, k)));
        }
    }
}

/// The faults of artifacts are added to what is there.
proof fn artifacts_add(v: Seq<ArtifactMetadata>, f: Seq<FaultModel>, i: int, x: FaultModel)
    requires
        0 <= i,
        number(x.0) != 50,
    ensures
        artifact_faults(v, f, i).contains(x) <==> f.contains(x) || exists|k: int|
            i <= k < v.len() && ((has_artifact(v, (#[trigger] v[k]).id@, k) && x == (
                "O047"@,
                "duplicate artifact "@ + text_debug(v[k].id@),
            )) || (!is_sha256(v[k].sha256@) && x == (
                "O061"@,
                "SHA-256 must be 64 lowercase hexadecimal digits"@,
            ))),
    decreases v.len() - i,
{
    broadcast use refused_has;

    codes_are_numbered();
    if i < v.len() {
        let g = refused(
            sha256_faults(v[i].sha256@, identifier_faults(v[i].id@, "artifact id"@, f)),
            has_artifact(v, v[i].id@, i),
            "O047"@,
            "duplicate artifact "@ + text_debug(v[i].id@),
        );
        artifacts_add(v, g, i + 1, x);
        if artifact_faults(v, f, i).contains(x) && !g.contains(x) {
            let k = choose|k: int|
                i + 1 <= k < v.len() && ((has_artifact(v, (#[trigger] v[k]).id@, k) && x == (
                    "O047"@,
                    "duplicate artifact "@ + text_debug(v[k].id@),
                )) || (!is_sha256(v[k].sha256@) && x == (
                    "O061"@,
                    "SHA-256 must be 64 lowercase hexadecimal digits"@,
                )));
            assert(v[k].id@ == v[k].id@);
        }
        if g.contains(x) && !f.contains(x) {
            assert(v[i].id@ == v[i].id@);
        }
        if exists|k: int|
            i <= k < v.len() && ((has_artifact(v, (#[trigger] v[k]).id@, k) && x == (
                "O047"@,
                "duplicate artifact "@ + text_debug(v[k].id@),
            )) || (!is_sha256(v[k].sha256@) && x == (
                "O061"@,
                "SHA-256 must be 64 lowercase hexadecimal digits"@,
            ))) {
            let k = choose|k: int|
                i <= k < v.len() && ((has_artifact(v, (#[trigger] v[k]).id@, k) && x == (
                    "O047"@,
                    "duplicate artifact "@ + text_debug(v[k].id@),
                )) || (!is_sha256(v[k].sha256@) && x == (
                    "O061"@,
                    "SHA-256 must be 64 lowercase hexadecimal digits"@,
                )));
            assert(k == i || i + 1 <= k);
        }
    }
}

/// What the faults of a header are, but for those of its names and ids.
proof fn header_faults_are(
    v: Seq<Option<ObservationLine>>,
    h: BundleHeader,
    x: FaultModel,
)
    requires
        led_by(v, h),
        12 <= number(x.0) <= 12 || 40 <= number(x.0) <= 47,
    ensures
        ({
            let c = h.capture;
            faults_at(v, 0).contains(x) <==> {
                ||| h.ordinal != 0 && x == ("O012"@, "bundle header ordinal must be zero"@)
                ||| c.interfaces@.len() == 0 && x == (
                    "O040"@,
                    "capture.interfaces must not be empty"@,
                )
                ||| c.clocks@.len() == 0 && x == ("O041"@, "capture.clocks must not be empty"@)
                ||| c.tool_versions.entries().len() == 0 && x == (
                    "O042"@,
                    "capture.toolVersions must not be empty"@,
                )
                ||| (c.loss.dropped_records != 0 || c.loss.dropped_bytes != 0
                    || c.loss.truncated_payloads != 0) && x == (
                    "O043"@,
                    "loss or truncation makes the bundle non-proposable"@,
                )
                ||| exists|k: int|
                    0 <= k < c.interfaces@.len() && has_interface(
                        c.interfaces@,
                        (#[trigger] c.interfaces@[k]).id@,
                        k,
                    ) && x == (
                        "O044"@,
                        "duplicate capture interface "@ + text_debug(c.interfaces@[k].id@),
                    )
                ||| exists|k: int|
                    0 <= k < c.clocks@.len() && has_clock(c.clocks@, (#[trigger] c.clocks@[k]).id@, k)
                        && x == ("O045"@, "duplicate clock "@ + text_debug(c.clocks@[k].id@))
                ||| x == ("O046"@, "clock mapping must link two declared distinct clocks"@)
                    && exists|k: int|
                    0 <= k < c.clock_mappings@.len() && #[trigger] misses_clocks(c, k)
                ||| exists|k: int|
                    0 <= k < c.artifacts@.len() && has_artifact(
                        c.artifacts@,
                        (#[trigger] c.artifacts@[k]).id@,
                        k,
                    ) && x == ("O047"@, "duplicate artifact "@ + text_debug(c.artifacts@[k].id@))
            }
        }),
{
    broadcast use refused_has;

    led_header(v, h);
    codes_are_numbered();
    let e = Seq::<FaultModel>::empty();
    assert(!e.contains(x));
    let c = h.capture;
    let f1 = refused(e, false, "O011"@, "bundle header must be the first nonblank record"@);
    let f2 = refused(f1, h.ordinal != 0, "O012"@, "bundle header ordinal must be zero"@);
    let f3 = identifier_faults(h.run_id@, "runId"@, f2);
    let f4 = identifier_faults(h.record_id@, "recordId"@, f3);
    let f5 = name_faults(h, f4);
    assert(f5.contains(x) == f2.contains(x));
    let g1 = refused(
        f5,
        c.interfaces@.len() == 0,
        "O040"@,
        "capture.interfaces must not be empty"@,
    );
    let g2 = refused(g1, c.clocks@.len() == 0, "O041"@, "capture.clocks must not be empty"@);
    let g3 = refused(
        g2,
        c.tool_versions.entries().len() == 0,
        "O042"@,
        "capture.toolVersions must not be empty"@,
    );
    let g4 = refused(
        g3,
        c.loss.dropped_records != 0 || c.loss.dropped_bytes != 0 || c.loss.truncated_payloads != 0,
        "O043"@,
        "loss or truncation makes the bundle non-proposable"@,
    );
    let g5 = interface_faults(c.interfaces@, g4, 0);
    let g6 = clock_faults(c.clocks@, g5, 0);
    let g7 = mapping_faults(c, g6, 0);
    interfaces_add(c.interfaces@, g4, 0, x);
    clocks_add(c.clocks@, g5, 0, x);
    mappings_add(c, g6, 0, x);
    artifacts_add(c.artifacts@, g7, 0, x);
    let all = header_faults(h, f4);
    assert(leading_faults(v, 0, 0, e) == all);
    let line = ObservationLine::BundleHeader(h);
    let r = repeat_faults(v, h.run_id@, 0, all);
    assert(r.contains(x) == all.contains(x));
    assert(faults_at(v, 0) == value_faults(v, h, line, r));
    assert(value_faults(v, h, line, r).contains(x) == r.contains(x));
}

/// A header has the ordinal zero, and names interfaces, clocks and tools; what was lost or truncated
/// makes its bundle unfit, whichever of the three counters says so. Its clock mappings link two
/// declared clocks that differ.
pub proof fn headers_declare_their_capture(v: Seq<Option<ObservationLine>>, h: BundleHeader)
    requires
        led_by(v, h),
    ensures
        ({
            let g = faults_at(v, 0);
            let c = h.capture;
            &&& g.contains(("O012"@, "bundle header ordinal must be zero"@)) <==> h.ordinal != 0
            &&& g.contains(("O040"@, "capture.interfaces must not be empty"@))
                <==> c.interfaces@.len() == 0
            &&& g.contains(("O041"@, "capture.clocks must not be empty"@)) <==> c.clocks@.len() == 0
            &&& g.contains(("O042"@, "capture.toolVersions must not be empty"@))
                <==> c.tool_versions.entries().len() == 0
            &&& g.contains(("O043"@, "loss or truncation makes the bundle non-proposable"@))
                <==> c.loss.dropped_records > 0 || c.loss.dropped_bytes > 0
                || c.loss.truncated_payloads > 0
            &&& g.contains(("O046"@, "clock mapping must link two declared distinct clocks"@))
                <==> exists|k: int|
                0 <= k < c.clock_mappings@.len() && #[trigger] misses_clocks(c, k)
        }),
{
    codes_are_numbered();
    header_faults_are(v, h, ("O012"@, "bundle header ordinal must be zero"@));
    header_faults_are(v, h, ("O040"@, "capture.interfaces must not be empty"@));
    header_faults_are(v, h, ("O041"@, "capture.clocks must not be empty"@));
    header_faults_are(v, h, ("O042"@, "capture.toolVersions must not be empty"@));
    header_faults_are(v, h, ("O043"@, "loss or truncation makes the bundle non-proposable"@));
    header_faults_are(v, h, ("O046"@, "clock mapping must link two declared distinct clocks"@));
}

/// No two interfaces, clocks or artifacts of a header have one id: the later of two that do is a
/// fault, and there is no such fault where all ids differ.
pub proof fn headers_name_each_thing_once(
    v: Seq<Option<ObservationLine>>,
    h: BundleHeader,
    i: int,
    j: int,
    x: FaultModel,
)
    requires
        led_by(v, h),
        0 <= i < j,
    ensures
        ({
            let g = faults_at(v, 0);
            let c = h.capture;
            &&& j < c.interfaces@.len() && c.interfaces@[i].id@ == c.interfaces@[j].id@
                ==> g.contains(
                ("O044"@, "duplicate capture interface "@ + text_debug(c.interfaces@[j].id@)),
            )
            &&& j < c.clocks@.len() && c.clocks@[i].id@ == c.clocks@[j].id@ ==> g.contains(
                ("O045"@, "duplicate clock "@ + text_debug(c.clocks@[j].id@)),
            )
            &&& j < c.artifacts@.len() && c.artifacts@[i].id@ == c.artifacts@[j].id@ ==> g.contains(
                ("O047"@, "duplicate artifact "@ + text_debug(c.artifacts@[j].id@)),
            )
            &&& x.0 == "O044"@ && (forall|p: int, q: int|
                #![trigger c.interfaces@[p], c.interfaces@[q]]
                0 <= p < q < c.interfaces@.len() ==> c.interfaces@[p].id@ != c.interfaces@[q].id@)
                ==> !g.contains(x)
            &&& x.0 == "O045"@ && (forall|p: int, q: int|
                #![trigger c.clocks@[p], c.clocks@[q]]
                0 <= p < q < c.clocks@.len() ==> c.clocks@[p].id@ != c.clocks@[q].id@)
                ==> !g.contains(x)
            &&& x.0 == "O047"@ && (forall|p: int, q: int|
                #![trigger c.artifacts@[p], c.artifacts@[q]]
                0 <= p < q < c.artifacts@.len() ==> c.artifacts@[p].id@ != c.artifacts@[q].id@)
                ==> !g.contains(x)
        }),
{
    codes_are_numbered();
    let c = h.capture;
    if j < c.interfaces@.len() && c.interfaces@[i].id@ == c.interfaces@[j].id@ {
        assert(has_interface(c.interfaces@, c.interfaces@[j].id@, j));
        header_faults_are(
            v,
            h,
            ("O044"@, "duplicate capture interface "@ + text_debug(c.interfaces@[j].id@)),
        );
    }
    if j < c.clocks@.len() && c.clocks@[i].id@ == c.clocks@[j].id@ {
        assert(has_clock(c.clocks@, c.clocks@[j].id@, j));
        header_faults_are(v, h, ("O045"@, "duplicate clock "@ + text_debug(c.clocks@[j].id@)));
    }
    if j < c.artifacts@.len() && c.artifacts@[i].id@ == c.artifacts@[j].id@ {
        assert(has_artifact(c.artifacts@, c.artifacts@[j].id@, j));
        header_faults_are(v, h, ("O047"@, "duplicate artifact "@ + text_debug(c.artifacts@[j].id@)));
    }
    if x.0 == "O044"@ || x.0 == "O045"@ || x.0 == "O047"@ {
        header_faults_are(v, h, x);
    }
}

/// The names in a header are free texts, and its ids are stable.
pub proof fn headers_are_sanitized(v: Seq<Option<ObservationLine>>, h: BundleHeader)
    requires
        led_by(v, h),
    ensures
        ({
            let g = faults_at(v, 0);
            let bad = " is empty or contains a host path"@;
            let unstable = " is not a stable identifier"@;
            &&& !is_sanitized(h.camera.manufacturer@) ==> g.contains(
                ("O051"@, "camera.manufacturer"@ + bad),
            )
            &&& !is_sanitized(h.camera.model@) ==> g.contains(("O051"@, "camera.model"@ + bad))
            &&& !is_sanitized(h.camera.body_id@) ==> g.contains(("O051"@, "camera.bodyId"@ + bad))
            &&& !is_sanitized(h.camera.firmware@) ==> g.contains(("O051"@, "camera.firmware"@ + bad))
            &&& !is_sanitized(h.client.artifact@) ==> g.contains(("O051"@, "client.artifact"@ + bad))
            &&& !is_sanitized(h.client.version@) ==> g.contains(("O051"@, "client.version"@ + bad))
            &&& !is_sanitized(h.client.platform@) ==> g.contains(("O051"@, "client.platform"@ + bad))
            &&& !is_identifier(h.run_id@) ==> g.contains(("O050"@, "runId"@ + unstable))
            &&& !is_identifier(h.record_id@) ==> g.contains(("O050"@, "recordId"@ + unstable))
        }),
{
    broadcast use refused_has;

    led_header(v, h);
    let e = Seq::<FaultModel>::empty();
    let c = h.capture;
    let f1 = refused(e, false, "O011"@, "bundle header must be the first nonblank record"@);
    let f2 = refused(f1, h.ordinal != 0, "O012"@, "bundle header ordinal must be zero"@);
    let f3 = identifier_faults(h.run_id@, "runId"@, f2);
    let f4 = identifier_faults(h.record_id@, "recordId"@, f3);
    let f5 = name_faults(h, f4);
    let all = capture_faults(c, f5);
    let line = ObservationLine::BundleHeader(h);
    assert(leading_faults(v, 0, 0, e) == all);
    assert forall|x: FaultModel| f5.contains(x) implies #[trigger] faults_at(v, 0).contains(x) by {
        capture_drops_nothing(c, f5, x);
        assert(repeat_faults(v, h.run_id@, 0, all).contains(x));
        assert(value_faults(v, h, line, repeat_faults(v, h.run_id@, 0, all)).contains(x));
    }
    let bad = " is empty or contains a host path"@;
    let unstable = " is not a stable identifier"@;
    if !is_sanitized(h.camera.manufacturer@) {
        assert(f5.contains(("O051"@, "camera.manufacturer"@ + bad)));
    }
    if !is_sanitized(h.camera.model@) {
        assert(f5.contains(("O051"@, "camera.model"@ + bad)));
    }
    if !is_sanitized(h.camera.body_id@) {
        assert(f5.contains(("O051"@, "camera.bodyId"@ + bad)));
    }
    if !is_sanitized(h.camera.firmware@) {
        assert(f5.contains(("O051"@, "camera.firmware"@ + bad)));
    }
    if !is_sanitized(h.client.artifact@) {
        assert(f5.contains(("O051"@, "client.artifact"@ + bad)));
    }
    if !is_sanitized(h.client.version@) {
        assert(f5.contains(("O051"@, "client.version"@ + bad)));
    }
    if !is_sanitized(h.client.platform@) {
        assert(f5.contains(("O051"@, "client.platform"@ + bad)));
    }
    if !is_identifier(h.run_id@) {
        assert(f5.contains(("O050"@, "runId"@ + unstable)));
    }
    if !is_identifier(h.record_id@) {
        assert(f5.contains(("O050"@, "recordId"@ + unstable)));
    }
}

/// What a header says of the capture drops no fault.
proof fn capture_drops_nothing(c: CaptureContext, f: Seq<FaultModel>, x: FaultModel)
    requires
        f.contains(x),
    ensures
        capture_faults(c, f).contains(x),
{
    broadcast use refused_has;

    let f1 = refused(
        f,
        c.interfaces@.len() == 0,
        "O040"@,
        "capture.interfaces must not be empty"@,
    );
    let f2 = refused(f1, c.clocks@.len() == 0, "O041"@, "capture.clocks must not be empty"@);
    let f3 = refused(
        f2,
        c.tool_versions.entries().len() == 0,
        "O042"@,
        "capture.toolVersions must not be empty"@,
    );
    let f4 = refused(
        f3,
        c.loss.dropped_records != 0 || c.loss.dropped_bytes != 0 || c.loss.truncated_payloads != 0,
        "O043"@,
        "loss or truncation makes the bundle non-proposable"@,
    );
    let f5 = interface_faults(c.interfaces@, f4, 0);
    let f6 = clock_faults(c.clocks@, f5, 0);
    let f7 = mapping_faults(c, f6, 0);
    interfaces_drop_nothing(c.interfaces@, f4, 0, x);
    clocks_drop_nothing(c.clocks@, f5, 0, x);
    mappings_add(c, f6, 0, x);
    artifacts_drop_nothing(c.artifacts@, f7, 0, x);
}

/// Interfaces drop no fault.
proof fn interfaces_drop_nothing(v: Seq<CaptureInterface>, f: Seq<FaultModel>, i: int, x: FaultModel)
    requires
        f.contains(x),
    ensures
        interface_faults(v, f, i).contains(x),
    decreases v.len() - i,
{
    broadcast use refused_has;

    if 0 <= i < v.len() {
        let g = refused(
            identifier_faults(v[i].id@, "capture interface id"@, f),
            has_interface(v, v[i].id@, i),
            "O044"@,
            "duplicate capture interface "@ + text_debug(v[i].id@),
        );
        interfaces_drop_nothing(v, g, i + 1, x);
    }
}

/// Clocks drop no fault.
proof fn clocks_drop_nothing(v: Seq<CaptureClock>, f: Seq<FaultModel>, i: int, x: FaultModel)
    requires
        f.contains(x),
    ensures
        clock_faults(v, f, i).contains(x),
    decreases v.len() - i,
{
    broadcast use refused_has;

    if 0 <= i < v.len() {
        let g = refused(
            identifier_faults(v[i].id@, "clock id"@, f),
            has_clock(v, v[i].id@, i),
            "O045"@,
            "duplicate clock "@ + text_debug(v[i].id@),
        );
        clocks_drop_nothing(v, g, i + 1, x);
    }
}

/// Artifacts drop no fault.
proof fn artifacts_drop_nothing(v: Seq<ArtifactMetadata>, f: Seq<FaultModel>, i: int, x: FaultModel)
    requires
        f.contains(x),
    ensures
        artifact_faults(v, f, i).contains(x),
    decreases v.len() - i,
{
    broadcast use refused_has;

    if 0 <= i < v.len() {
        let g = refused(
            sha256_faults(v[i].sha256@, identifier_faults(v[i].id@, "artifact id"@, f)),
            has_artifact(v, v[i].id@, i),
            "O047"@,
            "duplicate artifact "@ + text_debug(v[i].id@),
        );
        artifacts_drop_nothing(v, g, i + 1, x);
    }
}

} // verus!
