//! The faults of a record, and the checks on its plain fields.

use crate::digest::{sha256, sha256_text};
use crate::model::paired_bytes;
use crate::observation::{
    ArtifactMetadata, ArtifactRange, ExecutionContext, PayloadMetadata, PayloadRange,
    MAX_INLINE_PAYLOAD_BYTES,
};
use crate::text::{chars_of, debug_text, digit, has_prefix, join2, same, starts_with, text_debug, trim, trimmed};
use vstd::prelude::*;

verus! {

/// A reason to reject a record: a stable code and a message.
#[derive(Debug, Clone, PartialEq, Eq)]
pub struct Fault {
    pub code: String,
    pub message: String,
}

/// The code and the message of a fault.
pub type FaultModel = (Seq<char>, Seq<char>);

/// The codes and messages of a row of faults.
pub open spec fn fault_models(v: Seq<Fault>) -> Seq<FaultModel> {
    Seq::new(v.len(), |i: int| (v[i].code@, v[i].message@))
}

/// The faults `f` with one more behind them, where `broken` holds and `f` does not hold it.
pub open spec fn refused(
    f: Seq<FaultModel>,
    broken: bool,
    code: Seq<char>,
    message: Seq<char>,
) -> Seq<FaultModel> {
    if broken && !f.contains((code, message)) {
        f.push((code, message))
    } else {
        f
    }
}

/// Adds a fault, unless it is there.
pub(crate) fn refuse(faults: &mut Vec<Fault>, code: &str, message: String)
    ensures
        fault_models(final(faults)@) == refused(
            fault_models(old(faults)@),
            true,
            code@,
            message@,
        ),
{
    let ghost start = fault_models(faults@);
    let mut i: usize = 0;
    while i < faults.len()
        invariant
            start == fault_models(old(faults)@),
            start == fault_models(faults@),
            i <= faults.len(),
            forall|k: int| 0 <= k < i ==> #[trigger] start[k] != (code@, message@),
        decreases faults.len() - i,
    {
        if same(faults[i].code.as_str(), code) && same(
            faults[i].message.as_str(),
            message.as_str(),
        ) {
            proof {
                assert(start[i as int] == (code@, message@));
            }
            return;
        }
        i = i + 1;
    }
    proof {
        if start.contains((code@, message@)) {
            let k = choose|k: int| 0 <= k < start.len() && start[k] == (code@, message@);
            assert(false);
        }
    }
    let ghost before = faults@;
    faults.push(Fault { code: code.to_owned(), message });
    proof {
        assert(fault_models(faults@) == start.push((code@, message@)));
    }
}

/// Whether a character may stand in an identifier.
pub open spec fn identifier_char(c: char) -> bool {
    ('a' <= c && c <= 'z') || ('A' <= c && c <= 'Z') || ('0' <= c && c <= '9') || c == '.' || c
        == '_' || c == ':' || c == '-' || c == '@'
}

/// Whether a text is a stable identifier.
pub open spec fn is_identifier(s: Seq<char>) -> bool {
    0 < s.len() <= 160 && forall|i: int| 0 <= i < s.len() ==> identifier_char(#[trigger] s[i])
}

/// The faults behind an identifier.
pub open spec fn identifier_faults(
    value: Seq<char>,
    field: Seq<char>,
    f: Seq<FaultModel>,
) -> Seq<FaultModel> {
    refused(f, !is_identifier(value), "O050"@, field + " is not a stable identifier"@)
}

/// Refuses what is no stable identifier.
pub(crate) fn validate_identifier(value: &str, field: &str, faults: &mut Vec<Fault>)
    ensures
        fault_models(final(faults)@) == identifier_faults(
            value@,
            field@,
            fault_models(old(faults)@),
        ),
{
    let chars = chars_of(value);
    let mut stable = chars.len() > 0 && chars.len() <= 160;
    let mut i: usize = 0;
    while i < chars.len()
        invariant
            chars@ == value@,
            i <= chars.len(),
            stable == (0 < chars.len() <= 160 && forall|k: int|
                0 <= k < i ==> identifier_char(#[trigger] value@[k])),
        decreases chars.len() - i,
    {
        let c: char = chars[i];
        if !(('a' <= c && c <= 'z') || ('A' <= c && c <= 'Z') || ('0' <= c && c <= '9') || c == '.'
            || c == '_' || c == ':' || c == '-' || c == '@') {
            proof {
                assert(!identifier_char(value@[i as int]));
            }
            stable = false;
        }
        i = i + 1;
    }
    if !stable {
        refuse(faults, "O050", join2(field, " is not a stable identifier"));
    }
}

/// Whether `~` and `/` follow one another in a text.
pub open spec fn has_home(s: Seq<char>) -> bool {
    exists|i: int| 0 <= i < s.len() - 1 && #[trigger] s[i] == '~' && s[i + 1] == '/'
}

/// Whether a text is neither blank nor holds a line break or a host path.
pub open spec fn is_sanitized(s: Seq<char>) -> bool {
    trimmed(s).len() > 0 && !s.contains('\n') && !s.contains('\r') && s[0] != '/' && !s.contains(
        '\\',
    ) && !has_home(s)
}

/// The faults behind a free text.
pub open spec fn sanitized_faults(
    value: Seq<char>,
    field: Seq<char>,
    f: Seq<FaultModel>,
) -> Seq<FaultModel> {
    refused(f, !is_sanitized(value), "O051"@, field + " is empty or contains a host path"@)
}

/// Refuses a text that is blank or holds a line break or a host path.
pub(crate) fn validate_sanitized(value: &str, field: &str, faults: &mut Vec<Fault>)
    ensures
        fault_models(final(faults)@) == sanitized_faults(
            value@,
            field@,
            fault_models(old(faults)@),
        ),
{
    let chars = chars_of(value);
    let blank = trim(value).unicode_len() == 0;
    let rooted = chars.len() > 0 && chars[0] == '/';
    let mut barred = false;
    let mut home = false;
    let mut i: usize = 0;
    while i < chars.len()
        invariant
            chars@ == value@,
            i <= chars.len(),
            barred == exists|k: int|
                0 <= k < i && (#[trigger] value@[k] == '\n' || value@[k] == '\r' || value@[k]
                    == '\\'),
            home == exists|k: int|
                0 <= k < i && k < value@.len() - 1 && #[trigger] value@[k] == '~' && value@[k + 1]
                    == '/',
        decreases chars.len() - i,
    {
        let c: char = chars[i];
        proof {
            assert(value@[i as int] == c);
        }
        if c == '\n' || c == '\r' || c == '\\' {
            barred = true;
        }
        if c == '~' && i < chars.len() - 1 && chars[i + 1] == '/' {
            home = true;
        }
        i = i + 1;
    }
    proof {
        assert(barred == (value@.contains('\n') || value@.contains('\r') || value@.contains(
            '\\',
        )));
        assert(home == has_home(value@));
        if !blank && chars@.len() == 0 {
            assert(trimmed(value@).len() == 0);
        }
    }
    if blank || barred || rooted || home {
        refuse(faults, "O051", join2(field, " is empty or contains a host path"));
    }
}

/// Whether a character is a lower-case hexadecimal digit.
pub open spec fn lower_hex(c: char) -> bool {
    ('0' <= c && c <= '9') || ('a' <= c && c <= 'f')
}

/// Whether every character from `start` on is a lower-case hexadecimal digit.
pub open spec fn lower_hex_from(s: Seq<char>, start: int) -> bool {
    forall|i: int| start <= i < s.len() ==> lower_hex(#[trigger] s[i])
}

/// Whether every character from `start` on is a lower-case hexadecimal digit.
fn all_lower_hex(chars: &Vec<char>, start: usize) -> (r: bool)
    ensures
        r == lower_hex_from(chars@, start as int),
{
    let mut i: usize = start;
    while i < chars.len()
        invariant
            start <= i,
            forall|k: int| start <= k < i && k < chars@.len() ==> lower_hex(#[trigger] chars@[k]),
        decreases chars.len() - i,
    {
        let c: char = chars[i];
        if !(('0' <= c && c <= '9') || ('a' <= c && c <= 'f')) {
            proof {
                assert(!lower_hex(chars@[i as int]));
            }
            return false;
        }
        i = i + 1;
    }
    true
}

/// Whether a text is `0x` and four lower-case hexadecimal digits.
pub open spec fn is_ptp_code(s: Seq<char>) -> bool {
    s.len() == 6 && has_prefix(s, "0x"@) && lower_hex_from(s, 2)
}

/// The faults behind a PTP code.
pub open spec fn ptp_code_faults(
    value: Seq<char>,
    field: Seq<char>,
    f: Seq<FaultModel>,
) -> Seq<FaultModel> {
    refused(
        f,
        !is_ptp_code(value),
        "O060"@,
        field + " must be lowercase 0x followed by four hex digits"@,
    )
}

/// Refuses what is not `0x` and four lower-case hexadecimal digits.
pub(crate) fn validate_ptp_code(value: &str, field: &str, faults: &mut Vec<Fault>)
    ensures
        fault_models(final(faults)@) == ptp_code_faults(value@, field@, fault_models(old(faults)@)),
{
    let chars = chars_of(value);
    if !(chars.len() == 6 && starts_with(value, "0x") && all_lower_hex(&chars, 2)) {
        refuse(faults, "O060", join2(field, " must be lowercase 0x followed by four hex digits"));
    }
}

/// Whether a text is 64 lower-case hexadecimal digits.
pub open spec fn is_sha256(s: Seq<char>) -> bool {
    s.len() == 64 && lower_hex_from(s, 0)
}

/// The faults behind a digest.
pub open spec fn sha256_faults(value: Seq<char>, f: Seq<FaultModel>) -> Seq<FaultModel> {
    refused(f, !is_sha256(value), "O061"@, "SHA-256 must be 64 lowercase hexadecimal digits"@)
}

/// Refuses what is not 64 lower-case hexadecimal digits.
pub(crate) fn validate_sha256(value: &str, faults: &mut Vec<Fault>)
    ensures
        fault_models(final(faults)@) == sha256_faults(value@, fault_models(old(faults)@)),
{
    let chars = chars_of(value);
    if !(chars.len() == 64 && all_lower_hex(&chars, 0)) {
        refuse(faults, "O061", "SHA-256 must be 64 lowercase hexadecimal digits".to_owned());
    }
}

/// The faults behind an execution context.
pub open spec fn context_faults(c: ExecutionContext, f: Seq<FaultModel>) -> Seq<FaultModel> {
    sanitized_faults(
        c.state@,
        "context.state"@,
        sanitized_faults(
            c.mode@,
            "context.mode"@,
            sanitized_faults(c.connection@, "context.connection"@, f),
        ),
    )
}

/// Refuses a context field that is blank or holds a line break or a host path.
pub(crate) fn validate_context(context: &ExecutionContext, faults: &mut Vec<Fault>)
    ensures
        fault_models(final(faults)@) == context_faults(*context, fault_models(old(faults)@)),
{
    validate_sanitized(context.connection.as_str(), "context.connection", faults);
    validate_sanitized(context.mode.as_str(), "context.mode", faults);
    validate_sanitized(context.state.as_str(), "context.state", faults);
}

/// The length of the last of the first `n` artifacts with the id.
pub open spec fn artifact_length(
    artifacts: Seq<ArtifactMetadata>,
    id: Seq<char>,
    n: int,
) -> Option<u64>
    decreases n,
{
    if n <= 0 || n > artifacts.len() {
        None
    } else if artifacts[n - 1].id@ == id {
        Some(artifacts[n - 1].length)
    } else {
        artifact_length(artifacts, id, n - 1)
    }
}

/// The length of the last artifact with the id.
fn find_artifact(artifacts: &Vec<ArtifactMetadata>, id: &str) -> (r: Option<u64>)
    ensures
        r == artifact_length(artifacts@, id@, artifacts@.len() as int),
{
    let mut n: usize = artifacts.len();
    while n > 0
        invariant
            n <= artifacts.len(),
            artifact_length(artifacts@, id@, artifacts@.len() as int) == artifact_length(
                artifacts@,
                id@,
                n as int,
            ),
        decreases n,
    {
        if same(artifacts[n - 1].id.as_str(), id) {
            return Some(artifacts[n - 1].length);
        }
        n = n - 1;
    }
    None
}

/// The faults behind a range of an artifact.
pub open spec fn range_faults(
    range: ArtifactRange,
    artifacts: Seq<ArtifactMetadata>,
    f: Seq<FaultModel>,
) -> Seq<FaultModel> {
    match artifact_length(artifacts, range.artifact@, artifacts.len() as int) {
        None => refused(f, true, "O070"@, "unknown artifact "@ + text_debug(range.artifact@)),
        Some(total) => refused(
            f,
            range.length == 0 || range.offset + range.length > total,
            "O071"@,
            "artifact range is empty, overflowing, or out of bounds"@,
        ),
    }
}

/// Refuses a range that is empty or does not lie in its artifact.
pub(crate) fn validate_range(
    range: &ArtifactRange,
    artifacts: &Vec<ArtifactMetadata>,
    faults: &mut Vec<Fault>,
)
    ensures
        fault_models(final(faults)@) == range_faults(
            *range,
            artifacts@,
            fault_models(old(faults)@),
        ),
{
    match find_artifact(artifacts, range.artifact.as_str()) {
        None => {
            refuse(
                faults,
                "O070",
                join2("unknown artifact ", debug_text(range.artifact.as_str()).as_str()),
            );
        },
        Some(total) => {
            if range.length == 0 || range.offset > total || range.length > total - range.offset {
                refuse(
                    faults,
                    "O071",
                    "artifact range is empty, overflowing, or out of bounds".to_owned(),
                );
            }
        },
    }
}

/// The faults behind the ranges from `i` on.
pub open spec fn ranges_faults(
    ranges: Seq<ArtifactRange>,
    artifacts: Seq<ArtifactMetadata>,
    f: Seq<FaultModel>,
    i: int,
) -> Seq<FaultModel>
    decreases ranges.len() - i,
{
    if i < 0 || i >= ranges.len() {
        f
    } else {
        ranges_faults(ranges, artifacts, range_faults(ranges[i], artifacts, f), i + 1)
    }
}

/// Refuses each range that is empty or does not lie in its artifact.
pub(crate) fn validate_ranges(
    ranges: &Vec<ArtifactRange>,
    artifacts: &Vec<ArtifactMetadata>,
    faults: &mut Vec<Fault>,
)
    ensures
        fault_models(final(faults)@) == ranges_faults(
            ranges@,
            artifacts@,
            fault_models(old(faults)@),
            0,
        ),
{
    let mut i: usize = 0;
    while i < ranges.len()
        invariant
            i <= ranges.len(),
            ranges_faults(ranges@, artifacts@, fault_models(old(faults)@), 0) == ranges_faults(
                ranges@,
                artifacts@,
                fault_models(faults@),
                i as int,
            ),
        decreases ranges.len() - i,
    {
        validate_range(&ranges[i], artifacts, faults);
        i = i + 1;
    }
}

/// The faults behind the stream ranges from `i` on, and where the stream ends.
pub open spec fn stream_faults(
    ranges: Seq<PayloadRange>,
    offset: u64,
    f: Seq<FaultModel>,
    i: int,
) -> (Seq<FaultModel>, u64)
    decreases ranges.len() - i,
{
    if i < 0 || i >= ranges.len() {
        (f, offset)
    } else {
        let range = ranges[i];
        let checked = refused(
            sha256_faults(range.sha256@, f),
            range.length == 0 || range.offset != offset,
            "O086"@,
            "stream ranges must be nonempty, contiguous, and start at zero"@,
        );
        if range.offset + range.length > u64::MAX {
            stream_faults(
                ranges,
                offset,
                refused(checked, true, "O087"@, "stream range offset overflows"@),
                i + 1,
            )
        } else {
            stream_faults(ranges, (range.offset + range.length) as u64, checked, i + 1)
        }
    }
}

/// Refuses stream ranges that are empty, leave a gap or overlap; where the stream ends.
fn validate_stream(ranges: &Vec<PayloadRange>, faults: &mut Vec<Fault>) -> (r: u64)
    ensures
        (fault_models(final(faults)@), r) == stream_faults(
            ranges@,
            0,
            fault_models(old(faults)@),
            0,
        ),
{
    let mut offset: u64 = 0;
    let mut i: usize = 0;
    while i < ranges.len()
        invariant
            i <= ranges.len(),
            stream_faults(ranges@, 0, fault_models(old(faults)@), 0) == stream_faults(
                ranges@,
                offset,
                fault_models(faults@),
                i as int,
            ),
        decreases ranges.len() - i,
    {
        let range = &ranges[i];
        validate_sha256(range.sha256.as_str(), faults);
        if range.length == 0 || range.offset != offset {
            refuse(
                faults,
                "O086",
                "stream ranges must be nonempty, contiguous, and start at zero".to_owned(),
            );
        }
        match range.offset.checked_add(range.length) {
            None => {
                refuse(faults, "O087", "stream range offset overflows".to_owned());
            },
            Some(next) => {
                offset = next;
            },
        }
        i = i + 1;
    }
    offset
}

/// The summed length of the ranges from `i` on.
pub open spec fn total_length(ranges: Seq<ArtifactRange>, i: int) -> int
    decreases ranges.len() - i,
{
    if i < 0 || i >= ranges.len() {
        0
    } else {
        ranges[i].length + total_length(ranges, i + 1)
    }
}

proof fn total_length_nonneg(ranges: Seq<ArtifactRange>, i: int)
    ensures
        total_length(ranges, i) >= 0,
    decreases ranges.len() - i,
{
    if 0 <= i < ranges.len() {
        total_length_nonneg(ranges, i + 1);
    }
}

/// Whether the ranges are `length` long in all.
fn has_total(ranges: &Vec<ArtifactRange>, length: u64) -> (r: bool)
    ensures
        r == (total_length(ranges@, 0) == length),
{
    let mut left: u64 = length;
    let mut i: usize = 0;
    while i < ranges.len()
        invariant
            i <= ranges.len(),
            left <= length,
            total_length(ranges@, 0) == length - left + total_length(ranges@, i as int),
        decreases ranges.len() - i,
    {
        if ranges[i].length > left {
            proof {
                total_length_nonneg(ranges@, i + 1);
            }
            return false;
        }
        left = left - ranges[i].length;
        i = i + 1;
    }
    left == 0
}

/// The bytes of a lower-case hexadecimal text of even length.
pub open spec fn decoded_hex(s: Seq<char>) -> Option<Seq<u8>> {
    if s.len() % 2 == 0 && lower_hex_from(s, 0) {
        Some(paired_bytes(s))
    } else {
        None
    }
}

/// The bytes of a lower-case hexadecimal text of even length.
fn decode_hex(value: &str) -> (r: Option<Vec<u8>>)
    ensures
        match r {
            Some(v) => decoded_hex(value@) == Some(v@),
            None => decoded_hex(value@) is None,
        },
{
    let chars = chars_of(value);
    if chars.len() % 2 != 0 || !all_lower_hex(&chars, 0) {
        return None;
    }
    let half: usize = chars.len() / 2;
    let mut out: Vec<u8> = Vec::new();
    let mut i: usize = 0;
    while i < half
        invariant
            chars@ == value@,
            lower_hex_from(chars@, 0),
            chars.len() == 2 * half,
            i <= half,
            out@.len() == i,
            forall|k: int|
                0 <= k < i ==> #[trigger] out@[k] == paired_bytes(value@)[k],
        decreases half - i,
    {
        proof {
            assert(lower_hex(chars@[2 * i]));
            assert(lower_hex(chars@[2 * i + 1]));
        }
        let a: u32 = digit(chars[2 * i], 16).unwrap();
        let b: u32 = digit(chars[2 * i + 1], 16).unwrap();
        out.push((a * 16 + b) as u8);
        i = i + 1;
    }
    proof {
        assert(out@ == paired_bytes(value@));
    }
    Some(out)
}

/// The faults behind inline bytes.
pub open spec fn inline_faults(
    payload: PayloadMetadata,
    inline: Seq<char>,
    f: Seq<FaultModel>,
) -> Seq<FaultModel> {
    let bounded = refused(
        f,
        payload.length > MAX_INLINE_PAYLOAD_BYTES,
        "O080"@,
        "inline payload exceeds the recorder bound"@,
    );
    match decoded_hex(inline) {
        None => refused(
            bounded,
            true,
            "O081"@,
            "inlineHex must contain lowercase even-length hexadecimal"@,
        ),
        Some(bytes) => refused(
            refused(
                bounded,
                bytes.len() != payload.length,
                "O082"@,
                "inlineHex length does not match payload length"@,
            ),
            sha256_text(bytes) != payload.sha256@,
            "O083"@,
            "inlineHex SHA-256 does not match payload metadata"@,
        ),
    }
}

/// The faults behind a payload.
pub open spec fn payload_faults(
    payload: PayloadMetadata,
    artifacts: Seq<ArtifactMetadata>,
    f: Seq<FaultModel>,
) -> Seq<FaultModel> {
    let (streamed, end) = stream_faults(
        payload.stream_ranges@,
        0,
        sha256_faults(payload.sha256@, f),
        0,
    );
    let ranged = ranges_faults(
        payload.ranges@,
        artifacts,
        refused(
            streamed,
            payload.stream_ranges@.len() > 0 && end != payload.length,
            "O088"@,
            "stream ranges do not account for payload length"@,
        ),
        0,
    );
    match payload.inline_hex {
        Some(inline) => inline_faults(payload, inline@, ranged),
        None => refused(
            refused(
                ranged,
                payload.length > 0 && payload.stream_ranges@.len() == 0,
                "O084"@,
                "non-inline payload requires streaming ranges"@,
            ),
            payload.length > 0 && payload.ranges@.len() > 0 && total_length(payload.ranges@, 0)
                != payload.length,
            "O085"@,
            "artifact ranges do not account for payload length"@,
        ),
    }
}

/// Refuses a payload whose digests, ranges, length and inline bytes do not agree.
pub(crate) fn validate_payload(
    payload: &PayloadMetadata,
    artifacts: &Vec<ArtifactMetadata>,
    faults: &mut Vec<Fault>,
)
    ensures
        fault_models(final(faults)@) == payload_faults(
            *payload,
            artifacts@,
            fault_models(old(faults)@),
        ),
{
    validate_sha256(payload.sha256.as_str(), faults);
    let end: u64 = validate_stream(&payload.stream_ranges, faults);
    if payload.stream_ranges.len() > 0 && end != payload.length {
        refuse(faults, "O088", "stream ranges do not account for payload length".to_owned());
    }
    validate_ranges(&payload.ranges, artifacts, faults);
    match &payload.inline_hex {
        Some(inline) => {
            if payload.length > MAX_INLINE_PAYLOAD_BYTES {
                refuse(faults, "O080", "inline payload exceeds the recorder bound".to_owned());
            }
            match decode_hex(inline.as_str()) {
                None => {
                    refuse(
                        faults,
                        "O081",
                        "inlineHex must contain lowercase even-length hexadecimal".to_owned(),
                    );
                },
                Some(bytes) => {
                    if bytes.len() as u64 != payload.length {
                        refuse(
                            faults,
                            "O082",
                            "inlineHex length does not match payload length".to_owned(),
                        );
                    }
                    if !same(sha256(bytes.as_slice()).as_str(), payload.sha256.as_str()) {
                        refuse(
                            faults,
                            "O083",
                            "inlineHex SHA-256 does not match payload metadata".to_owned(),
                        );
                    }
                },
            }
        },
        None => {
            if payload.length > 0 && payload.stream_ranges.len() == 0 {
                refuse(faults, "O084", "non-inline payload requires streaming ranges".to_owned());
            }
            if payload.length > 0 && payload.ranges.len() > 0 && !has_total(
                &payload.ranges,
                payload.length,
            ) {
                refuse(
                    faults,
                    "O085",
                    "artifact ranges do not account for payload length".to_owned(),
                );
            }
        },
    }
}

/// The faults behind a payload, where there is one.
pub open spec fn payload_opt_faults(
    payload: Option<PayloadMetadata>,
    artifacts: Seq<ArtifactMetadata>,
    f: Seq<FaultModel>,
) -> Seq<FaultModel> {
    match payload {
        Some(p) => payload_faults(p, artifacts, f),
        None => f,
    }
}

/// Refuses a payload whose parts do not agree, where there is one.
pub(crate) fn validate_payload_opt(
    payload: &Option<PayloadMetadata>,
    artifacts: &Vec<ArtifactMetadata>,
    faults: &mut Vec<Fault>,
)
    ensures
        fault_models(final(faults)@) == payload_opt_faults(
            *payload,
            artifacts@,
            fault_models(old(faults)@),
        ),
{
    match payload {
        Some(p) => validate_payload(p, artifacts, faults),
        None => {},
    }
}

} // verus!
