//! Recording observations: payload metadata, and an append-only bundle.

use crate::digest::{
    feed, fed, hasher_text, hex, hex_of, new_hasher, sha256_digest, sha256_text, ByteHasher,
};
use crate::generate::fields::{
    decoded_hex, is_sha256, lower_hex, lower_hex_from, payload_faults, ranges_faults, sha256_faults,
    stream_faults, FaultModel,
};
use crate::json::Json;
use crate::model::paired_bytes;
use crate::name_map::NameMap;
use crate::observation::{
    line_ordinal, line_run, line_schema, ActionInvocationRecord, ActionOutcome, ActionRole,
    ArtifactMetadata, BundleHeader, CameraContext, CaptureClock, CaptureContext, CaptureInterface,
    ClientContext, ClockMapping, ClockPoint, Confidence, EpistemicClass, EpistemicMetadata,
    ExecutionContext, LifecycleMarker, LifecycleRecord, LossCounters, ObservationCommon,
    ObservationLine, PayloadMetadata, PayloadRange, Redaction, StateTransition,
    MAX_INLINE_PAYLOAD_BYTES, OBSERVATION_SCHEMA_VERSION,
};
use crate::text::{
    decimal, digit_char, digit_value, digits_of, join2, join3, number_text, optional_text, pad_zero,
    same, same_option, same_texts, u64_text, views, zero_padded,
};
use vstd::prelude::*;

verus! {

/// The length of a stream range.
pub const STREAM_RANGE_BYTES: usize = 0x1_0000;

/// Builds the metadata of a payload from its bytes, in pieces of any size.
#[derive(Debug)]
pub struct PayloadMetadataBuilder {
    length: u64,
    hasher: ByteHasher,
    inline: Option<Vec<u8>>,
    stream_ranges: Vec<PayloadRange>,
    pending_range_length: usize,
    pending_range_hasher: ByteHasher,
}

/// Stream range `k` of a row of bytes.
pub open spec fn range_bytes(bytes: Seq<u8>, k: int) -> Seq<u8> {
    let start = k * 0x1_0000;
    let end = if start + 0x1_0000 < bytes.len() {
        start + 0x1_0000
    } else {
        bytes.len() as int
    };
    bytes.subrange(start, end)
}

/// Whether a range is stream range `k` of a row of bytes.
pub open spec fn is_range(r: PayloadRange, bytes: Seq<u8>, k: int) -> bool {
    r.offset == k * 0x1_0000 && r.length == range_bytes(bytes, k).len() && r.sha256@ == sha256_text(
        range_bytes(bytes, k),
    )
}

/// The number of stream ranges of a row of bytes.
pub open spec fn range_count(bytes: Seq<u8>) -> nat {
    (bytes.len() + 0xffff) / 0x1_0000
}

/// Whether a payload's metadata is that of a row of bytes: the length and the digest of all of it,
/// and either the bytes themselves, up to the inline bound, or the digest of each stream range.
pub open spec fn describes(m: PayloadMetadata, bytes: Seq<u8>) -> bool {
    &&& m.length == bytes.len()
    &&& m.sha256@ == sha256_text(bytes)
    &&& m.ranges@.len() == 0
    &&& if bytes.len() <= MAX_INLINE_PAYLOAD_BYTES {
        optional_text(m.inline_hex) == Some(hex_of(bytes)) && m.stream_ranges@.len() == 0
    } else {
        m.inline_hex is None && m.stream_ranges@.len() == range_count(bytes) && forall|k: int|
            0 <= k < m.stream_ranges@.len() ==> is_range(#[trigger] m.stream_ranges@[k], bytes, k)
    }
}

/// Whether the validator finds nothing wrong with a payload.
pub open spec fn is_sound(m: PayloadMetadata) -> bool {
    forall|artifacts: Seq<ArtifactMetadata>, f: Seq<FaultModel>|
        #[trigger] payload_faults(m, artifacts, f) == f
}

/// The hexadecimal digits of bytes are lower-case digits, two to a byte, and stand for the bytes.
pub proof fn hex_reads_back(bytes: Seq<u8>)
    ensures
        hex_of(bytes).len() == 2 * bytes.len(),
        lower_hex_from(hex_of(bytes), 0),
        decoded_hex(hex_of(bytes)) == Some(bytes),
    decreases bytes.len(),
{
    let s = hex_of(bytes);
    if bytes.len() > 0 {
        let front = bytes.drop_last();
        let b = bytes.last() as int;
        hex_reads_back(front);
        let t = hex_of(front);
        assert(s == t.push(digit_char(b / 16)).push(digit_char(b % 16)));
        assert(lower_hex(digit_char(b / 16)) && digit_value(digit_char(b / 16)) == Some(b / 16));
        assert(lower_hex(digit_char(b % 16)) && digit_value(digit_char(b % 16)) == Some(b % 16));
        assert forall|i: int| 0 <= i < s.len() implies lower_hex(#[trigger] s[i]) by {
            if i < t.len() {
                assert(s[i] == t[i]);
            }
        }
        assert(paired_bytes(t) == front);
        assert forall|i: int| 0 <= i < bytes.len() implies paired_bytes(s)[i] == bytes[i] by {
            if i < front.len() {
                assert(s[2 * i] == t[2 * i] && s[2 * i + 1] == t[2 * i + 1]);
                assert(paired_bytes(t)[i] == front[i]);
            } else {
                assert(s[2 * i] == digit_char(b / 16));
                assert(s[2 * i + 1] == digit_char(b % 16));
            }
        }
        assert(paired_bytes(s) == bytes);
    } else {
        assert(paired_bytes(s) == bytes);
    }
}

/// The text of a digest of 32 bytes is a digest's text.
proof fn digest_text_is_sha256(bytes: Seq<u8>)
    requires
        sha256_digest(bytes).len() == 32,
    ensures
        is_sha256(sha256_text(bytes)),
{
    hex_reads_back(sha256_digest(bytes));
}

/// Contiguous ranges that cover the bytes from range `k` on leave no fault behind.
proof fn stream_is_sound(ranges: Seq<PayloadRange>, bytes: Seq<u8>, f: Seq<FaultModel>, k: int)
    requires
        bytes.len() <= u64::MAX,
        ranges.len() == range_count(bytes),
        0 <= k <= ranges.len(),
        bytes.len() > 0,
        forall|i: int| 0 <= i < ranges.len() ==> is_range(#[trigger] ranges[i], bytes, i),
        forall|i: int| 0 <= i < ranges.len() ==> is_sha256((#[trigger] ranges[i]).sha256@),
    ensures
        k < ranges.len() ==> stream_faults(ranges, (k * 0x1_0000) as u64, f, k) == (
            f,
            bytes.len() as u64,
        ),
    decreases ranges.len() - k,
{
    if k < ranges.len() {
        let r = ranges[k];
        assert(is_range(r, bytes, k));
        assert(is_sha256(r.sha256@));
        stream_is_sound(ranges, bytes, f, k + 1);
        assert(sha256_faults(r.sha256@, f) == f);
        if k + 1 < ranges.len() {
            assert(r.offset + r.length == (k + 1) * 0x1_0000);
        } else {
            assert(r.offset + r.length == bytes.len());
            assert(stream_faults(ranges, bytes.len() as u64, f, k + 1) == (
                f,
                bytes.len() as u64,
            ));
        }
    }
}

/// The metadata of bytes, with digests of 32 bytes, is sound.
proof fn described_is_sound(m: PayloadMetadata, bytes: Seq<u8>)
    requires
        describes(m, bytes),
        bytes.len() <= u64::MAX,
        is_sha256(m.sha256@),
        forall|i: int|
            0 <= i < m.stream_ranges@.len() ==> is_sha256(
                (#[trigger] m.stream_ranges@[i]).sha256@,
            ),
    ensures
        is_sound(m),
{
    assert forall|artifacts: Seq<ArtifactMetadata>, f: Seq<FaultModel>|
        #[trigger] payload_faults(m, artifacts, f) == f by {
        assert(sha256_faults(m.sha256@, f) == f);
        assert(ranges_faults(m.ranges@, artifacts, f, 0) == f);
        if bytes.len() <= MAX_INLINE_PAYLOAD_BYTES {
            hex_reads_back(bytes);
            assert(stream_faults(m.stream_ranges@, 0, f, 0) == (f, 0u64));
        } else {
            stream_is_sound(m.stream_ranges@, bytes, f, 0);
        }
    }
}

impl PayloadMetadataBuilder {
    /// The bytes seen so far.
    pub closed spec fn bytes(&self) -> Seq<u8> {
        fed(self.hasher)
    }

    #[verifier::type_invariant]
    spec fn consistent(self) -> bool {
        let bytes = fed(self.hasher);
        let done = self.stream_ranges@.len() * 0x1_0000;
        &&& self.length == bytes.len()
        &&& match self.inline {
            Some(v) => v@ == bytes && bytes.len() <= MAX_INLINE_PAYLOAD_BYTES,
            None => bytes.len() > MAX_INLINE_PAYLOAD_BYTES,
        }
        &&& self.pending_range_length < STREAM_RANGE_BYTES
        &&& done + self.pending_range_length == bytes.len()
        &&& fed(self.pending_range_hasher) == bytes.skip(done as int)
        &&& full_ranges(self.stream_ranges@, bytes)
    }

    /// A builder that has seen no bytes.
    pub fn new() -> (r: Self)
        ensures
            r.bytes() == Seq::<u8>::empty(),
    {
        let hasher = new_hasher();
        let pending_range_hasher = new_hasher();
        let inline: Vec<u8> = Vec::new();
        proof {
            assert(Seq::<u8>::empty().skip(0) == Seq::<u8>::empty());
        }
        PayloadMetadataBuilder {
            length: 0,
            hasher,
            inline: Some(inline),
            stream_ranges: Vec::new(),
            pending_range_length: 0,
            pending_range_hasher,
        }
    }

    /// Sees more bytes.
    pub fn update(&mut self, bytes: &[u8])
        requires
            old(self).bytes().len() + bytes@.len() <= u64::MAX,
        ensures
            final(self).bytes() == old(self).bytes() + bytes@,
    {
        proof {
            use_type_invariant(&*self);
        }
        let mut seen = PayloadMetadataBuilder::new();
        std::mem::swap(self, &mut seen);
        let ghost start = seen.bytes();
        proof {
            use_type_invariant(&seen);
        }
        let PayloadMetadataBuilder {
            length,
            hasher,
            inline,
            stream_ranges,
            pending_range_length,
            pending_range_hasher,
        } = seen;
        let mut hasher = hasher;
        feed(&mut hasher, bytes);
        let ghost all = start + bytes@;
        let inline = extend_inline(inline, bytes, Ghost(start));
        let mut state = RangeState {
            length,
            stream_ranges,
            pending_range_length,
            pending_range_hasher,
        };
        state.extend(bytes, Ghost(start));
        *self = PayloadMetadataBuilder {
            length: state.length,
            hasher,
            inline,
            stream_ranges: state.stream_ranges,
            pending_range_length: state.pending_range_length,
            pending_range_hasher: state.pending_range_hasher,
        };
    }

    /// The metadata of the bytes seen so far. It does not depend on how they were cut into pieces,
    /// and the validator finds nothing wrong with it.
    pub fn metadata(&self) -> (r: PayloadMetadata)
        ensures
            describes(r, self.bytes()),
            is_sound(r),
    {
        proof {
            use_type_invariant(self);
        }
        let ghost bytes = fed(self.hasher);
        let sha256 = digest_text(&self.hasher);
        let mut stream_ranges: Vec<PayloadRange> = Vec::new();
        let inline_hex = match &self.inline {
            Some(v) => {
                let text = hex(v.as_slice());
                Some(text)
            },
            None => {
                let mut i: usize = 0;
                while i < self.stream_ranges.len()
                    invariant
                        full_ranges(self.stream_ranges@, bytes),
                        i <= self.stream_ranges@.len(),
                        stream_ranges@.len() == i,
                        forall|k: int|
                            0 <= k < i ==> is_range(#[trigger] stream_ranges@[k], bytes, k)
                                && is_sha256(stream_ranges@[k].sha256@),
                    decreases self.stream_ranges@.len() - i,
                {
                    let range = &self.stream_ranges[i];
                    proof {
                        assert(is_range(self.stream_ranges@[i as int], bytes, i as int));
                        assert(is_sha256(self.stream_ranges@[i as int].sha256@));
                    }
                    stream_ranges.push(
                        PayloadRange {
                            offset: range.offset,
                            length: range.length,
                            sha256: range.sha256.clone(),
                        },
                    );
                    i = i + 1;
                }
                if self.pending_range_length > 0 {
                    let ghost n = stream_ranges@.len() as int;
                    proof {
                        assert(range_bytes(bytes, n) == bytes.skip(n * 0x1_0000));
                    }
                    stream_ranges.push(
                        PayloadRange {
                            offset: self.length - self.pending_range_length as u64,
                            length: self.pending_range_length as u64,
                            sha256: digest_text(&self.pending_range_hasher),
                        },
                    );
                }
                None
            },
        };
        let r = PayloadMetadata {
            length: self.length,
            sha256,
            inline_hex,
            stream_ranges,
            ranges: Vec::new(),
        };
        proof {
            assert(describes(r, bytes));
            described_is_sound(r, bytes);
        }
        r
    }
}

/// Whether a row of ranges holds the full stream ranges of a row of bytes, each with a digest.
pub open spec fn full_ranges(ranges: Seq<PayloadRange>, bytes: Seq<u8>) -> bool {
    &&& ranges.len() * 0x1_0000 <= bytes.len()
    &&& forall|k: int|
        0 <= k < ranges.len() ==> is_range(#[trigger] ranges[k], bytes, k) && is_sha256(
            ranges[k].sha256@,
        )
}

/// The digest of the bytes that a hasher was fed.
fn digest_text(h: &ByteHasher) -> (r: String)
    ensures
        r@ == sha256_text(fed(*h)),
        is_sha256(r@),
{
    let r = hasher_text(h);
    proof {
        digest_text_is_sha256(fed(*h));
    }
    r
}

/// The bytes kept inline, after more bytes: all of them, up to the bound.
fn extend_inline(
    inline: Option<Vec<u8>>,
    bytes: &[u8],
    Ghost(start): Ghost<Seq<u8>>,
) -> (r: Option<Vec<u8>>)
    requires
        match inline {
            Some(v) => v@ == start && start.len() <= MAX_INLINE_PAYLOAD_BYTES,
            None => start.len() > MAX_INLINE_PAYLOAD_BYTES,
        },
    ensures
        match r {
            Some(v) => v@ == start + bytes@ && (start + bytes@).len() <= MAX_INLINE_PAYLOAD_BYTES,
            None => (start + bytes@).len() > MAX_INLINE_PAYLOAD_BYTES,
        },
{
    match inline {
        None => None,
        Some(v) => {
            if bytes.len() > MAX_INLINE_PAYLOAD_BYTES as usize - v.len() {
                return None;
            }
            let mut out = v;
            let mut i: usize = 0;
            proof {
                assert(start + bytes@.take(0) == start);
            }
            while i < bytes.len()
                invariant
                    i <= bytes@.len(),
                    out@ == start + bytes@.take(i as int),
                decreases bytes@.len() - i,
            {
                out.push(bytes[i]);
                proof {
                    assert(bytes@.take(i + 1) == bytes@.take(i as int).push(bytes@[i as int]));
                    assert(start + bytes@.take(i + 1) == (start + bytes@.take(i as int)).push(
                        bytes@[i as int],
                    ));
                }
                i = i + 1;
            }
            proof {
                assert(bytes@.take(bytes@.len() as int) == bytes@);
            }
            Some(out)
        },
    }
}

/// The stream ranges of the bytes seen so far.
struct RangeState {
    length: u64,
    stream_ranges: Vec<PayloadRange>,
    pending_range_length: usize,
    pending_range_hasher: ByteHasher,
}

impl RangeState {
    /// Whether the state is that of the bytes.
    spec fn covers(self, bytes: Seq<u8>) -> bool {
        let done = self.stream_ranges@.len() * 0x1_0000;
        &&& self.length == bytes.len()
        &&& self.pending_range_length < STREAM_RANGE_BYTES
        &&& done + self.pending_range_length == bytes.len()
        &&& fed(self.pending_range_hasher) == bytes.skip(done as int)
        &&& full_ranges(self.stream_ranges@, bytes)
    }

    /// Sees more bytes, range by range.
    fn extend(&mut self, bytes: &[u8], Ghost(start): Ghost<Seq<u8>>)
        requires
            old(self).covers(start),
            start.len() + bytes@.len() <= u64::MAX,
        ensures
            final(self).covers(start + bytes@),
    {
        let mut from: usize = 0;
        proof {
            assert(start + bytes@.take(0) == start);
        }
        while from < bytes.len()
            invariant
                from <= bytes@.len(),
                start.len() + bytes@.len() <= u64::MAX,
                self.covers(start + bytes@.take(from as int)),
            decreases bytes@.len() - from,
        {
            let ghost seen = start + bytes@.take(from as int);
            let available: usize = STREAM_RANGE_BYTES - self.pending_range_length;
            let left: usize = bytes.len() - from;
            let take: usize = if available < left {
                available
            } else {
                left
            };
            let chunk = vstd::slice::slice_subrange(bytes, from, from + take);
            let ghost now = start + bytes@.take(from + take);
            let ghost done = self.stream_ranges@.len() * 0x1_0000;
            proof {
                assert(now == seen + chunk@);
                assert(now.skip(done as int) == seen.skip(done as int) + chunk@);
                assert forall|k: int| 0 <= k < self.stream_ranges@.len() implies is_range(
                    #[trigger] self.stream_ranges@[k],
                    now,
                    k,
                ) by {
                    assert(is_range(self.stream_ranges@[k], seen, k));
                    assert(range_bytes(now, k) == range_bytes(seen, k));
                }
            }
            feed(&mut self.pending_range_hasher, chunk);
            self.pending_range_length = self.pending_range_length + take;
            self.length = self.length + take as u64;
            from = from + take;
            if self.pending_range_length == STREAM_RANGE_BYTES {
                proof {
                    let n = self.stream_ranges@.len() as int;
                    assert(range_bytes(now, n) == now.skip(done as int));
                }
                let sha256 = digest_text(&self.pending_range_hasher);
                self.stream_ranges.push(
                    PayloadRange {
                        offset: self.length - self.pending_range_length as u64,
                        length: self.pending_range_length as u64,
                        sha256,
                    },
                );
                self.pending_range_length = 0;
                self.pending_range_hasher = new_hasher();
                proof {
                    assert(now.skip((done + 0x1_0000) as int) == Seq::<u8>::empty());
                }
            }
        }
        proof {
            assert(bytes@.take(bytes@.len() as int) == bytes@);
        }
    }
}

impl Default for PayloadMetadataBuilder {
    fn default() -> (r: Self)
        ensures
            r.bytes() == Seq::<u8>::empty(),
    {
        PayloadMetadataBuilder::new()
    }
}

/// The metadata of a payload.
pub fn payload_metadata(bytes: &[u8]) -> (r: PayloadMetadata)
    ensures
        describes(r, bytes@),
        is_sound(r),
{
    let mut builder = PayloadMetadataBuilder::new();
    let total: usize = bytes.len();
    proof {
        assert(bytes@.len() == total);
    }
    builder.update(bytes);
    proof {
        assert(Seq::<u8>::empty() + bytes@ == bytes@);
    }
    builder.metadata()
}

/// Whether the metadata is that of a direct, exact observation with nothing left open.
pub open spec fn is_direct(e: EpistemicMetadata) -> bool {
    e.class == EpistemicClass::DirectObservation && e.confidence == Confidence::Exact
        && e.alternatives@.len() == 0 && e.falsifier is None && e.unknowns@.len() == 0
}

/// The metadata of a direct, exact observation.
pub fn direct_epistemic() -> (r: EpistemicMetadata)
    ensures
        is_direct(r),
{
    EpistemicMetadata {
        class: EpistemicClass::DirectObservation,
        confidence: Confidence::Exact,
        alternatives: Vec::new(),
        falsifier: None,
        unknowns: Vec::new(),
    }
}

/// The counters of a capture that lost nothing.
pub fn no_loss() -> (r: LossCounters)
    ensures
        r == (LossCounters { dropped_records: 0, dropped_bytes: 0, truncated_payloads: 0 }),
{
    LossCounters { dropped_records: 0, dropped_bytes: 0, truncated_payloads: 0 }
}

/// What can be compared, apart from how it is stored.
pub trait Alike: Sized {
    /// Whether two values are the same.
    spec fn alike(&self, other: &Self) -> bool;

    /// Whether two values are the same.
    fn same_as(&self, other: &Self) -> (r: bool)
        ensures
            r == self.alike(other),
    ;
}

/// Whether two rows are the same.
pub open spec fn rows_alike<T: Alike>(a: Seq<T>, b: Seq<T>) -> bool {
    a.len() == b.len() && forall|i: int| 0 <= i < a.len() ==> (#[trigger] a[i]).alike(&b[i])
}

/// Whether two rows are the same.
fn same_rows<T: Alike>(a: &Vec<T>, b: &Vec<T>) -> (r: bool)
    ensures
        r == rows_alike(a@, b@),
{
    if a.len() != b.len() {
        return false;
    }
    let mut i: usize = 0;
    while i < a.len()
        invariant
            a@.len() == b@.len(),
            i <= a@.len(),
            forall|k: int| 0 <= k < i ==> (#[trigger] a@[k]).alike(&b@[k]),
        decreases a@.len() - i,
    {
        if !a[i].same_as(&b[i]) {
            proof {
                assert(!a@[i as int].alike(&b@[i as int]));
            }
            return false;
        }
        i = i + 1;
    }
    true
}

impl Alike for CaptureInterface {
    open spec fn alike(&self, other: &Self) -> bool {
        self.id@ == other.id@ && self.interface_type == other.interface_type && self.role@
            == other.role@
    }

    fn same_as(&self, other: &Self) -> (r: bool) {
        same(self.id.as_str(), other.id.as_str()) && self.interface_type == other.interface_type
            && same(self.role.as_str(), other.role.as_str())
    }
}

impl Alike for CaptureClock {
    open spec fn alike(&self, other: &Self) -> bool {
        self.id@ == other.id@ && self.clock_type == other.clock_type && self.unit == other.unit
    }

    fn same_as(&self, other: &Self) -> (r: bool) {
        same(self.id.as_str(), other.id.as_str()) && self.clock_type == other.clock_type
            && self.unit == other.unit
    }
}

impl Alike for ClockMapping {
    open spec fn alike(&self, other: &Self) -> bool {
        self.from@ == other.from@ && self.to@ == other.to@ && self.offset == other.offset
            && self.uncertainty == other.uncertainty
    }

    fn same_as(&self, other: &Self) -> (r: bool) {
        same(self.from.as_str(), other.from.as_str()) && same(self.to.as_str(), other.to.as_str())
            && self.offset == other.offset && self.uncertainty == other.uncertainty
    }
}

impl Alike for Redaction {
    open spec fn alike(&self, other: &Self) -> bool {
        self.field@ == other.field@ && self.method == other.method
    }

    fn same_as(&self, other: &Self) -> (r: bool) {
        same(self.field.as_str(), other.field.as_str()) && self.method == other.method
    }
}

impl Alike for ArtifactMetadata {
    open spec fn alike(&self, other: &Self) -> bool {
        self.id@ == other.id@ && self.length == other.length && self.sha256@ == other.sha256@
            && self.media_type@ == other.media_type@
    }

    fn same_as(&self, other: &Self) -> (r: bool) {
        same(self.id.as_str(), other.id.as_str()) && self.length == other.length && same(
            self.sha256.as_str(),
            other.sha256.as_str(),
        ) && same(self.media_type.as_str(), other.media_type.as_str())
    }
}

impl Alike for NameMap<String> {
    open spec fn alike(&self, other: &Self) -> bool {
        self.entries().len() == other.entries().len() && forall|i: int|
            0 <= i < self.entries().len() ==> (#[trigger] self.entries()[i]).0@
                == other.entries()[i].0@ && self.entries()[i].1@ == other.entries()[i].1@
    }

    fn same_as(&self, other: &Self) -> (r: bool) {
        if self.len() != other.len() {
            return false;
        }
        let mut i: usize = 0;
        while i < self.len()
            invariant
                self.entries().len() == other.entries().len(),
                i <= self.entries().len(),
                forall|k: int|
                    0 <= k < i ==> (#[trigger] self.entries()[k]).0@ == other.entries()[k].0@
                        && self.entries()[k].1@ == other.entries()[k].1@,
            decreases self.entries().len() - i,
        {
            if !same(self.key_at(i).as_str(), other.key_at(i).as_str()) || !same(
                self.value_at(i).as_str(),
                other.value_at(i).as_str(),
            ) {
                return false;
            }
            i = i + 1;
        }
        true
    }
}

impl Alike for CameraContext {
    open spec fn alike(&self, other: &Self) -> bool {
        self.manufacturer@ == other.manufacturer@ && self.model@ == other.model@ && self.body_id@
            == other.body_id@ && self.firmware@ == other.firmware@
    }

    fn same_as(&self, other: &Self) -> (r: bool) {
        same(self.manufacturer.as_str(), other.manufacturer.as_str()) && same(
            self.model.as_str(),
            other.model.as_str(),
        ) && same(self.body_id.as_str(), other.body_id.as_str()) && same(
            self.firmware.as_str(),
            other.firmware.as_str(),
        )
    }
}

impl Alike for ClientContext {
    open spec fn alike(&self, other: &Self) -> bool {
        self.artifact@ == other.artifact@ && self.version@ == other.version@ && self.platform@
            == other.platform@
    }

    fn same_as(&self, other: &Self) -> (r: bool) {
        same(self.artifact.as_str(), other.artifact.as_str()) && same(
            self.version.as_str(),
            other.version.as_str(),
        ) && same(self.platform.as_str(), other.platform.as_str())
    }
}

impl Alike for CaptureContext {
    open spec fn alike(&self, other: &Self) -> bool {
        rows_alike(self.interfaces@, other.interfaces@) && rows_alike(
            self.clocks@,
            other.clocks@,
        ) && rows_alike(self.clock_mappings@, other.clock_mappings@) && self.loss == other.loss
            && rows_alike(self.redactions@, other.redactions@) && self.tool_versions.alike(
            &other.tool_versions,
        ) && rows_alike(self.artifacts@, other.artifacts@)
    }

    fn same_as(&self, other: &Self) -> (r: bool) {
        same_rows(&self.interfaces, &other.interfaces) && same_rows(&self.clocks, &other.clocks)
            && same_rows(&self.clock_mappings, &other.clock_mappings)
            && self.loss.dropped_records == other.loss.dropped_records
            && self.loss.dropped_bytes == other.loss.dropped_bytes
            && self.loss.truncated_payloads == other.loss.truncated_payloads && same_rows(
            &self.redactions,
            &other.redactions,
        ) && self.tool_versions.same_as(&other.tool_versions) && same_rows(
            &self.artifacts,
            &other.artifacts,
        )
    }
}

impl Alike for EpistemicMetadata {
    open spec fn alike(&self, other: &Self) -> bool {
        self.class == other.class && self.confidence == other.confidence && views(
            self.alternatives@,
        ) == views(other.alternatives@) && optional_text(self.falsifier) == optional_text(
            other.falsifier,
        ) && views(self.unknowns@) == views(other.unknowns@)
    }

    fn same_as(&self, other: &Self) -> (r: bool) {
        self.class == other.class && self.confidence == other.confidence && same_texts(
            &self.alternatives,
            &other.alternatives,
        ) && same_option(&self.falsifier, &other.falsifier) && same_texts(
            &self.unknowns,
            &other.unknowns,
        )
    }
}

impl Alike for BundleHeader {
    open spec fn alike(&self, other: &Self) -> bool {
        self.schema@ == other.schema@ && self.run_id@ == other.run_id@ && self.record_id@
            == other.record_id@ && self.ordinal == other.ordinal && self.camera.alike(
            &other.camera,
        ) && self.client.alike(&other.client) && self.capture.alike(&other.capture)
            && self.epistemic.alike(&other.epistemic)
    }

    fn same_as(&self, other: &Self) -> (r: bool) {
        same(self.schema.as_str(), other.schema.as_str()) && same(
            self.run_id.as_str(),
            other.run_id.as_str(),
        ) && same(self.record_id.as_str(), other.record_id.as_str()) && self.ordinal
            == other.ordinal && self.camera.same_as(&other.camera) && self.client.same_as(
            &other.client,
        ) && self.capture.same_as(&other.capture) && self.epistemic.same_as(&other.epistemic)
    }
}

/// Why a recorder did not record.
#[derive(Debug, Clone, PartialEq, Eq)]
pub enum RecorderError {
    Io(String),
    Json(String),
    Contract(String),
}

/// What a recorder error says.
pub open spec fn recorder_error_text(e: RecorderError) -> Seq<char> {
    match e {
        RecorderError::Io(m) => "observation recorder I/O failed: "@ + m@,
        RecorderError::Json(m) => "observation recorder JSON failed: "@ + m@,
        RecorderError::Contract(m) => "observation recorder contract failed: "@ + m@,
    }
}

impl RecorderError {
    /// What the error says.
    pub fn message(&self) -> (r: String)
        ensures
            r@ == recorder_error_text(*self),
    {
        match self {
            RecorderError::Io(m) => join2("observation recorder I/O failed: ", m.as_str()),
            RecorderError::Json(m) => join2("observation recorder JSON failed: ", m.as_str()),
            RecorderError::Contract(m) => join2(
                "observation recorder contract failed: ",
                m.as_str(),
            ),
        }
    }
}

/// Whether a header can open a bundle.
pub open spec fn opens(h: BundleHeader) -> bool {
    h.schema@ == OBSERVATION_SCHEMA_VERSION@ && h.ordinal == 0 && h.run_id@.len() > 0
        && h.record_id@.len() > 0
}

/// Whether a line is line `i` of the run.
pub open spec fn is_line(l: ObservationLine, run: Seq<char>, i: int) -> bool {
    line_schema(l) == OBSERVATION_SCHEMA_VERSION@ && line_run(l) == run && line_ordinal(l) == i
}

/// Why a bundle cannot be appended to, from line `i` on.
pub open spec fn line_violation(v: Seq<ObservationLine>, run: Seq<char>, i: int) -> Option<Seq<char>>
    decreases v.len() - i,
{
    if i < 0 || i >= v.len() {
        None
    } else if !is_line(v[i], run, i) {
        Some("existing bundle record "@ + decimal(i) + " has incoherent identity"@)
    } else {
        line_violation(v, run, i + 1)
    }
}

/// Why a bundle cannot be appended to with the header.
pub open spec fn bundle_violation(v: Seq<ObservationLine>, h: BundleHeader) -> Option<Seq<char>> {
    if v.len() == 0 || v[0] !is BundleHeader {
        Some("existing bundle does not begin with a header"@)
    } else if !v[0]->BundleHeader_0.alike(&h) {
        Some("existing bundle header does not match this recorder"@)
    } else {
        line_violation(v, h.run_id@, 0)
    }
}

/// Checks that a header can open a bundle.
pub fn require_header(header: &BundleHeader) -> (r: Result<(), RecorderError>)
    ensures
        match r {
            Ok(_) => opens(*header),
            Err(e) => !opens(*header) && (e matches RecorderError::Contract(m) && m@
                == "header must use camera-observation/v1 with nonempty IDs and ordinal zero"@),
        },
{
    if !same(header.schema.as_str(), OBSERVATION_SCHEMA_VERSION) || header.ordinal != 0
        || header.run_id.as_str().unicode_len() == 0 || header.record_id.as_str().unicode_len()
        == 0 {
        return Err(
            RecorderError::Contract(
                "header must use camera-observation/v1 with nonempty IDs and ordinal zero".to_owned(),
            ),
        );
    }
    Ok(())
}

/// Why a bundle cannot be opened.
pub open spec fn open_violation(
    h: BundleHeader,
    existing: Option<Vec<ObservationLine>>,
) -> Option<Seq<char>> {
    if !opens(h) {
        Some("header must use camera-observation/v1 with nonempty IDs and ordinal zero"@)
    } else {
        match existing {
            Some(v) => bundle_violation(v@, h),
            None => None,
        }
    }
}

/// Where nothing is wrong with the lines from `i` on, they are lines of the run.
proof fn sound_lines(v: Seq<ObservationLine>, run: Seq<char>, i: int)
    requires
        0 <= i <= v.len(),
        line_violation(v, run, i) is None,
    ensures
        forall|k: int| i <= k < v.len() ==> is_line(#[trigger] v[k], run, k),
    decreases v.len() - i,
{
    if i < v.len() {
        sound_lines(v, run, i + 1);
    }
}

/// Whether the common fields are those of the next record of the run.
pub open spec fn is_next_common(
    c: ObservationCommon,
    run: Seq<char>,
    ordinal: u64,
    context: ExecutionContext,
    elapsed_ms: u64,
) -> bool {
    &&& c.schema@ == OBSERVATION_SCHEMA_VERSION@
    &&& c.run_id@ == run
    &&& c.record_id@ == "record-"@ + zero_padded(digits_of(ordinal as nat, 16), 16)
    &&& c.ordinal == ordinal
    &&& c.context == context
    &&& c.time.clock@ == "process-monotonic"@
    &&& c.time.value == elapsed_ms
    &&& c.physical_context.entries().len() == 0
    &&& c.artifact_ranges@.len() == 0
    &&& is_direct(c.epistemic)
}

/// An append-only bundle: a header, and the records of its run in the order of their ordinals.
#[derive(Debug)]
pub struct ObservationRecorder {
    header: BundleHeader,
    records: Vec<ObservationLine>,
}

/// Checks the lines of a bundle that is there.
fn require_existing(lines: &Vec<ObservationLine>, expected: &BundleHeader) -> (r: Result<
    (),
    RecorderError,
>)
    ensures
        match r {
            Ok(_) => bundle_violation(lines@, *expected) is None,
            Err(e) => e matches RecorderError::Contract(m) && bundle_violation(lines@, *expected)
                == Some(m@),
        },
{
    if lines.len() == 0 {
        return Err(
            RecorderError::Contract("existing bundle does not begin with a header".to_owned()),
        );
    }
    match &lines[0] {
        ObservationLine::BundleHeader(actual) => {
            if !actual.same_as(expected) {
                return Err(
                    RecorderError::Contract(
                        "existing bundle header does not match this recorder".to_owned(),
                    ),
                );
            }
        },
        _ => {
            return Err(
                RecorderError::Contract(
                    "existing bundle does not begin with a header".to_owned(),
                ),
            );
        },
    }
    let mut i: usize = 0;
    while i < lines.len()
        invariant
            i <= lines@.len(),
            line_violation(lines@, expected.run_id@, 0) == line_violation(
                lines@,
                expected.run_id@,
                i as int,
            ),
            bundle_violation(lines@, *expected) == line_violation(lines@, expected.run_id@, 0),
        decreases lines@.len() - i,
    {
        let line = &lines[i];
        if !same(line.schema(), OBSERVATION_SCHEMA_VERSION) || !same(
            line.run_id(),
            expected.run_id.as_str(),
        ) || line.ordinal() != i as u64 {
            return Err(
                RecorderError::Contract(
                    join3(
                        "existing bundle record ",
                        u64_text(i as u64).as_str(),
                        " has incoherent identity",
                    ),
                ),
            );
        }
        i = i + 1;
    }
    Ok(())
}

impl ObservationRecorder {
    /// The run.
    pub closed spec fn run(&self) -> Seq<char> {
        self.header.run_id@
    }

    /// The lines, the header first.
    pub closed spec fn lines(&self) -> Seq<ObservationLine> {
        seq![ObservationLine::BundleHeader(self.header)] + self.records@
    }

    #[verifier::type_invariant]
    spec fn coherent(self) -> bool {
        &&& self.header.schema@ == OBSERVATION_SCHEMA_VERSION@
        &&& self.header.ordinal == 0
        &&& self.records@.len() < usize::MAX
        &&& forall|i: int|
            0 <= i < self.records@.len() ==> is_line(
                #[trigger] self.records@[i],
                self.header.run_id@,
                i + 1,
            )
    }

    /// A recorder's first line is a header, and line `i` is a line of its run with the ordinal `i`.
    pub fn ordered(&self)
        ensures
            self.lines().len() > 0,
            self.lines()[0] is BundleHeader,
            forall|i: int|
                0 <= i < self.lines().len() ==> is_line(#[trigger] self.lines()[i], self.run(), i),
    {
        proof {
            use_type_invariant(self);
            assert forall|i: int| 0 <= i < self.lines().len() implies is_line(
                #[trigger] self.lines()[i],
                self.run(),
                i,
            ) by {
                if i > 0 {
                    assert(self.lines()[i] == self.records@[i - 1]);
                    assert(is_line(self.records@[i - 1], self.run(), i));
                }
            }
        }
    }

    /// Opens a new bundle, or one that is there. The lines of one that is there are checked one by
    /// one before any append; a partial or foreign bundle fails closed.
    pub fn open(header: BundleHeader, existing: Option<Vec<ObservationLine>>) -> (r: Result<
        Self,
        RecorderError,
    >)
        ensures
            match r {
                Ok(recorder) => open_violation(header, existing) is None && recorder.run()
                    == header.run_id@ && recorder.lines() == (match existing {
                    Some(v) => v@,
                    None => seq![ObservationLine::BundleHeader(header)],
                }),
                Err(e) => e matches RecorderError::Contract(m) && open_violation(header, existing)
                    == Some(m@),
            },
    {
        match require_header(&header) {
            Err(e) => {
                return Err(e);
            },
            Ok(_) => {},
        }
        match existing {
            None => {
                let records: Vec<ObservationLine> = Vec::new();
                let r = ObservationRecorder { header, records };
                proof {
                    assert(r.lines() == seq![ObservationLine::BundleHeader(header)]);
                }
                Ok(r)
            },
            Some(lines) => {
                match require_existing(&lines, &header) {
                    Err(e) => {
                        return Err(e);
                    },
                    Ok(_) => {},
                }
                let ghost all = lines@;
                let total: usize = lines.len();
                proof {
                    sound_lines(all, header.run_id@, 0);
                }
                let mut records = lines;
                let leading = records.remove(0);
                match leading {
                    ObservationLine::BundleHeader(own) => {
                        proof {
                            assert(is_line(all[0], header.run_id@, 0));
                            assert forall|i: int| 0 <= i < records@.len() implies is_line(
                                #[trigger] records@[i],
                                own.run_id@,
                                i + 1,
                            ) by {
                                assert(records@[i] == all[i + 1]);
                                assert(is_line(all[i + 1], header.run_id@, i + 1));
                            }
                        }
                        let r = ObservationRecorder { header: own, records };
                        proof {
                            assert(r.lines() == all);
                        }
                        Ok(r)
                    },
                    _ => Err(
                        RecorderError::Contract(
                            "existing bundle does not begin with a header".to_owned(),
                        ),
                    ),
                }
            },
        }
    }

    /// The common fields of the next record, `elapsed_ms` milliseconds after the start.
    pub fn next_common(&self, context: ExecutionContext, elapsed_ms: u64) -> (r: ObservationCommon)
        ensures
            is_next_common(r, self.run(), self.lines().len() as u64, context, elapsed_ms),
    {
        proof {
            use_type_invariant(self);
        }
        let ordinal: u64 = self.records.len() as u64 + 1;
        ObservationCommon {
            schema: OBSERVATION_SCHEMA_VERSION.to_owned(),
            run_id: self.header.run_id.clone(),
            record_id: join2(
                "record-",
                pad_zero(number_text(ordinal as u128, 16), 16).as_str(),
            ),
            ordinal,
            context,
            time: ClockPoint { clock: "process-monotonic".to_owned(), value: elapsed_ms },
            physical_context: NameMap::new(),
            artifact_ranges: Vec::new(),
            epistemic: direct_epistemic(),
        }
    }

    /// Whether a line can be appended: it is the next of the run, and its ordinal is not the last
    /// that there is.
    pub fn accepts(&self, line: &ObservationLine) -> (r: Result<(), RecorderError>)
        ensures
            match r {
                Ok(_) => append_violation(*line, self.run(), self.lines().len()) is None,
                Err(e) => e matches RecorderError::Contract(m) && append_violation(
                    *line,
                    self.run(),
                    self.lines().len(),
                ) == Some(m@),
            },
    {
        proof {
            use_type_invariant(self);
        }
        if !same(line.schema(), OBSERVATION_SCHEMA_VERSION) || !same(
            line.run_id(),
            self.header.run_id.as_str(),
        ) || line.ordinal() != self.records.len() as u64 + 1 {
            return Err(
                RecorderError::Contract(
                    "record builder changed canonical identity fields".to_owned(),
                ),
            );
        }
        if self.records.len() >= usize::MAX - 1 {
            return Err(RecorderError::Contract("ordinal overflow".to_owned()));
        }
        Ok(())
    }

    /// Appends a line, where it is the next of the run; its ordinal.
    pub fn append_line(&mut self, line: ObservationLine) -> (r: Result<u64, RecorderError>)
        ensures
            final(self).run() == old(self).run(),
            match r {
                Ok(ordinal) => append_violation(line, old(self).run(), old(self).lines().len())
                    is None && ordinal == old(self).lines().len() && final(self).lines() == old(
                    self,
                ).lines().push(line),
                Err(e) => final(self).lines() == old(self).lines() && (
                e matches RecorderError::Contract(m) && append_violation(
                    line,
                    old(self).run(),
                    old(self).lines().len(),
                ) == Some(m@)),
            },
    {
        proof {
            use_type_invariant(&*self);
        }
        match self.accepts(&line) {
            Err(e) => {
                return Err(e);
            },
            Ok(_) => {},
        }
        let ghost before = self.records@;
        let ordinal: u64 = self.records.len() as u64 + 1;
        let mut records: Vec<ObservationLine> = Vec::new();
        std::mem::swap(&mut self.records, &mut records);
        records.push(line);
        proof {
            assert(records@ == before.push(line));
            assert forall|i: int| 0 <= i < records@.len() implies is_line(
                #[trigger] records@[i],
                self.header.run_id@,
                i + 1,
            ) by {
                if i < before.len() {
                    assert(is_line(before[i], self.header.run_id@, i + 1));
                }
            }
        }
        self.records = records;
        proof {
            assert(self.lines() == old(self).lines().push(line));
        }
        Ok(ordinal)
    }

    /// Appends the record that `make` builds from the common fields; its ordinal.
    pub fn append<F: FnOnce(ObservationCommon) -> ObservationLine>(
        &mut self,
        context: ExecutionContext,
        elapsed_ms: u64,
        make: F,
    ) -> (r: Result<u64, RecorderError>)
        requires
            forall|c: ObservationCommon| call_requires(make, (c,)),
        ensures
            final(self).run() == old(self).run(),
            exists|c: ObservationCommon, line: ObservationLine|
                #![trigger call_ensures(make, (c,), line)]
                is_next_common(
                    c,
                    old(self).run(),
                    old(self).lines().len() as u64,
                    context,
                    elapsed_ms,
                ) && call_ensures(make, (c,), line) && (match r {
                    Ok(ordinal) => append_violation(line, old(self).run(), old(self).lines().len())
                        is None && ordinal == old(self).lines().len() && final(self).lines() == old(
                        self,
                    ).lines().push(line),
                    Err(e) => final(self).lines() == old(self).lines() && (
                    e matches RecorderError::Contract(m) && append_violation(
                        line,
                        old(self).run(),
                        old(self).lines().len(),
                    ) == Some(m@)),
                }),
    {
        let common = self.next_common(context, elapsed_ms);
        let line = make(common);
        self.append_line(line)
    }

    /// Appends a lifecycle marker; its ordinal.
    pub fn record_lifecycle(
        &mut self,
        context: ExecutionContext,
        elapsed_ms: u64,
        marker: LifecycleMarker,
        transition: Option<StateTransition>,
        attempt: Option<u32>,
        detail: NameMap<String>,
    ) -> (r: Result<u64, RecorderError>)
        ensures
            final(self).run() == old(self).run(),
            match r {
                Ok(ordinal) => ordinal == old(self).lines().len() && exists|c: ObservationCommon|
                    #[trigger] is_next_common(
                        c,
                        old(self).run(),
                        ordinal,
                        context,
                        elapsed_ms,
                    ) && final(self).lines() == old(self).lines().push(
                        ObservationLine::Lifecycle(
                            LifecycleRecord { common: c, marker, transition, attempt, detail },
                        ),
                    ),
                Err(e) => final(self).lines() == old(self).lines() && old(self).lines().len()
                    >= usize::MAX && (e matches RecorderError::Contract(m) && m@
                    == "ordinal overflow"@),
            },
    {
        let common = self.next_common(context, elapsed_ms);
        proof {
            use_type_invariant(&*self);
        }
        self.append_line(
            ObservationLine::Lifecycle(
                LifecycleRecord { common, marker, transition, attempt, detail },
            ),
        )
    }

    /// Appends an invocation of an action; its ordinal.
    pub fn record_action(
        &mut self,
        context: ExecutionContext,
        elapsed_ms: u64,
        catalog_revision: String,
        action_id: String,
        role: ActionRole,
        parameters: NameMap<Json>,
        outcome: ActionOutcome,
    ) -> (r: Result<u64, RecorderError>)
        ensures
            final(self).run() == old(self).run(),
            match r {
                Ok(ordinal) => ordinal == old(self).lines().len() && exists|c: ObservationCommon|
                    #[trigger] is_next_common(
                        c,
                        old(self).run(),
                        ordinal,
                        context,
                        elapsed_ms,
                    ) && final(self).lines() == old(self).lines().push(
                        ObservationLine::ActionInvocation(
                            ActionInvocationRecord {
                                common: c,
                                catalog_revision,
                                action_id,
                                role,
                                parameters,
                                outcome,
                            },
                        ),
                    ),
                Err(e) => final(self).lines() == old(self).lines() && old(self).lines().len()
                    >= usize::MAX && (e matches RecorderError::Contract(m) && m@
                    == "ordinal overflow"@),
            },
    {
        let common = self.next_common(context, elapsed_ms);
        proof {
            use_type_invariant(&*self);
        }
        self.append_line(
            ObservationLine::ActionInvocation(
                ActionInvocationRecord {
                    common,
                    catalog_revision,
                    action_id,
                    role,
                    parameters,
                    outcome,
                },
            ),
        )
    }

    /// The run that the recorder records.
    pub fn run_id(&self) -> (r: &str)
        ensures
            r@ == self.run(),
    {
        self.header.run_id.as_str()
    }

    /// The header of the bundle.
    pub fn header(&self) -> (r: &BundleHeader)
        ensures
            self.lines()[0] == ObservationLine::BundleHeader(*r),
    {
        &self.header
    }

    /// The records with an ordinal above `after`, in the order of their ordinals.
    pub fn records_after(&self, after: u64) -> (r: Vec<&ObservationLine>)
        ensures
            r@.len() == (if after + 1 < self.lines().len() {
                self.lines().len() - after - 1
            } else {
                0
            }),
            forall|i: int|
                0 <= i < r@.len() ==> *(#[trigger] r@[i]) == self.lines()[after + 1 + i],
    {
        proof {
            use_type_invariant(self);
        }
        let mut out: Vec<&ObservationLine> = Vec::new();
        if after < self.records.len() as u64 {
            let mut i: usize = after as usize;
            while i < self.records.len()
                invariant
                    after <= i <= self.records@.len(),
                    out@.len() == i - after,
                    forall|k: int|
                        0 <= k < out@.len() ==> *(#[trigger] out@[k]) == self.lines()[after + 1
                            + k],
                decreases self.records@.len() - i,
            {
                proof {
                    assert(self.lines()[i + 1] == self.records@[i as int]);
                }
                out.push(&self.records[i]);
                i = i + 1;
            }
        }
        out
    }

    /// The ordinal of the last line.
    pub fn cursor(&self) -> (r: u64)
        ensures
            r == self.lines().len() - 1,
    {
        self.records.len() as u64
    }
}

/// Why a line is not appended to a bundle with `n` lines.
pub open spec fn append_violation(l: ObservationLine, run: Seq<char>, n: nat) -> Option<Seq<char>> {
    if !is_line(l, run, n as int) {
        Some("record builder changed canonical identity fields"@)
    } else if n >= usize::MAX {
        Some("ordinal overflow"@)
    } else {
        None
    }
}

/// Lines of a run, each with its place as its ordinal, have nothing wrong with them.
proof fn no_line_violation(v: Seq<ObservationLine>, run: Seq<char>, i: int)
    requires
        0 <= i,
        forall|k: int| 0 <= k < v.len() ==> is_line(#[trigger] v[k], run, k),
    ensures
        line_violation(v, run, i) is None,
    decreases v.len() - i,
{
    if i < v.len() {
        assert(is_line(v[i], run, i));
        no_line_violation(v, run, i + 1);
    }
}

/// What a recorder holds, a header and the lines of its run in order, can be opened again with that
/// header. A restart goes on where the recorder was.
pub proof fn recorded_bundle_reopens(v: Seq<ObservationLine>, h: BundleHeader)
    requires
        opens(h),
        v.len() > 0,
        v[0] == ObservationLine::BundleHeader(h),
        forall|k: int| 0 <= k < v.len() ==> is_line(#[trigger] v[k], h.run_id@, k),
    ensures
        bundle_violation(v, h) is None,
{
    no_line_violation(v, h.run_id@, 0);
    assert(h.alike(&h));
}

/// A bundle of another run is refused.
pub proof fn foreign_bundle_is_refused(v: Seq<ObservationLine>, h: BundleHeader)
    requires
        v.len() > 0,
        line_run(v[0]) != h.run_id@,
    ensures
        bundle_violation(v, h) is Some,
{
}

} // verus!
