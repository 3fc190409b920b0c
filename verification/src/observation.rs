//! Observation bundles: one header line and the records captured in one run.

use crate::json::Json;
use crate::name_map::NameMap;
use crate::text::{
    all_digits, decimal, digit_char, digit_value, digits_of, digits_value, i128_text, is_digit,
    number_text, parse_signed, parse_unsigned, same, signed_value, unsigned_value,
};
use vstd::prelude::*;

verus! {

/// The greatest length of a payload that a record may hold inline.
pub const MAX_INLINE_PAYLOAD_BYTES: u64 = 4096;

#[derive(Debug, Clone, PartialEq)]
pub enum ObservationLine {
    BundleHeader(BundleHeader),
    Lifecycle(LifecycleRecord),
    BleGatt(BleGattRecord),
    PtpTransaction(Box<PtpTransactionRecord>),
    PtpEvent(PtpEventRecord),
    HttpExchange(HttpExchangeRecord),
    Capability(Box<CapabilityRecord>),
    ActionInvocation(ActionInvocationRecord),
}

#[derive(Debug, Clone, PartialEq)]
pub struct BundleHeader {
    pub schema: String,
    pub run_id: String,
    pub record_id: String,
    pub ordinal: u64,
    pub camera: CameraContext,
    pub client: ClientContext,
    pub capture: CaptureContext,
    pub epistemic: EpistemicMetadata,
}

#[derive(Debug, Clone, PartialEq, Eq)]
pub struct CameraContext {
    pub manufacturer: String,
    pub model: String,
    /// Sanitized stable pseudonym for the physical body; never a serial number.
    pub body_id: String,
    pub firmware: String,
}

#[derive(Debug, Clone, PartialEq, Eq)]
pub struct ClientContext {
    pub artifact: String,
    pub version: String,
    pub platform: String,
}

#[derive(Debug, Clone, PartialEq)]
pub struct CaptureContext {
    pub interfaces: Vec<CaptureInterface>,
    pub clocks: Vec<CaptureClock>,
    pub clock_mappings: Vec<ClockMapping>,
    pub loss: LossCounters,
    pub redactions: Vec<Redaction>,
    pub tool_versions: NameMap<String>,
    pub artifacts: Vec<ArtifactMetadata>,
}

#[derive(Debug, Clone, PartialEq, Eq)]
pub struct CaptureInterface {
    pub id: String,
    pub interface_type: CaptureInterfaceType,
    pub role: String,
}

#[derive(Debug, Clone, Copy, PartialEq, Eq, Structural)]
pub enum CaptureInterfaceType {
    Ble,
    Tcp,
    Usb,
    Http,
    Synthetic,
}

#[derive(Debug, Clone, PartialEq, Eq)]
pub struct CaptureClock {
    pub id: String,
    pub clock_type: ClockType,
    pub unit: ClockUnit,
}

#[derive(Debug, Clone, Copy, PartialEq, Eq, Structural)]
pub enum ClockType {
    Monotonic,
    Wall,
    Device,
}

#[derive(Debug, Clone, Copy, PartialEq, Eq, Structural)]
pub enum ClockUnit {
    Nanoseconds,
    Microseconds,
    Milliseconds,
}

#[derive(Debug, Clone, PartialEq, Eq)]
pub struct ClockMapping {
    pub from: String,
    pub to: String,
    pub offset: i64,
    pub uncertainty: u64,
}

#[derive(Debug, Clone, Copy, PartialEq, Eq)]
pub struct LossCounters {
    pub dropped_records: u64,
    pub dropped_bytes: u64,
    pub truncated_payloads: u64,
}

#[derive(Debug, Clone, PartialEq, Eq)]
pub struct Redaction {
    pub field: String,
    pub method: RedactionMethod,
}

#[derive(Debug, Clone, Copy, PartialEq, Eq, Structural)]
pub enum RedactionMethod {
    Removed,
    Pseudonymized,
    Hashed,
}

#[derive(Debug, Clone, PartialEq, Eq)]
pub struct ArtifactMetadata {
    pub id: String,
    pub length: u64,
    pub sha256: String,
    pub media_type: String,
}

#[derive(Debug, Clone, PartialEq)]
pub struct ObservationCommon {
    pub schema: String,
    pub run_id: String,
    pub record_id: String,
    pub ordinal: u64,
    pub context: ExecutionContext,
    pub time: ClockPoint,
    pub physical_context: NameMap<String>,
    pub artifact_ranges: Vec<ArtifactRange>,
    pub epistemic: EpistemicMetadata,
}

#[derive(Debug, Clone, PartialEq, Eq, PartialOrd, Ord)]
pub struct ExecutionContext {
    pub connection: String,
    pub mode: String,
    pub state: String,
}

#[derive(Debug, Clone, PartialEq, Eq)]
pub struct ClockPoint {
    pub clock: String,
    pub value: u64,
}

#[derive(Debug, Clone, PartialEq, Eq)]
pub struct ArtifactRange {
    pub artifact: String,
    pub offset: u64,
    pub length: u64,
}

#[derive(Debug, Clone, PartialEq, Eq)]
pub struct EpistemicMetadata {
    pub class: EpistemicClass,
    pub confidence: Confidence,
    pub alternatives: Vec<String>,
    pub falsifier: Option<String>,
    pub unknowns: Vec<String>,
}

#[derive(Debug, Clone, Copy, PartialEq, Eq, Structural)]
pub enum EpistemicClass {
    DirectObservation,
    DeterministicReduction,
    Inference,
    SyntheticFixture,
}

#[derive(Debug, Clone, Copy, PartialEq, Eq, PartialOrd, Ord, Structural)]
pub enum Confidence {
    Exact,
    High,
    Medium,
    Low,
    Unknown,
}

#[derive(Debug, Clone, PartialEq)]
pub struct LifecycleRecord {
    pub common: ObservationCommon,
    pub marker: LifecycleMarker,
    pub transition: Option<StateTransition>,
    pub attempt: Option<u32>,
    pub detail: NameMap<String>,
}

#[derive(Debug, Clone, Copy, PartialEq, Eq, Structural)]
pub enum LifecycleMarker {
    Discovery,
    Association,
    ConnectionOpened,
    SessionOpened,
    ModeTransition,
    StateTransition,
    Retry,
    Teardown,
    SessionClosed,
    ConnectionClosed,
}

#[derive(Debug, Clone, PartialEq, Eq)]
pub struct StateTransition {
    pub from: String,
    pub to: String,
}

#[derive(Debug, Clone, PartialEq)]
pub struct BleGattRecord {
    pub common: ObservationCommon,
    pub connection_instance: String,
    pub operation: BleGattOperation,
    pub service: String,
    pub characteristic: String,
    pub outcome: TransportOutcome,
    pub payload: Option<PayloadMetadata>,
}

#[derive(Debug, Clone, Copy, PartialEq, Eq, Structural)]
pub enum BleGattOperation {
    Discover,
    Read,
    Write,
    Subscribe,
    Notify,
    Indicate,
}

#[derive(Debug, Clone, Copy, PartialEq, Eq, Structural)]
pub enum TransportOutcome {
    Completed,
    Timeout,
    Abort,
    Incomplete,
}

#[derive(Debug, Clone, PartialEq)]
pub struct PtpTransactionRecord {
    pub common: ObservationCommon,
    pub transport: PtpTransport,
    pub connection_instance: String,
    pub session: String,
    pub endpoint_set: String,
    pub transaction_id: u32,
    pub request: PtpRequest,
    pub response: Option<PtpResponse>,
    pub outcome: TransactionOutcome,
    pub evidence_basis: Option<ControlEvidenceBasis>,
    pub observed_effect: Option<ControlObservedEffect>,
    pub readback: Option<Readback>,
}

#[derive(Debug, Clone, Copy, PartialEq, Eq, Structural)]
pub enum PtpTransport {
    PtpIp,
    Usb,
}

#[derive(Debug, Clone, PartialEq)]
pub struct PtpRequest {
    pub framing: String,
    pub operation: String,
    pub parameters: Vec<u32>,
    pub data: Option<PtpDataPhase>,
}

#[derive(Debug, Clone, PartialEq)]
pub struct PtpResponse {
    pub code: String,
    pub parameters: Vec<u32>,
    pub data: Option<PtpDataPhase>,
}

#[derive(Debug, Clone, PartialEq)]
pub struct PtpDataPhase {
    pub direction: DataDirection,
    pub payload: PayloadMetadata,
}

#[derive(Debug, Clone, Copy, PartialEq, Eq, Structural)]
pub enum DataDirection {
    HostToCamera,
    CameraToHost,
}

#[derive(Debug, Clone, Copy, PartialEq, Eq, Structural)]
pub enum TransactionOutcome {
    Completed,
    NonOk,
    Timeout,
    TransportAbort,
    Incomplete,
}

#[derive(Debug, Clone, Copy, PartialEq, Eq, Structural)]
pub enum ControlEvidenceBasis {
    DescriptorOnly,
    WriteProbe,
}

#[derive(Debug, Clone, Copy, PartialEq, Eq, Structural)]
pub enum ControlObservedEffect {
    Confirmed,
    AckNoEffect,
    ProtocolRefused,
    DestructiveClamp,
    Unknown,
}

#[derive(Debug, Clone, PartialEq)]
pub enum Readback {
    Observed {
        baseline: Json,
        request: Json,
        settling: SettlingRule,
        observed: Json,
        observed_at: ClockPoint,
        source: ReadbackSource,
    },
    NotObserved {
        reason: String,
    },
}

#[derive(Debug, Clone, PartialEq, Eq)]
pub struct SettlingRule {
    pub deadline_ms: u64,
    pub poll_interval_ms: Option<u64>,
    pub stable_samples: Option<u32>,
}

#[derive(Debug, Clone, Copy, PartialEq, Eq, Structural)]
pub enum ReadbackSource {
    DirectProperty,
    DeclaredReadback,
    Event,
    HttpResponse,
}

#[derive(Debug, Clone, PartialEq)]
pub struct PtpEventRecord {
    pub common: ObservationCommon,
    pub connection_instance: String,
    pub session: String,
    pub endpoint_set: String,
    pub transaction_id: u32,
    pub transaction_record_id: Option<String>,
    pub event: String,
    pub parameters: Vec<u32>,
    pub payload: Option<PayloadMetadata>,
}

#[derive(Debug, Clone, PartialEq)]
pub struct HttpExchangeRecord {
    pub common: ObservationCommon,
    pub connection_instance: String,
    pub request: HttpRequest,
    pub response: Option<HttpResponse>,
    pub outcome: TransportOutcome,
}

#[derive(Debug, Clone, PartialEq)]
pub struct HttpRequest {
    pub method: String,
    pub target: String,
    pub headers: NameMap<String>,
    pub body: Option<PayloadMetadata>,
}

#[derive(Debug, Clone, PartialEq)]
pub struct HttpResponse {
    pub status: u16,
    pub headers: NameMap<String>,
    pub body: Option<PayloadMetadata>,
}

#[derive(Debug, Clone, PartialEq)]
pub struct CapabilityRecord {
    pub common: ObservationCommon,
    pub subject: CapabilitySubject,
    /// Completeness of the operation or property inventory in this record's exact camera +
    /// execution context.
    pub inventory_completeness: InventoryCompleteness,
    pub evidence_basis: ControlEvidenceBasis,
    pub observed_effect: ControlObservedEffect,
    pub readback: Readback,
}

#[derive(Debug, Clone, Copy, Default, PartialEq, Eq, PartialOrd, Ord, Structural)]
pub enum InventoryCompleteness {
    #[default]
    Partial,
    Complete,
}

#[derive(Debug, Clone, PartialEq)]
pub enum CapabilitySubject {
    Identity {
        device_version: String,
    },
    Operation {
        code: String,
        supported: bool,
        canonical_name: Option<Box<SemanticNameAssertion>>,
    },
    Property {
        code: String,
        supported: bool,
        canonical_name: Option<Box<SemanticNameAssertion>>,
        source_native_name: Option<Box<SemanticNameAssertion>>,
        property_type: Option<String>,
        access: Option<String>,
        descriptor: Option<CapabilityDescriptor>,
        labels: NameMap<String>,
        value_rows: Vec<CapabilityValueRow>,
        value_profiles: Vec<CapabilityValueProfile>,
    },
}

/// A proposed consumer-neutral or source-native name together with the exact evidence and
/// epistemic claim that supports it.
#[derive(Debug, Clone, PartialEq, Eq)]
pub struct SemanticNameAssertion {
    pub name: String,
    pub provenance: AssertionProvenance,
}

/// Assertion-level provenance.
#[derive(Debug, Clone, PartialEq, Eq)]
pub struct AssertionProvenance {
    pub evidence_reference: String,
    pub epistemic: EpistemicMetadata,
}

/// A global property-value semantic assertion.
#[derive(Debug, Clone, PartialEq, Eq)]
pub struct CapabilityValueRow {
    pub value: TypedPropertyValue,
    pub label: String,
    pub provenance: AssertionProvenance,
}

#[derive(Debug, Clone, PartialEq, Eq, PartialOrd, Ord)]
pub enum TypedPropertyValue {
    I8 {
        value: i8,
    },
    I16 {
        value: i16,
    },
    I32 {
        value: i32,
    },
    /// Decimal text avoids precision loss in JSON and foreign-language seams.
    I64 {
        value: String,
    },
    /// Decimal text avoids precision loss in JSON and foreign-language seams.
    I128 {
        value: String,
    },
    U8 {
        value: u8,
    },
    U16 {
        value: u16,
    },
    U32 {
        value: u32,
    },
    /// Decimal text avoids precision loss in JSON and foreign-language seams.
    U64 {
        value: String,
    },
    /// Decimal text avoids precision loss in JSON and foreign-language seams.
    U128 {
        value: String,
    },
    String {
        value: String,
    },
}

#[derive(Debug, Clone, PartialEq)]
pub struct CapabilityDescriptor {
    pub form: String,
    pub values: Vec<Json>,
}

#[derive(Debug, Clone, PartialEq)]
pub struct CapabilityValueProfile {
    pub connection: Option<String>,
    pub mode: Option<String>,
    pub rows: Vec<CapabilityValueProfileRow>,
    pub evidence: Vec<String>,
}

#[derive(Debug, Clone, PartialEq)]
pub struct CapabilityValueProfileRow {
    pub label: String,
    pub raw: i64,
    pub legal: bool,
    pub aliases: Vec<i64>,
    pub write_store_raw: Option<i64>,
}

#[derive(Debug, Clone, PartialEq)]
pub struct ActionInvocationRecord {
    pub common: ObservationCommon,
    pub catalog_revision: String,
    pub action_id: String,
    pub role: ActionRole,
    pub parameters: NameMap<Json>,
    pub outcome: ActionOutcome,
}

#[derive(Debug, Clone, Copy, PartialEq, Eq, PartialOrd, Ord, Structural)]
pub enum ActionRole {
    Initiator,
    Responder,
}

#[derive(Debug, Clone, Copy, PartialEq, Eq, Structural)]
pub enum ActionOutcome {
    Succeeded,
    Failed,
    Rejected,
}

#[derive(Debug, Clone, PartialEq)]
pub struct PayloadMetadata {
    pub length: u64,
    pub sha256: String,
    pub inline_hex: Option<String>,
    /// Contiguous byte ranges hashed as the payload crossed the recorder.
    pub stream_ranges: Vec<PayloadRange>,
    /// Optional references into capture artifacts that retain the payload.
    pub ranges: Vec<ArtifactRange>,
}

#[derive(Debug, Clone, PartialEq, Eq)]
pub struct PayloadRange {
    pub offset: u64,
    pub length: u64,
    pub sha256: String,
}

/// The observation schema revision.
pub const OBSERVATION_SCHEMA_VERSION: &'static str = "camera-observation/v1";

/// The fields that every record but a header shares.
pub open spec fn line_common(l: ObservationLine) -> Option<ObservationCommon> {
    match l {
        ObservationLine::BundleHeader(_) => None,
        ObservationLine::Lifecycle(v) => Some(v.common),
        ObservationLine::BleGatt(v) => Some(v.common),
        ObservationLine::PtpTransaction(v) => Some(v.common),
        ObservationLine::PtpEvent(v) => Some(v.common),
        ObservationLine::HttpExchange(v) => Some(v.common),
        ObservationLine::Capability(v) => Some(v.common),
        ObservationLine::ActionInvocation(v) => Some(v.common),
    }
}

/// The schema that a line names.
pub open spec fn line_schema(l: ObservationLine) -> Seq<char> {
    match l {
        ObservationLine::BundleHeader(h) => h.schema@,
        _ => line_common(l)->0.schema@,
    }
}

/// The run that a line belongs to.
pub open spec fn line_run(l: ObservationLine) -> Seq<char> {
    match l {
        ObservationLine::BundleHeader(h) => h.run_id@,
        _ => line_common(l)->0.run_id@,
    }
}

/// The id of a line.
pub open spec fn line_record(l: ObservationLine) -> Seq<char> {
    match l {
        ObservationLine::BundleHeader(h) => h.record_id@,
        _ => line_common(l)->0.record_id@,
    }
}

/// The ordinal of a line.
pub open spec fn line_ordinal(l: ObservationLine) -> u64 {
    match l {
        ObservationLine::BundleHeader(h) => h.ordinal,
        _ => line_common(l)->0.ordinal,
    }
}

impl ObservationLine {
    /// The schema that the line names.
    pub fn schema(&self) -> (r: &str)
        ensures
            r@ == line_schema(*self),
    {
        match self {
            ObservationLine::BundleHeader(v) => v.schema.as_str(),
            ObservationLine::Lifecycle(v) => v.common.schema.as_str(),
            ObservationLine::BleGatt(v) => v.common.schema.as_str(),
            ObservationLine::PtpTransaction(v) => v.common.schema.as_str(),
            ObservationLine::PtpEvent(v) => v.common.schema.as_str(),
            ObservationLine::HttpExchange(v) => v.common.schema.as_str(),
            ObservationLine::Capability(v) => v.common.schema.as_str(),
            ObservationLine::ActionInvocation(v) => v.common.schema.as_str(),
        }
    }

    /// The run that the line belongs to.
    pub fn run_id(&self) -> (r: &str)
        ensures
            r@ == line_run(*self),
    {
        match self {
            ObservationLine::BundleHeader(v) => v.run_id.as_str(),
            _ => self.common().unwrap().run_id.as_str(),
        }
    }

    /// The id of the line.
    pub fn record_id(&self) -> (r: &str)
        ensures
            r@ == line_record(*self),
    {
        match self {
            ObservationLine::BundleHeader(v) => v.record_id.as_str(),
            _ => self.common().unwrap().record_id.as_str(),
        }
    }

    /// The ordinal of the line.
    pub fn ordinal(&self) -> (r: u64)
        ensures
            r == line_ordinal(*self),
    {
        match self {
            ObservationLine::BundleHeader(v) => v.ordinal,
            _ => self.common().unwrap().ordinal,
        }
    }

    /// The fields that every record but a header shares.
    pub fn common(&self) -> (r: Option<&ObservationCommon>)
        ensures
            match r {
                Some(c) => line_common(*self) == Some(*c),
                None => line_common(*self) is None,
            },
    {
        match self {
            ObservationLine::BundleHeader(_) => None,
            ObservationLine::Lifecycle(v) => Some(&v.common),
            ObservationLine::BleGatt(v) => Some(&v.common),
            ObservationLine::PtpTransaction(v) => Some(&v.common),
            ObservationLine::PtpEvent(v) => Some(&v.common),
            ObservationLine::HttpExchange(v) => Some(&v.common),
            ObservationLine::Capability(v) => Some(&v.common),
            ObservationLine::ActionInvocation(v) => Some(&v.common),
        }
    }
}

impl InventoryCompleteness {
    /// Whether the inventory may leave something out.
    pub fn is_partial(&self) -> (r: bool)
        ensures
            r == (*self == InventoryCompleteness::Partial),
    {
        *self == InventoryCompleteness::Partial
    }
}

/// Whether a text is the decimal text of a number from `min` to `max`.
pub open spec fn canonical_decimal(s: Seq<char>, min: int, max: int) -> bool {
    signed_value(s, min, max) matches Some(v) && decimal(v) == s
}

/// The name of the PTP type of a value.
pub open spec fn ptp_type_of(v: TypedPropertyValue) -> Seq<char> {
    match v {
        TypedPropertyValue::I8 { .. } => "i8"@,
        TypedPropertyValue::I16 { .. } => "i16"@,
        TypedPropertyValue::I32 { .. } => "i32"@,
        TypedPropertyValue::I64 { .. } => "i64"@,
        TypedPropertyValue::I128 { .. } => "i128"@,
        TypedPropertyValue::U8 { .. } => "u8"@,
        TypedPropertyValue::U16 { .. } => "u16"@,
        TypedPropertyValue::U32 { .. } => "u32"@,
        TypedPropertyValue::U64 { .. } => "u64"@,
        TypedPropertyValue::U128 { .. } => "u128"@,
        TypedPropertyValue::String { .. } => "str"@,
    }
}

/// Whether a value that is held by its text is held by the decimal text of a number of its type.
pub open spec fn valid_representation(v: TypedPropertyValue) -> bool {
    match v {
        TypedPropertyValue::I64 { value } => canonical_decimal(
            value@,
            i64::MIN as int,
            i64::MAX as int,
        ),
        TypedPropertyValue::I128 { value } => canonical_decimal(
            value@,
            i128::MIN as int,
            i128::MAX as int,
        ),
        TypedPropertyValue::U64 { value } => canonical_decimal(value@, 0, u64::MAX as int),
        TypedPropertyValue::U128 { value } => canonical_decimal(value@, 0, u128::MAX as int),
        _ => true,
    }
}

/// The number that is `n` where it is one of 64 bits.
pub open spec fn within_i64(n: Option<int>) -> Option<i64> {
    match n {
        Some(v) => if i64::MIN <= v <= i64::MAX {
            Some(v as i64)
        } else {
            None
        },
        None => None,
    }
}

/// The 64-bit number that a value is.
pub open spec fn typed_i64(v: TypedPropertyValue) -> Option<i64> {
    match v {
        TypedPropertyValue::I8 { value } => Some(value as i64),
        TypedPropertyValue::I16 { value } => Some(value as i64),
        TypedPropertyValue::I32 { value } => Some(value as i64),
        TypedPropertyValue::I64 { value } => within_i64(
            signed_value(value@, i128::MIN as int, i128::MAX as int),
        ),
        TypedPropertyValue::I128 { value } => within_i64(
            signed_value(value@, i128::MIN as int, i128::MAX as int),
        ),
        TypedPropertyValue::U8 { value } => Some(value as i64),
        TypedPropertyValue::U16 { value } => Some(value as i64),
        TypedPropertyValue::U32 { value } => Some(value as i64),
        TypedPropertyValue::U64 { value } => within_i64(
            unsigned_value(value@, 10, u128::MAX as int),
        ),
        TypedPropertyValue::U128 { value } => within_i64(
            unsigned_value(value@, 10, u128::MAX as int),
        ),
        TypedPropertyValue::String { .. } => None,
    }
}

/// The digits of a number write the number, and start with a digit.
pub proof fn digits_of_value(n: nat)
    ensures
        digits_of(n, 10).len() > 0,
        all_digits(digits_of(n, 10), 10),
        digits_value(digits_of(n, 10), 10) == n,
    decreases n,
{
    let s = digits_of(n, 10);
    if n < 10 {
        assert(s == seq![digit_char(n as int)]);
        assert(s.drop_last() == Seq::<char>::empty());
        assert(digits_value(s.drop_last(), 10) == 0);
        assert(digit_value(digit_char(n as int)) == Some(n as int));
    } else {
        digits_of_value(n / 10);
        let front = digits_of(n / 10, 10);
        assert(s.drop_last() == front);
        assert(digit_value(digit_char((n % 10) as int)) == Some((n % 10) as int));
        assert forall|i: int| 0 <= i < s.len() implies is_digit(#[trigger] s[i], 10) by {
            if i < front.len() {
                assert(s[i] == front[i]);
            }
        }
    }
}

/// The decimal text of a number reads back as the number.
pub proof fn decimal_reads_back(n: int, min: int, max: int)
    requires
        min <= n <= max,
    ensures
        signed_value(decimal(n), min, max) == Some(n),
        n >= 0 ==> unsigned_value(decimal(n), 10, max) == Some(n),
{
    let s = decimal(n);
    if n < 0 {
        digits_of_value((-n) as nat);
        assert(s.drop_first() == digits_of((-n) as nat, 10));
    } else {
        digits_of_value(n as nat);
        assert(is_digit(s[0], 10));
    }
}

/// The decimal texts of two numbers are the same only where the numbers are.
pub proof fn decimal_injective(a: int, b: int)
    requires
        decimal(a) == decimal(b),
    ensures
        a == b,
{
    let max = if a < b {
        b
    } else {
        a
    };
    let min = if a < b {
        a
    } else {
        b
    };
    decimal_reads_back(a, min, max);
    decimal_reads_back(b, min, max);
}

/// The signed number whose decimal text is `value`.
fn parse_canonical_signed(value: &str) -> (r: Option<i128>)
    ensures
        match r {
            Some(n) => decimal(n as int) == value@,
            None => !canonical_decimal(value@, i128::MIN as int, i128::MAX as int),
        },
{
    match parse_signed(value) {
        None => None,
        Some(n) => if same(i128_text(n).as_str(), value) {
            Some(n)
        } else {
            None
        },
    }
}

/// The unsigned number whose decimal text is `value`.
fn parse_canonical_unsigned(value: &str) -> (r: Option<u128>)
    ensures
        match r {
            Some(n) => decimal(n as int) == value@,
            None => !canonical_decimal(value@, 0, u128::MAX as int),
        },
{
    match parse_unsigned(value, 10, 0xffff_ffff_ffff_ffff_ffff_ffff_ffff_ffff) {
        None => {
            proof {
                if canonical_decimal(value@, 0, u128::MAX as int) {
                    let v = signed_value(value@, 0, u128::MAX as int)->0;
                    decimal_reads_back(v, 0, u128::MAX as int);
                }
            }
            None
        },
        Some(n) => if same(number_text(n, 10).as_str(), value) {
            Some(n)
        } else {
            proof {
                if canonical_decimal(value@, 0, u128::MAX as int) {
                    let v = signed_value(value@, 0, u128::MAX as int)->0;
                    decimal_reads_back(v, 0, u128::MAX as int);
                }
            }
            None
        },
    }
}

impl TypedPropertyValue {
    /// The name of the PTP type of the value.
    pub fn property_type(&self) -> (r: &'static str)
        ensures
            r@ == ptp_type_of(*self),
    {
        match self {
            TypedPropertyValue::I8 { .. } => "i8",
            TypedPropertyValue::I16 { .. } => "i16",
            TypedPropertyValue::I32 { .. } => "i32",
            TypedPropertyValue::I64 { .. } => "i64",
            TypedPropertyValue::I128 { .. } => "i128",
            TypedPropertyValue::U8 { .. } => "u8",
            TypedPropertyValue::U16 { .. } => "u16",
            TypedPropertyValue::U32 { .. } => "u32",
            TypedPropertyValue::U64 { .. } => "u64",
            TypedPropertyValue::U128 { .. } => "u128",
            TypedPropertyValue::String { .. } => "str",
        }
    }

    /// Whether a value that is held by its text is held by the decimal text of a number of its type.
    pub fn has_valid_representation(&self) -> (r: bool)
        ensures
            r == valid_representation(*self),
    {
        match self {
            TypedPropertyValue::I64 { value } => match parse_canonical_signed(value.as_str()) {
                Some(n) => {
                    proof {
                        decimal_reads_back(n as int, n as int, n as int);
                    }
                    n >= -0x8000_0000_0000_0000 && n <= 0x7fff_ffff_ffff_ffff
                },
                None => false,
            },
            TypedPropertyValue::I128 { value } => match parse_canonical_signed(value.as_str()) {
                Some(n) => {
                    proof {
                        decimal_reads_back(n as int, n as int, n as int);
                    }
                    true
                },
                None => false,
            },
            TypedPropertyValue::U64 { value } => match parse_canonical_unsigned(value.as_str()) {
                Some(n) => {
                    proof {
                        decimal_reads_back(n as int, n as int, n as int);
                    }
                    n <= 0xffff_ffff_ffff_ffff
                },
                None => false,
            },
            TypedPropertyValue::U128 { value } => match parse_canonical_unsigned(value.as_str()) {
                Some(n) => {
                    proof {
                        decimal_reads_back(n as int, n as int, n as int);
                    }
                    true
                },
                None => false,
            },
            _ => true,
        }
    }

    /// The 64-bit number that the value is.
    pub fn as_i64(&self) -> (r: Option<i64>)
        ensures
            r == typed_i64(*self),
    {
        match self {
            TypedPropertyValue::I8 { value } => Some(*value as i64),
            TypedPropertyValue::I16 { value } => Some(*value as i64),
            TypedPropertyValue::I32 { value } => Some(*value as i64),
            TypedPropertyValue::I64 { value } => signed_i64(value.as_str()),
            TypedPropertyValue::I128 { value } => signed_i64(value.as_str()),
            TypedPropertyValue::U8 { value } => Some(*value as i64),
            TypedPropertyValue::U16 { value } => Some(*value as i64),
            TypedPropertyValue::U32 { value } => Some(*value as i64),
            TypedPropertyValue::U64 { value } => unsigned_i64(value.as_str()),
            TypedPropertyValue::U128 { value } => unsigned_i64(value.as_str()),
            TypedPropertyValue::String { .. } => None,
        }
    }
}

/// The 64-bit number that a signed decimal text writes.
fn signed_i64(value: &str) -> (r: Option<i64>)
    ensures
        r == within_i64(signed_value(value@, i128::MIN as int, i128::MAX as int)),
{
    match parse_signed(value) {
        Some(n) => if n >= -0x8000_0000_0000_0000 && n <= 0x7fff_ffff_ffff_ffff {
            Some(n as i64)
        } else {
            None
        },
        None => None,
    }
}

/// The 64-bit number that an unsigned decimal text writes.
fn unsigned_i64(value: &str) -> (r: Option<i64>)
    ensures
        r == within_i64(unsigned_value(value@, 10, u128::MAX as int)),
{
    match parse_unsigned(value, 10, 0xffff_ffff_ffff_ffff_ffff_ffff_ffff_ffff) {
        Some(n) => if n <= 0x7fff_ffff_ffff_ffff {
            Some(n as i64)
        } else {
            None
        },
        None => {
            None
        },
    }
}

/// A value whose representation is valid and that is a 64-bit number is held by the number's
/// decimal text.
pub proof fn valid_representation_is_canonical(v: TypedPropertyValue, text: String)
    requires
        v == (TypedPropertyValue::I64 { value: text }) || v == (TypedPropertyValue::I128 {
            value: text,
        }),
        valid_representation(v),
        typed_i64(v) is Some,
    ensures
        text@ == decimal(typed_i64(v)->0 as int),
{
}

} // verus!
