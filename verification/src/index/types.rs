//! Manufacturer-index types: families, models, signatures, and BLE plans.

use crate::activity::ConnectionActivityDescriptor;
use crate::name_map::NameMap;
use crate::text::same;
use crate::yaml::Yaml;
use vstd::prelude::*;

verus! {

/// The raw (pre-resolution) shape of `fuji/index.yaml`.
#[derive(Debug, Clone)]
pub struct ManufacturerIndex {
    pub manufacturer: String,
    pub families: NameMap<Yaml>,
    pub models: Vec<IndexedModel>,
}

/// One model entry inside a `ManufacturerIndex`.
#[derive(Debug, Clone)]
pub struct IndexedModel {
    pub id: String,
    pub display_name: String,
    /// Family ids this model inherits from.
    pub inherits: Vec<String>,
    /// Relative path (from the index file) to the body manifest.
    pub manifest: String,
    /// Family-baseline model marker.
    pub fallback: bool,
    /// Signatures kept as raw YAML values until the template-substitution pass runs - the typed
    /// Signature deserialize comes after that.
    pub signatures: Vec<(String, Yaml)>,
}

/// Family-shared discovery and establishment facts.
#[derive(Debug, Default)]
pub struct FamilyBlock {
    pub ble: Option<FamilyBleBlock>,
    pub pcss: Option<FamilyPcssBlock>,
}

/// PCSS facts available before a body manifest has been selected.
#[derive(Debug, Clone, PartialEq, Eq)]
pub struct FamilyPcssBlock {
    pub callback_port: u16,
    pub knock_port: u16,
    pub protocol: String,
    pub discovery: PcssDiscoveryPolicy,
}

#[derive(Debug, Clone, PartialEq, Eq)]
pub struct PcssDiscoveryPolicy {
    pub retry_interval_ms: u32,
    pub max_attempts: u32,
}

#[derive(Debug)]
pub struct FamilyBleBlock {
    /// `gattSymbolicName -> UUID string`.
    pub gatt: NameMap<String>,
    pub advert: BleAdvertConstants,
    /// Named establishment plans keyed by mechanism (`ble-pair`, `ble-establish-wifi-ap`, ...).
    pub establishments: NameMap<EstablishmentBlock>,
    /// Saved-camera reconnect policy.
    pub reconnect: Option<BleReconnectPolicy>,
    /// Named BLE-native control actions keyed by name (`remote-shutter`, `write-time`,
    /// `write-gps`) - runnable from the resting BLE link without Wi-Fi.
    pub actions: NameMap<BleActionBlock>,
}

#[derive(Debug, Clone)]
pub struct BleReconnectPolicy {
    pub scan_timeout_ms: u32,
}

/// Family-wide advert constants that signatures reference via `{ble.advert....}` template refs.
#[derive(Debug, Clone, Default)]
pub struct BleAdvertConstants {
    /// Bluetooth-SIG manufacturer company ID this family advertises under (1240 / 0x04D8 for
    /// Fujifilm - note that on Fuji RED-style cameras the company ID is still the Fujifilm
    /// value; the constant marks the family, not the protocol style).
    pub manufacturer_company_id: Option<u16>,
    pub service_uuids: NameMap<String>,
}

#[derive(Debug)]
pub struct EstablishmentBlock {
    pub mechanism: String,
    /// Mechanism that must complete before this plan runs (e.g. `ble-establish-wifi-ap`
    /// requires `ble-pair`).
    pub prerequisite: Option<String>,
    /// User-initiated from an already-established BLE link, NOT auto-chained after
    /// `prerequisite`: the consumer rests at a BLE-connected home and runs this on a user
    /// action (e.g. tap "Shoot" -> `ble-establish-wifi-ap`).
    pub on_demand: bool,
    /// Runtime parameter names the consumer binds before walking (e.g. `launchMode`).
    pub params: Vec<String>,
    /// Captured/runtime slot names whose values the host should persist after this plan
    /// completes, to replay on a later `ble-reconnect` - e.g. `ble-pair` persists
    /// `pairingKeyBytes`; `ble-establish-wifi-ap` the Wi-Fi creds.
    pub persist: Vec<String>,
    /// Stable semantic progress spans over the two top-level executor sequences.
    pub activities: Vec<ConnectionActivityDescriptor>,
    /// Optional manifest-authored sequence that proves the camera has returned to a state from
    /// which this establishment can be replayed after an orderly feature exit.
    pub post_exit_readiness: Vec<Step>,
    pub steps: Vec<Step>,
}

/// A named, runnable BLE-native control action over an already-established link -
/// `remote-shutter`, `write-time`, `write-gps`.
#[derive(Debug)]
pub struct BleActionBlock {
    /// Runtime parameter names the host binds before walking (e.g. a host-packed
    /// `utcTimezonePayload`).
    pub params: Vec<String>,
    pub steps: Vec<Step>,
    /// Evidence ids backing the action's GATT choreography.
    pub evidence: Vec<String>,
}

/// The BLE step verbs.
#[derive(Debug)]
pub enum Step {
    BleConnect(BleConnectStep),
    BleAwaitDisconnect(BleAwaitDisconnectStep),
    BleRequestMtu(BleRequestMtuStep),
    BleDiscoverServices(BleDiscoverServicesStep),
    BleRead(BleReadStep),
    BleWrite(BleWriteStep),
    BleSubscribe(BleSubscribeStep),
    BleNotify(BleNotifyStep),
    BleAwaitUntil(BleAwaitUntilStep),
    BleWriteChunk(BleWriteChunkStep),
    Acquire(AcquireStep),
    AcquireFirmware(AcquireFirmwareStep),
    If(IfStep),
    Retry(RetryStep),
    BleDelay(BleDelayStep),
    NikonLssAuthenticate(NikonLssAuthenticateStep),
    NikonLssReadConnectionConfiguration(NikonLssReadConnectionConfigurationStep),
    BlePeripheralName(BlePeripheralNameStep),
}

/// Binds the connected peripheral's name to a scope slot.
#[derive(Debug, Clone)]
pub struct BlePeripheralNameStep {
    pub capture_as: String,
    pub opts: StepOptions,
}

/// `bleDelay` - wait before the next step.
#[derive(Debug, Clone)]
pub struct BleDelayStep {
    pub duration_ms: u32,
    pub opts: StepOptions,
}

/// The Nikon LSS pairing handshake.
#[derive(Debug, Clone)]
pub struct NikonLssAuthenticateStep {
    pub gatt: String,
    pub opts: StepOptions,
}

/// Reads the Nikon LSS connection configuration into the named scope slots.
#[derive(Debug, Clone)]
pub struct NikonLssReadConnectionConfigurationStep {
    pub gatt: String,
    pub flags_capture_as: String,
    pub ssid_capture_as: String,
    pub password_capture_as: String,
    pub security_mode_capture_as: String,
    pub spp_max_length_capture_as: Option<String>,
    pub opts: StepOptions,
}

/// Per-step retry + tolerance options.
#[derive(Debug, Clone, Default, PartialEq, Eq)]
pub struct StepOptions {
    pub tolerant: bool,
    pub retries: u32,
    pub retry_delay_ms: u32,
}

/// `bleConnect: {}` - no fields.
#[derive(Debug, Clone, Default)]
pub struct BleConnectStep {
    pub opts: StepOptions,
}

/// `bleAwaitDisconnect: { timeoutMs: 60000 }` - wait for the peer to drop the active BLE link.
#[derive(Debug, Clone)]
pub struct BleAwaitDisconnectStep {
    pub timeout_ms: u32,
    pub opts: StepOptions,
}

/// `bleRequestMtu: { mtu: 158 }` - ask the link for an ATT MTU before GATT traffic.
#[derive(Debug, Clone)]
pub struct BleRequestMtuStep {
    pub mtu: u16,
    pub opts: StepOptions,
}

/// `bleDiscoverServices: {}` - make GATT service discovery an explicit state transition
/// (Sony/Canon/Nikon apps all gate on it).
#[derive(Debug, Clone, Default)]
pub struct BleDiscoverServicesStep {
    pub opts: StepOptions,
}

#[derive(Debug, Clone)]
pub struct BleReadStep {
    /// Resolved GATT characteristic UUID.
    pub gatt: String,
    pub encoding: Encoding,
    /// Scope slot that receives the read value, decoded per `encoding`.
    pub capture_as: String,
    /// Transform chain applied to the wire bytes BEFORE `encoding` decode.
    pub transform: Vec<Transform>,
    pub opts: StepOptions,
}

#[derive(Debug, Clone)]
pub struct BleWriteStep {
    pub gatt: String,
    pub value: StepValue,
    /// Optional subscribed characteristic whose already-buffered notification prefix the
    /// transport atomically fences immediately before issuing this write.
    pub notification_fence: Option<String>,
    pub opts: StepOptions,
}

/// `bleWriteChunk` - write ONE framed window of a host-supplied blob to `gatt`, selected by a
/// captured chunk index.
#[derive(Debug, Clone)]
pub struct BleWriteChunkStep {
    /// Runtime slot holding the whole blob as a hex string (`bytes-raw` shape).
    pub source: String,
    /// Scope key holding the current chunk index (a `bleAwaitUntil` capture of the
    /// notification's index field).
    pub index: String,
    /// Window size in bytes.
    pub size: u32,
    /// Resolved GATT characteristic each framed window is written to (`filePartialData`).
    pub gatt: String,
    /// The DECLARED frame header, emitted before the window payload, in order.
    pub frame: Vec<ChunkFrameField>,
    /// The index the FINAL (remainder) window carries - Fuji `65535` / `0xffff`.
    pub sentinel_index: u32,
    pub opts: StepOptions,
}

/// One field of a declared chunk-frame header: a computed quantity the walker supplies
/// (`field`), emitted at the wire width/order `encoding`.
#[derive(Debug, Clone, PartialEq, Eq)]
pub struct ChunkFrameField {
    pub field: ChunkField,
    pub encoding: Encoding,
}

/// The computed quantities a `ChunkFrameField` can emit.
#[derive(Debug, Clone, Copy, PartialEq, Eq, Structural)]
pub enum ChunkField {
    /// The window's chunk index (the `sentinel_index` value on the final window).
    Index,
    /// The window's payload length in bytes.
    Length,
}

/// `bleSubscribe` - enable notifications (CCCD descriptor write) on a characteristic.
#[derive(Debug, Clone)]
pub struct BleSubscribeStep {
    pub gatt: String,
    /// Cap on how long the descriptor write may take before the dispatcher gives up.
    pub timeout_ms: u32,
    /// Which CCCD value to write.
    pub mode: CccdMode,
    pub opts: StepOptions,
}

/// CCCD subscription mode: which descriptor value `bleSubscribe` / `bleNotify` writes -
/// `ENABLE_NOTIFICATION_VALUE` or `ENABLE_INDICATION_VALUE` in Android terms.
#[derive(Debug, Clone, Copy, Default, PartialEq, Eq, Structural)]
pub enum CccdMode {
    #[default]
    Notify,
    Indicate,
}

/// `bleNotify` - subscribe to a characteristic (CCCD enable) AND wait for the first
/// notification whose payload satisfies `until`.
#[derive(Debug, Clone)]
pub struct BleNotifyStep {
    pub gatt: String,
    pub until: BleNotifyUntil,
    /// Optional scope slot that receives the WHOLE matching payload - preserved for debugging
    /// and unknown record layouts even when `capture` extracts fields.
    pub capture_as: Option<String>,
    /// Transformed field captures from the matching payload.
    pub capture: Vec<NotifyCapture>,
    /// CCCD value this step's subscribe phase writes; defaults to `notify`.
    pub mode: CccdMode,
    pub timeout_ms: u32,
    pub opts: StepOptions,
}

/// One field capture from a notification payload: window, transform chain, decode, bind.
#[derive(Debug, Clone)]
pub struct NotifyCapture {
    /// Start offset into the matching payload.
    pub at: usize,
    /// Window length; omitted = to end of payload.
    pub length: Option<usize>,
    pub transform: Vec<Transform>,
    pub encoding: Encoding,
    /// Scope key the decoded value binds to.
    pub name: String,
}

/// `bleAwaitUntil` - the await / poll-until control-flow primitive.
#[derive(Debug)]
pub struct BleAwaitUntilStep {
    pub source: AwaitSource,
    /// Transformed field captures applied to each read value / notification payload before
    /// `until` is checked.
    pub capture: Vec<NotifyCapture>,
    /// Optional whole-value capture (hex) per iteration, like `bleNotify`.
    pub capture_as: Option<String>,
    /// Satisfied when this predicate over runtime_scope holds (evaluated after each iteration's
    /// captures land).
    pub until: Predicate,
    /// Optional terminal condition evaluated after `until`.
    pub fail_when: Option<Predicate>,
    /// Optional evidence probe for a matching `fail_when`.
    pub failure_evidence: Option<BleAwaitFailureEvidence>,
    /// Steps run each iteration when `until` is NOT yet satisfied, before the next
    /// poll/notification (Sony's launch-request write).
    pub on_each: Vec<Step>,
    /// Wall-clock budget; the step fails (tolerant-aware) if `until` isn't met before it
    /// elapses.
    pub timeout_ms: u32,
    /// Poll cadence for a `read` source (sleep between reads).
    pub interval_ms: u32,
    pub opts: StepOptions,
}

/// Additional evidence required before a `bleAwaitUntil.failWhen` match is classified as
/// `conditionRejected`.
#[derive(Debug)]
pub struct BleAwaitFailureEvidence {
    /// Steps that acquire the evidence.
    pub steps: Vec<Step>,
    /// Terminal only when this predicate holds after `steps` completes.
    pub when: Predicate,
}

/// Stable failure classes a `RetryStep` may select without inspecting an implementation-defined
/// error string.
#[derive(Debug, Clone, Copy, PartialEq, Eq, Structural)]
pub enum RetryFailureKind {
    DeadlineExceeded,
    ConditionRejected,
    Other,
}

/// Predicate-gated recovery around a group of steps.
#[derive(Debug)]
pub struct RetryStep {
    pub steps: Vec<Step>,
    pub when_failure: RetryFailureKind,
    pub on_failure: Vec<Step>,
    pub retry_when: Predicate,
    pub max_attempts: u32,
    pub retry_delay_ms: u32,
    pub failure_context: Vec<String>,
}

/// Where `bleAwaitUntil` observes.
#[derive(Debug, Clone, PartialEq, Eq)]
pub enum AwaitSource {
    /// Poll a readable characteristic; each iteration is a fresh read.
    Read { gatt: String },
    /// Consume a characteristic's notification stream (CCCD enabled with `mode`).
    Notify {
        gatt: String,
        mode: CccdMode,
        seed_read: bool,
    },
}

#[derive(Debug)]
pub struct AcquireStep {
    pub name: String,
    /// The acquire delegates its inner work to a nested step (typically `bleRead`).
    pub from: Box<Step>,
    pub opts: StepOptions,
}

#[derive(Debug, Clone)]
pub struct AcquireFirmwareStep {
    pub from: AcquireSource,
    pub opts: StepOptions,
}

#[derive(Debug)]
pub struct IfStep {
    pub condition: Predicate,
    pub then_steps: Vec<Step>,
    /// Defaults to empty - `if:` blocks without an `else:` simply skip past the conditional
    /// when the predicate is false.
    pub else_steps: Vec<Step>,
    pub tolerant: bool,
}

/// Sources an `acquire`-flavored step can pull from.
#[derive(Debug, Clone)]
pub enum AcquireSource {
    BleAdvert {
        offset: u32,
        length: u32,
        encoding: Encoding,
    },
    BleRead {
        gatt: String,
        encoding: Encoding,
    },
    UserPrompt {
        text: String,
    },
}

/// Step value forms.
#[derive(Debug, Clone)]
pub enum StepValue {
    /// Literal bytes baked in at index-build time.
    Literal { literal: Yaml },
    /// `{ template: "...{name}..." }` - interpolate scope + runtime_params at walk time.
    Template {
        template: String,
        transform: Vec<Transform>,
    },
    /// `{ runtime: <slot>, encoding: <name>?
    Runtime {
        runtime: String,
        encoding: Option<Encoding>,
        transform: Vec<Transform>,
    },
    /// `{ captured: <name> }` - an earlier step (or recognize-seed) named this.
    Captured {
        captured: String,
        transform: Vec<Transform>,
    },
}

/// Closed, total byte-buffer -> byte-buffer transform vocabulary.
#[derive(Debug, Clone, PartialEq, Eq)]
pub enum Transform {
    /// Input <= 8 bytes, read LE; result re-emitted at input width LE.
    BitOr(u64),
    /// Input <= 8 bytes, read LE; result re-emitted at input width LE.
    BitAnd(u64),
    /// Window `[at, at+length)`; `length` omitted = to end.
    Slice {
        at: usize,
        length: Option<usize>,
    },
    /// Sugar for `Slice { at: n, length: None }`.
    DropPrefix(usize),
    ReverseBytes,
    /// Exactly 16 bytes -> the 36 ASCII bytes of the canonical uppercase 8-4-4-4-12 UUID string
    /// (bind with `encoding: ascii`).
    UuidFromBytes,
    /// Input <= 8 bytes, read LE: `(value & mask) >> shift`, re-emitted at input width LE.
    Bits {
        mask: u64,
        shift: u32,
    },
    /// Appends one NUL byte.
    AppendNul,
    /// Extends the input with `byte` up to exactly `length` bytes; a longer input fails.
    PadRight {
        length: usize,
        byte: u8,
    },
}

/// Encoding allowlist.
#[derive(Debug, Clone, Copy, PartialEq, Eq, Structural)]
pub enum Encoding {
    /// UTF-8 text.
    Utf8,
    /// UTF-8 text in a fixed-width, NUL-padded field: decode stops at the first NUL (C-string
    /// semantics) so trailing `\0` padding never reaches scope.
    Utf8Cstring,
    /// ASCII text.
    Ascii,
    /// Lowercase hex string, no separators.
    Bytes,
    BytesRaw,
    BytesLe,
    BytesBe,
    U8,
    /// 4-byte unsigned int, decimal string.
    U32,
    U16Le,
    U16Be,
    U32Le,
    U32Be,
}

/// `bleNotify` acceptance condition.
#[derive(Debug, Clone)]
pub enum BleNotifyUntil {
    /// First notification, any payload.
    Any,
    /// Payload byte-equals (or, if authored as `equals` + `encoding`, the loader decoded to
    /// bytes already).
    Equals {
        value: Yaml,
        encoding: Option<Encoding>,
    },
    /// Regex match on UTF-8 decoding of payload.
    Matches { pattern: String },
}

/// Predicate for `if:` step branching.
#[derive(Debug, Clone, PartialEq, Eq)]
pub struct Predicate {
    pub field: String,
    pub op: PredicateOp,
    pub value: String,
}

#[derive(Debug, Clone, Copy, PartialEq, Eq, Structural)]
pub enum PredicateOp {
    Eq,
    Ne,
    Gt,
    Gte,
    Lt,
    Lte,
    In,
}

/// Pre-resolution signature shape (template refs may still be present in `require` fields).
#[derive(Debug, Clone)]
pub struct IndexedSignature {
    pub kind: SignatureKind,
    /// Raw YAML for the rest of the signature; kept as `Value` until inheritance + template
    /// resolution complete, then deserialized into the appropriate typed `Signature` variant.
    pub body: Yaml,
}

#[derive(Debug, Clone, Copy, PartialEq, Eq, Structural)]
pub enum SignatureKind {
    BleAdvert,
    PcssNotify,
}

/// Post-resolution typed signature.
#[derive(Debug)]
pub enum Signature {
    BleAdvert(BleAdvertSignature),
    PcssNotify(PcssNotifySignature),
}

/// Recognition predicate over an already parsed PCSS callback.
#[derive(Debug, Clone)]
pub struct PcssNotifySignature {
    pub require: PcssNotifyPredicate,
    pub suggests: SuggestsBlock,
}

#[derive(Debug, Clone)]
pub struct PcssNotifyPredicate {
    pub camera_name: String,
    pub service: String,
}

#[derive(Debug)]
pub struct BleAdvertSignature {
    /// Predicate over the observed advert.
    pub require: AdvertPredicate,
    /// Field captures bound into runtime_scope on match.
    pub capture: Vec<AdvertCapture>,
    pub scope: NameMap<String>,
    pub suggests: SuggestsBlock,
    /// Whether normal discovery may surface this signature as an Add Camera candidate.
    pub discoverable: bool,
    /// Optional saved-camera route evaluated with the signature's captured scope and the host's
    /// persisted scope.
    pub reconnect: Option<ReconnectSuggestion>,
}

#[derive(Debug, Clone, Copy, PartialEq, Eq, Structural)]
pub enum ReconnectDisposition {
    Wake,
    Ready,
}

#[derive(Debug, Clone)]
pub struct ReconnectSuggestion {
    pub disposition: ReconnectDisposition,
    /// Establishment registry key (`ble-wake`, `ble-reconnect`, ...).
    pub mechanism: String,
    /// Scope keys that must exist and compare equal in both the observed signature scope and
    /// the persisted saved-camera scope.
    pub identity: Vec<String>,
}

/// Predicate over an observed BLE advert.
#[derive(Debug)]
pub enum AdvertPredicate {
    /// Every child predicate must hold.
    All(Vec<AdvertPredicate>),
    /// At least one child predicate must hold.
    Any(Vec<AdvertPredicate>),
    Not(Box<AdvertPredicate>),
    /// Over the manufacturer-specific AD record.
    ManufacturerData(MfgDataPredicate),
    /// The advert's service-UUID list contains this UUID (case-insensitive compare).
    ServiceUuids {
        contains: String,
    },
    /// Constraints over the service-data payload advertised for `uuid`.
    ServiceData {
        uuid: String,
        payload: PayloadPredicate,
    },
    LocalName(LocalNamePredicate),
    /// Advertised TX power within `[min, max]`; at least one bound required at load.
    TxPower {
        min: Option<i8>,
        max: Option<i8>,
    },
    /// Constraints over a raw AD record's payload exactly as seen on air - for `ad_type` 0xFF
    /// that INCLUDES the 2-byte LE company id.
    RawAdRecord {
        ad_type: u8,
        payload: PayloadPredicate,
    },
}

#[derive(Debug, Clone, Default)]
pub struct MfgDataPredicate {
    /// BT-SIG manufacturer company id; when present the observed company id must equal it.
    pub company_id: Option<u16>,
    pub payload: PayloadPredicate,
}

/// Byte-level constraints over a payload (manufacturer data after the company id, service data,
/// or a raw AD record).
#[derive(Debug, Clone, Default)]
pub struct PayloadPredicate {
    /// Exact length, in bytes.
    pub length: Option<usize>,
    pub min_length: Option<usize>,
    /// Byte-level equality assertions.
    pub assert_byte: Vec<ByteAssertion>,
    /// Bitfield assertions (Sony feature flags).
    pub assert_bits: Vec<BitsAssertion>,
}

#[derive(Debug, Clone)]
pub struct ByteAssertion {
    pub index: usize,
    pub equals: u8,
}

/// Read the minimum LE-bytes covering `mask` starting at byte `offset`; predicate is `(value &
/// mask) == equals`.
#[derive(Debug, Clone)]
pub struct BitsAssertion {
    pub offset: usize,
    pub mask: u64,
    pub equals: u64,
}

/// Local-name string predicate; exactly one of the three forms (validated at load).
#[derive(Debug, Clone, Default)]
pub struct LocalNamePredicate {
    pub equals: Option<String>,
    pub prefix: Option<String>,
    pub contains: Option<String>,
}

/// One advert field capture: source bytes -> window `[at, at+length)` -> transform chain ->
/// `encoding` decode -> runtime_scope under `name`.
#[derive(Debug, Clone)]
pub struct AdvertCapture {
    pub source: AdvertByteSource,
    /// Start offset into the source bytes.
    pub at: usize,
    /// Window length; omitted = to end of the source bytes.
    pub length: Option<usize>,
    pub transform: Vec<Transform>,
    pub encoding: Encoding,
    /// Scope key the captured value binds to.
    pub name: String,
}

/// Where an advert capture reads its bytes.
#[derive(Debug, Clone, PartialEq, Eq)]
pub enum AdvertByteSource {
    /// The post-company-id manufacturer-data payload.
    ManufacturerData,
    /// A raw AD record's payload as seen on air, selected by AD type.
    RawAdRecord { ad_type: u8 },
    /// The service-data payload advertised for this UUID.
    ServiceData { uuid: String },
    /// The UTF-8 bytes of the advertised local name.
    LocalName,
}

#[derive(Debug, Clone)]
pub struct SuggestsBlock {
    /// Connection id this signature suggests (`ble`, `usb`, ...).
    pub connection: String,
    pub confidence: Confidence,
}

#[derive(Debug, Clone, Copy, PartialEq, Eq, Structural)]
pub enum Confidence {
    High,
    Medium,
    Low,
}

/// The merged + resolved view for one model.
#[derive(Debug)]
pub struct ModelView {
    pub id: String,
    pub display_name: String,
    /// True for the family-baseline model.
    pub fallback: bool,
    pub manifest_path: String,
    /// Merged family + model BLE block, with GATT names already resolved on every Step's
    /// `gatt:` field.
    pub ble: Option<FamilyBleBlock>,
    /// Merged family PCSS discovery policy.
    pub pcss: Option<FamilyPcssBlock>,
    /// Signatures in file-declaration order (top-of-file first), with all `{family.path}` refs
    /// resolved to literals.
    pub signatures: Vec<(String, Signature)>,
}

/// The merged and resolved index of one manufacturer.
#[derive(Debug)]
pub struct ResolvedManufacturerIndex {
    pub manufacturer: String,
    pub models: Vec<ModelView>,
}

impl FamilyBleBlock {
    /// The establishment plan registered under `mechanism`, if any.
    pub fn establishment(&self, mechanism: &str) -> (r: Option<&EstablishmentBlock>)
        ensures
            self.establishments.at(mechanism@) == match r {
                Some(x) => Some(*x),
                None => None,
            },
    {
        self.establishments.get(mechanism)
    }

    /// The BLE-native control action registered under `name`, if any.
    pub fn action(&self, name: &str) -> (r: Option<&BleActionBlock>)
        ensures
            self.actions.at(name@) == match r {
                Some(x) => Some(*x),
                None => None,
            },
    {
        self.actions.get(name)
    }
}

/// The verb of a step as it is written in YAML.
pub open spec fn verb_of(s: Step) -> Seq<char> {
    match s {
        Step::BleConnect(_) => "bleConnect"@,
        Step::BleAwaitDisconnect(_) => "bleAwaitDisconnect"@,
        Step::BleRequestMtu(_) => "bleRequestMtu"@,
        Step::BleDiscoverServices(_) => "bleDiscoverServices"@,
        Step::BleRead(_) => "bleRead"@,
        Step::BleWrite(_) => "bleWrite"@,
        Step::BleSubscribe(_) => "bleSubscribe"@,
        Step::BleNotify(_) => "bleNotify"@,
        Step::BleAwaitUntil(_) => "bleAwaitUntil"@,
        Step::BleWriteChunk(_) => "bleWriteChunk"@,
        Step::Acquire(_) => "acquire"@,
        Step::AcquireFirmware(_) => "acquireFirmware"@,
        Step::If(_) => "if"@,
        Step::Retry(_) => "retry"@,
        Step::BleDelay(_) => "bleDelay"@,
        Step::NikonLssAuthenticate(_) => "nikonLssAuthenticate"@,
        Step::NikonLssReadConnectionConfiguration(_) => "nikonLssReadConnectionConfiguration"@,
        Step::BlePeripheralName(_) => "blePeripheralName"@,
    }
}

/// The options shared by all steps but `if` and `retry`, which have none of them.
pub open spec fn options_of(s: Step) -> StepOptions {
    match s {
        Step::BleConnect(x) => x.opts,
        Step::BleAwaitDisconnect(x) => x.opts,
        Step::BleRequestMtu(x) => x.opts,
        Step::BleDiscoverServices(x) => x.opts,
        Step::BleRead(x) => x.opts,
        Step::BleWrite(x) => x.opts,
        Step::BleSubscribe(x) => x.opts,
        Step::BleNotify(x) => x.opts,
        Step::BleAwaitUntil(x) => x.opts,
        Step::BleWriteChunk(x) => x.opts,
        Step::Acquire(x) => x.opts,
        Step::AcquireFirmware(x) => x.opts,
        Step::If(_) => StepOptions { tolerant: false, retries: 0, retry_delay_ms: 0 },
        Step::Retry(_) => StepOptions { tolerant: false, retries: 0, retry_delay_ms: 0 },
        Step::BleDelay(x) => x.opts,
        Step::NikonLssAuthenticate(x) => x.opts,
        Step::NikonLssReadConnectionConfiguration(x) => x.opts,
        Step::BlePeripheralName(x) => x.opts,
    }
}

impl StepOptions {
    /// A copy of the options.
    fn copy(&self) -> (r: StepOptions)
        ensures
            r == *self,
    {
        StepOptions {
            tolerant: self.tolerant,
            retries: self.retries,
            retry_delay_ms: self.retry_delay_ms,
        }
    }
}

impl Step {
    /// The verb of the step as it is written in YAML.
    pub fn verb_name(&self) -> (r: &'static str)
        ensures
            r@ == verb_of(*self),
    {
        match self {
            Step::BleConnect(_) => "bleConnect",
            Step::BleAwaitDisconnect(_) => "bleAwaitDisconnect",
            Step::BleRequestMtu(_) => "bleRequestMtu",
            Step::BleDiscoverServices(_) => "bleDiscoverServices",
            Step::BleRead(_) => "bleRead",
            Step::BleWrite(_) => "bleWrite",
            Step::BleSubscribe(_) => "bleSubscribe",
            Step::BleNotify(_) => "bleNotify",
            Step::BleAwaitUntil(_) => "bleAwaitUntil",
            Step::BleWriteChunk(_) => "bleWriteChunk",
            Step::Acquire(_) => "acquire",
            Step::AcquireFirmware(_) => "acquireFirmware",
            Step::If(_) => "if",
            Step::Retry(_) => "retry",
            Step::BleDelay(_) => "bleDelay",
            Step::NikonLssAuthenticate(_) => "nikonLssAuthenticate",
            Step::NikonLssReadConnectionConfiguration(_) => "nikonLssReadConnectionConfiguration",
            Step::BlePeripheralName(_) => "blePeripheralName",
        }
    }

    /// The shared step-level options (`tolerant`, `retries`, `retryDelayMs`); the default for `if`
    /// and `retry`.
    pub fn options(&self) -> (r: StepOptions)
        ensures
            r == options_of(*self),
    {
        match self {
            Step::BleConnect(x) => x.opts.copy(),
            Step::BleAwaitDisconnect(x) => x.opts.copy(),
            Step::BleRequestMtu(x) => x.opts.copy(),
            Step::BleDiscoverServices(x) => x.opts.copy(),
            Step::BleRead(x) => x.opts.copy(),
            Step::BleWrite(x) => x.opts.copy(),
            Step::BleSubscribe(x) => x.opts.copy(),
            Step::BleNotify(x) => x.opts.copy(),
            Step::BleAwaitUntil(x) => x.opts.copy(),
            Step::BleWriteChunk(x) => x.opts.copy(),
            Step::Acquire(x) => x.opts.copy(),
            Step::AcquireFirmware(x) => x.opts.copy(),
            Step::If(_) => StepOptions { tolerant: false, retries: 0, retry_delay_ms: 0 },
            Step::Retry(_) => StepOptions { tolerant: false, retries: 0, retry_delay_ms: 0 },
            Step::BleDelay(x) => x.opts.copy(),
            Step::NikonLssAuthenticate(x) => x.opts.copy(),
            Step::NikonLssReadConnectionConfiguration(x) => x.opts.copy(),
            Step::BlePeripheralName(x) => x.opts.copy(),
        }
    }
}

/// The token of the encoding as it is written in YAML.
pub open spec fn encoding_token(e: Encoding) -> Seq<char> {
    match e {
        Encoding::Utf8 => "utf8"@,
        Encoding::Utf8Cstring => "utf8-cstring"@,
        Encoding::Ascii => "ascii"@,
        Encoding::Bytes => "bytes"@,
        Encoding::BytesRaw => "bytes-raw"@,
        Encoding::BytesLe => "bytes-le"@,
        Encoding::BytesBe => "bytes-be"@,
        Encoding::U8 => "u8"@,
        Encoding::U32 => "u32"@,
        Encoding::U16Le => "u16-le"@,
        Encoding::U16Be => "u16-be"@,
        Encoding::U32Le => "u32-le"@,
        Encoding::U32Be => "u32-be"@,
    }
}

/// The encoding that a token names.
pub open spec fn encoding_of(s: Seq<char>) -> Option<Encoding> {
    if s == "utf8"@ {
        Some(Encoding::Utf8)
    } else if s == "utf8-cstring"@ {
        Some(Encoding::Utf8Cstring)
    } else if s == "ascii"@ {
        Some(Encoding::Ascii)
    } else if s == "bytes"@ {
        Some(Encoding::Bytes)
    } else if s == "bytes-raw"@ {
        Some(Encoding::BytesRaw)
    } else if s == "bytes-le"@ {
        Some(Encoding::BytesLe)
    } else if s == "bytes-be"@ {
        Some(Encoding::BytesBe)
    } else if s == "u8"@ {
        Some(Encoding::U8)
    } else if s == "u32"@ {
        Some(Encoding::U32)
    } else if s == "u16-le"@ {
        Some(Encoding::U16Le)
    } else if s == "u16-be"@ {
        Some(Encoding::U16Be)
    } else if s == "u32-le"@ {
        Some(Encoding::U32Le)
    } else if s == "u32-be"@ {
        Some(Encoding::U32Be)
    } else {
        None
    }
}

/// A token names what it is the token of, and nothing else.
pub proof fn encoding_tokens_round_trip(e: Encoding, s: Seq<char>)
    ensures
        encoding_of(encoding_token(e)) == Some(e),
        encoding_of(s) matches Some(x) ==> encoding_token(x) == s,
{
    reveal_strlit("utf8");
    reveal_strlit("utf8-cstring");
    reveal_strlit("ascii");
    reveal_strlit("bytes");
    reveal_strlit("bytes-raw");
    reveal_strlit("bytes-le");
    reveal_strlit("bytes-be");
    reveal_strlit("u8");
    reveal_strlit("u32");
    reveal_strlit("u16-le");
    reveal_strlit("u16-be");
    reveal_strlit("u32-le");
    reveal_strlit("u32-be");
    assert("utf8"@.len() == 4);
    assert("utf8-cstring"@.len() == 12);
    assert("ascii"@.len() == 5);
    assert("bytes"@.len() == 5);
    assert("bytes-raw"@.len() == 9);
    assert("bytes-le"@.len() == 8);
    assert("bytes-be"@.len() == 8);
    assert("u8"@.len() == 2);
    assert("u32"@.len() == 3);
    assert("u16-le"@.len() == 6);
    assert("u16-be"@.len() == 6);
    assert("u32-le"@.len() == 6);
    assert("u32-be"@.len() == 6);
    assert("ascii"@[0] != "bytes"@[0]);
    assert("bytes-le"@[6] != "bytes-be"@[6]);
    assert("u16-le"@[4] != "u16-be"@[4]);
    assert("u16-le"@[1] != "u32-le"@[1]);
    assert("u16-le"@[1] != "u32-be"@[1]);
    assert("u16-be"@[1] != "u32-le"@[1]);
    assert("u16-be"@[1] != "u32-be"@[1]);
    assert("u32-le"@[4] != "u32-be"@[4]);
}

impl Encoding {
    /// The encoding that a token names.
    pub fn from_token(s: &str) -> (r: Option<Self>)
        ensures
            r == encoding_of(s@),
    {
        if same(s, "utf8") {
            Some(Encoding::Utf8)
        } else if same(s, "utf8-cstring") {
            Some(Encoding::Utf8Cstring)
        } else if same(s, "ascii") {
            Some(Encoding::Ascii)
        } else if same(s, "bytes") {
            Some(Encoding::Bytes)
        } else if same(s, "bytes-raw") {
            Some(Encoding::BytesRaw)
        } else if same(s, "bytes-le") {
            Some(Encoding::BytesLe)
        } else if same(s, "bytes-be") {
            Some(Encoding::BytesBe)
        } else if same(s, "u8") {
            Some(Encoding::U8)
        } else if same(s, "u32") {
            Some(Encoding::U32)
        } else if same(s, "u16-le") {
            Some(Encoding::U16Le)
        } else if same(s, "u16-be") {
            Some(Encoding::U16Be)
        } else if same(s, "u32-le") {
            Some(Encoding::U32Le)
        } else if same(s, "u32-be") {
            Some(Encoding::U32Be)
        } else {
            None
        }
    }

    /// The token as it is written in YAML.
    pub fn as_token(self) -> (r: &'static str)
        ensures
            r@ == encoding_token(self),
    {
        match self {
            Encoding::Utf8 => "utf8",
            Encoding::Utf8Cstring => "utf8-cstring",
            Encoding::Ascii => "ascii",
            Encoding::Bytes => "bytes",
            Encoding::BytesRaw => "bytes-raw",
            Encoding::BytesLe => "bytes-le",
            Encoding::BytesBe => "bytes-be",
            Encoding::U8 => "u8",
            Encoding::U32 => "u32",
            Encoding::U16Le => "u16-le",
            Encoding::U16Be => "u16-be",
            Encoding::U32Le => "u32-le",
            Encoding::U32Be => "u32-be",
        }
    }
}

/// The token of the operator as it is written in YAML.
pub open spec fn predicate_token(e: PredicateOp) -> Seq<char> {
    match e {
        PredicateOp::Eq => "eq"@,
        PredicateOp::Ne => "ne"@,
        PredicateOp::Gt => "gt"@,
        PredicateOp::Gte => "gte"@,
        PredicateOp::Lt => "lt"@,
        PredicateOp::Lte => "lte"@,
        PredicateOp::In => "in"@,
    }
}

/// The operator that a token names.
pub open spec fn predicate_of(s: Seq<char>) -> Option<PredicateOp> {
    if s == "eq"@ {
        Some(PredicateOp::Eq)
    } else if s == "ne"@ {
        Some(PredicateOp::Ne)
    } else if s == "gt"@ {
        Some(PredicateOp::Gt)
    } else if s == "gte"@ {
        Some(PredicateOp::Gte)
    } else if s == "lt"@ {
        Some(PredicateOp::Lt)
    } else if s == "lte"@ {
        Some(PredicateOp::Lte)
    } else if s == "in"@ {
        Some(PredicateOp::In)
    } else {
        None
    }
}

/// A token names what it is the token of, and nothing else.
pub proof fn predicate_tokens_round_trip(e: PredicateOp, s: Seq<char>)
    ensures
        predicate_of(predicate_token(e)) == Some(e),
        predicate_of(s) matches Some(x) ==> predicate_token(x) == s,
{
    reveal_strlit("eq");
    reveal_strlit("ne");
    reveal_strlit("gt");
    reveal_strlit("gte");
    reveal_strlit("lt");
    reveal_strlit("lte");
    reveal_strlit("in");
    assert("eq"@.len() == 2);
    assert("ne"@.len() == 2);
    assert("gt"@.len() == 2);
    assert("gte"@.len() == 3);
    assert("lt"@.len() == 2);
    assert("lte"@.len() == 3);
    assert("in"@.len() == 2);
    assert("eq"@[0] != "ne"@[0]);
    assert("eq"@[0] != "gt"@[0]);
    assert("eq"@[0] != "lt"@[0]);
    assert("eq"@[0] != "in"@[0]);
    assert("ne"@[0] != "gt"@[0]);
    assert("ne"@[0] != "lt"@[0]);
    assert("ne"@[0] != "in"@[0]);
    assert("gt"@[0] != "lt"@[0]);
    assert("gt"@[0] != "in"@[0]);
    assert("gte"@[0] != "lte"@[0]);
    assert("lt"@[0] != "in"@[0]);
}

impl PredicateOp {
    /// The operator that a token names.
    pub fn from_token(s: &str) -> (r: Option<Self>)
        ensures
            r == predicate_of(s@),
    {
        if same(s, "eq") {
            Some(PredicateOp::Eq)
        } else if same(s, "ne") {
            Some(PredicateOp::Ne)
        } else if same(s, "gt") {
            Some(PredicateOp::Gt)
        } else if same(s, "gte") {
            Some(PredicateOp::Gte)
        } else if same(s, "lt") {
            Some(PredicateOp::Lt)
        } else if same(s, "lte") {
            Some(PredicateOp::Lte)
        } else if same(s, "in") {
            Some(PredicateOp::In)
        } else {
            None
        }
    }

    /// The token as it is written in YAML.
    pub fn as_token(self) -> (r: &'static str)
        ensures
            r@ == predicate_token(self),
    {
        match self {
            PredicateOp::Eq => "eq",
            PredicateOp::Ne => "ne",
            PredicateOp::Gt => "gt",
            PredicateOp::Gte => "gte",
            PredicateOp::Lt => "lt",
            PredicateOp::Lte => "lte",
            PredicateOp::In => "in",
        }
    }
}

impl PayloadPredicate {
    /// Whether no constraint is declared.
    pub open spec fn is_vacuous(&self) -> bool {
        self.length is None && self.min_length is None && self.assert_byte@.len() == 0
            && self.assert_bits@.len() == 0
    }

    /// Whether no constraint is declared.
    pub fn is_empty(&self) -> (r: bool)
        ensures
            r == self.is_vacuous(),
    {
        self.length.is_none() && self.min_length.is_none() && self.assert_byte.len() == 0
            && self.assert_bits.len() == 0
    }
}

/// The first signature of a name, at `i` or after it.
pub open spec fn named_signature(v: Seq<(String, Signature)>, name: Seq<char>, i: int) -> Option<
    Signature,
>
    decreases v.len() - i,
{
    if i < 0 || i >= v.len() {
        None
    } else if v[i].0@ == name {
        Some(v[i].1)
    } else {
        named_signature(v, name, i + 1)
    }
}

impl ModelView {
    /// The first signature of a name.
    pub fn signature(&self, name: &str) -> (r: Option<&Signature>)
        ensures
            named_signature(self.signatures@, name@, 0) == match r {
                Some(s) => Some(*s),
                None => None,
            },
    {
        let mut i: usize = 0;
        while i < self.signatures.len()
            invariant
                i <= self.signatures@.len(),
                named_signature(self.signatures@, name@, 0) == named_signature(
                    self.signatures@,
                    name@,
                    i as int,
                ),
            decreases self.signatures@.len() - i,
        {
            if same(self.signatures[i].0.as_str(), name) {
                return Some(&self.signatures[i].1);
            }
            i = i + 1;
        }
        None
    }
}

} // verus!
