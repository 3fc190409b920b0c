//! The manifest data model: the reviewed description of one camera body.

use crate::activity::ConnectionActivityDescriptor;
use crate::name_map::NameMap;
use crate::observation::{
    AssertionProvenance, ControlEvidenceBasis, ControlObservedEffect, TypedPropertyValue,
};
use crate::predicate::Predicate;
use crate::rank_map::{Rank, RankMap};
use crate::text::{
    all_digits, chars_of, decimal, digit, digit_value, has_prefix, i64_text, is_digit, join3,
    parse_unsigned, same, strip_prefix, trim, trimmed, unsigned_value,
};
use crate::version::{order, version_order, version_parts, VersionOrder, VersionScheme};
use crate::yaml::Yaml;
use vstd::prelude::*;
use vstd::std_specs::cmp::PartialEqSpecImpl;

verus! {

/// Everything that is declared of one camera body.
#[derive(Debug)]
pub struct CameraManifest {
    pub schema: String,
    pub camera: CameraIdentity,
    pub evidence: NameMap<Evidence>,
    /// Reviewed semantic assertions and their assertion-level provenance.
    pub semantic_assertions: SemanticAssertionLedger,
    pub sentinels: NameMap<SentinelFrame>,
    /// Named ordered wire-precondition gates the simulator can enforce.
    pub sequence_gates: NameMap<SequenceGate>,
    /// The camera-signalled private media queue that consumers pull over a declared connection.
    pub camera_initiated_transfer: Option<CameraInitiatedTransfer>,
    pub operations: NameMap<Operation>,
    pub properties: NameMap<Property>,
    pub workflows: NameMap<Workflow>,
    pub media: Option<Media>,
    /// AF grid for tap-to-focus.
    pub focus_grid: Option<FocusGrid>,
    pub events: NameMap<Event>,
    pub quirks: Vec<Quirk>,
    /// id-keyed mode records (hierarchical paths, e.g. `"Shooting/Stills"`).
    pub modes: NameMap<Mode>,
    /// id-keyed connection records.
    pub connections: NameMap<Connection>,
    /// Named values resolved by policy (initiator identity, init tail, ...).
    pub values: NameMap<ValuePolicy>,
}

#[derive(Debug, Clone)]
pub struct CameraIdentity {
    pub manufacturer: String,
    pub model: String,
    /// Canonical human form, e.g. `"2.30"` (matches PTP `GetDeviceInfo`).
    pub firmware: String,
    /// Named identity strings for this body.
    pub identities: NameMap<String>,
}

/// The camera's AF grid dimensions for tap-to-focus.
#[derive(Debug, Clone)]
pub struct FocusGrid {
    pub columns: u32,
    pub rows: u32,
}

#[derive(Debug, Clone)]
pub struct Evidence {
    pub kind: String,
    pub path: String,
    pub date: String,
}

#[derive(Debug, Clone, Default)]
pub struct SemanticAssertionLedger {
    pub operations: NameMap<OperationSemanticAssertions>,
    pub properties: NameMap<PropertySemanticAssertions>,
}

#[derive(Debug, Clone, Default)]
pub struct OperationSemanticAssertions {
    pub canonical_name: Option<ProvenancedName>,
}

#[derive(Debug, Clone, Default)]
pub struct PropertySemanticAssertions {
    pub canonical_name: Option<ProvenancedName>,
    pub source_native_name: Option<ProvenancedName>,
    pub value_rows: Vec<ProvenancedPropertyValueRow>,
    pub value_profiles: Vec<ProvenancedPropertyValueProfile>,
}

#[derive(Debug, Clone, PartialEq, Eq)]
pub struct ProvenancedName {
    pub name: String,
    pub provenance: Vec<AssertionProvenance>,
}

#[derive(Debug, Clone, PartialEq, Eq)]
pub struct ProvenancedPropertyValueRow {
    pub value: TypedPropertyValue,
    pub label: String,
    pub provenance: Vec<AssertionProvenance>,
}

#[derive(Debug, Clone, PartialEq, Eq)]
pub struct ProvenancedPropertyValueProfile {
    pub profile: PropertyValueProfile,
    pub provenance: Vec<AssertionProvenance>,
}

#[derive(Debug, Clone, Default)]
pub struct SequenceGate {
    pub evidence: Vec<String>,
}

#[derive(Debug, Clone)]
pub struct GateRequirement {
    pub name: String,
    pub failure: GateFailure,
}

#[derive(Debug, Clone, Copy, PartialEq, Eq, Default, Structural)]
pub enum GateFailure {
    #[default]
    NoResponse,
}

#[derive(Debug)]
pub struct Operation {
    pub name: String,
    /// Whether this catalog row is safe to execute.
    pub kind: OperationKind,
    pub owner: String,
    pub data_phase: Option<String>,
    pub params: Vec<Yaml>,
    pub workflows: Vec<String>,
    /// Simulator dispatch behavior for this operation.
    pub handler: Option<OperationHandler>,
    pub property: Option<String>,
    pub object_size: Option<ObjectSizeHandler>,
    /// Modes (by path) this operation is valid in; prefix-matched, so a `Shooting`-level entry
    /// covers `Shooting/Stills`.
    pub modes: Vec<String>,
    /// Connection ids this operation is valid over.
    pub connections: Vec<String>,
    /// Runtime prerequisite over observed property values (card-inserted, not-writing, ...);
    /// evaluated by the engine, not a tree edge.
    pub requires: Option<Predicate>,
    /// Ordered wire-precondition gate required before the simulator serves this operation.
    pub requires_gate: Option<GateRequirement>,
    /// Camera-side state mutations this operation triggers - the simulator applies them so a
    /// poll-until (`awaitUntil`) flow round-trips.
    pub effects: Vec<OpEffect>,
    /// Event codes this operation pushes when it succeeds - e.g. the AF tap pushes `0xC005`
    /// AFCAPTUER; a capture pushes `0xC004`->`0xC001`->`0x400D`.
    pub emits: Vec<String>,
    pub evidence: Vec<String>,
    /// Exact observation tuples backing generated availability.
    pub observed_scopes: Vec<ObservedScope>,
}

#[derive(Debug, Clone, Copy, Default, PartialEq, Eq, Structural)]
pub enum OperationKind {
    #[default]
    Executable,
    AdvertisedOnly,
}

/// The dispatch behavior a cataloged operation carries.
#[derive(Debug, Clone, Copy, PartialEq, Eq, Structural)]
pub enum OperationHandler {
    /// Step the `property` enum one slot; the request's first parameter is the direction.
    PropertyStep,
    /// Answer an extended object-size query; the `object_size` block declares the parameter
    /// layout and encoding.
    ObjectSize,
}

#[derive(Debug, Clone, PartialEq, Eq, PartialOrd, Ord)]
pub struct ObservedScope {
    pub connection: String,
    pub mode: String,
    pub state: String,
}

#[derive(Debug, Clone)]
pub struct ObjectSizeHandler {
    pub handle_param: usize,
    pub encoding: ScalarEncoding,
    pub required_params: Vec<ParamEquals>,
}

#[derive(Debug, Clone)]
pub struct ParamEquals {
    pub index: usize,
    pub equals: u32,
}

#[derive(Debug, Clone, Copy, PartialEq, Eq, Structural)]
pub enum ScalarEncoding {
    U32Le,
    U64Le,
}

#[derive(Debug, Clone)]
pub struct OpEffect {
    /// Property whose value the operation changes.
    pub set_prop: String,
    /// The fixed value it settles to.
    pub value: i64,
    /// Polls of `set_prop` before the new value is visible (0 = immediate).
    pub settle_after_polls: u32,
    /// When set, the effect value comes from an operation *request* parameter rather than the
    /// fixed `value` - e.g. 0x9026 copies its packed AF-area param into 0xD17C.
    pub from_param: Option<ParamSource>,
}

/// Selects an effect value from an operation request's parameters, with an optional bit-slice
/// so a packed field can be pulled out: the chosen param is shifted right by `shift`, then
/// ANDed with `mask` (default: the whole value).
#[derive(Debug, Clone)]
pub struct ParamSource {
    /// Index into the operation's request parameter list.
    pub index: usize,
    /// Right-shift applied to the raw param before masking (default 0).
    pub shift: u32,
    /// AND-mask applied after the shift (default: no mask - the full value).
    pub mask: Option<u64>,
}

#[derive(Debug, Clone)]
pub struct Property {
    pub name: String,
    pub ptp_name: Option<String>,
    pub ptype: Option<String>,
    /// Declared PTP access.
    pub access: Option<PropertyAccess>,
    pub initial_value: Option<DescriptorValue>,
    /// Closed classification used by clients to filter what surfaces as a user setting.
    pub kind: PropertyKind,
    pub descriptor: Option<Descriptor>,
    /// Composite-payload layout for a byte-array property whose value is a self-describing
    /// record stream of sub-property values (Fuji `0xD212` live-status).
    pub payload: Option<Payload>,
    /// Simulator-computed value source: the read value is derived from engine state (object
    /// store / transfer queue) instead of stored property state.
    pub computed: Option<ComputedValue>,
    pub controls: NameMap<Control>,
    /// Value -> human label, e.g. `280: "f/2.8"`.
    pub labels: NameMap<String>,
    /// Ordered property value choices for presentation and label->raw encoding.
    pub value_rows: Vec<PropertyValueRow>,
    /// Scoped value choices/capabilities for a property.
    pub value_profiles: Vec<PropertyValueProfile>,
    /// Generic value encoding hints for rows that share a bit-level form, such as a high-bit
    /// sentinel plus a low-bit literal.
    pub value_encoding: Option<PropertyValueEncoding>,
    /// Generic field layout for a structured PTP string.
    pub structured_text: Option<StructuredTextLayout>,
    /// Ordered wire-precondition gate required before the simulator serves this property.
    pub requires_gate: Option<GateRequirement>,
    pub evidence: Vec<String>,
    /// Exact observation tuples that supplied generated property facts.
    pub observed_scopes: Vec<ObservedScope>,
}

#[derive(Debug, Clone, Copy, Default, PartialEq, Eq, Structural)]
pub enum PropertyKind {
    #[default]
    Setting,
    Scaffold,
    CatalogOnly,
}

/// Declared PTP access for a property.
#[derive(Debug, Clone, Copy, PartialEq, Eq, Structural)]
pub enum PropertyAccess {
    ReadOnly,
    ReadWrite,
}

/// A simulator-computed property value source.
#[derive(Debug, Clone, Copy, PartialEq, Eq, Structural)]
pub enum ComputedValue {
    /// Count of currently enumerable objects (served as u32).
    ObjectCount,
    /// Currently enumerable object handles (served as a count-prefixed u32 array, same encoding
    /// as GetObjectHandles).
    ObjectHandles,
}

#[derive(Debug, Clone, PartialEq, Eq)]
pub struct PropertyValueRow {
    pub label: String,
    pub raw: i64,
    /// Evidence backing this individual semantic mapping.
    pub evidence: Vec<String>,
}

#[derive(Debug, Clone, PartialEq, Eq)]
pub struct PropertyValueProfile {
    pub connection: Option<String>,
    pub mode: Option<String>,
    pub rows: Vec<PropertyValueProfileRow>,
    pub evidence: Vec<String>,
}

#[derive(Debug, Clone, PartialEq, Eq)]
pub struct PropertyValueProfileRow {
    pub label: String,
    pub raw: i64,
    pub legal: bool,
    pub aliases: Vec<i64>,
    pub write_store_raw: Option<i64>,
}

#[derive(Debug, Clone, PartialEq, Eq)]
pub struct PropertyValueEncoding {
    pub sentinel: Option<SentinelMask>,
    pub masks: Vec<SentinelMask>,
}

#[derive(Debug, Clone, PartialEq, Eq)]
pub struct StructuredTextLayout {
    pub delimiter: String,
    pub fields: Vec<StructuredTextField>,
}

#[derive(Debug, Clone, PartialEq, Eq)]
pub struct StructuredTextField {
    pub name: String,
    pub scalar: StructuredTextScalar,
}

#[derive(Debug, Clone, Copy, PartialEq, Eq, Structural)]
pub enum StructuredTextScalar {
    SignedInteger,
}

#[derive(Debug, Clone, PartialEq, Eq)]
pub struct SentinelMask {
    /// Bits that identify the sentinel form.
    pub mask: i64,
    /// Masked value that means the sentinel is present.
    pub equals: Option<i64>,
    /// Stable semantic name for clients that want grouping or display policy.
    pub meaning: Option<String>,
    /// Prefix used by the generic codec when composing/decomposing sentinel labels, e.g. `AUTO`
    /// + base label `6400` -> `AUTO 6400`.
    pub label_prefix: String,
}

#[derive(Debug, Clone, PartialEq)]
pub enum DescriptorValue {
    Int(i64),
    Str(String),
}

#[derive(Debug, Clone)]
pub struct Descriptor {
    pub form: String,
    pub values: Vec<DescriptorValue>,
    /// Where the allowed value set comes from.
    pub source: Option<ValueSource>,
}

/// Layout of a composite byte-array property whose value is a bundle of sub-property records -
/// the Fuji `0xD212` live-status snapshot.
#[derive(Debug, Clone)]
pub struct Payload {
    pub form: PayloadForm,
    /// Width of the leading element-count prefix, in bytes (`0xD212` -> 2).
    pub count_width: Option<u8>,
    /// Per-record framing: the prop-code field and value field widths.
    pub record: Option<RecordLayout>,
    /// The prop codes the camera may emit inside this bundle (the poll allowlist).
    pub members: Vec<RecordMember>,
}

/// The framing of a composite payload.
#[derive(Debug, Clone, Copy, PartialEq, Eq, Structural)]
pub enum PayloadForm {
    RecordStream,
}

/// Per-record field widths in a `PayloadForm::RecordStream` (`0xD212`: a 2-byte LE prop code +
/// a 4-byte LE u32-padded value).
#[derive(Debug, Clone, Copy)]
pub struct RecordLayout {
    pub code_width: u8,
    pub value_width: u8,
}

/// One allowed record-stream member.
#[derive(Debug, Clone)]
pub enum RecordMember {
    Code(String),
    Detailed(RecordMemberDetail),
}

#[derive(Debug, Clone)]
pub struct RecordMemberDetail {
    pub code: String,
    pub encoding: RecordValueEncoding,
    pub simulator_value: Option<RecordValueLiteral>,
}

/// Wire encoding of one record-stream value.
#[derive(Debug, Clone, Copy, PartialEq, Eq)]
pub enum RecordValueEncoding {
    Fixed { width: u8 },
    Signed { width: u8 },
    PtpString,
}

/// Literal used only when the simulator has no mutable property state for a detailed record
/// member.
#[derive(Debug, Clone, PartialEq, Eq)]
pub enum RecordValueLiteral {
    Unsigned(u32),
    Signed(i32),
    String(String),
}

/// Where a descriptor's allowed value set is sourced.
#[derive(Debug, Clone, Copy, PartialEq, Eq, Structural)]
pub enum ValueSource {
    /// The camera enumerates it at runtime (DevicePropDesc) - authoritative.
    Camera,
    /// The manifest declares it (camera doesn't report it, or needs labels/gating).
    Manifest,
}

#[derive(Debug, Clone)]
pub struct Control {
    pub set_method: Option<String>,
    pub operation: Option<String>,
    pub readback: Option<String>,
}

/// Semantic control intent exposed by a connection/mode.
#[derive(Debug, Clone, Copy, PartialEq, Eq, PartialOrd, Ord, Structural)]
pub enum ControlRole {
    Iso,
    ShutterSpeed,
    Aperture,
    ExposureBias,
    FocusArea,
}

/// Who ultimately owns the effective value after a client writes it.
#[derive(Debug, Clone, Copy, PartialEq, Eq, Structural)]
pub enum ControlOwner {
    Client,
    Camera,
    Body,
    ModeGated,
    Unknown,
}

/// Where the consumer verifies the effective value after a write.
#[derive(Debug, Clone, Copy, PartialEq, Eq, Structural)]
pub enum ControlReadSource {
    /// Read the semantic surface's own `property` directly.
    DirectProperty,
    /// Read the control recipe's separately declared `readback` property.
    DeclaredReadback,
}

#[derive(Debug, Clone, PartialEq, Eq)]
pub struct ControlSurfaceEntry {
    pub property: String,
    pub read_source: ControlReadSource,
    pub evidence_basis: ControlEvidenceBasis,
    pub observed_effect: ControlObservedEffect,
    pub effective_owner: Option<ControlOwner>,
}

/// How object bytes are read over a connection.
#[derive(Debug, Clone, Copy, PartialEq, Eq, Structural)]
pub enum ObjectTransferStrategy {
    Chunked,
    WholeObject,
}

#[derive(Debug, Clone, Copy, PartialEq, Eq, Structural)]
pub enum ObjectTransferResumePolicy {
    ByteOffset,
    RestartFromZero,
}

/// Evidence level for one object format on one transfer surface.
#[derive(Debug, Clone, Copy, PartialEq, Eq, Structural)]
pub enum ObjectTransferFormatSupport {
    Confirmed,
    Experimental,
    Unsupported,
}

#[derive(Debug, Clone, Copy, PartialEq, Eq, Structural)]
pub enum ObjectTransferCompletionTiming {
    LocalCommit,
}

#[derive(Debug, Clone, PartialEq, Eq)]
pub struct ObjectTransferCompletionPolicy {
    pub action: ActionVerb,
    pub after: ObjectTransferCompletionTiming,
}

/// Connection-owned object-transfer policy.
#[derive(Debug, Clone, PartialEq, Eq)]
pub struct ObjectTransferContract {
    pub strategy: ObjectTransferStrategy,
    pub resume_policy: ObjectTransferResumePolicy,
    pub read_action: ActionVerb,
    pub completion: Option<ObjectTransferCompletionPolicy>,
    pub formats: NameMap<ObjectTransferFormatSupport>,
}

#[derive(Debug, Clone)]
pub struct Workflow {
    pub transport: Option<String>,
    pub states: Vec<String>,
    pub transitions: Vec<Yaml>,
    pub sockets: NameMap<String>,
    pub evidence: Vec<String>,
}

#[derive(Debug, Clone)]
pub struct Media {
    /// Object-format table: PTP object-format code -> metadata, so the app classifies objects
    /// (RAW/movie/vendor) from data instead of hardcoding per-vendor format literals.
    pub formats: NameMap<MediaFormat>,
    pub object_info_size_sentinel: Option<u64>,
    pub extra: NameMap<Yaml>,
}

/// One object-format catalog row: a PTP/vendor format code's name and classification, plus an
/// optional embedded-JPEG locator for RAW formats.
#[derive(Debug, Clone)]
pub struct MediaFormat {
    pub name: String,
    pub vendor: Option<String>,
    pub is_raw: bool,
    pub is_movie: bool,
    /// Whether this object format can be handed to the OS photo library: full stills
    /// (JPEG/HEIF/RAW) and movies, but not non-image PTP objects (associations, scripts).
    pub is_photos_compatible: bool,
    /// Where this RAW format's embedded full-size JPEG lives.
    pub embedded_jpeg: Option<EmbeddedJpeg>,
}

/// Byte order for reading a container's multi-byte header fields.
#[derive(Debug, Clone, Copy, PartialEq, Eq, Structural)]
pub enum Endian {
    Big,
    Little,
}

/// Where a RAW container's embedded full-size JPEG lives, surfaced so a client can pull it with
/// `GetPartialObject` without carrying a per-format parser.
#[derive(Debug, Clone, PartialEq, Eq)]
pub struct EmbeddedJpeg {
    /// ASCII magic identifying the container, verified at offset 0.
    pub magic: String,
    /// Byte offset of the u32 field holding the embedded JPEG's start offset.
    pub offset_at: u16,
    /// Byte offset of the u32 field holding the embedded JPEG's length.
    pub length_at: u16,
    /// Byte order of the `offset_at` / `length_at` u32 fields.
    pub endian: Endian,
}

#[derive(Debug, Clone)]
pub struct Event {
    pub name: String,
    pub destination: Option<String>,
    pub evidence: Vec<String>,
}

#[derive(Debug, Clone)]
pub struct Quirk {
    pub id: String,
    pub applies_to: Vec<String>,
    pub behavior: String,
    pub evidence: String,
}

/// A camera mode, keyed by hierarchical path (`"Shooting/Stills"`).
#[derive(Debug, Default)]
pub struct Mode {
    pub capabilities: Vec<String>,
    pub detect: Option<Predicate>,
    /// Simulator workflow phase this mode corresponds to (e.g. `imageImport`, `liveView`).
    pub phase: Option<String>,
    pub extra: NameMap<Yaml>,
}

/// A connection.
#[derive(Debug, Default)]
pub struct Connection {
    /// If set, the mechanism is defined elsewhere under this id; the remaining fields are this
    /// body's conditions/overrides.
    pub ref_id: Option<String>,
    /// Firmware-range availability (e.g. instax-printer: present <=2.30, removed at 2.40).
    pub available_when: Option<AvailableWhen>,
    /// Hardware that must be present for this connection (e.g. the FT-XH adapter that provides
    /// XLV/HTTP on bodies without it built in).
    pub requires_hardware: Option<String>,
    pub kind: Option<String>,
    pub establishment: Option<String>,
    /// Host-owned semantic checkpoints that complete this connection after the
    /// manufacturer-index executor plan.
    pub activities: Vec<ConnectionActivityDescriptor>,
    /// The PTP/IP establishment packet shape for this connection - the InitCommandRequest byte
    /// template.
    pub init: Option<InitShape>,
    /// Which init/establishment template this connection uses - names an init shape (e.g.
    /// `app82`) so the app picks the establishment path by trait instead of branching on
    /// connection id.
    pub init_shape: Option<String>,
    /// How live-view frames arrive over this connection: a continuous `stream` (reference app
    /// `app`) or a `poll` loop (`wireless-tether`).
    pub live_view_delivery: Option<LiveViewDelivery>,
    /// Which shutter recipe family this connection uses - the discriminator that replaces the
    /// app's per-connection shutter fork.
    pub shutter_recipe: Option<ShutterRecipe>,
    /// The PTP/IP wire framing of this connection's command channel: so a consumer picks the
    /// codec from data instead of mapping the connection kind to a framing in its own code.
    pub command_framing: Option<WireFraming>,
    /// The wire framing of this connection's event socket, when it differs from the command
    /// channel (the Fuji `app` event socket carries USB/PIMA type-4 event containers, not the
    /// compressed command framing).
    pub event_framing: Option<WireFraming>,
    /// Closing the active command transport may remove its listener, so a caller must not
    /// assume it can immediately redial the same endpoint as generic recovery.
    pub command_listener_volatile: bool,
    /// The PTP/IP sockets a consumer binds for this connection, keyed by role (command / event
    /// / live-view).
    pub bindings: Option<SocketBindings>,
    /// An optional transport-close frame for the lifecycle context named by
    /// `TransportClose::when`.
    pub transport_close: Option<TransportClose>,
    /// PCSS LAN discovery/callback parameters for wireless tethering.
    pub knock: Option<PcssKnock>,
    /// InitFail retry tolerance observed on PCSS establishment.
    pub init_retries: Option<InitRetries>,
    /// Safe object-read and completion policy for this connection.
    pub object_transfer: Option<ObjectTransferContract>,
    /// Mode-qualified semantic controls, keyed by mode then intent role.
    pub control_surfaces: NameMap<RankMap<ControlRole, ControlSurfaceEntry>>,
    pub modes: Vec<String>,
    /// Mode-graph edges reachable over this connection.
    pub entries: Vec<ModeEntry>,
    /// Named, parameterized step sequences that run *within* a mode (vs `entries`, which
    /// transition *between* modes).
    pub actions: RankMap<ActionVerb, Action>,
    /// Connection-bring-up edges: from this connection, activate *another* (the BLE->WiFi-AP
    /// handover).
    pub enables: Vec<ConnectionTransition>,
    /// Free-form bind/discovery/establishment detail (e.g. GATT characteristic UUIDs) until
    /// those are modeled / split to a private overlay.
    pub extra: NameMap<Yaml>,
}

/// A PTP/IP socket role a consumer binds.
#[derive(Debug, Clone, Copy, PartialEq, Eq, Structural)]
pub enum SocketRole {
    Command,
    Event,
    LiveView,
}

/// The PTP/IP sockets a consumer binds for a connection, keyed by role.
#[derive(Debug, Clone, PartialEq, Eq, Default)]
pub struct SocketBindings {
    /// Static responder host when the connection establishes a known endpoint.
    pub host: Option<String>,
    /// The PTP/IP command-port (control channel).
    pub command: SocketBinding,
    /// The event socket, if this connection has one.
    pub event: Option<SocketBinding>,
    /// The live-view through-picture stream socket, if this connection has one.
    pub live_view: Option<SocketBinding>,
}

/// One socket binding.
#[derive(Debug, Clone, PartialEq, Eq)]
pub enum SocketBinding {
    Port(u16),
    Descriptor(SocketBindingDescriptor),
}

#[derive(Debug, Clone, PartialEq, Eq)]
pub struct SocketBindingDescriptor {
    /// The concrete TCP port for this role.
    pub port: u16,
    /// The condition that must complete before the listener is available.
    pub available_after: Option<SocketAvailability>,
}

/// A successful camera operation that makes an auxiliary listener available.
#[derive(Debug, Clone, PartialEq, Eq)]
pub struct SocketAvailability {
    /// The successful operation that makes the listener available.
    pub operation: String,
}

/// A camera-status-triggered private media pull.
#[derive(Debug, Clone, PartialEq, Eq)]
pub struct CameraInitiatedTransfer {
    pub trigger: CameraInitiatedTrigger,
    pub handoff: CameraInitiatedHandoff,
    /// The manifest-owned route used after a transfer monitor loses its link.
    pub monitor_recovery: Option<CameraInitiatedMonitorRecovery>,
    pub receive: CameraInitiatedReceive,
    pub evidence: Vec<String>,
}

/// Recovery route for a camera-initiated-transfer monitor.
#[derive(Debug, Clone, Copy, PartialEq, Eq, Structural)]
pub enum CameraInitiatedMonitorRecovery {
    SavedCameraReconnect,
}

#[derive(Debug, Clone, PartialEq, Eq)]
pub struct CameraInitiatedTrigger {
    pub match_mode: TriggerMatch,
    pub states: Vec<BleStateTrigger>,
}

#[derive(Debug, Clone, Copy, PartialEq, Eq, Structural)]
pub enum TriggerMatch {
    All,
}

#[derive(Debug, Clone, PartialEq, Eq)]
pub struct BleStateTrigger {
    pub gatt: String,
    pub trigger_values: Vec<String>,
    pub baseline_values: Vec<String>,
}

#[derive(Debug, Clone, PartialEq, Eq)]
pub struct CameraInitiatedHandoff {
    pub connection: String,
    pub socket_role: SocketRole,
    pub cached_credentials_allowed: bool,
    pub function_launch: Option<BleLiteralWrite>,
}

#[derive(Debug, Clone, PartialEq, Eq)]
pub struct BleLiteralWrite {
    pub gatt: String,
    pub value: String,
    pub required: bool,
}

#[derive(Debug, Clone, PartialEq, Eq)]
pub struct CameraInitiatedReceive {
    pub mode: String,
    pub count: RecordMemberRef,
    pub head_index: u32,
    pub metadata: CameraInitiatedMetadata,
    pub data: CameraInitiatedData,
    pub completion: TransferCompletion,
}

#[derive(Debug, Clone, PartialEq, Eq)]
pub struct RecordMemberRef {
    pub property: String,
    pub member: String,
}

#[derive(Debug, Clone, PartialEq, Eq)]
pub struct CameraInitiatedMetadata {
    pub operation: String,
    pub phases: Vec<CameraInitiatedMetadataPhase>,
}

#[derive(Debug, Clone, Copy, PartialEq, Eq, PartialOrd, Ord, Structural)]
pub enum CameraInitiatedMetadataPhase {
    AfterCountBeforeModeEntry,
    AfterModeEntry,
}

#[derive(Debug, Clone, PartialEq, Eq)]
pub struct CameraInitiatedData {
    pub operation: String,
    pub chunk_limit_property: String,
}

#[derive(Debug, Clone, Copy, PartialEq, Eq, Structural)]
pub enum TransferCompletion {
    ReadToEof,
}

/// A named byte frame the manifest can reference from other records.
#[derive(Debug, Clone, PartialEq, Eq)]
pub struct SentinelFrame {
    /// Hex bytes of the frame, e.g. `08000000ffffffff`.
    pub bytes: String,
    /// Evidence id(s) backing this byte frame.
    pub evidence: Vec<String>,
}

/// The transport-close frame a connection sends before reopening an image-transfer session.
#[derive(Debug, Clone, PartialEq, Eq, Default)]
pub struct TransportClose {
    /// Names a top-level `sentinels` entry.
    pub sentinel: String,
    /// When the consumer sends it (e.g. `before-image-transfer-reestablishment`).
    pub when: Option<String>,
}

/// The delay between discovery datagrams, in milliseconds, where a manifest gives none.
pub const DEFAULT_PCSS_RETRY_INTERVAL_MS: u32 = 10_000;

/// The number of discovery datagrams, where a manifest gives none.
pub const DEFAULT_PCSS_MAX_ATTEMPTS: u32 = 10;

/// The deadline for a connect, in milliseconds, where a manifest gives none.
pub const DEFAULT_PCSS_CONNECT_TIMEOUT_MS: u32 = 5_000;

#[derive(Debug, Clone, PartialEq, Eq)]
pub struct PcssKnock {
    pub callback_port: u16,
    pub knock_port: u16,
    pub protocol: String,
    pub camera_name: Option<String>,
    /// Where the discovery datagram may be sent and which target is selected when a caller does
    /// not override it.
    pub discovery_targets: PcssDiscoveryTargets,
    /// Delay between discovery datagrams while awaiting the callback.
    pub retry_interval_ms: u32,
    /// Maximum discovery datagrams sent for one rendezvous attempt.
    pub max_attempts: u32,
    /// Deadline for one attempt to open the advertised command endpoint.
    pub connect_timeout_ms: u32,
}

/// Manifest-authored PCSS discovery destination policy.
#[derive(Debug, Clone, PartialEq, Eq)]
pub struct PcssDiscoveryTargets {
    pub default: PcssDiscoveryTarget,
    pub supported: Vec<PcssDiscoveryTarget>,
    /// After a broadcast callback's command endpoint or first Init transport attempt is
    /// unavailable, perform one fresh rendezvous by unicast to the callback's validated DSC.
    pub retry_discovered_unicast: bool,
}

/// Addressing mode for the byte-identical PCSS discovery datagram.
#[derive(Debug, Clone, Copy, PartialEq, Eq, Structural)]
pub enum PcssDiscoveryTarget {
    /// Send to the selected IPv4 interface's subnet-directed broadcast.
    SubnetBroadcast,
    /// Send directly to a caller-supplied camera IPv4 address.
    ExplicitUnicast,
}

#[derive(Debug, Clone, PartialEq, Eq, Default)]
pub struct InitRetries {
    pub max: u32,
    pub backoff_ms: u32,
    /// Typed InitFail reasons that authorize a same-socket replay.
    pub when_reasons: Vec<String>,
}

/// An establishment edge: from one connection, bring up another.
#[derive(Debug, Default)]
pub struct ConnectionTransition {
    /// Target connection id this edge brings up.
    pub to: String,
    /// Named establishment mechanism/workflow (resolved elsewhere).
    pub mechanism: Option<String>,
    pub user_instruction: Option<String>,
    /// Optional target mode this establishment edge selects.
    pub mode: Option<String>,
    /// Fixed runtime bindings for the target establishment plan.
    pub params: NameMap<String>,
    pub requires: Option<Predicate>,
}

/// A mode-graph transition edge: how to get *into* mode `to`.
#[derive(Debug)]
pub struct ModeEntry {
    pub to: String,
    pub from: Option<String>,
    pub execution: ModeEntryExecution,
    /// Optional semantic spans over the executable top-level step sequence.
    pub activities: Vec<ConnectionActivityDescriptor>,
    /// Optional runtime prerequisite for taking this edge.
    pub requires: Option<Predicate>,
}

#[derive(Debug)]
pub enum ModeEntryExecution {
    /// Ordered PTP wire steps executed on the current session.
    Ptp { steps: Vec<Step> },
    /// Leave the current connection lifecycle, establish it again, then run the target mode's
    /// cold PTP entry on a fresh session.
    ReestablishConnection(ReestablishConnection),
    /// A camera-menu or host action that cannot be driven by ptpsim.
    UserInstruction { instruction: String },
}

#[derive(Debug)]
pub struct ReestablishConnection {
    /// PTP steps that orderly leave the old session before host/network teardown.
    pub exit_steps: Vec<Step>,
    /// Fixed bindings for the connection's existing establishment plan.
    pub params: NameMap<String>,
}

/// Named verbs the app invokes on a connection while in a mode.
#[derive(Debug, Clone, Copy, PartialEq, Eq, PartialOrd, Ord, Structural)]
pub enum ActionVerb {
    /// Fire the shutter.
    Shutter,
    /// Enumerate object handles on the SD card.
    EnumerateObjects,
    /// Read object metadata (PTP ObjectInfo) for a handle.
    GetObjectInfo,
    /// Read the thumbnail JPEG for a handle.
    GetThumb,
    /// Read the whole object (image bytes) for a handle.
    GetObject,
    /// Delete an object by handle.
    DeleteObject,
    /// Tap-to-AF: `0x9026 LockS1Lock(packed area)` then await the lock result.
    AutofocusLock,
    /// Release the AF lock: `0x9027 UnlockS1Lock`.
    AutofocusRelease,
    /// The full image-transfer choreography: arm -> enumerate -> for-each handle { get size ->
    /// chunk-download until exhausted } -> idle.
    ImportObjects,
    ReadDeviceInfo,
    /// Start connection-specific live-view delivery.
    StartLiveView,
    /// Request exactly one frame from a connection whose live-view delivery is polled.
    PollLiveView,
    /// Stop connection-specific live-view delivery.
    StopLiveView,
    /// One session-maintenance keepalive iteration.
    Keepalive,
}

/// How live-view frames are delivered over a connection.
#[derive(Debug, Clone, PartialEq, Eq)]
pub struct LiveViewDelivery {
    pub kind: LiveViewDeliveryKind,
    /// The op the app polls when `kind = poll` (e.g. `0x9018`).
    pub poll_op: Option<String>,
}

/// Live-view delivery mode (closed vocabulary - a new value needs a schema PR).
#[derive(Debug, Clone, Copy, PartialEq, Eq, Structural)]
pub enum LiveViewDeliveryKind {
    Stream,
    Poll,
}

/// Which shutter recipe family a connection uses.
#[derive(Debug, Clone, Copy, PartialEq, Eq, Structural)]
pub enum ShutterRecipe {
    /// `app`: the bare `0x100E` + `0x9022` postview take-cycle.
    AppPostview,
    /// `wireless-tether`: the 3-beat `0xD039` + `0x100E` virtual shutter.
    WirelessTether3Beat,
}

/// A PTP/IP wire framing.
#[derive(Debug, Clone, Copy, PartialEq, Eq, Structural)]
pub enum WireFraming {
    /// ISO-15740 standard PTP/IP framing (8-byte header, DataPhaseInfo present).
    Standard,
    /// The "compressed" command framing: a PIMA-style 12-byte container without the standard
    /// PTP/IP wrapper - single-frame data phase, no event type.
    Compressed,
    /// The PIMA/USB container framing (12-byte header, type 4 = event).
    Usb,
}

/// Declared side-effects an `Action` produces - the app reads `Action.triggers` to plan UX
/// (poll object queues, show progress, etc.) without connection- specific knowledge.
#[derive(Debug, Clone, Copy, Default, PartialEq, Eq)]
pub struct ActionEffect {
    /// Camera makes between `min` and `max` captured objects available after `Shutter`.
    pub objects_available: Option<ObjectsAvailable>,
    /// Camera emits a postview / capture-complete event after `Shutter` (reference app `app`
    /// path: `0x9022` cleanup once `0xD212` clears).
    pub postview_event: Option<PostviewEvent>,
    /// Continuous frame delivery starts (e.g. live-view through-stream on the `app` connection
    /// after `0x101C InitiateOpenCapture`).
    pub live_view_stream: Option<LiveViewStream>,
}

/// Parameters for the `ObjectsAvailable` effect: bounded count of captured objects the camera
/// will make available after `Shutter`.
#[derive(Debug, Clone, Copy, Default, PartialEq, Eq)]
pub struct ObjectsAvailable {
    pub min: u32,
    pub max: u32,
}

/// Marker for the `PostviewEvent` effect (no fields).
#[derive(Debug, Clone, Copy, Default, PartialEq, Eq)]
pub struct PostviewEvent {}

/// Marker for the `LiveViewStream` effect (no fields).
#[derive(Debug, Clone, Copy, Default, PartialEq, Eq)]
pub struct LiveViewStream {}

/// One shared action identity with explicit execution-role bindings.
#[derive(Debug, Default)]
pub struct Action {
    /// Mode this action is valid in (gating; same path-prefix match as `Operation.modes`).
    pub mode: String,
    /// Real-camera execution through the Rust-owned PTP executor.
    pub initiator: Option<ActionInitiator>,
    /// Optional simulator mutation/replay proof for the same action identity.
    pub responder: Option<ActionResponder>,
    /// Post-conditions the camera produces after this action completes - the app plans UX
    /// around them without connection-specific knowledge.
    pub triggers: Vec<ActionEffect>,
    pub evidence: Vec<String>,
}

#[derive(Debug, Default)]
pub struct ActionInitiator {
    /// Runtime slots the caller binds.
    pub params: Vec<ActionInitiatorParameter>,
    pub steps: Vec<Step>,
    pub activities: Vec<ConnectionActivityDescriptor>,
}

#[derive(Debug, Clone, PartialEq, Eq)]
pub enum ActionInitiatorParameter {
    Shorthand(String),
    Expanded(ActionInitiatorParameterDeclaration),
}

#[derive(Debug, Clone, PartialEq, Eq)]
pub struct ActionInitiatorParameterDeclaration {
    pub name: String,
    pub kind: ActionInitiatorParameterKind,
    pub required: bool,
}

#[derive(Debug, Clone, Copy, PartialEq, Eq, Structural)]
pub enum ActionInitiatorParameterKind {
    U64,
    String,
}

#[derive(Debug, Clone)]
pub struct ActionResponder {
    pub params: Vec<ActionParameter>,
    pub mutation: ResponderMutation,
}

#[derive(Debug, Clone, PartialEq, Eq)]
pub struct ActionParameter {
    pub name: String,
    pub kind: ActionParameterKind,
    pub default: Option<u32>,
    pub min: Option<u32>,
    pub max: Option<u32>,
}

#[derive(Debug, Clone, Copy, PartialEq, Eq, Structural)]
pub enum ActionParameterKind {
    U32,
}

#[derive(Debug, Clone, PartialEq, Eq)]
pub enum ResponderMutation {
    EnqueueObjects {
        count_param: String,
    },
    PropertyTransition {
        target: String,
        initial: Option<i64>,
        terminal: PropertyTransitionTerminal,
        settle_after_polls: u32,
    },
}

#[derive(Debug, Clone, PartialEq, Eq)]
pub enum PropertyTransitionTerminal {
    Fixed { value: i64 },
    Parameter { parameter: String },
}

/// One wire action in a mode-entry sequence.
#[derive(Debug, Default)]
pub struct Step {
    /// `SetDevicePropValue prop = value` (width from the property's `type`).
    pub set_prop: Option<String>,
    /// `GetDevicePropValue prop` (discard / negotiate).
    pub get_prop: Option<String>,
    /// Read `prop`, then write the same value back (the live-view `0xdf2a` echo).
    pub read_echo: Option<String>,
    /// Send operation `op` (e.g. `0x101c` InitiateOpenCapture).
    pub send_op: Option<String>,
    /// Ask the host-owned transport to open an auxiliary PTP/IP channel at this exact point in
    /// the manifest-authored sequence.
    pub open_channel: Option<SocketRole>,
    /// Re-establish the PTP/IP session in-place: CloseSession 0x1003 -> 8B `0xffffffff` sentinel
    /// -> new TCP socket to the connection's command port -> cached 82B InitCmdReq -> InitCmdAck ->
    /// OpenSession sid=1.
    pub reopen_session: Option<ReopenSession>,
    /// End the PTP/IP session, optionally using the connection's declared orderly
    /// transport-close frame.
    pub close_session: Option<CloseSession>,
    pub value: Option<SetPropValue>,
    /// Operation parameters for `send_op`: literals, or a named runtime slot the I/O-owning
    /// client binds (e.g. the live-view open-capture txid for `0x1018`).
    pub params: Vec<StepParam>,
    /// Bind scalar values from this step's successful data/response phase into the PTP-IP
    /// action scope for later conditionals, loops, or params.
    pub captures: Vec<Capture>,
    /// Start tracking a named simulator sequence gate at this step.
    pub starts_gate: Option<String>,
    /// Satisfy a named simulator sequence gate when this step and all steps since the matching
    /// `startsGate` have succeeded in order.
    pub completes_gate: Option<String>,
    /// If true, a non-OK PTP *response* to this step is acceptable - the client logs it and
    /// continues (advisory setup like `0xdf28`/`0xd226`/`0x9054` that some bodies/responders
    /// reject).
    pub tolerant: bool,
    /// Bounded repeat count (default 1).
    pub repeat: u32,
    /// Poll `source` until `until` holds over observed property values, running `on_each` each
    /// unsatisfied iteration - the PTP-IP await/poll-until verb.
    pub await_until: Option<AwaitUntil>,
    /// Replay a logical PTP sequence only after explicitly selected failures: named non-OK
    /// response codes and/or whole failure classes.
    pub retry: Option<StepRetry>,
    /// A closed declarative loop: `forEach` over a captured collection (each element binds a
    /// runtime slot), or `chunk`-by-size over the current object (the executor owns the
    /// offset/length cursor).
    pub loop_step: Option<Loop>,
    pub if_step: Option<IfStep>,
}

#[derive(Debug, Clone, PartialEq, Eq)]
pub enum SetPropValue {
    Literal(i64),
    Runtime(RuntimeSetPropValue),
}

#[derive(Debug, Clone, PartialEq, Eq)]
pub struct RuntimeSetPropValue {
    pub runtime: String,
    pub if_missing: MissingRuntimeValue,
}

#[derive(Debug, Clone, Copy, Default, PartialEq, Eq, Structural)]
pub enum MissingRuntimeValue {
    #[default]
    Error,
    Skip,
}

#[derive(Debug, Clone, PartialEq, Eq)]
pub struct Capture {
    pub bind: String,
    pub source: CaptureSource,
}

#[derive(Debug, Clone, Copy, PartialEq, Eq, Structural)]
pub enum CaptureSource {
    ObjectInfoCompressedSize,
    PropValue,
    U32Le,
    U64Le,
    /// Standard PTP array framing: little-endian u32 count followed by u32 items.
    PtpU32Array,
    /// The transaction id allocated to the successful `sendOp` request.
    TransactionId,
}

#[derive(Debug)]
pub struct IfStep {
    pub slot: String,
    pub equals: u64,
    pub then_steps: Vec<Step>,
    /// Defaults to empty so existing `if` steps retain their skip-on-false behavior.
    pub else_steps: Vec<Step>,
}

/// Failure-selected retry for a logical PTP sequence.
#[derive(Debug)]
pub struct StepRetry {
    pub steps: Vec<Step>,
    pub when_response_codes: Vec<String>,
    pub when_failure_classes: Vec<RetryFailureClass>,
    pub max_attempts: u32,
    pub retry_delay_ms: u32,
}

/// A whole class of step failure a `retry` may select.
#[derive(Debug, Clone, Copy, PartialEq, Eq, Structural)]
pub enum RetryFailureClass {
    Decode,
}

/// Where a PTP-IP `awaitUntil` observes: a property `poll` or an `event` push.
#[derive(Debug, Clone, PartialEq, Eq)]
pub enum AwaitSource {
    Poll { prop: String },
    /// Await a completion/lifecycle event push (the camera's `0xC0xx` channel), then re-poll
    /// `then_poll` until `until` holds or the budget runs out.
    Event {
        code: String,
        then_poll: Option<String>,
    },
}

/// The PTP-IP await/poll-until step body.
#[derive(Debug)]
pub struct AwaitUntil {
    /// Where to observe: a property `poll` (loop) or an `event` push (single-shot).
    pub source: AwaitSource,
    /// Satisfied when this predicate over observed values holds.
    pub until: Predicate,
    /// Steps run each iteration when `until` is NOT yet satisfied, before the next poll.
    pub on_each: Vec<Step>,
    /// Dispatcher wall-clock budget; the step fails (tolerant-aware) if `until` isn't met
    /// before it elapses.
    pub timeout_ms: u32,
    /// Poll cadence (the dispatcher sleeps between polls), for both the Poll source and
    /// Event-source post-event re-polls.
    pub interval_ms: u32,
}

/// A closed, declarative loop control-flow construct - the sanctioned for-each the
/// `await_until` doc defers to.
#[derive(Debug)]
pub enum Loop {
    /// Iterate a named collection captured by an earlier step, binding each element into the
    /// runtime slot `bind` for the body's `StepParam::Runtime` references.
    ForEach {
        collection: String,
        bind: String,
        body: Vec<Step>,
    },
    /// Walk the current object in `size`-byte windows.
    Chunk {
        total: String,
        size: ChunkSize,
        offset_bind: String,
        length_bind: String,
        body: Vec<Step>,
    },
}

#[derive(Debug, Clone, PartialEq, Eq)]
pub enum ChunkSize {
    Literal(u32),
    Runtime { runtime: String },
}

/// Marker for the `reopen_session` action (empty body in YAML).
#[derive(Debug, Clone, Copy, Default, PartialEq, Eq)]
pub struct ReopenSession {}

/// `closeSession` action: end the PTP/IP session.
#[derive(Debug, Clone, Copy, Default, PartialEq, Eq)]
pub struct CloseSession {
    pub transport_close: bool,
}

/// The PTP/IP InitCommandRequest wire shape as manifest data: identity slots (resolved via
/// `values:`), fixed field widths, and evidence for the declared shape.
#[derive(Debug, Clone, PartialEq, Default)]
pub struct InitShape {
    /// Named-value refs for the identity slots, resolved via `values:`.
    pub identity: InitIdentity,
    /// Fixed width of the UTF-16LE friendly-name field, in bytes.
    pub name_field_byte_count: u32,
    /// Evidence ids backing the declared init shape.
    pub evidence: Vec<String>,
    /// Optional `values:` key naming the responder GUID an init ack must carry.
    pub expected_responder_guid: Option<String>,
}

/// Named-value refs for the `InitShape` identity slots.
#[derive(Debug, Clone, PartialEq, Default)]
pub struct InitIdentity {
    /// `values:` key naming the initiator GUID (e.g. `initiatorGuid`).
    pub guid: String,
    /// `values:` key naming the friendly name (e.g. `initFriendlyName`).
    pub friendly_name: String,
    /// Optional `values:` key naming the route-selected local IPv4 address.
    pub client_ipv4: Option<String>,
}

/// A `send_op` parameter: a literal, or a **named runtime slot** the client fills from its own
/// session state.
#[derive(Debug, Clone, PartialEq)]
pub enum StepParam {
    Literal(u32),
    Runtime {
        runtime: String,
        shift: u32,
        mask: Option<u64>,
    },
}

/// A condition under which a connection is available on a body.
#[derive(Debug, Clone, Default)]
pub struct AvailableWhen {
    pub firmware: Option<VersionCond>,
}

/// A firmware comparison.
#[derive(Debug, Clone, Default)]
pub struct VersionCond {
    pub eq: Option<String>,
    pub lt: Option<String>,
    pub le: Option<String>,
    pub gt: Option<String>,
    pub ge: Option<String>,
}

/// How a named value is determined.
#[derive(Debug, Clone, PartialEq)]
pub enum ValuePolicy {
    Fixed {
        value: Yaml,
    },
    Generated {
        scheme: String,
        persist: bool,
    },
    FromPairing {
        source: String,
    },
    /// Client-derived from a runtime slot the host fills from its own session state (e.g. the
    /// BLE-registered device name).
    ClientDerived {
        runtime: String,
    },
}

/// Manufacturer-tier defaults (`fuji.yaml`) - shared by every body of a make and genuinely NOT
/// a camera (no model/fw).
#[derive(Debug, Clone, Default)]
pub struct ManufacturerDefaults {
    pub manufacturer: String,
    /// Names a `VersionScheme`; absent -> the default (`dotted-int`).
    pub version_order: Option<String>,
    pub values: NameMap<ValuePolicy>,
    pub extra: NameMap<Yaml>,
}

impl Rank for ControlRole {
    open spec fn rank(self) -> int {
        match self {
            ControlRole::Iso => 0,
            ControlRole::ShutterSpeed => 1,
            ControlRole::Aperture => 2,
            ControlRole::ExposureBias => 3,
            ControlRole::FocusArea => 4,
        }
    }

    proof fn rank_injective(a: Self, b: Self) {
    }

    fn rank_of(self) -> (r: u8) {
        match self {
            ControlRole::Iso => 0,
            ControlRole::ShutterSpeed => 1,
            ControlRole::Aperture => 2,
            ControlRole::ExposureBias => 3,
            ControlRole::FocusArea => 4,
        }
    }
}

impl Rank for ActionVerb {
    open spec fn rank(self) -> int {
        match self {
            ActionVerb::Shutter => 0,
            ActionVerb::EnumerateObjects => 1,
            ActionVerb::GetObjectInfo => 2,
            ActionVerb::GetThumb => 3,
            ActionVerb::GetObject => 4,
            ActionVerb::DeleteObject => 5,
            ActionVerb::AutofocusLock => 6,
            ActionVerb::AutofocusRelease => 7,
            ActionVerb::ImportObjects => 8,
            ActionVerb::ReadDeviceInfo => 9,
            ActionVerb::StartLiveView => 10,
            ActionVerb::PollLiveView => 11,
            ActionVerb::StopLiveView => 12,
            ActionVerb::Keepalive => 13,
        }
    }

    proof fn rank_injective(a: Self, b: Self) {
    }

    fn rank_of(self) -> (r: u8) {
        match self {
            ActionVerb::Shutter => 0,
            ActionVerb::EnumerateObjects => 1,
            ActionVerb::GetObjectInfo => 2,
            ActionVerb::GetThumb => 3,
            ActionVerb::GetObject => 4,
            ActionVerb::DeleteObject => 5,
            ActionVerb::AutofocusLock => 6,
            ActionVerb::AutofocusRelease => 7,
            ActionVerb::ImportObjects => 8,
            ActionVerb::ReadDeviceInfo => 9,
            ActionVerb::StartLiveView => 10,
            ActionVerb::PollLiveView => 11,
            ActionVerb::StopLiveView => 12,
            ActionVerb::Keepalive => 13,
        }
    }
}

/// The name of an action verb.
pub open spec fn verb_text(v: ActionVerb) -> Seq<char> {
    match v {
        ActionVerb::Shutter => "shutter"@,
        ActionVerb::EnumerateObjects => "enumerateObjects"@,
        ActionVerb::GetObjectInfo => "getObjectInfo"@,
        ActionVerb::GetThumb => "getThumb"@,
        ActionVerb::GetObject => "getObject"@,
        ActionVerb::DeleteObject => "deleteObject"@,
        ActionVerb::AutofocusLock => "autofocusLock"@,
        ActionVerb::AutofocusRelease => "autofocusRelease"@,
        ActionVerb::ImportObjects => "importObjects"@,
        ActionVerb::ReadDeviceInfo => "readDeviceInfo"@,
        ActionVerb::StartLiveView => "startLiveView"@,
        ActionVerb::PollLiveView => "pollLiveView"@,
        ActionVerb::StopLiveView => "stopLiveView"@,
        ActionVerb::Keepalive => "keepalive"@,
    }
}

/// The verb with the name `s`, if there is one.
pub open spec fn verb_named(s: Seq<char>) -> Option<ActionVerb> {
    if exists|v: ActionVerb| verb_text(v) == s {
        Some(choose|v: ActionVerb| verb_text(v) == s)
    } else {
        None
    }
}

/// The length and the first letter of a verb's name, which tell the names apart.
spec fn verb_mark(v: ActionVerb) -> (nat, char) {
    match v {
        ActionVerb::Shutter => (7, 's'),
        ActionVerb::EnumerateObjects => (16, 'e'),
        ActionVerb::GetObjectInfo => (13, 'g'),
        ActionVerb::GetThumb => (8, 'g'),
        ActionVerb::GetObject => (9, 'g'),
        ActionVerb::DeleteObject => (12, 'd'),
        ActionVerb::AutofocusLock => (13, 'a'),
        ActionVerb::AutofocusRelease => (16, 'a'),
        ActionVerb::ImportObjects => (13, 'i'),
        ActionVerb::ReadDeviceInfo => (14, 'r'),
        ActionVerb::StartLiveView => (13, 's'),
        ActionVerb::PollLiveView => (12, 'p'),
        ActionVerb::StopLiveView => (12, 's'),
        ActionVerb::Keepalive => (9, 'k'),
    }
}

proof fn verb_mark_of_text(v: ActionVerb)
    ensures
        verb_text(v).len() == verb_mark(v).0,
        verb_text(v)[0] == verb_mark(v).1,
{
    match v {
        ActionVerb::Shutter => {
            reveal_strlit("shutter");
        },
        ActionVerb::EnumerateObjects => {
            reveal_strlit("enumerateObjects");
        },
        ActionVerb::GetObjectInfo => {
            reveal_strlit("getObjectInfo");
        },
        ActionVerb::GetThumb => {
            reveal_strlit("getThumb");
        },
        ActionVerb::GetObject => {
            reveal_strlit("getObject");
        },
        ActionVerb::DeleteObject => {
            reveal_strlit("deleteObject");
        },
        ActionVerb::AutofocusLock => {
            reveal_strlit("autofocusLock");
        },
        ActionVerb::AutofocusRelease => {
            reveal_strlit("autofocusRelease");
        },
        ActionVerb::ImportObjects => {
            reveal_strlit("importObjects");
        },
        ActionVerb::ReadDeviceInfo => {
            reveal_strlit("readDeviceInfo");
        },
        ActionVerb::StartLiveView => {
            reveal_strlit("startLiveView");
        },
        ActionVerb::PollLiveView => {
            reveal_strlit("pollLiveView");
        },
        ActionVerb::StopLiveView => {
            reveal_strlit("stopLiveView");
        },
        ActionVerb::Keepalive => {
            reveal_strlit("keepalive");
        },
    }
}

/// No two verbs share a name.
pub proof fn verb_text_injective(a: ActionVerb, b: ActionVerb)
    requires
        verb_text(a) == verb_text(b),
    ensures
        a == b,
{
    verb_mark_of_text(a);
    verb_mark_of_text(b);
    assert(verb_mark(a) == verb_mark(b));
}

impl ActionVerb {
    /// The name of the verb.
    pub fn as_str(self) -> (r: &'static str)
        ensures
            r@ == verb_text(self),
    {
        match self {
            ActionVerb::Shutter => "shutter",
            ActionVerb::EnumerateObjects => "enumerateObjects",
            ActionVerb::GetObjectInfo => "getObjectInfo",
            ActionVerb::GetThumb => "getThumb",
            ActionVerb::GetObject => "getObject",
            ActionVerb::DeleteObject => "deleteObject",
            ActionVerb::AutofocusLock => "autofocusLock",
            ActionVerb::AutofocusRelease => "autofocusRelease",
            ActionVerb::ImportObjects => "importObjects",
            ActionVerb::ReadDeviceInfo => "readDeviceInfo",
            ActionVerb::StartLiveView => "startLiveView",
            ActionVerb::PollLiveView => "pollLiveView",
            ActionVerb::StopLiveView => "stopLiveView",
            ActionVerb::Keepalive => "keepalive",
        }
    }

    /// The verb with this name; the error names the text that is none.
    pub fn parse(value: &str) -> (r: Result<ActionVerb, String>)
        ensures
            match r {
                Ok(v) => verb_text(v) == value@,
                Err(e) => (forall|v: ActionVerb| verb_text(v) != value@) && e@
                    == "unknown action verb '"@ + value@ + "'"@,
            },
    {
        if same(value, "shutter") {
            Ok(ActionVerb::Shutter)
        } else if same(value, "enumerateObjects") {
            Ok(ActionVerb::EnumerateObjects)
        } else if same(value, "getObjectInfo") {
            Ok(ActionVerb::GetObjectInfo)
        } else if same(value, "getThumb") {
            Ok(ActionVerb::GetThumb)
        } else if same(value, "getObject") {
            Ok(ActionVerb::GetObject)
        } else if same(value, "deleteObject") {
            Ok(ActionVerb::DeleteObject)
        } else if same(value, "autofocusLock") {
            Ok(ActionVerb::AutofocusLock)
        } else if same(value, "autofocusRelease") {
            Ok(ActionVerb::AutofocusRelease)
        } else if same(value, "importObjects") {
            Ok(ActionVerb::ImportObjects)
        } else if same(value, "readDeviceInfo") {
            Ok(ActionVerb::ReadDeviceInfo)
        } else if same(value, "startLiveView") {
            Ok(ActionVerb::StartLiveView)
        } else if same(value, "pollLiveView") {
            Ok(ActionVerb::PollLiveView)
        } else if same(value, "stopLiveView") {
            Ok(ActionVerb::StopLiveView)
        } else if same(value, "keepalive") {
            Ok(ActionVerb::Keepalive)
        } else {
            proof {
                assert forall|v: ActionVerb| verb_text(v) != value@ by {
                    match v {
                        ActionVerb::Shutter => {},
                        ActionVerb::EnumerateObjects => {},
                        ActionVerb::GetObjectInfo => {},
                        ActionVerb::GetThumb => {},
                        ActionVerb::GetObject => {},
                        ActionVerb::DeleteObject => {},
                        ActionVerb::AutofocusLock => {},
                        ActionVerb::AutofocusRelease => {},
                        ActionVerb::ImportObjects => {},
                        ActionVerb::ReadDeviceInfo => {},
                        ActionVerb::StartLiveView => {},
                        ActionVerb::PollLiveView => {},
                        ActionVerb::StopLiveView => {},
                        ActionVerb::Keepalive => {},
                    }
                }
            }
            Err(join3("unknown action verb '", value, "'"))
        }
    }
}

impl std::str::FromStr for ActionVerb {
    type Err = String;

    fn from_str(value: &str) -> (r: Result<ActionVerb, String>)
        ensures
            match r {
                Ok(v) => verb_text(v) == value@,
                Err(e) => (forall|v: ActionVerb| verb_text(v) != value@) && e@
                    == "unknown action verb '"@ + value@ + "'"@,
            },
    {
        ActionVerb::parse(value)
    }
}

/// A verb's name parses to the verb, and to no other.
pub proof fn verb_name_round_trips(v: ActionVerb)
    ensures
        verb_named(verb_text(v)) == Some(v),
{
    let w = choose|w: ActionVerb| verb_text(w) == verb_text(v);
    verb_text_injective(v, w);
}

/// The text after an optional `0x` or `0X`.
pub open spec fn without_hex_prefix(s: Seq<char>) -> Seq<char> {
    if has_prefix(s, "0x"@) || has_prefix(s, "0X"@) {
        s.skip(2)
    } else {
        s
    }
}

/// The text after an optional `0x` or `0X`.
fn strip_hex_prefix(s: &str) -> (r: &str)
    ensures
        r@ == without_hex_prefix(s@),
{
    proof {
        reveal_strlit("0x");
        reveal_strlit("0X");
    }
    match strip_prefix(s, "0x") {
        Some(rest) => rest,
        None => match strip_prefix(s, "0X") {
            Some(rest) => rest,
            None => s,
        },
    }
}

/// The code that a key such as `0x101b` writes.
pub open spec fn hex_code(s: Seq<char>) -> Option<u16> {
    match unsigned_value(without_hex_prefix(trimmed(s)), 16, 0xffff) {
        Some(n) => Some(n as u16),
        None => None,
    }
}

/// Parses a key such as `0x101b`; `None` for a malformed key.
pub fn parse_hex_code(s: &str) -> (r: Option<u16>)
    ensures
        r == hex_code(s@),
{
    let t = trim(s);
    let hex = strip_hex_prefix(t);
    match parse_unsigned(hex, 16, 0xffff) {
        Some(n) => Some(n as u16),
        None => None,
    }
}

/// The 32-bit number that a hexadecimal value writes.
pub open spec fn hex_u32(s: Seq<char>) -> Option<u32> {
    match unsigned_value(without_hex_prefix(trimmed(s)), 16, 0xffff_ffff) {
        Some(n) => Some(n as u32),
        None => None,
    }
}

/// Parses a hexadecimal value of up to 32 bits.
pub fn parse_hex_u32(s: &str) -> (r: Option<u32>)
    ensures
        r == hex_u32(s@),
{
    let t = trim(s);
    let hex = strip_hex_prefix(t);
    match parse_unsigned(hex, 16, 0xffff_ffff) {
        Some(n) => Some(n as u32),
        None => None,
    }
}

/// The bytes that pairs of hexadecimal digits write.
pub open spec fn paired_bytes(s: Seq<char>) -> Seq<u8> {
    Seq::new(
        s.len() / 2,
        |i: int| (digit_value(s[2 * i])->0 * 16 + digit_value(s[2 * i + 1])->0) as u8,
    )
}

/// The bytes that a row of digit pairs with an optional `0x` writes. There must be at least one
/// pair.
pub open spec fn hex_bytes(s: Seq<char>) -> Option<Seq<u8>> {
    let p = without_hex_prefix(s);
    if p.len() > 0 && p.len() % 2 == 0 && all_digits(p, 16) {
        Some(paired_bytes(p))
    } else {
        None
    }
}

/// Decodes an even-length row of hexadecimal digits, with an optional `0x`.
pub fn parse_hex_bytes(s: &str) -> (r: Option<Vec<u8>>)
    ensures
        match r {
            Some(v) => hex_bytes(s@) == Some(v@),
            None => hex_bytes(s@) is None,
        },
{
    let p = strip_hex_prefix(s);
    let v = chars_of(p);
    if v.len() == 0 || v.len() % 2 != 0 {
        return None;
    }
    let mut out: Vec<u8> = Vec::new();
    let mut i: usize = 0;
    while i < v.len()
        invariant
            v@ == without_hex_prefix(s@),
            v.len() % 2 == 0,
            i % 2 == 0,
            i <= v.len(),
            out.len() == i / 2,
            forall|j: int| 0 <= j < i ==> is_digit(#[trigger] v@[j], 16),
            forall|j: int| 0 <= j < out.len() ==> #[trigger] out@[j] == paired_bytes(v@)[j],
        decreases v.len() - i,
    {
        match digit(v[i], 16) {
            None => {
                return None;
            },
            Some(high) => match digit(v[i + 1], 16) {
                None => {
                    return None;
                },
                Some(low) => {
                    out.push((high * 16 + low) as u8);
                },
            },
        }
        i = i + 2;
    }
    proof {
        assert(out@ == paired_bytes(v@));
    }
    Some(out)
}

impl SemanticAssertionLedger {
    /// Whether no assertion is recorded.
    pub fn is_empty(&self) -> (r: bool)
        ensures
            r == (self.operations.entries().len() == 0 && self.properties.entries().len() == 0),
    {
        self.operations.is_empty() && self.properties.is_empty()
    }
}

impl OperationKind {
    /// Whether the operation may be executed.
    pub fn is_executable(&self) -> (r: bool)
        ensures
            r == (*self == OperationKind::Executable),
    {
        *self == OperationKind::Executable
    }
}

impl PropertyKind {
    /// Whether the property is a user setting.
    pub fn is_setting(&self) -> (r: bool)
        ensures
            r == (*self == PropertyKind::Setting),
    {
        *self == PropertyKind::Setting
    }
}

/// The text of a descriptor value.
pub open spec fn descriptor_value_text(v: DescriptorValue) -> Seq<char> {
    match v {
        DescriptorValue::Int(n) => decimal(n as int),
        DescriptorValue::Str(s) => s@,
    }
}

impl DescriptorValue {
    /// The integer that the value is, if it is one.
    pub fn as_i64(&self) -> (r: Option<i64>)
        ensures
            r == (match *self {
                DescriptorValue::Int(n) => Some(n),
                DescriptorValue::Str(_) => None,
            }),
    {
        match self {
            DescriptorValue::Int(value) => Some(*value),
            DescriptorValue::Str(_) => None,
        }
    }

    /// The value as text.
    pub fn text(&self) -> (r: String)
        ensures
            r@ == descriptor_value_text(*self),
    {
        match self {
            DescriptorValue::Int(value) => i64_text(*value),
            DescriptorValue::Str(value) => value.clone(),
        }
    }
}

impl From<i64> for DescriptorValue {
    fn from(value: i64) -> (r: Self) {
        DescriptorValue::Int(value)
    }
}

impl vstd::std_specs::convert::FromSpecImpl<i64> for DescriptorValue {
    open spec fn obeys_from_spec() -> bool {
        true
    }

    open spec fn from_spec(v: i64) -> Self {
        DescriptorValue::Int(v)
    }
}

impl From<&str> for DescriptorValue {
    fn from(value: &str) -> (r: Self)
        ensures
            r matches DescriptorValue::Str(s) && s@ == value@,
    {
        DescriptorValue::Str(value.to_owned())
    }
}

/// A text determines the view of the value and not the value itself, so `from` states its result.
impl vstd::std_specs::convert::FromSpecImpl<&str> for DescriptorValue {
    open spec fn obeys_from_spec() -> bool {
        false
    }

    open spec fn from_spec(v: &str) -> Self {
        arbitrary()
    }
}

impl From<String> for DescriptorValue {
    fn from(value: String) -> (r: Self) {
        DescriptorValue::Str(value)
    }
}

impl vstd::std_specs::convert::FromSpecImpl<String> for DescriptorValue {
    open spec fn obeys_from_spec() -> bool {
        true
    }

    open spec fn from_spec(v: String) -> Self {
        DescriptorValue::Str(v)
    }
}

/// Where a descriptor's value set comes from: its own word, else the manifest where it lists
/// values, else the camera.
pub open spec fn source_of(d: Descriptor) -> ValueSource {
    match d.source {
        Some(s) => s,
        None => if d.values@.len() == 0 {
            ValueSource::Camera
        } else {
            ValueSource::Manifest
        },
    }
}

impl Descriptor {
    /// Where the value set comes from.
    pub fn effective_source(&self) -> (r: ValueSource)
        ensures
            r == source_of(*self),
    {
        match self.source {
            Some(s) => s,
            None => if self.values.len() == 0 {
                ValueSource::Camera
            } else {
                ValueSource::Manifest
            },
        }
    }
}

/// The widths of the count, code and value fields of a record stream.
pub open spec fn widths_of(p: Payload) -> (u8, u8, u8) {
    (
        match p.count_width {
            Some(w) => w,
            None => 2,
        },
        match p.record {
            Some(l) => l.code_width,
            None => 2,
        },
        match p.record {
            Some(l) => l.value_width,
            None => 4,
        },
    )
}

impl Payload {
    /// The widths of the count, code and value fields; 2, 2 and 4 where they are not declared.
    pub fn record_widths(&self) -> (r: (u8, u8, u8))
        ensures
            r == widths_of(*self),
    {
        let count: u8 = match self.count_width {
            Some(w) => w,
            None => 2,
        };
        match self.record {
            Some(l) => (count, l.code_width, l.value_width),
            None => (count, 2, 4),
        }
    }
}

/// The property code of a record-stream member.
pub open spec fn member_code(m: RecordMember) -> String {
    match m {
        RecordMember::Code(code) => code,
        RecordMember::Detailed(d) => d.code,
    }
}

/// The wire encoding of a record-stream member.
pub open spec fn member_encoding(m: RecordMember, default_width: u8) -> RecordValueEncoding {
    match m {
        RecordMember::Code(_) => RecordValueEncoding::Fixed { width: default_width },
        RecordMember::Detailed(d) => d.encoding,
    }
}

impl RecordMember {
    /// The property code.
    pub fn code(&self) -> (r: &String)
        ensures
            *r == member_code(*self),
    {
        match self {
            RecordMember::Code(code) => code,
            RecordMember::Detailed(member) => &member.code,
        }
    }

    /// The wire encoding; fixed at `default_width` for a plain member.
    pub fn encoding(&self, default_width: u8) -> (r: RecordValueEncoding)
        ensures
            r == member_encoding(*self, default_width),
    {
        match self {
            RecordMember::Code(_) => RecordValueEncoding::Fixed { width: default_width },
            RecordMember::Detailed(member) => member.encoding,
        }
    }

    /// The literal that stands in where no property state exists.
    pub fn simulator_value(&self) -> (r: Option<&RecordValueLiteral>)
        ensures
            match r {
                Some(v) => *self matches RecordMember::Detailed(d) && d.simulator_value == Some(*v),
                None => *self matches RecordMember::Detailed(d) ==> d.simulator_value is None,
            },
    {
        match self {
            RecordMember::Code(_) => None,
            RecordMember::Detailed(member) => member.simulator_value.as_ref(),
        }
    }
}

impl Default for SocketBinding {
    fn default() -> (r: Self)
        ensures
            r == SocketBinding::Port(0),
    {
        SocketBinding::Port(0)
    }
}

/// The port of a binding.
pub open spec fn binding_port(b: SocketBinding) -> u16 {
    match b {
        SocketBinding::Port(p) => p,
        SocketBinding::Descriptor(d) => d.port,
    }
}

/// The condition under which a binding becomes available.
pub open spec fn binding_condition(b: SocketBinding) -> Option<SocketAvailability> {
    match b {
        SocketBinding::Port(_) => None,
        SocketBinding::Descriptor(d) => d.available_after,
    }
}

/// The binding of a role.
pub open spec fn role_binding(b: SocketBindings, role: SocketRole) -> Option<SocketBinding> {
    match role {
        SocketRole::Command => Some(b.command),
        SocketRole::Event => b.event,
        SocketRole::LiveView => b.live_view,
    }
}

impl SocketBinding {
    /// The port.
    pub fn port(&self) -> (r: u16)
        ensures
            r == binding_port(*self),
    {
        match self {
            SocketBinding::Port(port) => *port,
            SocketBinding::Descriptor(descriptor) => descriptor.port,
        }
    }

    /// The condition under which the listener becomes available.
    pub fn available_after(&self) -> (r: Option<&SocketAvailability>)
        ensures
            match r {
                Some(a) => binding_condition(*self) == Some(*a),
                None => binding_condition(*self) is None,
            },
    {
        match self {
            SocketBinding::Port(_) => None,
            SocketBinding::Descriptor(descriptor) => descriptor.available_after.as_ref(),
        }
    }
}

impl SocketBindings {
    /// The binding of `role`.
    pub fn binding_for(&self, role: SocketRole) -> (r: Option<&SocketBinding>)
        ensures
            match r {
                Some(b) => role_binding(*self, role) == Some(*b),
                None => role_binding(*self, role) is None,
            },
    {
        match role {
            SocketRole::Command => Some(&self.command),
            SocketRole::Event => self.event.as_ref(),
            SocketRole::LiveView => self.live_view.as_ref(),
        }
    }

    /// The port of `role`, or `None` if the connection has no such socket.
    pub fn port_for(&self, role: SocketRole) -> (r: Option<u16>)
        ensures
            r == (match role_binding(*self, role) {
                Some(b) => Some(binding_port(b)),
                None => None,
            }),
    {
        match self.binding_for(role) {
            Some(b) => Some(b.port()),
            None => None,
        }
    }

    /// The availability condition of `role`, if one is declared.
    pub fn available_after(&self, role: SocketRole) -> (r: Option<&SocketAvailability>)
        ensures
            match r {
                Some(a) => role_binding(*self, role) matches Some(b) && binding_condition(b) == Some(
                    *a,
                ),
                None => role_binding(*self, role) matches Some(b) ==> binding_condition(b) is None,
            },
    {
        match self.binding_for(role) {
            Some(b) => b.available_after(),
            None => None,
        }
    }
}

impl ModeEntry {
    /// The PTP steps of the entry, if it runs any.
    pub fn ptp_steps(&self) -> (r: Option<&Vec<Step>>)
        ensures
            match r {
                Some(s) => self.execution matches ModeEntryExecution::Ptp { steps } && steps == *s,
                None => !(self.execution is Ptp),
            },
    {
        match &self.execution {
            ModeEntryExecution::Ptp { steps } => Some(steps),
            _ => None,
        }
    }
}

/// One for a set field, zero for an absent one.
#[verifier::opaque]
pub open spec fn present<T>(o: Option<T>) -> int {
    if o is Some {
        1
    } else {
        0
    }
}

/// One for a set field, zero for an absent one.
fn count_of<T>(o: &Option<T>) -> (r: u8)
    ensures
        r == present(*o),
        r <= 1,
{
    reveal(present);
    if o.is_some() {
        1
    } else {
        0
    }
}

/// The number of effects that an effect record sets.
pub open spec fn effect_count(e: ActionEffect) -> int {
    present(e.objects_available) + present(e.postview_event) + present(e.live_view_stream)
}

impl ActionEffect {
    /// Whether exactly one effect is set.
    pub fn is_well_formed(&self) -> (r: bool)
        ensures
            r == (effect_count(*self) == 1),
    {
        count_of(&self.objects_available) + count_of(&self.postview_event)
            + count_of(&self.live_view_stream) == 1
    }
}

/// The full declaration of an initiator parameter.
pub open spec fn declared(p: ActionInitiatorParameter) -> ActionInitiatorParameterDeclaration {
    match p {
        ActionInitiatorParameter::Shorthand(name) => ActionInitiatorParameterDeclaration {
            name,
            kind: ActionInitiatorParameterKind::U64,
            required: true,
        },
        ActionInitiatorParameter::Expanded(d) => d,
    }
}

impl ActionInitiatorParameter {
    /// The full declaration: a bare name is a required 64-bit parameter.
    pub fn normalized(&self) -> (r: ActionInitiatorParameterDeclaration)
        ensures
            r == declared(*self),
    {
        match self {
            ActionInitiatorParameter::Shorthand(name) => ActionInitiatorParameterDeclaration {
                name: name.clone(),
                kind: ActionInitiatorParameterKind::U64,
                required: true,
            },
            ActionInitiatorParameter::Expanded(d) => ActionInitiatorParameterDeclaration {
                name: d.name.clone(),
                kind: d.kind,
                required: d.required,
            },
        }
    }

    /// The name of the parameter.
    pub fn name(&self) -> (r: &str)
        ensures
            r@ == declared(*self).name@,
    {
        match self {
            ActionInitiatorParameter::Shorthand(name) => name.as_str(),
            ActionInitiatorParameter::Expanded(declaration) => declaration.name.as_str(),
        }
    }
}

/// A parameter equals its name.
impl PartialEq<String> for ActionInitiatorParameter {
    fn eq(&self, other: &String) -> (r: bool) {
        same(self.name(), other.as_str())
    }
}

impl PartialEqSpecImpl<String> for ActionInitiatorParameter {
    open spec fn obeys_eq_spec() -> bool {
        true
    }

    open spec fn eq_spec(&self, other: &String) -> bool {
        declared(*self).name@ == other@
    }
}

/// A parameter equals its name.
impl PartialEq<&str> for ActionInitiatorParameter {
    fn eq(&self, other: &&str) -> (r: bool) {
        same(self.name(), *other)
    }
}

impl PartialEqSpecImpl<&str> for ActionInitiatorParameter {
    open spec fn obeys_eq_spec() -> bool {
        true
    }

    open spec fn eq_spec(&self, other: &&str) -> bool {
        declared(*self).name@ == other@
    }
}

impl Action {
    /// The real-camera execution of the action.
    pub fn initiator(&self) -> (r: Option<&ActionInitiator>)
        ensures
            match r {
                Some(i) => self.initiator == Some(*i),
                None => self.initiator is None,
            },
    {
        self.initiator.as_ref()
    }
}

impl From<i64> for SetPropValue {
    fn from(value: i64) -> (r: Self) {
        SetPropValue::Literal(value)
    }
}

impl vstd::std_specs::convert::FromSpecImpl<i64> for SetPropValue {
    open spec fn obeys_from_spec() -> bool {
        true
    }

    open spec fn from_spec(v: i64) -> Self {
        SetPropValue::Literal(v)
    }
}

/// A value equals the literal that it is.
impl PartialEq<i64> for SetPropValue {
    fn eq(&self, other: &i64) -> (r: bool) {
        match self {
            SetPropValue::Literal(value) => *value == *other,
            SetPropValue::Runtime(_) => false,
        }
    }
}

impl PartialEqSpecImpl<i64> for SetPropValue {
    open spec fn obeys_eq_spec() -> bool {
        true
    }

    open spec fn eq_spec(&self, other: &i64) -> bool {
        *self == SetPropValue::Literal(*other)
    }
}

impl SetPropValue {
    /// The literal, where the value is one.
    pub fn literal(&self) -> (r: Option<i64>)
        ensures
            r == (match *self {
                SetPropValue::Literal(v) => Some(v),
                SetPropValue::Runtime(_) => None,
            }),
    {
        match self {
            SetPropValue::Literal(value) => Some(*value),
            SetPropValue::Runtime(_) => None,
        }
    }
}

impl ChunkSize {
    /// A fixed chunk size.
    pub fn literal(value: u32) -> (r: Self)
        ensures
            r == ChunkSize::Literal(value),
    {
        ChunkSize::Literal(value)
    }
}

/// Whether a gate can match a step on the wire: a property access, or an operation whose
/// parameters are all literals.
pub open spec fn gate_matchable(s: Step) -> bool {
    ||| s.set_prop is Some
    ||| s.get_prop is Some
    ||| s.send_op is Some && forall|i: int|
        0 <= i < s.params@.len() ==> (#[trigger] s.params@[i]) is Literal
}

/// The number of actions that a step names.
pub open spec fn step_action_count(s: Step) -> int {
    present(s.set_prop) + present(s.get_prop) + present(s.read_echo) + present(s.send_op) + present(
        s.open_channel,
    ) + present(s.reopen_session) + present(s.close_session) + present(s.await_until) + present(
        s.retry,
    ) + present(s.loop_step) + present(s.if_step)
}

impl Step {
    /// Whether a sequence gate can match the step.
    pub fn is_sequence_gate_matchable(&self) -> (r: bool)
        ensures
            r == gate_matchable(*self),
    {
        if self.set_prop.is_some() || self.get_prop.is_some() {
            return true;
        }
        if self.send_op.is_none() {
            return false;
        }
        let mut i: usize = 0;
        while i < self.params.len()
            invariant
                i <= self.params.len(),
                self.send_op is Some,
                self.set_prop is None,
                self.get_prop is None,
                forall|j: int| 0 <= j < i ==> (#[trigger] self.params@[j]) is Literal,
            decreases self.params.len() - i,
        {
            match &self.params[i] {
                StepParam::Literal(_) => {},
                StepParam::Runtime { .. } => {
                    return false;
                },
            }
            i = i + 1;
        }
        true
    }

    /// Whether exactly one action is set.
    pub fn is_well_formed(&self) -> (r: bool)
        ensures
            r == (step_action_count(*self) == 1),
    {
        count_of(&self.set_prop) + count_of(&self.get_prop) + count_of(&self.read_echo) + count_of(&self.send_op) + count_of(&self.open_channel) + count_of(&self.reopen_session) + count_of(&self.close_session) + count_of(&self.await_until)
            + count_of(&self.retry) + count_of(&self.loop_step) + count_of(&self.if_step) == 1
    }
}

/// Whether a firmware condition holds: equality by text, the bounds by version order. A bound
/// against a version that does not parse fails.
pub open spec fn version_cond_holds(c: VersionCond, fw: Seq<char>, scheme: VersionScheme) -> bool {
    &&& c.eq matches Some(b) ==> fw == b@
    &&& c.lt matches Some(b) ==> version_order(fw, b@, scheme) == Some(VersionOrder::Less)
    &&& c.le matches Some(b) ==> (version_order(fw, b@, scheme) == Some(VersionOrder::Less)
        || version_order(fw, b@, scheme) == Some(VersionOrder::Equal))
    &&& c.gt matches Some(b) ==> version_order(fw, b@, scheme) == Some(VersionOrder::Greater)
    &&& c.ge matches Some(b) ==> (version_order(fw, b@, scheme) == Some(VersionOrder::Greater)
        || version_order(fw, b@, scheme) == Some(VersionOrder::Equal))
}

/// Whether an availability condition holds; without a firmware condition it does.
pub open spec fn available_when_holds(
    w: AvailableWhen,
    fw: Seq<char>,
    scheme: VersionScheme,
) -> bool {
    w.firmware matches Some(c) ==> version_cond_holds(c, fw, scheme)
}

impl AvailableWhen {
    /// Whether the condition holds for `firmware`.
    pub fn matches(&self, firmware: &str, scheme: VersionScheme) -> (r: bool)
        ensures
            r == available_when_holds(*self, firmware@, scheme),
    {
        match &self.firmware {
            None => true,
            Some(c) => c.matches(firmware, scheme),
        }
    }
}

impl VersionCond {
    /// Whether the condition holds for the firmware `fw`.
    pub fn matches(&self, fw: &str, scheme: VersionScheme) -> (r: bool)
        ensures
            r == version_cond_holds(*self, fw@, scheme),
    {
        if let Some(b) = &self.eq {
            if !same(fw, b.as_str()) {
                return false;
            }
        }
        if let Some(b) = &self.lt {
            match order(fw, b.as_str(), scheme) {
                Some(VersionOrder::Less) => {},
                _ => {
                    return false;
                },
            }
        }
        if let Some(b) = &self.le {
            match order(fw, b.as_str(), scheme) {
                Some(VersionOrder::Less) => {},
                Some(VersionOrder::Equal) => {},
                _ => {
                    return false;
                },
            }
        }
        if let Some(b) = &self.gt {
            match order(fw, b.as_str(), scheme) {
                Some(VersionOrder::Greater) => {},
                _ => {
                    return false;
                },
            }
        }
        if let Some(b) = &self.ge {
            match order(fw, b.as_str(), scheme) {
                Some(VersionOrder::Greater) => {},
                Some(VersionOrder::Equal) => {},
                _ => {
                    return false;
                },
            }
        }
        true
    }
}

/// What a mode entry runs, where it declares exactly one of the three.
pub fn mode_execution(
    steps: Option<Vec<Step>>,
    reestablish: Option<ReestablishConnection>,
    instruction: Option<String>,
) -> (r: Result<ModeEntryExecution, String>)
    ensures
        match (steps, reestablish, instruction) {
            (Some(s), None, None) => r == Ok::<ModeEntryExecution, String>(
                ModeEntryExecution::Ptp { steps: s },
            ),
            (None, Some(c), None) => r == Ok::<ModeEntryExecution, String>(
                ModeEntryExecution::ReestablishConnection(c),
            ),
            (None, None, Some(i)) => r == Ok::<ModeEntryExecution, String>(
                ModeEntryExecution::UserInstruction { instruction: i },
            ),
            _ => r matches Err(e) && e@
                == "mode entry requires exactly one of steps, reestablishConnection, or userInstruction"@,
        },
{
    match (steps, reestablish, instruction) {
        (Some(s), None, None) => Ok(ModeEntryExecution::Ptp { steps: s }),
        (None, Some(c), None) => Ok(ModeEntryExecution::ReestablishConnection(c)),
        (None, None, Some(i)) => Ok(ModeEntryExecution::UserInstruction { instruction: i }),
        _ => Err(
            "mode entry requires exactly one of steps, reestablishConnection, or userInstruction".to_owned(),
        ),
    }
}

/// A firmware that cannot be ordered meets no bound: a condition with one does not hold, so that a
/// connection is never enabled on a comparison that could not be made.
pub proof fn unordered_firmware_meets_no_bound(c: VersionCond, fw: Seq<char>, scheme: VersionScheme)
    requires
        version_parts(fw, scheme) is None,
        c.lt is Some || c.le is Some || c.gt is Some || c.ge is Some,
    ensures
        !version_cond_holds(c, fw, scheme),
{
}

} // verus!
