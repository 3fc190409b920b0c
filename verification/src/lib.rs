//! Camera behaviour manifests: their schema, the rules that they keep, the queries on them, and the
//! way from observation bundles to a reviewed manifest.
//!
//! A manifest is the reviewed description of one camera body. The evidence that it names is
//! provenance only: a manifest whose evidence is not there is still accepted, and each missing
//! piece is a lint.

pub mod action;
pub mod activity;
pub mod bag;
pub mod digest;
pub mod error;
pub mod generate;
pub mod index;
pub mod invocation;
pub mod json;
pub mod loading;
pub mod lookups;
pub mod model;
pub mod name_map;
pub mod names;
pub mod observation;
pub mod order;
pub mod predicate;
pub mod query;
pub mod rank_map;
pub mod recorder;
pub mod recording;
pub mod sorted;
pub mod spelling;
pub mod std_names;
pub mod store;
pub mod text;
pub mod tiers;
pub mod trace;
pub mod usable;
pub mod validate;
pub mod values;
pub mod version;
pub mod yaml;

pub use action::{
    ActionArgument, ActionAvailability, ActionCatalog, ActionCatalogEntry,
    ActionCatalogParameter, ActionCatalogParameterKind, ActionInvocationRequest,
    ActionResolutionError, ActionRoleParameters, ResolvedActionInvocation,
};
pub use activity::{
    ConnectionActivityBinding, ConnectionActivityDescriptor, ConnectionActivityDisplayRole,
    ConnectionActivityExecutorSpan, ConnectionActivityHostCheckpoint,
    ConnectionActivityHostEstablishment, ConnectionActivitySequence, ExecutorSpanBinding,
    HostCheckpointBinding, HostEstablishmentBinding, NetworkIdentityExactBinding,
    RetainedSessionOpenBinding,
};
pub use error::{ConfigError, Lint, ManifestError, Severity};
pub use generate::apply::apply_review;
pub use generate::{
    CandidateAssertion, GenerationError, PROPOSAL_SCHEMA, Proposal, ProposalCandidate,
    ProposalRecordDisposition, ProposalRecordStatus, ProposalReview, REVIEW_SCHEMA,
    RecordDisposition, ReviewDisposition, VALIDATION_REPORT_SCHEMA, ValidatedObservations,
    ValidationReport, ValidationStatus,
};
pub use generate::propose::propose;
pub use generate::report::validate_bundles;
pub use generate::write::{proposal_json, validation_report_json};
pub use model::{
    parse_hex_bytes, parse_hex_code, parse_hex_u32, Action, ActionEffect, ActionInitiator,
    ActionInitiatorParameter, ActionInitiatorParameterDeclaration, ActionInitiatorParameterKind,
    ActionParameter, ActionParameterKind, ActionResponder, ActionVerb, AvailableWhen,
    AwaitSource, AwaitUntil, BleLiteralWrite, BleStateTrigger, CameraIdentity,
    CameraInitiatedData, CameraInitiatedHandoff, CameraInitiatedMetadata,
    CameraInitiatedMetadataPhase, CameraInitiatedMonitorRecovery, CameraInitiatedReceive,
    CameraInitiatedTransfer, CameraInitiatedTrigger, CameraManifest, CaptureSource,
    CloseSession, ComputedValue, Connection, ConnectionTransition, Control, ControlOwner,
    ControlReadSource, ControlRole, ControlSurfaceEntry, Descriptor, DescriptorValue,
    GateFailure, GateRequirement, InitIdentity, InitRetries, InitShape, LiveViewDelivery,
    LiveViewDeliveryKind, LiveViewStream, Loop, ManufacturerDefaults, Media, MediaFormat,
    MissingRuntimeValue, Mode, ModeEntry, ModeEntryExecution, ObjectTransferCompletionPolicy,
    ObjectTransferCompletionTiming, ObjectTransferContract, ObjectTransferFormatSupport,
    ObjectTransferResumePolicy, ObjectTransferStrategy, ObjectsAvailable, ObservedScope,
    OpEffect, Operation, OperationHandler, OperationKind, Payload, PayloadForm,
    PcssDiscoveryTarget, PcssDiscoveryTargets, PcssKnock, PostviewEvent, Property,
    PropertyAccess, PropertyKind, PropertySemanticAssertions, PropertyTransitionTerminal,
    PropertyValueEncoding, PropertyValueProfile, PropertyValueProfileRow, PropertyValueRow,
    ProvenancedName, ProvenancedPropertyValueProfile, ProvenancedPropertyValueRow, RecordLayout,
    RecordMember, RecordMemberDetail, RecordMemberRef, RecordValueEncoding, RecordValueLiteral,
    ReestablishConnection, ResponderMutation, RetryFailureClass, RuntimeSetPropValue,
    SemanticAssertionLedger, SentinelFrame, SentinelMask, SequenceGate, SetPropValue,
    ShutterRecipe, SocketAvailability, SocketBinding, SocketBindingDescriptor, SocketBindings,
    SocketRole, Step, StepParam, StepRetry, StructuredTextField, StructuredTextLayout,
    StructuredTextScalar, TransferCompletion, TransportClose, TriggerMatch, ValuePolicy,
    ValueSource, VersionCond, WireFraming, Workflow,
};
pub use observation::{
    ActionInvocationRecord, ActionOutcome, ActionRole, ArtifactMetadata, ArtifactRange,
    AssertionProvenance, BleGattOperation, BleGattRecord, BundleHeader, CameraContext,
    CapabilityDescriptor, CapabilityRecord, CapabilitySubject, CapabilityValueProfile,
    CapabilityValueProfileRow, CapabilityValueRow, CaptureClock, CaptureContext,
    CaptureInterface, CaptureInterfaceType, ClientContext, ClockMapping, ClockPoint, ClockType,
    ClockUnit, Confidence, ControlEvidenceBasis, ControlObservedEffect, DataDirection,
    EpistemicClass, EpistemicMetadata, ExecutionContext, HttpExchangeRecord, HttpRequest,
    HttpResponse, InventoryCompleteness, LifecycleMarker, LifecycleRecord, LossCounters,
    MAX_INLINE_PAYLOAD_BYTES, OBSERVATION_SCHEMA_VERSION, ObservationCommon, ObservationLine,
    PayloadMetadata, PayloadRange, PtpDataPhase, PtpEventRecord, PtpRequest, PtpResponse,
    PtpTransactionRecord, PtpTransport, Readback, ReadbackSource, Redaction, RedactionMethod,
    SemanticNameAssertion, SettlingRule, StateTransition, TransactionOutcome, TransportOutcome,
    TypedPropertyValue,
};
pub use predicate::{Leaf, Predicate, PropView};
pub use query::{Availability, Support};
pub use recorder::{
    direct_epistemic, no_loss, payload_metadata, ObservationRecorder, PayloadMetadataBuilder,
    RecorderError,
};
pub use store::{
    ConfigStore, ResolvedBleLiteralWrite, ResolvedBleStateTrigger,
    ResolvedCameraInitiatedTransfer,
};
pub use tiers::merge_tiers;
pub use trace::{LeafEval, PredicateOutcome, ResolutionTrace};
pub use version::VersionScheme;

use vstd::prelude::*;

verus! {

/// The manifest schema revision this library reads.
pub const SCHEMA_VERSION: &'static str = "camera-config/v1";

} // verus!
