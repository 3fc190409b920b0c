//! The manufacturer index: discovery signatures and establishment plans by family and model.

pub mod eval;
pub mod grammar;
pub mod parse;
pub mod readings;
pub mod recognition;
pub mod resolution;
pub mod soundness;
pub mod types;

pub use types::{
    AcquireFirmwareStep, AcquireSource, AcquireStep, AdvertByteSource, AdvertCapture,
    AdvertPredicate, AwaitSource, BitsAssertion, BleAdvertConstants, BleAdvertSignature,
    BleAwaitDisconnectStep, BleAwaitFailureEvidence, BleAwaitUntilStep, BleConnectStep,
    BleDelayStep, BleDiscoverServicesStep, BleNotifyStep, BleNotifyUntil, BleReadStep,
    BleReconnectPolicy, BleRequestMtuStep, BleSubscribeStep, BleWriteChunkStep, BleWriteStep,
    ByteAssertion, CccdMode, ChunkField, ChunkFrameField, Confidence, Encoding, EstablishmentBlock,
    FamilyBleBlock, FamilyBlock, FamilyPcssBlock, IfStep, IndexedModel, LocalNamePredicate,
    ManufacturerIndex, MfgDataPredicate, ModelView, NotifyCapture, PayloadPredicate,
    PcssDiscoveryPolicy, PcssNotifyPredicate, PcssNotifySignature, Predicate, PredicateOp,
    ReconnectDisposition, ReconnectSuggestion, ResolvedManufacturerIndex, RetryFailureKind,
    RetryStep, Signature, SignatureKind, Step, StepOptions, StepValue, SuggestsBlock, Transform,
};
