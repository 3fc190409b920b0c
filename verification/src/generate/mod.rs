//! From observation bundles to a reviewed manifest: validation, proposal, review.

pub mod accounts;
pub mod again;
pub mod apply;
pub mod bundle;
pub mod claims;
pub mod coherence;
pub mod conflicts;
pub mod contents;
pub mod faults;
pub mod fields;
pub mod forms;
pub mod integrity;
pub mod origins;
pub mod outcome;
pub mod parse;
pub mod propose;
pub mod records;
pub mod rejection;
pub mod report;
pub mod statements;
pub mod untouched;
pub mod verdict;
pub mod write;

use crate::name_map::NameMap;
use crate::observation::{
    BundleHeader, CapabilityDescriptor, CapabilityValueProfile, ExecutionContext, ObservationLine,
};
use crate::text::{debug_text, decimal, join2, join3, join4, text_debug, u64_text};
use vstd::prelude::*;

verus! {

/// The schema of a validation report.
pub const VALIDATION_REPORT_SCHEMA: &'static str = "camera-observation-validation/v1";

/// The schema of a proposal.
pub const PROPOSAL_SCHEMA: &'static str = "camera-config-proposal/v1";

/// The schema of a review.
pub const REVIEW_SCHEMA: &'static str = "camera-config-review/v1";

#[derive(Debug, Clone, PartialEq, Eq)]
pub struct ValidationReport {
    pub schema: String,
    pub total_nonblank: usize,
    pub accepted: usize,
    pub rejected: usize,
    pub dispositions: Vec<RecordDisposition>,
}

#[derive(Debug, Clone, PartialEq, Eq)]
pub struct RecordDisposition {
    pub identity: String,
    pub status: ValidationStatus,
    pub code: String,
    pub message: String,
}

#[derive(Debug, Clone, Copy, PartialEq, Eq, Structural)]
pub enum ValidationStatus {
    Accepted,
    Rejected,
}

#[derive(Debug, Clone)]
pub struct ValidatedObservations {
    pub headers: Vec<BundleHeader>,
    pub records: Vec<ObservationLine>,
    pub report: ValidationReport,
}

#[derive(Debug, Clone, PartialEq)]
pub struct Proposal {
    pub schema: String,
    pub observation_schema: String,
    pub candidates: Vec<ProposalCandidate>,
    pub record_dispositions: Vec<ProposalRecordDisposition>,
    pub digest: String,
}

#[derive(Debug, Clone, PartialEq, Eq)]
pub struct ProposalRecordDisposition {
    pub identity: String,
    pub status: ProposalRecordStatus,
    pub candidate_ids: Vec<String>,
}

#[derive(Debug, Clone, Copy, PartialEq, Eq, Structural)]
pub enum ProposalRecordStatus {
    Proposed,
    EvidenceOnly,
}

#[derive(Debug, Clone, PartialEq)]
pub struct ProposalCandidate {
    pub id: String,
    pub assertion: CandidateAssertion,
    pub source_records: Vec<String>,
}

#[derive(Debug, Clone, PartialEq)]
pub enum CandidateAssertion {
    CameraIdentity {
        manufacturer: String,
        model: String,
        firmware: String,
    },
    Operation {
        code: String,
        supported: bool,
        scopes: Vec<ExecutionContext>,
    },
    Property {
        code: String,
        supported: bool,
        property_type: Option<String>,
        access: Option<String>,
        descriptor: Option<CapabilityDescriptor>,
        labels: NameMap<String>,
        value_profiles: Vec<CapabilityValueProfile>,
        scopes: Vec<ExecutionContext>,
    },
}

#[derive(Debug, Clone, PartialEq, Eq)]
pub struct ProposalReview {
    pub schema: String,
    pub proposal_digest: String,
    pub decisions: NameMap<ReviewDisposition>,
}

#[derive(Debug, Clone, Copy, PartialEq, Eq, Structural)]
pub enum ReviewDisposition {
    Accept,
    Reject,
    Defer,
}

#[derive(Debug, Clone, PartialEq, Eq)]
pub enum GenerationError {
    Rejected(usize),
    ReviewSchema { found: String, expected: String },
    ReviewDigest { found: String, expected: String },
    ProposalIntegrity(String),
    ReviewCoverage(String),
    ApplyConflict(String),
}

/// What a generation error says.
pub open spec fn generation_error_text(e: GenerationError) -> Seq<char> {
    match e {
        GenerationError::Rejected(n) => "observation validation rejected "@ + decimal(n as int)
            + " record(s)"@,
        GenerationError::ReviewSchema { found, expected } => "proposal review uses schema "@
            + text_debug(found@) + "; expected "@ + text_debug(expected@),
        GenerationError::ReviewDigest { found, expected } => "proposal review digest "@ + text_debug(
            found@,
        ) + " does not match "@ + text_debug(expected@),
        GenerationError::ProposalIntegrity(m) => "proposal integrity check failed: "@ + m@,
        GenerationError::ReviewCoverage(m) => "proposal review candidate set is incomplete: "@ + m@,
        GenerationError::ApplyConflict(m) => "accepted proposal conflicts with the base manifest: "@
            + m@,
    }
}

impl GenerationError {
    /// What the error says.
    pub fn message(&self) -> (r: String)
        ensures
            r@ == generation_error_text(*self),
    {
        match self {
            GenerationError::Rejected(n) => join3(
                "observation validation rejected ",
                u64_text(*n as u64).as_str(),
                " record(s)",
            ),
            GenerationError::ReviewSchema { found, expected } => join4(
                "proposal review uses schema ",
                debug_text(found.as_str()).as_str(),
                "; expected ",
                debug_text(expected.as_str()).as_str(),
            ),
            GenerationError::ReviewDigest { found, expected } => join4(
                "proposal review digest ",
                debug_text(found.as_str()).as_str(),
                " does not match ",
                debug_text(expected.as_str()).as_str(),
            ),
            GenerationError::ProposalIntegrity(m) => join2(
                "proposal integrity check failed: ",
                m.as_str(),
            ),
            GenerationError::ReviewCoverage(m) => join2(
                "proposal review candidate set is incomplete: ",
                m.as_str(),
            ),
            GenerationError::ApplyConflict(m) => join2(
                "accepted proposal conflicts with the base manifest: ",
                m.as_str(),
            ),
        }
    }
}

} // verus!
