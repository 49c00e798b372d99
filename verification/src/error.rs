//! Error values of the controlled benchmark.
use vstd::prelude::*;
use crate::text::owned;

verus! {

#[derive(Debug, Clone, Copy, PartialEq, Eq, Structural)]
pub enum MaterializationErrorCode {
    StaleSourceRequest,
    CandidateIdentityMismatch,
    CandidateSafetyRejected,
    EvaluationMismatch,
    UnsupportedTransformation,
    ArtifactMissing,
    ArtifactDuplicated,
    ArtifactContentMismatch,
    UnexpectedToolChange,
    UnexpectedEnvelopeChange,
    UnexpectedContentChange,
    TrustProvenanceMismatch,
    PlannedActualDiffMismatch,
    StructuralReanalysisMismatch,
    CertificateInvariantFailed,
}

#[derive(Debug, Clone, Copy, PartialEq, Eq, Structural)]
pub enum LivePreparationErrorCode {
    NonLoopbackEndpoint,
    InvalidEndpoint,
    LiveOptInRequired,
    EndpointUnavailable,
    ConnectionTimeout,
    RequestTimeout,
    MalformedResponse,
    NormalizationConflict,
    ContextLimitRejected,
    ServerError,
    IncompleteSequence,
    EvidenceWriteFailure,
    InvalidConfiguration,
    UnsafeMaterializedCandidate,
    EvidenceStateMismatch,
    ResponseTooLarge,
}

impl LivePreparationErrorCode {
    pub open spec fn spec_label(self) -> Seq<char> {
        match self {
            Self::NonLoopbackEndpoint => "non_loopback_endpoint"@,
            Self::InvalidEndpoint => "invalid_endpoint"@,
            Self::LiveOptInRequired => "live_opt_in_required"@,
            Self::EndpointUnavailable => "endpoint_unavailable"@,
            Self::ConnectionTimeout => "connection_timeout"@,
            Self::RequestTimeout => "request_timeout"@,
            Self::MalformedResponse => "malformed_response"@,
            Self::NormalizationConflict => "normalization_conflict"@,
            Self::ContextLimitRejected => "context_limit_rejected"@,
            Self::ServerError => "server_error"@,
            Self::IncompleteSequence => "incomplete_sequence"@,
            Self::EvidenceWriteFailure => "evidence_write_failure"@,
            Self::InvalidConfiguration => "invalid_configuration"@,
            Self::UnsafeMaterializedCandidate => "unsafe_materialized_candidate"@,
            Self::EvidenceStateMismatch => "evidence_state_mismatch"@,
            Self::ResponseTooLarge => "response_too_large"@,
        }
    }

    /// The snake_case name under which the code is displayed.
    pub fn label(&self) -> (r: &'static str)
        ensures
            r@ == self.spec_label(),
    {
        match self {
            Self::NonLoopbackEndpoint => "non_loopback_endpoint",
            Self::InvalidEndpoint => "invalid_endpoint",
            Self::LiveOptInRequired => "live_opt_in_required",
            Self::EndpointUnavailable => "endpoint_unavailable",
            Self::ConnectionTimeout => "connection_timeout",
            Self::RequestTimeout => "request_timeout",
            Self::MalformedResponse => "malformed_response",
            Self::NormalizationConflict => "normalization_conflict",
            Self::ContextLimitRejected => "context_limit_rejected",
            Self::ServerError => "server_error",
            Self::IncompleteSequence => "incomplete_sequence",
            Self::EvidenceWriteFailure => "evidence_write_failure",
            Self::InvalidConfiguration => "invalid_configuration",
            Self::UnsafeMaterializedCandidate => "unsafe_materialized_candidate",
            Self::EvidenceStateMismatch => "evidence_state_mismatch",
            Self::ResponseTooLarge => "response_too_large",
        }
    }
}

impl MaterializationErrorCode {
    pub open spec fn spec_label(self) -> Seq<char> {
        match self {
            Self::StaleSourceRequest => "stale_source_request"@,
            Self::CandidateIdentityMismatch => "candidate_identity_mismatch"@,
            Self::CandidateSafetyRejected => "candidate_safety_rejected"@,
            Self::EvaluationMismatch => "evaluation_mismatch"@,
            Self::UnsupportedTransformation => "unsupported_transformation"@,
            Self::ArtifactMissing => "artifact_missing"@,
            Self::ArtifactDuplicated => "artifact_duplicated"@,
            Self::ArtifactContentMismatch => "artifact_content_mismatch"@,
            Self::UnexpectedToolChange => "unexpected_tool_change"@,
            Self::UnexpectedEnvelopeChange => "unexpected_envelope_change"@,
            Self::UnexpectedContentChange => "unexpected_content_change"@,
            Self::TrustProvenanceMismatch => "trust_provenance_mismatch"@,
            Self::PlannedActualDiffMismatch => "planned_actual_diff_mismatch"@,
            Self::StructuralReanalysisMismatch => "structural_reanalysis_mismatch"@,
            Self::CertificateInvariantFailed => "certificate_invariant_failed"@,
        }
    }

    /// The snake_case name under which the code is displayed.
    pub fn label(&self) -> (r: &'static str)
        ensures
            r@ == self.spec_label(),
    {
        match self {
            Self::StaleSourceRequest => "stale_source_request",
            Self::CandidateIdentityMismatch => "candidate_identity_mismatch",
            Self::CandidateSafetyRejected => "candidate_safety_rejected",
            Self::EvaluationMismatch => "evaluation_mismatch",
            Self::UnsupportedTransformation => "unsupported_transformation",
            Self::ArtifactMissing => "artifact_missing",
            Self::ArtifactDuplicated => "artifact_duplicated",
            Self::ArtifactContentMismatch => "artifact_content_mismatch",
            Self::UnexpectedToolChange => "unexpected_tool_change",
            Self::UnexpectedEnvelopeChange => "unexpected_envelope_change",
            Self::UnexpectedContentChange => "unexpected_content_change",
            Self::TrustProvenanceMismatch => "trust_provenance_mismatch",
            Self::PlannedActualDiffMismatch => "planned_actual_diff_mismatch",
            Self::StructuralReanalysisMismatch => "structural_reanalysis_mismatch",
            Self::CertificateInvariantFailed => "certificate_invariant_failed",
        }
    }
}

/// Errors of loading, validating and evaluating controlled benchmark data.
/// Paths and I/O or JSON error texts are carried as plain strings.
#[derive(Debug, Clone, PartialEq, Eq)]
pub enum BenchmarkError {
    Io { path: String, message: String },
    InvalidJson { path: String, message: String },
    Validation { path: String, message: String },
    PairValidation { scenario_id: String, message: String },
    HashMismatch { what: String, expected: String, found: String },
    World { scenario_id: String, message: String },
    Materialization { code: MaterializationErrorCode, message: String },
    LiveHarness { code: LivePreparationErrorCode, message: String },
}

impl BenchmarkError {
    /// A validation error on in-memory data.
    pub fn validation(message: &str) -> (r: Self)
        ensures
            r matches Self::Validation { path, message: m } && path@ == "<in-memory>"@ && m@ == message@,
    {
        Self::Validation { path: owned("<in-memory>"), message: owned(message) }
    }

    /// A validation error on in-memory data with an owned message.
    pub fn validation_owned(message: String) -> (r: Self)
        ensures
            r matches Self::Validation { path, message: m } && path@ == "<in-memory>"@ && m == message,
    {
        Self::Validation { path: owned("<in-memory>"), message }
    }

    /// A pair validation error for one scenario.
    pub fn pair(scenario_id: &str, message: &str) -> (r: Self)
        ensures
            r matches Self::PairValidation { scenario_id: s, message: m } && s@ == scenario_id@ && m@ == message@,
    {
        Self::PairValidation { scenario_id: owned(scenario_id), message: owned(message) }
    }

    /// A materialization error with its code.
    pub fn materialization(code: MaterializationErrorCode, message: &str) -> (r: Self)
        ensures
            r matches Self::Materialization { code: c, message: m } && c == code && m@ == message@,
    {
        Self::Materialization { code, message: owned(message) }
    }

    /// A live harness error with its code.
    pub fn live_harness(code: LivePreparationErrorCode, message: &str) -> (r: Self)
        ensures
            r matches Self::LiveHarness { code: c, message: m } && c == code && m@ == message@,
    {
        Self::LiveHarness { code, message: owned(message) }
    }
}

/// A validation error on in-memory data (whatever its message).
pub open spec fn in_memory_validation(e: BenchmarkError) -> bool {
    match e {
        BenchmarkError::Validation { path, .. } => path@ == "<in-memory>"@,
        _ => false,
    }
}

/// `r` succeeds exactly when `ok` holds, and fails with an in-memory
/// validation error otherwise.
pub open spec fn checked(r: Result<(), BenchmarkError>, ok: bool) -> bool {
    match r {
        Ok(_) => ok,
        Err(e) => !ok && in_memory_validation(e),
    }
}

} // verus!
