//! Versioned, offline admission contract for external research artifacts:
//! the manifest and the decision report.
use vstd::prelude::*;

verus! {

pub const EXTERNAL_ARTIFACT_ADMISSION_SCHEMA_VERSION: u32 = 1;
pub const EXTERNAL_ARTIFACT_ADMISSION_SCHEMA_ID: &'static str = "prefixity.external-artifact-admission.v1";
pub const MAX_MANIFEST_BYTES: usize = 524288;

pub const MAX_ARTIFACT_ID: usize = 128;
pub const MAX_SOURCE_OWNER: usize = 256;
pub const MAX_REVISION: usize = 256;
pub const MAX_TEXT: usize = 1024;
pub const MAX_LOCATOR: usize = 2048;
pub const MAX_LIST: usize = 64;
pub const MAX_COUNT: u64 = 10000000;

#[derive(Debug, Clone, Copy, PartialEq, Eq, Structural)]
pub enum ArtifactKind {
    BenchmarkDataset,
    TrajectoryDataset,
    ResultArchive,
    SourceRepository,
    EvaluatorFramework,
    Other,
}

#[derive(Debug, Clone, Copy, PartialEq, Eq, Structural)]
pub enum RevisionKind {
    GitCommit,
    DatasetRevision,
    ContentHash,
    Release,
    Other,
}

#[derive(Debug, Clone, Copy, PartialEq, Eq, Structural)]
pub enum EvidenceState {
    Explicit,
    DeclaredButUnverified,
    Absent,
    Unknown,
    NotApplicable,
}

#[derive(Debug, Clone, PartialEq, Eq)]
pub struct EvidenceReference {
    pub locator: String,
    pub note: Option<String>,
}

#[derive(Debug, Clone, PartialEq, Eq)]
pub struct EvidenceRecord {
    pub state: EvidenceState,
    pub references: Vec<EvidenceReference>,
    pub note: Option<String>,
}

#[derive(Debug, Clone, Copy, PartialEq, Eq, Structural)]
pub enum PublicAccessibility {
    Public,
    Ungated,
    Restricted,
    Unknown,
    NotApplicable,
}

#[derive(Debug, Clone, PartialEq, Eq)]
pub struct ParentProjectIdentity {
    pub identifier: String,
    pub reference: String,
}

#[derive(Debug, Clone, PartialEq, Eq)]
pub struct ExternalArtifactAdmissionManifestV1 {
    pub schema_id: String,
    pub schema_version: u32,
    pub artifact_id: String,
    pub artifact_kind: ArtifactKind,
    pub canonical_source: String,
    pub source_owner: String,
    pub immutable_revision_kind: RevisionKind,
    pub immutable_revision: String,
    pub parent_project: Option<ParentProjectIdentity>,
    pub public_accessibility: PublicAccessibility,
    pub provenance_evidence: Vec<EvidenceReference>,
    pub framework_code_license: EvidenceRecord,
    pub dataset_artifact_reuse: EvidenceRecord,
    pub underlying_third_party_material: EvidenceRecord,
    pub permission: PermissionEvidence,
    pub third_party_material: ThirdPartyMaterialEvidence,
    pub stable_join: StableJoinEvidence,
    pub gold_independence: GoldIndependenceEvidence,
    pub content: ArtifactContentEvidence,
    pub retention: GitRetentionPolicy,
    pub execution: ExecutionRequirements,
    pub requested_use: RequestedUse,
}

#[derive(Debug, Clone, Copy, PartialEq, Eq, Structural)]
pub enum PermissionBasis {
    PermittedExplicit,
    PermittedByRecordedBasis,
    NotPermitted,
    Unknown,
}

#[derive(Debug, Clone, PartialEq, Eq)]
pub struct OperationEvidence {
    pub basis: PermissionBasis,
    pub references: Vec<EvidenceReference>,
    pub note: Option<String>,
}

#[derive(Debug, Clone, PartialEq, Eq)]
pub struct PermissionEvidence {
    pub metadata_inspection: OperationEvidence,
    pub local_raw_download: OperationEvidence,
    pub local_raw_read_parse: OperationEvidence,
    pub local_transformation: OperationEvidence,
    pub retain_hashes_identifiers_aggregate_metrics: OperationEvidence,
    pub retain_bounded_structural_metadata: OperationEvidence,
    pub retain_source_excerpts: OperationEvidence,
    pub redistribute_raw_artifact: OperationEvidence,
    pub vendor_raw_artifact: OperationEvidence,
}

#[derive(Debug, Clone, Copy, PartialEq, Eq, Structural)]
pub enum MaterialPresence {
    ExplicitPresent,
    ExplicitAbsent,
    Unknown,
}

#[derive(Debug, Clone, PartialEq, Eq)]
pub struct MaterialEvidence {
    pub status: MaterialPresence,
    pub references: Vec<EvidenceReference>,
}

#[derive(Debug, Clone, PartialEq, Eq)]
pub struct ThirdPartyMaterialEvidence {
    pub source_code: MaterialEvidence,
    pub issue_or_pr_text: MaterialEvidence,
    pub patches: MaterialEvidence,
    pub tests_or_test_patches: MaterialEvidence,
    pub tool_output_source_excerpts: MaterialEvidence,
    pub private_user_data: MaterialEvidence,
    pub unknown_third_party_material: MaterialEvidence,
}

/// How a recorded join relates the two artifacts; `NoJoin` is the manifest's `NONE`.
#[derive(Debug, Clone, Copy, PartialEq, Eq, Structural)]
pub enum JoinClassification {
    ExactOneToOne,
    ExactOneToMany,
    ExactManyToOne,
    Ambiguous,
    NoJoin,
    Unknown,
}

/// Kind of join key; `NoKey` is the manifest's `NONE`.
#[derive(Debug, Clone, Copy, PartialEq, Eq, Structural)]
pub enum JoinKeyKind {
    StableIdentifier,
    TrajectoryTaskName,
    RepositoryIssue,
    ContentHash,
    NoKey,
    Other,
}

/// Recorded join ambiguity; `NoAmbiguity` is the manifest's `NONE`.
#[derive(Debug, Clone, Copy, PartialEq, Eq, Structural)]
pub enum JoinAmbiguity {
    NoAmbiguity,
    Possible,
    Confirmed,
}

#[derive(Debug, Clone, PartialEq, Eq)]
pub struct StableJoinEvidence {
    pub classification: JoinClassification,
    pub key_kind: JoinKeyKind,
    pub left_identifier_description: String,
    pub right_identifier_description: String,
    pub deterministic_exact_match: bool,
    pub ambiguity: JoinAmbiguity,
    pub expected_join_count: Option<u64>,
    pub observed_bounded_join_count: Option<u64>,
}

#[derive(Debug, Clone, Copy, PartialEq, Eq, Structural)]
pub enum GoldIndependence {
    BlindToGold,
    GoldConditioned,
    Unknown,
    NotApplicable,
}

#[derive(Debug, Clone, PartialEq, Eq)]
pub struct GoldIndependenceEvidence {
    pub status: GoldIndependence,
    pub evidence_basis: EvidenceRecord,
}

#[derive(Debug, Clone, Copy, PartialEq, Eq, Structural)]
pub enum PresenceStatus {
    ExplicitPresent,
    ExplicitAbsent,
    Unknown,
}

#[derive(Debug, Clone, Copy, PartialEq, Eq, Structural)]
pub enum ContentSufficiency {
    SufficientForFrontHalf,
    Limited,
    Insufficient,
    Unknown,
}

#[derive(Debug, Clone, PartialEq, Eq)]
pub struct ArtifactContentEvidence {
    pub sufficiency: ContentSufficiency,
    pub chronology_or_order: PresenceStatus,
    pub tool_calls: PresenceStatus,
    pub tool_results: PresenceStatus,
    pub file_reads_or_views: PresenceStatus,
    pub search_or_symbol_activity: PresenceStatus,
    pub observations: PresenceStatus,
    pub edits_or_actions: PresenceStatus,
    pub stable_task_identity: PresenceStatus,
}

#[derive(Debug, Clone, Copy, PartialEq, Eq, Structural)]
pub enum GitRetention {
    Track,
    DoNotTrack,
    Unknown,
}

#[derive(Debug, Clone, PartialEq, Eq)]
pub struct GitRetentionPolicy {
    pub raw_external_artifact: GitRetention,
    pub full_trajectories: GitRetention,
    pub source_file_bodies: GitRetention,
    pub source_excerpts: GitRetention,
    pub problem_statements: GitRetention,
    pub patches_or_test_patches: GitRetention,
    pub opaque_task_ids: GitRetention,
    pub hashes: GitRetention,
    pub source_urls_and_revisions: GitRetention,
    pub license_and_provenance_metadata: GitRetention,
    pub structural_metadata: GitRetention,
    pub aggregate_metrics: GitRetention,
}

#[derive(Debug, Clone, Copy, PartialEq, Eq, Structural)]
pub enum ExecutionRequirement {
    NotRequired,
    Required,
    Unknown,
}

#[derive(Debug, Clone, PartialEq, Eq)]
pub struct ExecutionRequirements {
    pub static_data_parsing: ExecutionRequirement,
    pub archive_decompression: ExecutionRequirement,
    pub third_party_code_execution: ExecutionRequirement,
    pub container_execution: ExecutionRequirement,
    pub network_access: ExecutionRequirement,
    pub provider_model_inference: ExecutionRequirement,
}

#[derive(Debug, Clone, Copy, PartialEq, Eq, Structural)]
pub enum RequestedUse {
    MetadataResearch,
    ExternalFrontHalfEvaluation,
    LimitedPilot,
    RawRedistribution,
    ReferenceOnly,
}

#[derive(Debug, Clone, Copy, PartialEq, Eq, Structural)]
pub enum AdmissionDecision {
    AdmissibleLocalStudy,
    AdmissibleLimitedPilot,
    AdmissibleMetadataOnly,
    AdmissibleRawRedistribution,
    ReferenceOnly,
    BlockedPermission,
    BlockedProvenance,
    BlockedJoin,
    BlockedGoldIndependence,
    BlockedContentSufficiency,
    BlockedExecutionRequirement,
    InvalidManifest,
}

/// Reason codes, declared in their report order.
#[derive(Debug, Clone, Copy, PartialEq, Eq, Structural)]
pub enum AdmissionReasonCode {
    AdmittedForLocalStudy,
    AdmittedForLimitedPilot,
    AdmittedForMetadataResearch,
    AdmittedForRawRedistribution,
    ContentInsufficient,
    DatasetReuseEvidenceNotExplicit,
    ExecutionRequirementNotCleared,
    GoldConditioned,
    GoldIndependenceUnknown,
    InvalidManifest,
    JoinAmbiguous,
    JoinUnavailable,
    MetadataPermissionNotEstablished,
    PermissionNotEstablished,
    PermissionNotExplicit,
    PrivateDataNotCleared,
    ProvenanceIncomplete,
    RawRetentionNotSafe,
    RedistributionNotExplicit,
}

impl AdmissionReasonCode {
    /// Position of the code in declaration order.
    pub open spec fn spec_rank(self) -> int {
        match self {
            Self::AdmittedForLocalStudy => 0,
            Self::AdmittedForLimitedPilot => 1,
            Self::AdmittedForMetadataResearch => 2,
            Self::AdmittedForRawRedistribution => 3,
            Self::ContentInsufficient => 4,
            Self::DatasetReuseEvidenceNotExplicit => 5,
            Self::ExecutionRequirementNotCleared => 6,
            Self::GoldConditioned => 7,
            Self::GoldIndependenceUnknown => 8,
            Self::InvalidManifest => 9,
            Self::JoinAmbiguous => 10,
            Self::JoinUnavailable => 11,
            Self::MetadataPermissionNotEstablished => 12,
            Self::PermissionNotEstablished => 13,
            Self::PermissionNotExplicit => 14,
            Self::PrivateDataNotCleared => 15,
            Self::ProvenanceIncomplete => 16,
            Self::RawRetentionNotSafe => 17,
            Self::RedistributionNotExplicit => 18,
        }
    }

    pub fn rank(&self) -> (r: u8)
        ensures
            r == self.spec_rank(),
    {
        match self {
            Self::AdmittedForLocalStudy => 0,
            Self::AdmittedForLimitedPilot => 1,
            Self::AdmittedForMetadataResearch => 2,
            Self::AdmittedForRawRedistribution => 3,
            Self::ContentInsufficient => 4,
            Self::DatasetReuseEvidenceNotExplicit => 5,
            Self::ExecutionRequirementNotCleared => 6,
            Self::GoldConditioned => 7,
            Self::GoldIndependenceUnknown => 8,
            Self::InvalidManifest => 9,
            Self::JoinAmbiguous => 10,
            Self::JoinUnavailable => 11,
            Self::MetadataPermissionNotEstablished => 12,
            Self::PermissionNotEstablished => 13,
            Self::PermissionNotExplicit => 14,
            Self::PrivateDataNotCleared => 15,
            Self::ProvenanceIncomplete => 16,
            Self::RawRetentionNotSafe => 17,
            Self::RedistributionNotExplicit => 18,
        }
    }
}

#[derive(Debug, Clone, PartialEq, Eq)]
pub struct AdmissionReason {
    pub code: AdmissionReasonCode,
    pub field: String,
    pub message: String,
    pub blocking: bool,
}

/// What a reason says, with its text as characters.
pub ghost struct ReasonView {
    pub code: AdmissionReasonCode,
    pub field: Seq<char>,
    pub message: Seq<char>,
    pub blocking: bool,
}

impl View for AdmissionReason {
    type V = ReasonView;

    open spec fn view(&self) -> ReasonView {
        ReasonView { code: self.code, field: self.field@, message: self.message@, blocking: self.blocking }
    }
}

/// Warning codes, declared in their report order.
#[derive(Debug, Clone, Copy, PartialEq, Eq, Structural)]
pub enum AdmissionWarningCode {
    ContentLimited,
    DatasetReuseEvidenceNotExplicit,
    DeclaredEvidenceNotVerified,
    NetworkAccessRequired,
    PublicAccessibilityIsNotPermission,
    ThirdPartyMaterialPresent,
}

impl AdmissionWarningCode {
    pub open spec fn spec_rank(self) -> int {
        match self {
            Self::ContentLimited => 0,
            Self::DatasetReuseEvidenceNotExplicit => 1,
            Self::DeclaredEvidenceNotVerified => 2,
            Self::NetworkAccessRequired => 3,
            Self::PublicAccessibilityIsNotPermission => 4,
            Self::ThirdPartyMaterialPresent => 5,
        }
    }

    pub fn rank(&self) -> (r: u8)
        ensures
            r == self.spec_rank(),
    {
        match self {
            Self::ContentLimited => 0,
            Self::DatasetReuseEvidenceNotExplicit => 1,
            Self::DeclaredEvidenceNotVerified => 2,
            Self::NetworkAccessRequired => 3,
            Self::PublicAccessibilityIsNotPermission => 4,
            Self::ThirdPartyMaterialPresent => 5,
        }
    }
}

#[derive(Debug, Clone, PartialEq, Eq)]
pub struct AdmissionWarning {
    pub code: AdmissionWarningCode,
    pub field: String,
    pub message: String,
}

pub ghost struct WarningView {
    pub code: AdmissionWarningCode,
    pub field: Seq<char>,
    pub message: Seq<char>,
}

impl View for AdmissionWarning {
    type V = WarningView;

    open spec fn view(&self) -> WarningView {
        WarningView { code: self.code, field: self.field@, message: self.message@ }
    }
}

#[derive(Debug, Clone, PartialEq, Eq)]
pub struct AdmissionDecisionReport {
    pub schema_id: String,
    pub schema_version: u32,
    pub artifact_id: String,
    pub artifact_kind: ArtifactKind,
    pub canonical_source: String,
    pub immutable_revision: String,
    pub requested_use: RequestedUse,
    pub decision: AdmissionDecision,
    pub reasons: Vec<AdmissionReason>,
    pub blocking_evidence_fields: Vec<String>,
    pub warnings: Vec<AdmissionWarning>,
}

#[derive(Debug, Clone, PartialEq, Eq)]
pub enum AdmissionValidationError {
    UnsupportedSchemaVersion { found: u32, expected: u32 },
    InvalidField { field: String, message: String },
}

/// A validation failure with its text as characters.
pub ghost enum ValidationFailure {
    UnsupportedSchemaVersion { found: u32, expected: u32 },
    InvalidField { field: Seq<char>, message: Seq<char> },
}

impl View for AdmissionValidationError {
    type V = ValidationFailure;

    open spec fn view(&self) -> ValidationFailure {
        match self {
            AdmissionValidationError::UnsupportedSchemaVersion { found, expected } =>
                ValidationFailure::UnsupportedSchemaVersion { found: *found, expected: *expected },
            AdmissionValidationError::InvalidField { field, message } =>
                ValidationFailure::InvalidField { field: field@, message: message@ },
        }
    }
}

/// Errors of reading a manifest from bytes.
#[derive(Debug, Clone, PartialEq, Eq)]
pub enum AdmissionError {
    OversizedManifest,
    InvalidJson(String),
    Validation(AdmissionValidationError),
}

} // verus!
