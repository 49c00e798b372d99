//! Conservative research-use decisions for external artifacts.
use vstd::prelude::*;
use crate::admission_model::{
    AdmissionDecision, AdmissionDecisionReport, AdmissionReason, AdmissionReasonCode,
    AdmissionValidationError, AdmissionWarning, AdmissionWarningCode, ContentSufficiency, EvidenceState, ExecutionRequirement, ExternalArtifactAdmissionManifestV1,
    GitRetention, GitRetentionPolicy, GoldIndependence, JoinClassification, MaterialPresence,
    OperationEvidence, PermissionBasis, PublicAccessibility, ReasonView, RequestedUse,
    ThirdPartyMaterialEvidence, ValidationFailure, WarningView,
    EXTERNAL_ARTIFACT_ADMISSION_SCHEMA_ID, EXTERNAL_ARTIFACT_ADMISSION_SCHEMA_VERSION,
};
use crate::admission_validate::{manifest_check, manifest_valid, validate_manifest};
use crate::ordering::{insert_unique, sort_unique, sorted_strict, views, Ordered};
use crate::text::{
    concat2, decimal, lemma_seq_lt_irreflexive, lemma_seq_lt_total, lemma_seq_lt_transitive,
    owned, push_decimal, seq_lt, str_compare,
};

verus! {

impl Ordered for AdmissionReason {
    open spec fn key_lt(a: ReasonView, b: ReasonView) -> bool {
        a.code.spec_rank() < b.code.spec_rank() || (a.code.spec_rank() == b.code.spec_rank() && (
        seq_lt(a.field, b.field) || (a.field == b.field && (seq_lt(a.message, b.message) || (
        a.message == b.message && !a.blocking && b.blocking)))))
    }

    proof fn lemma_irreflexive(a: ReasonView) {
        lemma_seq_lt_irreflexive(a.field);
        lemma_seq_lt_irreflexive(a.message);
    }

    proof fn lemma_transitive(a: ReasonView, b: ReasonView, c: ReasonView) {
        if seq_lt(a.field, b.field) && seq_lt(b.field, c.field) {
            lemma_seq_lt_transitive(a.field, b.field, c.field);
        }
        if seq_lt(a.message, b.message) && seq_lt(b.message, c.message) {
            lemma_seq_lt_transitive(a.message, b.message, c.message);
        }
    }

    proof fn lemma_total(a: ReasonView, b: ReasonView) {
        lemma_seq_lt_total(a.field, b.field);
        lemma_seq_lt_total(a.message, b.message);
    }

    fn compare(&self, other: &Self) -> (r: i8) {
        let ra = self.code.rank();
        let rb = other.code.rank();
        if ra < rb {
            return -1;
        }
        if ra > rb {
            return 1;
        }
        let f = str_compare(self.field.as_str(), other.field.as_str());
        if f != 0 {
            return f;
        }
        let m = str_compare(self.message.as_str(), other.message.as_str());
        if m != 0 {
            return m;
        }
        if self.blocking == other.blocking {
            0
        } else if !self.blocking {
            -1
        } else {
            1
        }
    }
}

impl Ordered for AdmissionWarning {
    open spec fn key_lt(a: WarningView, b: WarningView) -> bool {
        a.code.spec_rank() < b.code.spec_rank() || (a.code.spec_rank() == b.code.spec_rank() && (
        seq_lt(a.field, b.field) || (a.field == b.field && seq_lt(a.message, b.message))))
    }

    proof fn lemma_irreflexive(a: WarningView) {
        lemma_seq_lt_irreflexive(a.field);
        lemma_seq_lt_irreflexive(a.message);
    }

    proof fn lemma_transitive(a: WarningView, b: WarningView, c: WarningView) {
        if seq_lt(a.field, b.field) && seq_lt(b.field, c.field) {
            lemma_seq_lt_transitive(a.field, b.field, c.field);
        }
        if seq_lt(a.message, b.message) && seq_lt(b.message, c.message) {
            lemma_seq_lt_transitive(a.message, b.message, c.message);
        }
    }

    proof fn lemma_total(a: WarningView, b: WarningView) {
        lemma_seq_lt_total(a.field, b.field);
        lemma_seq_lt_total(a.message, b.message);
    }

    fn compare(&self, other: &Self) -> (r: i8) {
        let ra = self.code.rank();
        let rb = other.code.rank();
        if ra < rb {
            return -1;
        }
        if ra > rb {
            return 1;
        }
        let f = str_compare(self.field.as_str(), other.field.as_str());
        if f != 0 {
            return f;
        }
        str_compare(self.message.as_str(), other.message.as_str())
    }
}

// ---------------------------------------------------------------------------
// What the rules say
// ---------------------------------------------------------------------------

pub open spec fn rv(code: AdmissionReasonCode, field: Seq<char>, message: Seq<char>, blocking: bool) -> ReasonView {
    ReasonView { code, field, message, blocking }
}

pub open spec fn blocking_rv(code: AdmissionReasonCode, field: Seq<char>, message: Seq<char>) -> ReasonView {
    rv(code, field, message, true)
}

pub open spec fn wv(code: AdmissionWarningCode, field: Seq<char>, message: Seq<char>) -> WarningView {
    WarningView { code, field, message }
}

/// Reasons raised by a required operation permission.
pub open spec fn operation_reasons(basis: PermissionBasis, field: Seq<char>, explicit_only: bool, metadata: bool) -> Seq<ReasonView> {
    match basis {
        PermissionBasis::PermittedExplicit => seq![],
        PermissionBasis::PermittedByRecordedBasis => if !explicit_only {
            seq![]
        } else {
            seq![blocking_rv(AdmissionReasonCode::PermissionNotExplicit, field,
                "the requested operation has a recorded basis but not explicit permission"@)]
        },
        PermissionBasis::NotPermitted => seq![blocking_rv(AdmissionReasonCode::PermissionNotEstablished, field,
            "the requested operation is recorded as not permitted"@)],
        PermissionBasis::Unknown => seq![blocking_rv(
            if metadata { AdmissionReasonCode::MetadataPermissionNotEstablished } else { AdmissionReasonCode::PermissionNotEstablished },
            field, "the requested operation has no recorded permission basis"@)],
    }
}

pub open spec fn sensitive_unsafe(state: GitRetention, require_all: bool) -> bool {
    state is Track || (require_all && state is Unknown)
}

/// Raw or third-party content would be tracked in git.
pub open spec fn sensitive_retention_unsafe(r: GitRetentionPolicy, require_all: bool) -> bool {
    sensitive_unsafe(r.raw_external_artifact, require_all) || sensitive_unsafe(r.full_trajectories, require_all)
        || sensitive_unsafe(r.source_file_bodies, require_all) || sensitive_unsafe(r.source_excerpts, require_all)
        || sensitive_unsafe(r.problem_statements, require_all) || sensitive_unsafe(r.patches_or_test_patches, require_all)
}

/// Every raw or third-party retention class is explicitly tracked.
pub open spec fn redistribution_retention_safe(r: GitRetentionPolicy) -> bool {
    r.raw_external_artifact is Track && r.full_trajectories is Track && r.source_file_bodies is Track
        && r.source_excerpts is Track && r.problem_statements is Track && r.patches_or_test_patches is Track
}

pub open spec fn all_material_absent(t: ThirdPartyMaterialEvidence) -> bool {
    t.source_code.status is ExplicitAbsent && t.issue_or_pr_text.status is ExplicitAbsent
        && t.patches.status is ExplicitAbsent && t.tests_or_test_patches.status is ExplicitAbsent
        && t.tool_output_source_excerpts.status is ExplicitAbsent && t.private_user_data.status is ExplicitAbsent
        && t.unknown_third_party_material.status is ExplicitAbsent
}

pub open spec fn retention_reason(field_message: Seq<char>) -> Seq<ReasonView> {
    seq![blocking_rv(AdmissionReasonCode::RawRetentionNotSafe, "retention"@, field_message)]
}

pub open spec fn metadata_reasons(m: ExternalArtifactAdmissionManifestV1) -> Seq<ReasonView> {
    operation_reasons(m.permission.metadata_inspection.basis, "permission.metadata_inspection"@, false, true)
        + if sensitive_retention_unsafe(m.retention, false) {
        retention_reason("metadata research may not track raw artifact or trajectory content in git"@)
    } else {
        seq![]
    }
}

pub open spec fn execution_reason(req: ExecutionRequirement, field: Seq<char>) -> Seq<ReasonView> {
    if !(req is NotRequired) {
        seq![blocking_rv(AdmissionReasonCode::ExecutionRequirementNotCleared, field,
            "the requested study requires an execution boundary that is not cleared"@)]
    } else {
        seq![]
    }
}

pub open spec fn join_reasons(c: JoinClassification) -> Seq<ReasonView> {
    match c {
        JoinClassification::Ambiguous => seq![blocking_rv(AdmissionReasonCode::JoinAmbiguous, "stable_join"@,
            "the recorded join is ambiguous and cannot support deterministic evaluation"@)],
        JoinClassification::NoJoin | JoinClassification::Unknown => seq![blocking_rv(
            AdmissionReasonCode::JoinUnavailable, "stable_join"@,
            "no deterministic exact join is recorded for the evaluation target"@)],
        _ => seq![],
    }
}

pub open spec fn gold_reasons(g: GoldIndependence) -> Seq<ReasonView> {
    match g {
        GoldIndependence::BlindToGold => seq![],
        GoldIndependence::GoldConditioned => seq![blocking_rv(AdmissionReasonCode::GoldConditioned,
            "gold_independence.status"@,
            "gold-conditioned evidence cannot be admitted as primary external evidence"@)],
        _ => seq![blocking_rv(AdmissionReasonCode::GoldIndependenceUnknown, "gold_independence.status"@,
            "gold independence is not established for the primary external evaluation"@)],
    }
}

/// Content is limited but the use is a limited pilot: a warning, not a block.
pub open spec fn content_limited_for_pilot(m: ExternalArtifactAdmissionManifestV1, limited_pilot: bool) -> bool {
    m.content.sufficiency is Limited && limited_pilot
}

#[verifier::opaque]
pub open spec fn fh_permission_reasons(m: ExternalArtifactAdmissionManifestV1) -> Seq<ReasonView> {
    operation_reasons(m.permission.local_raw_read_parse.basis, "permission.local_raw_read_parse"@, false, false)
    + operation_reasons(m.permission.local_transformation.basis, "permission.local_transformation"@, false, false)
}

#[verifier::opaque]
pub open spec fn fh_provenance_reasons(m: ExternalArtifactAdmissionManifestV1) -> Seq<ReasonView> {
    (if m.provenance_evidence.len() == 0 || m.underlying_third_party_material.state is Unknown
        || m.underlying_third_party_material.state is Absent {
        seq![blocking_rv(AdmissionReasonCode::ProvenanceIncomplete, "provenance_evidence"@,
            "bounded local research lacks a complete recorded provenance basis"@)]
    } else {
        seq![]
    })
    + (if !(m.third_party_material.private_user_data.status is ExplicitAbsent) {
        seq![blocking_rv(AdmissionReasonCode::PrivateDataNotCleared, "third_party_material.private_user_data"@,
            "private or user data is not explicitly cleared for the requested study"@)]
    } else {
        seq![]
    })
}

#[verifier::opaque]
pub open spec fn fh_content_reasons(m: ExternalArtifactAdmissionManifestV1, limited_pilot: bool) -> Seq<ReasonView> {
    (if !content_limited_for_pilot(m, limited_pilot) && !(m.content.sufficiency is SufficientForFrontHalf) {
        seq![blocking_rv(AdmissionReasonCode::ContentInsufficient, "content.sufficiency"@,
            "the artifact does not record sufficient chronological/context evidence"@)]
    } else {
        seq![]
    })
    + (if sensitive_retention_unsafe(m.retention, true) {
        retention_reason("raw artifact and third-party content are not excluded from tracked Prefixity data"@)
    } else {
        seq![]
    })
}

#[verifier::opaque]
pub open spec fn fh_execution_reasons(m: ExternalArtifactAdmissionManifestV1) -> Seq<ReasonView> {
    execution_reason(m.execution.provider_model_inference, "execution.provider_model_inference"@)
    + execution_reason(m.execution.third_party_code_execution, "execution.third_party_code_execution"@)
    + execution_reason(m.execution.container_execution, "execution.container_execution"@)
}

/// Reasons of the front-half study rules (full or limited pilot).
pub open spec fn front_half_reasons(m: ExternalArtifactAdmissionManifestV1, limited_pilot: bool) -> Seq<ReasonView> {
    fh_permission_reasons(m) + fh_provenance_reasons(m) + (join_reasons(m.stable_join.classification)
        + gold_reasons(m.gold_independence.status)) + fh_content_reasons(m, limited_pilot)
        + fh_execution_reasons(m)
}

pub open spec fn content_warning(m: ExternalArtifactAdmissionManifestV1, limited_pilot: bool) -> Seq<WarningView> {
    if content_limited_for_pilot(m, limited_pilot) {
        seq![wv(AdmissionWarningCode::ContentLimited, "content.sufficiency"@,
            "limited content supports only a bounded pilot, not a full front-half claim"@)]
    } else {
        seq![]
    }
}

pub open spec fn network_warning(m: ExternalArtifactAdmissionManifestV1) -> Seq<WarningView> {
    if m.execution.network_access is Required {
        seq![wv(AdmissionWarningCode::NetworkAccessRequired, "execution.network_access"@,
            "admission applies only to supplied local evidence; the contract performs no network access"@)]
    } else {
        seq![]
    }
}

pub open spec fn front_half_warnings(m: ExternalArtifactAdmissionManifestV1, limited_pilot: bool) -> Seq<WarningView> {
    content_warning(m, limited_pilot) + network_warning(m)
}

pub open spec fn redistribution_reasons(m: ExternalArtifactAdmissionManifestV1) -> Seq<ReasonView> {
    operation_reasons(m.permission.redistribute_raw_artifact.basis, "permission.redistribute_raw_artifact"@, true, false)
    + operation_reasons(m.permission.vendor_raw_artifact.basis, "permission.vendor_raw_artifact"@, true, false)
    + (if !(m.dataset_artifact_reuse.state is Explicit) || !(m.underlying_third_party_material.state is Explicit) {
        seq![blocking_rv(AdmissionReasonCode::ProvenanceIncomplete, "dataset_artifact_reuse"@,
            "raw redistribution requires explicit recorded artifact and third-party reuse evidence"@)]
    } else {
        seq![]
    })
    + (if !all_material_absent(m.third_party_material) {
        seq![blocking_rv(AdmissionReasonCode::ProvenanceIncomplete, "third_party_material"@,
            "raw redistribution is not admitted when third-party or unknown material is recorded"@)]
    } else {
        seq![]
    })
    + (if !redistribution_retention_safe(m.retention) {
        retention_reason("raw redistribution requires explicit tracking permission for the raw artifact"@)
    } else {
        seq![]
    })
}

pub open spec fn reference_reason() -> ReasonView {
    rv(AdmissionReasonCode::AdmittedForMetadataResearch, "requested_use"@,
        "artifact is retained as a reference only"@, false)
}

/// Reasons the rules of the requested use raise, in the order they are found.
pub open spec fn collected_reasons(m: ExternalArtifactAdmissionManifestV1) -> Seq<ReasonView> {
    match m.requested_use {
        RequestedUse::MetadataResearch => metadata_reasons(m),
        RequestedUse::ExternalFrontHalfEvaluation => front_half_reasons(m, false),
        RequestedUse::LimitedPilot => front_half_reasons(m, true),
        RequestedUse::RawRedistribution => redistribution_reasons(m),
        RequestedUse::ReferenceOnly => seq![reference_reason()],
    }
}

pub open spec fn declared_warning(state: EvidenceState, field: Seq<char>) -> Seq<WarningView> {
    if state is DeclaredButUnverified {
        seq![wv(AdmissionWarningCode::DeclaredEvidenceNotVerified, field,
            "the manifest records a declaration that was not independently verified"@)]
    } else {
        seq![]
    }
}

pub open spec fn status_warnings(m: ExternalArtifactAdmissionManifestV1) -> Seq<WarningView> {
    (if m.public_accessibility is Public || m.public_accessibility is Ungated {
        seq![wv(AdmissionWarningCode::PublicAccessibilityIsNotPermission, "public_accessibility"@,
            "public or ungated access is recorded as technical accessibility, not permission for another operation"@)]
    } else {
        seq![]
    })
    + (if !(m.dataset_artifact_reuse.state is Explicit) {
        seq![wv(AdmissionWarningCode::DatasetReuseEvidenceNotExplicit, "dataset_artifact_reuse"@,
            "dataset or artifact reuse evidence is not explicit"@)]
    } else {
        seq![]
    })
    + (if m.underlying_third_party_material.state is Explicit {
        seq![wv(AdmissionWarningCode::ThirdPartyMaterialPresent, "underlying_third_party_material"@,
            "underlying third-party provenance remains separately governed"@)]
    } else {
        seq![]
    })
}

pub open spec fn declared_warnings(m: ExternalArtifactAdmissionManifestV1) -> Seq<WarningView> {
    declared_warning(m.framework_code_license.state, "framework_code_license"@)
    + declared_warning(m.dataset_artifact_reuse.state, "dataset_artifact_reuse"@)
    + declared_warning(m.underlying_third_party_material.state, "underlying_third_party_material"@)
    + declared_warning(m.gold_independence.evidence_basis.state, "gold_independence.evidence_basis"@)
}

/// Warnings every valid manifest is checked for.
pub open spec fn common_warnings(m: ExternalArtifactAdmissionManifestV1) -> Seq<WarningView> {
    status_warnings(m) + declared_warnings(m)
}

pub open spec fn collected_warnings(m: ExternalArtifactAdmissionManifestV1) -> Seq<WarningView> {
    common_warnings(m) + match m.requested_use {
        RequestedUse::ExternalFrontHalfEvaluation => front_half_warnings(m, false),
        RequestedUse::LimitedPilot => front_half_warnings(m, true),
        _ => seq![],
    }
}

/// Which blocked decision a reason code leads to: 1 permission, 2 provenance,
/// 3 join, 4 gold independence, 5 content, 6 execution, 0 none.
pub open spec fn code_group(c: AdmissionReasonCode) -> int {
    match c {
        AdmissionReasonCode::PermissionNotEstablished | AdmissionReasonCode::PermissionNotExplicit
        | AdmissionReasonCode::MetadataPermissionNotEstablished
        | AdmissionReasonCode::RedistributionNotExplicit => 1,
        AdmissionReasonCode::ProvenanceIncomplete | AdmissionReasonCode::PrivateDataNotCleared
        | AdmissionReasonCode::RawRetentionNotSafe => 2,
        AdmissionReasonCode::JoinAmbiguous | AdmissionReasonCode::JoinUnavailable => 3,
        AdmissionReasonCode::GoldConditioned | AdmissionReasonCode::GoldIndependenceUnknown => 4,
        AdmissionReasonCode::ContentInsufficient => 5,
        AdmissionReasonCode::ExecutionRequirementNotCleared => 6,
        _ => 0,
    }
}

pub open spec fn has_group(reasons: Seq<ReasonView>, g: int) -> bool {
    exists|i: int| 0 <= i < reasons.len() && #[trigger] reasons[i].blocking && code_group(reasons[i].code) == g
}

pub open spec fn any_blocking(reasons: Seq<ReasonView>) -> bool {
    exists|i: int| 0 <= i < reasons.len() && #[trigger] reasons[i].blocking
}

/// The blocked decision of the highest-priority blocking group, if any.
pub open spec fn blocking_decision_of(reasons: Seq<ReasonView>) -> Option<AdmissionDecision> {
    if has_group(reasons, 1) {
        Some(AdmissionDecision::BlockedPermission)
    } else if has_group(reasons, 2) {
        Some(AdmissionDecision::BlockedProvenance)
    } else if has_group(reasons, 3) {
        Some(AdmissionDecision::BlockedJoin)
    } else if has_group(reasons, 4) {
        Some(AdmissionDecision::BlockedGoldIndependence)
    } else if has_group(reasons, 5) {
        Some(AdmissionDecision::BlockedContentSufficiency)
    } else if has_group(reasons, 6) {
        Some(AdmissionDecision::BlockedExecutionRequirement)
    } else {
        None
    }
}

pub open spec fn admissible_for(u: RequestedUse) -> AdmissionDecision {
    match u {
        RequestedUse::MetadataResearch => AdmissionDecision::AdmissibleMetadataOnly,
        RequestedUse::ExternalFrontHalfEvaluation => AdmissionDecision::AdmissibleLocalStudy,
        RequestedUse::LimitedPilot => AdmissionDecision::AdmissibleLimitedPilot,
        RequestedUse::RawRedistribution => AdmissionDecision::AdmissibleRawRedistribution,
        RequestedUse::ReferenceOnly => AdmissionDecision::ReferenceOnly,
    }
}

/// The decision for a valid manifest.
pub open spec fn decision_of(m: ExternalArtifactAdmissionManifestV1) -> AdmissionDecision {
    if m.requested_use is ReferenceOnly {
        AdmissionDecision::ReferenceOnly
    } else {
        match blocking_decision_of(collected_reasons(m)) {
            Some(d) => d,
            None => admissible_for(m.requested_use),
        }
    }
}

/// The reason recorded for an admissible decision.
pub open spec fn admitted_reason(d: AdmissionDecision) -> ReasonView {
    match d {
        AdmissionDecision::AdmissibleMetadataOnly => rv(AdmissionReasonCode::AdmittedForMetadataResearch,
            "requested_use"@, "recorded evidence supports metadata research only"@, false),
        AdmissionDecision::AdmissibleLocalStudy => rv(AdmissionReasonCode::AdmittedForLocalStudy,
            "requested_use"@, "recorded evidence supports bounded local front-half study"@, false),
        AdmissionDecision::AdmissibleLimitedPilot => rv(AdmissionReasonCode::AdmittedForLimitedPilot,
            "requested_use"@, "recorded evidence supports a bounded limited pilot"@, false),
        AdmissionDecision::AdmissibleRawRedistribution => rv(AdmissionReasonCode::AdmittedForRawRedistribution,
            "requested_use"@,
            "recorded evidence supports the explicitly requested raw redistribution operation"@, false),
        _ => reference_reason(),
    }
}

/// All reasons of a valid manifest's report, before sorting.
pub open spec fn report_reasons(m: ExternalArtifactAdmissionManifestV1) -> Seq<ReasonView> {
    collected_reasons(m) + if !any_blocking(collected_reasons(m)) {
        seq![admitted_reason(decision_of(m))]
    } else {
        seq![]
    }
}

/// The fields named by blocking reasons.
pub open spec fn blocking_fields(reasons: Seq<ReasonView>) -> Set<Seq<char>> {
    Set::new(|f: Seq<char>| exists|i: int| 0 <= i < reasons.len() && #[trigger] reasons[i].blocking && reasons[i].field == f)
}

/// The text of a validation failure, as it is displayed.
pub open spec fn failure_text(f: ValidationFailure) -> Seq<char> {
    match f {
        ValidationFailure::UnsupportedSchemaVersion { found, expected } =>
            "unsupported external admission schema version "@ + decimal(found as nat) + "; expected "@
                + decimal(expected as nat),
        ValidationFailure::InvalidField { field, message } =>
            "invalid external admission manifest at "@ + field + ": "@ + message,
    }
}

impl AdmissionValidationError {
    /// The displayed text of the error.
    pub fn text(&self) -> (r: String)
        ensures
            r@ == failure_text(self@),
    {
        match self {
            AdmissionValidationError::UnsupportedSchemaVersion { found, expected } => {
                let mut r = owned("unsupported external admission schema version ");
                push_decimal(&mut r, *found as u64);
                r.append("; expected ");
                push_decimal(&mut r, *expected as u64);
                r
            },
            AdmissionValidationError::InvalidField { field, message } => {
                let mut r = concat2("invalid external admission manifest at ", field.as_str());
                r.append(": ");
                r.append(message.as_str());
                r
            },
        }
    }
}

} // verus!

verus! {

// ---------------------------------------------------------------------------
// Executable rules
// ---------------------------------------------------------------------------

fn reason(code: AdmissionReasonCode, field: &str, message: &str, blocking: bool) -> (r: AdmissionReason)
    ensures
        r@ == rv(code, field@, message@, blocking),
{
    AdmissionReason { code, field: owned(field), message: owned(message), blocking }
}

fn warning(code: AdmissionWarningCode, field: &str, message: &str) -> (r: AdmissionWarning)
    ensures
        r@ == wv(code, field@, message@),
{
    AdmissionWarning { code, field: owned(field), message: owned(message) }
}

fn push_reason(reasons: &mut Vec<AdmissionReason>, r: AdmissionReason)
    ensures
        views(final(reasons)@) == views(old(reasons)@).push(r@),
{
    reasons.push(r);
    assert(views(reasons@) =~= views(old(reasons)@).push(r@));
}

fn push_warning(warnings: &mut Vec<AdmissionWarning>, w: AdmissionWarning)
    ensures
        views(final(warnings)@) == views(old(warnings)@).push(w@),
{
    warnings.push(w);
    assert(views(warnings@) =~= views(old(warnings)@).push(w@));
}

fn require_operation(
    reasons: &mut Vec<AdmissionReason>,
    operation: &OperationEvidence,
    field: &str,
    explicit_only: bool,
    metadata: bool,
)
    ensures
        views(final(reasons)@) == views(old(reasons)@) + operation_reasons(operation.basis, field@, explicit_only, metadata),
{
    let ghost start = views(reasons@);
    match operation.basis {
        PermissionBasis::PermittedExplicit => {},
        PermissionBasis::PermittedByRecordedBasis => {
            if explicit_only {
                push_reason(reasons, reason(AdmissionReasonCode::PermissionNotExplicit, field,
                    "the requested operation has a recorded basis but not explicit permission", true));
            }
        },
        PermissionBasis::NotPermitted => {
            push_reason(reasons, reason(AdmissionReasonCode::PermissionNotEstablished, field,
                "the requested operation is recorded as not permitted", true));
        },
        PermissionBasis::Unknown => {
            let code = if metadata {
                AdmissionReasonCode::MetadataPermissionNotEstablished
            } else {
                AdmissionReasonCode::PermissionNotEstablished
            };
            push_reason(reasons, reason(code, field,
                "the requested operation has no recorded permission basis", true));
        },
    }
    assert(views(reasons@) =~= start + operation_reasons(operation.basis, field@, explicit_only, metadata));
}

fn unsafe_state(state: GitRetention, require_all: bool) -> (r: bool)
    ensures
        r == sensitive_unsafe(state, require_all),
{
    match state {
        GitRetention::Track => true,
        GitRetention::Unknown => require_all,
        GitRetention::DoNotTrack => false,
    }
}

fn sensitive_retention_is_unsafe(retention: &GitRetentionPolicy, require_all: bool) -> (r: bool)
    ensures
        r == sensitive_retention_unsafe(*retention, require_all),
{
    unsafe_state(retention.raw_external_artifact, require_all) || unsafe_state(retention.full_trajectories, require_all)
        || unsafe_state(retention.source_file_bodies, require_all) || unsafe_state(retention.source_excerpts, require_all)
        || unsafe_state(retention.problem_statements, require_all)
        || unsafe_state(retention.patches_or_test_patches, require_all)
}

fn is_tracked(state: GitRetention) -> (r: bool)
    ensures
        r == state is Track,
{
    match state {
        GitRetention::Track => true,
        _ => false,
    }
}

fn redistribution_retention_is_safe(retention: &GitRetentionPolicy) -> (r: bool)
    ensures
        r == redistribution_retention_safe(*retention),
{
    is_tracked(retention.raw_external_artifact) && is_tracked(retention.full_trajectories) && is_tracked(retention.source_file_bodies)
        && is_tracked(retention.source_excerpts) && is_tracked(retention.problem_statements)
        && is_tracked(retention.patches_or_test_patches)
}

fn absent(status: MaterialPresence) -> (r: bool)
    ensures
        r == status is ExplicitAbsent,
{
    match status {
        MaterialPresence::ExplicitAbsent => true,
        _ => false,
    }
}

fn all_material_is_absent(material: &ThirdPartyMaterialEvidence) -> (r: bool)
    ensures
        r == all_material_absent(*material),
{
    absent(material.source_code.status) && absent(material.issue_or_pr_text.status) && absent(material.patches.status)
        && absent(material.tests_or_test_patches.status) && absent(material.tool_output_source_excerpts.status)
        && absent(material.private_user_data.status) && absent(material.unknown_third_party_material.status)
}

fn evaluate_metadata(manifest: &ExternalArtifactAdmissionManifestV1, reasons: &mut Vec<AdmissionReason>)
    ensures
        views(final(reasons)@) == views(old(reasons)@) + metadata_reasons(*manifest),
{
    let ghost start = views(reasons@);
    require_operation(reasons, &manifest.permission.metadata_inspection, "permission.metadata_inspection", false, true);
    if sensitive_retention_is_unsafe(&manifest.retention, false) {
        push_reason(reasons, reason(AdmissionReasonCode::RawRetentionNotSafe, "retention",
            "metadata research may not track raw artifact or trajectory content in git", true));
    }
    assert(views(reasons@) =~= start + metadata_reasons(*manifest));
}

fn require_execution(reasons: &mut Vec<AdmissionReason>, requirement: ExecutionRequirement, field: &str)
    ensures
        views(final(reasons)@) == views(old(reasons)@) + execution_reason(requirement, field@),
{
    let ghost start = views(reasons@);
    if requirement != ExecutionRequirement::NotRequired {
        push_reason(reasons, reason(AdmissionReasonCode::ExecutionRequirementNotCleared, field,
            "the requested study requires an execution boundary that is not cleared", true));
    }
    assert(views(reasons@) =~= start + execution_reason(requirement, field@));
}

fn fh_permissions(manifest: &ExternalArtifactAdmissionManifestV1, reasons: &mut Vec<AdmissionReason>)
    ensures
        views(final(reasons)@) == views(old(reasons)@) + fh_permission_reasons(*manifest),
{
    let ghost start = views(reasons@);
    reveal(fh_permission_reasons);
    require_operation(reasons, &manifest.permission.local_raw_read_parse, "permission.local_raw_read_parse", false, false);
    require_operation(reasons, &manifest.permission.local_transformation, "permission.local_transformation", false, false);
    assert(views(reasons@) =~= start + fh_permission_reasons(*manifest));
}

fn fh_provenance(manifest: &ExternalArtifactAdmissionManifestV1, reasons: &mut Vec<AdmissionReason>)
    ensures
        views(final(reasons)@) == views(old(reasons)@) + fh_provenance_reasons(*manifest),
{
    let ghost start = views(reasons@);
    reveal(fh_provenance_reasons);
    let weak_provenance = match manifest.underlying_third_party_material.state {
        EvidenceState::Unknown | EvidenceState::Absent => true,
        _ => false,
    };
    if manifest.provenance_evidence.len() == 0 || weak_provenance {
        push_reason(reasons, reason(AdmissionReasonCode::ProvenanceIncomplete, "provenance_evidence",
            "bounded local research lacks a complete recorded provenance basis", true));
    }
    if !absent(manifest.third_party_material.private_user_data.status) {
        push_reason(reasons, reason(AdmissionReasonCode::PrivateDataNotCleared, "third_party_material.private_user_data",
            "private or user data is not explicitly cleared for the requested study", true));
    }
    assert(views(reasons@) =~= start + fh_provenance_reasons(*manifest));
}

fn fh_join_gold(manifest: &ExternalArtifactAdmissionManifestV1, reasons: &mut Vec<AdmissionReason>)
    ensures
        views(final(reasons)@) == views(old(reasons)@) + (join_reasons(manifest.stable_join.classification)
            + gold_reasons(manifest.gold_independence.status)),
{
    let ghost start = views(reasons@);
    match manifest.stable_join.classification {
        JoinClassification::Ambiguous => push_reason(reasons, reason(AdmissionReasonCode::JoinAmbiguous,
            "stable_join", "the recorded join is ambiguous and cannot support deterministic evaluation", true)),
        JoinClassification::NoJoin | JoinClassification::Unknown => push_reason(reasons, reason(
            AdmissionReasonCode::JoinUnavailable, "stable_join",
            "no deterministic exact join is recorded for the evaluation target", true)),
        _ => {},
    }
    match manifest.gold_independence.status {
        GoldIndependence::BlindToGold => {},
        GoldIndependence::GoldConditioned => push_reason(reasons, reason(AdmissionReasonCode::GoldConditioned,
            "gold_independence.status",
            "gold-conditioned evidence cannot be admitted as primary external evidence", true)),
        _ => push_reason(reasons, reason(AdmissionReasonCode::GoldIndependenceUnknown, "gold_independence.status",
            "gold independence is not established for the primary external evaluation", true)),
    }
    assert(views(reasons@) =~= start + (join_reasons(manifest.stable_join.classification)
        + gold_reasons(manifest.gold_independence.status)));
}

fn fh_content(
    manifest: &ExternalArtifactAdmissionManifestV1,
    reasons: &mut Vec<AdmissionReason>,
    warnings: &mut Vec<AdmissionWarning>,
    limited_pilot: bool,
)
    ensures
        views(final(reasons)@) == views(old(reasons)@) + fh_content_reasons(*manifest, limited_pilot),
        views(final(warnings)@) == views(old(warnings)@) + content_warning(*manifest, limited_pilot),
{
    let ghost start = views(reasons@);
    let ghost start_w = views(warnings@);
    reveal(fh_content_reasons);
    if manifest.content.sufficiency == ContentSufficiency::Limited && limited_pilot {
        push_warning(warnings, warning(AdmissionWarningCode::ContentLimited, "content.sufficiency",
            "limited content supports only a bounded pilot, not a full front-half claim"));
    } else if manifest.content.sufficiency != ContentSufficiency::SufficientForFrontHalf {
        push_reason(reasons, reason(AdmissionReasonCode::ContentInsufficient, "content.sufficiency",
            "the artifact does not record sufficient chronological/context evidence", true));
    }
    if sensitive_retention_is_unsafe(&manifest.retention, true) {
        push_reason(reasons, reason(AdmissionReasonCode::RawRetentionNotSafe, "retention",
            "raw artifact and third-party content are not excluded from tracked Prefixity data", true));
    }
    assert(views(reasons@) =~= start + fh_content_reasons(*manifest, limited_pilot));
    assert(views(warnings@) =~= start_w + content_warning(*manifest, limited_pilot));
}

fn fh_execution(
    manifest: &ExternalArtifactAdmissionManifestV1,
    reasons: &mut Vec<AdmissionReason>,
    warnings: &mut Vec<AdmissionWarning>,
)
    ensures
        views(final(reasons)@) == views(old(reasons)@) + fh_execution_reasons(*manifest),
        views(final(warnings)@) == views(old(warnings)@) + network_warning(*manifest),
{
    let ghost start = views(reasons@);
    let ghost start_w = views(warnings@);
    reveal(fh_execution_reasons);
    require_execution(reasons, manifest.execution.provider_model_inference, "execution.provider_model_inference");
    require_execution(reasons, manifest.execution.third_party_code_execution, "execution.third_party_code_execution");
    require_execution(reasons, manifest.execution.container_execution, "execution.container_execution");
    if manifest.execution.network_access == ExecutionRequirement::Required {
        push_warning(warnings, warning(AdmissionWarningCode::NetworkAccessRequired, "execution.network_access",
            "admission applies only to supplied local evidence; the contract performs no network access"));
    }
    assert(views(reasons@) =~= start + fh_execution_reasons(*manifest));
    assert(views(warnings@) =~= start_w + network_warning(*manifest));
}

fn evaluate_front_half(
    manifest: &ExternalArtifactAdmissionManifestV1,
    reasons: &mut Vec<AdmissionReason>,
    warnings: &mut Vec<AdmissionWarning>,
    limited_pilot: bool,
)
    ensures
        views(final(reasons)@) == views(old(reasons)@) + front_half_reasons(*manifest, limited_pilot),
        views(final(warnings)@) == views(old(warnings)@) + front_half_warnings(*manifest, limited_pilot),
{
    let ghost start = views(reasons@);
    let ghost start_w = views(warnings@);
    let ghost m = *manifest;
    fh_permissions(manifest, reasons);
    fh_provenance(manifest, reasons);
    fh_join_gold(manifest, reasons);
    fh_content(manifest, reasons, warnings, limited_pilot);
    fh_execution(manifest, reasons, warnings);
    proof {
        let a = fh_permission_reasons(m);
        let b = fh_provenance_reasons(m);
        let c = join_reasons(m.stable_join.classification) + gold_reasons(m.gold_independence.status);
        let d = fh_content_reasons(m, limited_pilot);
        let e = fh_execution_reasons(m);
        assert(start + a + b + c + d + e =~= start + (a + b + c + d + e));
        assert(views(warnings@) =~= start_w + front_half_warnings(m, limited_pilot));
    }
}

fn evaluate_redistribution(manifest: &ExternalArtifactAdmissionManifestV1, reasons: &mut Vec<AdmissionReason>)
    ensures
        views(final(reasons)@) == views(old(reasons)@) + redistribution_reasons(*manifest),
{
    let ghost start = views(reasons@);
    require_operation(reasons, &manifest.permission.redistribute_raw_artifact, "permission.redistribute_raw_artifact",
        true, false);
    require_operation(reasons, &manifest.permission.vendor_raw_artifact, "permission.vendor_raw_artifact", true, false);
    let explicit_reuse = manifest.dataset_artifact_reuse.state == EvidenceState::Explicit;
    let explicit_material = manifest.underlying_third_party_material.state == EvidenceState::Explicit;
    if !explicit_reuse || !explicit_material {
        push_reason(reasons, reason(AdmissionReasonCode::ProvenanceIncomplete, "dataset_artifact_reuse",
            "raw redistribution requires explicit recorded artifact and third-party reuse evidence", true));
    }
    if !all_material_is_absent(&manifest.third_party_material) {
        push_reason(reasons, reason(AdmissionReasonCode::ProvenanceIncomplete, "third_party_material",
            "raw redistribution is not admitted when third-party or unknown material is recorded", true));
    }
    if !redistribution_retention_is_safe(&manifest.retention) {
        push_reason(reasons, reason(AdmissionReasonCode::RawRetentionNotSafe, "retention",
            "raw redistribution requires explicit tracking permission for the raw artifact", true));
    }
    assert(views(reasons@) =~= start + redistribution_reasons(*manifest));
}

fn declared(warnings: &mut Vec<AdmissionWarning>, state: EvidenceState, field: &str)
    ensures
        views(final(warnings)@) == views(old(warnings)@) + declared_warning(state, field@),
{
    let ghost start = views(warnings@);
    if state == EvidenceState::DeclaredButUnverified {
        push_warning(warnings, warning(AdmissionWarningCode::DeclaredEvidenceNotVerified, field,
            "the manifest records a declaration that was not independently verified"));
    }
    assert(views(warnings@) =~= start + declared_warning(state, field@));
}

fn add_status_warnings(manifest: &ExternalArtifactAdmissionManifestV1, warnings: &mut Vec<AdmissionWarning>)
    ensures
        views(final(warnings)@) == views(old(warnings)@) + status_warnings(*manifest),
{
    let ghost start = views(warnings@);
    let public = match manifest.public_accessibility {
        PublicAccessibility::Public | PublicAccessibility::Ungated => true,
        _ => false,
    };
    if public {
        push_warning(warnings, warning(AdmissionWarningCode::PublicAccessibilityIsNotPermission, "public_accessibility",
            "public or ungated access is recorded as technical accessibility, not permission for another operation"));
    }
    if manifest.dataset_artifact_reuse.state != EvidenceState::Explicit {
        push_warning(warnings, warning(AdmissionWarningCode::DatasetReuseEvidenceNotExplicit, "dataset_artifact_reuse",
            "dataset or artifact reuse evidence is not explicit"));
    }
    if manifest.underlying_third_party_material.state == EvidenceState::Explicit {
        push_warning(warnings, warning(AdmissionWarningCode::ThirdPartyMaterialPresent,
            "underlying_third_party_material", "underlying third-party provenance remains separately governed"));
    }
    assert(views(warnings@) =~= start + status_warnings(*manifest));
}

fn add_declared_warnings(manifest: &ExternalArtifactAdmissionManifestV1, warnings: &mut Vec<AdmissionWarning>)
    ensures
        views(final(warnings)@) == views(old(warnings)@) + declared_warnings(*manifest),
{
    let ghost start = views(warnings@);
    declared(warnings, manifest.framework_code_license.state, "framework_code_license");
    declared(warnings, manifest.dataset_artifact_reuse.state, "dataset_artifact_reuse");
    declared(warnings, manifest.underlying_third_party_material.state, "underlying_third_party_material");
    declared(warnings, manifest.gold_independence.evidence_basis.state, "gold_independence.evidence_basis");
    assert(views(warnings@) =~= start + declared_warnings(*manifest));
}

fn add_common_warnings(manifest: &ExternalArtifactAdmissionManifestV1, warnings: &mut Vec<AdmissionWarning>)
    ensures
        views(final(warnings)@) == views(old(warnings)@) + common_warnings(*manifest),
{
    let ghost start = views(warnings@);
    add_status_warnings(manifest, warnings);
    add_declared_warnings(manifest, warnings);
    assert(views(warnings@) =~= start + common_warnings(*manifest));
}

fn group_of(code: AdmissionReasonCode) -> (g: u8)
    ensures
        g == code_group(code),
{
    match code {
        AdmissionReasonCode::PermissionNotEstablished | AdmissionReasonCode::PermissionNotExplicit
        | AdmissionReasonCode::MetadataPermissionNotEstablished
        | AdmissionReasonCode::RedistributionNotExplicit => 1,
        AdmissionReasonCode::ProvenanceIncomplete | AdmissionReasonCode::PrivateDataNotCleared
        | AdmissionReasonCode::RawRetentionNotSafe => 2,
        AdmissionReasonCode::JoinAmbiguous | AdmissionReasonCode::JoinUnavailable => 3,
        AdmissionReasonCode::GoldConditioned | AdmissionReasonCode::GoldIndependenceUnknown => 4,
        AdmissionReasonCode::ContentInsufficient => 5,
        AdmissionReasonCode::ExecutionRequirementNotCleared => 6,
        _ => 0,
    }
}

fn has_blocking_group(reasons: &Vec<AdmissionReason>, g: u8) -> (r: bool)
    ensures
        r == has_group(views(reasons@), g as int),
{
    let mut i: usize = 0;
    while i < reasons.len()
        invariant
            i <= reasons.len(),
            forall|j: int| 0 <= j < i ==> !(#[trigger] views(reasons@)[j].blocking && code_group(views(reasons@)[j].code) == g),
        decreases reasons.len() - i,
    {
        if reasons[i].blocking && group_of(reasons[i].code) == g {
            assert(views(reasons@)[i as int].blocking);
            return true;
        }
        i = i + 1;
    }
    false
}

fn has_blocking(reasons: &Vec<AdmissionReason>) -> (r: bool)
    ensures
        r == any_blocking(views(reasons@)),
{
    let mut i: usize = 0;
    while i < reasons.len()
        invariant
            i <= reasons.len(),
            forall|j: int| 0 <= j < i ==> !(#[trigger] views(reasons@)[j].blocking),
        decreases reasons.len() - i,
    {
        if reasons[i].blocking {
            assert(views(reasons@)[i as int].blocking);
            return true;
        }
        i = i + 1;
    }
    false
}

fn blocking_decision(reasons: &Vec<AdmissionReason>) -> (r: Option<AdmissionDecision>)
    ensures
        r == blocking_decision_of(views(reasons@)),
{
    if has_blocking_group(reasons, 1) {
        Some(AdmissionDecision::BlockedPermission)
    } else if has_blocking_group(reasons, 2) {
        Some(AdmissionDecision::BlockedProvenance)
    } else if has_blocking_group(reasons, 3) {
        Some(AdmissionDecision::BlockedJoin)
    } else if has_blocking_group(reasons, 4) {
        Some(AdmissionDecision::BlockedGoldIndependence)
    } else if has_blocking_group(reasons, 5) {
        Some(AdmissionDecision::BlockedContentSufficiency)
    } else if has_blocking_group(reasons, 6) {
        Some(AdmissionDecision::BlockedExecutionRequirement)
    } else {
        None
    }
}

proof fn lemma_blocking_fields_by_set(a: Seq<ReasonView>, b: Seq<ReasonView>)
    requires
        a.to_set() == b.to_set(),
    ensures
        blocking_fields(a) == blocking_fields(b),
{
    assert forall|f: Seq<char>| blocking_fields(a).contains(f) implies blocking_fields(b).contains(f) by {
        let i = choose|i: int| 0 <= i < a.len() && #[trigger] a[i].blocking && a[i].field == f;
        assert(a.to_set().contains(a[i]));
        let j = choose|j: int| 0 <= j < b.len() && b[j] == a[i];
        assert(b[j].blocking);
    }
    assert forall|f: Seq<char>| blocking_fields(b).contains(f) implies blocking_fields(a).contains(f) by {
        let i = choose|i: int| 0 <= i < b.len() && #[trigger] b[i].blocking && b[i].field == f;
        assert(b.to_set().contains(b[i]));
        let j = choose|j: int| 0 <= j < a.len() && a[j] == b[i];
        assert(a[j].blocking);
    }
    assert(blocking_fields(a) =~= blocking_fields(b));
}

/// The sorted fields named by blocking reasons.
fn collect_blocking_fields(reasons: &Vec<AdmissionReason>) -> (r: Vec<String>)
    ensures
        sorted_strict::<String>(views(r@)),
        views(r@).to_set() == blocking_fields(views(reasons@)),
{
    let mut fields: Vec<String> = Vec::new();
    let mut i: usize = 0;
    proof {
        assert(views(fields@).to_set() =~= blocking_fields(views(reasons@).take(0)));
    }
    while i < reasons.len()
        invariant
            i <= reasons.len(),
            sorted_strict::<String>(views(fields@)),
            views(fields@).to_set() == blocking_fields(views(reasons@).take(i as int)),
        decreases reasons.len() - i,
    {
        let ghost before = blocking_fields(views(reasons@).take(i as int));
        let ghost prefix = views(reasons@).take(i as int);
        let ghost next = views(reasons@).take(i + 1);
        if reasons[i].blocking {
            let f = owned(reasons[i].field.as_str());
            insert_unique(&mut fields, f);
            proof {
                assert(next =~= prefix.push(views(reasons@)[i as int]));
                assert(blocking_fields(next) =~= before.insert(views(reasons@)[i as int].field)) by {
                    assert forall|g: Seq<char>| #[trigger] blocking_fields(next).contains(g) implies before.insert(
                        views(reasons@)[i as int].field,
                    ).contains(g) by {
                        let k = choose|k: int| 0 <= k < next.len() && #[trigger] next[k].blocking && next[k].field == g;
                        if k < i {
                            assert(prefix[k] == next[k]);
                        }
                    }
                    assert forall|g: Seq<char>| #[trigger] before.insert(views(reasons@)[i as int].field).contains(g)
                        implies blocking_fields(next).contains(g) by {
                        if before.contains(g) {
                            let k = choose|k: int| 0 <= k < prefix.len() && #[trigger] prefix[k].blocking && prefix[k].field == g;
                            assert(next[k] == prefix[k]);
                        } else {
                            assert(next[i as int].blocking);
                        }
                    }
                }
            }
        } else {
            proof {
                assert(next =~= prefix.push(views(reasons@)[i as int]));
                assert(blocking_fields(next) =~= before) by {
                    assert forall|g: Seq<char>| #[trigger] blocking_fields(next).contains(g) implies before.contains(g) by {
                        let k = choose|k: int| 0 <= k < next.len() && #[trigger] next[k].blocking && next[k].field == g;
                        assert(k < i);
                        assert(prefix[k] == next[k]);
                    }
                    assert forall|g: Seq<char>| #[trigger] before.contains(g) implies blocking_fields(next).contains(g) by {
                        let k = choose|k: int| 0 <= k < prefix.len() && #[trigger] prefix[k].blocking && prefix[k].field == g;
                        assert(next[k] == prefix[k]);
                    }
                }
            }
        }
        i = i + 1;
    }
    proof {
        assert(views(reasons@).take(reasons.len() as int) =~= views(reasons@));
    }
    fields
}

/// The report of a manifest that failed validation.
fn invalid_report(manifest: &ExternalArtifactAdmissionManifestV1, error: &AdmissionValidationError) -> (r: AdmissionDecisionReport)
    ensures
        r.schema_id@ == EXTERNAL_ARTIFACT_ADMISSION_SCHEMA_ID@,
        r.schema_version == EXTERNAL_ARTIFACT_ADMISSION_SCHEMA_VERSION,
        r.artifact_id@ == manifest.artifact_id@,
        r.artifact_kind == manifest.artifact_kind,
        r.canonical_source@ == manifest.canonical_source@,
        r.immutable_revision@ == manifest.immutable_revision@,
        r.requested_use == manifest.requested_use,
        r.decision == AdmissionDecision::InvalidManifest,
        views(r.reasons@) == seq![rv(AdmissionReasonCode::InvalidManifest, "manifest"@, failure_text(error@), true)],
        views(r.blocking_evidence_fields@) == seq!["manifest"@],
        r.warnings@.len() == 0,
{
    let text = error.text();
    let reason = AdmissionReason {
        code: AdmissionReasonCode::InvalidManifest,
        field: owned("manifest"),
        message: text,
        blocking: true,
    };
    let mut reasons = Vec::new();
    push_reason(&mut reasons, reason);
    let mut fields: Vec<String> = Vec::new();
    fields.push(owned("manifest"));
    let r = AdmissionDecisionReport {
        schema_id: owned(EXTERNAL_ARTIFACT_ADMISSION_SCHEMA_ID),
        schema_version: EXTERNAL_ARTIFACT_ADMISSION_SCHEMA_VERSION,
        artifact_id: owned(manifest.artifact_id.as_str()),
        artifact_kind: manifest.artifact_kind,
        canonical_source: owned(manifest.canonical_source.as_str()),
        immutable_revision: owned(manifest.immutable_revision.as_str()),
        requested_use: manifest.requested_use,
        decision: AdmissionDecision::InvalidManifest,
        reasons,
        blocking_evidence_fields: fields,
        warnings: Vec::new(),
    };
    assert(views(r.reasons@) =~= seq![rv(AdmissionReasonCode::InvalidManifest, "manifest"@, failure_text(error@), true)]);
    assert(views(r.blocking_evidence_fields@) =~= seq!["manifest"@]);
    r
}

fn admissible(u: RequestedUse) -> (d: AdmissionDecision)
    ensures
        d == admissible_for(u),
{
    match u {
        RequestedUse::MetadataResearch => AdmissionDecision::AdmissibleMetadataOnly,
        RequestedUse::ExternalFrontHalfEvaluation => AdmissionDecision::AdmissibleLocalStudy,
        RequestedUse::LimitedPilot => AdmissionDecision::AdmissibleLimitedPilot,
        RequestedUse::RawRedistribution => AdmissionDecision::AdmissibleRawRedistribution,
        RequestedUse::ReferenceOnly => AdmissionDecision::ReferenceOnly,
    }
}

fn admitted(d: AdmissionDecision) -> (r: AdmissionReason)
    ensures
        r@ == admitted_reason(d),
{
    match d {
        AdmissionDecision::AdmissibleMetadataOnly => reason(AdmissionReasonCode::AdmittedForMetadataResearch,
            "requested_use", "recorded evidence supports metadata research only", false),
        AdmissionDecision::AdmissibleLocalStudy => reason(AdmissionReasonCode::AdmittedForLocalStudy, "requested_use",
            "recorded evidence supports bounded local front-half study", false),
        AdmissionDecision::AdmissibleLimitedPilot => reason(AdmissionReasonCode::AdmittedForLimitedPilot,
            "requested_use", "recorded evidence supports a bounded limited pilot", false),
        AdmissionDecision::AdmissibleRawRedistribution => reason(AdmissionReasonCode::AdmittedForRawRedistribution,
            "requested_use", "recorded evidence supports the explicitly requested raw redistribution operation", false),
        _ => reason(AdmissionReasonCode::AdmittedForMetadataResearch, "requested_use",
            "artifact is retained as a reference only", false),
    }
}

/// The reasons and warnings the rules of the requested use raise.
fn collect(manifest: &ExternalArtifactAdmissionManifestV1) -> (r: (Vec<AdmissionReason>, Vec<AdmissionWarning>))
    ensures
        views(r.0@) == collected_reasons(*manifest),
        views(r.1@) == collected_warnings(*manifest),
{
    let ghost m = *manifest;
    let mut reasons: Vec<AdmissionReason> = Vec::new();
    let mut warnings: Vec<AdmissionWarning> = Vec::new();
    add_common_warnings(manifest, &mut warnings);
    proof {
        assert(views(reasons@) =~= Seq::<ReasonView>::empty());
    }
    let ghost w0 = views(warnings@);
    match manifest.requested_use {
        RequestedUse::MetadataResearch => evaluate_metadata(manifest, &mut reasons),
        RequestedUse::ExternalFrontHalfEvaluation => evaluate_front_half(manifest, &mut reasons, &mut warnings, false),
        RequestedUse::LimitedPilot => evaluate_front_half(manifest, &mut reasons, &mut warnings, true),
        RequestedUse::RawRedistribution => evaluate_redistribution(manifest, &mut reasons),
        RequestedUse::ReferenceOnly => push_reason(&mut reasons, reason(AdmissionReasonCode::AdmittedForMetadataResearch,
            "requested_use", "artifact is retained as a reference only", false)),
    }
    proof {
        assert(views(reasons@) =~= collected_reasons(m));
        assert(views(warnings@) =~= collected_warnings(m));
    }
    (reasons, warnings)
}

/// Derives the research-use decision for a manifest.
///
/// An invalid manifest gets `InvalidManifest` with one blocking reason that
/// carries the validation failure. For a valid one the decision follows the
/// rules of the requested use: a reference-only request is always
/// `ReferenceOnly`; otherwise the highest-priority blocking group decides
/// (permission, provenance, join, gold independence, content, execution), and
/// without any blocking reason the use is admitted with an admitting reason.
/// Reasons, warnings and blocking fields come sorted without duplicates.
pub fn derive_admission(manifest: &ExternalArtifactAdmissionManifestV1) -> (report: AdmissionDecisionReport)
    ensures
        report.schema_id@ == EXTERNAL_ARTIFACT_ADMISSION_SCHEMA_ID@,
        report.schema_version == EXTERNAL_ARTIFACT_ADMISSION_SCHEMA_VERSION,
        report.artifact_id@ == manifest.artifact_id@,
        report.artifact_kind == manifest.artifact_kind,
        report.canonical_source@ == manifest.canonical_source@,
        report.immutable_revision@ == manifest.immutable_revision@,
        report.requested_use == manifest.requested_use,
        !manifest_valid(*manifest) ==> {
            &&& report.decision == AdmissionDecision::InvalidManifest
            &&& views(report.reasons@) == seq![rv(AdmissionReasonCode::InvalidManifest, "manifest"@,
                failure_text(manifest_check(*manifest)->0), true)]
            &&& views(report.blocking_evidence_fields@) == seq!["manifest"@]
            &&& report.warnings@.len() == 0
        },
        manifest_valid(*manifest) ==> {
            &&& report.decision == decision_of(*manifest)
            &&& sorted_strict::<AdmissionReason>(views(report.reasons@))
            &&& views(report.reasons@).to_set() == report_reasons(*manifest).to_set()
            &&& sorted_strict::<AdmissionWarning>(views(report.warnings@))
            &&& views(report.warnings@).to_set() == collected_warnings(*manifest).to_set()
            &&& sorted_strict::<String>(views(report.blocking_evidence_fields@))
            &&& views(report.blocking_evidence_fields@).to_set() == blocking_fields(report_reasons(*manifest))
            &&& views(report.blocking_evidence_fields@).to_set() == blocking_fields(views(report.reasons@))
        },
{
    match validate_manifest(manifest) {
        Err(error) => {
            return invalid_report(manifest, &error);
        },
        Ok(()) => {},
    }
    let ghost m = *manifest;
    let (mut reasons, warnings) = collect(manifest);
    let decision = if manifest.requested_use == RequestedUse::ReferenceOnly {
        AdmissionDecision::ReferenceOnly
    } else {
        match blocking_decision(&reasons) {
            Some(d) => d,
            None => admissible(manifest.requested_use),
        }
    };
    if !has_blocking(&reasons) {
        push_reason(&mut reasons, admitted(decision));
    }
    proof {
        assert(views(reasons@) =~= report_reasons(m));
        assert(decision == decision_of(m));
    }
    let sorted_reasons = sort_unique(reasons);
    let sorted_warnings = sort_unique(warnings);
    let fields = collect_blocking_fields(&sorted_reasons);
    proof {
        lemma_blocking_fields_by_set(views(sorted_reasons@), report_reasons(m));
    }
    AdmissionDecisionReport {
        schema_id: owned(EXTERNAL_ARTIFACT_ADMISSION_SCHEMA_ID),
        schema_version: EXTERNAL_ARTIFACT_ADMISSION_SCHEMA_VERSION,
        artifact_id: owned(manifest.artifact_id.as_str()),
        artifact_kind: manifest.artifact_kind,
        canonical_source: owned(manifest.canonical_source.as_str()),
        immutable_revision: owned(manifest.immutable_revision.as_str()),
        requested_use: manifest.requested_use,
        decision,
        reasons: sorted_reasons,
        blocking_evidence_fields: fields,
        warnings: sorted_warnings,
    }
}

} // verus!
