use prefixity_controlled_benchmark::admission_decide::derive_admission;
use prefixity_controlled_benchmark::admission_model::{
    AdmissionDecision, AdmissionReasonCode, AdmissionValidationError, AdmissionWarningCode,
    ArtifactContentEvidence, ArtifactKind, ContentSufficiency, EvidenceRecord, EvidenceReference,
    EvidenceState, ExecutionRequirement, ExecutionRequirements, ExternalArtifactAdmissionManifestV1,
    GitRetention, GitRetentionPolicy, GoldIndependence, GoldIndependenceEvidence, JoinAmbiguity,
    JoinClassification, JoinKeyKind, MaterialEvidence, MaterialPresence, OperationEvidence,
    PermissionBasis, PermissionEvidence, PresenceStatus, PublicAccessibility, RequestedUse,
    RevisionKind, StableJoinEvidence, ThirdPartyMaterialEvidence,
};
use prefixity_controlled_benchmark::admission_validate::validate_manifest;

fn reference() -> Vec<EvidenceReference> {
    vec![EvidenceReference { locator: "https://example.org/license".into(), note: None }]
}

fn record(state: EvidenceState) -> EvidenceRecord {
    EvidenceRecord { state, references: reference(), note: None }
}

fn op(basis: PermissionBasis) -> OperationEvidence {
    OperationEvidence { basis, references: reference(), note: None }
}

fn material(status: MaterialPresence) -> MaterialEvidence {
    MaterialEvidence { status, references: reference() }
}

fn manifest(requested_use: RequestedUse) -> ExternalArtifactAdmissionManifestV1 {
    ExternalArtifactAdmissionManifestV1 {
        schema_id: "prefixity.external-artifact-admission.v1".into(),
        schema_version: 1,
        artifact_id: "example-trajectories".into(),
        artifact_kind: ArtifactKind::TrajectoryDataset,
        canonical_source: "https://example.org/dataset".into(),
        source_owner: "example".into(),
        immutable_revision_kind: RevisionKind::GitCommit,
        immutable_revision: "0123456789abcdef".into(),
        parent_project: None,
        public_accessibility: PublicAccessibility::Restricted,
        provenance_evidence: reference(),
        framework_code_license: record(EvidenceState::Explicit),
        dataset_artifact_reuse: record(EvidenceState::Explicit),
        underlying_third_party_material: record(EvidenceState::NotApplicable),
        permission: PermissionEvidence {
            metadata_inspection: op(PermissionBasis::PermittedExplicit),
            local_raw_download: op(PermissionBasis::PermittedExplicit),
            local_raw_read_parse: op(PermissionBasis::PermittedExplicit),
            local_transformation: op(PermissionBasis::PermittedExplicit),
            retain_hashes_identifiers_aggregate_metrics: op(PermissionBasis::PermittedExplicit),
            retain_bounded_structural_metadata: op(PermissionBasis::PermittedExplicit),
            retain_source_excerpts: op(PermissionBasis::NotPermitted),
            redistribute_raw_artifact: op(PermissionBasis::NotPermitted),
            vendor_raw_artifact: op(PermissionBasis::NotPermitted),
        },
        third_party_material: ThirdPartyMaterialEvidence {
            source_code: material(MaterialPresence::ExplicitAbsent),
            issue_or_pr_text: material(MaterialPresence::ExplicitAbsent),
            patches: material(MaterialPresence::ExplicitAbsent),
            tests_or_test_patches: material(MaterialPresence::ExplicitAbsent),
            tool_output_source_excerpts: material(MaterialPresence::ExplicitAbsent),
            private_user_data: material(MaterialPresence::ExplicitAbsent),
            unknown_third_party_material: material(MaterialPresence::ExplicitAbsent),
        },
        stable_join: StableJoinEvidence {
            classification: JoinClassification::ExactOneToOne,
            key_kind: JoinKeyKind::StableIdentifier,
            left_identifier_description: "task id".into(),
            right_identifier_description: "task id".into(),
            deterministic_exact_match: true,
            ambiguity: JoinAmbiguity::NoAmbiguity,
            expected_join_count: Some(10),
            observed_bounded_join_count: Some(10),
        },
        gold_independence: GoldIndependenceEvidence {
            status: GoldIndependence::BlindToGold,
            evidence_basis: record(EvidenceState::Explicit),
        },
        content: ArtifactContentEvidence {
            sufficiency: ContentSufficiency::SufficientForFrontHalf,
            chronology_or_order: PresenceStatus::ExplicitPresent,
            tool_calls: PresenceStatus::ExplicitPresent,
            tool_results: PresenceStatus::ExplicitPresent,
            file_reads_or_views: PresenceStatus::ExplicitPresent,
            search_or_symbol_activity: PresenceStatus::Unknown,
            observations: PresenceStatus::ExplicitPresent,
            edits_or_actions: PresenceStatus::ExplicitPresent,
            stable_task_identity: PresenceStatus::ExplicitPresent,
        },
        retention: GitRetentionPolicy {
            raw_external_artifact: GitRetention::DoNotTrack,
            full_trajectories: GitRetention::DoNotTrack,
            source_file_bodies: GitRetention::DoNotTrack,
            source_excerpts: GitRetention::DoNotTrack,
            problem_statements: GitRetention::DoNotTrack,
            patches_or_test_patches: GitRetention::DoNotTrack,
            opaque_task_ids: GitRetention::Track,
            hashes: GitRetention::Track,
            source_urls_and_revisions: GitRetention::Track,
            license_and_provenance_metadata: GitRetention::Track,
            structural_metadata: GitRetention::Track,
            aggregate_metrics: GitRetention::Track,
        },
        execution: ExecutionRequirements {
            static_data_parsing: ExecutionRequirement::Required,
            archive_decompression: ExecutionRequirement::NotRequired,
            third_party_code_execution: ExecutionRequirement::NotRequired,
            container_execution: ExecutionRequirement::NotRequired,
            network_access: ExecutionRequirement::NotRequired,
            provider_model_inference: ExecutionRequirement::NotRequired,
        },
        requested_use,
    }
}

#[test]
fn complete_manifest_is_admitted_for_local_study() {
    let m = manifest(RequestedUse::ExternalFrontHalfEvaluation);
    assert_eq!(validate_manifest(&m), Ok(()));
    let report = derive_admission(&m);
    assert_eq!(report.decision, AdmissionDecision::AdmissibleLocalStudy);
    assert!(report.reasons.iter().all(|r| !r.blocking));
    assert!(report.reasons.iter().any(|r| r.code == AdmissionReasonCode::AdmittedForLocalStudy));
    assert!(report.blocking_evidence_fields.is_empty());
}

#[test]
fn reference_only_is_always_reference_only() {
    let mut m = manifest(RequestedUse::ReferenceOnly);
    m.gold_independence.status = GoldIndependence::GoldConditioned;
    assert_eq!(derive_admission(&m).decision, AdmissionDecision::ReferenceOnly);
}

#[test]
fn gold_conditioned_evidence_blocks_front_half_study() {
    let mut m = manifest(RequestedUse::ExternalFrontHalfEvaluation);
    m.gold_independence.status = GoldIndependence::GoldConditioned;
    let report = derive_admission(&m);
    assert_eq!(report.decision, AdmissionDecision::BlockedGoldIndependence);
    assert_eq!(report.blocking_evidence_fields, vec!["gold_independence.status".to_string()]);
}

#[test]
fn permission_block_outranks_other_blocks() {
    let mut m = manifest(RequestedUse::ExternalFrontHalfEvaluation);
    m.permission.local_transformation = op(PermissionBasis::Unknown);
    m.gold_independence.status = GoldIndependence::GoldConditioned;
    assert_eq!(derive_admission(&m).decision, AdmissionDecision::BlockedPermission);
}

#[test]
fn public_accessibility_is_only_a_warning() {
    let mut m = manifest(RequestedUse::MetadataResearch);
    m.public_accessibility = PublicAccessibility::Public;
    let report = derive_admission(&m);
    assert_eq!(report.decision, AdmissionDecision::AdmissibleMetadataOnly);
    assert!(report.warnings.iter().any(|w| w.code == AdmissionWarningCode::PublicAccessibilityIsNotPermission));
}

#[test]
fn raw_redistribution_needs_explicit_permission() {
    let m = manifest(RequestedUse::RawRedistribution);
    assert_eq!(derive_admission(&m).decision, AdmissionDecision::BlockedPermission);
}

#[test]
fn unsupported_schema_version_is_an_invalid_manifest() {
    let mut m = manifest(RequestedUse::MetadataResearch);
    m.schema_version = 2;
    assert_eq!(
        validate_manifest(&m),
        Err(AdmissionValidationError::UnsupportedSchemaVersion { found: 2, expected: 1 })
    );
    let report = derive_admission(&m);
    assert_eq!(report.decision, AdmissionDecision::InvalidManifest);
    assert_eq!(report.reasons.len(), 1);
    assert_eq!(report.reasons[0].code, AdmissionReasonCode::InvalidManifest);
}

#[test]
fn control_character_in_artifact_id_is_reported_with_its_field() {
    let mut m = manifest(RequestedUse::MetadataResearch);
    m.artifact_id = "bad\u{7}id".into();
    assert_eq!(
        validate_manifest(&m),
        Err(AdmissionValidationError::InvalidField {
            field: "artifact_id".into(),
            message: "contains a control character".into()
        })
    );
}

#[test]
fn exact_join_with_ambiguity_is_invalid() {
    let mut m = manifest(RequestedUse::MetadataResearch);
    m.stable_join.ambiguity = JoinAmbiguity::Possible;
    assert!(matches!(validate_manifest(&m), Err(AdmissionValidationError::InvalidField { .. })));
}

#[test]
fn limited_content_blocks_only_the_full_study() {
    let mut pilot = manifest(RequestedUse::LimitedPilot);
    pilot.content.sufficiency = ContentSufficiency::Limited;
    let mut study = manifest(RequestedUse::ExternalFrontHalfEvaluation);
    study.content.sufficiency = ContentSufficiency::Limited;
    let p = derive_admission(&pilot);
    let s = derive_admission(&study);
    assert_eq!(p.decision, AdmissionDecision::AdmissibleLimitedPilot);
    assert!(p.reasons.iter().all(|r| r.code != AdmissionReasonCode::ContentInsufficient));
    assert!(p.warnings.iter().any(|w| w.code == AdmissionWarningCode::ContentLimited && w.field == "content.sufficiency"));
    assert_eq!(s.decision, AdmissionDecision::BlockedContentSufficiency);
    assert!(s.reasons.iter().any(|r| r.code == AdmissionReasonCode::ContentInsufficient
        && r.field == "content.sufficiency" && r.blocking));
    assert!(s.warnings.iter().all(|w| w.code != AdmissionWarningCode::ContentLimited));
    assert_eq!(s.blocking_evidence_fields, vec!["content.sufficiency".to_string()]);
}
