use prefixity_controlled_benchmark::candidate_evaluation::{
    classify_observation, evaluate_candidate, CandidateEvaluation, EnvironmentState, EvaluationFingerprints,
    EvidenceBlocker, EvidenceState, NextAction, ObservationRelevance, ObservationRelevanceReason,
};
use prefixity_controlled_benchmark::capability_registry::{
    Capability, CapabilityEvidence, CapabilityProfile, CapabilitySupport, KvCacheCapabilities, MetricCapabilities,
    PrefixCacheCapabilities, RegistryEvidenceOrigin, ResidencyCapabilities, RuntimeCacheCapabilities,
    SessionCapabilities,
};
use prefixity_controlled_benchmark::conformance::RuntimeIdentity;
use prefixity_controlled_benchmark::context_stability::{
    analysis_from_segments, ArtifactStability, ClassificationSource, ContextRole, ContextSegmentAnalysis, Observed,
    SizeSource, TrustLevel,
};
use prefixity_controlled_benchmark::diff::{
    CacheImpactAssessment, CommonPrefixMeasurement, DiffState, EnvelopeDiff, PrefixDiff, RequestDiff,
    RequestDiffInterpretation,
};
use prefixity_controlled_benchmark::diff_compare::request_diff_same;
use prefixity_controlled_benchmark::error::BenchmarkError;
use prefixity_controlled_benchmark::layout_planner::{
    CandidateSafetyStatus, LayoutCandidate, LayoutStructuralMetrics, StructuralLayoutEffect,
};
use prefixity_controlled_benchmark::observation_diagnostics::{
    diagnose_cache, CacheDiagnostic, CacheRegressionAssessment, CausalityStatus, EvidenceSourceClass,
    ObservationMetrics, ObservationReference, RequestObservationAlignment, RuntimeIdentityReference, TokenCount,
};

const LEFT: &str = "1111111111111111111111111111111111111111111111111111111111111111";
const RIGHT: &str = "2222222222222222222222222222222222222222222222222222222222222222";
const FP: &str = "0123456789abcdef0123456789abcdef0123456789abcdef0123456789abcdef";

fn known(s: &str) -> Observed<String> {
    Observed::Known(s.to_string())
}

fn segment(position: usize, path: &str, stability: ArtifactStability) -> ContextSegmentAnalysis {
    ContextSegmentAnalysis {
        position,
        structural_path: path.to_string(),
        component_id: None,
        role: ContextRole::ContextArtifact,
        stability,
        transient: false,
        byte_size: Observed::Known(10),
        classification_source: ClassificationSource::ExplicitMetadata,
        trust: Observed::Known(TrustLevel::Trusted),
        artifact_id: None,
        content_fingerprint: FP.to_string(),
        size_source: SizeSource::ExplicitMetadata,
    }
}

fn request_diff() -> RequestDiff {
    RequestDiff {
        schema_id: "prefixity.request-diff".to_string(),
        schema_version: 1,
        left_request_fingerprint: LEFT.to_string(),
        right_request_fingerprint: RIGHT.to_string(),
        prefix_diff: PrefixDiff {
            schema_id: "prefixity.prefix-diff".to_string(),
            schema_version: 1,
            left_context_fingerprint: LEFT.to_string(),
            right_context_fingerprint: RIGHT.to_string(),
            identical: false,
            common_prefix: CommonPrefixMeasurement {
                structural_units: 1,
                artifact_units: 0,
                tool_units: 0,
                text: vec![],
                token_units: Observed::NotObserved,
            },
            first_divergence: None,
            changes: vec![],
            provenance: vec![],
            cache_impact: CacheImpactAssessment::Unknown,
        },
        envelope_diff: EnvelopeDiff {
            schema_id: "prefixity.request-envelope-diff".to_string(),
            schema_version: 1,
            left_request_fingerprint: LEFT.to_string(),
            right_request_fingerprint: RIGHT.to_string(),
            identical: true,
            changes: vec![],
            cache_impact: CacheImpactAssessment::Unknown,
        },
        interpretation: RequestDiffInterpretation { context: DiffState::Changed, envelope: DiffState::Identical },
        cache_impact: CacheImpactAssessment::Unknown,
    }
}

/// A safe reorder of a stable artifact ahead of a volatile one.
fn candidate() -> LayoutCandidate {
    let segments = vec![
        segment(0, "context.artifacts[stable-a]", ArtifactStability::Stable),
        segment(1, "context.artifacts[stable-c]", ArtifactStability::Stable),
        segment(2, "context.artifacts[volatile-b]", ArtifactStability::Volatile),
    ];
    LayoutCandidate {
        candidate_id: format!("layout-{FP}"),
        layout_fingerprint: FP.to_string(),
        ordered_segments: vec![],
        transformations: vec![],
        resulting_analysis: analysis_from_segments(RIGHT.to_string(), RIGHT.to_string(), segments, vec![]).unwrap(),
        safety: CandidateSafetyStatus::OrderingSafeUnderDeclaredConstraints,
        reasons: vec![],
        structural_effect: StructuralLayoutEffect {
            source: LayoutStructuralMetrics { inversion_count: 1, stability_aligned_leading_segments: 1, unknown_boundary_count: 0 },
            candidate: LayoutStructuralMetrics { inversion_count: 0, stability_aligned_leading_segments: 3, unknown_boundary_count: 0 },
            moved_segment_count: 2,
            changed_relative_relationships: 1,
        },
        request_diff: request_diff(),
    }
}

fn unknown() -> Capability {
    Capability { support: CapabilitySupport::Unknown, evidence: CapabilityEvidence::Unverified, details: Observed::Unknown }
}

fn profile(model: &str) -> CapabilityProfile {
    let capabilities = RuntimeCacheCapabilities {
        identity: RuntimeIdentity {
            backend: "llama.cpp".to_string(),
            provider: known("local"),
            model: known(model),
            protocol: known("llama.cpp-openai-chat-v1"),
            runtime: known("llama.cpp"),
            runtime_version: Observed::Unknown,
        },
        prefix_cache: PrefixCacheCapabilities {
            prefix_reuse: Capability {
                support: CapabilitySupport::Supported,
                evidence: CapabilityEvidence::Documented,
                details: Observed::NotObserved,
            },
            automatic_cache_population: unknown(),
            explicit_cache_population: unknown(),
            minimum_cacheable_prefix_tokens: unknown(),
            cache_unit: Observed::Unknown,
            matching_constraints: Observed::NotObserved,
        },
        residency: ResidencyCapabilities {
            device_kv_state: unknown(),
            host_ram_caching: unknown(),
            disk_persistence: unknown(),
            explicit_save_restore: unknown(),
            checkpoint_support: unknown(),
            idle_slot_session_caching: unknown(),
        },
        sessions: SessionCapabilities {
            slots_or_sessions: unknown(),
            cache_affinity_routing_hints: unknown(),
            retention_or_ttl_controls: unknown(),
            conversation_chaining: unknown(),
        },
        metrics: MetricCapabilities {
            input_tokens: unknown(),
            cached_tokens: unknown(),
            prompt_evaluation_duration: unknown(),
            time_to_first_token: unknown(),
            cache_state: unknown(),
            ram_usage: unknown(),
            vram_usage: unknown(),
            kv_usage: unknown(),
            restore_or_rebuild: unknown(),
        },
        kv_cache: KvCacheCapabilities {
            precision_options: Observed::Unknown,
            quantization_support: unknown(),
            quality_regression_evidence: Observed::Unknown,
        },
    };
    CapabilityProfile {
        profile_id: "llama-profile".to_string(),
        capabilities,
        origin: RegistryEvidenceOrigin::ProjectDocumentation,
        provenance: vec![],
    }
}

fn metrics(cached: u64) -> ObservationMetrics {
    ObservationMetrics {
        transmitted_input_tokens: Observed::NotObserved,
        provider_cached_tokens: Observed::Known(TokenCount {
            count: cached,
            provider: known("local"),
            model: known("fixture-model"),
            tokenizer: known("fixture-tokenizer"),
        }),
        fresh_prefill_tokens: Observed::NotObserved,
        reconstructed_context_tokens: Observed::NotObserved,
        output_tokens: Observed::NotObserved,
        prefill_duration_ms: Observed::NotObserved,
        time_to_first_token_ms: Observed::NotObserved,
        generation_duration_ms: Observed::NotObserved,
        wall_duration_ms: Observed::NotObserved,
        ram_bytes: Observed::NotObserved,
        vram_bytes: Observed::NotObserved,
        kv_cache_bytes: Observed::NotObserved,
    }
}

fn observation(id: &str, request_fingerprint: &str, source: EvidenceSourceClass) -> ObservationReference {
    ObservationReference {
        observation_schema_version: 1,
        observation_id: id.to_string(),
        experiment_id: None,
        case_id: None,
        request_fingerprint: Some(request_fingerprint.to_string()),
        context_fingerprint: Some("fixture-context".to_string()),
        envelope_fingerprint: None,
        runtime: RuntimeIdentityReference {
            backend: "llama.cpp".to_string(),
            provider: known("local"),
            model: known("fixture-model"),
            protocol: known("llama.cpp-openai-chat-v1"),
            runtime: known("llama.cpp"),
            runtime_version: Observed::Unknown,
            profile_id: None,
            identity_fingerprint: "identity".to_string(),
        },
        source,
    }
}

/// The diagnostic of two observations of the candidate's request pair: 10
/// cached tokens on the left, `right_cached` on the right.
fn diagnostic(candidate: &LayoutCandidate, source: EvidenceSourceClass, right_cached: u64) -> CacheDiagnostic {
    diagnose_cache(
        candidate.request_diff.clone(),
        &metrics(10),
        &metrics(right_cached),
        observation("left", &candidate.request_diff.left_request_fingerprint, source),
        observation("right", &candidate.request_diff.right_request_fingerprint, source),
    )
}

fn fingerprints(n: usize) -> EvaluationFingerprints {
    EvaluationFingerprints {
        request_diff: "diff-fingerprint".to_string(),
        runtime_identity: "identity-fingerprint".to_string(),
        diagnostics: (0..n).map(|i| format!("diagnostic-{i}")).collect(),
    }
}

fn evaluate(
    candidate: &LayoutCandidate,
    profile: Option<&CapabilityProfile>,
    observations: &[CacheDiagnostic],
) -> CandidateEvaluation {
    let observations = observations.to_vec();
    evaluate_candidate(candidate, profile, &observations, &EnvironmentState::available(), &fingerprints(observations.len()))
        .unwrap()
}

#[test]
fn identity_and_candidate_mismatches_reject_observations() {
    let candidate = candidate();
    let mut diagnostic = diagnostic(&candidate, EvidenceSourceClass::ExperimentallyObservedRuntime, 50);
    diagnostic.request_observation_alignment = RequestObservationAlignment::Mismatched;
    let evaluation = evaluate(&candidate, Some(&profile("fixture-model")), &[diagnostic]);
    assert_eq!(evaluation.evidence_state, EvidenceState::ReadyForExperiment);
    assert_eq!(evaluation.observations[0].relevance, ObservationRelevance::Rejected);
    assert!(evaluation.blockers.contains(&EvidenceBlocker::ObservationIdentityMismatch));
}

#[test]
fn unrelated_request_fingerprint_does_not_imply_envelope_mismatch() {
    let candidate = candidate();
    let mut diagnostic = diagnostic(&candidate, EvidenceSourceClass::ExperimentallyObservedRuntime, 50);
    diagnostic.request_diff.left_request_fingerprint = "unrelated-left".to_string();
    diagnostic.request_diff.right_request_fingerprint = "unrelated-right".to_string();
    let evaluation = evaluate(&candidate, Some(&profile("fixture-model")), &[diagnostic]);
    assert_eq!(evaluation.observations[0].relevance, ObservationRelevance::Rejected);
    assert!(evaluation.observations[0].reasons.contains(&ObservationRelevanceReason::CandidateMutationMismatch));
    assert!(!evaluation.observations[0].reasons.contains(&ObservationRelevanceReason::EnvelopeCompatibilityMismatch));
}

#[test]
fn genuine_envelope_difference_remains_rejected_as_envelope_mismatch() {
    let candidate = candidate();
    let mut diagnostic = diagnostic(&candidate, EvidenceSourceClass::ExperimentallyObservedRuntime, 50);
    diagnostic.request_diff.envelope_diff.identical = false;
    let evaluation = evaluate(&candidate, Some(&profile("fixture-model")), &[diagnostic]);
    assert_eq!(evaluation.observations[0].relevance, ObservationRelevance::Rejected);
    assert!(evaluation.observations[0].reasons.contains(&ObservationRelevanceReason::EnvelopeCompatibilityMismatch));
}

#[test]
fn runtime_model_identity_mismatch_cannot_influence_evidence() {
    let candidate = candidate();
    let diagnostics = vec![diagnostic(&candidate, EvidenceSourceClass::ExperimentallyObservedRuntime, 50)];
    let evaluation = evaluate(&candidate, Some(&profile("other-model")), &diagnostics);
    assert_eq!(evaluation.evidence_state, EvidenceState::ReadyForExperiment);
    assert_eq!(evaluation.observations[0].relevance, ObservationRelevance::Rejected);
    assert!(evaluation.observations[0].reasons.contains(&ObservationRelevanceReason::ModelIdentityMismatch));
}

#[test]
fn repeated_evaluation_is_deterministic_and_input_is_unchanged() {
    let candidate = candidate();
    let before = candidate.clone();
    let first = evaluate(&candidate, Some(&profile("fixture-model")), &[]);
    let second = evaluate(&candidate, Some(&profile("fixture-model")), &[]);
    assert_eq!(first, second);
    assert!(first.validate().is_ok());
    assert_eq!(candidate, before);
}

#[test]
fn matching_experimental_observation_is_relevant_and_supports() {
    let candidate = candidate();
    let diagnostics = vec![diagnostic(&candidate, EvidenceSourceClass::ExperimentallyObservedRuntime, 50)];
    assert_eq!(diagnostics[0].request_observation_alignment, RequestObservationAlignment::Aligned);
    let evaluation = evaluate(&candidate, Some(&profile("fixture-model")), &diagnostics);
    assert_eq!(evaluation.observations[0].relevance, ObservationRelevance::Relevant, "{evaluation:?}");
    assert!(evaluation.observations[0].reasons.is_empty());
    assert_eq!(evaluation.evidence_state, EvidenceState::ObservationallySupported);
    assert_eq!(evaluation.next_action, NextAction::NoAction);
    assert_eq!(evaluation.observations[0].diagnostic_fingerprint, "diagnostic-0");
    assert_eq!(evaluation.observations[0].causality, CausalityStatus::NotEstablished);
    assert_eq!(evaluation.candidate.request_diff_fingerprint, "diff-fingerprint");
    assert_eq!(evaluation.candidate.source_request_fingerprint, LEFT);
    assert_eq!(evaluation.candidate.candidate_request_fingerprint, RIGHT);
    let reference = evaluation.runtime_profile.clone().unwrap();
    assert_eq!(reference.profile_id, "llama-profile");
    assert_eq!(reference.identity_fingerprint, "identity-fingerprint");
    assert_eq!(evaluation.capability.profile, Some(reference));
}

#[test]
fn dropping_rejected_diagnostics_keeps_the_evaluation() {
    let candidate = candidate();
    let relevant = diagnostic(&candidate, EvidenceSourceClass::ExperimentallyObservedRuntime, 50);
    let mut rejected = diagnostic(&candidate, EvidenceSourceClass::ExperimentallyObservedRuntime, 5);
    rejected.request_observation_alignment = RequestObservationAlignment::Unavailable;
    let all = evaluate(&candidate, Some(&profile("fixture-model")), &[relevant.clone(), rejected]);
    let kept = evaluate(&candidate, Some(&profile("fixture-model")), &[relevant]);
    assert_eq!(all.evidence_state, kept.evidence_state);
    assert_eq!(all.experiment_readiness, kept.experiment_readiness);
    assert_eq!(all.next_action, kept.next_action);
    assert!(all.blockers.contains(&EvidenceBlocker::ObservationIdentityMismatch));
    assert!(!kept.blockers.contains(&EvidenceBlocker::ObservationIdentityMismatch));
}

#[test]
fn without_a_profile_observations_lack_identity_fields() {
    let candidate = candidate();
    let d = diagnostic(&candidate, EvidenceSourceClass::SyntheticProtocolTest, 50);
    let evidence = classify_observation(&candidate, None, &d, "fp".to_string());
    assert_eq!(evidence.relevance, ObservationRelevance::Rejected);
    assert_eq!(evidence.reasons, vec![ObservationRelevanceReason::InsufficientObservationFields]);
    assert_eq!(evidence.source, EvidenceSourceClass::SyntheticProtocolTest);
    assert_eq!(evidence.assessment, CacheRegressionAssessment::ObservedReuseIncrease);
    let mut mixed = d.clone();
    mixed.observation_comparison.right.source = EvidenceSourceClass::DocumentedCapability;
    let evidence = classify_observation(&candidate, Some(&profile("fixture-model")), &mixed, "fp".to_string());
    assert_eq!(evidence.source, EvidenceSourceClass::UnknownUnverified);
    assert_eq!(evidence.relevance, ObservationRelevance::Relevant);
}

#[test]
fn request_diffs_compare_by_value() {
    let a = request_diff();
    assert!(request_diff_same(&a, &a.clone()));
    let mut b = request_diff();
    b.prefix_diff.common_prefix.token_units = Observed::Known(3);
    assert!(!request_diff_same(&a, &b));
    let mut c = request_diff();
    c.prefix_diff.provenance.push(("source".to_string(), "x".to_string()));
    assert!(!request_diff_same(&a, &c));
}

#[test]
fn invalid_evaluation_inputs_are_refused() {
    let mut candidate = candidate();
    let diagnostics: Vec<CacheDiagnostic> = vec![];
    let too_many = vec![diagnostic(&candidate, EvidenceSourceClass::SyntheticProtocolTest, 50); 17];
    assert_eq!(
        evaluate_candidate(&candidate, None, &too_many, &EnvironmentState::available(), &fingerprints(17)),
        Err(BenchmarkError::Validation {
            path: "<in-memory>".to_string(),
            message: "candidate evaluation observations exceed their bound".to_string(),
        })
    );
    candidate.resulting_analysis.segments.clear();
    assert!(evaluate_candidate(&candidate, None, &diagnostics, &EnvironmentState::available(), &fingerprints(0)).is_err());
}
