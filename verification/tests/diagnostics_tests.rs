use prefixity_controlled_benchmark::candidate_evaluation::{
    assemble_evaluation, capability_assessment, evaluation_blockers, identity_reasons, sort_observations, source_rank,
    structural_assessment, RuntimeProfileReference, CandidateEvaluation, CandidateHypothesis, CandidateReference,
    CapabilityAssessment, CapabilityGateAssessment, ClaimPermission, ClaimPermissions, DesignReadiness,
    EnvironmentReadiness, EnvironmentState, EvaluationProvenance, EvidenceBlocker, EvidenceState, ExecutionReadiness,
    ExperimentReadiness, NextAction, ObservationEvidence, ObservationRelevance, ObservationRelevanceReason, StructuralAssessment,
};
use prefixity_controlled_benchmark::capability_registry::{CapabilityKey, CapabilityState};
use prefixity_controlled_benchmark::context_stability::Observed;
use prefixity_controlled_benchmark::diff::{
    CacheImpactAssessment, ChangeCategory, CommonPrefixMeasurement, DiffChange, DiffState, EnvelopeChange,
    EnvelopeDiff, EnvelopeField, PrefixDiff, RequestDiff, RequestDiffInterpretation,
};
use prefixity_controlled_benchmark::error::{BenchmarkError, MaterializationErrorCode};
use prefixity_controlled_benchmark::materialization::validate_evaluation_identity;
use prefixity_controlled_benchmark::layout_planner::{
    CandidateSafetyStatus, LayoutCandidate, LayoutStructuralMetrics, StructuralLayoutEffect,
};
use prefixity_controlled_benchmark::observation_diagnostics::{
    assess_cache, comparison_signals, direction, evidence_statement, metric_directions, numeric_delta,
    numeric_values, observed_scope_matches, request_observation_alignment, token_delta, token_scopes_compatible,
    ComparisonSignals, ObservationMetrics, TokenCount, compare_observations_with_references, diagnose_cache,
    DiagnosticMetric, MetricDirection, RequestObservationAlignment,
    change_category_name, compare_identity, compare_observed_string, compare_optional_string,
    compare_required_string, envelope_field_name, known_string, push_reason, structural_categories,
    CacheRegressionAssessment, CausalityStatus, ComparabilityLevel, ComparabilityReason, EvidenceAssociation,
    EvidenceSourceClass, IdentityMatch, ObservationReference, RuntimeIdentityReference,
};

fn known(s: &str) -> Observed<String> {
    Observed::Known(s.to_string())
}

fn reference(model: &str) -> ObservationReference {
    ObservationReference {
        observation_schema_version: 1,
        observation_id: "obs".to_string(),
        experiment_id: None,
        case_id: None,
        request_fingerprint: Some("req".to_string()),
        context_fingerprint: Some("ctx".to_string()),
        envelope_fingerprint: None,
        runtime: RuntimeIdentityReference {
            backend: "llama.cpp".to_string(),
            provider: known("local"),
            model: known(model),
            protocol: known("openai-chat"),
            runtime: known("llama-server"),
            runtime_version: known("b1"),
            profile_id: Some("profile".to_string()),
            identity_fingerprint: "fp".to_string(),
        },
        source: EvidenceSourceClass::SyntheticProtocolTest,
    }
}

#[test]
fn identical_identities_are_directly_comparable() {
    let report = compare_identity(&reference("m"), &reference("m"));
    assert_eq!(report.level, ComparabilityLevel::DirectlyComparable);
    assert!(report.reasons.is_empty());
    assert_eq!(report.identity.model, IdentityMatch::Match);
    assert_eq!(report.identity.backend, IdentityMatch::Match);
}

#[test]
fn any_identity_mismatch_is_incomparable() {
    let mut right = reference("other");
    right.request_fingerprint = None;
    let report = compare_identity(&reference("m"), &right);
    assert_eq!(report.level, ComparabilityLevel::Incomparable);
    assert_eq!(
        report.reasons,
        vec![ComparabilityReason::ModelIdentityMismatch, ComparabilityReason::MissingRequestFingerprint]
    );
    let mut right = reference("m");
    right.runtime.backend = "vllm".to_string();
    right.runtime.runtime = known("other-server");
    let report = compare_identity(&reference("m"), &right);
    assert_eq!(report.reasons, vec![ComparabilityReason::RuntimeIdentityMismatch]);
    assert_eq!(report.level, ComparabilityLevel::Incomparable);
    let mut right = reference("m");
    right.observation_schema_version = 2;
    assert_eq!(compare_identity(&reference("m"), &right).level, ComparabilityLevel::Incomparable);
}

#[test]
fn missing_fingerprints_and_dimensions_lower_comparability() {
    let mut right = reference("m");
    right.context_fingerprint = None;
    right.runtime.provider = Observed::Unknown;
    let report = compare_identity(&reference("m"), &right);
    assert_eq!(report.level, ComparabilityLevel::InsufficientEvidence);
    assert_eq!(
        report.reasons,
        vec![ComparabilityReason::MissingContextFingerprint, ComparabilityReason::MissingIdentityDimension]
    );
    let mut right = reference("m");
    right.runtime.profile_id = None;
    let report = compare_identity(&reference("m"), &right);
    assert_eq!(report.level, ComparabilityLevel::PartiallyComparable);
    assert_eq!(report.identity.profile, IdentityMatch::Missing);
}

#[test]
fn identity_dimension_comparisons() {
    assert_eq!(compare_required_string("", "x"), IdentityMatch::Missing);
    assert_eq!(compare_required_string("x", "x"), IdentityMatch::Match);
    assert_eq!(compare_required_string("x", "y"), IdentityMatch::Mismatch);
    assert_eq!(compare_optional_string(Some("a"), None), IdentityMatch::Missing);
    assert_eq!(compare_optional_string(Some("a"), Some("b")), IdentityMatch::Mismatch);
    assert_eq!(compare_observed_string(&known("a"), &Observed::NotObserved), IdentityMatch::Missing);
    assert_eq!(compare_observed_string(&known("a"), &known("a")), IdentityMatch::Match);
    assert_eq!(known_string(&known("a")), Some("a".to_string()));
    assert_eq!(known_string(&Observed::Unknown), None);
}

#[test]
fn reasons_are_recorded_once_and_bounded() {
    let mut reasons = Vec::new();
    push_reason(&mut reasons, ComparabilityReason::TokenScopeMismatch);
    push_reason(&mut reasons, ComparabilityReason::TokenScopeMismatch);
    assert_eq!(reasons, vec![ComparabilityReason::TokenScopeMismatch]);
    let mut full = vec![ComparabilityReason::ModelIdentityMismatch; 16];
    push_reason(&mut full, ComparabilityReason::TokenScopeMismatch);
    assert_eq!(full.len(), 16);
}

fn diff(prefix: Vec<ChangeCategory>, envelope: Vec<EnvelopeField>) -> RequestDiff {
    let change = |category| DiffChange {
        path: "context".to_string(),
        category,
        left: None,
        right: None,
        order_changed: false,
        content_changed: true,
        presence_changed: false,
        whitespace_only: false,
        sequence_index: None,
    };
    RequestDiff {
        schema_id: "prefixity.request-diff".to_string(),
        schema_version: 1,
        left_request_fingerprint: "l".to_string(),
        right_request_fingerprint: "r".to_string(),
        prefix_diff: PrefixDiff {
            schema_id: "prefixity.prefix-diff".to_string(),
            schema_version: 1,
            left_context_fingerprint: "l".to_string(),
            right_context_fingerprint: "r".to_string(),
            identical: prefix.is_empty(),
            common_prefix: CommonPrefixMeasurement {
                structural_units: 0,
                artifact_units: 0,
                tool_units: 0,
                text: vec![],
                token_units: Observed::NotObserved,
            },
            first_divergence: None,
            changes: prefix.into_iter().map(change).collect(),
            provenance: vec![],
            cache_impact: CacheImpactAssessment::Unknown,
        },
        envelope_diff: EnvelopeDiff {
            schema_id: "prefixity.request-envelope-diff".to_string(),
            schema_version: 1,
            left_request_fingerprint: "l".to_string(),
            right_request_fingerprint: "r".to_string(),
            identical: envelope.is_empty(),
            changes: envelope
                .into_iter()
                .map(|field| EnvelopeChange {
                    path: "envelope".to_string(),
                    field,
                    left: None,
                    right: None,
                    presence_changed: false,
                })
                .collect(),
            cache_impact: CacheImpactAssessment::Unknown,
        },
        interpretation: RequestDiffInterpretation { context: DiffState::Changed, envelope: DiffState::Identical },
        cache_impact: CacheImpactAssessment::Unknown,
    }
}

#[test]
fn structural_categories_are_sorted_and_distinct() {
    let d = diff(
        vec![ChangeCategory::ToolAdded, ChangeCategory::ArtifactOrderChanged, ChangeCategory::ToolAdded],
        vec![EnvelopeField::ResponseFormat],
    );
    assert_eq!(
        structural_categories(&d),
        vec!["artifact_order_changed".to_string(), "envelope_response_format".to_string(), "tool_added".to_string()]
    );
    assert!(structural_categories(&diff(vec![], vec![])).is_empty());
    assert_eq!(change_category_name(ChangeCategory::OptionalSchemaFieldRemoved), "optional_schema_field_removed");
    assert_eq!(envelope_field_name(EnvelopeField::Model), "model");
}

fn metrics() -> LayoutStructuralMetrics {
    LayoutStructuralMetrics { inversion_count: 2, stability_aligned_leading_segments: 1, unknown_boundary_count: 0 }
}

fn evidence(left: &str, right: &str, source: EvidenceSourceClass) -> ObservationEvidence {
    ObservationEvidence {
        left_observation_id: left.to_string(),
        right_observation_id: right.to_string(),
        diagnostic_fingerprint: "d".to_string(),
        source,
        relevance: ObservationRelevance::Relevant,
        reasons: vec![],
        assessment: CacheRegressionAssessment::InsufficientEvidence,
        association: EvidenceAssociation::NoStructuralDifference,
        causality: CausalityStatus::NotEstablished,
    }
}

fn evaluation() -> CandidateEvaluation {
    CandidateEvaluation {
        schema_id: "prefixity.candidate-evaluation".to_string(),
        schema_version: 1,
        candidate: CandidateReference {
            candidate_id: "c".to_string(),
            layout_fingerprint: "f".to_string(),
            source_request_fingerprint: "s".to_string(),
            candidate_request_fingerprint: "t".to_string(),
            request_diff_fingerprint: "d".to_string(),
        },
        hypothesis: CandidateHypothesis::ReducedStabilityInversionMayIncreaseReusableLeadingContext,
        runtime_profile: None,
        structural: StructuralAssessment {
            safety: CandidateSafetyStatus::OrderingSafeUnderDeclaredConstraints,
            source_inversion_count: 1,
            candidate_inversion_count: 0,
            source_leading_segments: 1,
            candidate_leading_segments: 2,
            source_unknown_boundary_count: 0,
            candidate_unknown_boundary_count: 0,
            moved_segment_count: 2,
            changed_relative_relationships: 1,
            cache_impact: "unknown".to_string(),
        },
        capability: CapabilityGateAssessment {
            capability: CapabilityKey::PrefixReuse,
            state: CapabilityAssessment::NotProvided,
            profile: None,
        },
        observations: vec![
            evidence("a", "b", EvidenceSourceClass::SyntheticProtocolTest),
            evidence("a", "b", EvidenceSourceClass::ExperimentallyObservedRuntime),
            evidence("a", "c", EvidenceSourceClass::SyntheticProtocolTest),
        ],
        evidence_state: EvidenceState::StructuralOnly,
        claim_permissions: ClaimPermissions {
            structural_claims: ClaimPermission::Allowed,
            capability_claims: ClaimPermission::NotAllowed,
            observation_claims: ClaimPermission::AllowedIfRealObservation,
            performance_claims: ClaimPermission::NotAllowed,
            causal_claims: ClaimPermission::NotAllowed,
            application_claims: ClaimPermission::NotAllowed,
        },
        experiment_readiness: ExperimentReadiness {
            design: DesignReadiness::Blocked,
            environment: EnvironmentReadiness::Available,
            execution: ExecutionReadiness::Blocked,
        },
        next_action: NextAction::GatherCapabilityEvidence,
        blockers: vec![EvidenceBlocker::RuntimeCapabilityPending, EvidenceBlocker::NoExperimentalObservation],
        provenance: EvaluationProvenance {
            evaluator_version: "p0-l12-v1".to_string(),
            source: "test".to_string(),
            environment: EnvironmentReadiness::Available,
        },
    }
}

#[test]
fn candidate_evaluation_validation() {
    assert!(evaluation().validate().is_ok());
    let mut e = evaluation();
    e.blockers.reverse();
    assert_eq!(
        e.validate(),
        Err(BenchmarkError::Validation {
            path: "<in-memory>".to_string(),
            message: "candidate evaluation blockers are not deterministic".to_string(),
        })
    );
    let mut e = evaluation();
    e.observations.swap(0, 1);
    assert!(e.validate().is_err());
    let mut e = evaluation();
    e.claim_permissions.performance_claims = ClaimPermission::Allowed;
    assert!(e.validate().is_err());
    let mut e = evaluation();
    e.structural.cache_impact = "positive".to_string();
    assert!(e.validate().is_err());
    let mut e = evaluation();
    e.schema_version = 2;
    assert!(e.validate().is_err());
}

#[test]
fn structural_assessment_copies_the_effect() {
    let a = prefixity_controlled_benchmark::context_stability::ContextStabilityAnalysis {
        schema_id: String::new(),
        schema_version: 1,
        request_fingerprint: String::new(),
        context_fingerprint: String::new(),
        segments: vec![],
        boundaries: vec![],
        leading_region: prefixity_controlled_benchmark::context_stability::StabilityAlignedLeadingRegion {
            segment_count: 0,
            known_byte_size: Observed::Unknown,
            limit: prefixity_controlled_benchmark::context_stability::LeadingRegionLimit::Empty,
        },
        summary: prefixity_controlled_benchmark::context_stability::StabilitySummary {
            immutable_segments: 0,
            stable_segments: 0,
            append_only_segments: 0,
            volatile_segments: 0,
            unknown_segments: 0,
            known_stable_bytes: 0,
            known_append_only_bytes: 0,
            known_volatile_bytes: 0,
            known_immutable_bytes: 0,
            known_bytes_total: 0,
            unknown_bytes: Observed::Unknown,
            unknown_size_segments: 0,
            token_units: Observed::Unknown,
        },
        findings: vec![],
        provenance: vec![],
    };
    let candidate = LayoutCandidate {
        candidate_id: "c".to_string(),
        layout_fingerprint: "f".to_string(),
        ordered_segments: vec![],
        transformations: vec![],
        resulting_analysis: a,
        safety: CandidateSafetyStatus::UnknownNotProvable,
        reasons: vec![],
        structural_effect: StructuralLayoutEffect {
            source: metrics(),
            candidate: LayoutStructuralMetrics { inversion_count: 0, stability_aligned_leading_segments: 3, unknown_boundary_count: 1 },
            moved_segment_count: 2,
            changed_relative_relationships: 5,
        },
        request_diff: diff(vec![], vec![]),
    };
    let s = structural_assessment(&candidate);
    assert_eq!(s.safety, CandidateSafetyStatus::UnknownNotProvable);
    assert_eq!(s.source_inversion_count, 2);
    assert_eq!(s.candidate_leading_segments, 3);
    assert_eq!(s.candidate_unknown_boundary_count, 1);
    assert_eq!(s.changed_relative_relationships, 5);
    assert_eq!(s.cache_impact, "unknown");
}

#[test]
fn environment_blockers_are_bounded() {
    assert!(EnvironmentState::available().validate().is_ok());
    let many = EnvironmentState::blocked(vec![EvidenceBlocker::EnvironmentUnavailable; 17]);
    assert!(many.validate().is_err());
    assert_eq!(source_rank(EvidenceSourceClass::ExperimentallyObservedRuntime), 2);
}

fn signals(cached: MetricDirection) -> ComparisonSignals {
    ComparisonSignals {
        left_request_fingerprint: Some("l".to_string()),
        right_request_fingerprint: Some("r".to_string()),
        level: ComparabilityLevel::DirectlyComparable,
        transmitted_input_tokens: MetricDirection::Unchanged,
        provider_cached_tokens: cached,
        fresh_prefill_tokens: MetricDirection::Unchanged,
        reconstructed_context_tokens: MetricDirection::Unavailable,
        output_tokens: MetricDirection::Unchanged,
        prefill_duration_ms: MetricDirection::Unavailable,
        time_to_first_token_ms: MetricDirection::Unavailable,
        generation_duration_ms: MetricDirection::Unavailable,
        wall_duration_ms: MetricDirection::Unavailable,
        ram_bytes: MetricDirection::Unavailable,
        vram_bytes: MetricDirection::Unavailable,
        kv_cache_bytes: MetricDirection::Unavailable,
    }
}

#[test]
fn alignment_compares_request_fingerprints() {
    let d = diff(vec![], vec![]);
    assert_eq!(request_observation_alignment(&d, &signals(MetricDirection::Unchanged)), RequestObservationAlignment::Aligned);
    let mut s = signals(MetricDirection::Unchanged);
    s.right_request_fingerprint = Some("other".to_string());
    assert_eq!(request_observation_alignment(&d, &s), RequestObservationAlignment::Mismatched);
    s.left_request_fingerprint = None;
    assert_eq!(request_observation_alignment(&d, &s), RequestObservationAlignment::Unavailable);
}

#[test]
fn cache_assessment_rules() {
    let aligned = RequestObservationAlignment::Aligned;
    assert_eq!(assess_cache(&signals(MetricDirection::Increased), aligned), CacheRegressionAssessment::ObservedReuseIncrease);
    assert_eq!(assess_cache(&signals(MetricDirection::Decreased), aligned), CacheRegressionAssessment::ObservedReuseDecrease);
    assert_eq!(assess_cache(&signals(MetricDirection::Unchanged), aligned), CacheRegressionAssessment::NoObservedCacheReuseChange);
    assert_eq!(assess_cache(&signals(MetricDirection::Unavailable), aligned), CacheRegressionAssessment::InsufficientEvidence);
    assert_eq!(
        assess_cache(&signals(MetricDirection::Increased), RequestObservationAlignment::Mismatched),
        CacheRegressionAssessment::InsufficientEvidence
    );
    let mut s = signals(MetricDirection::Increased);
    s.wall_duration_ms = MetricDirection::Decreased;
    assert_eq!(assess_cache(&s, aligned), CacheRegressionAssessment::MixedObservations);
    s.level = ComparabilityLevel::Incomparable;
    assert_eq!(assess_cache(&s, aligned), CacheRegressionAssessment::Incomparable);
}

#[test]
fn evidence_statement_summarises_the_diagnostic() {
    let s = signals(MetricDirection::Increased);
    assert_eq!(
        metric_directions(&s),
        vec![
            (DiagnosticMetric::TransmittedInputTokens, MetricDirection::Unchanged),
            (DiagnosticMetric::ProviderCachedTokens, MetricDirection::Increased),
            (DiagnosticMetric::FreshPrefillTokens, MetricDirection::Unchanged),
            (DiagnosticMetric::OutputTokens, MetricDirection::Unchanged),
        ]
    );
    let d = diff(vec![ChangeCategory::ArtifactOrderChanged], vec![]);
    let aligned = RequestObservationAlignment::Aligned;
    let e = evidence_statement(&d, &s, CacheRegressionAssessment::ObservedReuseIncrease, aligned);
    assert_eq!(e.association, EvidenceAssociation::StructuralDifferenceWithObservedReuseSignal);
    assert_eq!(e.causality, CausalityStatus::NotEstablished);
    assert_eq!(
        e.statement,
        "structural_changes=artifact_order_changed;comparability=directly_comparable;assessment=observed_reuse_increase;\
observed_directions=transmitted_input_tokens=unchanged,provider_cached_tokens=increased,fresh_prefill_tokens=unchanged,\
output_tokens=unchanged;alignment=aligned;association=structural_difference_with_observed_reuse_signal;\
causality=not_established"
    );
    let none = evidence_statement(&diff(vec![], vec![]), &signals(MetricDirection::Unavailable),
        CacheRegressionAssessment::InsufficientEvidence, RequestObservationAlignment::Unavailable);
    assert_eq!(none.association, EvidenceAssociation::NoStructuralDifference);
    assert!(none.statement.starts_with("structural_changes=none;"));
    let unaligned = evidence_statement(&d, &s, CacheRegressionAssessment::InsufficientEvidence,
        RequestObservationAlignment::Mismatched);
    assert_eq!(unaligned.association, EvidenceAssociation::StructuralDifferenceWithoutComparableObservation);
}

fn identified_candidate() -> LayoutCandidate {
    let mut d = diff(vec![], vec![]);
    d.right_request_fingerprint = "t".to_string();
    LayoutCandidate {
        candidate_id: "c".to_string(),
        layout_fingerprint: "f".to_string(),
        ordered_segments: vec![],
        transformations: vec![],
        resulting_analysis: prefixity_controlled_benchmark::context_stability::ContextStabilityAnalysis {
            schema_id: String::new(),
            schema_version: 1,
            request_fingerprint: String::new(),
            context_fingerprint: String::new(),
            segments: vec![],
            boundaries: vec![],
            leading_region: prefixity_controlled_benchmark::context_stability::StabilityAlignedLeadingRegion {
                segment_count: 0,
                known_byte_size: Observed::Unknown,
                limit: prefixity_controlled_benchmark::context_stability::LeadingRegionLimit::Empty,
            },
            summary: prefixity_controlled_benchmark::context_stability::StabilitySummary {
                immutable_segments: 0,
                stable_segments: 0,
                append_only_segments: 0,
                volatile_segments: 0,
                unknown_segments: 0,
                known_stable_bytes: 0,
                known_append_only_bytes: 0,
                known_volatile_bytes: 0,
                known_immutable_bytes: 0,
                known_bytes_total: 0,
                unknown_bytes: Observed::Unknown,
                unknown_size_segments: 0,
                token_units: Observed::Unknown,
            },
            findings: vec![],
            provenance: vec![],
        },
        safety: CandidateSafetyStatus::OrderingSafeUnderDeclaredConstraints,
        reasons: vec![],
        structural_effect: StructuralLayoutEffect {
            source: metrics(),
            candidate: metrics(),
            moved_segment_count: 2,
            changed_relative_relationships: 1,
        },
        request_diff: d,
    }
}

#[test]
fn evaluation_identity_names_the_safe_candidate() {
    let candidate = identified_candidate();
    assert_eq!(validate_evaluation_identity(&evaluation(), &candidate, "s", "d"), Ok(()));
    let mismatch = Err(BenchmarkError::Materialization {
        code: MaterializationErrorCode::EvaluationMismatch,
        message: "evaluation does not identify the supplied safe candidate".to_string(),
    });
    assert_eq!(validate_evaluation_identity(&evaluation(), &candidate, "other", "d"), mismatch);
    assert_eq!(validate_evaluation_identity(&evaluation(), &candidate, "s", "other"), mismatch);
    let mut e = evaluation();
    e.structural.safety = CandidateSafetyStatus::Rejected;
    assert_eq!(validate_evaluation_identity(&e, &candidate, "s", "d"), mismatch);
    let mut e = evaluation();
    e.blockers.insert(0, EvidenceBlocker::CandidateSafetyNotEstablished);
    assert_eq!(
        validate_evaluation_identity(&e, &candidate, "s", "d"),
        Err(BenchmarkError::Materialization {
            code: MaterializationErrorCode::CandidateSafetyRejected,
            message: "evaluation recorded a structural safety blocker".to_string(),
        })
    );
    let mut e = evaluation();
    e.schema_version = 2;
    match validate_evaluation_identity(&e, &candidate, "s", "d") {
        Err(BenchmarkError::Materialization { code, message }) => {
            assert_eq!(code, MaterializationErrorCode::EvaluationMismatch);
            assert_eq!(
                message,
                "evaluation is invalid: controlled benchmark validation failed at <in-memory>: \
                 unsupported candidate evaluation schema"
            );
        }
        other => panic!("unexpected {other:?}"),
    }
}

fn scoped(count: u64) -> Observed<TokenCount> {
    Observed::Known(TokenCount {
        count,
        provider: known("fixture-provider"),
        model: known("fixture-model"),
        tokenizer: known("fixture-tokenizer"),
    })
}

#[test]
fn metric_direction_follows_the_delta() {
    assert_eq!(direction(Some(3)), MetricDirection::Increased);
    assert_eq!(direction(Some(-3)), MetricDirection::Decreased);
    assert_eq!(direction(Some(0)), MetricDirection::Unchanged);
    assert_eq!(direction(None), MetricDirection::Unavailable);
    assert_eq!(numeric_values(20, 60), (Some(40), Some(20)));
    assert_eq!(numeric_values(60, 20), (Some(-40), Some(60)));
    assert_eq!(numeric_values(0, 5), (Some(5), None));
    assert_eq!(numeric_values(0, u64::MAX), (None, None));
    assert_eq!(numeric_values(u64::MAX, 0), (None, Some(u64::MAX)));
    assert_eq!(numeric_values(1u64 << 63, 0), (Some(i64::MIN), Some(1u64 << 63)));
}

#[test]
fn token_deltas_need_known_counts_in_compatible_scopes() {
    let d = token_delta(&scoped(20), &scoped(60));
    assert_eq!(d.delta, Some(40));
    assert_eq!(d.relative_change_denominator, Some(20));
    assert_eq!(d.direction, MetricDirection::Increased);
    assert_eq!(d.left, scoped(20));
    let missing = token_delta(&Observed::NotObserved, &scoped(60));
    assert_eq!(missing.delta, None);
    assert_eq!(missing.direction, MetricDirection::Unavailable);
    let mut other = scoped(60);
    if let Observed::Known(t) = &mut other {
        t.tokenizer = known("other-tokenizer");
    }
    let incompatible = token_delta(&scoped(20), &other);
    assert_eq!(incompatible.delta, None);
    assert_eq!(incompatible.relative_change_denominator, None);
    assert_eq!(incompatible.direction, MetricDirection::Unavailable);
    let unknown_scope = TokenCount { count: 1, provider: Observed::Unknown, model: Observed::Unknown, tokenizer: Observed::Unknown };
    if let Observed::Known(t) = scoped(2) {
        assert!(token_scopes_compatible(&unknown_scope, &t));
    }
    assert!(observed_scope_matches(&Observed::Unknown, &known("a")));
    assert!(!observed_scope_matches(&known("b"), &known("a")));
}

#[test]
fn explicit_zero_is_a_value_and_missing_telemetry_is_unavailable() {
    let zero = numeric_delta(&Observed::Known(0), &Observed::Known(0));
    assert_eq!(zero.delta, Some(0));
    assert_eq!(zero.direction, MetricDirection::Unchanged);
    assert_eq!(zero.relative_change_denominator, None);
    let missing = numeric_delta(&Observed::Known(5), &Observed::Unknown);
    assert_eq!(missing.delta, None);
    assert_eq!(missing.direction, MetricDirection::Unavailable);
    assert_eq!(missing.left, Observed::Known(5));
    let down = numeric_delta(&Observed::Known(900), &Observed::Known(300));
    assert_eq!(down.delta, Some(-600));
    assert_eq!(down.direction, MetricDirection::Decreased);
}

fn observation_metrics(cached: u64) -> ObservationMetrics {
    ObservationMetrics {
        transmitted_input_tokens: scoped(100),
        provider_cached_tokens: scoped(cached),
        fresh_prefill_tokens: scoped(100 - cached),
        reconstructed_context_tokens: Observed::NotObserved,
        output_tokens: Observed::Unknown,
        prefill_duration_ms: Observed::Known(50),
        time_to_first_token_ms: Observed::NotObserved,
        generation_duration_ms: Observed::NotObserved,
        wall_duration_ms: Observed::NotObserved,
        ram_bytes: Observed::NotObserved,
        vram_bytes: Observed::NotObserved,
        kv_cache_bytes: Observed::NotObserved,
    }
}

#[test]
fn comparison_signals_of_two_observations() {
    let left = reference("fixture-model");
    let right = reference("fixture-model");
    let s = comparison_signals(&observation_metrics(20), &observation_metrics(60), &left, &right);
    assert_eq!(s.level, compare_identity(&left, &right).level);
    assert_eq!(s.left_request_fingerprint, left.request_fingerprint);
    assert_eq!(s.transmitted_input_tokens, MetricDirection::Unchanged);
    assert_eq!(s.provider_cached_tokens, MetricDirection::Increased);
    assert_eq!(s.fresh_prefill_tokens, MetricDirection::Decreased);
    assert_eq!(s.reconstructed_context_tokens, MetricDirection::Unavailable);
    assert_eq!(s.output_tokens, MetricDirection::Unavailable);
    assert_eq!(s.prefill_duration_ms, MetricDirection::Unchanged);
    assert_eq!(s.kv_cache_bytes, MetricDirection::Unavailable);
    let other = reference("other-model");
    let s = comparison_signals(&observation_metrics(20), &observation_metrics(60), &left, &other);
    assert_eq!(s.level, ComparabilityLevel::Incomparable);
}

fn reference_of_candidate() -> CandidateReference {
    evaluation().candidate
}

fn safe_structure() -> StructuralAssessment {
    evaluation().structural
}

fn profile_reference() -> Option<RuntimeProfileReference> {
    Some(RuntimeProfileReference { profile_id: "profile".to_string(), identity_fingerprint: "id".to_string() })
}

fn gate(state: Option<CapabilityState>) -> CapabilityGateAssessment {
    capability_assessment(state, profile_reference())
}

fn observed(source: EvidenceSourceClass, assessment: CacheRegressionAssessment) -> ObservationEvidence {
    let mut o = evidence("left", "right", source);
    o.assessment = assessment;
    o
}

fn assemble(
    state: Option<CapabilityState>,
    observations: Vec<ObservationEvidence>,
    environment: &EnvironmentState,
) -> CandidateEvaluation {
    let profile = if state.is_some() { profile_reference() } else { None };
    assemble_evaluation(reference_of_candidate(), profile, safe_structure(), gate(state), observations, environment)
        .unwrap()
}

#[test]
fn capability_gate_follows_the_prefix_reuse_cell() {
    let g = capability_assessment(None, profile_reference());
    assert_eq!(g.state, CapabilityAssessment::NotProvided);
    assert_eq!(g.profile, None);
    assert_eq!(g.capability, CapabilityKey::PrefixReuse);
    let g = capability_assessment(Some(CapabilityState::UnsupportedObserved), profile_reference());
    assert_eq!(g.state, CapabilityAssessment::UnsupportedObserved);
    assert_eq!(g.profile, profile_reference());
}

#[test]
fn candidate_alone_is_structural_only_and_not_executable() {
    let e = assemble(None, vec![], &EnvironmentState::available());
    assert_eq!(e.evidence_state, EvidenceState::StructuralOnly);
    assert_eq!(e.experiment_readiness.design, DesignReadiness::Blocked);
    assert_eq!(e.experiment_readiness.execution, ExecutionReadiness::Blocked);
    assert_eq!(e.next_action, NextAction::GatherCapabilityEvidence);
    assert_eq!(e.claim_permissions.performance_claims, ClaimPermission::NotAllowed);
    assert_eq!(e.claim_permissions.capability_claims, ClaimPermission::NotAllowed);
    assert_eq!(
        e.blockers,
        vec![EvidenceBlocker::RuntimeCapabilityPending, EvidenceBlocker::NoExperimentalObservation]
    );
    assert!(e.validate().is_ok());
}

#[test]
fn documented_capability_is_ready_for_experiment_but_not_support() {
    let e = assemble(Some(CapabilityState::SupportedDocumented), vec![], &EnvironmentState::available());
    assert_eq!(e.evidence_state, EvidenceState::ReadyForExperiment);
    assert_eq!(e.experiment_readiness.design, DesignReadiness::Ready);
    assert_eq!(e.experiment_readiness.execution, ExecutionReadiness::Ready);
    assert_eq!(e.next_action, NextAction::ControlledExperiment);
    assert_eq!(e.blockers, vec![EvidenceBlocker::NoExperimentalObservation]);
    assert_eq!(e.claim_permissions.capability_claims, ClaimPermission::AllowedIfEvidenced);
}

#[test]
fn unknown_and_unsupported_capabilities_are_distinct_blockers() {
    let e = assemble(Some(CapabilityState::UnknownUnverified), vec![], &EnvironmentState::available());
    assert_eq!(e.evidence_state, EvidenceState::Blocked);
    assert!(e.blockers.contains(&EvidenceBlocker::RuntimeCapabilityPending));
    assert_eq!(e.next_action, NextAction::GatherCapabilityEvidence);
    let e = assemble(Some(CapabilityState::UnsupportedDocumented), vec![], &EnvironmentState::available());
    assert_eq!(e.evidence_state, EvidenceState::Blocked);
    assert!(e.blockers.contains(&EvidenceBlocker::RuntimeCapabilityUnsupported));
    assert_eq!(e.next_action, NextAction::RejectCandidate);
}

#[test]
fn synthetic_observation_cannot_promote_real_support() {
    let obs = vec![observed(EvidenceSourceClass::SyntheticProtocolTest, CacheRegressionAssessment::ObservedReuseIncrease)];
    let e = assemble(Some(CapabilityState::SupportedDocumented), obs, &EnvironmentState::available());
    assert_ne!(e.evidence_state, EvidenceState::ObservationallySupported);
    assert!(e.blockers.contains(&EvidenceBlocker::SyntheticOnlyEvidence));
    assert!(e.blockers.contains(&EvidenceBlocker::NoExperimentalObservation));
    let obs = vec![observed(EvidenceSourceClass::DocumentedCapability, CacheRegressionAssessment::ObservedReuseIncrease)];
    let e = assemble(Some(CapabilityState::SupportedDocumented), obs, &EnvironmentState::available());
    assert!(e.blockers.contains(&EvidenceBlocker::DocumentedOnlyEvidence));
}

#[test]
fn experimental_positive_evidence_is_observational_only() {
    let obs = vec![observed(EvidenceSourceClass::ExperimentallyObservedRuntime, CacheRegressionAssessment::ObservedReuseIncrease)];
    let e = assemble(Some(CapabilityState::SupportedObserved), obs, &EnvironmentState::available());
    assert_eq!(e.evidence_state, EvidenceState::ObservationallySupported);
    assert_eq!(e.next_action, NextAction::NoAction);
    assert!(e.blockers.is_empty());
    assert_eq!(e.claim_permissions.causal_claims, ClaimPermission::NotAllowed);
}

#[test]
fn mixed_and_contrary_evidence_remain_distinct() {
    let obs = vec![observed(EvidenceSourceClass::ExperimentallyObservedRuntime, CacheRegressionAssessment::MixedObservations)];
    let e = assemble(Some(CapabilityState::SupportedDocumented), obs, &EnvironmentState::available());
    assert_eq!(e.evidence_state, EvidenceState::MixedEvidence);
    assert_eq!(e.next_action, NextAction::GatherRuntimeObservation);
    assert!(e.blockers.contains(&EvidenceBlocker::MixedObservations));
    let obs = vec![observed(EvidenceSourceClass::ExperimentallyObservedRuntime, CacheRegressionAssessment::ObservedReuseDecrease)];
    let e = assemble(Some(CapabilityState::SupportedDocumented), obs, &EnvironmentState::available());
    assert_eq!(e.evidence_state, EvidenceState::UnsupportedByCurrentEvidence);
    assert!(e.blockers.contains(&EvidenceBlocker::NoObservedCacheBenefit));
    let obs = vec![
        observed(EvidenceSourceClass::ExperimentallyObservedRuntime, CacheRegressionAssessment::ObservedReuseIncrease),
        observed(EvidenceSourceClass::ExperimentallyObservedRuntime, CacheRegressionAssessment::NoObservedCacheReuseChange),
    ];
    let e = assemble(Some(CapabilityState::SupportedDocumented), obs, &EnvironmentState::available());
    assert_eq!(e.evidence_state, EvidenceState::MixedEvidence);
    assert!(!e.blockers.contains(&EvidenceBlocker::NoObservedCacheBenefit));
}

#[test]
fn rejected_observations_are_recorded_as_identity_mismatches() {
    let mut o = observed(EvidenceSourceClass::ExperimentallyObservedRuntime, CacheRegressionAssessment::ObservedReuseIncrease);
    o.relevance = ObservationRelevance::Rejected;
    o.reasons = vec![ObservationRelevanceReason::InsufficientObservationFields];
    let e = assemble(Some(CapabilityState::SupportedDocumented), vec![o], &EnvironmentState::available());
    assert_eq!(e.evidence_state, EvidenceState::ReadyForExperiment);
    assert!(e.blockers.contains(&EvidenceBlocker::ObservationIdentityMismatch));
    assert!(e.blockers.contains(&EvidenceBlocker::InsufficientObservationFields));
    assert!(e.blockers.contains(&EvidenceBlocker::NoExperimentalObservation));
}

#[test]
fn unsafe_candidate_cannot_become_experiment_ready() {
    let mut structure = safe_structure();
    structure.safety = CandidateSafetyStatus::Rejected;
    let e = assemble_evaluation(
        reference_of_candidate(),
        profile_reference(),
        structure,
        gate(Some(CapabilityState::SupportedDocumented)),
        vec![],
        &EnvironmentState::available(),
    )
    .unwrap();
    assert_eq!(e.evidence_state, EvidenceState::Blocked);
    assert_eq!(e.next_action, NextAction::RejectCandidate);
    assert!(e.blockers.contains(&EvidenceBlocker::CandidateSafetyNotEstablished));
    assert_eq!(e.claim_permissions.structural_claims, ClaimPermission::NotAllowed);
}

#[test]
fn environment_blocked_is_separate_from_design_readiness() {
    let environment = EnvironmentState::blocked(vec![EvidenceBlocker::EnvironmentUnavailable]);
    let e = assemble(Some(CapabilityState::SupportedDocumented), vec![], &environment);
    assert_eq!(e.evidence_state, EvidenceState::ReadyForExperiment);
    assert_eq!(e.experiment_readiness.design, DesignReadiness::Ready);
    assert_eq!(e.experiment_readiness.environment, EnvironmentReadiness::Blocked);
    assert_eq!(e.experiment_readiness.execution, ExecutionReadiness::Blocked);
    assert_eq!(e.next_action, NextAction::ResolveEnvironment);
    assert_eq!(
        e.blockers,
        vec![EvidenceBlocker::NoExperimentalObservation, EvidenceBlocker::EnvironmentUnavailable]
    );
}

#[test]
fn repeated_evaluation_is_deterministic() {
    let first = assemble(Some(CapabilityState::SupportedDocumented), vec![], &EnvironmentState::available());
    let second = assemble(Some(CapabilityState::SupportedDocumented), vec![], &EnvironmentState::available());
    assert_eq!(first, second);
}

#[test]
fn evaluation_inputs_out_of_bounds_are_refused() {
    let obs = vec![observed(EvidenceSourceClass::ExperimentallyObservedRuntime, CacheRegressionAssessment::ObservedReuseIncrease); 17];
    let r = assemble_evaluation(
        reference_of_candidate(),
        profile_reference(),
        safe_structure(),
        gate(Some(CapabilityState::SupportedDocumented)),
        obs,
        &EnvironmentState::available(),
    );
    assert_eq!(
        r,
        Err(BenchmarkError::Validation {
            path: "<in-memory>".to_string(),
            message: "candidate evaluation observations exceed their bound".to_string(),
        })
    );
    let mut structure = safe_structure();
    structure.cache_impact = "positive".to_string();
    let r = assemble_evaluation(
        reference_of_candidate(),
        profile_reference(),
        structure,
        gate(Some(CapabilityState::SupportedDocumented)),
        vec![],
        &EnvironmentState::available(),
    );
    assert!(r.is_err());
}

#[test]
fn observations_sort_stably() {
    let mut a = evidence("b", "x", EvidenceSourceClass::SyntheticProtocolTest);
    a.diagnostic_fingerprint = "first".to_string();
    let mut b = evidence("b", "x", EvidenceSourceClass::SyntheticProtocolTest);
    b.diagnostic_fingerprint = "second".to_string();
    let c = evidence("a", "z", EvidenceSourceClass::UnknownUnverified);
    let d = evidence("b", "x", EvidenceSourceClass::DocumentedCapability);
    let sorted = sort_observations(vec![a.clone(), d.clone(), b.clone(), c.clone()]);
    assert_eq!(sorted, vec![c, a, b, d]);
}

#[test]
fn blockers_come_in_declaration_order_once_each() {
    let environment = EnvironmentState::blocked(vec![
        EvidenceBlocker::NoExperimentalObservation,
        EvidenceBlocker::RuntimeIdentityMismatch,
        EvidenceBlocker::RuntimeIdentityMismatch,
    ]);
    let b = evaluation_blockers(
        CandidateSafetyStatus::Rejected,
        CapabilityAssessment::NotProvided,
        &vec![],
        &environment,
    );
    assert_eq!(
        b,
        vec![
            EvidenceBlocker::CandidateSafetyNotEstablished,
            EvidenceBlocker::RuntimeCapabilityPending,
            EvidenceBlocker::RuntimeIdentityMismatch,
            EvidenceBlocker::NoExperimentalObservation,
            EvidenceBlocker::EnvironmentUnavailable,
        ]
    );
}

fn profile_identity() -> prefixity_controlled_benchmark::conformance::RuntimeIdentity {
    prefixity_controlled_benchmark::conformance::RuntimeIdentity {
        backend: "llama.cpp".to_string(),
        provider: known("local"),
        model: known("fixture-model"),
        protocol: known("openai-chat"),
        runtime: known("llama-server"),
        runtime_version: Observed::Unknown,
    }
}

#[test]
fn identity_reasons_compare_profile_and_observation() {
    let observation = reference("fixture-model").runtime;
    assert_eq!(identity_reasons("profile", &profile_identity(), &observation), vec![]);
    let other = reference("other-model").runtime;
    assert_eq!(
        identity_reasons("profile", &profile_identity(), &other),
        vec![ObservationRelevanceReason::ModelIdentityMismatch]
    );
    assert_eq!(
        identity_reasons("another-profile", &profile_identity(), &observation),
        vec![ObservationRelevanceReason::ProfileIdentityMismatch]
    );
    let mut missing = observation.clone();
    missing.protocol = Observed::NotObserved;
    missing.backend = "vllm".to_string();
    assert_eq!(
        identity_reasons("profile", &profile_identity(), &missing),
        vec![
            ObservationRelevanceReason::RuntimeIdentityMismatch,
            ObservationRelevanceReason::InsufficientObservationFields,
        ]
    );
}

#[test]
fn observation_comparison_keeps_references_and_metric_deltas() {
    let left = reference("fixture-model");
    let right = reference("other-model");
    let c = compare_observations_with_references(&observation_metrics(20), &observation_metrics(60), left.clone(), right.clone());
    assert_eq!(c.schema_id, "prefixity.observation-comparison");
    assert_eq!(c.schema_version, 1);
    assert_eq!(c.left, left);
    assert_eq!(c.right, right);
    assert_eq!(c.comparability, compare_identity(&left, &right));
    assert_eq!(c.comparability.level, ComparabilityLevel::Incomparable);
    assert_eq!(c.token_deltas.provider_cached_tokens.delta, Some(40));
    assert_eq!(c.token_deltas.provider_cached_tokens.relative_change_denominator, Some(20));
    assert_eq!(c.token_deltas.fresh_prefill_tokens.direction, MetricDirection::Decreased);
    assert_eq!(c.token_deltas.output_tokens.delta, None);
    assert_eq!(c.timing_deltas.prefill_duration_ms.delta, Some(0));
    assert_eq!(c.resource_deltas.kv_cache_bytes.direction, MetricDirection::Unavailable);
}

#[test]
fn diagnosis_combines_diff_and_comparison() {
    let mut left = reference("fixture-model");
    left.request_fingerprint = Some("l".to_string());
    let mut right = reference("fixture-model");
    right.request_fingerprint = Some("r".to_string());
    let d = diff(vec![ChangeCategory::ArtifactOrderChanged], vec![]);
    let signals = comparison_signals(&observation_metrics(20), &observation_metrics(60), &left, &right);
    let diagnostic = diagnose_cache(d.clone(), &observation_metrics(20), &observation_metrics(60), left.clone(), right.clone());
    assert_eq!(diagnostic.schema_id, "prefixity.cache-diagnostic");
    assert_eq!(diagnostic.request_diff, d);
    assert_eq!(diagnostic.request_observation_alignment, RequestObservationAlignment::Aligned);
    assert_eq!(diagnostic.request_observation_alignment, request_observation_alignment(&d, &signals));
    let assessment = assess_cache(&signals, RequestObservationAlignment::Aligned);
    assert_eq!(diagnostic.assessment, assessment);
    assert_eq!(diagnostic.evidence, evidence_statement(&d, &signals, assessment, RequestObservationAlignment::Aligned));
    assert_eq!(diagnostic.evidence.causality, CausalityStatus::NotEstablished);
    assert_eq!(diagnostic.observation_comparison.left, left);
}
