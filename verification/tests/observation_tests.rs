use prefixity_controlled_benchmark::conformance::{ConformanceRequest, RequestContext, RequestEnvelope};
use prefixity_controlled_benchmark::context_stability::Observed;
use prefixity_controlled_benchmark::diff::request_diff;
use prefixity_controlled_benchmark::observation_diagnostics::{
    assess_cache, compare_observations_with_references, comparison_signals, diagnose_cache,
    CacheRegressionAssessment, CausalityStatus, ComparabilityLevel, EvidenceSourceClass, MetricDirection,
    ObservationComparison, ObservationMetrics, ObservationReference, RequestObservationAlignment,
    RuntimeIdentityReference, TokenCount,
};

fn scoped(count: u64) -> TokenCount {
    TokenCount {
        count,
        provider: Observed::Known("fixture-provider".to_string()),
        model: Observed::Known("fixture-model".to_string()),
        tokenizer: Observed::Known("fixture-tokenizer".to_string()),
    }
}

/// An observation's metrics with nothing observed.
fn metrics() -> ObservationMetrics {
    ObservationMetrics {
        transmitted_input_tokens: Observed::NotObserved,
        provider_cached_tokens: Observed::NotObserved,
        fresh_prefill_tokens: Observed::NotObserved,
        reconstructed_context_tokens: Observed::NotObserved,
        output_tokens: Observed::NotObserved,
        prefill_duration_ms: Observed::NotObserved,
        time_to_first_token_ms: Observed::NotObserved,
        generation_duration_ms: Observed::NotObserved,
        wall_duration_ms: Observed::NotObserved,
        ram_bytes: Observed::NotObserved,
        vram_bytes: Observed::NotObserved,
        kv_cache_bytes: Observed::NotObserved,
    }
}

/// The reference of an observation known only by itself: no profile, no
/// experiment, and the request and context identities it observed.
fn reference(id: &str, model: &str) -> ObservationReference {
    ObservationReference {
        observation_schema_version: 1,
        observation_id: id.to_string(),
        experiment_id: None,
        case_id: None,
        request_fingerprint: Some("request".to_string()),
        context_fingerprint: Some("context".to_string()),
        envelope_fingerprint: None,
        runtime: RuntimeIdentityReference {
            backend: "fixture-backend".to_string(),
            provider: Observed::Known("fixture-provider".to_string()),
            model: Observed::Known(model.to_string()),
            protocol: Observed::Known("fixture-protocol".to_string()),
            runtime: Observed::Known("fixture-runtime".to_string()),
            runtime_version: Observed::Known("1".to_string()),
            profile_id: None,
            identity_fingerprint: "identity".to_string(),
        },
        source: EvidenceSourceClass::UnknownUnverified,
    }
}

fn direct_pair() -> (ObservationMetrics, ObservationMetrics) {
    let mut left = metrics();
    let mut right = metrics();
    left.transmitted_input_tokens = Observed::Known(scoped(100));
    right.transmitted_input_tokens = Observed::Known(scoped(100));
    left.provider_cached_tokens = Observed::Known(scoped(20));
    right.provider_cached_tokens = Observed::Known(scoped(60));
    left.fresh_prefill_tokens = Observed::Known(scoped(80));
    right.fresh_prefill_tokens = Observed::Known(scoped(40));
    (left, right)
}

fn compare(left: &ObservationMetrics, right: &ObservationMetrics) -> ObservationComparison {
    compare_observations_with_references(left, right, reference("left", "fixture-model"), reference("right", "fixture-model"))
}

fn assess(left: &ObservationMetrics, right: &ObservationMetrics, right_model: &str) -> CacheRegressionAssessment {
    let signals =
        comparison_signals(left, right, &reference("left", "fixture-model"), &reference("right", right_model));
    assess_cache(&signals, RequestObservationAlignment::Aligned)
}

fn request_pair(envelope_change: bool) -> (ConformanceRequest, ConformanceRequest) {
    let make = || ConformanceRequest {
        context: RequestContext {
            system_instruction: "system".to_string(),
            artifacts: Vec::new(),
            user_content: "user".to_string(),
            tools: Vec::new(),
        },
        envelope: RequestEnvelope { model: "model-a".to_string(), reasoning: None, response_format: None },
    };
    let left = make();
    let mut right = make();
    if envelope_change {
        right.envelope.model = "model-b".to_string();
    } else {
        right.context.user_content.push_str(" changed");
    }
    (left, right)
}

#[test]
fn exact_repeat_reuse_increase_is_directional() {
    let (left, right) = direct_pair();
    let comparison = compare(&left, &right);
    assert_eq!(comparison.comparability.level, ComparabilityLevel::PartiallyComparable);
    assert_eq!(comparison.token_deltas.provider_cached_tokens.delta, Some(40));
    assert_eq!(comparison.token_deltas.provider_cached_tokens.direction, MetricDirection::Increased);
}

#[test]
fn late_partial_reuse_is_not_flattened_into_one_metric() {
    let (mut left, mut right) = direct_pair();
    left.provider_cached_tokens = Observed::Known(scoped(0));
    right.provider_cached_tokens = Observed::Known(scoped(25));
    let comparison = compare(&left, &right);
    assert_eq!(comparison.token_deltas.provider_cached_tokens.delta, Some(25));
    assert_eq!(comparison.token_deltas.fresh_prefill_tokens.delta, Some(-40));
}

#[test]
fn apparent_decrease_remains_a_directional_observation() {
    let (mut left, mut right) = direct_pair();
    left.provider_cached_tokens = Observed::Known(scoped(70));
    right.provider_cached_tokens = Observed::Known(scoped(30));
    let comparison = compare(&left, &right);
    assert_eq!(comparison.token_deltas.provider_cached_tokens.direction, MetricDirection::Decreased);
}

#[test]
fn fresh_prefill_increase_is_independent_from_reuse() {
    let (mut left, mut right) = direct_pair();
    left.fresh_prefill_tokens = Observed::Known(scoped(20));
    right.fresh_prefill_tokens = Observed::Known(scoped(70));
    let comparison = compare(&left, &right);
    assert_eq!(comparison.token_deltas.fresh_prefill_tokens.direction, MetricDirection::Increased);
}

#[test]
fn timing_only_has_no_cache_reuse_assessment() {
    let mut left = metrics();
    let mut right = metrics();
    left.wall_duration_ms = Observed::Known(10);
    right.wall_duration_ms = Observed::Known(20);
    assert_eq!(assess(&left, &right, "fixture-model"), CacheRegressionAssessment::InsufficientEvidence);
    let comparison = compare(&left, &right);
    // The relative change (1.0) is the delta over its denominator.
    assert_eq!(comparison.timing_deltas.wall_duration_ms.delta, Some(10));
    assert_eq!(comparison.timing_deltas.wall_duration_ms.relative_change_denominator, Some(10));
}

#[test]
fn missing_telemetry_stays_unavailable() {
    let (left, right) = direct_pair();
    let comparison = compare(&left, &right);
    assert_eq!(comparison.timing_deltas.wall_duration_ms.direction, MetricDirection::Unavailable);
    assert_eq!(comparison.token_deltas.output_tokens.left, Observed::NotObserved);
}

#[test]
fn explicit_zero_is_not_missing() {
    let (mut left, mut right) = direct_pair();
    left.provider_cached_tokens = Observed::Known(scoped(0));
    right.provider_cached_tokens = Observed::Known(scoped(0));
    let comparison = compare(&left, &right);
    assert_eq!(comparison.token_deltas.provider_cached_tokens.delta, Some(0));
    assert_eq!(comparison.token_deltas.provider_cached_tokens.direction, MetricDirection::Unchanged);
}

#[test]
fn incompatible_model_is_incomparable() {
    let (left, right) = direct_pair();
    let comparison =
        compare_observations_with_references(&left, &right, reference("left", "fixture-model"), reference("right", "other-model"));
    assert_eq!(comparison.comparability.level, ComparabilityLevel::Incomparable);
    assert_eq!(assess(&left, &right, "other-model"), CacheRegressionAssessment::Incomparable);
}

#[test]
fn mixed_signal_is_not_called_better_or_worse() {
    let (mut left, mut right) = direct_pair();
    left.wall_duration_ms = Observed::Known(10);
    right.wall_duration_ms = Observed::Known(20);
    assert_eq!(assess(&left, &right, "fixture-model"), CacheRegressionAssessment::MixedObservations);
}

#[test]
fn envelope_only_diff_is_kept_separate_from_context_diff() {
    let (left_request, right_request) = request_pair(true);
    let diff = request_diff(&left_request, &right_request).expect("request diff");
    assert!(diff.prefix_diff.identical);
    assert!(!diff.envelope_diff.identical);
}

#[test]
fn diagnostic_statement_is_deterministic_and_non_causal() {
    let (left_request, right_request) = request_pair(false);
    let (left, right) = direct_pair();
    let diagnose = || {
        let diff = request_diff(&left_request, &right_request).expect("request diff");
        diagnose_cache(diff, &left, &right, reference("left", "fixture-model"), reference("right", "fixture-model"))
    };
    let first = diagnose();
    let second = diagnose();
    assert_eq!(first, second);
    assert_eq!(first.evidence.causality, CausalityStatus::NotEstablished);
    assert!(first.evidence.statement.contains("causality=not_established"));
}
