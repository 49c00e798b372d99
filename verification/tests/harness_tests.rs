use prefixity_controlled_benchmark::capability_registry::{
    matches_string, CapabilityEvidence, CapabilityState, CapabilitySupport,
};
use prefixity_controlled_benchmark::context_stability::{
    ContextStabilityAnalysis, LeadingRegionLimit, Observed, StabilityAlignedLeadingRegion, StabilityFinding,
    StabilityFindingKind, StabilitySummary,
};
use prefixity_controlled_benchmark::diff::{
    CacheImpactAssessment, ChangeCategory, CommonPrefixMeasurement, DiffChange, DiffState, EnvelopeChange,
    EnvelopeDiff, EnvelopeField, PrefixDiff, RequestDiff, RequestDiffInterpretation,
};
use prefixity_controlled_benchmark::error::{BenchmarkError, LivePreparationErrorCode};
use prefixity_controlled_benchmark::live_harness::{
    bounded_error, failure_code, is_unsafe_path, live_error, validate_live_sequence, validate_map,
    EnvironmentObservation, LiveEnvironmentManifest, LiveSequenceRelation, LiveSequenceRole, LiveSequenceStep,
};
use prefixity_controlled_benchmark::paired_mutation::{
    bounded_material, inversion_count, validate_metadata, validate_request_diff,
};

fn configuration_error(message: &str) -> Result<(), BenchmarkError> {
    Err(BenchmarkError::LiveHarness {
        code: LivePreparationErrorCode::InvalidConfiguration,
        message: message.to_string(),
    })
}

fn pairs(entries: &[(&str, &str)]) -> Vec<(String, String)> {
    entries.iter().map(|(k, v)| (k.to_string(), v.to_string())).collect()
}

#[test]
fn long_error_messages_are_cut_to_their_bound() {
    let long = "é".repeat(600);
    assert_eq!(bounded_error(&long).chars().count(), 512);
    assert_eq!(bounded_error("short"), "short");
    match live_error(LivePreparationErrorCode::ServerError, &long) {
        BenchmarkError::LiveHarness { code, message } => {
            assert_eq!(code, LivePreparationErrorCode::ServerError);
            assert_eq!(message, "é".repeat(512));
        }
        other => panic!("unexpected {other:?}"),
    }
}

#[test]
fn unsafe_paths() {
    assert!(is_unsafe_path("/etc/passwd"));
    assert!(is_unsafe_path("C:evidence"));
    assert!(is_unsafe_path("evidence/../secret"));
    assert!(is_unsafe_path(".."));
    assert!(is_unsafe_path("a\\..\\b"));
    assert!(!is_unsafe_path("evidence/run..1/out"));
    assert!(!is_unsafe_path("evidence/..."));
    assert!(!is_unsafe_path("evidence/run-1"));
    assert!(!is_unsafe_path(""));
}

#[test]
fn maps_are_bounded_and_may_refuse_paths() {
    assert_eq!(validate_map(&pairs(&[("a", "b")]), "provenance", false), Ok(()));
    assert_eq!(
        validate_map(&pairs(&[("a", "b"), (" ", "c")]), "provenance", false),
        configuration_error("provenance key is empty or exceeds its bound")
    );
    assert_eq!(
        validate_map(&pairs(&[("a", "")]), "provenance", false),
        configuration_error("provenance value is empty or exceeds its bound")
    );
    assert_eq!(validate_map(&pairs(&[("log", "/tmp/x")]), "provenance", false), Ok(()));
    assert_eq!(
        validate_map(&pairs(&[("log", "/tmp/x")]), "launch configuration", true),
        configuration_error("launch configuration contains an unsafe absolute or parent path")
    );
    let many: Vec<(String, String)> = (0..33).map(|i| (format!("k{i:02}"), "v".to_string())).collect();
    assert_eq!(validate_map(&many, "provenance", false), configuration_error("provenance exceeds its bound"));
}

fn manifest() -> LiveEnvironmentManifest {
    LiveEnvironmentManifest {
        schema_id: "prefixity.live-environment-manifest".to_string(),
        schema_version: 1,
        os: EnvironmentObservation { value: Observed::Known("linux".to_string()) },
        llama_build: EnvironmentObservation::unknown(),
        model_identity: EnvironmentObservation::unknown(),
        quantization: EnvironmentObservation::unknown(),
        model_file_size_bytes: EnvironmentObservation { value: Observed::Known(1024) },
        context_size: EnvironmentObservation::unknown(),
        cpu: EnvironmentObservation::unknown(),
        logical_threads: EnvironmentObservation { value: Observed::NotObserved },
        gpu: EnvironmentObservation::unknown(),
        ram_bytes: EnvironmentObservation::unknown(),
        vram_bytes: EnvironmentObservation::unknown(),
        launch_configuration: pairs(&[("ctx-size", "4096"), ("model", "models/m.gguf")]),
        provenance: pairs(&[("source", "operator")]),
    }
}

#[test]
fn environment_manifest_validation() {
    assert_eq!(manifest().validate(), Ok(()));
    let mut m = manifest();
    m.schema_version = 2;
    assert_eq!(m.validate(), configuration_error("unsupported environment manifest schema"));
    let mut m = manifest();
    m.launch_configuration = pairs(&[("model", "../m.gguf")]);
    assert_eq!(
        m.validate(),
        configuration_error("launch configuration contains an unsafe absolute or parent path")
    );
    let mut m = manifest();
    m.provenance = pairs(&[("source", "/abs")]);
    assert_eq!(m.validate(), Ok(()));
    m.provenance = pairs(&[("", "x")]);
    assert_eq!(m.validate(), configuration_error("provenance key is empty or exceeds its bound"));
}

#[test]
fn failure_codes_name_live_harness_errors() {
    let e = BenchmarkError::live_harness(LivePreparationErrorCode::RequestTimeout, "slow");
    assert_eq!(failure_code(&e), "request_timeout");
    let e = BenchmarkError::live_harness(LivePreparationErrorCode::InvalidEndpoint, "bad");
    assert_eq!(failure_code(&e), "invalid_endpoint");
    assert_eq!(failure_code(&BenchmarkError::validation("x")), "incomplete_sequence");
}

fn step(id: &str, role: LiveSequenceRole, fp: &str, relation: LiveSequenceRelation) -> LiveSequenceStep {
    LiveSequenceStep { step_id: id.to_string(), role, request_fingerprint: fp.to_string(), relation }
}

fn sequence() -> Vec<LiveSequenceStep> {
    vec![
        step("A1", LiveSequenceRole::Control, "a", LiveSequenceRelation::Initial),
        step("A2", LiveSequenceRole::Control, "a", LiveSequenceRelation::ExactRepeatOf("A1".to_string())),
        step("C1", LiveSequenceRole::CandidateTreatment, "c", LiveSequenceRelation::Initial),
        step("C2", LiveSequenceRole::CandidateTreatment, "c", LiveSequenceRelation::ExactRepeatOf("C1".to_string())),
        step("B1", LiveSequenceRole::Interference, "b", LiveSequenceRelation::Independent),
        step("A3", LiveSequenceRole::Control, "a", LiveSequenceRelation::ReturnTo("A1".to_string())),
        step("C3", LiveSequenceRole::CandidateTreatment, "c", LiveSequenceRelation::ReturnTo("C1".to_string())),
    ]
}

#[test]
fn live_sequence_has_a_fixed_order() {
    assert_eq!(validate_live_sequence(&sequence(), "a", "c", "b"), Ok(()));
    let order_error = Err(BenchmarkError::LiveHarness {
        code: LivePreparationErrorCode::IncompleteSequence,
        message: "live sequence does not match the fixed A1/A2/C1/C2/B1/A3/C3 order".to_string(),
    });
    assert_eq!(validate_live_sequence(&sequence(), "a", "c", "x"), order_error);
    let mut s = sequence();
    s.swap(5, 6);
    assert_eq!(validate_live_sequence(&s, "a", "c", "b"), order_error);
    let mut s = sequence();
    s[5].relation = LiveSequenceRelation::ExactRepeatOf("A1".to_string());
    assert_eq!(validate_live_sequence(&s, "a", "c", "b"), order_error);
    let mut s = sequence();
    s.pop();
    assert_eq!(
        validate_live_sequence(&s, "a", "c", "b"),
        Err(BenchmarkError::LiveHarness {
            code: LivePreparationErrorCode::IncompleteSequence,
            message: "live experiment must contain exactly seven sequence steps".to_string(),
        })
    );
}

fn diff(prefix: Vec<DiffChange>, envelope: Vec<EnvelopeChange>) -> RequestDiff {
    RequestDiff {
        schema_id: "prefixity.request-diff".to_string(),
        schema_version: 1,
        left_request_fingerprint: "l".to_string(),
        right_request_fingerprint: "r".to_string(),
        prefix_diff: PrefixDiff {
            schema_id: "prefixity.prefix-diff".to_string(),
            schema_version: 1,
            left_context_fingerprint: "l".to_string(),
            right_context_fingerprint: "r".to_string(),
            identical: false,
            common_prefix: CommonPrefixMeasurement {
                structural_units: 0,
                artifact_units: 0,
                tool_units: 0,
                text: vec![],
                token_units: Observed::NotObserved,
            },
            first_divergence: None,
            changes: prefix,
            provenance: vec![],
            cache_impact: CacheImpactAssessment::Unknown,
        },
        envelope_diff: EnvelopeDiff {
            schema_id: "prefixity.request-envelope-diff".to_string(),
            schema_version: 1,
            left_request_fingerprint: "l".to_string(),
            right_request_fingerprint: "r".to_string(),
            identical: true,
            changes: envelope,
            cache_impact: CacheImpactAssessment::Unknown,
        },
        interpretation: RequestDiffInterpretation { context: DiffState::Changed, envelope: DiffState::Identical },
        cache_impact: CacheImpactAssessment::Unknown,
    }
}

fn change(category: ChangeCategory, order_changed: bool, content_changed: bool) -> DiffChange {
    DiffChange {
        path: "context.artifacts".to_string(),
        category,
        left: None,
        right: None,
        order_changed,
        content_changed,
        presence_changed: false,
        whitespace_only: false,
        sequence_index: None,
    }
}

#[test]
fn paired_diffs_make_exactly_the_intended_change() {
    let reorder = diff(vec![change(ChangeCategory::ArtifactOrderChanged, true, false)], vec![]);
    let mutation = diff(vec![change(ChangeCategory::ArtifactContentChanged, false, true)], vec![]);
    assert_eq!(validate_request_diff(&reorder, true), Ok(()));
    assert_eq!(validate_request_diff(&mutation, false), Ok(()));
    assert_eq!(
        validate_request_diff(&mutation, true),
        configuration_error("paired layout diff is not authorized artifact reordering only")
    );
    assert_eq!(
        validate_request_diff(&reorder, false),
        configuration_error("paired mutation diff must contain exactly one artifact content change")
    );
    let envelope = diff(
        vec![change(ChangeCategory::ArtifactOrderChanged, true, false)],
        vec![EnvelopeChange {
            path: "envelope.model".to_string(),
            field: EnvelopeField::Model,
            left: None,
            right: None,
            presence_changed: false,
        }],
    );
    assert_eq!(validate_request_diff(&envelope, true), configuration_error("paired request diff changed the envelope"));
}

#[test]
fn paired_metadata_and_material() {
    assert_eq!(validate_metadata(&pairs(&[("a", "b")])), Ok(()));
    let many: Vec<(String, String)> = (0..33).map(|i| (format!("k{i}"), "v".to_string())).collect();
    assert_eq!(validate_metadata(&many), configuration_error("paired provenance exceeds its bound"));
    assert_eq!(
        bounded_material("volatile-v", "one"),
        format!("volatile-v:one:{}", "bounded synthetic reference ".repeat(8))
    );
}

#[test]
fn inversions_are_counted_from_the_findings() {
    let finding = |kind| StabilityFinding { kind, segment: None, boundary: Some(0) };
    let a = ContextStabilityAnalysis {
        schema_id: String::new(),
        schema_version: 1,
        request_fingerprint: String::new(),
        context_fingerprint: String::new(),
        segments: vec![],
        boundaries: vec![],
        leading_region: StabilityAlignedLeadingRegion {
            segment_count: 0,
            known_byte_size: Observed::Unknown,
            limit: LeadingRegionLimit::Empty,
        },
        summary: StabilitySummary {
            immutable_segments: 0,
            stable_segments: 0,
            append_only_segments: 0,
            volatile_segments: 0,
            unknown_segments: 0,
            known_stable_bytes: 0,
            known_append_only_bytes: 0,
            known_volatile_bytes: 0,
            known_immutable_bytes: 0,
            known_bytes_total: 0,
            unknown_bytes: Observed::Unknown,
            unknown_size_segments: 0,
            token_units: Observed::NotObserved,
        },
        findings: vec![
            finding(StabilityFindingKind::StabilityInversion),
            finding(StabilityFindingKind::VolatileBeforeStable),
            finding(StabilityFindingKind::StabilityInversion),
        ],
        provenance: vec![],
    };
    assert_eq!(inversion_count(&a), 2);
}

#[test]
fn capability_states_combine_support_and_evidence() {
    use_state(CapabilitySupport::Supported, CapabilityEvidence::Documented, CapabilityState::SupportedDocumented);
    use_state(CapabilitySupport::Supported, CapabilityEvidence::ExperimentallyObserved, CapabilityState::SupportedObserved);
    use_state(CapabilitySupport::Unsupported, CapabilityEvidence::Documented, CapabilityState::UnsupportedDocumented);
    use_state(CapabilitySupport::Unsupported, CapabilityEvidence::ExperimentallyObserved, CapabilityState::UnsupportedObserved);
    use_state(CapabilitySupport::Unknown, CapabilityEvidence::Documented, CapabilityState::UnknownDocumented);
    use_state(CapabilitySupport::Unknown, CapabilityEvidence::ExperimentallyObserved, CapabilityState::UnknownUnverified);
    use_state(CapabilitySupport::Supported, CapabilityEvidence::Unverified, CapabilityState::UnknownUnverified);
    use_state(CapabilitySupport::Unsupported, CapabilityEvidence::Unverified, CapabilityState::UnknownUnverified);
    use_state(CapabilitySupport::Unknown, CapabilityEvidence::Unverified, CapabilityState::UnknownUnverified);
}

fn use_state(support: CapabilitySupport, evidence: CapabilityEvidence, expected: CapabilityState) {
    assert_eq!(CapabilityState::from_parts(support, evidence), expected);
}

#[test]
fn missing_identity_never_matches_a_query_value() {
    assert!(matches_string(&Observed::Unknown, &None));
    assert!(!matches_string(&Observed::Unknown, &Some("m".to_string())));
    assert!(matches_string(&Observed::Known("m".to_string()), &Some("m".to_string())));
    assert!(!matches_string(&Observed::Known("n".to_string()), &Some("m".to_string())));
}

#[test]
fn map_keys_must_be_unique_and_sorted() {
    assert_eq!(
        validate_map(&pairs(&[("b", "1"), ("a", "2")]), "provenance", false),
        configuration_error("provenance keys must be unique and in key order")
    );
    assert_eq!(
        validate_map(&pairs(&[("a", "1"), ("a", "2")]), "provenance", false),
        configuration_error("provenance keys must be unique and in key order")
    );
    assert_eq!(validate_map(&pairs(&[("a", "1"), ("b", "2")]), "provenance", false), Ok(()));
}
