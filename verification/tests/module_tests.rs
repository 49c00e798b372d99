use prefixity_controlled_benchmark::candidate_evaluation::{EnvironmentReadiness, EnvironmentState, EvidenceBlocker};
use prefixity_controlled_benchmark::capability_registry::{CapabilityKey, CapabilityState};
use prefixity_controlled_benchmark::error::{BenchmarkError, LivePreparationErrorCode};
use prefixity_controlled_benchmark::fixtures::build_seed;
use prefixity_controlled_benchmark::layout_planner::{LayoutPlanningConstraints, OrderingConstraint, PreserveOrderReason};
use prefixity_controlled_benchmark::live_harness::{check_endpoint_parts, LoopbackEndpoint, UrlParts};
use prefixity_controlled_benchmark::materialization::{
    CandidateExperimentPair, CertificationStatus, InvariantResult, MaterializationInvariant,
    MaterializationSafetyCertificate, RequestDiffReference,
};
use prefixity_controlled_benchmark::model::{AggregateCounts, OracleResult};
use prefixity_controlled_benchmark::oracle::{evaluate_case, evaluate_envelopes, ExecutionStatus, WorldExecution};

#[test]
fn environment_state_constructors_set_readiness() {
    let available = EnvironmentState::available();
    assert_eq!(available.readiness, EnvironmentReadiness::Available);
    assert!(available.blockers.is_empty());
    let blocked = EnvironmentState::blocked(vec![EvidenceBlocker::EnvironmentUnavailable]);
    assert_eq!(blocked.readiness, EnvironmentReadiness::Blocked);
    assert_eq!(blocked.blockers, vec![EvidenceBlocker::EnvironmentUnavailable]);
}

#[test]
fn capability_keys_are_listed_once_in_order_with_labels() {
    let all = CapabilityKey::all();
    assert_eq!(all.len(), 28);
    assert_eq!(all[0], CapabilityKey::PrefixReuse);
    assert_eq!(all[27], CapabilityKey::QualityRegressionEvidence);
    for (i, a) in all.iter().enumerate() {
        for b in &all[i + 1..] {
            assert_ne!(a, b);
            assert_ne!(a.label(), b.label());
        }
    }
    assert_eq!(CapabilityKey::MinimumCacheablePrefixTokens.label(), "minimum_cacheable_prefix_tokens");
    assert_eq!(CapabilityState::UnknownUnverified.label(), "unknown_unverified");
}

#[test]
fn layout_constraints_require_non_blank_bounded_texts() {
    let ok = LayoutPlanningConstraints {
        constraints: vec![OrderingConstraint::MustPrecede { before: "a".into(), after: "b".into() }],
        provenance: vec![("source".into(), "test".into())],
    };
    assert!(ok.validate().is_ok());
    let blank = LayoutPlanningConstraints {
        constraints: vec![OrderingConstraint::Unknown { segment: " \t\u{3000}".into(), reason: "x".into() }],
        provenance: vec![],
    };
    assert!(matches!(blank.validate(), Err(BenchmarkError::Validation { .. })));
    let single = LayoutPlanningConstraints {
        constraints: vec![OrderingConstraint::PreserveRelativeOrder {
            segments: vec!["a".into()],
            reason: PreserveOrderReason::Chronology,
        }],
        provenance: vec![],
    };
    assert!(single.validate().is_err());
    let long = LayoutPlanningConstraints {
        constraints: vec![OrderingConstraint::FixedPosition { segment: "x".repeat(257), position: 0 }],
        provenance: vec![],
    };
    assert!(long.validate().is_err());
}

fn parts(scheme: &str, host: Option<&str>) -> Result<UrlParts, String> {
    Ok(UrlParts {
        scheme: scheme.into(),
        username: String::new(),
        password: None,
        host: host.map(str::to_string),
        query: None,
        fragment: None,
    })
}

#[test]
fn endpoint_rules_accept_only_plain_loopback_http() {
    assert!(check_endpoint_parts(&parts("http", Some("127.0.0.1"))).is_ok());
    assert!(check_endpoint_parts(&parts("http", Some("[::1]"))).is_ok());
    match check_endpoint_parts(&parts("http", Some("example.com"))) {
        Err(BenchmarkError::LiveHarness { code, .. }) => assert_eq!(code, LivePreparationErrorCode::NonLoopbackEndpoint),
        other => panic!("unexpected {other:?}"),
    }
    match check_endpoint_parts(&parts("https", Some("localhost"))) {
        Err(BenchmarkError::LiveHarness { code, message }) => {
            assert_eq!(code, LivePreparationErrorCode::InvalidEndpoint);
            assert_eq!(message, "only unauthenticated HTTP endpoints are supported");
        }
        other => panic!("unexpected {other:?}"),
    }
    match check_endpoint_parts(&Err("relative URL without a base".to_string())) {
        Err(BenchmarkError::LiveHarness { message, .. }) => {
            assert_eq!(message, "endpoint URL is invalid: relative URL without a base")
        }
        other => panic!("unexpected {other:?}"),
    }
}

#[test]
fn loopback_endpoint_parse_uses_the_url_parser() {
    assert_eq!(LoopbackEndpoint::parse("http://127.0.0.1:8080/".to_string()).unwrap().url, "http://127.0.0.1:8080/");
    assert!(LoopbackEndpoint::parse("http://localhost:8080".to_string()).is_ok());
    assert!(LoopbackEndpoint::parse("http://[::1]:8080".to_string()).is_ok());
    assert!(LoopbackEndpoint::parse("http://192.168.0.1:8080".to_string()).is_err());
    assert!(LoopbackEndpoint::parse("http://user@localhost:8080".to_string()).is_err());
    assert!(LoopbackEndpoint::parse("http://localhost:8080/?q=1".to_string()).is_err());
    assert!(LoopbackEndpoint::parse("not a url".to_string()).is_err());
}

fn hex(c: char) -> String {
    std::iter::repeat(c).take(64).collect()
}

fn certificate() -> MaterializationSafetyCertificate {
    let kinds = [
        MaterializationInvariant::SourceIdentity,
        MaterializationInvariant::CandidateIdentity,
        MaterializationInvariant::AuthorizedTransformation,
        MaterializationInvariant::ContentConservation,
        MaterializationInvariant::ArtifactConservation,
        MaterializationInvariant::ToolConservation,
        MaterializationInvariant::EnvelopeConservation,
        MaterializationInvariant::TrustConservation,
        MaterializationInvariant::ProvenanceConservation,
        MaterializationInvariant::OrderChangeOnly,
        MaterializationInvariant::RequestDiffAgreement,
        MaterializationInvariant::StructuralReanalysis,
    ];
    MaterializationSafetyCertificate {
        schema_id: "prefixity.materialization-safety-certificate".into(),
        schema_version: 1,
        source_identity_verified: true,
        candidate_identity_verified: true,
        authorized_transformation_verified: true,
        content_conservation: true,
        artifact_conservation: true,
        tool_conservation: true,
        envelope_conservation: true,
        trust_conservation: true,
        provenance_conservation: true,
        order_change_only: true,
        request_diff_reference: RequestDiffReference {
            source_request_fingerprint: hex('a'),
            materialized_request_fingerprint: hex('B'),
            planned_diff_fingerprint: hex('c'),
            actual_diff_fingerprint: hex('d'),
        },
        invariant_results: kinds.iter().map(|k| InvariantResult { invariant: *k, passed: true }).collect(),
        certification_status: CertificationStatus::CertifiedForExperimentMaterialization,
        provenance: vec![("source".into(), "test".into())],
    }
}

#[test]
fn certificate_validation_and_canonical_json() {
    let cert = certificate();
    assert!(cert.validate().is_ok());
    let json = String::from_utf8(cert.canonical_json().unwrap()).unwrap();
    assert!(json.starts_with("{\"artifact_conservation\":true,\"authorized_transformation_verified\":true,"));
    assert!(json.contains("\"invariant_results\":[{\"invariant\":\"source_identity\",\"passed\":true},"));
    assert!(json.contains("\"provenance\":{\"source\":\"test\"}"));
    let mut failed = certificate();
    failed.tool_conservation = false;
    assert!(failed.validate().is_err());
    failed.invariant_results[5].passed = false;
    assert!(failed.validate().is_err());
    let mut reordered = certificate();
    reordered.invariant_results.swap(0, 1);
    assert!(reordered.validate().is_err());
    let mut bad_hash = certificate();
    bad_hash.request_diff_reference.planned_diff_fingerprint = hex('g');
    assert!(bad_hash.canonical_json().is_err());
}

#[test]
fn experiment_pair_fingerprint_must_be_deterministic() {
    let mut pair = CandidateExperimentPair {
        schema_id: "prefixity.candidate-experiment-pair".into(),
        schema_version: 1,
        source_request_fingerprint: hex('1'),
        candidate_request_fingerprint: hex('2'),
        candidate_fingerprint: hex('3'),
        safety_certificate_fingerprint: hex('4'),
        source_case_id: "control".into(),
        candidate_case_id: "candidate".into(),
        pair_fingerprint: hex('0'),
        provenance: vec![],
    };
    assert!(pair.validate().is_err());
    let identity = format!(
        "[\"prefixity.candidate-experiment-pair\",1,\"{}\",\"{}\",\"{}\",\"{}\",\"control\",\"candidate\",{{}}]",
        hex('1'), hex('2'), hex('3'), hex('4')
    );
    pair.pair_fingerprint = prefixity_controlled_benchmark::hashing::hash_text(&identity);
    assert!(pair.validate().is_ok());
    assert!(pair.canonical_json().is_ok());
    pair.candidate_case_id = "control".into();
    assert!(pair.validate().is_err());
}

#[test]
fn aggregate_counts_record_one_bucket() {
    let mut counts = AggregateCounts { pass: 0, fail: 0, invalid_baseline: 0, inconclusive: 0 };
    counts.record(OracleResult::Pass);
    counts.record(OracleResult::Inconclusive);
    counts.record(OracleResult::Pass);
    assert_eq!(counts, AggregateCounts { pass: 2, fail: 0, invalid_baseline: 0, inconclusive: 1 });
}

fn state(entries: &[(&str, &str)]) -> Vec<(String, String)> {
    entries.iter().map(|(k, v)| (k.to_string(), v.to_string())).collect()
}

fn s01_state() -> Vec<(String, String)> {
    state(&[
        ("scenario_id", "S01_irrelevant_context_removal"),
        ("initial_state_id", "S01_irrelevant_context_removal:initial"),
        ("task_revision", "self-authored-task-v1"),
        ("profile_updated", "done"),
    ])
}

fn run(status: ExecutionStatus, final_state: Vec<(String, String)>) -> WorldExecution {
    WorldExecution { status, completed: status == ExecutionStatus::Complete, final_state, final_state_hash: None }
}

#[test]
fn oracle_passes_identical_expected_states_and_names_collateral() {
    let case = build_seed().unwrap().remove(0);
    let good = run(ExecutionStatus::Complete, s01_state());
    let rec = evaluate_envelopes(&case.baseline, &case.intervention, &case.manifest, &good, &good).unwrap();
    assert_eq!(rec.result, OracleResult::Pass);
    assert!(rec.collateral_state_keys.is_empty());
    assert_eq!(rec.note, "variant preserved task predicates and collateral invariants");

    let mut changed = s01_state();
    changed.push(("zeta".to_string(), "1".to_string()));
    changed[3].1 = "pending".to_string();
    let rec = evaluate_envelopes(&case.baseline, &case.intervention, &case.manifest, &good, &run(ExecutionStatus::Complete, changed)).unwrap();
    assert_eq!(rec.result, OracleResult::Fail);
    assert_eq!(rec.collateral_state_keys, vec!["profile_updated".to_string(), "zeta".to_string()]);

    let bad_baseline = run(ExecutionStatus::Complete, state(&[("scenario_id", "x")]));
    let rec = evaluate_envelopes(&case.baseline, &case.intervention, &case.manifest, &bad_baseline, &good).unwrap();
    assert_eq!(rec.result, OracleResult::InvalidBaseline);
    assert_eq!(rec.note, "baseline did not satisfy its deterministic task predicate");

    let unresolved = run(ExecutionStatus::Unresolved, vec![]);
    let rec = evaluate_envelopes(&case.baseline, &case.intervention, &case.manifest, &unresolved, &good).unwrap();
    assert_eq!(rec.result, OracleResult::Inconclusive);
    let rec = evaluate_envelopes(&case.baseline, &case.intervention, &case.manifest, &good, &run(ExecutionStatus::TaskFailure, vec![])).unwrap();
    assert_eq!(rec.result, OracleResult::Fail);
}

#[test]
fn oracle_checks_the_case_before_judging_it() {
    let mut case = build_seed().unwrap().remove(0);
    let good = run(ExecutionStatus::Complete, s01_state());
    let rec = evaluate_case(&case, &good, &good).unwrap();
    assert_eq!(rec.result, OracleResult::Pass);
    assert_eq!(rec.scenario_id, "S01_irrelevant_context_removal");
    assert_eq!(rec.manifest_id, case.manifest.manifest_id);

    case.manifest_hash = "0".repeat(64);
    match evaluate_case(&case, &good, &good) {
        Err(BenchmarkError::HashMismatch { found, .. }) => assert_eq!(found, "0".repeat(64)),
        other => panic!("expected a hash mismatch, got {:?}", other),
    }
}
