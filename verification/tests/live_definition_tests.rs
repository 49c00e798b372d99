use prefixity_controlled_benchmark::conformance::{
    ConformanceRequest, ContextArtifactInput, RequestContext, RequestEnvelope,
};
use prefixity_controlled_benchmark::error::{BenchmarkError, LivePreparationErrorCode};
use prefixity_controlled_benchmark::live_harness::{
    build_live_experiment_definition, LiveExperimentDefinition, LiveSequenceRelation, LiveSequenceRole,
    LiveSequenceStep,
};
use prefixity_controlled_benchmark::materialization::{
    build_candidate_experiment_pair, certify_materialization, ConservationChecks, MaterializedCandidate,
    RequestDiffReference,
};

const FP: &str = "0123456789abcdef0123456789abcdef0123456789abcdef0123456789abcdef";

fn request(system: &str, first: &str, second: &str) -> ConformanceRequest {
    ConformanceRequest {
        context: RequestContext {
            system_instruction: system.to_string(),
            artifacts: vec![
                ContextArtifactInput { artifact_id: first.to_string(), content: format!("content of {first}") },
                ContextArtifactInput { artifact_id: second.to_string(), content: format!("content of {second}") },
            ],
            user_content: "Summarise.".to_string(),
            tools: vec![],
        },
        envelope: RequestEnvelope { model: "local-model".to_string(), reasoning: None, response_format: None },
    }
}

fn materialized() -> MaterializedCandidate {
    let source = request("You are careful.", "a", "b").request_fingerprint().unwrap();
    let treatment_request = request("You are careful.", "b", "a");
    let treatment = treatment_request.request_fingerprint().unwrap();
    let certificate = certify_materialization(
        ConservationChecks {
            content: true,
            artifact: true,
            tool: true,
            envelope: true,
            trust: true,
            provenance: true,
            order_change_only: true,
        },
        RequestDiffReference {
            source_request_fingerprint: source.clone(),
            materialized_request_fingerprint: treatment.clone(),
            planned_diff_fingerprint: FP.to_string(),
            actual_diff_fingerprint: FP.to_string(),
        },
    )
    .unwrap();
    MaterializedCandidate {
        schema_id: "prefixity.candidate-materialization".to_string(),
        schema_version: 1,
        source_request_fingerprint: source,
        candidate_fingerprint: FP.to_string(),
        evaluation_fingerprint: FP.to_string(),
        materialized_request: treatment_request,
        materialized_request_fingerprint: treatment,
        safety_certificate: certificate,
        provenance: vec![("source".to_string(), "fixture".to_string())],
    }
}

fn step(id: &str, role: LiveSequenceRole, fingerprint: &str, relation: LiveSequenceRelation) -> LiveSequenceStep {
    LiveSequenceStep { step_id: id.to_string(), role, request_fingerprint: fingerprint.to_string(), relation }
}

fn definition() -> LiveExperimentDefinition {
    let m = materialized();
    let control = request("You are careful.", "a", "b");
    let interference = request("[interference-marker:x]\nYou are careful.", "a", "b");
    let c = control.request_fingerprint().unwrap();
    let t = m.materialized_request_fingerprint.clone();
    let i = interference.request_fingerprint().unwrap();
    let pair = build_candidate_experiment_pair(
        &m,
        "source".to_string(),
        "candidate".to_string(),
        vec![("purpose".to_string(), "p0-l6a-live-preparation".to_string())],
    )
    .unwrap();
    LiveExperimentDefinition {
        schema_id: "prefixity.llama-cpp-live-harness".to_string(),
        schema_version: 1,
        experiment_id: FP.to_string(),
        control_request: control,
        treatment: m,
        interference_request: interference,
        pair,
        sequence: vec![
            step("A1", LiveSequenceRole::Control, &c, LiveSequenceRelation::Initial),
            step("A2", LiveSequenceRole::Control, &c, LiveSequenceRelation::ExactRepeatOf("A1".to_string())),
            step("C1", LiveSequenceRole::CandidateTreatment, &t, LiveSequenceRelation::Initial),
            step("C2", LiveSequenceRole::CandidateTreatment, &t, LiveSequenceRelation::ExactRepeatOf("C1".to_string())),
            step("B1", LiveSequenceRole::Interference, &i, LiveSequenceRelation::Independent),
            step("A3", LiveSequenceRole::Control, &c, LiveSequenceRelation::ReturnTo("A1".to_string())),
            step("C3", LiveSequenceRole::CandidateTreatment, &t, LiveSequenceRelation::ReturnTo("C1".to_string())),
        ],
        provenance: vec![],
    }
}

#[test]
fn a_traced_materialized_candidate_is_valid() {
    let m = materialized();
    assert_eq!(m.validate(), Ok(()));
    let mut bad = materialized();
    bad.materialized_request_fingerprint = FP.to_string();
    assert_eq!(
        bad.validate(),
        Err(BenchmarkError::Validation {
            path: "<in-memory>".to_string(),
            message: "materialized request fingerprint is not traceable".to_string(),
        })
    );
    let mut bad = materialized();
    bad.evaluation_fingerprint = "short".to_string();
    assert!(bad.validate().is_err());
}

#[test]
fn experiment_pair_traces_the_materialized_candidate() {
    let m = materialized();
    let pair = build_candidate_experiment_pair(&m, "source".to_string(), "candidate".to_string(), vec![]).unwrap();
    assert_eq!(pair.source_request_fingerprint, m.source_request_fingerprint);
    assert_eq!(pair.candidate_request_fingerprint, m.materialized_request_fingerprint);
    assert_eq!(pair.candidate_fingerprint, FP);
    assert_eq!(pair.safety_certificate_fingerprint.len(), 64);
    assert_ne!(pair.safety_certificate_fingerprint, pair.pair_fingerprint);
    assert_eq!(pair.validate(), Ok(()));
    let again = build_candidate_experiment_pair(&m, "source".to_string(), "candidate".to_string(), vec![]).unwrap();
    assert_eq!(pair, again);
    assert_eq!(
        build_candidate_experiment_pair(&m, "same".to_string(), "same".to_string(), vec![]),
        Err(BenchmarkError::Validation {
            path: "<in-memory>".to_string(),
            message: "control and candidate case IDs must differ".to_string(),
        })
    );
    assert!(build_candidate_experiment_pair(&m, " ".to_string(), "candidate".to_string(), vec![]).is_err());
}

#[test]
fn live_definition_follows_the_fixed_sequence() {
    assert_eq!(definition().validate(), Ok(()));
    let mut d = definition();
    d.sequence.swap(0, 1);
    assert_eq!(
        d.validate(),
        Err(BenchmarkError::LiveHarness {
            code: LivePreparationErrorCode::IncompleteSequence,
            message: "live sequence does not match the fixed A1/A2/C1/C2/B1/A3/C3 order".to_string(),
        })
    );
    let mut d = definition();
    d.sequence.pop();
    assert!(matches!(d.validate(), Err(BenchmarkError::LiveHarness { code: LivePreparationErrorCode::IncompleteSequence, .. })));
}

#[test]
fn live_definition_refuses_an_uncertified_treatment() {
    let mut d = definition();
    d.treatment.evaluation_fingerprint = "short".to_string();
    assert_eq!(
        d.validate(),
        Err(BenchmarkError::LiveHarness {
            code: LivePreparationErrorCode::UnsafeMaterializedCandidate,
            message: "materialized candidate is not certified: controlled benchmark validation failed at <in-memory>: \
evaluation fingerprint must be a SHA-256 fingerprint"
                .to_string(),
        })
    );
    let mut d = definition();
    d.pair = build_candidate_experiment_pair(&materialized(), "x".to_string(), "y".to_string(), vec![]).unwrap();
    d.pair.source_request_fingerprint = FP.to_string();
    assert!(d.validate().is_err());
    let mut d = definition();
    d.schema_version = 2;
    assert!(matches!(d.validate(), Err(BenchmarkError::LiveHarness { code: LivePreparationErrorCode::InvalidConfiguration, .. })));
}

#[test]
fn built_live_definition_is_valid_and_marked() {
    let source = request("You are careful.", "a", "b");
    let m = materialized();
    let source_fp = m.source_request_fingerprint.clone();
    let d = build_live_experiment_definition(&source, m, "A".to_string(), "C".to_string(), vec![]).unwrap();
    assert_eq!(d.validate(), Ok(()));
    assert_eq!(
        d.interference_request.context.system_instruction,
        format!("[interference-marker:{}]\nYou are careful.", &source_fp[..16])
    );
    assert_eq!(d.control_request.request_fingerprint().unwrap(), source_fp);
    assert_eq!(d.sequence.len(), 7);
    assert_eq!(d.sequence[4].step_id, "B1");
    assert_eq!(d.sequence[4].request_fingerprint, d.interference_request.request_fingerprint().unwrap());
    assert_eq!(d.experiment_id.len(), 64);
    assert_eq!(d.pair.source_case_id, "A");
    assert_eq!(d.pair.provenance, vec![("purpose".to_string(), "p0-l6a-live-preparation".to_string())]);
    let again = build_live_experiment_definition(&source, materialized(), "A".to_string(), "C".to_string(), vec![])
        .unwrap();
    assert_eq!(d.experiment_id, again.experiment_id);
}

#[test]
fn live_definition_needs_the_certified_source() {
    let other = request("Another instruction.", "a", "b");
    assert_eq!(
        build_live_experiment_definition(&other, materialized(), "A".to_string(), "C".to_string(), vec![]).err(),
        Some(BenchmarkError::LiveHarness {
            code: LivePreparationErrorCode::UnsafeMaterializedCandidate,
            message: "source request does not match the certified candidate".to_string(),
        })
    );
    let source = request("You are careful.", "a", "b");
    assert!(build_live_experiment_definition(&source, materialized(), "A".to_string(), "A".to_string(), vec![]).is_err());
}
