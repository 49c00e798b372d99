use prefixity_controlled_benchmark::error::BenchmarkError;
use prefixity_controlled_benchmark::fixtures::{build_seed, seed_source_hash};
use prefixity_controlled_benchmark::loader::{
    canonical_envelope_json, envelope_hash, manifest_hash, validate_case, validate_envelope,
};
use prefixity_controlled_benchmark::model::{
    AggregateCounts, BenchmarkReport, EvaluationRecord, InterventionClass, OracleResult, PlannerRun,
    VariantRole, BENCHMARK_ID,
};
use prefixity_controlled_benchmark::report::canonical_report_json;

#[test]
fn seed_builds_twelve_valid_cases() {
    let cases = build_seed().expect("seed builds");
    assert_eq!(cases.len(), 12);
    let ids: Vec<&str> = cases.iter().map(|c| c.scenario_id.as_str()).collect();
    assert_eq!(ids[0], "S01_irrelevant_context_removal");
    assert_eq!(ids[11], "S12_ambiguous_evidence");
    for case in &cases {
        assert!(validate_case(case).is_ok());
        assert_eq!(case.baseline.benchmark_id, BENCHMARK_ID);
        assert_eq!(case.baseline.trace.variant_role, VariantRole::Baseline);
        let expected_role = if case.manifest.intervention_class == InterventionClass::NoChange {
            VariantRole::Control
        } else {
            VariantRole::Variant
        };
        assert_eq!(case.intervention.trace.variant_role, expected_role);
        assert_eq!(case.manifest_hash, manifest_hash(&case.manifest).unwrap());
    }
}

#[test]
fn seed_scenario_seed_is_the_times_33_hash_of_the_id() {
    let cases = build_seed().unwrap();
    assert_eq!(cases[0].baseline.scenario.fixed_seed, 1835854312);
}

#[test]
fn seed_source_hash_is_the_hash_of_the_sorted_ids() {
    assert_eq!(
        seed_source_hash().unwrap(),
        "cf8e4d29aab7ebae62b1e4493ca6fdcfb8b32778e44061559799fa765e2e0170"
    );
}

#[test]
fn canonical_envelope_json_is_deterministic_and_hashes_to_envelope_hash() {
    let cases = build_seed().unwrap();
    let first = canonical_envelope_json(&cases[0].baseline).unwrap();
    let second = canonical_envelope_json(&cases[0].baseline).unwrap();
    assert_eq!(first, second);
    let text = String::from_utf8(first.clone()).unwrap();
    assert!(text.starts_with("{\"benchmark_id\":\"prefixity-controlled-seed-v1\""));
    let hash = envelope_hash(&cases[0].baseline).unwrap();
    assert_eq!(hash, prefixity_controlled_benchmark::hashing::sha256_hex(&first));
}

#[test]
fn wrong_schema_version_is_a_validation_error() {
    let mut cases = build_seed().unwrap();
    let mut envelope = cases.remove(0).baseline;
    envelope.schema_version = 2;
    assert!(matches!(validate_envelope(&envelope), Err(BenchmarkError::Validation { .. })));
}

#[test]
fn tampered_manifest_hash_is_a_hash_mismatch() {
    let mut cases = build_seed().unwrap();
    let mut case = cases.remove(0);
    case.manifest_hash = "0".repeat(64);
    match validate_case(&case) {
        Err(BenchmarkError::HashMismatch { what, found, .. }) => {
            assert_eq!(what, "S01_irrelevant_context_removal intervention manifest");
            assert_eq!(found, "0".repeat(64));
        }
        other => panic!("unexpected {other:?}"),
    }
}

#[test]
fn undeclared_event_mutation_is_a_pair_error() {
    let mut cases = build_seed().unwrap();
    let mut case = cases.remove(0);
    case.intervention.trace.planner_input.events[0].actor_role =
        prefixity_controlled_benchmark::model::ActorRole::System;
    match validate_case(&case) {
        Err(BenchmarkError::PairValidation { scenario_id, .. }) => {
            assert_eq!(scenario_id, "S01_irrelevant_context_removal");
        }
        other => panic!("unexpected {other:?}"),
    }
}

#[test]
fn canonical_json_is_what_serde_json_writes_with_sorted_keys() {
    for case in build_seed().unwrap() {
        for envelope in [&case.baseline, &case.intervention] {
            let mine = canonical_envelope_json(envelope).unwrap();
            let value: serde_json::Value = serde_json::from_slice(&mine).expect("valid JSON");
            assert_eq!(serde_json::to_vec(&value).unwrap(), mine);
        }
    }
}

#[test]
fn canonical_json_escapes_like_serde_json() {
    let mut case = build_seed().unwrap().remove(0);
    case.baseline.scenario.task_revision = "quote \" backslash \\ newline \n tab \t bell \u{7} snow \u{2603}".to_string();
    let mine = canonical_envelope_json(&case.baseline).unwrap();
    let value: serde_json::Value = serde_json::from_slice(&mine).expect("valid JSON");
    assert_eq!(serde_json::to_vec(&value).unwrap(), mine);
    assert_eq!(
        value["scenario"]["task_revision"],
        serde_json::Value::String(case.baseline.scenario.task_revision.clone())
    );
}

#[test]
fn report_json_is_canonical_and_keeps_null_hashes() {
    let report = BenchmarkReport {
        artifact_id: BENCHMARK_ID.to_string(),
        schema_id: "prefixity.controlled-benchmark".to_string(),
        schema_version: 1,
        oracle_version: "prefixity-scripted-oracle-v1".to_string(),
        scenario_count: 1,
        baseline_count: 1,
        variant_count: 1,
        control_count: 0,
        manifest_hashes: vec![("S01".to_string(), "a".repeat(64))],
        aggregate_hash: "b".repeat(64),
        evaluations: vec![EvaluationRecord {
            scenario_id: "S01".to_string(),
            manifest_id: "S01:manifest".to_string(),
            baseline_trace_id: "S01:baseline".to_string(),
            intervention_trace_id: "S01:variant".to_string(),
            result: OracleResult::Pass,
            baseline_completed: true,
            intervention_completed: true,
            baseline_final_state_hash: None,
            intervention_final_state_hash: Some("c".repeat(64)),
            collateral_state_keys: vec![],
            note: "ok".to_string(),
        }],
        aggregate_counts: AggregateCounts { pass: 1, fail: 0, invalid_baseline: 0, inconclusive: 0 },
        planner_runs: vec![PlannerRun {
            scenario_id: "S01".to_string(),
            trace_id: "S01:baseline".to_string(),
            classes: vec!["keep".to_string()],
            plan_json_hash: "d".repeat(64),
        }],
    };
    let bytes = canonical_report_json(&report).unwrap();
    let value: serde_json::Value = serde_json::from_slice(&bytes).unwrap();
    assert_eq!(serde_json::to_vec(&value).unwrap(), bytes);
    assert_eq!(value["evaluations"][0]["baseline_final_state_hash"], serde_json::Value::Null);
    assert_eq!(value["evaluations"][0]["result"], serde_json::Value::String("PASS".to_string()));
    assert_eq!(value["manifest_hashes"]["S01"], serde_json::Value::String("a".repeat(64)));
}

#[test]
fn seed_controls_and_trace_identities() {
    let cases = build_seed().expect("seed builds");
    for (i, case) in cases.iter().enumerate() {
        let id = &case.scenario_id;
        assert!(id.starts_with(&format!("S{:02}_", i + 1)));
        assert_eq!(case.baseline.trace.trace_id, format!("{id}:baseline"));
        assert_eq!(case.baseline.trace.variant_role, VariantRole::Baseline);
        let control = i >= 10;
        assert_eq!(case.manifest.intervention_class == InterventionClass::NoChange, control);
        if control {
            assert_eq!(case.intervention.trace.trace_id, format!("{id}:control"));
            assert_eq!(case.intervention.trace.variant_role, VariantRole::Control);
        } else {
            assert_eq!(case.intervention.trace.trace_id, format!("{id}:variant"));
            assert_eq!(case.intervention.trace.variant_role, VariantRole::Variant);
        }
        assert_eq!(case.manifest_hash, manifest_hash(&case.manifest).unwrap());
        assert_eq!(case.manifest_hash.len(), 64);
    }
    assert_eq!(seed_source_hash().unwrap(), seed_source_hash().unwrap());
}
