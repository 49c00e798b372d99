use prefixity_controlled_benchmark::error::BenchmarkError;
use prefixity_controlled_benchmark::fixtures::build_seed;
use prefixity_controlled_benchmark::loader::{validate_case, validate_envelope};
use prefixity_controlled_benchmark::model::{EvidenceClass, InterventionClass};

fn event_ids(events: &[prefixity_controlled_benchmark::model::Event]) -> Vec<String> {
    events.iter().map(|e| e.event_id.clone()).collect()
}

#[test]
fn seed_planner_inputs_carry_no_evaluation_only_provenance() {
    for case in build_seed().unwrap() {
        for envelope in [&case.baseline, &case.intervention] {
            let input = &envelope.trace.planner_input;
            assert!(input.provenance.iter().all(|p| p.classification != EvidenceClass::EvaluationOnly));
            for event in &input.events {
                assert!(event.provenance.iter().all(|p| p.classification != EvidenceClass::EvaluationOnly));
            }
            for relation in &input.relations {
                assert!(relation.provenance.iter().all(|p| p.classification != EvidenceClass::EvaluationOnly));
            }
        }
    }
}

#[test]
fn evaluation_only_provenance_in_an_event_is_rejected() {
    let case = build_seed().unwrap().remove(0);
    let mut envelope = case.baseline.clone();
    envelope.trace.planner_input.events[1].provenance[0].classification = EvidenceClass::EvaluationOnly;
    assert!(matches!(validate_envelope(&envelope), Err(BenchmarkError::Validation { .. })));
}

#[test]
fn removal_cases_drop_exactly_their_targets() {
    for case in build_seed().unwrap() {
        if case.manifest.intervention_class != InterventionClass::Remove {
            continue;
        }
        let before = event_ids(&case.baseline.trace.planner_input.events);
        let after = event_ids(&case.intervention.trace.planner_input.events);
        assert_eq!(before.len(), after.len() + case.manifest.target_event_ids.len());
        for target in &case.manifest.target_event_ids {
            assert!(before.contains(target));
            assert!(!after.contains(target));
        }
        let kept: Vec<String> = before.into_iter().filter(|id| !case.manifest.target_event_ids.contains(id)).collect();
        assert_eq!(kept, after);
    }
}

#[test]
fn relocation_cases_keep_identities_and_move_targets() {
    for case in build_seed().unwrap() {
        let class = case.manifest.intervention_class;
        if class != InterventionClass::Defer && class != InterventionClass::Relocate {
            continue;
        }
        let mut before = event_ids(&case.baseline.trace.planner_input.events);
        let mut after = event_ids(&case.intervention.trace.planner_input.events);
        for target in &case.manifest.target_event_ids {
            let b = before.iter().position(|id| id == target).unwrap();
            let a = after.iter().position(|id| id == target).unwrap();
            assert_ne!(a, b);
        }
        before.sort();
        after.sort();
        assert_eq!(before, after);
    }
}

#[test]
fn controls_keep_the_event_order() {
    let mut controls = 0;
    for case in build_seed().unwrap() {
        if case.manifest.intervention_class == InterventionClass::NoChange {
            controls += 1;
            assert_eq!(
                event_ids(&case.baseline.trace.planner_input.events),
                event_ids(&case.intervention.trace.planner_input.events)
            );
        }
    }
    assert_eq!(controls, 2);
}

#[test]
fn reordering_a_control_is_a_pair_error() {
    let mut case = build_seed().unwrap().remove(10);
    assert_eq!(case.manifest.intervention_class, InterventionClass::NoChange);
    let events = &mut case.intervention.trace.planner_input.events;
    events.swap(0, 1);
    for (index, event) in events.iter_mut().enumerate() {
        event.sequence_index = index as u32;
    }
    assert!(matches!(validate_case(&case), Err(BenchmarkError::PairValidation { .. })));
}
