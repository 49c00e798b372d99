//! Properties that every validated envelope, case, certificate, pair and
//! endpoint has.
use vstd::prelude::*;
use crate::canonical::intervention_manifest_json;
use crate::live_harness::{endpoint_refusal, is_loopback_host};
use crate::loader::{
    case_fault, envelope_ok, json_digest, manifest_view, planner_input_ok, provenance_entry_ok,
    provenance_ok, relation_ok,
};
use crate::materialization::{CandidateExperimentPair, MaterializationSafetyCertificate};
use crate::model::{ControlledCase, ControlledEnvelope, EvaluationRecord, InterventionManifest};
use crate::oracle::{baseline_verdict, differs, expected_state, judged_record, judged_result, run_state, WorldExecution};
use crate::ordering::views;
use crate::pair_shape::{common_events_same, event_ids, moved, outside, pair_shape_ok, removal_ok, same_event_id_set, scrubbed};

verus! {

proof fn lemma_no_evaluation_only(entries: Seq<crate::model::SourceProvenance>)
    requires
        provenance_ok(entries, true),
    ensures
        forall|i: int| 0 <= i < entries.len() ==> !((#[trigger] entries[i]).classification is EvaluationOnly),
{
    assert forall|i: int| 0 <= i < entries.len() implies !((#[trigger] entries[i]).classification is EvaluationOnly) by {
        assert(provenance_entry_ok(entries[i], true));
    }
}

/// The planner-visible part of a valid envelope carries no evaluation-only
/// provenance: not on the planner input, not on an event, not on a relation.
pub proof fn law_planner_input_excludes_evaluation_only_provenance(e: ControlledEnvelope)
    requires
        envelope_ok(e),
    ensures
        forall|i: int| 0 <= i < e.trace.planner_input.provenance.len()
            ==> !((#[trigger] e.trace.planner_input.provenance@[i]).classification is EvaluationOnly),
        forall|k: int, i: int| 0 <= k < e.trace.planner_input.events.len() && 0 <= i < e.trace.planner_input.events@[k].provenance.len()
            ==> !((#[trigger] e.trace.planner_input.events@[k].provenance@[i]).classification is EvaluationOnly),
        forall|k: int, i: int| 0 <= k < e.trace.planner_input.relations.len() && 0 <= i < e.trace.planner_input.relations@[k].provenance.len()
            ==> !((#[trigger] e.trace.planner_input.relations@[k].provenance@[i]).classification is EvaluationOnly),
{
    let input = e.trace.planner_input;
    assert(planner_input_ok(input));
    lemma_no_evaluation_only(input.provenance@);
    assert forall|k: int, i: int| 0 <= k < input.events.len() && 0 <= i < input.events@[k].provenance.len()
        implies !((#[trigger] input.events@[k].provenance@[i]).classification is EvaluationOnly) by {
        assert(crate::loader::event_local_ok(input.events@[k], k));
        lemma_no_evaluation_only(input.events@[k].provenance@);
    }
    assert forall|k: int, i: int| 0 <= k < input.relations.len() && 0 <= i < input.relations@[k].provenance.len()
        implies !((#[trigger] input.relations@[k].provenance@[i]).classification is EvaluationOnly) by {
        assert(relation_ok(input.events@, input.relations@[k]));
        lemma_no_evaluation_only(input.relations@[k].provenance@);
    }
}

/// A valid case has two valid envelopes whose sidecars both carry the case's
/// manifest, and its manifest hash is the canonical hash of that manifest.
pub proof fn law_valid_case_binds_its_manifest(c: ControlledCase)
    requires
        case_fault(c) is None,
    ensures
        envelope_ok(c.baseline),
        envelope_ok(c.intervention),
        manifest_view(c.baseline.evaluation_sidecar.intervention_manifest) == manifest_view(c.manifest),
        manifest_view(c.intervention.evaluation_sidecar.intervention_manifest) == manifest_view(c.manifest),
        c.manifest_hash@ == json_digest(intervention_manifest_json(c.manifest)),
        c.manifest.baseline_trace_id@ == c.baseline.trace.trace_id@,
        c.manifest.variant_trace_id@ == c.intervention.trace.trace_id@,
        c.intervention.trace.baseline_trace_id@ == c.baseline.trace.trace_id@,
{
    reveal(case_fault);
}

/// A valid case never compresses, and its intervention trace is a control
/// exactly when the manifest declares no change.
pub proof fn law_valid_case_role_follows_class(c: ControlledCase)
    requires
        case_fault(c) is None,
    ensures
        !(c.manifest.intervention_class is Compress),
        c.baseline.trace.variant_role is Baseline,
        (c.intervention.trace.variant_role is Control) <==> (c.manifest.intervention_class is NoChange),
        (c.intervention.trace.variant_role is Variant) <==> !(c.manifest.intervention_class is NoChange),
{
    reveal(case_fault);
    assert(pair_shape_ok(c.baseline.trace.planner_input, c.intervention.trace.planner_input, c.manifest));
}

/// In a valid case every baseline event that is not a target reappears in
/// the same relative order and unchanged but for its position, its order
/// metadata and its links to targets.
pub proof fn law_valid_case_keeps_undeclared_events(c: ControlledCase)
    requires
        case_fault(c) is None,
    ensures
        ({
            let b = c.baseline.trace.planner_input.events@;
            let i = c.intervention.trace.planner_input.events@;
            let t = views(c.manifest.target_event_ids@);
            &&& event_ids(b).filter(outside(t)) == event_ids(i).filter(outside(t))
            &&& common_events_same(b, i, t)
        }),
{
    reveal(case_fault);
}

/// A valid removal drops exactly the declared targets from the baseline.
pub proof fn law_removal_drops_exactly_the_targets(c: ControlledCase)
    requires
        case_fault(c) is None,
        c.manifest.intervention_class is Remove,
    ensures
        removal_ok(c.baseline.trace.planner_input.events@, c.intervention.trace.planner_input.events@, views(c.manifest.target_event_ids@)),
{
    reveal(case_fault);
}

/// A valid deferral or relocation keeps every event identity and relation,
/// and moves every target.
pub proof fn law_relocation_moves_only_the_targets(c: ControlledCase)
    requires
        case_fault(c) is None,
        c.manifest.intervention_class is Defer || c.manifest.intervention_class is Relocate,
    ensures
        ({
            let b = c.baseline.trace.planner_input;
            let i = c.intervention.trace.planner_input;
            let t = views(c.manifest.target_event_ids@);
            &&& same_event_id_set(b.events@, i.events@)
            &&& scrubbed(b.relations@, b.events@, t) == scrubbed(i.relations@, b.events@, t)
            &&& forall|j: int| 0 <= j < t.len() ==> moved(b.events@, i.events@, #[trigger] t[j])
        }),
{
    reveal(case_fault);
}

/// A valid no-change control keeps the event order and every relation that
/// touches no target.
pub proof fn law_control_keeps_order_and_relations(c: ControlledCase)
    requires
        case_fault(c) is None,
        c.manifest.intervention_class is NoChange,
    ensures
        ({
            let b = c.baseline.trace.planner_input;
            let i = c.intervention.trace.planner_input;
            let t = views(c.manifest.target_event_ids@);
            &&& event_ids(b.events@) == event_ids(i.events@)
            &&& scrubbed(b.relations@, b.events@, t) == scrubbed(i.relations@, b.events@, t)
        }),
{
    reveal(case_fault);
}

/// A valid certificate reports all twelve invariants as passed, and every
/// conservation check it records succeeded.
pub proof fn law_valid_certificate_passes_every_invariant(c: MaterializationSafetyCertificate)
    requires
        c.certificate_ok(),
    ensures
        forall|i: int| 0 <= i < c.invariant_results.len() ==> (#[trigger] c.invariant_results@[i]).passed,
        c.source_identity_verified && c.candidate_identity_verified && c.authorized_transformation_verified,
        c.content_conservation && c.artifact_conservation && c.tool_conservation,
        c.envelope_conservation && c.trust_conservation && c.provenance_conservation,
        c.order_change_only,
{
    assert(c.expected_outcomes()[0] && c.expected_outcomes()[1] && c.expected_outcomes()[2]);
    assert(c.expected_outcomes()[3] && c.expected_outcomes()[4] && c.expected_outcomes()[5]);
    assert(c.expected_outcomes()[6] && c.expected_outcomes()[7] && c.expected_outcomes()[8]);
    assert(c.expected_outcomes()[9]);
    assert forall|i: int| 0 <= i < c.invariant_results.len() implies (#[trigger] c.invariant_results@[i]).passed by {
        assert(c.expected_outcomes()[i]);
    }
}

/// A valid experiment pair compares two different cases, and its
/// fingerprint is determined by its identity fields.
pub proof fn law_valid_pair_is_deterministic(p: CandidateExperimentPair, q: CandidateExperimentPair)
    requires
        p.pair_ok(),
        q.pair_ok(),
        p.schema_id@ == q.schema_id@,
        p.schema_version == q.schema_version,
        p.source_request_fingerprint@ == q.source_request_fingerprint@,
        p.candidate_request_fingerprint@ == q.candidate_request_fingerprint@,
        p.candidate_fingerprint@ == q.candidate_fingerprint@,
        p.safety_certificate_fingerprint@ == q.safety_certificate_fingerprint@,
        p.source_case_id@ == q.source_case_id@,
        p.candidate_case_id@ == q.candidate_case_id@,
        p.provenance@ == q.provenance@,
    ensures
        p.source_case_id@ != p.candidate_case_id@,
        p.pair_fingerprint@ == q.pair_fingerprint@,
{
    assert(crate::materialization::pair_identity_json(p) == crate::materialization::pair_identity_json(q));
}

/// An accepted endpoint is a plain HTTP URL with a loopback host and no
/// credentials, query or fragment.
pub proof fn law_accepted_endpoint_is_plain_loopback_http(
    parsed: Result<(Seq<char>, Seq<char>, Option<Seq<char>>, Option<Seq<char>>, Option<Seq<char>>, Option<Seq<char>>), Seq<char>>,
)
    requires
        endpoint_refusal(parsed) is None,
    ensures
        parsed is Ok,
        parsed->Ok_0.0 == "http"@,
        parsed->Ok_0.1 == ""@,
        parsed->Ok_0.2 is None,
        parsed->Ok_0.4 is None,
        parsed->Ok_0.5 is None,
        parsed->Ok_0.3 is Some,
        is_loopback_host(parsed->Ok_0.3->Some_0),
{
}

/// A pass means both runs completed, the baseline in its expected state, and
/// the intervention in exactly the baseline's final state.
pub proof fn law_pass_requires_identical_final_state(
    baseline: ControlledEnvelope,
    intervention: ControlledEnvelope,
    b: WorldExecution,
    i: WorldExecution,
)
    requires
        judged_result(baseline, intervention, b, i) is Pass,
    ensures
        b.status is Complete && b.completed && run_state(b) == expected_state(baseline),
        i.status is Complete && i.completed && run_state(i) == expected_state(intervention),
        run_state(i) == run_state(b),
{
}

/// A baseline run that does not satisfy its task predicate makes the pair
/// an invalid baseline, whatever the intervention run did; it is never
/// reported as a failure of the intervention.
pub proof fn law_failed_baseline_is_invalid_not_a_failure(
    baseline: ControlledEnvelope,
    intervention: ControlledEnvelope,
    b: WorldExecution,
    i: WorldExecution,
)
    requires
        !(b.status is Unresolved),
        !(b.status is Complete) || !b.completed || run_state(b) != expected_state(baseline),
    ensures
        judged_result(baseline, intervention, b, i) is InvalidBaseline,
{
}

/// Once the baseline is valid, the record lists no collateral key exactly
/// when both runs end in the same state.
pub proof fn law_no_collateral_iff_same_final_state(
    rec: EvaluationRecord,
    baseline: ControlledEnvelope,
    intervention: ControlledEnvelope,
    manifest: InterventionManifest,
    b: WorldExecution,
    i: WorldExecution,
)
    requires
        judged_record(rec, baseline, intervention, manifest, b, i),
        baseline_verdict(baseline, b) is None,
    ensures
        rec.collateral_state_keys.len() == 0 <==> run_state(b) == run_state(i),
{
    let keys = views(rec.collateral_state_keys@);
    let differing = Set::new(|k: Seq<char>| differs(run_state(b), run_state(i), k));
    assert(keys.to_set() == differing);
    if rec.collateral_state_keys.len() == 0 {
        assert forall|k: Seq<char>| !differs(run_state(b), run_state(i), k) by {
            if differs(run_state(b), run_state(i), k) {
                assert(differing.contains(k));
                assert(keys.to_set().contains(k));
            }
        }
        assert forall|k: Seq<char>| run_state(b).dom().contains(k) <==> run_state(i).dom().contains(k) by {
            assert(!differs(run_state(b), run_state(i), k));
        }
        assert forall|k: Seq<char>| run_state(b).dom().contains(k) implies run_state(b)[k] == run_state(i)[k] by {
            assert(!differs(run_state(b), run_state(i), k));
        }
        assert(run_state(b) =~= run_state(i));
    }
    if run_state(b) == run_state(i) && rec.collateral_state_keys.len() > 0 {
        assert(keys.to_set().contains(keys[0]));
        assert(!differs(run_state(b), run_state(i), keys[0]));
    }
}

} // verus!
