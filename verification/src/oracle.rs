//! The deterministic quality oracle: it judges a baseline/intervention pair
//! by the final states that scripted-world executions reached.
use vstd::prelude::*;
use crate::error::{in_memory_validation, BenchmarkError};
use crate::canonical::intervention_manifest_json;
use crate::loader::{case_fault, envelope_ok, json_digest, validate_case, validate_envelope, CaseFault};
use crate::pair_shape::pair_error_of;
use crate::model::{ControlledCase, ControlledEnvelope, EvaluationRecord, InterventionManifest, OracleResult};
use crate::ordering::{sort_unique, sorted_strict, views};
use crate::text::{opt_view, owned, str_eq};

verus! {

#[derive(Debug, Clone, Copy, PartialEq, Eq, Structural)]
pub enum ExecutionStatus {
    Complete,
    TaskFailure,
    Unresolved,
}

/// What the oracle reads of one scripted-world execution. `final_state` is
/// the final key/value state; a later entry for a key replaces an earlier one.
#[derive(Debug, Clone, PartialEq, Eq)]
pub struct WorldExecution {
    pub status: ExecutionStatus,
    pub completed: bool,
    pub final_state: Vec<(String, String)>,
    pub final_state_hash: Option<String>,
}

pub open spec fn state_view(s: Seq<(String, String)>) -> Seq<(Seq<char>, Seq<char>)> {
    s.map_values(|e: (String, String)| (e.0@, e.1@))
}

/// The map that inserting the entries in order builds.
pub open spec fn state_map(s: Seq<(Seq<char>, Seq<char>)>) -> Map<Seq<char>, Seq<char>>
    decreases s.len(),
{
    if s.len() == 0 {
        Map::empty()
    } else {
        state_map(s.drop_last()).insert(s.last().0, s.last().1)
    }
}

pub open spec fn opt_get(m: Map<Seq<char>, Seq<char>>, k: Seq<char>) -> Option<Seq<char>> {
    if m.dom().contains(k) { Some(m[k]) } else { None }
}

/// The final state of an execution, as a map.
pub open spec fn run_state(run: WorldExecution) -> Map<Seq<char>, Seq<char>> {
    state_map(state_view(run.final_state@))
}

/// The state keys on which two executions disagree (present in one only, or
/// with different values).
pub open spec fn differs(a: Map<Seq<char>, Seq<char>>, b: Map<Seq<char>, Seq<char>>, k: Seq<char>) -> bool {
    opt_get(a, k) != opt_get(b, k)
}

proof fn lemma_state_map_get(s: Seq<(Seq<char>, Seq<char>)>, k: Seq<char>)
    ensures
        (forall|t: int| 0 <= t < s.len() ==> (#[trigger] s[t]).0 != k) ==> opt_get(state_map(s), k) is None,
        forall|j: int| 0 <= j < s.len() && (#[trigger] s[j]).0 == k && (forall|t: int| j < t < s.len() ==> (#[trigger] s[t]).0 != k)
            ==> opt_get(state_map(s), k) == Some(s[j].1),
    decreases s.len(),
{
    if s.len() > 0 {
        let rest = s.drop_last();
        lemma_state_map_get(rest, k);
        assert forall|j: int| 0 <= j < s.len() && (#[trigger] s[j]).0 == k && (forall|t: int| j < t < s.len() ==> (#[trigger] s[t]).0 != k)
            implies opt_get(state_map(s), k) == Some(s[j].1) by {
            if j < s.len() - 1 {
                assert(rest[j] == s[j]);
                assert forall|t: int| j < t < rest.len() implies (#[trigger] rest[t]).0 != k by {
                    assert(rest[t] == s[t]);
                }
            }
        }
        if forall|t: int| 0 <= t < s.len() ==> (#[trigger] s[t]).0 != k {
            assert forall|t: int| 0 <= t < rest.len() implies (#[trigger] rest[t]).0 != k by {
                assert(rest[t] == s[t]);
            }
        }
    }
}

/// The last position holding key `k`.
fn lookup_last(s: &Vec<(String, String)>, k: &str) -> (r: Option<usize>)
    ensures
        match r {
            Some(j) => j < s.len() && s@[j as int].0@ == k@
                && opt_get(state_map(state_view(s@)), k@) == Some(s@[j as int].1@),
            None => opt_get(state_map(state_view(s@)), k@) is None,
        },
{
    let ghost v = state_view(s@);
    let mut i: usize = s.len();
    while i > 0
        invariant
            i <= s.len(),
            v == state_view(s@),
            forall|t: int| i <= t < s.len() ==> (#[trigger] v[t]).0 != k@,
        decreases i,
    {
        i = i - 1;
        if str_eq(s[i].0.as_str(), k) {
            proof {
                lemma_state_map_get(v, k@);
                assert(v[i as int].0 == k@);
            }
            return Some(i);
        }
    }
    proof {
        lemma_state_map_get(v, k@);
    }
    None
}

/// Whether two states agree on key `k`.
fn same_value(a: &Vec<(String, String)>, b: &Vec<(String, String)>, k: &str) -> (r: bool)
    ensures
        r == !differs(state_map(state_view(a@)), state_map(state_view(b@)), k@),
{
    match (lookup_last(a, k), lookup_last(b, k)) {
        (Some(x), Some(y)) => str_eq(a[x].1.as_str(), b[y].1.as_str()),
        (None, None) => true,
        _ => false,
    }
}

proof fn lemma_key_present(s: Seq<(Seq<char>, Seq<char>)>, k: Seq<char>)
    requires
        opt_get(state_map(s), k) is Some,
    ensures
        exists|t: int| 0 <= t < s.len() && (#[trigger] s[t]).0 == k,
{
    lemma_state_map_get(s, k);
}

/// Whether two states are the same map.
fn same_state(a: &Vec<(String, String)>, b: &Vec<(String, String)>) -> (r: bool)
    ensures
        r == (state_map(state_view(a@)) == state_map(state_view(b@))),
{
    let ghost ma = state_map(state_view(a@));
    let ghost mb = state_map(state_view(b@));
    let mut t: usize = 0;
    while t < a.len()
        invariant
            t <= a.len(),
            ma == state_map(state_view(a@)),
            mb == state_map(state_view(b@)),
            forall|u: int| 0 <= u < t ==> !differs(ma, mb, (#[trigger] a@[u]).0@),
        decreases a.len() - t,
    {
        if !same_value(a, b, a[t].0.as_str()) {
            return false;
        }
        t = t + 1;
    }
    let mut t: usize = 0;
    while t < b.len()
        invariant
            t <= b.len(),
            ma == state_map(state_view(a@)),
            mb == state_map(state_view(b@)),
            forall|u: int| 0 <= u < a.len() ==> !differs(ma, mb, (#[trigger] a@[u]).0@),
            forall|u: int| 0 <= u < t ==> !differs(ma, mb, (#[trigger] b@[u]).0@),
        decreases b.len() - t,
    {
        if !same_value(a, b, b[t].0.as_str()) {
            return false;
        }
        t = t + 1;
    }
    proof {
        assert forall|k: Seq<char>| !differs(ma, mb, k) by {
            if opt_get(ma, k) is Some {
                lemma_key_present(state_view(a@), k);
                let u = choose|u: int| 0 <= u < state_view(a@).len() && (#[trigger] state_view(a@)[u]).0 == k;
                assert(a@[u].0@ == k);
            } else if opt_get(mb, k) is Some {
                lemma_key_present(state_view(b@), k);
                let u = choose|u: int| 0 <= u < state_view(b@).len() && (#[trigger] state_view(b@)[u]).0 == k;
                assert(b@[u].0@ == k);
            }
        }
        assert forall|k: Seq<char>| ma.dom().contains(k) <==> mb.dom().contains(k) by {
            assert(!differs(ma, mb, k));
        }
        assert forall|k: Seq<char>| ma.dom().contains(k) implies ma[k] == mb[k] by {
            assert(!differs(ma, mb, k));
        }
        assert(ma =~= mb);
    }
    true
}

/// The task-specific final state entries of a seed scenario.
pub open spec fn outcome_entries(scenario_id: Seq<char>) -> Seq<(Seq<char>, Seq<char>)> {
    if scenario_id == "S01_irrelevant_context_removal"@ {
        seq![("profile_updated"@, "done"@)]
    } else if scenario_id == "S02_load_bearing_removal_failure"@ {
        seq![("inventory_checked"@, "ready"@), ("checkout"@, "complete"@)]
    } else if scenario_id == "S03_explicit_supersession_deferral"@ {
        seq![("policy_version"@, "v2"@)]
    } else if scenario_id == "S04_action_result_needed_later"@ {
        seq![("record_created"@, "yes"@), ("record_updated"@, "yes"@)]
    } else if scenario_id == "S05_action_result_not_needed"@ {
        seq![("profile_updated"@, "done"@)]
    } else if scenario_id == "S06_dependency_chain_preservation"@ {
        seq![("record_created"@, "yes"@), ("chain_created"@, "yes"@), ("authorized"@, "yes"@), ("committed"@, "yes"@)]
    } else if scenario_id == "S07_safe_context_relocation"@ {
        seq![("reference_execution"@, "complete"@)]
    } else if scenario_id == "S08_protocol_breaking_relocation"@ {
        seq![("handshake_execution"@, "complete"@)]
    } else if scenario_id == "S09_repeated_context_removal"@ {
        seq![("reference_execution"@, "complete"@)]
    } else if scenario_id == "S10_repeated_but_load_bearing"@ {
        seq![("load_bearing_execution"@, "complete"@)]
    } else if scenario_id == "S11_already_efficient_noop"@ {
        seq![("minimal_task"@, "complete"@)]
    } else if scenario_id == "S12_ambiguous_evidence"@ {
        seq![("ambiguous_task"@, "complete"@)]
    } else {
        seq![]
    }
}

fn outcome_entries_exec(scenario_id: &str) -> (r: Vec<(String, String)>)
    ensures
        state_view(r@) == outcome_entries(scenario_id@),
{
    let mut r: Vec<(String, String)> = Vec::new();
    if str_eq(scenario_id, "S01_irrelevant_context_removal") {
        r.push((owned("profile_updated"), owned("done")));
        assert(state_view(r@) =~= seq![("profile_updated"@, "done"@)]);
    } else if str_eq(scenario_id, "S02_load_bearing_removal_failure") {
        r.push((owned("inventory_checked"), owned("ready")));
        r.push((owned("checkout"), owned("complete")));
        assert(state_view(r@) =~= seq![("inventory_checked"@, "ready"@), ("checkout"@, "complete"@)]);
    } else if str_eq(scenario_id, "S03_explicit_supersession_deferral") {
        r.push((owned("policy_version"), owned("v2")));
        assert(state_view(r@) =~= seq![("policy_version"@, "v2"@)]);
    } else if str_eq(scenario_id, "S04_action_result_needed_later") {
        r.push((owned("record_created"), owned("yes")));
        r.push((owned("record_updated"), owned("yes")));
        assert(state_view(r@) =~= seq![("record_created"@, "yes"@), ("record_updated"@, "yes"@)]);
    } else if str_eq(scenario_id, "S05_action_result_not_needed") {
        r.push((owned("profile_updated"), owned("done")));
        assert(state_view(r@) =~= seq![("profile_updated"@, "done"@)]);
    } else if str_eq(scenario_id, "S06_dependency_chain_preservation") {
        r.push((owned("record_created"), owned("yes")));
        r.push((owned("chain_created"), owned("yes")));
        r.push((owned("authorized"), owned("yes")));
        r.push((owned("committed"), owned("yes")));
        assert(state_view(r@) =~= seq![("record_created"@, "yes"@), ("chain_created"@, "yes"@), ("authorized"@, "yes"@), ("committed"@, "yes"@)]);
    } else if str_eq(scenario_id, "S07_safe_context_relocation") {
        r.push((owned("reference_execution"), owned("complete")));
        assert(state_view(r@) =~= seq![("reference_execution"@, "complete"@)]);
    } else if str_eq(scenario_id, "S08_protocol_breaking_relocation") {
        r.push((owned("handshake_execution"), owned("complete")));
        assert(state_view(r@) =~= seq![("handshake_execution"@, "complete"@)]);
    } else if str_eq(scenario_id, "S09_repeated_context_removal") {
        r.push((owned("reference_execution"), owned("complete")));
        assert(state_view(r@) =~= seq![("reference_execution"@, "complete"@)]);
    } else if str_eq(scenario_id, "S10_repeated_but_load_bearing") {
        r.push((owned("load_bearing_execution"), owned("complete")));
        assert(state_view(r@) =~= seq![("load_bearing_execution"@, "complete"@)]);
    } else if str_eq(scenario_id, "S11_already_efficient_noop") {
        r.push((owned("minimal_task"), owned("complete")));
        assert(state_view(r@) =~= seq![("minimal_task"@, "complete"@)]);
    } else if str_eq(scenario_id, "S12_ambiguous_evidence") {
        r.push((owned("ambiguous_task"), owned("complete")));
        assert(state_view(r@) =~= seq![("ambiguous_task"@, "complete"@)]);
    } else {
        assert(state_view(r@) =~= Seq::<(Seq<char>, Seq<char>)>::empty());
    }
    r
}

proof fn lemma_push_contains(s: Seq<Seq<char>>, x: Seq<char>, k: Seq<char>)
    ensures
        s.push(x).contains(k) <==> s.contains(k) || k == x,
{
    if s.contains(k) {
        let j = choose|j: int| 0 <= j < s.len() && s[j] == k;
        assert(s.push(x)[j] == k);
    }
    if k == x {
        assert(s.push(x)[s.len() as int] == k);
    }
    if s.push(x).contains(k) {
        let j = choose|j: int| 0 <= j < s.push(x).len() && s.push(x)[j] == k;
        if j < s.len() {
            assert(s[j] == k);
        }
    }
}

/// The keys on which the two states disagree, sorted, each once.
#[verifier::spinoff_prover]
fn differing_state_keys(a: &Vec<(String, String)>, b: &Vec<(String, String)>) -> (r: Vec<String>)
    ensures
        sorted_strict::<String>(views(r@)),
        views(r@).to_set() == Set::new(|k: Seq<char>| differs(state_map(state_view(a@)), state_map(state_view(b@)), k)),
{
    let ghost ma = state_map(state_view(a@));
    let ghost mb = state_map(state_view(b@));
    let mut keys: Vec<String> = Vec::new();
    let mut t: usize = 0;
    while t < a.len()
        invariant
            t <= a.len(),
            ma == state_map(state_view(a@)),
            mb == state_map(state_view(b@)),
            forall|k: Seq<char>| #[trigger] views(keys@).contains(k) <==> differs(ma, mb, k)
                && exists|u: int| 0 <= u < t && (#[trigger] a@[u]).0@ == k,
        decreases a.len() - t,
    {
        let ghost before = views(keys@);
        assert(forall|k: Seq<char>| #[trigger] before.contains(k) <==> differs(ma, mb, k)
                && exists|u: int| 0 <= u < t && (#[trigger] a@[u]).0@ == k);
        let pushed = !same_value(a, b, a[t].0.as_str());
        if pushed {
            keys.push(a[t].0.clone());
        }
        let ghost last = t as int;
        t = t + 1;
        proof {
            let x = a@[last].0@;
            assert(pushed == differs(ma, mb, x));
            if pushed {
                assert(views(keys@) =~= before.push(x));
            } else {
                assert(views(keys@) =~= before);
            }
            assert forall|k: Seq<char>| #[trigger] views(keys@).contains(k) <==> differs(ma, mb, k)
                && exists|u: int| 0 <= u < t && (#[trigger] a@[u]).0@ == k by {
                lemma_push_contains(before, x, k);
                let in_prefix = exists|u: int| 0 <= u < last && (#[trigger] a@[u]).0@ == k;
                let in_next = exists|u: int| 0 <= u < t && (#[trigger] a@[u]).0@ == k;
                if in_next && !in_prefix {
                    let u = choose|u: int| 0 <= u < t && (#[trigger] a@[u]).0@ == k;
                    assert(u == last);
                    assert(k == x);
                }
                if in_prefix {
                    let u = choose|u: int| 0 <= u < last && (#[trigger] a@[u]).0@ == k;
                    assert(0 <= u < t && a@[u].0@ == k);
                }
                if k == x {
                    assert(a@[last].0@ == k);
                }
                assert(before.contains(k) <==> differs(ma, mb, k) && in_prefix);
            }
        }
    }
    let mut t: usize = 0;
    while t < b.len()
        invariant
            t <= b.len(),
            ma == state_map(state_view(a@)),
            mb == state_map(state_view(b@)),
            forall|k: Seq<char>| #[trigger] views(keys@).contains(k) <==> differs(ma, mb, k)
                && ((exists|u: int| 0 <= u < a.len() && (#[trigger] a@[u]).0@ == k)
                    || (exists|u: int| 0 <= u < t && (#[trigger] b@[u]).0@ == k)),
        decreases b.len() - t,
    {
        let ghost before = views(keys@);
        let pushed = !same_value(a, b, b[t].0.as_str());
        if pushed {
            keys.push(b[t].0.clone());
        }
        let ghost last = t as int;
        t = t + 1;
        proof {
            let x = b@[last].0@;
            assert(pushed == differs(ma, mb, x));
            if pushed {
                assert(views(keys@) =~= before.push(x));
            } else {
                assert(views(keys@) =~= before);
            }
            assert forall|k: Seq<char>| #[trigger] views(keys@).contains(k) <==> differs(ma, mb, k)
                && ((exists|u: int| 0 <= u < a.len() && (#[trigger] a@[u]).0@ == k)
                    || (exists|u: int| 0 <= u < t && (#[trigger] b@[u]).0@ == k)) by {
                lemma_push_contains(before, x, k);
                let in_a = exists|u: int| 0 <= u < a.len() && (#[trigger] a@[u]).0@ == k;
                let in_prefix = exists|u: int| 0 <= u < last && (#[trigger] b@[u]).0@ == k;
                let in_next = exists|u: int| 0 <= u < t && (#[trigger] b@[u]).0@ == k;
                if in_next && !in_prefix {
                    let u = choose|u: int| 0 <= u < t && (#[trigger] b@[u]).0@ == k;
                    assert(u == last);
                    assert(k == x);
                }
                if in_prefix {
                    let u = choose|u: int| 0 <= u < last && (#[trigger] b@[u]).0@ == k;
                    assert(0 <= u < t && b@[u].0@ == k);
                }
                if k == x {
                    assert(b@[last].0@ == k);
                }
                assert(before.contains(k) <==> differs(ma, mb, k) && (in_a || in_prefix));
            }
        }
    }
    proof {
        assert forall|k: Seq<char>| differs(ma, mb, k) implies views(keys@).contains(k) by {
            if opt_get(ma, k) is Some {
                lemma_key_present(state_view(a@), k);
                let u = choose|u: int| 0 <= u < state_view(a@).len() && (#[trigger] state_view(a@)[u]).0 == k;
                assert(a@[u].0@ == k);
            } else {
                lemma_key_present(state_view(b@), k);
                let u = choose|u: int| 0 <= u < state_view(b@).len() && (#[trigger] state_view(b@)[u]).0 == k;
                assert(b@[u].0@ == k);
            }
        }
    }
    let r = sort_unique(keys);
    proof {
        assert(views(r@).to_set() =~= Set::new(|k: Seq<char>| differs(ma, mb, k)));
    }
    r
}

/// The state a correct run of the scenario ends in.
pub open spec fn expected_state(e: ControlledEnvelope) -> Map<Seq<char>, Seq<char>> {
    let s = e.scenario;
    state_map(seq![
        ("scenario_id"@, s.scenario_id@),
        ("initial_state_id"@, s.initial_state_id@),
        ("task_revision"@, s.task_revision@),
    ] + outcome_entries(s.scenario_id@))
}

fn expected_final_state(e: &ControlledEnvelope) -> (r: Vec<(String, String)>)
    ensures
        state_map(state_view(r@)) == expected_state(*e),
{
    let s = &e.scenario;
    let mut r: Vec<(String, String)> = Vec::new();
    r.push((owned("scenario_id"), s.scenario_id.clone()));
    r.push((owned("initial_state_id"), s.initial_state_id.clone()));
    r.push((owned("task_revision"), s.task_revision.clone()));
    let outcome = outcome_entries_exec(s.scenario_id.as_str());
    let ghost base = state_view(r@);
    let mut i: usize = 0;
    while i < outcome.len()
        invariant
            i <= outcome.len(),
            state_view(r@) == base + state_view(outcome@).take(i as int),
        decreases outcome.len() - i,
    {
        let ghost old_r = state_view(r@);
        r.push((outcome[i].0.clone(), outcome[i].1.clone()));
        proof {
            assert(state_view(r@) =~= old_r.push(state_view(outcome@)[i as int]));
            assert(state_view(outcome@).take(i + 1) =~= state_view(outcome@).take(i as int).push(state_view(outcome@)[i as int]));
            assert(state_view(r@) =~= base + state_view(outcome@).take(i + 1));
        }
        i = i + 1;
    }
    proof {
        assert(state_view(outcome@).take(outcome.len() as int) =~= state_view(outcome@));
        assert(base =~= seq![
            ("scenario_id"@, s.scenario_id@),
            ("initial_state_id"@, s.initial_state_id@),
            ("task_revision"@, s.task_revision@),
        ]);
    }
    r
}

/// The verdict that the baseline run alone settles, if it settles one.
pub open spec fn baseline_verdict(baseline: ControlledEnvelope, b: WorldExecution) -> Option<OracleResult> {
    if b.status is Unresolved {
        Some(OracleResult::Inconclusive)
    } else if !(b.status is Complete) || !b.completed || run_state(b) != expected_state(baseline) {
        Some(OracleResult::InvalidBaseline)
    } else {
        None
    }
}

/// The oracle's verdict on a pair of runs.
pub open spec fn judged_result(baseline: ControlledEnvelope, intervention: ControlledEnvelope, b: WorldExecution, i: WorldExecution) -> OracleResult {
    match baseline_verdict(baseline, b) {
        Some(r) => r,
        None => if i.status is Unresolved {
            OracleResult::Inconclusive
        } else if i.status is TaskFailure {
            OracleResult::Fail
        } else if i.completed && run_state(i) == expected_state(intervention) && run_state(i) == run_state(b) {
            OracleResult::Pass
        } else {
            OracleResult::Fail
        },
    }
}

pub open spec fn result_note(r: OracleResult) -> Seq<char> {
    match r {
        OracleResult::Pass => "variant preserved task predicates and collateral invariants"@,
        OracleResult::Fail => "variant failed task predicates or collateral invariants"@,
        OracleResult::InvalidBaseline => "baseline was not a valid quality reference"@,
        OracleResult::Inconclusive => "execution did not produce a deterministic conclusion"@,
    }
}

pub open spec fn judged_note(baseline: ControlledEnvelope, intervention: ControlledEnvelope, b: WorldExecution, i: WorldExecution) -> Seq<char> {
    match baseline_verdict(baseline, b) {
        Some(OracleResult::Inconclusive) => "baseline execution is unresolved"@,
        Some(_) => "baseline did not satisfy its deterministic task predicate"@,
        None => result_note(judged_result(baseline, intervention, b, i)),
    }
}

/// The evaluation record of two runs of a pair under its manifest.
pub open spec fn judged_record(
    rec: EvaluationRecord,
    baseline: ControlledEnvelope,
    intervention: ControlledEnvelope,
    manifest: InterventionManifest,
    b: WorldExecution,
    i: WorldExecution,
) -> bool {
    &&& rec.scenario_id@ == baseline.scenario.scenario_id@
    &&& rec.manifest_id@ == manifest.manifest_id@
    &&& rec.baseline_trace_id@ == baseline.trace.trace_id@
    &&& rec.intervention_trace_id@ == intervention.trace.trace_id@
    &&& rec.result == judged_result(baseline, intervention, b, i)
    &&& rec.baseline_completed == b.completed
    &&& rec.intervention_completed == i.completed
    &&& opt_view(rec.baseline_final_state_hash) == opt_view(b.final_state_hash)
    &&& opt_view(rec.intervention_final_state_hash) == opt_view(i.final_state_hash)
    &&& rec.note@ == judged_note(baseline, intervention, b, i)
    &&& (baseline_verdict(baseline, b) is Some ==> rec.collateral_state_keys.len() == 0)
    &&& (baseline_verdict(baseline, b) is None ==> sorted_strict::<String>(views(rec.collateral_state_keys@))
        && views(rec.collateral_state_keys@).to_set() == Set::new(|k: Seq<char>| differs(run_state(b), run_state(i), k)))
}

fn copy_opt(s: &Option<String>) -> (r: Option<String>)
    ensures
        opt_view(r) == opt_view(*s),
{
    match s {
        Some(v) => Some(v.clone()),
        None => None,
    }
}

fn record(
    baseline: &ControlledEnvelope,
    intervention: &ControlledEnvelope,
    manifest: &InterventionManifest,
    result: OracleResult,
    baseline_run: &WorldExecution,
    intervention_run: &WorldExecution,
    collateral_state_keys: Vec<String>,
    note: &str,
) -> (r: EvaluationRecord)
    ensures
        r.scenario_id@ == baseline.scenario.scenario_id@,
        r.manifest_id@ == manifest.manifest_id@,
        r.baseline_trace_id@ == baseline.trace.trace_id@,
        r.intervention_trace_id@ == intervention.trace.trace_id@,
        r.result == result,
        r.baseline_completed == baseline_run.completed,
        r.intervention_completed == intervention_run.completed,
        opt_view(r.baseline_final_state_hash) == opt_view(baseline_run.final_state_hash),
        opt_view(r.intervention_final_state_hash) == opt_view(intervention_run.final_state_hash),
        r.collateral_state_keys == collateral_state_keys,
        r.note@ == note@,
{
    EvaluationRecord {
        scenario_id: baseline.scenario.scenario_id.clone(),
        manifest_id: manifest.manifest_id.clone(),
        baseline_trace_id: baseline.trace.trace_id.clone(),
        intervention_trace_id: intervention.trace.trace_id.clone(),
        result,
        baseline_completed: baseline_run.completed,
        intervention_completed: intervention_run.completed,
        baseline_final_state_hash: copy_opt(&baseline_run.final_state_hash),
        intervention_final_state_hash: copy_opt(&intervention_run.final_state_hash),
        collateral_state_keys,
        note: owned(note),
    }
}

/// Judges two runs of a pair: checks both envelopes, then compares each
/// run's final state with the scenario's expected state and with the other.
pub fn evaluate_envelopes(
    baseline: &ControlledEnvelope,
    intervention: &ControlledEnvelope,
    manifest: &InterventionManifest,
    baseline_run: &WorldExecution,
    intervention_run: &WorldExecution,
) -> (r: Result<EvaluationRecord, BenchmarkError>)
    ensures
        match r {
            Ok(rec) => envelope_ok(*baseline) && envelope_ok(*intervention)
                && judged_record(rec, *baseline, *intervention, *manifest, *baseline_run, *intervention_run),
            Err(e) => !(envelope_ok(*baseline) && envelope_ok(*intervention)) && in_memory_validation(e),
        },
{
    match validate_envelope(baseline) {
        Ok(_) => {},
        Err(e) => return Err(e),
    }
    match validate_envelope(intervention) {
        Ok(_) => {},
        Err(e) => return Err(e),
    }
    if baseline_run.status == ExecutionStatus::Unresolved {
        return Ok(record(baseline, intervention, manifest, OracleResult::Inconclusive, baseline_run, intervention_run,
            Vec::new(), "baseline execution is unresolved"));
    }
    let expected_baseline = expected_final_state(baseline);
    if baseline_run.status != ExecutionStatus::Complete || !baseline_run.completed
        || !same_state(&baseline_run.final_state, &expected_baseline)
    {
        return Ok(record(baseline, intervention, manifest, OracleResult::InvalidBaseline, baseline_run, intervention_run,
            Vec::new(), "baseline did not satisfy its deterministic task predicate"));
    }
    let collateral = differing_state_keys(&baseline_run.final_state, &intervention_run.final_state);
    let expected_intervention = expected_final_state(intervention);
    let result = match intervention_run.status {
        ExecutionStatus::Unresolved => OracleResult::Inconclusive,
        ExecutionStatus::TaskFailure => OracleResult::Fail,
        ExecutionStatus::Complete => {
            if intervention_run.completed
                && same_state(&intervention_run.final_state, &expected_intervention)
                && collateral.len() == 0
                && same_state(&intervention_run.final_state, &baseline_run.final_state)
            {
                OracleResult::Pass
            } else {
                OracleResult::Fail
            }
        },
    };
    proof {
        if run_state(*intervention_run) == run_state(*baseline_run) {
            let ghost empty = Set::new(|k: Seq<char>| differs(run_state(*baseline_run), run_state(*intervention_run), k));
            assert(empty =~= Set::<Seq<char>>::empty());
            if collateral.len() > 0 {
                assert(views(collateral@).to_set().contains(views(collateral@)[0]));
            }
        }
    }
    let note = match result {
        OracleResult::Pass => "variant preserved task predicates and collateral invariants",
        OracleResult::Fail => "variant failed task predicates or collateral invariants",
        OracleResult::InvalidBaseline => "baseline was not a valid quality reference",
        OracleResult::Inconclusive => "execution did not produce a deterministic conclusion",
    };
    Ok(record(baseline, intervention, manifest, result, baseline_run, intervention_run, collateral, note))
}

/// Judges the two runs of a case: checks the case as `validate_case` does,
/// then judges its envelopes as `evaluate_envelopes` does.
pub fn evaluate_case(
    case: &ControlledCase,
    baseline_run: &WorldExecution,
    intervention_run: &WorldExecution,
) -> (r: Result<EvaluationRecord, BenchmarkError>)
    ensures
        match r {
            Ok(rec) => case_fault(*case) is None
                && judged_record(rec, case.baseline, case.intervention, case.manifest, *baseline_run, *intervention_run),
            Err(e) => match case_fault(*case) {
                Some(CaseFault::Envelope) => in_memory_validation(e),
                Some(CaseFault::Pair) => pair_error_of(e, case.scenario_id@),
                Some(CaseFault::Hash) => e matches BenchmarkError::HashMismatch { what, expected, found }
                    && what@ == case.scenario_id@ + " intervention manifest"@
                    && expected@ == json_digest(intervention_manifest_json(case.manifest))
                    && found@ == case.manifest_hash@,
                None => false,
            },
        },
{
    match validate_case(case) {
        Ok(_) => {},
        Err(e) => return Err(e),
    }
    proof {
        reveal(case_fault);
    }
    evaluate_envelopes(&case.baseline, &case.intervention, &case.manifest, baseline_run, intervention_run)
}

/// The state a run of a scenario starts from: its identity and revision.
pub open spec fn base_state(e: ControlledEnvelope) -> Map<Seq<char>, Seq<char>> {
    Map::empty()
        .insert("scenario_id"@, e.scenario.scenario_id@)
        .insert("initial_state_id"@, e.scenario.initial_state_id@)
        .insert("task_revision"@, e.scenario.task_revision@)
}

/// The documented final state of each seed scenario: a correct run ends
/// with the scenario's identity and task revision and with the task's
/// documented outcome entries, so that a baseline run ending in exactly
/// this state is a valid reference (and an intervention run ending in the
/// same state passes).
pub proof fn law_seed_expected_states(e: ControlledEnvelope)
    ensures
        e.scenario.scenario_id@ == "S01_irrelevant_context_removal"@ ==> expected_state(e) == base_state(e).insert("profile_updated"@, "done"@),
        e.scenario.scenario_id@ == "S02_load_bearing_removal_failure"@ ==> expected_state(e) == base_state(e).insert("inventory_checked"@, "ready"@).insert("checkout"@, "complete"@),
        e.scenario.scenario_id@ == "S03_explicit_supersession_deferral"@ ==> expected_state(e) == base_state(e).insert("policy_version"@, "v2"@),
        e.scenario.scenario_id@ == "S04_action_result_needed_later"@ ==> expected_state(e) == base_state(e).insert("record_created"@, "yes"@).insert("record_updated"@, "yes"@),
        e.scenario.scenario_id@ == "S05_action_result_not_needed"@ ==> expected_state(e) == base_state(e).insert("profile_updated"@, "done"@),
        e.scenario.scenario_id@ == "S06_dependency_chain_preservation"@ ==> expected_state(e) == base_state(e).insert("record_created"@, "yes"@).insert("chain_created"@, "yes"@).insert("authorized"@, "yes"@).insert("committed"@, "yes"@),
        e.scenario.scenario_id@ == "S07_safe_context_relocation"@ ==> expected_state(e) == base_state(e).insert("reference_execution"@, "complete"@),
        e.scenario.scenario_id@ == "S08_protocol_breaking_relocation"@ ==> expected_state(e) == base_state(e).insert("handshake_execution"@, "complete"@),
        e.scenario.scenario_id@ == "S09_repeated_context_removal"@ ==> expected_state(e) == base_state(e).insert("reference_execution"@, "complete"@),
        e.scenario.scenario_id@ == "S10_repeated_but_load_bearing"@ ==> expected_state(e) == base_state(e).insert("load_bearing_execution"@, "complete"@),
        e.scenario.scenario_id@ == "S11_already_efficient_noop"@ ==> expected_state(e) == base_state(e).insert("minimal_task"@, "complete"@),
        e.scenario.scenario_id@ == "S12_ambiguous_evidence"@ ==> expected_state(e) == base_state(e).insert("ambiguous_task"@, "complete"@),
{
    reveal_strlit("S01_irrelevant_context_removal");
    reveal_strlit("S02_load_bearing_removal_failure");
    reveal_strlit("S03_explicit_supersession_deferral");
    reveal_strlit("S04_action_result_needed_later");
    reveal_strlit("S05_action_result_not_needed");
    reveal_strlit("S06_dependency_chain_preservation");
    reveal_strlit("S07_safe_context_relocation");
    reveal_strlit("S08_protocol_breaking_relocation");
    reveal_strlit("S09_repeated_context_removal");
    reveal_strlit("S10_repeated_but_load_bearing");
    reveal_strlit("S11_already_efficient_noop");
    reveal_strlit("S12_ambiguous_evidence");
    reveal_with_fuel(state_map, 8);
    let s = e.scenario;
    let base = seq![
        ("scenario_id"@, s.scenario_id@),
        ("initial_state_id"@, s.initial_state_id@),
        ("task_revision"@, s.task_revision@),
    ];
    assert("S01_irrelevant_context_removal"@[1] == '0' && "S01_irrelevant_context_removal"@[2] == '1');
    assert("S02_load_bearing_removal_failure"@[1] == '0' && "S02_load_bearing_removal_failure"@[2] == '2');
    assert("S03_explicit_supersession_deferral"@[1] == '0' && "S03_explicit_supersession_deferral"@[2] == '3');
    assert("S04_action_result_needed_later"@[1] == '0' && "S04_action_result_needed_later"@[2] == '4');
    assert("S05_action_result_not_needed"@[1] == '0' && "S05_action_result_not_needed"@[2] == '5');
    assert("S06_dependency_chain_preservation"@[1] == '0' && "S06_dependency_chain_preservation"@[2] == '6');
    assert("S07_safe_context_relocation"@[1] == '0' && "S07_safe_context_relocation"@[2] == '7');
    assert("S08_protocol_breaking_relocation"@[1] == '0' && "S08_protocol_breaking_relocation"@[2] == '8');
    assert("S09_repeated_context_removal"@[1] == '0' && "S09_repeated_context_removal"@[2] == '9');
    assert("S10_repeated_but_load_bearing"@[1] == '1' && "S10_repeated_but_load_bearing"@[2] == '0');
    assert("S11_already_efficient_noop"@[1] == '1' && "S11_already_efficient_noop"@[2] == '1');
    assert("S12_ambiguous_evidence"@[1] == '1' && "S12_ambiguous_evidence"@[2] == '2');
    if s.scenario_id@ == "S01_irrelevant_context_removal"@ {
        assert(s.scenario_id@[1] == '0' && s.scenario_id@[2] == '1');
    }
    if s.scenario_id@ == "S02_load_bearing_removal_failure"@ {
        assert(s.scenario_id@[1] == '0' && s.scenario_id@[2] == '2');
    }
    if s.scenario_id@ == "S03_explicit_supersession_deferral"@ {
        assert(s.scenario_id@[1] == '0' && s.scenario_id@[2] == '3');
    }
    if s.scenario_id@ == "S04_action_result_needed_later"@ {
        assert(s.scenario_id@[1] == '0' && s.scenario_id@[2] == '4');
    }
    if s.scenario_id@ == "S05_action_result_not_needed"@ {
        assert(s.scenario_id@[1] == '0' && s.scenario_id@[2] == '5');
    }
    if s.scenario_id@ == "S06_dependency_chain_preservation"@ {
        assert(s.scenario_id@[1] == '0' && s.scenario_id@[2] == '6');
    }
    if s.scenario_id@ == "S07_safe_context_relocation"@ {
        assert(s.scenario_id@[1] == '0' && s.scenario_id@[2] == '7');
    }
    if s.scenario_id@ == "S08_protocol_breaking_relocation"@ {
        assert(s.scenario_id@[1] == '0' && s.scenario_id@[2] == '8');
    }
    if s.scenario_id@ == "S09_repeated_context_removal"@ {
        assert(s.scenario_id@[1] == '0' && s.scenario_id@[2] == '9');
    }
    if s.scenario_id@ == "S10_repeated_but_load_bearing"@ {
        assert(s.scenario_id@[1] == '1' && s.scenario_id@[2] == '0');
    }
    if s.scenario_id@ == "S11_already_efficient_noop"@ {
        assert(s.scenario_id@[1] == '1' && s.scenario_id@[2] == '1');
    }
    if s.scenario_id@ == "S12_ambiguous_evidence"@ {
        assert(s.scenario_id@[1] == '1' && s.scenario_id@[2] == '2');
    }
    let out = outcome_entries(s.scenario_id@);
    assert(state_map(base) == base_state(e)) by {
        assert(base.drop_last().drop_last().drop_last() =~= Seq::<(Seq<char>, Seq<char>)>::empty());
    }
}

/// Two complete runs of a pair whose envelopes expect the same final state,
/// both ending in that state, are judged a pass: the baseline is a valid
/// reference and the intervention preserved the task and every other key.
pub proof fn law_runs_in_the_expected_state_pass(
    baseline: ControlledEnvelope,
    intervention: ControlledEnvelope,
    b: WorldExecution,
    i: WorldExecution,
)
    requires
        expected_state(intervention) == expected_state(baseline),
        b.status is Complete,
        b.completed,
        run_state(b) == expected_state(baseline),
        i.status is Complete,
        i.completed,
        run_state(i) == expected_state(baseline),
    ensures
        judged_result(baseline, intervention, b, i) == OracleResult::Pass,
        judged_note(baseline, intervention, b, i) == "variant preserved task predicates and collateral invariants"@,
{
}

/// A complete baseline run that does not end in the envelope's expected
/// state is not a valid quality reference, whatever the intervention did;
/// an unresolved baseline leaves the pair inconclusive.
pub proof fn law_baseline_must_reach_the_expected_state(
    baseline: ControlledEnvelope,
    intervention: ControlledEnvelope,
    b: WorldExecution,
    i: WorldExecution,
)
    ensures
        b.status is Complete && run_state(b) != expected_state(baseline)
            ==> judged_result(baseline, intervention, b, i) == OracleResult::InvalidBaseline,
        b.status is Unresolved ==> judged_result(baseline, intervention, b, i) == OracleResult::Inconclusive,
        judged_result(baseline, intervention, b, i) == OracleResult::Pass ==> b.status is Complete && b.completed
            && run_state(b) == expected_state(baseline) && i.completed && run_state(i) == run_state(b)
            && run_state(i) == expected_state(intervention),
{
}

} // verus!
