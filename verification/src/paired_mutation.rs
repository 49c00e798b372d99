//! Records of paired volatile-mutation experiments.
use vstd::prelude::*;
use vstd::string::*;
use crate::context_stability::ContextStabilityAnalysis;
use crate::diff::{ChangeCategory, RequestDiff};
use crate::error::{BenchmarkError, LivePreparationErrorCode};
use crate::layout_planner::layout_metrics;
use crate::live_harness::LiveEvidenceState;
use crate::text::concat3;
use crate::ordering::{check_keys_sorted, keys_sorted};

verus! {

#[derive(Debug, Clone, Copy, PartialEq, Eq, Structural)]
pub enum PairedMutationSequenceRole {
    Control,
    CandidateTreatment,
    Interference,
}

#[derive(Debug, Clone, PartialEq, Eq)]
pub enum PairedMutationSequenceRelation {
    Initial,
    VolatileMutationOf(String),
    Independent,
}

#[derive(Debug, Clone, PartialEq, Eq)]
pub struct PairedMutationSequenceStep {
    pub step_id: String,
    pub role: PairedMutationSequenceRole,
    pub request_fingerprint: String,
    pub relation: PairedMutationSequenceRelation,
}

#[derive(Debug, Clone, Copy, PartialEq, Eq, Structural)]
pub enum PairedComparisonKind {
    ControlMutation,
    TreatmentMutation,
    PrimaryMutationOutcome,
    ControlLayout,
    TreatmentLayout,
}

#[derive(Debug, Clone, Copy, PartialEq, Eq, Structural)]
pub enum PairedOutcomeExpectation {
    NoRequiredDirection,
}

#[derive(Debug, Clone, PartialEq, Eq)]
pub struct PairedWorkloadSummary {
    pub target_bytes: usize,
    pub control_initial_bytes: usize,
    pub control_mutated_bytes: usize,
    pub treatment_initial_bytes: usize,
    pub treatment_mutated_bytes: usize,
    pub context_limit: u64,
}

#[derive(Debug, Clone, PartialEq)]
pub struct PairedReadinessRecord {
    pub schema_id: String,
    pub schema_version: u32,
    pub state: LiveEvidenceState,
    pub network_calls: u32,
    pub experiment_id: String,
    pub sequence_step_ids: Vec<String>,
    pub fresh_server_for_run: bool,
    pub runtime_config_fingerprint: String,
    pub comparisons: Vec<String>,
    pub primary_outcome: String,
    pub provenance: Vec<(String, String)>,
}

// ---------------------------------------------------------------------------
// Checks of a paired mutation experiment.

/// An invalid-configuration error of a paired experiment.
pub open spec fn paired_refusal(e: BenchmarkError, message: Seq<char>) -> bool {
    e matches BenchmarkError::LiveHarness { code, message: m }
        && code == LivePreparationErrorCode::InvalidConfiguration && m@ == message
}

/// The diff's only prefix change reorders artifacts without changing content.
pub open spec fn reorder_only_change(d: RequestDiff) -> bool {
    &&& d.prefix_diff.changes.len() == 1
    &&& d.prefix_diff.changes@[0].category == ChangeCategory::ArtifactOrderChanged
    &&& d.prefix_diff.changes@[0].order_changed
    &&& !d.prefix_diff.changes@[0].content_changed
}

/// The diff's only prefix change changes an artifact's content in place.
pub open spec fn content_only_change(d: RequestDiff) -> bool {
    &&& d.prefix_diff.changes.len() == 1
    &&& d.prefix_diff.changes@[0].category == ChangeCategory::ArtifactContentChanged
    &&& !d.prefix_diff.changes@[0].order_changed
    &&& !d.prefix_diff.changes@[0].presence_changed
}

/// Checks that a paired request diff leaves the envelope alone and makes
/// exactly the intended change: an artifact reorder when `reorder_only`,
/// else one artifact content change.
pub fn validate_request_diff(diff: &RequestDiff, reorder_only: bool) -> (r: Result<(), BenchmarkError>)
    ensures
        match r {
            Ok(_) => diff.envelope_diff.changes.len() == 0
                && if reorder_only { reorder_only_change(*diff) } else { content_only_change(*diff) },
            Err(e) => if diff.envelope_diff.changes.len() != 0 {
                paired_refusal(e, "paired request diff changed the envelope"@)
            } else if reorder_only {
                !reorder_only_change(*diff)
                    && paired_refusal(e, "paired layout diff is not authorized artifact reordering only"@)
            } else {
                !content_only_change(*diff)
                    && paired_refusal(e, "paired mutation diff must contain exactly one artifact content change"@)
            },
        },
{
    if diff.envelope_diff.changes.len() != 0 {
        return Err(BenchmarkError::live_harness(
            LivePreparationErrorCode::InvalidConfiguration,
            "paired request diff changed the envelope",
        ));
    }
    let changes = &diff.prefix_diff.changes;
    if reorder_only {
        if changes.len() != 1 || changes[0].category != ChangeCategory::ArtifactOrderChanged
            || !changes[0].order_changed || changes[0].content_changed
        {
            return Err(BenchmarkError::live_harness(
                LivePreparationErrorCode::InvalidConfiguration,
                "paired layout diff is not authorized artifact reordering only",
            ));
        }
    } else if changes.len() != 1 || changes[0].category != ChangeCategory::ArtifactContentChanged
        || changes[0].order_changed || changes[0].presence_changed
    {
        return Err(BenchmarkError::live_harness(
            LivePreparationErrorCode::InvalidConfiguration,
            "paired mutation diff must contain exactly one artifact content change",
        ));
    }
    Ok(())
}

/// How many stability inversions the analysis found.
pub fn inversion_count(analysis: &ContextStabilityAnalysis) -> (r: usize)
    ensures
        r == crate::layout_planner::inversion_count(analysis.findings@),
{
    layout_metrics(analysis).inversion_count
}

/// The largest number of provenance entries of a paired experiment.
pub const MAX_PAIRED_PROVENANCE: usize = 32;

/// Checks a paired experiment's provenance: its bound, and each key once,
/// in key order.
pub fn validate_metadata(values: &Vec<(String, String)>) -> (r: Result<(), BenchmarkError>)
    ensures
        match r {
            Ok(_) => values.len() <= MAX_PAIRED_PROVENANCE && keys_sorted(values@),
            Err(e) => if values.len() > MAX_PAIRED_PROVENANCE {
                paired_refusal(e, "paired provenance exceeds its bound"@)
            } else {
                !keys_sorted(values@) && paired_refusal(e, "paired provenance keys must be unique and in key order"@)
            },
        },
{
    if values.len() > MAX_PAIRED_PROVENANCE {
        return Err(BenchmarkError::live_harness(
            LivePreparationErrorCode::InvalidConfiguration,
            "paired provenance exceeds its bound",
        ));
    }
    if !check_keys_sorted(values) {
        return Err(BenchmarkError::live_harness(
            LivePreparationErrorCode::InvalidConfiguration,
            "paired provenance keys must be unique and in key order",
        ));
    }
    Ok(())
}

/// The filler that pads a synthetic artifact to a bounded size.
pub open spec fn filler() -> Seq<char> {
    "bounded synthetic reference "@
}

pub open spec fn repeated(s: Seq<char>, n: nat) -> Seq<char>
    decreases n,
{
    if n == 0 { Seq::empty() } else { repeated(s, (n - 1) as nat) + s }
}

/// `id`, `:`, `value`, `:`, then the filler eight times.
pub fn bounded_material(id: &str, value: &str) -> (r: String)
    ensures
        r@ == id@ + ":"@ + value@ + ":"@ + repeated(filler(), 8),
{
    let mut r = concat3(id, ":", value);
    r.append(":");
    let ghost head = r@;
    let mut i: usize = 0;
    while i < 8
        invariant
            i <= 8,
            r@ == head + repeated(filler(), i as nat),
        decreases 8 - i,
    {
        r.append("bounded synthetic reference ");
        proof {
            assert(r@ =~= head + repeated(filler(), (i + 1) as nat));
        }
        i = i + 1;
    }
    r
}

} // verus!
