//! Provider-neutral data types of the controlled benchmark.
//!
//! A controlled envelope holds a structural planner input and a separate
//! evaluation sidecar; the planner input never carries evaluation-only data.
use vstd::prelude::*;

verus! {

pub const SCHEMA_ID: &'static str = "prefixity.controlled-benchmark";
pub const SCHEMA_VERSION: u32 = 1;
pub const RELATION_SEMANTICS_VERSION: &'static str = "controlled-benchmark-relations-v1";
pub const ORACLE_VERSION: &'static str = "prefixity-scripted-oracle-v1";
pub const BENCHMARK_ID: &'static str = "prefixity-controlled-seed-v1";
pub const TASK_REVISION: &'static str = "self-authored-task-v1";
pub const ENVIRONMENT_REVISION: &'static str = "prefixity-scripted-world-v1";

pub const MAX_ID_BYTES: usize = 128;
pub const MAX_TEXT_BYTES: usize = 512;
pub const MAX_EVENTS: usize = 512;
pub const MAX_RELATIONS: usize = 1024;
pub const MAX_PROVENANCE: usize = 512;

/// Evidence classification of a provenance entry.
#[derive(Debug, Clone, Copy, PartialEq, Eq, Structural)]
pub enum EvidenceClass {
    CapturedExplicit,
    DerivedStructural,
    EvaluationOnly,
    InferredUnsafe,
    Absent,
}

/// Provenance source kind. Public design references are metadata only.
#[derive(Debug, Clone, Copy, PartialEq, Eq, Structural)]
pub enum SourceKind {
    SelfAuthored,
    PinnedPublicMetadata,
    PublicDesignReference,
}

/// Bounded provenance attached to structural evidence.
#[derive(Debug, Clone, PartialEq, Eq)]
pub struct SourceProvenance {
    pub source_kind: SourceKind,
    pub classification: EvidenceClass,
    pub source_locator: Option<String>,
    pub source_revision: Option<String>,
    pub content_hash: Option<String>,
    pub note: Option<String>,
}

/// Task/environment identity shared by every member of a pair.
#[derive(Debug, Clone, PartialEq, Eq)]
pub struct ScenarioIdentity {
    pub scenario_id: String,
    pub scenario_version: String,
    pub task_revision: String,
    pub environment_revision: String,
    pub initial_state_id: String,
    pub fixed_seed: u32,
    pub provenance: Vec<SourceProvenance>,
}

/// Baseline, intervention variant, or unchanged control.
#[derive(Debug, Clone, Copy, PartialEq, Eq, Structural)]
pub enum VariantRole {
    Baseline,
    Variant,
    Control,
}

#[derive(Debug, Clone, Copy, PartialEq, Eq, Structural)]
pub enum EventType {
    Message,
    Action,
    Result,
    Observation,
    StateSnapshot,
    Assertion,
}

#[derive(Debug, Clone, Copy, PartialEq, Eq, Structural)]
pub enum ActorRole {
    System,
    User,
    Agent,
    Tool,
    Environment,
    Evaluator,
}

#[derive(Debug, Clone, PartialEq, Eq)]
pub struct ActionIdentity {
    pub action_id: String,
    pub tool_name: String,
    pub argument_hash: Option<String>,
}

#[derive(Debug, Clone, PartialEq, Eq)]
pub struct ResultIdentity {
    pub result_id: String,
    pub originating_action_id: String,
    pub observation_hash: Option<String>,
    pub status: Option<ResultStatus>,
}

#[derive(Debug, Clone, Copy, PartialEq, Eq, Structural)]
pub enum ResultStatus {
    Success,
    Failure,
    Empty,
    Unknown,
}

#[derive(Debug, Clone, PartialEq, Eq)]
pub struct OrderMetadata {
    pub logical_tick: Option<u32>,
    pub source_timestamp: Option<String>,
    pub timestamp_origin: Option<TimestampOrigin>,
}

#[derive(Debug, Clone, Copy, PartialEq, Eq, Structural)]
pub enum TimestampOrigin {
    SourceExplicit,
    DerivedStructural,
}

/// One planner-visible structural event. Raw content is intentionally absent.
#[derive(Debug, Clone, PartialEq, Eq)]
pub struct Event {
    pub event_id: String,
    pub sequence_index: u32,
    pub event_type: EventType,
    pub actor_role: ActorRole,
    pub parent_event_ids: Vec<String>,
    pub reference_event_ids: Vec<String>,
    pub action: Option<ActionIdentity>,
    pub result: Option<ResultIdentity>,
    pub context_block_id: Option<String>,
    pub world_state_revision: Option<String>,
    pub order: Option<OrderMetadata>,
    pub content_hash: Option<String>,
    pub provenance: Vec<SourceProvenance>,
}

#[derive(Debug, Clone, Copy, PartialEq, Eq, Structural)]
pub enum RelationType {
    Produces,
    References,
    DependsOn,
    Supersedes,
    Invalidates,
    ProtocolPrecedes,
    SameStateRevision,
}

#[derive(Debug, Clone, PartialEq, Eq)]
pub struct Relation {
    pub relation_id: String,
    pub relation_type: RelationType,
    pub from_id: String,
    pub to_id: String,
    pub scope: String,
    pub semantics_version: Option<String>,
    pub provenance: Vec<SourceProvenance>,
}

#[derive(Debug, Clone, PartialEq, Eq)]
pub struct PlannerInput {
    pub events: Vec<Event>,
    pub relations: Vec<Relation>,
    pub provenance: Vec<SourceProvenance>,
}

#[derive(Debug, Clone, PartialEq, Eq)]
pub struct TraceEnvelope {
    pub trace_id: String,
    pub variant_role: VariantRole,
    pub baseline_trace_id: String,
    pub planner_input: PlannerInput,
}

#[derive(Debug, Clone, Copy, PartialEq, Eq, Structural)]
pub enum InterventionClass {
    Remove,
    Defer,
    Relocate,
    Compress,
    NoChange,
}

#[derive(Debug, Clone, Copy, PartialEq, Eq, Structural)]
pub enum PlannerVisibility {
    PlannerVisible,
    EvaluationOnly,
}

#[derive(Debug, Clone, Copy, PartialEq, Eq, Structural)]
pub enum QualityRiskCategory {
    NoRisk,
    Low,
    LowIfBoundaryPreserved,
    LowIfOrderConstraintsHold,
    High,
    Unknown,
}

/// Evaluation-only pairing and expected-risk metadata.
#[derive(Debug, Clone, PartialEq, Eq)]
pub struct InterventionManifest {
    pub manifest_id: String,
    pub baseline_trace_id: String,
    pub variant_trace_id: String,
    pub target_event_ids: Vec<String>,
    pub intervention_class: InterventionClass,
    pub exact_transformation: String,
    pub reason: String,
    pub planner_visibility: PlannerVisibility,
    pub expected_structural_effect: String,
    pub expected_quality_risk_category: QualityRiskCategory,
}

#[derive(Debug, Clone, PartialEq, Eq)]
pub struct EvaluationSidecar {
    pub intervention_manifest_ref: String,
    pub intervention_manifest: InterventionManifest,
    pub quality_evaluation_ids: Vec<String>,
    pub oracle_result: Option<OracleResult>,
    pub evaluation_content_hash: Option<String>,
}

#[derive(Debug, Clone, Copy, PartialEq, Eq, Structural)]
pub enum OracleResult {
    Pass,
    Fail,
    InvalidBaseline,
    Inconclusive,
}

#[derive(Debug, Clone, PartialEq, Eq)]
pub struct ControlledEnvelope {
    pub schema_id: String,
    pub schema_version: u32,
    pub benchmark_id: String,
    pub scenario: ScenarioIdentity,
    pub trace: TraceEnvelope,
    pub evaluation_sidecar: EvaluationSidecar,
}

/// A validated baseline/variant or baseline/control pair.
#[derive(Debug, Clone, PartialEq, Eq)]
pub struct ControlledCase {
    pub scenario_id: String,
    pub baseline: ControlledEnvelope,
    pub intervention: ControlledEnvelope,
    pub manifest: InterventionManifest,
    pub manifest_hash: String,
}

#[derive(Debug, Clone, PartialEq, Eq)]
pub struct EvaluationRecord {
    pub scenario_id: String,
    pub manifest_id: String,
    pub baseline_trace_id: String,
    pub intervention_trace_id: String,
    pub result: OracleResult,
    pub baseline_completed: bool,
    pub intervention_completed: bool,
    pub baseline_final_state_hash: Option<String>,
    pub intervention_final_state_hash: Option<String>,
    pub collateral_state_keys: Vec<String>,
    pub note: String,
}

#[derive(Debug, Clone, PartialEq, Eq)]
pub struct PlannerRun {
    pub scenario_id: String,
    pub trace_id: String,
    pub classes: Vec<String>,
    pub plan_json_hash: String,
}

#[derive(Debug, Clone, PartialEq, Eq)]
pub struct AggregateCounts {
    pub pass: usize,
    pub fail: usize,
    pub invalid_baseline: usize,
    pub inconclusive: usize,
}

impl AggregateCounts {
    /// Counts one oracle result in its own bucket.
    pub fn record(&mut self, result: OracleResult)
        requires
            result is Pass ==> old(self).pass < usize::MAX,
            result is Fail ==> old(self).fail < usize::MAX,
            result is InvalidBaseline ==> old(self).invalid_baseline < usize::MAX,
            result is Inconclusive ==> old(self).inconclusive < usize::MAX,
        ensures
            final(self).pass == old(self).pass + (if result is Pass { 1int } else { 0 }),
            final(self).fail == old(self).fail + (if result is Fail { 1int } else { 0 }),
            final(self).invalid_baseline == old(self).invalid_baseline + (if result is InvalidBaseline { 1int } else { 0 }),
            final(self).inconclusive == old(self).inconclusive + (if result is Inconclusive { 1int } else { 0 }),
            final(self).pass + final(self).fail + final(self).invalid_baseline + final(self).inconclusive
                == old(self).pass + old(self).fail + old(self).invalid_baseline + old(self).inconclusive + 1,
    {
        match result {
            OracleResult::Pass => self.pass = self.pass + 1,
            OracleResult::Fail => self.fail = self.fail + 1,
            OracleResult::InvalidBaseline => self.invalid_baseline = self.invalid_baseline + 1,
            OracleResult::Inconclusive => self.inconclusive = self.inconclusive + 1,
        }
    }
}

/// Report of one benchmark run; `manifest_hashes` is kept sorted by scenario ID.
#[derive(Debug, Clone, PartialEq, Eq)]
pub struct BenchmarkReport {
    pub artifact_id: String,
    pub schema_id: String,
    pub schema_version: u32,
    pub oracle_version: String,
    pub scenario_count: usize,
    pub baseline_count: usize,
    pub variant_count: usize,
    pub control_count: usize,
    pub manifest_hashes: Vec<(String, String)>,
    pub aggregate_hash: String,
    pub evaluations: Vec<EvaluationRecord>,
    pub aggregate_counts: AggregateCounts,
    pub planner_runs: Vec<PlannerRun>,
}

} // verus!
