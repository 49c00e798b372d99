//! Canonical JSON of the benchmark data: every object lists its keys in
//! sorted order, absent optional values are omitted where the format omits
//! them, and the text is hashed as UTF-8 bytes.
use vstd::prelude::*;
use crate::json::{
    array_value, bool_value, json_array, json_bool, json_number, json_object, json_string, member,
    number_value, object_value, opt_member, opt_string, opt_string_value, push_member,
    push_opt_member, string_array, string_array_value, string_map, string_map_value, string_value,
};
use crate::materialization::{
    CandidateExperimentPair, CertificationStatus, InvariantResult, MaterializationInvariant,
    MaterializationSafetyCertificate, RequestDiffReference,
};
use crate::model::{
    ActionIdentity, ActorRole, AggregateCounts, BenchmarkReport, ControlledEnvelope, EvaluationRecord,
    EvaluationSidecar, Event, EventType, EvidenceClass, InterventionClass, InterventionManifest,
    OracleResult, OrderMetadata, PlannerInput, PlannerRun, PlannerVisibility, QualityRiskCategory,
    Relation, RelationType, ResultIdentity, ResultStatus, ScenarioIdentity, SourceKind,
    SourceProvenance, TimestampOrigin, TraceEnvelope, VariantRole,
};
use crate::ordering::views;

verus! {

/// The serialized name of a `EvidenceClass`.
pub open spec fn evidence_class_name(v: EvidenceClass) -> Seq<char> {
    match v {
        EvidenceClass::CapturedExplicit => "CAPTURED_EXPLICIT"@,
        EvidenceClass::DerivedStructural => "DERIVED_STRUCTURAL"@,
        EvidenceClass::EvaluationOnly => "EVALUATION_ONLY"@,
        EvidenceClass::InferredUnsafe => "INFERRED_UNSAFE"@,
        EvidenceClass::Absent => "ABSENT"@,
    }
}

pub fn evidence_class_text(v: EvidenceClass) -> (r: &'static str)
    ensures
        r@ == evidence_class_name(v),
{
    match v {
        EvidenceClass::CapturedExplicit => "CAPTURED_EXPLICIT",
        EvidenceClass::DerivedStructural => "DERIVED_STRUCTURAL",
        EvidenceClass::EvaluationOnly => "EVALUATION_ONLY",
        EvidenceClass::InferredUnsafe => "INFERRED_UNSAFE",
        EvidenceClass::Absent => "ABSENT",
    }
}

/// The serialized name of a `SourceKind`.
pub open spec fn source_kind_name(v: SourceKind) -> Seq<char> {
    match v {
        SourceKind::SelfAuthored => "self_authored"@,
        SourceKind::PinnedPublicMetadata => "pinned_public_metadata"@,
        SourceKind::PublicDesignReference => "public_design_reference"@,
    }
}

pub fn source_kind_text(v: SourceKind) -> (r: &'static str)
    ensures
        r@ == source_kind_name(v),
{
    match v {
        SourceKind::SelfAuthored => "self_authored",
        SourceKind::PinnedPublicMetadata => "pinned_public_metadata",
        SourceKind::PublicDesignReference => "public_design_reference",
    }
}

/// The serialized name of a `VariantRole`.
pub open spec fn variant_role_name(v: VariantRole) -> Seq<char> {
    match v {
        VariantRole::Baseline => "baseline"@,
        VariantRole::Variant => "variant"@,
        VariantRole::Control => "control"@,
    }
}

pub fn variant_role_text(v: VariantRole) -> (r: &'static str)
    ensures
        r@ == variant_role_name(v),
{
    match v {
        VariantRole::Baseline => "baseline",
        VariantRole::Variant => "variant",
        VariantRole::Control => "control",
    }
}

/// The serialized name of a `EventType`.
pub open spec fn event_type_name(v: EventType) -> Seq<char> {
    match v {
        EventType::Message => "message"@,
        EventType::Action => "action"@,
        EventType::Result => "result"@,
        EventType::Observation => "observation"@,
        EventType::StateSnapshot => "state_snapshot"@,
        EventType::Assertion => "assertion"@,
    }
}

pub fn event_type_text(v: EventType) -> (r: &'static str)
    ensures
        r@ == event_type_name(v),
{
    match v {
        EventType::Message => "message",
        EventType::Action => "action",
        EventType::Result => "result",
        EventType::Observation => "observation",
        EventType::StateSnapshot => "state_snapshot",
        EventType::Assertion => "assertion",
    }
}

/// The serialized name of a `ActorRole`.
pub open spec fn actor_role_name(v: ActorRole) -> Seq<char> {
    match v {
        ActorRole::System => "system"@,
        ActorRole::User => "user"@,
        ActorRole::Agent => "agent"@,
        ActorRole::Tool => "tool"@,
        ActorRole::Environment => "environment"@,
        ActorRole::Evaluator => "evaluator"@,
    }
}

pub fn actor_role_text(v: ActorRole) -> (r: &'static str)
    ensures
        r@ == actor_role_name(v),
{
    match v {
        ActorRole::System => "system",
        ActorRole::User => "user",
        ActorRole::Agent => "agent",
        ActorRole::Tool => "tool",
        ActorRole::Environment => "environment",
        ActorRole::Evaluator => "evaluator",
    }
}

/// The serialized name of a `ResultStatus`.
pub open spec fn result_status_name(v: ResultStatus) -> Seq<char> {
    match v {
        ResultStatus::Success => "success"@,
        ResultStatus::Failure => "failure"@,
        ResultStatus::Empty => "empty"@,
        ResultStatus::Unknown => "unknown"@,
    }
}

pub fn result_status_text(v: ResultStatus) -> (r: &'static str)
    ensures
        r@ == result_status_name(v),
{
    match v {
        ResultStatus::Success => "success",
        ResultStatus::Failure => "failure",
        ResultStatus::Empty => "empty",
        ResultStatus::Unknown => "unknown",
    }
}

/// The serialized name of a `TimestampOrigin`.
pub open spec fn timestamp_origin_name(v: TimestampOrigin) -> Seq<char> {
    match v {
        TimestampOrigin::SourceExplicit => "source_explicit"@,
        TimestampOrigin::DerivedStructural => "derived_structural"@,
    }
}

pub fn timestamp_origin_text(v: TimestampOrigin) -> (r: &'static str)
    ensures
        r@ == timestamp_origin_name(v),
{
    match v {
        TimestampOrigin::SourceExplicit => "source_explicit",
        TimestampOrigin::DerivedStructural => "derived_structural",
    }
}

/// The serialized name of a `RelationType`.
pub open spec fn relation_type_name(v: RelationType) -> Seq<char> {
    match v {
        RelationType::Produces => "produces"@,
        RelationType::References => "references"@,
        RelationType::DependsOn => "depends_on"@,
        RelationType::Supersedes => "supersedes"@,
        RelationType::Invalidates => "invalidates"@,
        RelationType::ProtocolPrecedes => "protocol_precedes"@,
        RelationType::SameStateRevision => "same_state_revision"@,
    }
}

pub fn relation_type_text(v: RelationType) -> (r: &'static str)
    ensures
        r@ == relation_type_name(v),
{
    match v {
        RelationType::Produces => "produces",
        RelationType::References => "references",
        RelationType::DependsOn => "depends_on",
        RelationType::Supersedes => "supersedes",
        RelationType::Invalidates => "invalidates",
        RelationType::ProtocolPrecedes => "protocol_precedes",
        RelationType::SameStateRevision => "same_state_revision",
    }
}

/// The serialized name of a `InterventionClass`.
pub open spec fn intervention_class_name(v: InterventionClass) -> Seq<char> {
    match v {
        InterventionClass::Remove => "remove"@,
        InterventionClass::Defer => "defer"@,
        InterventionClass::Relocate => "relocate"@,
        InterventionClass::Compress => "compress"@,
        InterventionClass::NoChange => "no_change"@,
    }
}

pub fn intervention_class_text(v: InterventionClass) -> (r: &'static str)
    ensures
        r@ == intervention_class_name(v),
{
    match v {
        InterventionClass::Remove => "remove",
        InterventionClass::Defer => "defer",
        InterventionClass::Relocate => "relocate",
        InterventionClass::Compress => "compress",
        InterventionClass::NoChange => "no_change",
    }
}

/// The serialized name of a `PlannerVisibility`.
pub open spec fn planner_visibility_name(v: PlannerVisibility) -> Seq<char> {
    match v {
        PlannerVisibility::PlannerVisible => "planner_visible"@,
        PlannerVisibility::EvaluationOnly => "evaluation_only"@,
    }
}

pub fn planner_visibility_text(v: PlannerVisibility) -> (r: &'static str)
    ensures
        r@ == planner_visibility_name(v),
{
    match v {
        PlannerVisibility::PlannerVisible => "planner_visible",
        PlannerVisibility::EvaluationOnly => "evaluation_only",
    }
}

/// The serialized name of a `QualityRiskCategory`.
pub open spec fn quality_risk_category_name(v: QualityRiskCategory) -> Seq<char> {
    match v {
        QualityRiskCategory::NoRisk => "none"@,
        QualityRiskCategory::Low => "low"@,
        QualityRiskCategory::LowIfBoundaryPreserved => "low_if_boundary_preserved"@,
        QualityRiskCategory::LowIfOrderConstraintsHold => "low_if_order_constraints_hold"@,
        QualityRiskCategory::High => "high"@,
        QualityRiskCategory::Unknown => "unknown"@,
    }
}

pub fn quality_risk_category_text(v: QualityRiskCategory) -> (r: &'static str)
    ensures
        r@ == quality_risk_category_name(v),
{
    match v {
        QualityRiskCategory::NoRisk => "none",
        QualityRiskCategory::Low => "low",
        QualityRiskCategory::LowIfBoundaryPreserved => "low_if_boundary_preserved",
        QualityRiskCategory::LowIfOrderConstraintsHold => "low_if_order_constraints_hold",
        QualityRiskCategory::High => "high",
        QualityRiskCategory::Unknown => "unknown",
    }
}

/// The serialized name of a `OracleResult`.
pub open spec fn oracle_result_name(v: OracleResult) -> Seq<char> {
    match v {
        OracleResult::Pass => "PASS"@,
        OracleResult::Fail => "FAIL"@,
        OracleResult::InvalidBaseline => "INVALID_BASELINE"@,
        OracleResult::Inconclusive => "INCONCLUSIVE"@,
    }
}

pub fn oracle_result_text(v: OracleResult) -> (r: &'static str)
    ensures
        r@ == oracle_result_name(v),
{
    match v {
        OracleResult::Pass => "PASS",
        OracleResult::Fail => "FAIL",
        OracleResult::InvalidBaseline => "INVALID_BASELINE",
        OracleResult::Inconclusive => "INCONCLUSIVE",
    }
}

/// The serialized name of a `CertificationStatus`.
pub open spec fn certification_status_name(v: CertificationStatus) -> Seq<char> {
    match v {
        CertificationStatus::CertifiedForExperimentMaterialization => "certified_for_experiment_materialization"@,
        CertificationStatus::Rejected => "rejected"@,
    }
}

pub fn certification_status_text(v: CertificationStatus) -> (r: &'static str)
    ensures
        r@ == certification_status_name(v),
{
    match v {
        CertificationStatus::CertifiedForExperimentMaterialization => "certified_for_experiment_materialization",
        CertificationStatus::Rejected => "rejected",
    }
}

/// The serialized name of a `MaterializationInvariant`.
pub open spec fn materialization_invariant_name(v: MaterializationInvariant) -> Seq<char> {
    match v {
        MaterializationInvariant::SourceIdentity => "source_identity"@,
        MaterializationInvariant::CandidateIdentity => "candidate_identity"@,
        MaterializationInvariant::AuthorizedTransformation => "authorized_transformation"@,
        MaterializationInvariant::ContentConservation => "content_conservation"@,
        MaterializationInvariant::ArtifactConservation => "artifact_conservation"@,
        MaterializationInvariant::ToolConservation => "tool_conservation"@,
        MaterializationInvariant::EnvelopeConservation => "envelope_conservation"@,
        MaterializationInvariant::TrustConservation => "trust_conservation"@,
        MaterializationInvariant::ProvenanceConservation => "provenance_conservation"@,
        MaterializationInvariant::OrderChangeOnly => "order_change_only"@,
        MaterializationInvariant::RequestDiffAgreement => "request_diff_agreement"@,
        MaterializationInvariant::StructuralReanalysis => "structural_reanalysis"@,
    }
}

pub fn materialization_invariant_text(v: MaterializationInvariant) -> (r: &'static str)
    ensures
        r@ == materialization_invariant_name(v),
{
    match v {
        MaterializationInvariant::SourceIdentity => "source_identity",
        MaterializationInvariant::CandidateIdentity => "candidate_identity",
        MaterializationInvariant::AuthorizedTransformation => "authorized_transformation",
        MaterializationInvariant::ContentConservation => "content_conservation",
        MaterializationInvariant::ArtifactConservation => "artifact_conservation",
        MaterializationInvariant::ToolConservation => "tool_conservation",
        MaterializationInvariant::EnvelopeConservation => "envelope_conservation",
        MaterializationInvariant::TrustConservation => "trust_conservation",
        MaterializationInvariant::ProvenanceConservation => "provenance_conservation",
        MaterializationInvariant::OrderChangeOnly => "order_change_only",
        MaterializationInvariant::RequestDiffAgreement => "request_diff_agreement",
        MaterializationInvariant::StructuralReanalysis => "structural_reanalysis",
    }
}

/// The object members of a `SourceProvenance`, in key order.
pub open spec fn source_provenance_members(x: SourceProvenance) -> Seq<Seq<char>> {
    seq![member("classification"@, json_string(evidence_class_name(x.classification)))]
    + opt_member("content_hash"@, opt_string(x.content_hash))
    + opt_member("note"@, opt_string(x.note))
    + seq![member("source_kind"@, json_string(source_kind_name(x.source_kind)))]
    + opt_member("source_locator"@, opt_string(x.source_locator))
    + opt_member("source_revision"@, opt_string(x.source_revision))
}

/// The canonical JSON of a `SourceProvenance`.
#[verifier::opaque]
pub open spec fn source_provenance_json(x: SourceProvenance) -> Seq<char> {
    json_object(source_provenance_members(x))
}

pub open spec fn source_provenance_list_json(xs: Seq<SourceProvenance>) -> Seq<char> {
    json_array(xs.map_values(|e: SourceProvenance| source_provenance_json(e)))
}

/// The object members of a `ScenarioIdentity`, in key order.
pub open spec fn scenario_identity_members(x: ScenarioIdentity) -> Seq<Seq<char>> {
    seq![member("environment_revision"@, json_string(x.environment_revision@))]
    + seq![member("fixed_seed"@, json_number(x.fixed_seed as nat))]
    + seq![member("initial_state_id"@, json_string(x.initial_state_id@))]
    + seq![member("provenance"@, source_provenance_list_json(x.provenance@))]
    + seq![member("scenario_id"@, json_string(x.scenario_id@))]
    + seq![member("scenario_version"@, json_string(x.scenario_version@))]
    + seq![member("task_revision"@, json_string(x.task_revision@))]
}

/// The canonical JSON of a `ScenarioIdentity`.
#[verifier::opaque]
pub open spec fn scenario_identity_json(x: ScenarioIdentity) -> Seq<char> {
    json_object(scenario_identity_members(x))
}

/// The object members of a `ActionIdentity`, in key order.
pub open spec fn action_identity_members(x: ActionIdentity) -> Seq<Seq<char>> {
    seq![member("action_id"@, json_string(x.action_id@))]
    + opt_member("argument_hash"@, opt_string(x.argument_hash))
    + seq![member("tool_name"@, json_string(x.tool_name@))]
}

/// The canonical JSON of a `ActionIdentity`.
#[verifier::opaque]
pub open spec fn action_identity_json(x: ActionIdentity) -> Seq<char> {
    json_object(action_identity_members(x))
}

/// The object members of a `ResultIdentity`, in key order.
pub open spec fn result_identity_members(x: ResultIdentity) -> Seq<Seq<char>> {
    opt_member("observation_hash"@, opt_string(x.observation_hash))
    + seq![member("originating_action_id"@, json_string(x.originating_action_id@))]
    + seq![member("result_id"@, json_string(x.result_id@))]
    + opt_member("status"@, match x.status { Some(v) => Some(json_string(result_status_name(v))), None => None })
}

/// The canonical JSON of a `ResultIdentity`.
#[verifier::opaque]
pub open spec fn result_identity_json(x: ResultIdentity) -> Seq<char> {
    json_object(result_identity_members(x))
}

/// The object members of a `OrderMetadata`, in key order.
pub open spec fn order_metadata_members(x: OrderMetadata) -> Seq<Seq<char>> {
    opt_member("logical_tick"@, match x.logical_tick { Some(v) => Some(json_number(v as nat)), None => None })
    + opt_member("source_timestamp"@, opt_string(x.source_timestamp))
    + opt_member("timestamp_origin"@, match x.timestamp_origin { Some(v) => Some(json_string(timestamp_origin_name(v))), None => None })
}

/// The canonical JSON of a `OrderMetadata`.
#[verifier::opaque]
pub open spec fn order_metadata_json(x: OrderMetadata) -> Seq<char> {
    json_object(order_metadata_members(x))
}

pub open spec fn event_members_head(x: Event) -> Seq<Seq<char>> {
    opt_member("action"@, match x.action { Some(v) => Some(action_identity_json(v)), None => None })
    + seq![member("actor_role"@, json_string(actor_role_name(x.actor_role)))]
    + opt_member("content_hash"@, opt_string(x.content_hash))
    + opt_member("context_block_id"@, opt_string(x.context_block_id))
    + seq![member("event_id"@, json_string(x.event_id@))]
    + seq![member("event_type"@, json_string(event_type_name(x.event_type)))]
}

pub open spec fn event_members_tail(x: Event) -> Seq<Seq<char>> {
    opt_member("order"@, match x.order { Some(v) => Some(order_metadata_json(v)), None => None })
    + (if x.parent_event_ids.len() == 0 { seq![] } else { seq![member("parent_event_ids"@, string_array(x.parent_event_ids@))] })
    + seq![member("provenance"@, source_provenance_list_json(x.provenance@))]
    + (if x.reference_event_ids.len() == 0 { seq![] } else { seq![member("reference_event_ids"@, string_array(x.reference_event_ids@))] })
    + opt_member("result"@, match x.result { Some(v) => Some(result_identity_json(v)), None => None })
    + seq![member("sequence_index"@, json_number(x.sequence_index as nat))]
    + opt_member("world_state_revision"@, opt_string(x.world_state_revision))
}

/// The object members of a `Event`, in key order.
pub open spec fn event_members(x: Event) -> Seq<Seq<char>> {
    event_members_head(x) + event_members_tail(x)
}

/// The canonical JSON of a `Event`.
#[verifier::opaque]
pub open spec fn event_json(x: Event) -> Seq<char> {
    json_object(event_members(x))
}

pub open spec fn event_list_json(xs: Seq<Event>) -> Seq<char> {
    json_array(xs.map_values(|e: Event| event_json(e)))
}

/// The object members of a `Relation`, in key order.
pub open spec fn relation_members(x: Relation) -> Seq<Seq<char>> {
    seq![member("from_id"@, json_string(x.from_id@))]
    + seq![member("provenance"@, source_provenance_list_json(x.provenance@))]
    + seq![member("relation_id"@, json_string(x.relation_id@))]
    + seq![member("relation_type"@, json_string(relation_type_name(x.relation_type)))]
    + seq![member("scope"@, json_string(x.scope@))]
    + opt_member("semantics_version"@, opt_string(x.semantics_version))
    + seq![member("to_id"@, json_string(x.to_id@))]
}

/// The canonical JSON of a `Relation`.
#[verifier::opaque]
pub open spec fn relation_json(x: Relation) -> Seq<char> {
    json_object(relation_members(x))
}

pub open spec fn relation_list_json(xs: Seq<Relation>) -> Seq<char> {
    json_array(xs.map_values(|e: Relation| relation_json(e)))
}

/// The object members of a `PlannerInput`, in key order.
pub open spec fn planner_input_members(x: PlannerInput) -> Seq<Seq<char>> {
    seq![member("events"@, event_list_json(x.events@))]
    + seq![member("provenance"@, source_provenance_list_json(x.provenance@))]
    + seq![member("relations"@, relation_list_json(x.relations@))]
}

/// The canonical JSON of a `PlannerInput`.
#[verifier::opaque]
pub open spec fn planner_input_json(x: PlannerInput) -> Seq<char> {
    json_object(planner_input_members(x))
}

/// The object members of a `TraceEnvelope`, in key order.
pub open spec fn trace_envelope_members(x: TraceEnvelope) -> Seq<Seq<char>> {
    seq![member("baseline_trace_id"@, json_string(x.baseline_trace_id@))]
    + seq![member("planner_input"@, planner_input_json(x.planner_input))]
    + seq![member("trace_id"@, json_string(x.trace_id@))]
    + seq![member("variant_role"@, json_string(variant_role_name(x.variant_role)))]
}

/// The canonical JSON of a `TraceEnvelope`.
#[verifier::opaque]
pub open spec fn trace_envelope_json(x: TraceEnvelope) -> Seq<char> {
    json_object(trace_envelope_members(x))
}

/// The object members of a `InterventionManifest`, in key order.
pub open spec fn intervention_manifest_members(x: InterventionManifest) -> Seq<Seq<char>> {
    seq![member("baseline_trace_id"@, json_string(x.baseline_trace_id@))]
    + seq![member("exact_transformation"@, json_string(x.exact_transformation@))]
    + seq![member("expected_quality_risk_category"@, json_string(quality_risk_category_name(x.expected_quality_risk_category)))]
    + seq![member("expected_structural_effect"@, json_string(x.expected_structural_effect@))]
    + seq![member("intervention_class"@, json_string(intervention_class_name(x.intervention_class)))]
    + seq![member("manifest_id"@, json_string(x.manifest_id@))]
    + seq![member("planner_visibility"@, json_string(planner_visibility_name(x.planner_visibility)))]
    + seq![member("reason"@, json_string(x.reason@))]
    + seq![member("target_event_ids"@, string_array(x.target_event_ids@))]
    + seq![member("variant_trace_id"@, json_string(x.variant_trace_id@))]
}

/// The canonical JSON of a `InterventionManifest`.
#[verifier::opaque]
pub open spec fn intervention_manifest_json(x: InterventionManifest) -> Seq<char> {
    json_object(intervention_manifest_members(x))
}

/// The object members of a `EvaluationSidecar`, in key order.
pub open spec fn evaluation_sidecar_members(x: EvaluationSidecar) -> Seq<Seq<char>> {
    opt_member("evaluation_content_hash"@, opt_string(x.evaluation_content_hash))
    + seq![member("intervention_manifest"@, intervention_manifest_json(x.intervention_manifest))]
    + seq![member("intervention_manifest_ref"@, json_string(x.intervention_manifest_ref@))]
    + opt_member("oracle_result"@, match x.oracle_result { Some(v) => Some(json_string(oracle_result_name(v))), None => None })
    + seq![member("quality_evaluation_ids"@, string_array(x.quality_evaluation_ids@))]
}

/// The canonical JSON of a `EvaluationSidecar`.
#[verifier::opaque]
pub open spec fn evaluation_sidecar_json(x: EvaluationSidecar) -> Seq<char> {
    json_object(evaluation_sidecar_members(x))
}

/// The object members of a `ControlledEnvelope`, in key order.
pub open spec fn controlled_envelope_members(x: ControlledEnvelope) -> Seq<Seq<char>> {
    seq![member("benchmark_id"@, json_string(x.benchmark_id@))]
    + seq![member("evaluation_sidecar"@, evaluation_sidecar_json(x.evaluation_sidecar))]
    + seq![member("scenario"@, scenario_identity_json(x.scenario))]
    + seq![member("schema_id"@, json_string(x.schema_id@))]
    + seq![member("schema_version"@, json_number(x.schema_version as nat))]
    + seq![member("trace"@, trace_envelope_json(x.trace))]
}

/// The canonical JSON of a `ControlledEnvelope`.
#[verifier::opaque]
pub open spec fn controlled_envelope_json(x: ControlledEnvelope) -> Seq<char> {
    json_object(controlled_envelope_members(x))
}

/// The object members of a `AggregateCounts`, in key order.
pub open spec fn aggregate_counts_members(x: AggregateCounts) -> Seq<Seq<char>> {
    seq![member("fail"@, json_number(x.fail as nat))]
    + seq![member("inconclusive"@, json_number(x.inconclusive as nat))]
    + seq![member("invalid_baseline"@, json_number(x.invalid_baseline as nat))]
    + seq![member("pass"@, json_number(x.pass as nat))]
}

/// The canonical JSON of a `AggregateCounts`.
#[verifier::opaque]
pub open spec fn aggregate_counts_json(x: AggregateCounts) -> Seq<char> {
    json_object(aggregate_counts_members(x))
}

pub open spec fn evaluation_record_members_head(x: EvaluationRecord) -> Seq<Seq<char>> {
    seq![member("baseline_completed"@, json_bool(x.baseline_completed))]
    + seq![member("baseline_final_state_hash"@, match x.baseline_final_state_hash { Some(s) => json_string(s@), None => "null"@ })]
    + seq![member("baseline_trace_id"@, json_string(x.baseline_trace_id@))]
    + seq![member("collateral_state_keys"@, string_array(x.collateral_state_keys@))]
    + seq![member("intervention_completed"@, json_bool(x.intervention_completed))]
}

pub open spec fn evaluation_record_members_tail(x: EvaluationRecord) -> Seq<Seq<char>> {
    seq![member("intervention_final_state_hash"@, match x.intervention_final_state_hash { Some(s) => json_string(s@), None => "null"@ })]
    + seq![member("intervention_trace_id"@, json_string(x.intervention_trace_id@))]
    + seq![member("manifest_id"@, json_string(x.manifest_id@))]
    + seq![member("note"@, json_string(x.note@))]
    + seq![member("result"@, json_string(oracle_result_name(x.result)))]
    + seq![member("scenario_id"@, json_string(x.scenario_id@))]
}

/// The object members of a `EvaluationRecord`, in key order.
pub open spec fn evaluation_record_members(x: EvaluationRecord) -> Seq<Seq<char>> {
    evaluation_record_members_head(x) + evaluation_record_members_tail(x)
}

/// The canonical JSON of a `EvaluationRecord`.
#[verifier::opaque]
pub open spec fn evaluation_record_json(x: EvaluationRecord) -> Seq<char> {
    json_object(evaluation_record_members(x))
}

pub open spec fn evaluation_record_list_json(xs: Seq<EvaluationRecord>) -> Seq<char> {
    json_array(xs.map_values(|e: EvaluationRecord| evaluation_record_json(e)))
}

/// The object members of a `PlannerRun`, in key order.
pub open spec fn planner_run_members(x: PlannerRun) -> Seq<Seq<char>> {
    seq![member("classes"@, string_array(x.classes@))]
    + seq![member("plan_json_hash"@, json_string(x.plan_json_hash@))]
    + seq![member("scenario_id"@, json_string(x.scenario_id@))]
    + seq![member("trace_id"@, json_string(x.trace_id@))]
}

/// The canonical JSON of a `PlannerRun`.
#[verifier::opaque]
pub open spec fn planner_run_json(x: PlannerRun) -> Seq<char> {
    json_object(planner_run_members(x))
}

pub open spec fn planner_run_list_json(xs: Seq<PlannerRun>) -> Seq<char> {
    json_array(xs.map_values(|e: PlannerRun| planner_run_json(e)))
}

pub open spec fn benchmark_report_members_head(x: BenchmarkReport) -> Seq<Seq<char>> {
    seq![member("aggregate_counts"@, aggregate_counts_json(x.aggregate_counts))]
    + seq![member("aggregate_hash"@, json_string(x.aggregate_hash@))]
    + seq![member("artifact_id"@, json_string(x.artifact_id@))]
    + seq![member("baseline_count"@, json_number(x.baseline_count as nat))]
    + seq![member("control_count"@, json_number(x.control_count as nat))]
    + seq![member("evaluations"@, evaluation_record_list_json(x.evaluations@))]
}

pub open spec fn benchmark_report_members_tail(x: BenchmarkReport) -> Seq<Seq<char>> {
    seq![member("manifest_hashes"@, string_map(x.manifest_hashes@))]
    + seq![member("oracle_version"@, json_string(x.oracle_version@))]
    + seq![member("planner_runs"@, planner_run_list_json(x.planner_runs@))]
    + seq![member("scenario_count"@, json_number(x.scenario_count as nat))]
    + seq![member("schema_id"@, json_string(x.schema_id@))]
    + seq![member("schema_version"@, json_number(x.schema_version as nat))]
    + seq![member("variant_count"@, json_number(x.variant_count as nat))]
}

/// The object members of a `BenchmarkReport`, in key order.
pub open spec fn benchmark_report_members(x: BenchmarkReport) -> Seq<Seq<char>> {
    benchmark_report_members_head(x) + benchmark_report_members_tail(x)
}

/// The canonical JSON of a `BenchmarkReport`.
#[verifier::opaque]
pub open spec fn benchmark_report_json(x: BenchmarkReport) -> Seq<char> {
    json_object(benchmark_report_members(x))
}

/// The object members of a `RequestDiffReference`, in key order.
pub open spec fn request_diff_reference_members(x: RequestDiffReference) -> Seq<Seq<char>> {
    seq![member("actual_diff_fingerprint"@, json_string(x.actual_diff_fingerprint@))]
    + seq![member("materialized_request_fingerprint"@, json_string(x.materialized_request_fingerprint@))]
    + seq![member("planned_diff_fingerprint"@, json_string(x.planned_diff_fingerprint@))]
    + seq![member("source_request_fingerprint"@, json_string(x.source_request_fingerprint@))]
}

/// The canonical JSON of a `RequestDiffReference`.
#[verifier::opaque]
pub open spec fn request_diff_reference_json(x: RequestDiffReference) -> Seq<char> {
    json_object(request_diff_reference_members(x))
}

/// The object members of a `InvariantResult`, in key order.
pub open spec fn invariant_result_members(x: InvariantResult) -> Seq<Seq<char>> {
    seq![member("invariant"@, json_string(materialization_invariant_name(x.invariant)))]
    + seq![member("passed"@, json_bool(x.passed))]
}

/// The canonical JSON of a `InvariantResult`.
#[verifier::opaque]
pub open spec fn invariant_result_json(x: InvariantResult) -> Seq<char> {
    json_object(invariant_result_members(x))
}

pub open spec fn invariant_result_list_json(xs: Seq<InvariantResult>) -> Seq<char> {
    json_array(xs.map_values(|e: InvariantResult| invariant_result_json(e)))
}

pub open spec fn materialization_safety_certificate_members_head(x: MaterializationSafetyCertificate) -> Seq<Seq<char>> {
    seq![member("artifact_conservation"@, json_bool(x.artifact_conservation))]
    + seq![member("authorized_transformation_verified"@, json_bool(x.authorized_transformation_verified))]
    + seq![member("candidate_identity_verified"@, json_bool(x.candidate_identity_verified))]
    + seq![member("certification_status"@, json_string(certification_status_name(x.certification_status)))]
    + seq![member("content_conservation"@, json_bool(x.content_conservation))]
    + seq![member("envelope_conservation"@, json_bool(x.envelope_conservation))]
    + seq![member("invariant_results"@, invariant_result_list_json(x.invariant_results@))]
    + seq![member("order_change_only"@, json_bool(x.order_change_only))]
}

pub open spec fn materialization_safety_certificate_members_tail(x: MaterializationSafetyCertificate) -> Seq<Seq<char>> {
    seq![member("provenance"@, string_map(x.provenance@))]
    + seq![member("provenance_conservation"@, json_bool(x.provenance_conservation))]
    + seq![member("request_diff_reference"@, request_diff_reference_json(x.request_diff_reference))]
    + seq![member("schema_id"@, json_string(x.schema_id@))]
    + seq![member("schema_version"@, json_number(x.schema_version as nat))]
    + seq![member("source_identity_verified"@, json_bool(x.source_identity_verified))]
    + seq![member("tool_conservation"@, json_bool(x.tool_conservation))]
    + seq![member("trust_conservation"@, json_bool(x.trust_conservation))]
}

/// The object members of a `MaterializationSafetyCertificate`, in key order.
pub open spec fn materialization_safety_certificate_members(x: MaterializationSafetyCertificate) -> Seq<Seq<char>> {
    materialization_safety_certificate_members_head(x) + materialization_safety_certificate_members_tail(x)
}

/// The canonical JSON of a `MaterializationSafetyCertificate`.
#[verifier::opaque]
pub open spec fn materialization_safety_certificate_json(x: MaterializationSafetyCertificate) -> Seq<char> {
    json_object(materialization_safety_certificate_members(x))
}

/// The object members of a `CandidateExperimentPair`, in key order.
pub open spec fn candidate_experiment_pair_members(x: CandidateExperimentPair) -> Seq<Seq<char>> {
    seq![member("candidate_case_id"@, json_string(x.candidate_case_id@))]
    + seq![member("candidate_fingerprint"@, json_string(x.candidate_fingerprint@))]
    + seq![member("candidate_request_fingerprint"@, json_string(x.candidate_request_fingerprint@))]
    + seq![member("pair_fingerprint"@, json_string(x.pair_fingerprint@))]
    + seq![member("provenance"@, string_map(x.provenance@))]
    + seq![member("safety_certificate_fingerprint"@, json_string(x.safety_certificate_fingerprint@))]
    + seq![member("schema_id"@, json_string(x.schema_id@))]
    + seq![member("schema_version"@, json_number(x.schema_version as nat))]
    + seq![member("source_case_id"@, json_string(x.source_case_id@))]
    + seq![member("source_request_fingerprint"@, json_string(x.source_request_fingerprint@))]
}

/// The canonical JSON of a `CandidateExperimentPair`.
#[verifier::opaque]
pub open spec fn candidate_experiment_pair_json(x: CandidateExperimentPair) -> Seq<char> {
    json_object(candidate_experiment_pair_members(x))
}

/// The canonical JSON of a `SourceProvenance`.
pub fn source_provenance_text(x: &SourceProvenance) -> (r: String)
    ensures
        r@ == source_provenance_json(*x),
{
    let mut members: Vec<String> = Vec::new();
    let ghost start = views(members@);
    push_member(&mut members, "classification", string_value(evidence_class_text(x.classification)));
    let ghost step0 = views(members@);
    push_opt_member(&mut members, "content_hash", opt_string_value(&x.content_hash));
    let ghost step1 = views(members@);
    push_opt_member(&mut members, "note", opt_string_value(&x.note));
    let ghost step2 = views(members@);
    push_member(&mut members, "source_kind", string_value(source_kind_text(x.source_kind)));
    let ghost step3 = views(members@);
    push_opt_member(&mut members, "source_locator", opt_string_value(&x.source_locator));
    let ghost step4 = views(members@);
    push_opt_member(&mut members, "source_revision", opt_string_value(&x.source_revision));
    let ghost step5 = views(members@);
    proof {
        reveal(source_provenance_json);
        assert(views(members@) =~= source_provenance_members(*x));
    }
    object_value(&members)
}

/// The canonical JSON array of `SourceProvenance` values.
pub fn source_provenance_list_text(xs: &Vec<SourceProvenance>) -> (r: String)
    ensures
        r@ == source_provenance_list_json(xs@),
{
    let mut texts: Vec<String> = Vec::new();
    let mut i: usize = 0;
    while i < xs.len()
        invariant
            i <= xs.len(),
            views(texts@) == xs@.take(i as int).map_values(|e: SourceProvenance| source_provenance_json(e)),
        decreases xs.len() - i,
    {
        let ghost before = views(texts@);
        let t = source_provenance_text(&xs[i]);
        texts.push(t);
        proof {
            assert(views(texts@) =~= before.push(source_provenance_json(xs@[i as int])));
            assert(xs@.take(i + 1) =~= xs@.take(i as int).push(xs@[i as int]));
            assert(xs@.take(i + 1).map_values(|e: SourceProvenance| source_provenance_json(e)) =~= xs@.take(i as int).map_values(|e: SourceProvenance| source_provenance_json(e)).push(source_provenance_json(xs@[i as int])));
        }
        i = i + 1;
    }
    assert(xs@.take(xs.len() as int) =~= xs@);
    array_value(&texts)
}

/// The canonical JSON of a `ScenarioIdentity`.
pub fn scenario_identity_text(x: &ScenarioIdentity) -> (r: String)
    ensures
        r@ == scenario_identity_json(*x),
{
    let mut members: Vec<String> = Vec::new();
    let ghost start = views(members@);
    push_member(&mut members, "environment_revision", string_value(x.environment_revision.as_str()));
    let ghost step0 = views(members@);
    push_member(&mut members, "fixed_seed", number_value(x.fixed_seed as u64));
    let ghost step1 = views(members@);
    push_member(&mut members, "initial_state_id", string_value(x.initial_state_id.as_str()));
    let ghost step2 = views(members@);
    push_member(&mut members, "provenance", source_provenance_list_text(&x.provenance));
    let ghost step3 = views(members@);
    push_member(&mut members, "scenario_id", string_value(x.scenario_id.as_str()));
    let ghost step4 = views(members@);
    push_member(&mut members, "scenario_version", string_value(x.scenario_version.as_str()));
    let ghost step5 = views(members@);
    push_member(&mut members, "task_revision", string_value(x.task_revision.as_str()));
    let ghost step6 = views(members@);
    proof {
        reveal(scenario_identity_json);
        assert(views(members@) =~= scenario_identity_members(*x));
    }
    object_value(&members)
}

/// The canonical JSON of a `ActionIdentity`.
pub fn action_identity_text(x: &ActionIdentity) -> (r: String)
    ensures
        r@ == action_identity_json(*x),
{
    let mut members: Vec<String> = Vec::new();
    let ghost start = views(members@);
    push_member(&mut members, "action_id", string_value(x.action_id.as_str()));
    let ghost step0 = views(members@);
    push_opt_member(&mut members, "argument_hash", opt_string_value(&x.argument_hash));
    let ghost step1 = views(members@);
    push_member(&mut members, "tool_name", string_value(x.tool_name.as_str()));
    let ghost step2 = views(members@);
    proof {
        reveal(action_identity_json);
        assert(views(members@) =~= action_identity_members(*x));
    }
    object_value(&members)
}

/// The canonical JSON of a `ResultIdentity`.
pub fn result_identity_text(x: &ResultIdentity) -> (r: String)
    ensures
        r@ == result_identity_json(*x),
{
    let mut members: Vec<String> = Vec::new();
    let ghost start = views(members@);
    push_opt_member(&mut members, "observation_hash", opt_string_value(&x.observation_hash));
    let ghost step0 = views(members@);
    push_member(&mut members, "originating_action_id", string_value(x.originating_action_id.as_str()));
    let ghost step1 = views(members@);
    push_member(&mut members, "result_id", string_value(x.result_id.as_str()));
    let ghost step2 = views(members@);
    match x.status {
        Some(v) => push_opt_member(&mut members, "status", Some(string_value(result_status_text(v)))),
        None => push_opt_member(&mut members, "status", None),
    }
    let ghost step3 = views(members@);
    proof {
        reveal(result_identity_json);
        assert(views(members@) =~= result_identity_members(*x));
    }
    object_value(&members)
}

/// The canonical JSON of a `OrderMetadata`.
pub fn order_metadata_text(x: &OrderMetadata) -> (r: String)
    ensures
        r@ == order_metadata_json(*x),
{
    let mut members: Vec<String> = Vec::new();
    let ghost start = views(members@);
    match x.logical_tick {
        Some(v) => push_opt_member(&mut members, "logical_tick", Some(number_value(v as u64))),
        None => push_opt_member(&mut members, "logical_tick", None),
    }
    let ghost step0 = views(members@);
    push_opt_member(&mut members, "source_timestamp", opt_string_value(&x.source_timestamp));
    let ghost step1 = views(members@);
    match x.timestamp_origin {
        Some(v) => push_opt_member(&mut members, "timestamp_origin", Some(string_value(timestamp_origin_text(v)))),
        None => push_opt_member(&mut members, "timestamp_origin", None),
    }
    let ghost step2 = views(members@);
    proof {
        reveal(order_metadata_json);
        assert(views(members@) =~= order_metadata_members(*x));
    }
    object_value(&members)
}

#[verifier::spinoff_prover]
#[verifier::rlimit(40)]
fn push_event_head(members: &mut Vec<String>, x: &Event)
    ensures
        views(final(members)@) == views(old(members)@) + event_members_head(*x),
{
    let ghost start = views(members@);
    match &x.action {
        Some(v) => push_opt_member(members, "action", Some(action_identity_text(v))),
        None => push_opt_member(members, "action", None),
    }
    let ghost step0 = views(members@);
    push_member(members, "actor_role", string_value(actor_role_text(x.actor_role)));
    let ghost step1 = views(members@);
    push_opt_member(members, "content_hash", opt_string_value(&x.content_hash));
    let ghost step2 = views(members@);
    push_opt_member(members, "context_block_id", opt_string_value(&x.context_block_id));
    let ghost step3 = views(members@);
    push_member(members, "event_id", string_value(x.event_id.as_str()));
    let ghost step4 = views(members@);
    push_member(members, "event_type", string_value(event_type_text(x.event_type)));
    let ghost step5 = views(members@);
    assert(views(members@) =~= start + event_members_head(*x));
}

#[verifier::spinoff_prover]
#[verifier::rlimit(40)]
fn push_event_tail(members: &mut Vec<String>, x: &Event)
    ensures
        views(final(members)@) == views(old(members)@) + event_members_tail(*x),
{
    let ghost start = views(members@);
    match &x.order {
        Some(v) => push_opt_member(members, "order", Some(order_metadata_text(v))),
        None => push_opt_member(members, "order", None),
    }
    let ghost step0 = views(members@);
    if x.parent_event_ids.len() > 0 {
        push_member(members, "parent_event_ids", string_array_value(&x.parent_event_ids));
    }
    let ghost step1 = views(members@);
    push_member(members, "provenance", source_provenance_list_text(&x.provenance));
    let ghost step2 = views(members@);
    if x.reference_event_ids.len() > 0 {
        push_member(members, "reference_event_ids", string_array_value(&x.reference_event_ids));
    }
    let ghost step3 = views(members@);
    match &x.result {
        Some(v) => push_opt_member(members, "result", Some(result_identity_text(v))),
        None => push_opt_member(members, "result", None),
    }
    let ghost step4 = views(members@);
    push_member(members, "sequence_index", number_value(x.sequence_index as u64));
    let ghost step5 = views(members@);
    push_opt_member(members, "world_state_revision", opt_string_value(&x.world_state_revision));
    let ghost step6 = views(members@);
    assert(views(members@) =~= start + event_members_tail(*x));
}

/// The canonical JSON of a `Event`.
pub fn event_text(x: &Event) -> (r: String)
    ensures
        r@ == event_json(*x),
{
    let mut members: Vec<String> = Vec::new();
    let ghost start = views(members@);
    push_event_head(&mut members, x);
    push_event_tail(&mut members, x);
    proof {
        reveal(event_json);
        assert(views(members@) =~= event_members(*x));
    }
    object_value(&members)
}

/// The canonical JSON array of `Event` values.
pub fn event_list_text(xs: &Vec<Event>) -> (r: String)
    ensures
        r@ == event_list_json(xs@),
{
    let mut texts: Vec<String> = Vec::new();
    let mut i: usize = 0;
    while i < xs.len()
        invariant
            i <= xs.len(),
            views(texts@) == xs@.take(i as int).map_values(|e: Event| event_json(e)),
        decreases xs.len() - i,
    {
        let ghost before = views(texts@);
        let t = event_text(&xs[i]);
        texts.push(t);
        proof {
            assert(views(texts@) =~= before.push(event_json(xs@[i as int])));
            assert(xs@.take(i + 1) =~= xs@.take(i as int).push(xs@[i as int]));
            assert(xs@.take(i + 1).map_values(|e: Event| event_json(e)) =~= xs@.take(i as int).map_values(|e: Event| event_json(e)).push(event_json(xs@[i as int])));
        }
        i = i + 1;
    }
    assert(xs@.take(xs.len() as int) =~= xs@);
    array_value(&texts)
}

/// The canonical JSON of a `Relation`.
pub fn relation_text(x: &Relation) -> (r: String)
    ensures
        r@ == relation_json(*x),
{
    let mut members: Vec<String> = Vec::new();
    let ghost start = views(members@);
    push_member(&mut members, "from_id", string_value(x.from_id.as_str()));
    let ghost step0 = views(members@);
    push_member(&mut members, "provenance", source_provenance_list_text(&x.provenance));
    let ghost step1 = views(members@);
    push_member(&mut members, "relation_id", string_value(x.relation_id.as_str()));
    let ghost step2 = views(members@);
    push_member(&mut members, "relation_type", string_value(relation_type_text(x.relation_type)));
    let ghost step3 = views(members@);
    push_member(&mut members, "scope", string_value(x.scope.as_str()));
    let ghost step4 = views(members@);
    push_opt_member(&mut members, "semantics_version", opt_string_value(&x.semantics_version));
    let ghost step5 = views(members@);
    push_member(&mut members, "to_id", string_value(x.to_id.as_str()));
    let ghost step6 = views(members@);
    proof {
        reveal(relation_json);
        assert(views(members@) =~= relation_members(*x));
    }
    object_value(&members)
}

/// The canonical JSON array of `Relation` values.
pub fn relation_list_text(xs: &Vec<Relation>) -> (r: String)
    ensures
        r@ == relation_list_json(xs@),
{
    let mut texts: Vec<String> = Vec::new();
    let mut i: usize = 0;
    while i < xs.len()
        invariant
            i <= xs.len(),
            views(texts@) == xs@.take(i as int).map_values(|e: Relation| relation_json(e)),
        decreases xs.len() - i,
    {
        let ghost before = views(texts@);
        let t = relation_text(&xs[i]);
        texts.push(t);
        proof {
            assert(views(texts@) =~= before.push(relation_json(xs@[i as int])));
            assert(xs@.take(i + 1) =~= xs@.take(i as int).push(xs@[i as int]));
            assert(xs@.take(i + 1).map_values(|e: Relation| relation_json(e)) =~= xs@.take(i as int).map_values(|e: Relation| relation_json(e)).push(relation_json(xs@[i as int])));
        }
        i = i + 1;
    }
    assert(xs@.take(xs.len() as int) =~= xs@);
    array_value(&texts)
}

/// The canonical JSON of a `PlannerInput`.
pub fn planner_input_text(x: &PlannerInput) -> (r: String)
    ensures
        r@ == planner_input_json(*x),
{
    let mut members: Vec<String> = Vec::new();
    let ghost start = views(members@);
    push_member(&mut members, "events", event_list_text(&x.events));
    let ghost step0 = views(members@);
    push_member(&mut members, "provenance", source_provenance_list_text(&x.provenance));
    let ghost step1 = views(members@);
    push_member(&mut members, "relations", relation_list_text(&x.relations));
    let ghost step2 = views(members@);
    proof {
        reveal(planner_input_json);
        assert(views(members@) =~= planner_input_members(*x));
    }
    object_value(&members)
}

/// The canonical JSON of a `TraceEnvelope`.
pub fn trace_envelope_text(x: &TraceEnvelope) -> (r: String)
    ensures
        r@ == trace_envelope_json(*x),
{
    let mut members: Vec<String> = Vec::new();
    let ghost start = views(members@);
    push_member(&mut members, "baseline_trace_id", string_value(x.baseline_trace_id.as_str()));
    let ghost step0 = views(members@);
    push_member(&mut members, "planner_input", planner_input_text(&x.planner_input));
    let ghost step1 = views(members@);
    push_member(&mut members, "trace_id", string_value(x.trace_id.as_str()));
    let ghost step2 = views(members@);
    push_member(&mut members, "variant_role", string_value(variant_role_text(x.variant_role)));
    let ghost step3 = views(members@);
    proof {
        reveal(trace_envelope_json);
        assert(views(members@) =~= trace_envelope_members(*x));
    }
    object_value(&members)
}

/// The canonical JSON of a `InterventionManifest`.
pub fn intervention_manifest_text(x: &InterventionManifest) -> (r: String)
    ensures
        r@ == intervention_manifest_json(*x),
{
    let mut members: Vec<String> = Vec::new();
    let ghost start = views(members@);
    push_member(&mut members, "baseline_trace_id", string_value(x.baseline_trace_id.as_str()));
    let ghost step0 = views(members@);
    push_member(&mut members, "exact_transformation", string_value(x.exact_transformation.as_str()));
    let ghost step1 = views(members@);
    push_member(&mut members, "expected_quality_risk_category", string_value(quality_risk_category_text(x.expected_quality_risk_category)));
    let ghost step2 = views(members@);
    push_member(&mut members, "expected_structural_effect", string_value(x.expected_structural_effect.as_str()));
    let ghost step3 = views(members@);
    push_member(&mut members, "intervention_class", string_value(intervention_class_text(x.intervention_class)));
    let ghost step4 = views(members@);
    push_member(&mut members, "manifest_id", string_value(x.manifest_id.as_str()));
    let ghost step5 = views(members@);
    push_member(&mut members, "planner_visibility", string_value(planner_visibility_text(x.planner_visibility)));
    let ghost step6 = views(members@);
    push_member(&mut members, "reason", string_value(x.reason.as_str()));
    let ghost step7 = views(members@);
    push_member(&mut members, "target_event_ids", string_array_value(&x.target_event_ids));
    let ghost step8 = views(members@);
    push_member(&mut members, "variant_trace_id", string_value(x.variant_trace_id.as_str()));
    let ghost step9 = views(members@);
    proof {
        reveal(intervention_manifest_json);
        assert(views(members@) =~= intervention_manifest_members(*x));
    }
    object_value(&members)
}

/// The canonical JSON of a `EvaluationSidecar`.
pub fn evaluation_sidecar_text(x: &EvaluationSidecar) -> (r: String)
    ensures
        r@ == evaluation_sidecar_json(*x),
{
    let mut members: Vec<String> = Vec::new();
    let ghost start = views(members@);
    push_opt_member(&mut members, "evaluation_content_hash", opt_string_value(&x.evaluation_content_hash));
    let ghost step0 = views(members@);
    push_member(&mut members, "intervention_manifest", intervention_manifest_text(&x.intervention_manifest));
    let ghost step1 = views(members@);
    push_member(&mut members, "intervention_manifest_ref", string_value(x.intervention_manifest_ref.as_str()));
    let ghost step2 = views(members@);
    match x.oracle_result {
        Some(v) => push_opt_member(&mut members, "oracle_result", Some(string_value(oracle_result_text(v)))),
        None => push_opt_member(&mut members, "oracle_result", None),
    }
    let ghost step3 = views(members@);
    push_member(&mut members, "quality_evaluation_ids", string_array_value(&x.quality_evaluation_ids));
    let ghost step4 = views(members@);
    proof {
        reveal(evaluation_sidecar_json);
        assert(views(members@) =~= evaluation_sidecar_members(*x));
    }
    object_value(&members)
}

/// The canonical JSON of a `ControlledEnvelope`.
pub fn controlled_envelope_text(x: &ControlledEnvelope) -> (r: String)
    ensures
        r@ == controlled_envelope_json(*x),
{
    let mut members: Vec<String> = Vec::new();
    let ghost start = views(members@);
    push_member(&mut members, "benchmark_id", string_value(x.benchmark_id.as_str()));
    let ghost step0 = views(members@);
    push_member(&mut members, "evaluation_sidecar", evaluation_sidecar_text(&x.evaluation_sidecar));
    let ghost step1 = views(members@);
    push_member(&mut members, "scenario", scenario_identity_text(&x.scenario));
    let ghost step2 = views(members@);
    push_member(&mut members, "schema_id", string_value(x.schema_id.as_str()));
    let ghost step3 = views(members@);
    push_member(&mut members, "schema_version", number_value(x.schema_version as u64));
    let ghost step4 = views(members@);
    push_member(&mut members, "trace", trace_envelope_text(&x.trace));
    let ghost step5 = views(members@);
    proof {
        reveal(controlled_envelope_json);
        assert(views(members@) =~= controlled_envelope_members(*x));
    }
    object_value(&members)
}

/// The canonical JSON of a `AggregateCounts`.
pub fn aggregate_counts_text(x: &AggregateCounts) -> (r: String)
    ensures
        r@ == aggregate_counts_json(*x),
{
    let mut members: Vec<String> = Vec::new();
    let ghost start = views(members@);
    push_member(&mut members, "fail", number_value(x.fail as u64));
    let ghost step0 = views(members@);
    push_member(&mut members, "inconclusive", number_value(x.inconclusive as u64));
    let ghost step1 = views(members@);
    push_member(&mut members, "invalid_baseline", number_value(x.invalid_baseline as u64));
    let ghost step2 = views(members@);
    push_member(&mut members, "pass", number_value(x.pass as u64));
    let ghost step3 = views(members@);
    proof {
        reveal(aggregate_counts_json);
        assert(views(members@) =~= aggregate_counts_members(*x));
    }
    object_value(&members)
}

#[verifier::spinoff_prover]
#[verifier::rlimit(40)]
fn push_evaluation_record_head(members: &mut Vec<String>, x: &EvaluationRecord)
    ensures
        views(final(members)@) == views(old(members)@) + evaluation_record_members_head(*x),
{
    let ghost start = views(members@);
    push_member(members, "baseline_completed", bool_value(x.baseline_completed));
    let ghost step0 = views(members@);
    match &x.baseline_final_state_hash {
        Some(s) => push_member(members, "baseline_final_state_hash", string_value(s.as_str())),
        None => push_member(members, "baseline_final_state_hash", crate::text::owned("null")),
    }
    let ghost step1 = views(members@);
    push_member(members, "baseline_trace_id", string_value(x.baseline_trace_id.as_str()));
    let ghost step2 = views(members@);
    push_member(members, "collateral_state_keys", string_array_value(&x.collateral_state_keys));
    let ghost step3 = views(members@);
    push_member(members, "intervention_completed", bool_value(x.intervention_completed));
    let ghost step4 = views(members@);
    assert(views(members@) =~= start + evaluation_record_members_head(*x));
}

#[verifier::spinoff_prover]
#[verifier::rlimit(40)]
fn push_evaluation_record_tail(members: &mut Vec<String>, x: &EvaluationRecord)
    ensures
        views(final(members)@) == views(old(members)@) + evaluation_record_members_tail(*x),
{
    let ghost start = views(members@);
    match &x.intervention_final_state_hash {
        Some(s) => push_member(members, "intervention_final_state_hash", string_value(s.as_str())),
        None => push_member(members, "intervention_final_state_hash", crate::text::owned("null")),
    }
    let ghost step0 = views(members@);
    push_member(members, "intervention_trace_id", string_value(x.intervention_trace_id.as_str()));
    let ghost step1 = views(members@);
    push_member(members, "manifest_id", string_value(x.manifest_id.as_str()));
    let ghost step2 = views(members@);
    push_member(members, "note", string_value(x.note.as_str()));
    let ghost step3 = views(members@);
    push_member(members, "result", string_value(oracle_result_text(x.result)));
    let ghost step4 = views(members@);
    push_member(members, "scenario_id", string_value(x.scenario_id.as_str()));
    let ghost step5 = views(members@);
    assert(views(members@) =~= start + evaluation_record_members_tail(*x));
}

/// The canonical JSON of a `EvaluationRecord`.
pub fn evaluation_record_text(x: &EvaluationRecord) -> (r: String)
    ensures
        r@ == evaluation_record_json(*x),
{
    let mut members: Vec<String> = Vec::new();
    let ghost start = views(members@);
    push_evaluation_record_head(&mut members, x);
    push_evaluation_record_tail(&mut members, x);
    proof {
        reveal(evaluation_record_json);
        assert(views(members@) =~= evaluation_record_members(*x));
    }
    object_value(&members)
}

/// The canonical JSON array of `EvaluationRecord` values.
pub fn evaluation_record_list_text(xs: &Vec<EvaluationRecord>) -> (r: String)
    ensures
        r@ == evaluation_record_list_json(xs@),
{
    let mut texts: Vec<String> = Vec::new();
    let mut i: usize = 0;
    while i < xs.len()
        invariant
            i <= xs.len(),
            views(texts@) == xs@.take(i as int).map_values(|e: EvaluationRecord| evaluation_record_json(e)),
        decreases xs.len() - i,
    {
        let ghost before = views(texts@);
        let t = evaluation_record_text(&xs[i]);
        texts.push(t);
        proof {
            assert(views(texts@) =~= before.push(evaluation_record_json(xs@[i as int])));
            assert(xs@.take(i + 1) =~= xs@.take(i as int).push(xs@[i as int]));
            assert(xs@.take(i + 1).map_values(|e: EvaluationRecord| evaluation_record_json(e)) =~= xs@.take(i as int).map_values(|e: EvaluationRecord| evaluation_record_json(e)).push(evaluation_record_json(xs@[i as int])));
        }
        i = i + 1;
    }
    assert(xs@.take(xs.len() as int) =~= xs@);
    array_value(&texts)
}

/// The canonical JSON of a `PlannerRun`.
pub fn planner_run_text(x: &PlannerRun) -> (r: String)
    ensures
        r@ == planner_run_json(*x),
{
    let mut members: Vec<String> = Vec::new();
    let ghost start = views(members@);
    push_member(&mut members, "classes", string_array_value(&x.classes));
    let ghost step0 = views(members@);
    push_member(&mut members, "plan_json_hash", string_value(x.plan_json_hash.as_str()));
    let ghost step1 = views(members@);
    push_member(&mut members, "scenario_id", string_value(x.scenario_id.as_str()));
    let ghost step2 = views(members@);
    push_member(&mut members, "trace_id", string_value(x.trace_id.as_str()));
    let ghost step3 = views(members@);
    proof {
        reveal(planner_run_json);
        assert(views(members@) =~= planner_run_members(*x));
    }
    object_value(&members)
}

/// The canonical JSON array of `PlannerRun` values.
pub fn planner_run_list_text(xs: &Vec<PlannerRun>) -> (r: String)
    ensures
        r@ == planner_run_list_json(xs@),
{
    let mut texts: Vec<String> = Vec::new();
    let mut i: usize = 0;
    while i < xs.len()
        invariant
            i <= xs.len(),
            views(texts@) == xs@.take(i as int).map_values(|e: PlannerRun| planner_run_json(e)),
        decreases xs.len() - i,
    {
        let ghost before = views(texts@);
        let t = planner_run_text(&xs[i]);
        texts.push(t);
        proof {
            assert(views(texts@) =~= before.push(planner_run_json(xs@[i as int])));
            assert(xs@.take(i + 1) =~= xs@.take(i as int).push(xs@[i as int]));
            assert(xs@.take(i + 1).map_values(|e: PlannerRun| planner_run_json(e)) =~= xs@.take(i as int).map_values(|e: PlannerRun| planner_run_json(e)).push(planner_run_json(xs@[i as int])));
        }
        i = i + 1;
    }
    assert(xs@.take(xs.len() as int) =~= xs@);
    array_value(&texts)
}

#[verifier::spinoff_prover]
#[verifier::rlimit(40)]
fn push_benchmark_report_head(members: &mut Vec<String>, x: &BenchmarkReport)
    ensures
        views(final(members)@) == views(old(members)@) + benchmark_report_members_head(*x),
{
    let ghost start = views(members@);
    push_member(members, "aggregate_counts", aggregate_counts_text(&x.aggregate_counts));
    let ghost step0 = views(members@);
    push_member(members, "aggregate_hash", string_value(x.aggregate_hash.as_str()));
    let ghost step1 = views(members@);
    push_member(members, "artifact_id", string_value(x.artifact_id.as_str()));
    let ghost step2 = views(members@);
    push_member(members, "baseline_count", number_value(x.baseline_count as u64));
    let ghost step3 = views(members@);
    push_member(members, "control_count", number_value(x.control_count as u64));
    let ghost step4 = views(members@);
    push_member(members, "evaluations", evaluation_record_list_text(&x.evaluations));
    let ghost step5 = views(members@);
    assert(views(members@) =~= start + benchmark_report_members_head(*x));
}

#[verifier::spinoff_prover]
#[verifier::rlimit(40)]
fn push_benchmark_report_tail(members: &mut Vec<String>, x: &BenchmarkReport)
    ensures
        views(final(members)@) == views(old(members)@) + benchmark_report_members_tail(*x),
{
    let ghost start = views(members@);
    push_member(members, "manifest_hashes", string_map_value(&x.manifest_hashes));
    let ghost step0 = views(members@);
    push_member(members, "oracle_version", string_value(x.oracle_version.as_str()));
    let ghost step1 = views(members@);
    push_member(members, "planner_runs", planner_run_list_text(&x.planner_runs));
    let ghost step2 = views(members@);
    push_member(members, "scenario_count", number_value(x.scenario_count as u64));
    let ghost step3 = views(members@);
    push_member(members, "schema_id", string_value(x.schema_id.as_str()));
    let ghost step4 = views(members@);
    push_member(members, "schema_version", number_value(x.schema_version as u64));
    let ghost step5 = views(members@);
    push_member(members, "variant_count", number_value(x.variant_count as u64));
    let ghost step6 = views(members@);
    assert(views(members@) =~= start + benchmark_report_members_tail(*x));
}

/// The canonical JSON of a `BenchmarkReport`.
pub fn benchmark_report_text(x: &BenchmarkReport) -> (r: String)
    ensures
        r@ == benchmark_report_json(*x),
{
    let mut members: Vec<String> = Vec::new();
    let ghost start = views(members@);
    push_benchmark_report_head(&mut members, x);
    push_benchmark_report_tail(&mut members, x);
    proof {
        reveal(benchmark_report_json);
        assert(views(members@) =~= benchmark_report_members(*x));
    }
    object_value(&members)
}

/// The canonical JSON of a `RequestDiffReference`.
pub fn request_diff_reference_text(x: &RequestDiffReference) -> (r: String)
    ensures
        r@ == request_diff_reference_json(*x),
{
    let mut members: Vec<String> = Vec::new();
    let ghost start = views(members@);
    push_member(&mut members, "actual_diff_fingerprint", string_value(x.actual_diff_fingerprint.as_str()));
    let ghost step0 = views(members@);
    push_member(&mut members, "materialized_request_fingerprint", string_value(x.materialized_request_fingerprint.as_str()));
    let ghost step1 = views(members@);
    push_member(&mut members, "planned_diff_fingerprint", string_value(x.planned_diff_fingerprint.as_str()));
    let ghost step2 = views(members@);
    push_member(&mut members, "source_request_fingerprint", string_value(x.source_request_fingerprint.as_str()));
    let ghost step3 = views(members@);
    proof {
        reveal(request_diff_reference_json);
        assert(views(members@) =~= request_diff_reference_members(*x));
    }
    object_value(&members)
}

/// The canonical JSON of a `InvariantResult`.
pub fn invariant_result_text(x: &InvariantResult) -> (r: String)
    ensures
        r@ == invariant_result_json(*x),
{
    let mut members: Vec<String> = Vec::new();
    let ghost start = views(members@);
    push_member(&mut members, "invariant", string_value(materialization_invariant_text(x.invariant)));
    let ghost step0 = views(members@);
    push_member(&mut members, "passed", bool_value(x.passed));
    let ghost step1 = views(members@);
    proof {
        reveal(invariant_result_json);
        assert(views(members@) =~= invariant_result_members(*x));
    }
    object_value(&members)
}

/// The canonical JSON array of `InvariantResult` values.
pub fn invariant_result_list_text(xs: &Vec<InvariantResult>) -> (r: String)
    ensures
        r@ == invariant_result_list_json(xs@),
{
    let mut texts: Vec<String> = Vec::new();
    let mut i: usize = 0;
    while i < xs.len()
        invariant
            i <= xs.len(),
            views(texts@) == xs@.take(i as int).map_values(|e: InvariantResult| invariant_result_json(e)),
        decreases xs.len() - i,
    {
        let ghost before = views(texts@);
        let t = invariant_result_text(&xs[i]);
        texts.push(t);
        proof {
            assert(views(texts@) =~= before.push(invariant_result_json(xs@[i as int])));
            assert(xs@.take(i + 1) =~= xs@.take(i as int).push(xs@[i as int]));
            assert(xs@.take(i + 1).map_values(|e: InvariantResult| invariant_result_json(e)) =~= xs@.take(i as int).map_values(|e: InvariantResult| invariant_result_json(e)).push(invariant_result_json(xs@[i as int])));
        }
        i = i + 1;
    }
    assert(xs@.take(xs.len() as int) =~= xs@);
    array_value(&texts)
}

#[verifier::spinoff_prover]
#[verifier::rlimit(40)]
fn push_materialization_safety_certificate_head(members: &mut Vec<String>, x: &MaterializationSafetyCertificate)
    ensures
        views(final(members)@) == views(old(members)@) + materialization_safety_certificate_members_head(*x),
{
    let ghost start = views(members@);
    push_member(members, "artifact_conservation", bool_value(x.artifact_conservation));
    let ghost step0 = views(members@);
    push_member(members, "authorized_transformation_verified", bool_value(x.authorized_transformation_verified));
    let ghost step1 = views(members@);
    push_member(members, "candidate_identity_verified", bool_value(x.candidate_identity_verified));
    let ghost step2 = views(members@);
    push_member(members, "certification_status", string_value(certification_status_text(x.certification_status)));
    let ghost step3 = views(members@);
    push_member(members, "content_conservation", bool_value(x.content_conservation));
    let ghost step4 = views(members@);
    push_member(members, "envelope_conservation", bool_value(x.envelope_conservation));
    let ghost step5 = views(members@);
    push_member(members, "invariant_results", invariant_result_list_text(&x.invariant_results));
    let ghost step6 = views(members@);
    push_member(members, "order_change_only", bool_value(x.order_change_only));
    let ghost step7 = views(members@);
    assert(views(members@) =~= start + materialization_safety_certificate_members_head(*x));
}

#[verifier::spinoff_prover]
#[verifier::rlimit(40)]
fn push_materialization_safety_certificate_tail(members: &mut Vec<String>, x: &MaterializationSafetyCertificate)
    ensures
        views(final(members)@) == views(old(members)@) + materialization_safety_certificate_members_tail(*x),
{
    let ghost start = views(members@);
    push_member(members, "provenance", string_map_value(&x.provenance));
    let ghost step0 = views(members@);
    push_member(members, "provenance_conservation", bool_value(x.provenance_conservation));
    let ghost step1 = views(members@);
    push_member(members, "request_diff_reference", request_diff_reference_text(&x.request_diff_reference));
    let ghost step2 = views(members@);
    push_member(members, "schema_id", string_value(x.schema_id.as_str()));
    let ghost step3 = views(members@);
    push_member(members, "schema_version", number_value(x.schema_version as u64));
    let ghost step4 = views(members@);
    push_member(members, "source_identity_verified", bool_value(x.source_identity_verified));
    let ghost step5 = views(members@);
    push_member(members, "tool_conservation", bool_value(x.tool_conservation));
    let ghost step6 = views(members@);
    push_member(members, "trust_conservation", bool_value(x.trust_conservation));
    let ghost step7 = views(members@);
    assert(views(members@) =~= start + materialization_safety_certificate_members_tail(*x));
}

/// The canonical JSON of a `MaterializationSafetyCertificate`.
pub fn materialization_safety_certificate_text(x: &MaterializationSafetyCertificate) -> (r: String)
    ensures
        r@ == materialization_safety_certificate_json(*x),
{
    let mut members: Vec<String> = Vec::new();
    let ghost start = views(members@);
    push_materialization_safety_certificate_head(&mut members, x);
    push_materialization_safety_certificate_tail(&mut members, x);
    proof {
        reveal(materialization_safety_certificate_json);
        assert(views(members@) =~= materialization_safety_certificate_members(*x));
    }
    object_value(&members)
}

/// The canonical JSON of a `CandidateExperimentPair`.
pub fn candidate_experiment_pair_text(x: &CandidateExperimentPair) -> (r: String)
    ensures
        r@ == candidate_experiment_pair_json(*x),
{
    let mut members: Vec<String> = Vec::new();
    let ghost start = views(members@);
    push_member(&mut members, "candidate_case_id", string_value(x.candidate_case_id.as_str()));
    let ghost step0 = views(members@);
    push_member(&mut members, "candidate_fingerprint", string_value(x.candidate_fingerprint.as_str()));
    let ghost step1 = views(members@);
    push_member(&mut members, "candidate_request_fingerprint", string_value(x.candidate_request_fingerprint.as_str()));
    let ghost step2 = views(members@);
    push_member(&mut members, "pair_fingerprint", string_value(x.pair_fingerprint.as_str()));
    let ghost step3 = views(members@);
    push_member(&mut members, "provenance", string_map_value(&x.provenance));
    let ghost step4 = views(members@);
    push_member(&mut members, "safety_certificate_fingerprint", string_value(x.safety_certificate_fingerprint.as_str()));
    let ghost step5 = views(members@);
    push_member(&mut members, "schema_id", string_value(x.schema_id.as_str()));
    let ghost step6 = views(members@);
    push_member(&mut members, "schema_version", number_value(x.schema_version as u64));
    let ghost step7 = views(members@);
    push_member(&mut members, "source_case_id", string_value(x.source_case_id.as_str()));
    let ghost step8 = views(members@);
    push_member(&mut members, "source_request_fingerprint", string_value(x.source_request_fingerprint.as_str()));
    let ghost step9 = views(members@);
    proof {
        reveal(candidate_experiment_pair_json);
        assert(views(members@) =~= candidate_experiment_pair_members(*x));
    }
    object_value(&members)
}

} // verus!
