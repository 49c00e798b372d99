//! Validation of controlled envelopes and cases, and their canonical hashes.
//!
//! Every rule below is stated as a spec function; each check returns `Ok`
//! exactly when its rule holds and an in-memory validation error otherwise.
use vstd::prelude::*;
use vstd::string::{StrSliceExecFns, StringSliceAdditionalSpecFns};
use vstd::utf8::encode_utf8;
use crate::canonical::{controlled_envelope_json, controlled_envelope_text, intervention_manifest_json, intervention_manifest_text};
use crate::hashing::{hex_lower, sha256_digest, sha256_hex};
use crate::error::{checked, in_memory_validation, BenchmarkError};
use crate::fields::{check_hash, check_id, check_text, check_version, is_version, valid_hash, valid_id, valid_text};
use crate::model::{
    ActionIdentity, ControlledCase, ControlledEnvelope, Event, EventType, EvaluationSidecar, EvidenceClass, InterventionManifest,
    OrderMetadata, PlannerInput, Relation, RelationType, ResultIdentity, ScenarioIdentity,
    SourceProvenance, TimestampOrigin, TraceEnvelope, VariantRole, InterventionClass, PlannerVisibility, QualityRiskCategory,
    SourceKind, BENCHMARK_ID, MAX_EVENTS, MAX_PROVENANCE,
    MAX_RELATIONS, RELATION_SEMANTICS_VERSION, SCHEMA_ID, SCHEMA_VERSION,
};
use crate::pair_shape::{pair_error_of, pair_shape_ok, provenance_list_view, same_ids, same_provenance_list, validate_pair_shape};
use crate::text::{concat2, opt_view, owned, str_eq};
use crate::ordering::views;

verus! {

/// No identifier occurs twice.
pub open spec fn distinct_ids(ids: Seq<String>) -> bool {
    forall|a: int, b: int| #![trigger ids[a], ids[b]] 0 <= a < b < ids.len() ==> ids[a]@ != ids[b]@
}

/// At most `max` well-formed identifiers, none of them twice.
pub open spec fn valid_id_list(ids: Seq<String>, max: int) -> bool {
    &&& ids.len() <= max
    &&& forall|i: int| 0 <= i < ids.len() ==> valid_id(#[trigger] ids[i]@)
    &&& distinct_ids(ids)
}

pub open spec fn provenance_entry_ok(p: SourceProvenance, planner_visible: bool) -> bool {
    &&& (p.source_locator matches Some(s) ==> valid_text(s@))
    &&& (p.source_revision matches Some(s) ==> valid_text(s@))
    &&& (p.content_hash matches Some(s) ==> valid_hash(s@))
    &&& (p.note matches Some(s) ==> valid_text(s@))
    &&& (planner_visible ==> !(p.classification is EvaluationOnly))
}

/// Provenance entries are well formed, and evaluation-only provenance does
/// not enter planner-visible data.
pub open spec fn provenance_ok(entries: Seq<SourceProvenance>, planner_visible: bool) -> bool {
    forall|i: int| 0 <= i < entries.len() ==> provenance_entry_ok(#[trigger] entries[i], planner_visible)
}

pub open spec fn manifest_ok(m: InterventionManifest) -> bool {
    &&& valid_id(m.manifest_id@)
    &&& valid_id(m.baseline_trace_id@)
    &&& valid_id(m.variant_trace_id@)
    &&& 1 <= m.target_event_ids.len() <= 32
    &&& valid_id_list(m.target_event_ids@, 32)
    &&& valid_text(m.exact_transformation@)
    &&& valid_text(m.reason@)
    &&& valid_text(m.expected_structural_effect@)
}

pub open spec fn sidecar_ok(s: EvaluationSidecar, trace: TraceEnvelope) -> bool {
    &&& valid_id(s.intervention_manifest_ref@)
    &&& s.intervention_manifest_ref@ == s.intervention_manifest.manifest_id@
    &&& manifest_ok(s.intervention_manifest)
    &&& valid_id_list(s.quality_evaluation_ids@, 8)
    &&& (s.evaluation_content_hash matches Some(h) ==> valid_hash(h@))
    &&& (trace.variant_role is Baseline ==> s.intervention_manifest.baseline_trace_id@ == trace.baseline_trace_id@)
}

pub open spec fn scenario_ok(s: ScenarioIdentity) -> bool {
    &&& valid_id(s.scenario_id@)
    &&& is_version(s.scenario_version@)
    &&& valid_text(s.task_revision@)
    &&& valid_text(s.environment_revision@)
    &&& valid_id(s.initial_state_id@)
    &&& s.provenance.len() <= 16
    &&& provenance_ok(s.provenance@, false)
}

pub open spec fn action_ok(a: ActionIdentity) -> bool {
    &&& valid_id(a.action_id@)
    &&& valid_text(a.tool_name@)
    &&& (a.argument_hash matches Some(h) ==> valid_hash(h@))
}

pub open spec fn result_ok(r: ResultIdentity) -> bool {
    &&& valid_id(r.result_id@)
    &&& valid_id(r.originating_action_id@)
    &&& (r.observation_hash matches Some(h) ==> valid_hash(h@))
}

/// A source timestamp is only carried by source-explicit order metadata.
pub open spec fn order_ok(o: OrderMetadata) -> bool {
    o.source_timestamp is Some ==> o.timestamp_origin == Some(TimestampOrigin::SourceExplicit)
}

/// What an event must satisfy on its own, at position `index`.
pub open spec fn event_local_ok(e: Event, index: int) -> bool {
    &&& valid_id(e.event_id@)
    &&& e.sequence_index == index
    &&& (e.context_block_id matches Some(c) ==> valid_id(c@))
    &&& valid_id_list(e.parent_event_ids@, 32)
    &&& valid_id_list(e.reference_event_ids@, 32)
    &&& (e.action matches Some(a) ==> action_ok(a) && e.event_type is Action)
    &&& (e.result matches Some(r) ==> result_ok(r) && (e.event_type is Result || e.event_type is Observation))
    &&& (e.content_hash matches Some(h) ==> valid_hash(h@))
    &&& (e.order matches Some(o) ==> order_ok(o))
    &&& provenance_ok(e.provenance@, true)
}

pub open spec fn context_of(e: Event) -> Option<Seq<char>> {
    opt_view(e.context_block_id)
}

pub open spec fn action_id_of(e: Event) -> Option<Seq<char>> {
    match e.action {
        Some(a) => Some(a.action_id@),
        None => None,
    }
}

pub open spec fn result_id_of(e: Event) -> Option<Seq<char>> {
    match e.result {
        Some(r) => Some(r.result_id@),
        None => None,
    }
}

pub open spec fn origin_of(e: Event) -> Option<Seq<char>> {
    match e.result {
        Some(r) => Some(r.originating_action_id@),
        None => None,
    }
}

pub open spec fn has_event_id(events: Seq<Event>, id: Seq<char>) -> bool {
    exists|k: int| 0 <= k < events.len() && (#[trigger] events[k]).event_id@ == id
}

pub open spec fn has_action_id(events: Seq<Event>, id: Seq<char>) -> bool {
    exists|k: int| 0 <= k < events.len() && action_id_of(#[trigger] events[k]) == Some(id)
}

/// `id` names the event `e`, its context block, its action or its result.
pub open spec fn addresses(e: Event, id: Seq<char>) -> bool {
    e.event_id@ == id || context_of(e) == Some(id) || action_id_of(e) == Some(id) || result_id_of(e) == Some(id)
}

/// `id` names an event, a context block, an action or a result of `events`.
pub open spec fn is_addressable(events: Seq<Event>, id: Seq<char>) -> bool {
    exists|k: int| 0 <= k < events.len() && addresses(#[trigger] events[k], id)
}

/// Event, action and result identities are each unique.
pub open spec fn identities_distinct(events: Seq<Event>) -> bool {
    forall|a: int, b: int| #![trigger events[a], events[b]] 0 <= a < b < events.len() ==> {
        &&& events[a].event_id@ != events[b].event_id@
        &&& (action_id_of(events[a]) is Some ==> action_id_of(events[a]) != action_id_of(events[b]))
        &&& (result_id_of(events[a]) is Some ==> result_id_of(events[a]) != result_id_of(events[b]))
    }
}

/// Parent and reference IDs name events; results originate from actions.
pub open spec fn references_known(events: Seq<Event>) -> bool {
    forall|i: int| 0 <= i < events.len() ==> {
        let e = #[trigger] events[i];
        &&& forall|j: int| 0 <= j < e.parent_event_ids.len() ==> has_event_id(events, #[trigger] e.parent_event_ids@[j]@)
        &&& forall|j: int| 0 <= j < e.reference_event_ids.len() ==> has_event_id(events, #[trigger] e.reference_event_ids@[j]@)
        &&& (origin_of(e) matches Some(o) ==> has_action_id(events, o))
    }
}

/// A `produces` relation goes from an action to a result of that action.
pub open spec fn produces_ok(events: Seq<Event>, from: Seq<char>, to: Seq<char>) -> bool {
    &&& has_action_id(events, from)
    &&& exists|m: int| 0 <= m < events.len() && result_id_of(#[trigger] events[m]) == Some(to) && origin_of(events[m]) == Some(from)
}

pub open spec fn relation_ok(events: Seq<Event>, r: Relation) -> bool {
    &&& valid_id(r.relation_id@)
    &&& r.scope@ == "scenario_local"@
    &&& opt_view(r.semantics_version) == Some(RELATION_SEMANTICS_VERSION@)
    &&& is_addressable(events, r.from_id@)
    &&& is_addressable(events, r.to_id@)
    &&& provenance_ok(r.provenance@, true)
    &&& (r.relation_type is Produces ==> produces_ok(events, r.from_id@, r.to_id@))
}

pub open spec fn relation_ids_distinct(rs: Seq<Relation>) -> bool {
    forall|a: int, b: int| #![trigger rs[a], rs[b]] 0 <= a < b < rs.len() ==> rs[a].relation_id@ != rs[b].relation_id@
}

/// The identities of `events[i]` differ from those of every earlier event.
pub open spec fn distinct_from_earlier(events: Seq<Event>, i: int) -> bool {
    forall|k: int| 0 <= k < i ==> {
        &&& (#[trigger] events[k]).event_id@ != events[i].event_id@
        &&& (action_id_of(events[k]) is Some ==> action_id_of(events[k]) != action_id_of(events[i]))
        &&& (result_id_of(events[k]) is Some ==> result_id_of(events[k]) != result_id_of(events[i]))
    }
}

pub open spec fn references_known_at(events: Seq<Event>, e: Event) -> bool {
    &&& forall|j: int| 0 <= j < e.parent_event_ids.len() ==> has_event_id(events, #[trigger] e.parent_event_ids@[j]@)
    &&& forall|j: int| 0 <= j < e.reference_event_ids.len() ==> has_event_id(events, #[trigger] e.reference_event_ids@[j]@)
    &&& (origin_of(e) matches Some(o) ==> has_action_id(events, o))
}

/// The structural rules of a planner input.
pub open spec fn planner_input_ok(input: PlannerInput) -> bool {
    let events = input.events@;
    &&& 1 <= events.len() <= MAX_EVENTS
    &&& input.relations.len() <= MAX_RELATIONS
    &&& input.provenance.len() <= MAX_PROVENANCE
    &&& provenance_ok(input.provenance@, true)
    &&& forall|i: int| 0 <= i < events.len() ==> event_local_ok(#[trigger] events[i], i)
    &&& identities_distinct(events)
    &&& references_known(events)
    &&& relation_ids_distinct(input.relations@)
    &&& forall|i: int| 0 <= i < input.relations.len() ==> relation_ok(events, #[trigger] input.relations@[i])
}

pub open spec fn trace_ok(t: TraceEnvelope) -> bool {
    &&& valid_id(t.trace_id@)
    &&& valid_id(t.baseline_trace_id@)
    &&& planner_input_ok(t.planner_input)
}

/// The rules every controlled envelope satisfies.
pub open spec fn envelope_ok(e: ControlledEnvelope) -> bool {
    &&& e.schema_id@ == SCHEMA_ID@
    &&& e.schema_version == SCHEMA_VERSION
    &&& valid_id(e.benchmark_id@)
    &&& scenario_ok(e.scenario)
    &&& trace_ok(e.trace)
    &&& sidecar_ok(e.evaluation_sidecar, e.trace)
}

/// SHA-256 of the UTF-8 bytes of a canonical JSON text, in lowercase hex.
pub open spec fn json_digest(json: Seq<char>) -> Seq<char> {
    hex_lower(sha256_digest(encode_utf8(json)))
}

pub open spec fn scenario_view(s: ScenarioIdentity) -> (Seq<char>, Seq<char>, Seq<char>, Seq<char>, Seq<char>, u32, Seq<(SourceKind, EvidenceClass, Option<Seq<char>>, Option<Seq<char>>, Option<Seq<char>>, Option<Seq<char>>)>) {
    (s.scenario_id@, s.scenario_version@, s.task_revision@, s.environment_revision@, s.initial_state_id@, s.fixed_seed, provenance_list_view(s.provenance@))
}

pub open spec fn manifest_view(m: InterventionManifest) -> ((Seq<char>, Seq<char>, Seq<char>), Seq<Seq<char>>, InterventionClass, (Seq<char>, Seq<char>), PlannerVisibility, Seq<char>, QualityRiskCategory) {
    ((m.manifest_id@, m.baseline_trace_id@, m.variant_trace_id@), views(m.target_event_ids@), m.intervention_class,
        (m.exact_transformation@, m.reason@), m.planner_visibility, m.expected_structural_effect@, m.expected_quality_risk_category)
}

/// Both envelopes describe the same scenario, bind to the baseline trace and
/// carry the case's manifest.
pub open spec fn pair_identity_ok(c: ControlledCase) -> bool {
    &&& c.scenario_id@ == c.baseline.scenario.scenario_id@
    &&& c.scenario_id@ == c.intervention.scenario.scenario_id@
    &&& c.baseline.benchmark_id@ == c.intervention.benchmark_id@
    &&& c.baseline.benchmark_id@ == BENCHMARK_ID@
    &&& scenario_view(c.baseline.scenario) == scenario_view(c.intervention.scenario)
    &&& c.baseline.trace.variant_role is Baseline
    &&& c.baseline.trace.baseline_trace_id@ == c.baseline.trace.trace_id@
    &&& c.intervention.trace.baseline_trace_id@ == c.baseline.trace.trace_id@
    &&& manifest_view(c.manifest) == manifest_view(c.baseline.evaluation_sidecar.intervention_manifest)
    &&& manifest_view(c.manifest) == manifest_view(c.intervention.evaluation_sidecar.intervention_manifest)
    &&& c.manifest.baseline_trace_id@ == c.baseline.trace.trace_id@
    &&& c.manifest.variant_trace_id@ == c.intervention.trace.trace_id@
}

/// A no-change control is paired with a control trace, every other
/// intervention with a variant trace.
pub open spec fn expected_role(class: InterventionClass) -> VariantRole {
    if class is NoChange { VariantRole::Control } else { VariantRole::Variant }
}

/// The first rule a case breaks, by the kind of error it is reported with.
pub ghost enum CaseFault {
    Envelope,
    Pair,
    Hash,
}

#[verifier::opaque]
pub open spec fn case_fault(c: ControlledCase) -> Option<CaseFault> {
    if !envelope_ok(c.baseline) || !envelope_ok(c.intervention) {
        Some(CaseFault::Envelope)
    } else if !pair_identity_ok(c) {
        Some(CaseFault::Pair)
    } else if c.manifest_hash@ != json_digest(intervention_manifest_json(c.manifest)) {
        Some(CaseFault::Hash)
    } else if c.intervention.trace.variant_role != expected_role(c.manifest.intervention_class)
        || !pair_shape_ok(c.baseline.trace.planner_input, c.intervention.trace.planner_input, c.manifest) {
        Some(CaseFault::Pair)
    } else {
        None
    }
}

fn fail(message: String) -> (r: Result<(), BenchmarkError>)
    ensures
        r matches Err(e) && in_memory_validation(e),
{
    Err(BenchmarkError::validation_owned(message))
}

fn validate_id(id: &str, field: &str) -> (r: Result<(), BenchmarkError>)
    ensures
        checked(r, valid_id(id@)),
{
    if check_id(id) {
        Ok(())
    } else {
        fail(concat2(field, " contains malformed ID"))
    }
}

fn validate_text(text: &str, field: &str) -> (r: Result<(), BenchmarkError>)
    ensures
        checked(r, valid_text(text@)),
{
    if check_text(text) {
        Ok(())
    } else {
        fail(concat2(field, " must be non-empty and at most 512 bytes"))
    }
}

fn validate_hash(hash: &str, field: &str) -> (r: Result<(), BenchmarkError>)
    ensures
        checked(r, valid_hash(hash@)),
{
    if check_hash(hash) {
        Ok(())
    } else {
        fail(concat2(field, " must be lowercase SHA-256"))
    }
}

fn validate_opt_text(text: &Option<String>, field: &str) -> (r: Result<(), BenchmarkError>)
    ensures
        checked(r, text matches Some(s) ==> valid_text(s@)),
{
    match text {
        Some(s) => validate_text(s.as_str(), field),
        None => Ok(()),
    }
}

fn validate_opt_hash(hash: &Option<String>, field: &str) -> (r: Result<(), BenchmarkError>)
    ensures
        checked(r, hash matches Some(s) ==> valid_hash(s@)),
{
    match hash {
        Some(s) => validate_hash(s.as_str(), field),
        None => Ok(()),
    }
}

/// Whether `ids[i]` equals one of the identifiers before it.
fn seen_before(ids: &Vec<String>, i: usize) -> (r: bool)
    requires
        i < ids.len(),
    ensures
        r <==> exists|k: int| 0 <= k < i && ids@[k]@ == ids@[i as int]@,
{
    let mut k: usize = 0;
    while k < i
        invariant
            k <= i < ids.len(),
            forall|j: int| 0 <= j < k ==> ids@[j]@ != ids@[i as int]@,
        decreases i - k,
    {
        if str_eq(ids[k].as_str(), ids[i].as_str()) {
            return true;
        }
        k = k + 1;
    }
    false
}

fn validate_id_list(ids: &Vec<String>, field: &str, max: usize) -> (r: Result<(), BenchmarkError>)
    ensures
        checked(r, valid_id_list(ids@, max as int)),
{
    if ids.len() > max {
        return fail(concat2(field, " exceeds its maximum length"));
    }
    let mut i: usize = 0;
    while i < ids.len()
        invariant
            i <= ids.len() <= max,
            forall|j: int| 0 <= j < i ==> valid_id(#[trigger] ids@[j]@),
            forall|a: int, b: int| #![trigger ids@[a], ids@[b]] 0 <= a < b < i ==> ids@[a]@ != ids@[b]@,
        decreases ids.len() - i,
    {
        let r = validate_id(ids[i].as_str(), field);
        if r.is_err() {
            return r;
        }
        if seen_before(ids, i) {
            return fail(concat2(field, " contains a duplicate ID"));
        }
        i = i + 1;
    }
    Ok(())
}

fn validate_provenance_entry(entry: &SourceProvenance, field: &str, planner_visible: bool) -> (r: Result<(), BenchmarkError>)
    ensures
        checked(r, provenance_entry_ok(*entry, planner_visible)),
{
    let r = validate_opt_text(&entry.source_locator, field);
    if r.is_err() {
        return r;
    }
    let r = validate_opt_text(&entry.source_revision, field);
    if r.is_err() {
        return r;
    }
    let r = validate_opt_hash(&entry.content_hash, field);
    if r.is_err() {
        return r;
    }
    let r = validate_opt_text(&entry.note, field);
    if r.is_err() {
        return r;
    }
    if planner_visible && entry.classification == EvidenceClass::EvaluationOnly {
        return fail(concat2("evaluation-only provenance cannot enter ", field));
    }
    Ok(())
}

fn validate_provenance(entries: &Vec<SourceProvenance>, field: &str, planner_visible: bool) -> (r: Result<(), BenchmarkError>)
    ensures
        checked(r, provenance_ok(entries@, planner_visible)),
{
    let mut i: usize = 0;
    while i < entries.len()
        invariant
            i <= entries.len(),
            forall|j: int| 0 <= j < i ==> provenance_entry_ok(#[trigger] entries@[j], planner_visible),
        decreases entries.len() - i,
    {
        let r = validate_provenance_entry(&entries[i], field, planner_visible);
        if r.is_err() {
            return r;
        }
        i = i + 1;
    }
    Ok(())
}

fn validate_manifest(m: &InterventionManifest) -> (r: Result<(), BenchmarkError>)
    ensures
        checked(r, manifest_ok(*m)),
{
    let r = validate_id(m.manifest_id.as_str(), "manifest_id");
    if r.is_err() {
        return r;
    }
    let r = validate_id(m.baseline_trace_id.as_str(), "manifest.baseline_trace_id");
    if r.is_err() {
        return r;
    }
    let r = validate_id(m.variant_trace_id.as_str(), "manifest.variant_trace_id");
    if r.is_err() {
        return r;
    }
    if m.target_event_ids.len() == 0 || m.target_event_ids.len() > 32 {
        return fail(concat2("manifest.target_event_ids", " must contain 1..=32 IDs"));
    }
    let r = validate_id_list(&m.target_event_ids, "manifest.target_event_ids", 32);
    if r.is_err() {
        return r;
    }
    let r = validate_text(m.exact_transformation.as_str(), "manifest.exact_transformation");
    if r.is_err() {
        return r;
    }
    let r = validate_text(m.reason.as_str(), "manifest.reason");
    if r.is_err() {
        return r;
    }
    validate_text(m.expected_structural_effect.as_str(), "manifest.expected_structural_effect")
}

fn validate_sidecar(s: &EvaluationSidecar, trace: &TraceEnvelope) -> (r: Result<(), BenchmarkError>)
    ensures
        checked(r, sidecar_ok(*s, *trace)),
{
    let r = validate_id(s.intervention_manifest_ref.as_str(), "evaluation_sidecar.intervention_manifest_ref");
    if r.is_err() {
        return r;
    }
    if !str_eq(s.intervention_manifest_ref.as_str(), s.intervention_manifest.manifest_id.as_str()) {
        return fail(concat2("intervention_manifest_ref", " does not match manifest_id"));
    }
    let r = validate_manifest(&s.intervention_manifest);
    if r.is_err() {
        return r;
    }
    let r = validate_id_list(&s.quality_evaluation_ids, "quality_evaluation_ids", 8);
    if r.is_err() {
        return r;
    }
    let r = validate_opt_hash(&s.evaluation_content_hash, "evaluation_content_hash");
    if r.is_err() {
        return r;
    }
    if trace.variant_role == VariantRole::Baseline
        && !str_eq(s.intervention_manifest.baseline_trace_id.as_str(), trace.baseline_trace_id.as_str())
    {
        return fail(concat2("baseline sidecar manifest", " does not point at the trace baseline"));
    }
    Ok(())
}

fn validate_scenario(s: &ScenarioIdentity) -> (r: Result<(), BenchmarkError>)
    ensures
        checked(r, scenario_ok(*s)),
{
    let r = validate_id(s.scenario_id.as_str(), "scenario.scenario_id");
    if r.is_err() {
        return r;
    }
    if !check_version(s.scenario_version.as_str()) {
        return fail(concat2("scenario.scenario_version", " must be v followed by digits"));
    }
    let r = validate_text(s.task_revision.as_str(), "scenario.task_revision");
    if r.is_err() {
        return r;
    }
    let r = validate_text(s.environment_revision.as_str(), "scenario.environment_revision");
    if r.is_err() {
        return r;
    }
    let r = validate_id(s.initial_state_id.as_str(), "scenario.initial_state_id");
    if r.is_err() {
        return r;
    }
    if s.provenance.len() > 16 {
        return fail(concat2("scenario.provenance", " exceeds its bound"));
    }
    validate_provenance(&s.provenance, "scenario.provenance", false)
}

pub(crate) fn has_event_id_exec(events: &Vec<Event>, id: &str) -> (r: bool)
    ensures
        r == has_event_id(events@, id@),
{
    let mut k: usize = 0;
    while k < events.len()
        invariant
            k <= events.len(),
            forall|j: int| 0 <= j < k ==> (#[trigger] events@[j]).event_id@ != id@,
        decreases events.len() - k,
    {
        if str_eq(events[k].event_id.as_str(), id) {
            return true;
        }
        k = k + 1;
    }
    false
}

pub(crate) fn action_id_exec(e: &Event, id: &str) -> (r: bool)
    ensures
        r == (action_id_of(*e) == Some(id@)),
{
    match &e.action {
        Some(a) => str_eq(a.action_id.as_str(), id),
        None => false,
    }
}

pub(crate) fn result_id_exec(e: &Event, id: &str) -> (r: bool)
    ensures
        r == (result_id_of(*e) == Some(id@)),
{
    match &e.result {
        Some(x) => str_eq(x.result_id.as_str(), id),
        None => false,
    }
}

pub(crate) fn context_exec(e: &Event, id: &str) -> (r: bool)
    ensures
        r == (context_of(*e) == Some(id@)),
{
    match &e.context_block_id {
        Some(c) => str_eq(c.as_str(), id),
        None => false,
    }
}

fn has_action_id_exec(events: &Vec<Event>, id: &str) -> (r: bool)
    ensures
        r == has_action_id(events@, id@),
{
    let mut k: usize = 0;
    while k < events.len()
        invariant
            k <= events.len(),
            forall|j: int| 0 <= j < k ==> action_id_of(#[trigger] events@[j]) != Some(id@),
        decreases events.len() - k,
    {
        if action_id_exec(&events[k], id) {
            return true;
        }
        k = k + 1;
    }
    false
}

fn is_addressable_exec(events: &Vec<Event>, id: &str) -> (r: bool)
    ensures
        r == is_addressable(events@, id@),
{
    let mut k: usize = 0;
    while k < events.len()
        invariant
            k <= events.len(),
            forall|j: int| 0 <= j < k ==> !addresses(#[trigger] events@[j], id@),
        decreases events.len() - k,
    {
        let e = &events[k];
        if str_eq(e.event_id.as_str(), id) || context_exec(e, id) || action_id_exec(e, id) || result_id_exec(e, id) {
            return true;
        }
        k = k + 1;
    }
    false
}

fn produces_exec(events: &Vec<Event>, from: &str, to: &str) -> (r: bool)
    ensures
        r == produces_ok(events@, from@, to@),
{
    if !has_action_id_exec(events, from) {
        return false;
    }
    let mut k: usize = 0;
    while k < events.len()
        invariant
            k <= events.len(),
            has_action_id(events@, from@),
            forall|j: int| 0 <= j < k ==> !(result_id_of(#[trigger] events@[j]) == Some(to@) && origin_of(events@[j]) == Some(from@)),
        decreases events.len() - k,
    {
        match &events[k].result {
            Some(x) => {
                if str_eq(x.result_id.as_str(), to) && str_eq(x.originating_action_id.as_str(), from) {
                    assert(result_id_of(events@[k as int]) == Some(to@));
                    return true;
                }
            },
            None => {},
        }
        k = k + 1;
    }
    false
}

fn validate_action(a: &ActionIdentity) -> (r: Result<(), BenchmarkError>)
    ensures
        checked(r, action_ok(*a)),
{
    let r = validate_id(a.action_id.as_str(), "action.action_id");
    if r.is_err() {
        return r;
    }
    let r = validate_text(a.tool_name.as_str(), "action.tool_name");
    if r.is_err() {
        return r;
    }
    validate_opt_hash(&a.argument_hash, "action.argument_hash")
}

fn validate_result(x: &ResultIdentity) -> (r: Result<(), BenchmarkError>)
    ensures
        checked(r, result_ok(*x)),
{
    let r = validate_id(x.result_id.as_str(), "result.result_id");
    if r.is_err() {
        return r;
    }
    let r = validate_id(x.originating_action_id.as_str(), "result.originating_action_id");
    if r.is_err() {
        return r;
    }
    validate_opt_hash(&x.observation_hash, "result.observation_hash")
}

fn validate_order(o: &OrderMetadata) -> (r: Result<(), BenchmarkError>)
    ensures
        checked(r, order_ok(*o)),
{
    let explicit = match o.timestamp_origin {
        Some(TimestampOrigin::SourceExplicit) => true,
        _ => false,
    };
    if o.source_timestamp.is_some() && !explicit {
        return fail(concat2("source timestamp", " must be source_explicit"));
    }
    Ok(())
}

/// Checks `events[i]` on its own and against the identities before it.
fn validate_event(events: &Vec<Event>, i: usize) -> (r: Result<(), BenchmarkError>)
    requires
        i < events.len() <= MAX_EVENTS,
    ensures
        checked(r, event_local_ok(events@[i as int], i as int) && distinct_from_earlier(events@, i as int)),
{
    let e = &events[i];
    let r = validate_id(e.event_id.as_str(), "event.event_id");
    if r.is_err() {
        return r;
    }
    if e.sequence_index != i as u32 {
        return fail(concat2(e.event_id.as_str(), " has an unexpected sequence_index"));
    }
    let mut k: usize = 0;
    while k < i
        invariant
            k <= i < events.len(),
            *e == events@[i as int],
            forall|j: int| 0 <= j < k ==> (#[trigger] events@[j]).event_id@ != events@[i as int].event_id@,
        decreases i - k,
    {
        if str_eq(events[k].event_id.as_str(), e.event_id.as_str()) {
            return fail(concat2("duplicate event ID ", e.event_id.as_str()));
        }
        k = k + 1;
    }
    match &e.context_block_id {
        Some(c) => {
            let r = validate_id(c.as_str(), "event.context_block_id");
            if r.is_err() {
                return r;
            }
        },
        None => {},
    }
    let r = validate_id_list(&e.parent_event_ids, "event.parent_event_ids", 32);
    if r.is_err() {
        return r;
    }
    let r = validate_id_list(&e.reference_event_ids, "event.reference_event_ids", 32);
    if r.is_err() {
        return r;
    }
    match &e.action {
        Some(a) => {
            let r = validate_action(a);
            if r.is_err() {
                return r;
            }
            if e.event_type != EventType::Action {
                return fail(concat2("action identity on ", e.event_id.as_str()));
            }
            let mut k: usize = 0;
            while k < i
                invariant
                    k <= i < events.len(),
                    *e == events@[i as int],
                    e.action == Some(*a),
                    forall|j: int| 0 <= j < k ==> action_id_of(#[trigger] events@[j]) != Some(a.action_id@),
                decreases i - k,
            {
                if action_id_exec(&events[k], a.action_id.as_str()) {
                    return fail(concat2("duplicate action ID ", a.action_id.as_str()));
                }
                k = k + 1;
            }
        },
        None => {},
    }
    match &e.result {
        Some(x) => {
            let r = validate_result(x);
            if r.is_err() {
                return r;
            }
            if e.event_type != EventType::Result && e.event_type != EventType::Observation {
                return fail(concat2("result identity on ", e.event_id.as_str()));
            }
            let mut k: usize = 0;
            while k < i
                invariant
                    k <= i < events.len(),
                    *e == events@[i as int],
                    e.result == Some(*x),
                    forall|j: int| 0 <= j < k ==> result_id_of(#[trigger] events@[j]) != Some(x.result_id@),
                decreases i - k,
            {
                if result_id_exec(&events[k], x.result_id.as_str()) {
                    return fail(concat2("duplicate result ID ", x.result_id.as_str()));
                }
                k = k + 1;
            }
        },
        None => {},
    }
    let r = validate_opt_hash(&e.content_hash, "event.content_hash");
    if r.is_err() {
        return r;
    }
    match &e.order {
        Some(o) => {
            let r = validate_order(o);
            if r.is_err() {
                return r;
            }
        },
        None => {},
    }
    validate_provenance(&e.provenance, "event provenance", true)
}

fn validate_references(events: &Vec<Event>, i: usize) -> (r: Result<(), BenchmarkError>)
    requires
        i < events.len(),
    ensures
        checked(r, references_known_at(events@, events@[i as int])),
{
    let e = &events[i];
    let mut j: usize = 0;
    while j < e.parent_event_ids.len()
        invariant
            j <= e.parent_event_ids.len(),
            i < events.len(),
            *e == events@[i as int],
            forall|m: int| 0 <= m < j ==> has_event_id(events@, #[trigger] e.parent_event_ids@[m]@),
        decreases e.parent_event_ids.len() - j,
    {
        if !has_event_id_exec(events, e.parent_event_ids[j].as_str()) {
            return fail(concat2(e.event_id.as_str(), " references an unknown event"));
        }
        j = j + 1;
    }
    let mut j: usize = 0;
    while j < e.reference_event_ids.len()
        invariant
            j <= e.reference_event_ids.len(),
            i < events.len(),
            *e == events@[i as int],
            forall|m: int| 0 <= m < e.parent_event_ids.len() ==> has_event_id(events@, #[trigger] e.parent_event_ids@[m]@),
            forall|m: int| 0 <= m < j ==> has_event_id(events@, #[trigger] e.reference_event_ids@[m]@),
        decreases e.reference_event_ids.len() - j,
    {
        if !has_event_id_exec(events, e.reference_event_ids[j].as_str()) {
            return fail(concat2(e.event_id.as_str(), " references an unknown event"));
        }
        j = j + 1;
    }
    match &e.result {
        Some(x) => {
            if !has_action_id_exec(events, x.originating_action_id.as_str()) {
                return fail(concat2(x.result_id.as_str(), " originates from an unknown action"));
            }
        },
        None => {},
    }
    Ok(())
}

fn validate_relation(events: &Vec<Event>, relations: &Vec<Relation>, i: usize) -> (r: Result<(), BenchmarkError>)
    requires
        i < relations.len(),
    ensures
        checked(r, relation_ok(events@, relations@[i as int])
            && forall|k: int| 0 <= k < i ==> (#[trigger] relations@[k]).relation_id@ != relations@[i as int].relation_id@),
{
    let rel = &relations[i];
    let r = validate_id(rel.relation_id.as_str(), "relation.relation_id");
    if r.is_err() {
        return r;
    }
    let mut k: usize = 0;
    while k < i
        invariant
            k <= i < relations.len(),
            *rel == relations@[i as int],
            forall|j: int| 0 <= j < k ==> (#[trigger] relations@[j]).relation_id@ != relations@[i as int].relation_id@,
        decreases i - k,
    {
        if str_eq(relations[k].relation_id.as_str(), rel.relation_id.as_str()) {
            return fail(concat2("duplicate relation ID ", rel.relation_id.as_str()));
        }
        k = k + 1;
    }
    let semantics = match &rel.semantics_version {
        Some(v) => str_eq(v.as_str(), RELATION_SEMANTICS_VERSION),
        None => false,
    };
    if !str_eq(rel.scope.as_str(), "scenario_local") || !semantics {
        return fail(concat2(rel.relation_id.as_str(), " has unsupported scope or semantics version"));
    }
    if !is_addressable_exec(events, rel.from_id.as_str()) || !is_addressable_exec(events, rel.to_id.as_str()) {
        return fail(concat2(rel.relation_id.as_str(), " has an unknown endpoint"));
    }
    let r = validate_provenance(&rel.provenance, "relation provenance", true);
    if r.is_err() {
        return r;
    }
    if rel.relation_type == RelationType::Produces && !produces_exec(events, rel.from_id.as_str(), rel.to_id.as_str()) {
        return fail(concat2(rel.relation_id.as_str(), " is not a produces relation from an action to its result"));
    }
    Ok(())
}

/// Checks the structural rules of a planner input (see `planner_input_ok`).
pub fn validate_planner_input(input: &PlannerInput) -> (r: Result<(), BenchmarkError>)
    ensures
        checked(r, planner_input_ok(*input)),
{
    let events = &input.events;
    if events.len() == 0 || events.len() > MAX_EVENTS {
        return fail(concat2("planner_input.events", " must contain 1..=512 events"));
    }
    if input.relations.len() > MAX_RELATIONS {
        return fail(concat2("planner_input.relations", " exceeds 1024"));
    }
    if input.provenance.len() > MAX_PROVENANCE {
        return fail(concat2("planner_input.provenance", " exceeds 512"));
    }
    let r = validate_provenance(&input.provenance, "planner_input.provenance", true);
    if r.is_err() {
        return r;
    }
    let mut i: usize = 0;
    while i < events.len()
        invariant
            i <= events.len() <= MAX_EVENTS,
            *events == input.events,
            forall|j: int| 0 <= j < i ==> event_local_ok(#[trigger] events@[j], j),
            identities_distinct(events@.take(i as int)),
        decreases events.len() - i,
    {
        let r = validate_event(events, i);
        if r.is_err() {
            proof {
                if planner_input_ok(*input) {
                    assert(event_local_ok(events@[i as int], i as int));
                    assert forall|k: int| 0 <= k < i implies {
                        &&& (#[trigger] events@[k]).event_id@ != events@[i as int].event_id@
                        &&& (action_id_of(events@[k]) is Some ==> action_id_of(events@[k]) != action_id_of(events@[i as int]))
                        &&& (result_id_of(events@[k]) is Some ==> result_id_of(events@[k]) != result_id_of(events@[i as int]))
                    } by {
                        let x = events@[k];
                        let y = events@[i as int];
                    }
                }
            }
            return r;
        }
        proof {
            let prev = events@.take(i as int);
            let next = events@.take(i + 1);
            assert forall|a: int, b: int| #![trigger next[a], next[b]] 0 <= a < b < next.len() implies {
                &&& next[a].event_id@ != next[b].event_id@
                &&& (action_id_of(next[a]) is Some ==> action_id_of(next[a]) != action_id_of(next[b]))
                &&& (result_id_of(next[a]) is Some ==> result_id_of(next[a]) != result_id_of(next[b]))
            } by {
                if b < i {
                    assert(prev[a] == next[a] && prev[b] == next[b]);
                } else {
                    assert(next[a] == events@[a]);
                    assert(next[b] == events@[i as int]);
                }
            }
        }
        i = i + 1;
    }
    assert(events@.take(events.len() as int) =~= events@);
    let mut i: usize = 0;
    while i < events.len()
        invariant
            i <= events.len(),
            *events == input.events,
            forall|j: int| 0 <= j < i ==> references_known_at(events@, #[trigger] events@[j]),
        decreases events.len() - i,
    {
        let r = validate_references(events, i);
        if r.is_err() {
            proof {
                if planner_input_ok(*input) {
                    assert(references_known_at(events@, events@[i as int]));
                }
            }
            return r;
        }
        i = i + 1;
    }
    let relations = &input.relations;
    let mut i: usize = 0;
    while i < relations.len()
        invariant
            i <= relations.len(),
            *events == input.events,
            *relations == input.relations,
            forall|j: int| 0 <= j < i ==> relation_ok(events@, #[trigger] relations@[j]),
            forall|a: int, b: int| #![trigger relations@[a], relations@[b]] 0 <= a < b < i ==> relations@[a].relation_id@ != relations@[b].relation_id@,
        decreases relations.len() - i,
    {
        let r = validate_relation(events, relations, i);
        if r.is_err() {
            proof {
                if planner_input_ok(*input) {
                    assert(relation_ok(events@, relations@[i as int]));
                    assert forall|k: int| 0 <= k < i implies (#[trigger] relations@[k]).relation_id@ != relations@[i as int].relation_id@ by {
                        let x = relations@[i as int];
                    }
                }
            }
            return r;
        }
        i = i + 1;
    }
    assert(identities_distinct(events@));
    assert(references_known(events@));
    Ok(())
}

fn validate_trace(trace: &TraceEnvelope) -> (r: Result<(), BenchmarkError>)
    ensures
        checked(r, trace_ok(*trace)),
{
    let r = validate_id(trace.trace_id.as_str(), "trace.trace_id");
    if r.is_err() {
        return r;
    }
    let r = validate_id(trace.baseline_trace_id.as_str(), "trace.baseline_trace_id");
    if r.is_err() {
        return r;
    }
    validate_planner_input(&trace.planner_input)
}

/// Checks every rule of a controlled envelope.
pub fn validate_envelope(envelope: &ControlledEnvelope) -> (r: Result<(), BenchmarkError>)
    ensures
        checked(r, envelope_ok(*envelope)),
{
    if !str_eq(envelope.schema_id.as_str(), SCHEMA_ID) {
        return fail(concat2("schema_id must be ", SCHEMA_ID));
    }
    if envelope.schema_version != SCHEMA_VERSION {
        return fail(concat2("schema_version", " must be 1"));
    }
    let r = validate_id(envelope.benchmark_id.as_str(), "benchmark_id");
    if r.is_err() {
        return r;
    }
    let r = validate_scenario(&envelope.scenario);
    if r.is_err() {
        return r;
    }
    let r = validate_trace(&envelope.trace);
    if r.is_err() {
        return r;
    }
    validate_sidecar(&envelope.evaluation_sidecar, &envelope.trace)
}

/// The canonical hash of an intervention manifest.
pub fn manifest_hash(manifest: &InterventionManifest) -> (r: Result<String, BenchmarkError>)
    ensures
        r matches Ok(h) && h@ == json_digest(intervention_manifest_json(*manifest)) && h@.len() == 64,
{
    let text = intervention_manifest_text(manifest);
    Ok(sha256_hex(text.as_str().as_bytes()))
}

/// The canonical hash of a controlled envelope.
pub fn envelope_hash(envelope: &ControlledEnvelope) -> (r: Result<String, BenchmarkError>)
    ensures
        r matches Ok(h) && h@ == json_digest(controlled_envelope_json(*envelope)) && h@.len() == 64,
{
    let text = controlled_envelope_text(envelope);
    Ok(sha256_hex(text.as_str().as_bytes()))
}

/// The canonical JSON of a controlled envelope, as UTF-8 bytes.
pub fn canonical_envelope_json(envelope: &ControlledEnvelope) -> (r: Result<Vec<u8>, BenchmarkError>)
    ensures
        r matches Ok(b) && b@ == encode_utf8(controlled_envelope_json(*envelope)),
{
    let text = controlled_envelope_text(envelope);
    Ok(text.as_str().as_bytes_vec())
}

fn same_scenario(a: &ScenarioIdentity, b: &ScenarioIdentity) -> (r: bool)
    ensures
        r == (scenario_view(*a) == scenario_view(*b)),
{
    str_eq(a.scenario_id.as_str(), b.scenario_id.as_str())
        && str_eq(a.scenario_version.as_str(), b.scenario_version.as_str())
        && str_eq(a.task_revision.as_str(), b.task_revision.as_str())
        && str_eq(a.environment_revision.as_str(), b.environment_revision.as_str())
        && str_eq(a.initial_state_id.as_str(), b.initial_state_id.as_str())
        && a.fixed_seed == b.fixed_seed
        && same_provenance_list(&a.provenance, &b.provenance)
}

fn same_manifest(a: &InterventionManifest, b: &InterventionManifest) -> (r: bool)
    ensures
        r == (manifest_view(*a) == manifest_view(*b)),
{
    str_eq(a.manifest_id.as_str(), b.manifest_id.as_str())
        && str_eq(a.baseline_trace_id.as_str(), b.baseline_trace_id.as_str())
        && str_eq(a.variant_trace_id.as_str(), b.variant_trace_id.as_str())
        && same_ids(&a.target_event_ids, &b.target_event_ids)
        && a.intervention_class == b.intervention_class
        && str_eq(a.exact_transformation.as_str(), b.exact_transformation.as_str())
        && str_eq(a.reason.as_str(), b.reason.as_str())
        && a.planner_visibility == b.planner_visibility
        && str_eq(a.expected_structural_effect.as_str(), b.expected_structural_effect.as_str())
        && a.expected_quality_risk_category == b.expected_quality_risk_category
}

fn case_pair_fail(c: &ControlledCase, message: &str) -> (r: Result<(), BenchmarkError>)
    ensures
        r matches Err(e) && pair_error_of(e, c.scenario_id@),
{
    Err(BenchmarkError::pair(c.scenario_id.as_str(), message))
}

/// Checks both envelopes of a case and that the intervention differs from
/// the baseline only as its manifest declares.
pub fn validate_case(case: &ControlledCase) -> (r: Result<(), BenchmarkError>)
    ensures
        match r {
            Ok(_) => case_fault(*case) is None,
            Err(e) => match case_fault(*case) {
                Some(CaseFault::Envelope) => in_memory_validation(e),
                Some(CaseFault::Pair) => pair_error_of(e, case.scenario_id@),
                Some(CaseFault::Hash) => e matches BenchmarkError::HashMismatch { what, expected, found }
                    && what@ == case.scenario_id@ + " intervention manifest"@
                    && expected@ == json_digest(intervention_manifest_json(case.manifest))
                    && found@ == case.manifest_hash@,
                None => false,
            },
        },
{
    proof {
        reveal(case_fault);
    }
    let r = validate_envelope(&case.baseline);
    if r.is_err() {
        return r;
    }
    let r = validate_envelope(&case.intervention);
    if r.is_err() {
        return r;
    }
    if !str_eq(case.scenario_id.as_str(), case.baseline.scenario.scenario_id.as_str())
        || !str_eq(case.scenario_id.as_str(), case.intervention.scenario.scenario_id.as_str())
    {
        return case_pair_fail(case, "case scenario ID does not match both envelopes");
    }
    if !str_eq(case.baseline.benchmark_id.as_str(), case.intervention.benchmark_id.as_str())
        || !str_eq(case.baseline.benchmark_id.as_str(), BENCHMARK_ID)
    {
        return case_pair_fail(case, "benchmark identity differs or is not the approved seed");
    }
    if !same_scenario(&case.baseline.scenario, &case.intervention.scenario) {
        return case_pair_fail(case, "task, environment, initial-state, seed, or provenance identity differs");
    }
    if case.baseline.trace.variant_role != VariantRole::Baseline {
        return case_pair_fail(case, "baseline trace does not have baseline role");
    }
    if !str_eq(case.baseline.trace.baseline_trace_id.as_str(), case.baseline.trace.trace_id.as_str())
        || !str_eq(case.intervention.trace.baseline_trace_id.as_str(), case.baseline.trace.trace_id.as_str())
    {
        return case_pair_fail(case, "baseline_trace_id does not bind both traces to the baseline");
    }
    if !same_manifest(&case.manifest, &case.baseline.evaluation_sidecar.intervention_manifest)
        || !same_manifest(&case.manifest, &case.intervention.evaluation_sidecar.intervention_manifest)
    {
        return case_pair_fail(case, "pair manifest differs between case and sidecars");
    }
    if !str_eq(case.manifest.baseline_trace_id.as_str(), case.baseline.trace.trace_id.as_str())
        || !str_eq(case.manifest.variant_trace_id.as_str(), case.intervention.trace.trace_id.as_str())
    {
        return case_pair_fail(case, "manifest trace IDs do not match the pair");
    }
    let expected = match manifest_hash(&case.manifest) {
        Ok(h) => h,
        Err(e) => return Err(e),
    };
    if !str_eq(case.manifest_hash.as_str(), expected.as_str()) {
        return Err(BenchmarkError::HashMismatch {
            what: concat2(case.scenario_id.as_str(), " intervention manifest"),
            expected,
            found: case.manifest_hash.clone(),
        });
    }
    let expected_role = match case.manifest.intervention_class {
        InterventionClass::NoChange => VariantRole::Control,
        _ => VariantRole::Variant,
    };
    if case.intervention.trace.variant_role != expected_role {
        return case_pair_fail(case, "intervention role does not match intervention class");
    }
    validate_pair_shape(
        case.scenario_id.as_str(),
        &case.baseline.trace.planner_input,
        &case.intervention.trace.planner_input,
        &case.manifest,
    )
}

/// The largest controlled envelope accepted as bytes.
pub const MAX_FILE_BYTES: usize = 16777216;

/// The size rule of envelope bytes: at most `MAX_FILE_BYTES`.
pub fn check_envelope_size(len: usize) -> (r: Result<(), BenchmarkError>)
    ensures
        checked(r, len <= MAX_FILE_BYTES),
{
    if len > MAX_FILE_BYTES {
        fail(owned("controlled envelope exceeds 16777216 bytes"))
    } else {
        Ok(())
    }
}

/// Admits a decoded envelope that passes validation.
pub fn admit_envelope(envelope: ControlledEnvelope) -> (r: Result<ControlledEnvelope, BenchmarkError>)
    ensures
        match r {
            Ok(e) => e == envelope && envelope_ok(envelope),
            Err(e) => !envelope_ok(envelope) && in_memory_validation(e),
        },
{
    match validate_envelope(&envelope) {
        Ok(_) => Ok(envelope),
        Err(e) => Err(e),
    }
}

/// Reports a JSON or validation error of envelope bytes at `path`; other
/// errors are left as they are.
pub fn error_at_path(error: BenchmarkError, path: String) -> (r: BenchmarkError)
    ensures
        match error {
            BenchmarkError::InvalidJson { message, .. } => r == (BenchmarkError::InvalidJson { path, message }),
            BenchmarkError::Validation { message, .. } => r == (BenchmarkError::Validation { path, message }),
            _ => r == error,
        },
{
    match error {
        BenchmarkError::InvalidJson { message, .. } => BenchmarkError::InvalidJson { path, message },
        BenchmarkError::Validation { message, .. } => BenchmarkError::Validation { path, message },
        other => other,
    }
}

} // verus!
