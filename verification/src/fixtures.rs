//! The self-authored, deterministic twelve-case seed.
use vstd::prelude::*;
use crate::canonical::relation_type_text;
use crate::error::BenchmarkError;
use crate::hashing::{hash_text, hex_lower, sha256_digest};
use crate::canonical::intervention_manifest_json;
use crate::loader::{case_fault, expected_role, json_digest, manifest_hash, manifest_view, scenario_view, validate_case};
use crate::model::{
    ActionIdentity, ActorRole, ControlledCase, ControlledEnvelope, EvaluationSidecar, Event,
    EventType, EvidenceClass, InterventionClass, InterventionManifest, OrderMetadata, PlannerInput,
    PlannerVisibility, QualityRiskCategory, Relation, RelationType, ResultIdentity, ResultStatus,
    ScenarioIdentity, SourceKind, SourceProvenance, TimestampOrigin, TraceEnvelope, VariantRole,
    BENCHMARK_ID, ENVIRONMENT_REVISION, RELATION_SEMANTICS_VERSION, SCHEMA_ID, SCHEMA_VERSION,
    TASK_REVISION,
};
use crate::json::{join, join_texts};
use crate::ordering::{sort_strings, sorted_texts, views};
use crate::pair_shape::{action_view, contains_id, outside, provenance_list_view, relation_view, result_view};
use crate::text::{concat2, concat3, decimal_string, opt_view, owned, str_eq};
use vstd::string::StringSliceAdditionalSpecFns;

verus! {

fn strings(items: Vec<&str>) -> (r: Vec<String>)
    ensures
        r.len() == items.len(),
        forall|i: int| 0 <= i < items.len() ==> (#[trigger] r@[i])@ == items@[i]@,
{
    let mut r: Vec<String> = Vec::new();
    let mut i: usize = 0;
    while i < items.len()
        invariant
            i <= items.len(),
            r.len() == i,
            forall|j: int| 0 <= j < i ==> (#[trigger] r@[j])@ == items@[j]@,
        decreases items.len() - i,
    {
        r.push(owned(items[i]));
        i = i + 1;
    }
    r
}

/// `h(s) = h(s without its last byte) * 33 + last byte`, modulo 2^32.
pub open spec fn scenario_seed(bytes: Seq<u8>) -> u32
    decreases bytes.len(),
{
    if bytes.len() == 0 {
        0
    } else {
        (((scenario_seed(bytes.drop_last()) as nat * 33) % 0x1_0000_0000 + bytes.last() as nat) % 0x1_0000_0000) as u32
    }
}

fn seed_of(text: &str) -> (r: u32)
    ensures
        r == scenario_seed(text.spec_bytes()),
{
    let b = text.as_bytes();
    let mut value: u32 = 0;
    let mut i: usize = 0;
    proof {
        assert(b@.take(0) =~= Seq::<u8>::empty());
    }
    while i < b.len()
        invariant
            i <= b.len(),
            value == scenario_seed(b@.take(i as int)),
        decreases b.len() - i,
    {
        value = value.wrapping_mul(33).wrapping_add(b[i] as u32);
        proof {
            assert(b@.take(i + 1).drop_last() =~= b@.take(i as int));
        }
        i = i + 1;
    }
    assert(b@.take(b.len() as int) =~= b@);
    value
}

/// The provenance of a self-authored seed item found at `locator`, whose
/// content hash is the hash of `hashed`.
fn self_authored(locator: String, hashed: &str) -> (r: SourceProvenance)
    ensures
        r.source_kind == SourceKind::SelfAuthored,
        r.classification == EvidenceClass::CapturedExplicit,
        opt_view(r.source_locator) == Some(locator@),
        opt_view(r.source_revision) == Some("self-authored-seed-v1"@),
        opt_view(r.content_hash) == Some(hex_lower(sha256_digest(hashed.spec_bytes()))),
        r.note is None,
{
    SourceProvenance {
        source_kind: SourceKind::SelfAuthored,
        classification: EvidenceClass::CapturedExplicit,
        source_locator: Some(locator),
        source_revision: Some(owned("self-authored-seed-v1")),
        content_hash: Some(hash_text(hashed)),
        note: None,
    }
}

/// The task and environment identity of the seed scenario `sid`.
pub open spec fn seed_scenario(s: ScenarioIdentity, sid: &str) -> bool {
    &&& s.scenario_id@ == sid@
    &&& s.scenario_version@ == "v1"@
    &&& s.task_revision@ == TASK_REVISION@
    &&& s.environment_revision@ == ENVIRONMENT_REVISION@
    &&& s.initial_state_id@ == sid@ + ":initial"@
    &&& s.fixed_seed == scenario_seed(sid.spec_bytes())
    &&& provenance_list_view(s.provenance@) == seq![(SourceKind::SelfAuthored, EvidenceClass::CapturedExplicit,
        Some("seed/"@ + sid@), Some("self-authored-seed-v1"@), Some(hex_lower(sha256_digest(sid.spec_bytes()))),
        None::<Seq<char>>)]
}

/// The task and environment identity of a seed scenario.
fn scenario_identity(scenario_id: &str) -> (r: ScenarioIdentity)
    ensures
        seed_scenario(r, scenario_id),
{
    let mut provenance: Vec<SourceProvenance> = Vec::new();
    provenance.push(self_authored(concat2("seed/", scenario_id), scenario_id));
    proof {
        assert(provenance_list_view(provenance@) =~= seq![crate::pair_shape::provenance_view(provenance@[0])]);
    }
    ScenarioIdentity {
        scenario_id: owned(scenario_id),
        scenario_version: owned("v1"),
        task_revision: owned(TASK_REVISION),
        environment_revision: owned(ENVIRONMENT_REVISION),
        initial_state_id: concat2(scenario_id, ":initial"),
        fixed_seed: seed_of(scenario_id),
        provenance,
    }
}

fn input(events: Vec<Event>, relations: Vec<Relation>) -> (r: PlannerInput)
    ensures
        r.events.len() == events.len(),
        r.relations == relations,
{
    let mut provenance: Vec<SourceProvenance> = Vec::new();
    provenance.push(self_authored(owned("self-authored/planner-input"), "self-authored/planner-input"));
    PlannerInput { events: renumber(&events), relations, provenance }
}

fn actor_role_of(event_type: EventType) -> (r: ActorRole)
    ensures
        event_type is Message ==> r is User,
        event_type is Action ==> r is Agent,
        event_type is Result || event_type is Observation ==> r is Tool,
        event_type is StateSnapshot ==> r is Environment,
        event_type is Assertion ==> r is Evaluator,
{
    match event_type {
        EventType::Message => ActorRole::User,
        EventType::Action => ActorRole::Agent,
        EventType::Result | EventType::Observation => ActorRole::Tool,
        EventType::StateSnapshot => ActorRole::Environment,
        EventType::Assertion => ActorRole::Evaluator,
    }
}

fn event(
    scenario: &str,
    event_id: String,
    sequence_index: u32,
    event_type: EventType,
    action_identity: Option<ActionIdentity>,
    result_identity: Option<ResultIdentity>,
    reference_event_ids: Vec<String>,
    context_block_id: Option<String>,
    content_label: Option<&str>,
) -> (r: Event)
    ensures
        r.event_id == event_id,
        r.sequence_index == sequence_index,
        r.event_type == event_type,
        r.action == action_identity,
        r.result == result_identity,
        r.reference_event_ids == reference_event_ids,
        r.context_block_id == context_block_id,
{
    let content_hash = match content_label {
        Some(label) => hash_text(label),
        None => hash_text(event_id.as_str()),
    };
    let mut provenance: Vec<SourceProvenance> = Vec::new();
    provenance.push(self_authored(concat3("seed/", scenario, concat2("/", event_id.as_str()).as_str()), event_id.as_str()));
    let mut revision = concat2(scenario, ":state-");
    revision.append(decimal_string(sequence_index as u64).as_str());
    Event {
        event_id,
        sequence_index,
        event_type,
        actor_role: actor_role_of(event_type),
        parent_event_ids: Vec::new(),
        reference_event_ids,
        action: action_identity,
        result: result_identity,
        context_block_id,
        world_state_revision: Some(revision),
        order: Some(OrderMetadata {
            logical_tick: Some(sequence_index),
            source_timestamp: None,
            timestamp_origin: Some(TimestampOrigin::DerivedStructural),
        }),
        content_hash: Some(content_hash),
        provenance,
    }
}

fn event_name(scenario: &str, suffix: &str) -> (r: String)
    ensures
        r@ == "evt-"@ + scenario@ + "-"@ + suffix@,
{
    let mut r = concat3("evt-", scenario, "-");
    r.append(suffix);
    r
}

fn message(scenario: &str, suffix: &str, context_id: &str, sequence_index: u32, content_label: &str) -> (r: Event)
    ensures
        r.event_type is Message,
        r.sequence_index == sequence_index,
{
    event(
        scenario,
        event_name(scenario, suffix),
        sequence_index,
        EventType::Message,
        None,
        None,
        Vec::new(),
        Some(owned(context_id)),
        Some(content_label),
    )
}

fn action(scenario: &str, suffix: &str, tool_name: &str, sequence_index: u32, references: Vec<String>) -> (r: Event)
    ensures
        r.event_type is Action,
        r.sequence_index == sequence_index,
{
    let mut argument_label = concat3("args:", scenario, ":");
    argument_label.append(suffix);
    event(
        scenario,
        event_name(scenario, suffix),
        sequence_index,
        EventType::Action,
        Some(ActionIdentity {
            action_id: owned(suffix),
            tool_name: owned(tool_name),
            argument_hash: Some(hash_text(argument_label.as_str())),
        }),
        None,
        references,
        None,
        None,
    )
}

fn result(scenario: &str, suffix: &str, originating_action_id: &str, sequence_index: u32) -> (r: Event)
    ensures
        r.event_type is Result,
        r.sequence_index == sequence_index,
{
    let mut observation_label = concat3("observation:", scenario, ":");
    observation_label.append(suffix);
    event(
        scenario,
        event_name(scenario, suffix),
        sequence_index,
        EventType::Result,
        None,
        Some(ResultIdentity {
            result_id: owned(suffix),
            originating_action_id: owned(originating_action_id),
            observation_hash: Some(hash_text(observation_label.as_str())),
            status: Some(ResultStatus::Success),
        }),
        Vec::new(),
        None,
        None,
    )
}

/// A scenario-local relation, named by scenario, type and endpoints.
fn relation(scenario: &str, relation_type: RelationType, from_id: &str, to_id: &str) -> (r: Relation)
    ensures
        r.relation_type == relation_type,
        r.from_id@ == from_id@,
        r.to_id@ == to_id@,
{
    let mut relation_id = concat3("rel-", scenario, "-");
    relation_id.append(relation_type_text(relation_type));
    relation_id.append("-");
    relation_id.append(from_id);
    relation_id.append("-");
    relation_id.append(to_id);
    let mut provenance: Vec<SourceProvenance> = Vec::new();
    provenance.push(self_authored(concat3("seed/", scenario, "/relation"), concat3(from_id, ":", to_id).as_str()));
    Relation {
        relation_id,
        relation_type,
        from_id: owned(from_id),
        to_id: owned(to_id),
        scope: owned("scenario_local"),
        semantics_version: Some(owned(RELATION_SEMANTICS_VERSION)),
        provenance,
    }
}

// ---------------------------------------------------------------------------
// Copies of fixture values, and what a copy keeps.

fn copy_opt_string(s: &Option<String>) -> (r: Option<String>)
    ensures
        opt_view(r) == opt_view(*s),
{
    match s {
        Some(x) => Some(x.clone()),
        None => None,
    }
}

fn copy_strings(v: &Vec<String>) -> (r: Vec<String>)
    ensures
        views(r@) == views(v@),
{
    let mut r: Vec<String> = Vec::new();
    let mut i: usize = 0;
    while i < v.len()
        invariant
            i <= v.len(),
            r.len() == i,
            forall|k: int| 0 <= k < i ==> (#[trigger] r@[k])@ == v@[k]@,
        decreases v.len() - i,
    {
        r.push(v[i].clone());
        i = i + 1;
    }
    proof {
        assert(views(r@) =~= views(v@));
    }
    r
}

fn copy_provenances(v: &Vec<SourceProvenance>) -> (r: Vec<SourceProvenance>)
    ensures
        provenance_list_view(r@) == provenance_list_view(v@),
{
    let mut r: Vec<SourceProvenance> = Vec::new();
    let mut i: usize = 0;
    while i < v.len()
        invariant
            i <= v.len(),
            r.len() == i,
            forall|k: int| 0 <= k < i ==> crate::pair_shape::provenance_view(#[trigger] r@[k])
                == crate::pair_shape::provenance_view(v@[k]),
        decreases v.len() - i,
    {
        let p = &v[i];
        r.push(SourceProvenance {
            source_kind: p.source_kind,
            classification: p.classification,
            source_locator: copy_opt_string(&p.source_locator),
            source_revision: copy_opt_string(&p.source_revision),
            content_hash: copy_opt_string(&p.content_hash),
            note: copy_opt_string(&p.note),
        });
        i = i + 1;
    }
    proof {
        assert(provenance_list_view(r@) =~= provenance_list_view(v@));
    }
    r
}

/// The order metadata of an event, by value.
pub open spec fn order_view(o: Option<OrderMetadata>) -> Option<(Option<u32>, Option<Seq<char>>, Option<TimestampOrigin>)> {
    match o {
        Some(m) => Some((m.logical_tick, opt_view(m.source_timestamp), m.timestamp_origin)),
        None => None,
    }
}

/// An event agrees with another in everything but its position, its
/// order metadata and its links.
pub open spec fn same_payload(a: Event, b: Event) -> bool {
    &&& a.event_id@ == b.event_id@
    &&& a.event_type == b.event_type
    &&& a.actor_role == b.actor_role
    &&& action_view(a.action) == action_view(b.action)
    &&& result_view(a.result) == result_view(b.result)
    &&& opt_view(a.context_block_id) == opt_view(b.context_block_id)
    &&& opt_view(a.world_state_revision) == opt_view(b.world_state_revision)
    &&& opt_view(a.content_hash) == opt_view(b.content_hash)
    &&& provenance_list_view(a.provenance@) == provenance_list_view(b.provenance@)
}

/// The sequence index of position `k`.
pub open spec fn tick(k: int) -> u32 {
    if k <= u32::MAX { k as u32 } else { u32::MAX }
}

/// Order metadata moved to position `k`: its logical tick is the position.
pub open spec fn retick(o: Option<OrderMetadata>, k: int) -> Option<(Option<u32>, Option<Seq<char>>, Option<TimestampOrigin>)> {
    match o {
        Some(m) => Some((Some(tick(k)), opt_view(m.source_timestamp), m.timestamp_origin)),
        None => None,
    }
}

/// `out` is the event `e`, with its links kept outside `targets`, placed at
/// position `k`.
pub open spec fn relinked(out: Event, e: Event, k: int, targets: Seq<Seq<char>>) -> bool {
    &&& same_payload(out, e)
    &&& views(out.parent_event_ids@) == views(e.parent_event_ids@).filter(outside(targets))
    &&& views(out.reference_event_ids@) == views(e.reference_event_ids@).filter(outside(targets))
    &&& out.sequence_index == tick(k)
    &&& order_view(out.order) == retick(e.order, k)
}

/// `out` is the event `e` placed at position `k`.
pub open spec fn renumbered(out: Event, e: Event, k: int) -> bool {
    &&& same_payload(out, e)
    &&& views(out.parent_event_ids@) == views(e.parent_event_ids@)
    &&& views(out.reference_event_ids@) == views(e.reference_event_ids@)
    &&& out.sequence_index == tick(k)
    &&& order_view(out.order) == retick(e.order, k)
}

fn copy_event_at(e: &Event, index: u32, parents: Vec<String>, references: Vec<String>) -> (r: Event)
    ensures
        same_payload(r, *e),
        r.parent_event_ids == parents,
        r.reference_event_ids == references,
        r.sequence_index == index,
        order_view(r.order) == retick(e.order, index as int),
{
    let order = match &e.order {
        Some(o) => Some(OrderMetadata {
            logical_tick: Some(index),
            source_timestamp: copy_opt_string(&o.source_timestamp),
            timestamp_origin: o.timestamp_origin,
        }),
        None => None,
    };
    let action = match &e.action {
        Some(a) => Some(ActionIdentity {
            action_id: a.action_id.clone(),
            tool_name: a.tool_name.clone(),
            argument_hash: copy_opt_string(&a.argument_hash),
        }),
        None => None,
    };
    let result = match &e.result {
        Some(x) => Some(ResultIdentity {
            result_id: x.result_id.clone(),
            originating_action_id: x.originating_action_id.clone(),
            observation_hash: copy_opt_string(&x.observation_hash),
            status: x.status,
        }),
        None => None,
    };
    Event {
        event_id: e.event_id.clone(),
        sequence_index: index,
        event_type: e.event_type,
        actor_role: e.actor_role,
        parent_event_ids: parents,
        reference_event_ids: references,
        action,
        result,
        context_block_id: copy_opt_string(&e.context_block_id),
        world_state_revision: copy_opt_string(&e.world_state_revision),
        order,
        content_hash: copy_opt_string(&e.content_hash),
        provenance: copy_provenances(&e.provenance),
    }
}

/// The events with their positions as sequence indexes and logical ticks.
fn renumber(events: &Vec<Event>) -> (r: Vec<Event>)
    ensures
        r.len() == events.len(),
        forall|k: int| 0 <= k < r.len() ==> renumbered(#[trigger] r@[k], events@[k], k),
{
    let mut r: Vec<Event> = Vec::new();
    let mut i: usize = 0;
    while i < events.len()
        invariant
            i <= events.len(),
            r.len() == i,
            forall|k: int| 0 <= k < i ==> renumbered(#[trigger] r@[k], events@[k], k),
        decreases events.len() - i,
    {
        let index: u32 = if i <= 0xffff_ffff { i as u32 } else { 0xffff_ffff };
        let e = &events[i];
        let parents = copy_strings(&e.parent_event_ids);
        let references = copy_strings(&e.reference_event_ids);
        r.push(copy_event_at(e, index, parents, references));
        i = i + 1;
    }
    r
}

/// The events that `targets` does not name.
pub open spec fn kept_events(events: Seq<Event>, targets: Seq<Seq<char>>) -> Seq<Event> {
    events.filter(|e: Event| !targets.contains(e.event_id@))
}

/// An optional identifier, as a list of at most one.
pub open spec fn opt_list(s: Option<Seq<char>>) -> Seq<Seq<char>> {
    match s {
        Some(x) => seq![x],
        None => Seq::empty(),
    }
}

/// The identifiers that stand for a target event besides its own: its
/// context block, action and result.
pub open spec fn event_aliases(e: Event) -> Seq<Seq<char>> {
    opt_list(opt_view(e.context_block_id))
        + opt_list(match e.action { Some(a) => Some(a.action_id@), None => None })
        + opt_list(match e.result { Some(x) => Some(x.result_id@), None => None })
}

/// `targets`, followed by the aliases of the events before `n` that
/// `targets` names.
pub open spec fn target_aliases(events: Seq<Event>, targets: Seq<Seq<char>>, n: int) -> Seq<Seq<char>>
    decreases n,
{
    if n <= 0 {
        targets
    } else {
        target_aliases(events, targets, n - 1) + if targets.contains(events[n - 1].event_id@) {
            event_aliases(events[n - 1])
        } else {
            Seq::empty()
        }
    }
}

/// The relations that touch none of `aliases`.
pub open spec fn kept_relations(relations: Seq<Relation>, aliases: Seq<Seq<char>>) -> Seq<Relation> {
    relations.filter(|r: Relation| !aliases.contains(r.from_id@) && !aliases.contains(r.to_id@))
}

fn push_opt_id(aliases: &mut Vec<String>, id: &Option<String>)
    ensures
        views(final(aliases)@) == views(old(aliases)@) + opt_list(opt_view(*id)),
{
    match id {
        Some(x) => {
            aliases.push(x.clone());
            proof {
                assert(views(aliases@) =~= views(old(aliases)@) + opt_list(opt_view(*id)));
            }
        },
        None => {
            proof {
                assert(views(aliases@) =~= views(old(aliases)@) + opt_list(opt_view(*id)));
            }
        },
    }
}

/// The aliases of the events that `targets` names.
#[verifier::spinoff_prover]
fn alias_list(events: &Vec<Event>, targets: &Vec<String>) -> (r: Vec<String>)
    ensures
        views(r@) == target_aliases(events@, views(targets@), events.len() as int),
{
    let mut aliases = copy_strings(targets);
    let mut i: usize = 0;
    while i < events.len()
        invariant
            i <= events.len(),
            views(aliases@) == target_aliases(events@, views(targets@), i as int),
        decreases events.len() - i,
    {
        let e = &events[i];
        let ghost before = views(aliases@);
        if contains_id(targets, e.event_id.as_str()) {
            push_opt_id(&mut aliases, &e.context_block_id);
            let action_id = match &e.action {
                Some(a) => Some(a.action_id.clone()),
                None => None,
            };
            push_opt_id(&mut aliases, &action_id);
            let result_id = match &e.result {
                Some(x) => Some(x.result_id.clone()),
                None => None,
            };
            push_opt_id(&mut aliases, &result_id);
            proof {
                assert(opt_view(action_id) == (match e.action { Some(a) => Some(a.action_id@), None => None }));
                assert(opt_view(result_id) == (match e.result { Some(x) => Some(x.result_id@), None => None }));
                assert(views(aliases@) =~= before + event_aliases(events@[i as int]));
            }
        } else {
            proof {
                assert(before + Seq::<Seq<char>>::empty() =~= before);
            }
        }
        i = i + 1;
    }
    aliases
}

/// The input without the target events, without links to them, and without
/// relations touching a target, its context block, action or result.
#[verifier::spinoff_prover]
fn remove_events(input: &PlannerInput, targets: &Vec<String>) -> (r: PlannerInput)
    ensures
        r.events.len() == kept_events(input.events@, views(targets@)).len(),
        forall|k: int| 0 <= k < r.events.len() ==> relinked(#[trigger] r.events@[k],
            kept_events(input.events@, views(targets@))[k], k, views(targets@)),
        relation_views(r.relations@) == relation_views(kept_relations(input.relations@,
            target_aliases(input.events@, views(targets@), input.events.len() as int))),
        provenance_list_view(r.provenance@) == provenance_list_view(input.provenance@),
{
    let ghost t = views(targets@);
    let ghost evs = input.events@;
    let aliases = alias_list(&input.events, targets);
    let ghost al = views(aliases@);
    let mut kept: Vec<Event> = Vec::new();
    let mut i: usize = 0;
    proof {
        assert(evs.take(0) =~= Seq::<Event>::empty());
        assert(kept_events(evs.take(0), t) =~= Seq::<Event>::empty());
    }
    while i < input.events.len()
        invariant
            t == views(targets@),
            evs == input.events@,
            i <= input.events.len(),
            kept.len() == kept_events(evs.take(i as int), t).len(),
            forall|k: int| 0 <= k < kept.len() ==> relinked(#[trigger] kept@[k], kept_events(evs.take(i as int), t)[k], k, t),
        decreases input.events.len() - i,
    {
        let e = &input.events[i];
        let ghost prev = kept_events(evs.take(i as int), t);
        proof {
            assert(evs.take(i + 1).drop_last() =~= evs.take(i as int));
            reveal(Seq::filter);
            assert(kept_events(evs.take(i + 1), t) == if !t.contains(e.event_id@) {
                prev.push(*e)
            } else {
                prev
            });
        }
        if !contains_id(targets, e.event_id.as_str()) {
            let index: u32 = if kept.len() <= 0xffff_ffff { kept.len() as u32 } else { 0xffff_ffff };
            let parents = crate::pair_shape::without_targets(&e.parent_event_ids, targets);
            let references = crate::pair_shape::without_targets(&e.reference_event_ids, targets);
            kept.push(copy_event_at(e, index, parents, references));
        }
        i = i + 1;
    }
    proof {
        assert(evs.take(evs.len() as int) =~= evs);
    }
    let ghost rels = input.relations@;
    let mut relations: Vec<Relation> = Vec::new();
    let mut i: usize = 0;
    proof {
        assert(rels.take(0) =~= Seq::<Relation>::empty());
        assert(kept_relations(rels.take(0), al) =~= Seq::<Relation>::empty());
        assert(relation_views(relations@) =~= relation_views(kept_relations(rels.take(0), al)));
    }
    while i < input.relations.len()
        invariant
            rels == input.relations@,
            al == views(aliases@),
            i <= input.relations.len(),
            relation_views(relations@) == relation_views(kept_relations(rels.take(i as int), al)),
        decreases input.relations.len() - i,
    {
        let rel = &input.relations[i];
        let ghost prev = kept_relations(rels.take(i as int), al);
        proof {
            assert(rels.take(i + 1).drop_last() =~= rels.take(i as int));
            reveal(Seq::filter);
            assert(kept_relations(rels.take(i + 1), al) == if !al.contains(rel.from_id@) && !al.contains(rel.to_id@) {
                prev.push(*rel)
            } else {
                prev
            });
        }
        if !contains_id(&aliases, rel.from_id.as_str()) && !contains_id(&aliases, rel.to_id.as_str()) {
            let c = copy_relation(rel);
            let ghost before = relations@;
            relations.push(c);
            proof {
                assert(relation_views(relations@) =~= relation_views(before).push(relation_view(*rel)));
                assert(relation_views(prev.push(*rel)) =~= relation_views(prev).push(relation_view(*rel)));
            }
        }
        i = i + 1;
    }
    proof {
        assert(rels.take(rels.len() as int) =~= rels);
    }
    PlannerInput { events: kept, relations, provenance: copy_provenances(&input.provenance) }
}

/// The first position of an event named `id`, if there is one.
pub open spec fn first_position(events: Seq<Event>, id: Seq<char>) -> Option<int> {
    if exists|k: int| 0 <= k < events.len() && events[k].event_id@ == id {
        Some(choose|k: int| 0 <= k < events.len() && events[k].event_id@ == id
            && forall|j: int| 0 <= j < k ==> events[j].event_id@ != id)
    } else {
        None
    }
}

proof fn lemma_least_position(events: Seq<Event>, id: Seq<char>, k: int)
    requires
        0 <= k < events.len(),
        events[k].event_id@ == id,
    ensures
        exists|w: int| 0 <= w < events.len() && events[w].event_id@ == id
            && forall|j: int| 0 <= j < w ==> events[j].event_id@ != id,
    decreases k,
{
    if exists|j: int| 0 <= j < k && events[j].event_id@ == id {
        let j = choose|j: int| 0 <= j < k && events[j].event_id@ == id;
        lemma_least_position(events, id, j);
    }
}

/// What `first_position` is: the least position of an event named `id`.
proof fn lemma_first_position(events: Seq<Event>, id: Seq<char>)
    ensures
        match first_position(events, id) {
            Some(k) => 0 <= k < events.len() && events[k].event_id@ == id
                && forall|j: int| 0 <= j < k ==> events[j].event_id@ != id,
            None => forall|k: int| 0 <= k < events.len() ==> events[k].event_id@ != id,
        },
{
    if exists|k: int| 0 <= k < events.len() && events[k].event_id@ == id {
        let k = choose|k: int| 0 <= k < events.len() && events[k].event_id@ == id;
        lemma_least_position(events, id, k);
    }
}

/// The position of the first event named `id`.
fn position(events: &Vec<Event>, id: &str) -> (r: Option<usize>)
    ensures
        index_view(r) == first_position(events@, id@),
{
    let mut k: usize = 0;
    while k < events.len()
        invariant
            k <= events.len(),
            forall|j: int| 0 <= j < k ==> events@[j].event_id@ != id@,
        decreases events.len() - k,
    {
        if str_eq(events[k].event_id.as_str(), id) {
            proof {
                let w = choose|w: int| 0 <= w < events.len() && events@[w].event_id@ == id@
                    && forall|j: int| 0 <= j < w ==> events@[j].event_id@ != id@;
                if w < k {
                    assert(events@[w].event_id@ != id@);
                } else if w > k {
                    assert(events@[k as int].event_id@ != id@);
                }
            }
            return Some(k);
        }
        k = k + 1;
    }
    None
}

/// An index, as an integer.
pub open spec fn index_view(i: Option<usize>) -> Option<int> {
    match i {
        Some(x) => Some(x as int),
        None => None,
    }
}

/// The events with the first event named `target` moved to just before
/// (or, with `after`, just after) the first other event named `anchor`;
/// `None` where either is missing.
pub open spec fn relocated(events: Seq<Event>, target: Seq<char>, anchor: Seq<char>, after: bool) -> Option<Seq<Event>> {
    match first_position(events, target) {
        None => None,
        Some(t) => {
            let rest = events.remove(t);
            match first_position(rest, anchor) {
                None => None,
                Some(a) => Some(rest.insert(if after { a + 1 } else { a }, events[t])),
            }
        },
    }
}

/// The relations of a list, by value.
pub open spec fn relation_views(rs: Seq<Relation>) -> Seq<(Seq<char>, RelationType, Seq<char>, Seq<char>, Seq<char>, Option<Seq<char>>, Seq<(SourceKind, EvidenceClass, Option<Seq<char>>, Option<Seq<char>>, Option<Seq<char>>, Option<Seq<char>>)>)> {
    rs.map_values(|r: Relation| relation_view(r))
}

/// `p` is `input` with the events `moved`, renumbered.
pub open spec fn rearranged(p: PlannerInput, input: PlannerInput, moved: Seq<Event>) -> bool {
    &&& p.events.len() == moved.len()
    &&& forall|k: int| 0 <= k < moved.len() ==> renumbered(#[trigger] p.events@[k], moved[k], k)
    &&& relation_views(p.relations@) == relation_views(input.relations@)
    &&& provenance_list_view(p.provenance@) == provenance_list_view(input.provenance@)
}

fn copy_relation(r: &Relation) -> (c: Relation)
    ensures
        relation_view(c) == relation_view(*r),
{
    Relation {
        relation_id: r.relation_id.clone(),
        relation_type: r.relation_type,
        from_id: r.from_id.clone(),
        to_id: r.to_id.clone(),
        scope: r.scope.clone(),
        semantics_version: copy_opt_string(&r.semantics_version),
        provenance: copy_provenances(&r.provenance),
    }
}

fn copy_relations(v: &Vec<Relation>) -> (r: Vec<Relation>)
    ensures
        relation_views(r@) == relation_views(v@),
{
    let mut r: Vec<Relation> = Vec::new();
    let mut i: usize = 0;
    while i < v.len()
        invariant
            i <= v.len(),
            r.len() == i,
            forall|k: int| 0 <= k < i ==> relation_view(#[trigger] r@[k]) == relation_view(v@[k]),
        decreases v.len() - i,
    {
        r.push(copy_relation(&v[i]));
        i = i + 1;
    }
    proof {
        assert(relation_views(r@) =~= relation_views(v@));
    }
    r
}

/// The position of the first event named `id` among the events other than
/// the one at `skip`.
fn position_except(events: &Vec<Event>, id: &str, skip: usize) -> (r: Option<usize>)
    requires
        skip < events.len(),
    ensures
        index_view(r) == first_position(events@.remove(skip as int), id@),
{
    let ghost rest = events@.remove(skip as int);
    let n = events.len() - 1;
    let mut k: usize = 0;
    while k < n
        invariant
            n == events.len() - 1,
            skip < events.len(),
            rest == events@.remove(skip as int),
            k <= n,
            forall|j: int| 0 <= j < k ==> rest[j].event_id@ != id@,
        decreases n - k,
    {
        let src = if k < skip { k } else { k + 1 };
        assert(rest[k as int] == events@[src as int]);
        if str_eq(events[src].event_id.as_str(), id) {
            proof {
                let w = choose|w: int| 0 <= w < rest.len() && rest[w].event_id@ == id@
                    && forall|j: int| 0 <= j < w ==> rest[j].event_id@ != id@;
                if w < k {
                    assert(rest[w].event_id@ != id@);
                } else if w > k {
                    assert(rest[k as int].event_id@ != id@);
                }
            }
            return Some(k);
        }
        k = k + 1;
    }
    None
}

/// Moves the event `target` to just before (or, with `after`, just after)
/// the event `anchor`, then renumbers; an error where either is missing.
#[verifier::spinoff_prover]
fn relocate(input: &PlannerInput, target: &str, anchor: &str, after: bool) -> (r: Result<PlannerInput, BenchmarkError>)
    ensures
        match relocated(input.events@, target@, anchor@, after) {
            Some(moved) => r matches Ok(p) && rearranged(p, *input, moved),
            None => r matches Err(e) && crate::error::in_memory_validation(e),
        },
{
    proof {
        lemma_first_position(input.events@, target@);
    }
    let t = match position(&input.events, target) {
        Some(k) => k,
        None => return Err(BenchmarkError::validation("fixture target does not exist")),
    };
    proof {
        lemma_first_position(input.events@.remove(t as int), anchor@);
        assert(input.events@.remove(t as int).len() == input.events.len() - 1);
    }
    let a = match position_except(&input.events, anchor, t) {
        Some(k) => k,
        None => return Err(BenchmarkError::validation("fixture insertion point does not exist")),
    };
    assert(a < input.events.len() - 1);
    let at = if after { a + 1 } else { a };
    let ghost rest = input.events@.remove(t as int);
    let ghost moved = rest.insert(at as int, input.events@[t as int]);
    let n = input.events.len();
    assert(moved.len() == n);
    let mut events: Vec<Event> = Vec::new();
    let mut k: usize = 0;
    while k < n
        invariant
            n == input.events.len(),
            t < n,
            at < n,
            rest == input.events@.remove(t as int),
            moved == rest.insert(at as int, input.events@[t as int]),
            moved.len() == n,
            k <= n,
            events.len() == k,
            forall|j: int| 0 <= j < k ==> renumbered(#[trigger] events@[j], moved[j], j),
        decreases n - k,
    {
        let src = if k < at {
            if k < t { k } else { k + 1 }
        } else if k == at {
            t
        } else if k - 1 < t {
            k - 1
        } else {
            k
        };
        assert(moved[k as int] == input.events@[src as int]);
        let index: u32 = if k <= 0xffff_ffff { k as u32 } else { 0xffff_ffff };
        let e = &input.events[src];
        let parents = copy_strings(&e.parent_event_ids);
        let references = copy_strings(&e.reference_event_ids);
        events.push(copy_event_at(e, index, parents, references));
        k = k + 1;
    }
    Ok(PlannerInput {
        events,
        relations: copy_relations(&input.relations),
        provenance: copy_provenances(&input.provenance),
    })
}

fn relocate_before(input: &PlannerInput, target: &str, before: &str) -> (r: Result<PlannerInput, BenchmarkError>)
    ensures
        match relocated(input.events@, target@, before@, false) {
            Some(moved) => r matches Ok(p) && rearranged(p, *input, moved),
            None => r matches Err(e) && crate::error::in_memory_validation(e),
        },
{
    relocate(input, target, before, false)
}

fn relocate_after(input: &PlannerInput, target: &str, after: &str) -> (r: Result<PlannerInput, BenchmarkError>)
    ensures
        match relocated(input.events@, target@, after@, true) {
            Some(moved) => r matches Ok(p) && rearranged(p, *input, moved),
            None => r matches Err(e) && crate::error::in_memory_validation(e),
        },
{
    relocate(input, target, after, true)
}

/// The envelope of one trace of the seed scenario `sid`.
pub open spec fn seed_envelope(
    e: ControlledEnvelope,
    sid: &str,
    trace_id: Seq<char>,
    role: VariantRole,
    planner_input: PlannerInput,
    manifest: InterventionManifest,
) -> bool {
    &&& e.schema_id@ == SCHEMA_ID@
    &&& e.schema_version == SCHEMA_VERSION
    &&& e.benchmark_id@ == BENCHMARK_ID@
    &&& seed_scenario(e.scenario, sid)
    &&& e.trace.trace_id@ == trace_id
    &&& e.trace.variant_role == role
    &&& e.trace.baseline_trace_id@ == sid@ + ":baseline"@
    &&& e.trace.planner_input == planner_input
    &&& e.evaluation_sidecar.intervention_manifest_ref@ == manifest.manifest_id@
    &&& manifest_view(e.evaluation_sidecar.intervention_manifest) == manifest_view(manifest)
    &&& views(e.evaluation_sidecar.quality_evaluation_ids@) == seq![sid@ + ":quality"@]
    &&& e.evaluation_sidecar.oracle_result is None
    &&& e.evaluation_sidecar.evaluation_content_hash is None
}

fn envelope(
    scenario: ScenarioIdentity,
    trace_id: String,
    variant_role: VariantRole,
    baseline_trace_id: String,
    planner_input: PlannerInput,
    manifest: InterventionManifest,
) -> (r: ControlledEnvelope)
    ensures
        r.schema_id@ == SCHEMA_ID@,
        r.schema_version == SCHEMA_VERSION,
        r.benchmark_id@ == BENCHMARK_ID@,
        r.scenario == scenario,
        r.trace.trace_id == trace_id,
        r.trace.variant_role == variant_role,
        r.trace.baseline_trace_id == baseline_trace_id,
        r.trace.planner_input == planner_input,
        r.evaluation_sidecar.intervention_manifest_ref@ == manifest.manifest_id@,
        r.evaluation_sidecar.intervention_manifest == manifest,
        views(r.evaluation_sidecar.quality_evaluation_ids@) == seq![scenario.scenario_id@ + ":quality"@],
        r.evaluation_sidecar.oracle_result is None,
        r.evaluation_sidecar.evaluation_content_hash is None,
{
    let quality_evaluation_id = concat2(scenario.scenario_id.as_str(), ":quality");
    let mut quality_evaluation_ids: Vec<String> = Vec::new();
    quality_evaluation_ids.push(quality_evaluation_id);
    proof {
        assert(views(quality_evaluation_ids@) =~= seq![scenario.scenario_id@ + ":quality"@]);
    }
    ControlledEnvelope {
        schema_id: owned(SCHEMA_ID),
        schema_version: SCHEMA_VERSION,
        benchmark_id: owned(BENCHMARK_ID),
        scenario,
        trace: TraceEnvelope { trace_id, variant_role, baseline_trace_id, planner_input },
        evaluation_sidecar: EvaluationSidecar {
            intervention_manifest_ref: manifest.manifest_id.clone(),
            intervention_manifest: manifest,
            quality_evaluation_ids,
            oracle_result: None,
            evaluation_content_hash: None,
        },
    }
}

fn copy_scenario(s: &ScenarioIdentity) -> (r: ScenarioIdentity)
    ensures
        scenario_view(r) == scenario_view(*s),
{
    ScenarioIdentity {
        scenario_id: s.scenario_id.clone(),
        scenario_version: s.scenario_version.clone(),
        task_revision: s.task_revision.clone(),
        environment_revision: s.environment_revision.clone(),
        initial_state_id: s.initial_state_id.clone(),
        fixed_seed: s.fixed_seed,
        provenance: copy_provenances(&s.provenance),
    }
}

fn copy_manifest(m: &InterventionManifest) -> (r: InterventionManifest)
    ensures
        manifest_view(r) == manifest_view(*m),
{
    InterventionManifest {
        manifest_id: m.manifest_id.clone(),
        baseline_trace_id: m.baseline_trace_id.clone(),
        variant_trace_id: m.variant_trace_id.clone(),
        target_event_ids: copy_strings(&m.target_event_ids),
        intervention_class: m.intervention_class,
        exact_transformation: m.exact_transformation.clone(),
        reason: m.reason.clone(),
        planner_visibility: m.planner_visibility,
        expected_structural_effect: m.expected_structural_effect.clone(),
        expected_quality_risk_category: m.expected_quality_risk_category,
    }
}

/// The suffix of the intervention trace of a case of `class`.
pub open spec fn intervention_suffix(class: InterventionClass) -> Seq<char> {
    if class is NoChange { ":control"@ } else { ":variant"@ }
}

/// The manifest of the seed scenario `sid`.
pub open spec fn seed_manifest(
    m: InterventionManifest,
    sid: &str,
    class: InterventionClass,
    targets: Seq<Seq<char>>,
    transformation: Seq<char>,
    effect: Seq<char>,
    risk: QualityRiskCategory,
) -> bool {
    manifest_view(m) == ((sid@ + ":manifest"@, sid@ + ":baseline"@, sid@ + intervention_suffix(class)), targets, class,
        (transformation, "bounded self-authored case "@ + sid@), PlannerVisibility::EvaluationOnly, effect, risk)
}

/// `c` is the case of the seed scenario `sid` built from the two planner
/// inputs and the manifest's terms, with the hash of its manifest.
pub open spec fn assembled_case(
    c: ControlledCase,
    sid: &str,
    baseline_input: PlannerInput,
    intervention_input: PlannerInput,
    class: InterventionClass,
    targets: Seq<Seq<char>>,
    transformation: Seq<char>,
    effect: Seq<char>,
    risk: QualityRiskCategory,
) -> bool {
    &&& c.scenario_id@ == sid@
    &&& seed_manifest(c.manifest, sid, class, targets, transformation, effect, risk)
    &&& seed_envelope(c.baseline, sid, sid@ + ":baseline"@, VariantRole::Baseline, baseline_input, c.manifest)
    &&& seed_envelope(c.intervention, sid, sid@ + intervention_suffix(class), expected_role(class), intervention_input, c.manifest)
    &&& c.manifest_hash@ == json_digest(intervention_manifest_json(c.manifest))
}

/// Assembles a pair for one scenario and checks it: the case is returned
/// when it passes the checks, an error when it does not.
#[verifier::spinoff_prover]
fn case_with(
    scenario_id: &str,
    baseline_input: PlannerInput,
    intervention_input: PlannerInput,
    intervention_class: InterventionClass,
    target_event_ids: Vec<String>,
    exact_transformation: &str,
    expected_structural_effect: &str,
    expected_quality_risk_category: QualityRiskCategory,
) -> (r: Result<ControlledCase, BenchmarkError>)
    ensures
        match r {
            Ok(c) => assembled_case(c, scenario_id, baseline_input, intervention_input, intervention_class,
                views(target_event_ids@), exact_transformation@, expected_structural_effect@,
                expected_quality_risk_category) && case_fault(c) is None,
            Err(_) => exists|c: ControlledCase| #![trigger assembled_case(c, scenario_id, baseline_input, intervention_input,
                intervention_class, views(target_event_ids@), exact_transformation@, expected_structural_effect@,
                expected_quality_risk_category)]
                assembled_case(c, scenario_id, baseline_input, intervention_input, intervention_class,
                    views(target_event_ids@), exact_transformation@, expected_structural_effect@,
                    expected_quality_risk_category) && case_fault(c) is Some,
        },
{
    let ghost targets = views(target_event_ids@);
    let baseline_trace_id = concat2(scenario_id, ":baseline");
    let intervention_is_control = intervention_class == InterventionClass::NoChange;
    let intervention_trace_id = if intervention_is_control {
        concat2(scenario_id, ":control")
    } else {
        concat2(scenario_id, ":variant")
    };
    let manifest = InterventionManifest {
        manifest_id: concat2(scenario_id, ":manifest"),
        baseline_trace_id: baseline_trace_id.clone(),
        variant_trace_id: intervention_trace_id.clone(),
        target_event_ids,
        intervention_class,
        exact_transformation: owned(exact_transformation),
        reason: concat2("bounded self-authored case ", scenario_id),
        planner_visibility: PlannerVisibility::EvaluationOnly,
        expected_structural_effect: owned(expected_structural_effect),
        expected_quality_risk_category,
    };
    let scenario = scenario_identity(scenario_id);
    let baseline = envelope(
        copy_scenario(&scenario),
        baseline_trace_id.clone(),
        VariantRole::Baseline,
        baseline_trace_id.clone(),
        baseline_input,
        copy_manifest(&manifest),
    );
    let intervention = envelope(
        scenario,
        intervention_trace_id,
        if intervention_is_control { VariantRole::Control } else { VariantRole::Variant },
        baseline_trace_id,
        intervention_input,
        copy_manifest(&manifest),
    );
    let hash = match manifest_hash(&manifest) {
        Ok(h) => h,
        Err(e) => return Err(e),
    };
    let case = ControlledCase { scenario_id: owned(scenario_id), baseline, intervention, manifest, manifest_hash: hash };
    assert(assembled_case(case, scenario_id, baseline_input, intervention_input, intervention_class, targets,
        exact_transformation@, expected_structural_effect@, expected_quality_risk_category));
    match validate_case(&case) {
        Ok(_) => Ok(case),
        Err(e) => Err(e),
    }
}

/// The scenario IDs of the seed, in order.
pub open spec fn seed_scenario_ids() -> Seq<Seq<char>> {
    seq![
        "S01_irrelevant_context_removal"@,
        "S02_load_bearing_removal_failure"@,
        "S03_explicit_supersession_deferral"@,
        "S04_action_result_needed_later"@,
        "S05_action_result_not_needed"@,
        "S06_dependency_chain_preservation"@,
        "S07_safe_context_relocation"@,
        "S08_protocol_breaking_relocation"@,
        "S09_repeated_context_removal"@,
        "S10_repeated_but_load_bearing"@,
        "S11_already_efficient_noop"@,
        "S12_ambiguous_evidence"@,
    ]
}

/// The intervention class of each seed scenario, in order.
pub open spec fn seed_classes() -> Seq<InterventionClass> {
    seq![
        InterventionClass::Remove,
        InterventionClass::Remove,
        InterventionClass::Defer,
        InterventionClass::Remove,
        InterventionClass::Remove,
        InterventionClass::Remove,
        InterventionClass::Relocate,
        InterventionClass::Relocate,
        InterventionClass::Remove,
        InterventionClass::Remove,
        InterventionClass::NoChange,
        InterventionClass::NoChange,
    ]
}

/// A valid case of scenario `sid` with an intervention of `class`: its
/// baseline trace is `sid:baseline`, its intervention trace `sid:control`
/// for a no-change control (in the control role) and `sid:variant`
/// otherwise (in the variant role).
pub open spec fn seed_case_shape(c: ControlledCase, sid: Seq<char>, class: InterventionClass) -> bool {
    &&& c.scenario_id@ == sid
    &&& case_fault(c) is None
    &&& c.manifest.intervention_class == class
    &&& c.baseline.trace.trace_id@ == sid + ":baseline"@
    &&& c.baseline.trace.variant_role == VariantRole::Baseline
    &&& c.intervention.trace.trace_id@ == sid + intervention_suffix(class)
    &&& c.intervention.trace.variant_role == expected_role(class)
}

fn s01_irrelevant_removal() -> (r: Result<ControlledCase, BenchmarkError>)
    ensures
        r matches Ok(c) ==> seed_case_shape(c, "S01_irrelevant_context_removal"@, InterventionClass::Remove),
{
    let mut events: Vec<Event> = Vec::new();
    events.push(message("S01", "irrelevant", "ctx_irrelevant", 0, "unrelated-reference"));
    events.push(action("S01", "update", "update_profile", 1, strings(vec![])));
    events.push(result("S01", "update-result", "update", 2));
    let mut relations: Vec<Relation> = Vec::new();
    relations.push(relation("S01", RelationType::Produces, "update", "update-result"));
    let baseline = input(events, relations);
    let intervention = remove_events(&baseline, &strings(vec!["evt-S01-irrelevant"]));
    case_with(
        "S01_irrelevant_context_removal",
        baseline,
        intervention,
        InterventionClass::Remove,
        strings(vec!["evt-S01-irrelevant"]),
        "Remove only the unrelated context event.",
        "No referenced event or state transition changes.",
        QualityRiskCategory::Low,
    )
}

fn s02_load_bearing_result() -> (r: Result<ControlledCase, BenchmarkError>)
    ensures
        r matches Ok(c) ==> seed_case_shape(c, "S02_load_bearing_removal_failure"@, InterventionClass::Remove),
{
    let mut events: Vec<Event> = Vec::new();
    events.push(action("S02", "inventory", "check_inventory", 0, strings(vec![])));
    events.push(result("S02", "inventory-result", "inventory", 1));
    events.push(action("S02", "checkout", "checkout", 2, strings(vec!["evt-S02-inventory-result"])));
    events.push(result("S02", "checkout-result", "checkout", 3));
    let mut relations: Vec<Relation> = Vec::new();
    relations.push(relation("S02", RelationType::Produces, "inventory", "inventory-result"));
    relations.push(relation("S02", RelationType::Produces, "checkout", "checkout-result"));
    relations.push(relation("S02", RelationType::References, "checkout", "inventory-result"));
    relations.push(relation("S02", RelationType::DependsOn, "checkout", "inventory-result"));
    let baseline = input(events, relations);
    let intervention = remove_events(&baseline, &strings(vec!["evt-S02-inventory-result"]));
    case_with(
        "S02_load_bearing_removal_failure",
        baseline,
        intervention,
        InterventionClass::Remove,
        strings(vec!["evt-S02-inventory-result"]),
        "Remove the inventory result from checkout context.",
        "Checkout loses its explicit inventory result input.",
        QualityRiskCategory::High,
    )
}

fn s03_supersession_defer() -> (r: Result<ControlledCase, BenchmarkError>)
    ensures
        r matches Ok(c) ==> seed_case_shape(c, "S03_explicit_supersession_deferral"@, InterventionClass::Defer),
{
    let mut events: Vec<Event> = Vec::new();
    events.push(message("S03", "policy-old", "ctx_policy_v1", 0, "policy-v1"));
    events.push(message("S03", "policy-new", "ctx_policy_v2", 1, "policy-v2"));
    events.push(action("S03", "apply-policy", "apply_policy", 2, strings(vec!["evt-S03-policy-new"])));
    events.push(result("S03", "policy-result", "apply-policy", 3));
    let mut relations: Vec<Relation> = Vec::new();
    relations.push(relation("S03", RelationType::Supersedes, "evt-S03-policy-new", "evt-S03-policy-old"));
    relations.push(relation("S03", RelationType::ProtocolPrecedes, "evt-S03-policy-new", "apply-policy"));
    let baseline = input(events, relations);
    let intervention = match relocate_before(&baseline, "evt-S03-policy-old", "evt-S03-policy-result") {
        Ok(p) => p,
        Err(e) => return Err(e),
    };
    case_with(
        "S03_explicit_supersession_deferral",
        baseline,
        intervention,
        InterventionClass::Defer,
        strings(vec!["evt-S03-policy-old"]),
        "Move explicitly superseded policy v1 behind the bounded action boundary.",
        "Current policy v2 remains before apply_policy.",
        QualityRiskCategory::LowIfBoundaryPreserved,
    )
}

fn s04_result_needed_later() -> (r: Result<ControlledCase, BenchmarkError>)
    ensures
        r matches Ok(c) ==> seed_case_shape(c, "S04_action_result_needed_later"@, InterventionClass::Remove),
{
    let mut events: Vec<Event> = Vec::new();
    events.push(action("S04", "create", "create_record", 0, strings(vec![])));
    events.push(result("S04", "created-result", "create", 1));
    events.push(action("S04", "update", "update_record", 2, strings(vec!["evt-S04-created-result"])));
    events.push(result("S04", "update-result", "update", 3));
    let mut relations: Vec<Relation> = Vec::new();
    relations.push(relation("S04", RelationType::Produces, "create", "created-result"));
    relations.push(relation("S04", RelationType::Produces, "update", "update-result"));
    relations.push(relation("S04", RelationType::References, "update", "created-result"));
    relations.push(relation("S04", RelationType::DependsOn, "update", "created-result"));
    let baseline = input(events, relations);
    let intervention = remove_events(&baseline, &strings(vec!["evt-S04-created-result"]));
    case_with(
        "S04_action_result_needed_later",
        baseline,
        intervention,
        InterventionClass::Remove,
        strings(vec!["evt-S04-created-result"]),
        "Remove the generated identifier result from the later update.",
        "The later action loses its explicit generated-identifier input.",
        QualityRiskCategory::High,
    )
}

fn s05_result_not_needed() -> (r: Result<ControlledCase, BenchmarkError>)
    ensures
        r matches Ok(c) ==> seed_case_shape(c, "S05_action_result_not_needed"@, InterventionClass::Remove),
{
    let mut events: Vec<Event> = Vec::new();
    events.push(action("S05", "audit", "write_audit", 0, strings(vec![])));
    events.push(result("S05", "audit-result", "audit", 1));
    events.push(action("S05", "update", "update_profile", 2, strings(vec![])));
    events.push(result("S05", "update-result", "update", 3));
    let mut relations: Vec<Relation> = Vec::new();
    relations.push(relation("S05", RelationType::Produces, "audit", "audit-result"));
    relations.push(relation("S05", RelationType::Produces, "update", "update-result"));
    let baseline = input(events, relations);
    let intervention = remove_events(&baseline, &strings(vec!["evt-S05-audit-result"]));
    case_with(
        "S05_action_result_not_needed",
        baseline,
        intervention,
        InterventionClass::Remove,
        strings(vec!["evt-S05-audit-result"]),
        "Remove an unreferenced audit result with no state effect.",
        "An unreferenced result is absent while task state is unchanged.",
        QualityRiskCategory::Low,
    )
}

fn s06_dependency_chain() -> (r: Result<ControlledCase, BenchmarkError>)
    ensures
        r matches Ok(c) ==> seed_case_shape(c, "S06_dependency_chain_preservation"@, InterventionClass::Remove),
{
    let mut events: Vec<Event> = Vec::new();
    events.push(action("S06", "create", "create_record", 0, strings(vec![])));
    events.push(result("S06", "create-result", "create", 1));
    events.push(action("S06", "authorize", "authorize_change", 2, strings(vec!["evt-S06-create-result"])));
    events.push(result("S06", "authorize-result", "authorize", 3));
    events.push(action("S06", "commit", "commit_change", 4, strings(vec!["evt-S06-authorize-result"])));
    events.push(result("S06", "commit-result", "commit", 5));
    let mut relations: Vec<Relation> = Vec::new();
    relations.push(relation("S06", RelationType::Produces, "create", "create-result"));
    relations.push(relation("S06", RelationType::Produces, "authorize", "authorize-result"));
    relations.push(relation("S06", RelationType::Produces, "commit", "commit-result"));
    relations.push(relation("S06", RelationType::References, "authorize", "create-result"));
    relations.push(relation("S06", RelationType::References, "commit", "authorize-result"));
    relations.push(relation("S06", RelationType::DependsOn, "authorize", "create-result"));
    relations.push(relation("S06", RelationType::DependsOn, "commit", "authorize-result"));
    relations.push(relation("S06", RelationType::ProtocolPrecedes, "authorize", "commit"));
    let baseline = input(events, relations);
    let intervention = remove_events(&baseline, &strings(vec!["evt-S06-authorize-result"]));
    case_with(
        "S06_dependency_chain_preservation",
        baseline,
        intervention,
        InterventionClass::Remove,
        strings(vec!["evt-S06-authorize-result"]),
        "Remove the middle authorization result from the commit chain.",
        "The explicit commit dependency chain is broken.",
        QualityRiskCategory::High,
    )
}

fn s07_safe_relocation() -> (r: Result<ControlledCase, BenchmarkError>)
    ensures
        r matches Ok(c) ==> seed_case_shape(c, "S07_safe_context_relocation"@, InterventionClass::Relocate),
{
    let mut events: Vec<Event> = Vec::new();
    events.push(message("S07", "reference", "ctx_reference", 0, "stable-reference"));
    events.push(message("S07", "other", "ctx_other", 1, "other-context"));
    events.push(action("S07", "execute", "execute_with_reference", 2, strings(vec!["evt-S07-reference"])));
    events.push(result("S07", "execute-result", "execute", 3));
    let mut relations: Vec<Relation> = Vec::new();
    relations.push(relation("S07", RelationType::ProtocolPrecedes, "evt-S07-reference", "execute"));
    relations.push(relation("S07", RelationType::SameStateRevision, "evt-S07-reference", "evt-S07-other"));
    let baseline = input(events, relations);
    let intervention = match relocate_before(&baseline, "evt-S07-reference", "evt-S07-execute") {
        Ok(p) => p,
        Err(e) => return Err(e),
    };
    case_with(
        "S07_safe_context_relocation",
        baseline,
        intervention,
        InterventionClass::Relocate,
        strings(vec!["evt-S07-reference"]),
        "Move the stable reference within the safe pre-action zone.",
        "Only the target position changes; protocol order and state revision hold.",
        QualityRiskCategory::LowIfOrderConstraintsHold,
    )
}

fn s08_protocol_relocation() -> (r: Result<ControlledCase, BenchmarkError>)
    ensures
        r matches Ok(c) ==> seed_case_shape(c, "S08_protocol_breaking_relocation"@, InterventionClass::Relocate),
{
    let mut events: Vec<Event> = Vec::new();
    events.push(message("S08", "handshake", "ctx_handshake", 0, "protocol-handshake"));
    events.push(action("S08", "execute", "execute_with_handshake", 1, strings(vec!["evt-S08-handshake"])));
    events.push(result("S08", "execute-result", "execute", 2));
    let mut relations: Vec<Relation> = Vec::new();
    relations.push(relation("S08", RelationType::ProtocolPrecedes, "evt-S08-handshake", "execute"));
    relations.push(relation("S08", RelationType::DependsOn, "execute", "evt-S08-handshake"));
    let baseline = input(events, relations);
    let intervention = match relocate_after(&baseline, "evt-S08-handshake", "evt-S08-execute") {
        Ok(p) => p,
        Err(e) => return Err(e),
    };
    case_with(
        "S08_protocol_breaking_relocation",
        baseline,
        intervention,
        InterventionClass::Relocate,
        strings(vec!["evt-S08-handshake"]),
        "Move the handshake after the action that requires it.",
        "The explicit protocol boundary is broken.",
        QualityRiskCategory::High,
    )
}

fn s09_exact_repeat() -> (r: Result<ControlledCase, BenchmarkError>)
    ensures
        r matches Ok(c) ==> seed_case_shape(c, "S09_repeated_context_removal"@, InterventionClass::Remove),
{
    let mut events: Vec<Event> = Vec::new();
    events.push(message("S09", "reference-1", "ctx_reference_1", 0, "immutable-repeat"));
    events.push(message("S09", "reference-2", "ctx_reference_2", 1, "immutable-repeat"));
    events.push(action("S09", "execute", "execute_with_reference", 2, strings(vec!["evt-S09-reference-1"])));
    events.push(result("S09", "execute-result", "execute", 3));
    let mut relations: Vec<Relation> = Vec::new();
    relations.push(relation("S09", RelationType::SameStateRevision, "evt-S09-reference-1", "evt-S09-reference-2"));
    let baseline = input(events, relations);
    let intervention = remove_events(&baseline, &strings(vec!["evt-S09-reference-2"]));
    case_with(
        "S09_repeated_context_removal",
        baseline,
        intervention,
        InterventionClass::Remove,
        strings(vec!["evt-S09-reference-2"]),
        "Remove the exact repeated immutable context block.",
        "The first reference remains and the state predicate is unchanged.",
        QualityRiskCategory::LowIfOrderConstraintsHold,
    )
}

fn s10_load_bearing_repeat() -> (r: Result<ControlledCase, BenchmarkError>)
    ensures
        r matches Ok(c) ==> seed_case_shape(c, "S10_repeated_but_load_bearing"@, InterventionClass::Remove),
{
    let mut events: Vec<Event> = Vec::new();
    events.push(message("S10", "repeat-1", "ctx_repeated_1", 0, "similar-instruction"));
    events.push(message("S10", "repeat-2", "ctx_repeated_2", 1, "similar-instruction"));
    events.push(action("S10", "execute", "execute_load_bearing_repeat", 2, strings(vec!["evt-S10-repeat-2"])));
    events.push(result("S10", "execute-result", "execute", 3));
    let mut relations: Vec<Relation> = Vec::new();
    relations.push(relation("S10", RelationType::References, "execute", "evt-S10-repeat-2"));
    let baseline = input(events, relations);
    let intervention = remove_events(&baseline, &strings(vec!["evt-S10-repeat-2"]));
    case_with(
        "S10_repeated_but_load_bearing",
        baseline,
        intervention,
        InterventionClass::Remove,
        strings(vec!["evt-S10-repeat-2"]),
        "Remove superficially repeated context that has a later explicit reference.",
        "The later operation loses its load-bearing reference.",
        QualityRiskCategory::High,
    )
}

fn s11_noop_control() -> (r: Result<ControlledCase, BenchmarkError>)
    ensures
        r matches Ok(c) ==> seed_case_shape(c, "S11_already_efficient_noop"@, InterventionClass::NoChange),
{
    let mut events: Vec<Event> = Vec::new();
    events.push(action("S11", "minimal", "minimal_task", 0, strings(vec![])));
    events.push(result("S11", "minimal-result", "minimal", 1));
    let mut relations: Vec<Relation> = Vec::new();
    relations.push(relation("S11", RelationType::Produces, "minimal", "minimal-result"));
    let baseline = input(events, relations);
    let intervention = baseline.clone();
    case_with(
        "S11_already_efficient_noop",
        baseline,
        intervention,
        InterventionClass::NoChange,
        strings(vec!["evt-S11-minimal"]),
        "No transformation; retain the already-efficient context.",
        "No structural change and no claimed savings.",
        QualityRiskCategory::NoRisk,
    )
}

fn s12_ambiguous_control() -> (r: Result<ControlledCase, BenchmarkError>)
    ensures
        r matches Ok(c) ==> seed_case_shape(c, "S12_ambiguous_evidence"@, InterventionClass::NoChange),
{
    let mut events: Vec<Event> = Vec::new();
    events.push(message("S12", "observation-1", "ctx_observation_1", 0, "ambiguous-repeat"));
    events.push(message("S12", "observation-2", "ctx_observation_2", 1, "ambiguous-repeat"));
    events.push(action("S12", "finish", "finish_ambiguous_task", 2, strings(vec![])));
    events.push(result("S12", "finish-result", "finish", 3));
    let mut relations: Vec<Relation> = Vec::new();
    relations.push(relation("S12", RelationType::Produces, "finish", "finish-result"));
    let baseline = input(events, relations);
    let intervention = baseline.clone();
    case_with(
        "S12_ambiguous_evidence",
        baseline,
        intervention,
        InterventionClass::NoChange,
        strings(vec!["evt-S12-observation-2"]),
        "No mutation is admitted while dependency/removability evidence is absent.",
        "No planner-visible change; ambiguity remains absent evidence.",
        QualityRiskCategory::Unknown,
    )
}

/// Builds the twelve self-authored cases and checks every one of them.
#[verifier::spinoff_prover]
#[verifier::rlimit(100)]
pub fn build_seed() -> (r: Result<Vec<ControlledCase>, BenchmarkError>)
    ensures
        r matches Ok(cases) ==> cases.len() == 12 && forall|k: int| 0 <= k < 12
            ==> seed_case_shape(#[trigger] cases@[k], seed_scenario_ids()[k], seed_classes()[k]),
{
    let mut cases: Vec<ControlledCase> = Vec::new();
    match s01_irrelevant_removal() {
        Ok(c) => cases.push(c),
        Err(e) => return Err(e),
    }
    assert(cases@.len() == 1 && seed_case_shape(cases@[0], seed_scenario_ids()[0], seed_classes()[0]));
    match s02_load_bearing_result() {
        Ok(c) => cases.push(c),
        Err(e) => return Err(e),
    }
    assert(cases@.len() == 2 && seed_case_shape(cases@[1], seed_scenario_ids()[1], seed_classes()[1]));
    match s03_supersession_defer() {
        Ok(c) => cases.push(c),
        Err(e) => return Err(e),
    }
    assert(cases@.len() == 3 && seed_case_shape(cases@[2], seed_scenario_ids()[2], seed_classes()[2]));
    match s04_result_needed_later() {
        Ok(c) => cases.push(c),
        Err(e) => return Err(e),
    }
    assert(cases@.len() == 4 && seed_case_shape(cases@[3], seed_scenario_ids()[3], seed_classes()[3]));
    match s05_result_not_needed() {
        Ok(c) => cases.push(c),
        Err(e) => return Err(e),
    }
    assert(cases@.len() == 5 && seed_case_shape(cases@[4], seed_scenario_ids()[4], seed_classes()[4]));
    match s06_dependency_chain() {
        Ok(c) => cases.push(c),
        Err(e) => return Err(e),
    }
    assert(cases@.len() == 6 && seed_case_shape(cases@[5], seed_scenario_ids()[5], seed_classes()[5]));
    match s07_safe_relocation() {
        Ok(c) => cases.push(c),
        Err(e) => return Err(e),
    }
    assert(cases@.len() == 7 && seed_case_shape(cases@[6], seed_scenario_ids()[6], seed_classes()[6]));
    match s08_protocol_relocation() {
        Ok(c) => cases.push(c),
        Err(e) => return Err(e),
    }
    assert(cases@.len() == 8 && seed_case_shape(cases@[7], seed_scenario_ids()[7], seed_classes()[7]));
    match s09_exact_repeat() {
        Ok(c) => cases.push(c),
        Err(e) => return Err(e),
    }
    assert(cases@.len() == 9 && seed_case_shape(cases@[8], seed_scenario_ids()[8], seed_classes()[8]));
    match s10_load_bearing_repeat() {
        Ok(c) => cases.push(c),
        Err(e) => return Err(e),
    }
    assert(cases@.len() == 10 && seed_case_shape(cases@[9], seed_scenario_ids()[9], seed_classes()[9]));
    match s11_noop_control() {
        Ok(c) => cases.push(c),
        Err(e) => return Err(e),
    }
    assert(cases@.len() == 11 && seed_case_shape(cases@[10], seed_scenario_ids()[10], seed_classes()[10]));
    match s12_ambiguous_control() {
        Ok(c) => cases.push(c),
        Err(e) => return Err(e),
    }
    assert(cases@.len() == 12 && seed_case_shape(cases@[11], seed_scenario_ids()[11], seed_classes()[11]));
    let ghost built = cases@;
    let mut i: usize = 0;
    while i < cases.len()
        invariant
            i <= cases.len(),
            cases@ == built,
        decreases cases.len() - i,
    {
        match validate_case(&cases[i]) {
            Ok(_) => {},
            Err(e) => return Err(e),
        }
        i = i + 1;
    }
    Ok(cases)
}

/// The hash of the seed's scenario IDs, sorted and joined by newlines.
pub fn seed_source_hash() -> (r: Result<String, BenchmarkError>)
    ensures
        r matches Ok(h) ==> exists|ids: Seq<Seq<char>>| #![trigger sorted_texts(ids)]
            sorted_texts(ids) && ids.to_multiset() == seed_scenario_ids().to_multiset()
                && h@ == json_digest(join(ids, seq!['\n'])) && h@.len() == 64,
{
    let cases = match build_seed() {
        Ok(c) => c,
        Err(e) => return Err(e),
    };
    let mut ids: Vec<String> = Vec::new();
    let mut i: usize = 0;
    while i < cases.len()
        invariant
            i <= cases.len() == 12,
            ids.len() == i,
            forall|k: int| 0 <= k < 12 ==> (#[trigger] cases@[k]).scenario_id@ == seed_scenario_ids()[k],
            forall|k: int| 0 <= k < i ==> (#[trigger] ids@[k])@ == seed_scenario_ids()[k],
        decreases cases.len() - i,
    {
        ids.push(cases[i].scenario_id.clone());
        i = i + 1;
    }
    assert(views(ids@) =~= seed_scenario_ids());
    let sorted = sort_strings(&ids);
    let joined = join_texts(&sorted, '\n');
    let h = hash_text(joined.as_str());
    assert(sorted_texts(views(sorted@)));
    Ok(h)
}

} // verus!
