//! The shape rules of a baseline/intervention pair: an intervention may only
//! change what its manifest declares.
use vstd::prelude::*;
use crate::error::BenchmarkError;
use crate::loader::{
    action_id_exec, addresses, context_exec, has_event_id, has_event_id_exec,
    identities_distinct, result_id_exec,
};
use crate::model::{
    ActionIdentity, Event, EvidenceClass, InterventionClass, InterventionManifest, PlannerInput,
    Relation, RelationType, ResultIdentity, ResultStatus, SourceKind, SourceProvenance,
};
use crate::ordering::views;
use crate::text::{concat2, opt_view, str_eq};

verus! {

pub open spec fn provenance_view(p: SourceProvenance) -> (SourceKind, EvidenceClass, Option<Seq<char>>, Option<Seq<char>>, Option<Seq<char>>, Option<Seq<char>>) {
    (p.source_kind, p.classification, opt_view(p.source_locator), opt_view(p.source_revision), opt_view(p.content_hash), opt_view(p.note))
}

pub open spec fn provenance_list_view(ps: Seq<SourceProvenance>) -> Seq<(SourceKind, EvidenceClass, Option<Seq<char>>, Option<Seq<char>>, Option<Seq<char>>, Option<Seq<char>>)> {
    ps.map_values(|p: SourceProvenance| provenance_view(p))
}

pub open spec fn action_view(a: Option<ActionIdentity>) -> Option<(Seq<char>, Seq<char>, Option<Seq<char>>)> {
    match a {
        Some(x) => Some((x.action_id@, x.tool_name@, opt_view(x.argument_hash))),
        None => None,
    }
}

pub open spec fn result_view(r: Option<ResultIdentity>) -> Option<(Seq<char>, Seq<char>, Option<Seq<char>>, Option<ResultStatus>)> {
    match r {
        Some(x) => Some((x.result_id@, x.originating_action_id@, opt_view(x.observation_hash), x.status)),
        None => None,
    }
}

/// Identifiers outside the list `targets`.
pub open spec fn outside(targets: Seq<Seq<char>>) -> spec_fn(Seq<char>) -> bool {
    |s: Seq<char>| !targets.contains(s)
}

/// Two events agree in everything but their position, their order metadata
/// and the parent or reference links to `targets`.
pub open spec fn same_event_except(b: Event, c: Event, targets: Seq<Seq<char>>) -> bool {
    &&& b.event_id@ == c.event_id@
    &&& b.event_type == c.event_type
    &&& b.actor_role == c.actor_role
    &&& views(b.parent_event_ids@).filter(outside(targets)) == views(c.parent_event_ids@).filter(outside(targets))
    &&& views(b.reference_event_ids@).filter(outside(targets)) == views(c.reference_event_ids@).filter(outside(targets))
    &&& action_view(b.action) == action_view(c.action)
    &&& result_view(b.result) == result_view(c.result)
    &&& opt_view(b.context_block_id) == opt_view(c.context_block_id)
    &&& opt_view(b.world_state_revision) == opt_view(c.world_state_revision)
    &&& opt_view(b.content_hash) == opt_view(c.content_hash)
    &&& provenance_list_view(b.provenance@) == provenance_list_view(c.provenance@)
}

pub open spec fn relation_view(r: Relation) -> (Seq<char>, RelationType, Seq<char>, Seq<char>, Seq<char>, Option<Seq<char>>, Seq<(SourceKind, EvidenceClass, Option<Seq<char>>, Option<Seq<char>>, Option<Seq<char>>, Option<Seq<char>>)>) {
    (r.relation_id@, r.relation_type, r.from_id@, r.to_id@, r.scope@, opt_view(r.semantics_version), provenance_list_view(r.provenance@))
}

pub(crate) fn same_opt_str(a: &Option<String>, b: &Option<String>) -> (r: bool)
    ensures
        r == (opt_view(*a) == opt_view(*b)),
{
    match (a, b) {
        (Some(x), Some(y)) => str_eq(x.as_str(), y.as_str()),
        (None, None) => true,
        _ => false,
    }
}

fn same_provenance(a: &SourceProvenance, b: &SourceProvenance) -> (r: bool)
    ensures
        r == (provenance_view(*a) == provenance_view(*b)),
{
    a.source_kind == b.source_kind && a.classification == b.classification
        && same_opt_str(&a.source_locator, &b.source_locator)
        && same_opt_str(&a.source_revision, &b.source_revision)
        && same_opt_str(&a.content_hash, &b.content_hash)
        && same_opt_str(&a.note, &b.note)
}

pub(crate) fn same_provenance_list(a: &Vec<SourceProvenance>, b: &Vec<SourceProvenance>) -> (r: bool)
    ensures
        r == (provenance_list_view(a@) == provenance_list_view(b@)),
{
    if a.len() != b.len() {
        proof {
            assert(provenance_list_view(a@).len() != provenance_list_view(b@).len());
        }
        return false;
    }
    let mut i: usize = 0;
    while i < a.len()
        invariant
            i <= a.len() == b.len(),
            forall|j: int| 0 <= j < i ==> provenance_view(#[trigger] a@[j]) == provenance_view(b@[j]),
        decreases a.len() - i,
    {
        if !same_provenance(&a[i], &b[i]) {
            proof {
                assert(provenance_list_view(a@)[i as int] != provenance_list_view(b@)[i as int]);
            }
            return false;
        }
        i = i + 1;
    }
    proof {
        assert(provenance_list_view(a@) =~= provenance_list_view(b@));
    }
    true
}

fn same_action(a: &Option<ActionIdentity>, b: &Option<ActionIdentity>) -> (r: bool)
    ensures
        r == (action_view(*a) == action_view(*b)),
{
    match (a, b) {
        (Some(x), Some(y)) => str_eq(x.action_id.as_str(), y.action_id.as_str())
            && str_eq(x.tool_name.as_str(), y.tool_name.as_str())
            && same_opt_str(&x.argument_hash, &y.argument_hash),
        (None, None) => true,
        _ => false,
    }
}

fn same_status(a: Option<ResultStatus>, b: Option<ResultStatus>) -> (r: bool)
    ensures
        r == (a == b),
{
    match (a, b) {
        (Some(x), Some(y)) => x == y,
        (None, None) => true,
        _ => false,
    }
}

fn same_result(a: &Option<ResultIdentity>, b: &Option<ResultIdentity>) -> (r: bool)
    ensures
        r == (result_view(*a) == result_view(*b)),
{
    match (a, b) {
        (Some(x), Some(y)) => str_eq(x.result_id.as_str(), y.result_id.as_str())
            && str_eq(x.originating_action_id.as_str(), y.originating_action_id.as_str())
            && same_opt_str(&x.observation_hash, &y.observation_hash)
            && same_status(x.status, y.status),
        (None, None) => true,
        _ => false,
    }
}

pub(crate) fn same_relation(a: &Relation, b: &Relation) -> (r: bool)
    ensures
        r == (relation_view(*a) == relation_view(*b)),
{
    str_eq(a.relation_id.as_str(), b.relation_id.as_str())
        && a.relation_type == b.relation_type
        && str_eq(a.from_id.as_str(), b.from_id.as_str())
        && str_eq(a.to_id.as_str(), b.to_id.as_str())
        && str_eq(a.scope.as_str(), b.scope.as_str())
        && same_opt_str(&a.semantics_version, &b.semantics_version)
        && same_provenance_list(&a.provenance, &b.provenance)
}

/// Whether `id` is one of `list`.
pub(crate) fn contains_id(list: &Vec<String>, id: &str) -> (r: bool)
    ensures
        r == views(list@).contains(id@),
{
    let mut k: usize = 0;
    while k < list.len()
        invariant
            k <= list.len(),
            forall|j: int| 0 <= j < k ==> (#[trigger] list@[j])@ != id@,
        decreases list.len() - k,
    {
        if str_eq(list[k].as_str(), id) {
            proof {
                assert(views(list@)[k as int] == id@);
            }
            return true;
        }
        k = k + 1;
    }
    proof {
        if views(list@).contains(id@) {
            let j = choose|j: int| 0 <= j < views(list@).len() && views(list@)[j] == id@;
            assert(list@[j]@ == id@);
        }
    }
    false
}

/// Equality of two identifier lists.
pub(crate) fn same_ids(a: &Vec<String>, b: &Vec<String>) -> (r: bool)
    ensures
        r == (views(a@) == views(b@)),
{
    if a.len() != b.len() {
        proof {
            assert(views(a@).len() != views(b@).len());
        }
        return false;
    }
    let mut i: usize = 0;
    while i < a.len()
        invariant
            i <= a.len() == b.len(),
            forall|j: int| 0 <= j < i ==> (#[trigger] a@[j])@ == b@[j]@,
        decreases a.len() - i,
    {
        if !str_eq(a[i].as_str(), b[i].as_str()) {
            proof {
                assert(views(a@)[i as int] != views(b@)[i as int]);
            }
            return false;
        }
        i = i + 1;
    }
    proof {
        assert(views(a@) =~= views(b@));
    }
    true
}

/// The identifiers of `ids` that are not among `targets`, in their order.
pub(crate) fn without_targets(ids: &Vec<String>, targets: &Vec<String>) -> (r: Vec<String>)
    ensures
        views(r@) == views(ids@).filter(outside(views(targets@))),
{
    let mut r: Vec<String> = Vec::new();
    let mut i: usize = 0;
    proof {
        assert(views(ids@.take(0)) =~= Seq::<Seq<char>>::empty());
        reveal_with_fuel(Seq::filter, 1);
        assert(views(r@) =~= views(ids@.take(0)).filter(outside(views(targets@))));
    }
    while i < ids.len()
        invariant
            i <= ids.len(),
            views(r@) == views(ids@.take(i as int)).filter(outside(views(targets@))),
        decreases ids.len() - i,
    {
        let ghost old_r = r@;
        let keep = !contains_id(targets, ids[i].as_str());
        if keep {
            r.push(ids[i].clone());
        }
        proof {
            assert(views(ids@.take(i + 1)) =~= views(ids@.take(i as int)).push(ids@[i as int]@));
            views(ids@.take(i as int)).lemma_filter_push(ids@[i as int]@, outside(views(targets@)));
            if keep {
                assert(views(r@) =~= views(old_r).push(ids@[i as int]@));
            } else {
                assert(r@ == old_r);
            }
        }
        i = i + 1;
    }
    proof {
        assert(ids@.take(ids.len() as int) =~= ids@);
    }
    r
}

fn same_event_except_exec(b: &Event, c: &Event, targets: &Vec<String>) -> (r: bool)
    ensures
        r == same_event_except(*b, *c, views(targets@)),
{
    str_eq(b.event_id.as_str(), c.event_id.as_str())
        && b.event_type == c.event_type
        && b.actor_role == c.actor_role
        && same_ids(&without_targets(&b.parent_event_ids, targets), &without_targets(&c.parent_event_ids, targets))
        && same_ids(&without_targets(&b.reference_event_ids, targets), &without_targets(&c.reference_event_ids, targets))
        && same_action(&b.action, &c.action)
        && same_result(&b.result, &c.result)
        && same_opt_str(&b.context_block_id, &c.context_block_id)
        && same_opt_str(&b.world_state_revision, &c.world_state_revision)
        && same_opt_str(&b.content_hash, &c.content_hash)
        && same_provenance_list(&b.provenance, &c.provenance)
}

/// `s` is a target, or names a baseline target event, its context block,
/// its action or its result.
pub open spec fn alias_of(events: Seq<Event>, targets: Seq<Seq<char>>, s: Seq<char>) -> bool {
    ||| targets.contains(s)
    ||| exists|k: int| 0 <= k < events.len() && targets.contains((#[trigger] events[k]).event_id@) && addresses(events[k], s)
}

/// A relation that touches no alias of a target.
pub open spec fn kept_relation(events: Seq<Event>, targets: Seq<Seq<char>>) -> spec_fn(Relation) -> bool {
    |r: Relation| !alias_of(events, targets, r.from_id@) && !alias_of(events, targets, r.to_id@)
}

pub open spec fn relations_view(rs: Seq<Relation>) -> Seq<(Seq<char>, RelationType, Seq<char>, Seq<char>, Seq<char>, Option<Seq<char>>, Seq<(SourceKind, EvidenceClass, Option<Seq<char>>, Option<Seq<char>>, Option<Seq<char>>, Option<Seq<char>>)>)> {
    rs.map_values(|r: Relation| relation_view(r))
}

/// The relations that touch no alias of a target, in their order.
pub open spec fn scrubbed(rels: Seq<Relation>, events: Seq<Event>, targets: Seq<Seq<char>>) -> Seq<(Seq<char>, RelationType, Seq<char>, Seq<char>, Seq<char>, Option<Seq<char>>, Seq<(SourceKind, EvidenceClass, Option<Seq<char>>, Option<Seq<char>>, Option<Seq<char>>, Option<Seq<char>>)>)> {
    relations_view(rels.filter(kept_relation(events, targets)))
}

pub open spec fn select(rels: Seq<Relation>, idx: Seq<usize>) -> Seq<Relation> {
    idx.map_values(|k: usize| rels[k as int])
}

fn is_alias(events: &Vec<Event>, targets: &Vec<String>, s: &str) -> (r: bool)
    ensures
        r == alias_of(events@, views(targets@), s@),
{
    if contains_id(targets, s) {
        return true;
    }
    let mut k: usize = 0;
    while k < events.len()
        invariant
            k <= events.len(),
            !views(targets@).contains(s@),
            forall|j: int| 0 <= j < k ==> !(views(targets@).contains((#[trigger] events@[j]).event_id@) && addresses(events@[j], s@)),
        decreases events.len() - k,
    {
        let e = &events[k];
        if contains_id(targets, e.event_id.as_str()) {
            if str_eq(e.event_id.as_str(), s) || context_exec(e, s) || action_id_exec(e, s) || result_id_exec(e, s) {
                return true;
            }
        }
        k = k + 1;
    }
    false
}

fn kept_indices(rels: &Vec<Relation>, events: &Vec<Event>, targets: &Vec<String>) -> (idx: Vec<usize>)
    ensures
        select(rels@, idx@) == rels@.filter(kept_relation(events@, views(targets@))),
        forall|j: int| 0 <= j < idx.len() ==> idx@[j] < rels.len(),
{
    let ghost keep = kept_relation(events@, views(targets@));
    let mut idx: Vec<usize> = Vec::new();
    let mut i: usize = 0;
    proof {
        reveal_with_fuel(Seq::filter, 1);
        assert(select(rels@, idx@) =~= rels@.take(0).filter(keep));
    }
    while i < rels.len()
        invariant
            i <= rels.len(),
            keep == kept_relation(events@, views(targets@)),
            select(rels@, idx@) == rels@.take(i as int).filter(keep),
            forall|j: int| 0 <= j < idx.len() ==> idx@[j] < i,
        decreases rels.len() - i,
    {
        let ghost old_idx = idx@;
        let r = &rels[i];
        let kept = !is_alias(events, targets, r.from_id.as_str()) && !is_alias(events, targets, r.to_id.as_str());
        if kept {
            idx.push(i);
        }
        proof {
            assert(rels@.take(i + 1) =~= rels@.take(i as int).push(rels@[i as int]));
            rels@.take(i as int).lemma_filter_push(rels@[i as int], keep);
            assert(keep(rels@[i as int]) == kept);
            if kept {
                assert(select(rels@, idx@) =~= select(rels@, old_idx).push(rels@[i as int]));
            } else {
                assert(idx@ == old_idx);
            }
        }
        i = i + 1;
    }
    proof {
        assert(rels@.take(rels.len() as int) =~= rels@);
    }
    idx
}

fn same_selected(a: &Vec<Relation>, a_idx: &Vec<usize>, b: &Vec<Relation>, b_idx: &Vec<usize>) -> (r: bool)
    requires
        forall|j: int| 0 <= j < a_idx.len() ==> a_idx@[j] < a.len(),
        forall|j: int| 0 <= j < b_idx.len() ==> b_idx@[j] < b.len(),
    ensures
        r == (relations_view(select(a@, a_idx@)) == relations_view(select(b@, b_idx@))),
{
    if a_idx.len() != b_idx.len() {
        proof {
            assert(relations_view(select(a@, a_idx@)).len() != relations_view(select(b@, b_idx@)).len());
        }
        return false;
    }
    let mut j: usize = 0;
    while j < a_idx.len()
        invariant
            j <= a_idx.len() == b_idx.len(),
            forall|m: int| 0 <= m < a_idx.len() ==> a_idx@[m] < a.len(),
            forall|m: int| 0 <= m < b_idx.len() ==> b_idx@[m] < b.len(),
            forall|m: int| 0 <= m < j ==> relation_view(a@[(#[trigger] a_idx@[m]) as int]) == relation_view(b@[b_idx@[m] as int]),
        decreases a_idx.len() - j,
    {
        if !same_relation(&a[a_idx[j]], &b[b_idx[j]]) {
            proof {
                assert(relations_view(select(a@, a_idx@))[j as int] != relations_view(select(b@, b_idx@))[j as int]);
            }
            return false;
        }
        j = j + 1;
    }
    proof {
        assert(relations_view(select(a@, a_idx@)) =~= relations_view(select(b@, b_idx@)));
    }
    true
}

/// Relations agree once every relation touching a target is set aside.
fn same_scrubbed(b: &Vec<Relation>, i: &Vec<Relation>, events: &Vec<Event>, targets: &Vec<String>) -> (r: bool)
    ensures
        r == (scrubbed(b@, events@, views(targets@)) == scrubbed(i@, events@, views(targets@))),
{
    let b_idx = kept_indices(b, events, targets);
    let i_idx = kept_indices(i, events, targets);
    same_selected(b, &b_idx, i, &i_idx)
}

pub open spec fn event_ids(events: Seq<Event>) -> Seq<Seq<char>> {
    events.map_values(|e: Event| e.event_id@)
}

/// Every target leaves the baseline, and nothing else does.
pub open spec fn removal_ok(b: Seq<Event>, i: Seq<Event>, targets: Seq<Seq<char>>) -> bool {
    &&& forall|j: int| 0 <= j < targets.len() ==> has_event_id(b, #[trigger] targets[j]) && !has_event_id(i, targets[j])
    &&& b.len() == i.len() + targets.len()
}

/// Both event lists carry the same event identities.
pub open spec fn same_event_id_set(b: Seq<Event>, i: Seq<Event>) -> bool {
    &&& forall|k: int| 0 <= k < b.len() ==> has_event_id(i, (#[trigger] b[k]).event_id@)
    &&& forall|k: int| 0 <= k < i.len() ==> has_event_id(b, (#[trigger] i[k]).event_id@)
}

/// Every non-target baseline event reappears unchanged but for its position,
/// its order metadata and its links to targets.
pub open spec fn common_events_same(b: Seq<Event>, i: Seq<Event>, targets: Seq<Seq<char>>) -> bool {
    forall|x: int, y: int| #![trigger b[x], i[y]]
        0 <= x < b.len() && 0 <= y < i.len() && !targets.contains(b[x].event_id@) && i[y].event_id@ == b[x].event_id@
            ==> same_event_except(b[x], i[y], targets)
}

/// The event `id` is present, and sits at another sequence index in the
/// intervention than in the baseline.
pub open spec fn moved(b: Seq<Event>, i: Seq<Event>, id: Seq<char>) -> bool {
    &&& (has_event_id(b, id) || has_event_id(i, id))
    &&& forall|x: int, y: int| #![trigger b[x], i[y]]
        0 <= x < b.len() && 0 <= y < i.len() && b[x].event_id@ == id && i[y].event_id@ == id
            ==> b[x].sequence_index != i[y].sequence_index
}

/// The shape rules of a pair under its manifest.
pub open spec fn pair_shape_ok(b: PlannerInput, i: PlannerInput, m: InterventionManifest) -> bool {
    let targets = views(m.target_event_ids@);
    let class = m.intervention_class;
    &&& !(class is Compress)
    &&& (class is Remove ==> removal_ok(b.events@, i.events@, targets))
    &&& (!(class is Remove) ==> same_event_id_set(b.events@, i.events@))
    &&& event_ids(b.events@).filter(outside(targets)) == event_ids(i.events@).filter(outside(targets))
    &&& common_events_same(b.events@, i.events@, targets)
    &&& (!(class is Remove) ==> scrubbed(b.relations@, b.events@, targets) == scrubbed(i.relations@, b.events@, targets))
    &&& (class is NoChange ==> event_ids(b.events@) == event_ids(i.events@))
    &&& (class is Defer || class is Relocate ==> forall|j: int| 0 <= j < targets.len() ==> moved(b.events@, i.events@, #[trigger] targets[j]))
}

/// The pair validation error of a scenario, whatever its message.
pub open spec fn pair_error_of(e: BenchmarkError, scenario_id: Seq<char>) -> bool {
    match e {
        BenchmarkError::PairValidation { scenario_id: s, .. } => s@ == scenario_id,
        _ => false,
    }
}

fn pair_fail(scenario_id: &str, message: String) -> (r: Result<(), BenchmarkError>)
    ensures
        r matches Err(e) && pair_error_of(e, scenario_id@),
{
    Err(BenchmarkError::pair(scenario_id, message.as_str()))
}

/// The event IDs in their order.
fn event_order(events: &Vec<Event>) -> (r: Vec<String>)
    ensures
        views(r@) == event_ids(events@),
{
    let mut r: Vec<String> = Vec::new();
    let mut i: usize = 0;
    while i < events.len()
        invariant
            i <= events.len(),
            views(r@) == event_ids(events@.take(i as int)),
        decreases events.len() - i,
    {
        r.push(events[i].event_id.clone());
        proof {
            assert(event_ids(events@.take(i + 1)) =~= event_ids(events@.take(i as int)).push(events@[i as int].event_id@));
            assert(views(r@) =~= event_ids(events@.take(i + 1)));
        }
        i = i + 1;
    }
    proof {
        assert(events@.take(events.len() as int) =~= events@);
    }
    r
}

/// The position of the event `id`, if there is one.
fn find_event(events: &Vec<Event>, id: &str) -> (r: Option<usize>)
    ensures
        match r {
            Some(k) => k < events.len() && events@[k as int].event_id@ == id@,
            None => !has_event_id(events@, id@),
        },
{
    let mut k: usize = 0;
    while k < events.len()
        invariant
            k <= events.len(),
            forall|j: int| 0 <= j < k ==> (#[trigger] events@[j]).event_id@ != id@,
        decreases events.len() - k,
    {
        if str_eq(events[k].event_id.as_str(), id) {
            return Some(k);
        }
        k = k + 1;
    }
    None
}

/// The event IDs of `a` all occur in `b`.
fn ids_covered(a: &Vec<Event>, b: &Vec<Event>) -> (r: bool)
    ensures
        r == forall|k: int| 0 <= k < a.len() ==> has_event_id(b@, (#[trigger] a@[k]).event_id@),
{
    let mut k: usize = 0;
    while k < a.len()
        invariant
            k <= a.len(),
            forall|j: int| 0 <= j < k ==> has_event_id(b@, (#[trigger] a@[j]).event_id@),
        decreases a.len() - k,
    {
        if !has_event_id_exec(b, a[k].event_id.as_str()) {
            return false;
        }
        k = k + 1;
    }
    true
}

fn check_removal(b: &Vec<Event>, i: &Vec<Event>, targets: &Vec<String>) -> (r: bool)
    ensures
        r == removal_ok(b@, i@, views(targets@)),
{
    let mut j: usize = 0;
    while j < targets.len()
        invariant
            j <= targets.len(),
            forall|m: int| 0 <= m < j ==> has_event_id(b@, #[trigger] views(targets@)[m]) && !has_event_id(i@, views(targets@)[m]),
        decreases targets.len() - j,
    {
        let t = targets[j].as_str();
        if !has_event_id_exec(b, t) || has_event_id_exec(i, t) {
            proof {
                assert(views(targets@)[j as int] == targets@[j as int]@);
            }
            return false;
        }
        j = j + 1;
    }
    b.len() >= i.len() && b.len() - i.len() == targets.len()
}

/// Every non-target baseline event agrees with its intervention counterpart.
fn check_common_events(b: &Vec<Event>, i: &Vec<Event>, targets: &Vec<String>) -> (r: bool)
    requires
        identities_distinct(i@),
    ensures
        r == common_events_same(b@, i@, views(targets@)),
{
    let mut x: usize = 0;
    while x < b.len()
        invariant
            x <= b.len(),
            identities_distinct(i@),
            forall|x2: int, y: int| #![trigger b@[x2], i@[y]]
                0 <= x2 < x && 0 <= y < i.len() && !views(targets@).contains(b@[x2].event_id@) && i@[y].event_id@ == b@[x2].event_id@
                    ==> same_event_except(b@[x2], i@[y], views(targets@)),
        decreases b.len() - x,
    {
        let e = &b[x];
        if !contains_id(targets, e.event_id.as_str()) {
            match find_event(i, e.event_id.as_str()) {
                Some(y) => {
                    if !same_event_except_exec(e, &i[y], targets) {
                        return false;
                    }
                    proof {
                        assert forall|y2: int| 0 <= y2 < i.len() && (#[trigger] i@[y2]).event_id@ == b@[x as int].event_id@ implies y2 == y by {
                            if y2 < y {
                                assert(i@[y2].event_id@ != i@[y as int].event_id@);
                            } else if y2 > y {
                                assert(i@[y as int].event_id@ != i@[y2].event_id@);
                            }
                        }
                    }
                },
                None => {},
            }
        }
        x = x + 1;
    }
    true
}

fn check_moved(b: &Vec<Event>, i: &Vec<Event>, id: &str) -> (r: bool)
    requires
        identities_distinct(b@),
        identities_distinct(i@),
    ensures
        r == moved(b@, i@, id@),
{
    let fb = find_event(b, id);
    let fi = find_event(i, id);
    proof {
        assert forall|x: int| 0 <= x < b.len() && (#[trigger] b@[x]).event_id@ == id@ implies fb == Some(x as usize) by {
            let k = fb->0;
            if x < k {
                assert(b@[x].event_id@ != b@[k as int].event_id@);
            } else if x > k {
                assert(b@[k as int].event_id@ != b@[x].event_id@);
            }
        }
        assert forall|y: int| 0 <= y < i.len() && (#[trigger] i@[y]).event_id@ == id@ implies fi == Some(y as usize) by {
            let k = fi->0;
            if y < k {
                assert(i@[y].event_id@ != i@[k as int].event_id@);
            } else if y > k {
                assert(i@[k as int].event_id@ != i@[y].event_id@);
            }
        }
    }
    match (fb, fi) {
        (Some(x), Some(y)) => b[x].sequence_index != i[y].sequence_index,
        (None, None) => false,
        _ => true,
    }
}

/// Checks that the intervention changes only what the manifest declares.
pub(crate) fn validate_pair_shape(
    scenario_id: &str,
    baseline: &PlannerInput,
    intervention: &PlannerInput,
    manifest: &InterventionManifest,
) -> (r: Result<(), BenchmarkError>)
    requires
        identities_distinct(baseline.events@),
        identities_distinct(intervention.events@),
    ensures
        match r {
            Ok(_) => pair_shape_ok(*baseline, *intervention, *manifest),
            Err(e) => !pair_shape_ok(*baseline, *intervention, *manifest) && pair_error_of(e, scenario_id@),
        },
{
    let targets = &manifest.target_event_ids;
    let b = &baseline.events;
    let i = &intervention.events;
    match manifest.intervention_class {
        InterventionClass::Remove => {
            if !check_removal(b, i, targets) {
                return pair_fail(scenario_id, concat2("removal", " changed other event identities than declared"));
            }
        },
        InterventionClass::Compress => {
            return pair_fail(scenario_id, concat2("compression", " is not implemented in the approved seed"));
        },
        _ => {
            if !ids_covered(b, i) || !ids_covered(i, b) {
                return pair_fail(scenario_id, concat2("non-removal intervention", " changed event identities"));
            }
        },
    }
    let baseline_order = event_order(b);
    let intervention_order = event_order(i);
    if !same_ids(&without_targets(&baseline_order, targets), &without_targets(&intervention_order, targets)) {
        return pair_fail(scenario_id, concat2("relative order of non-target events", " changed"));
    }
    if !check_common_events(b, i, targets) {
        return pair_fail(scenario_id, concat2("undeclared mutation", " in a common event"));
    }
    if manifest.intervention_class != InterventionClass::Remove
        && !same_scrubbed(&baseline.relations, &intervention.relations, b, targets)
    {
        return pair_fail(scenario_id, concat2("undeclared relation", " mutation"));
    }
    if manifest.intervention_class == InterventionClass::NoChange && !same_ids(&baseline_order, &intervention_order) {
        return pair_fail(scenario_id, concat2("no-change control", " reordered events"));
    }
    if manifest.intervention_class == InterventionClass::Defer || manifest.intervention_class == InterventionClass::Relocate {
        let mut j: usize = 0;
        while j < targets.len()
            invariant
                j <= targets.len(),
                *targets == manifest.target_event_ids,
                manifest.intervention_class is Defer || manifest.intervention_class is Relocate,
                *b == baseline.events,
                *i == intervention.events,
                identities_distinct(b@),
                identities_distinct(i@),
                forall|m: int| 0 <= m < j ==> moved(b@, i@, #[trigger] views(targets@)[m]),
            decreases targets.len() - j,
        {
            if !check_moved(b, i, targets[j].as_str()) {
                proof {
                    assert(views(targets@)[j as int] == targets@[j as int]@);
                }
                return pair_fail(scenario_id, concat2(targets[j].as_str(), " did not move"));
            }
            j = j + 1;
        }
    }
    Ok(())
}

/// What a pair that passes the shape check under its manifest keeps: no
/// compression is admitted; a deferral, relocation or no-change control
/// keeps the same event identities and the same relations once those
/// touching a target alias are dropped; a deferred or relocated target
/// changes its position; a no-change control keeps the event order.
pub proof fn law_pair_shape_rules(b: PlannerInput, i: PlannerInput, m: InterventionManifest)
    requires
        pair_shape_ok(b, i, m),
    ensures
        !(m.intervention_class is Compress),
        !(m.intervention_class is Remove) ==> same_event_id_set(b.events@, i.events@)
            && scrubbed(b.relations@, b.events@, views(m.target_event_ids@))
                == scrubbed(i.relations@, b.events@, views(m.target_event_ids@)),
        (m.intervention_class is Defer || m.intervention_class is Relocate) ==> forall|j: int|
            0 <= j < m.target_event_ids.len() ==> moved(b.events@, i.events@, #[trigger] views(m.target_event_ids@)[j]),
        m.intervention_class is NoChange ==> event_ids(b.events@) == event_ids(i.events@),
{
}

} // verus!
