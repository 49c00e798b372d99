//! Vocabulary and constraints of context layout planning.
use vstd::prelude::*;
use crate::context_stability::{
    ArtifactStability, BoundaryClassification, ContextRole, ContextSegmentAnalysis, ContextStabilityAnalysis,
    Observed, StabilityBoundary, StabilityFinding, StabilityFindingKind, TrustLevel,
};
use crate::diff::{CacheImpactAssessment, RequestDiff};
use crate::error::{checked, BenchmarkError};
use crate::materialization::{is_fingerprint, validate_fingerprint};
use crate::fields::{bounded_text, check_bounded_text};
use crate::ordering::{check_keys_sorted, keys_sorted, views};
use crate::text::{concat2, seq_lt, str_compare, str_eq};

verus! {

pub const CONTEXT_LAYOUT_PLAN_SCHEMA_ID: &'static str = "prefixity.context-layout-plan";
pub const CONTEXT_LAYOUT_PLAN_SCHEMA_VERSION: u32 = 1;
pub const MAX_LAYOUT_CANDIDATES: usize = 8;
pub const MAX_LAYOUT_REJECTIONS: usize = 32;
pub const MAX_LAYOUT_CONSTRAINTS: usize = 256;
pub const MAX_LAYOUT_PROVENANCE: usize = 16;
pub const MAX_LAYOUT_TEXT_BYTES: usize = 256;

#[derive(Debug, Clone, PartialEq, Eq)]
pub enum PreserveOrderReason {
    SemanticDependency,
    Chronology,
    SourceAuthority,
    ToolCallResult,
    Continuation,
    Other(String),
}

#[derive(Debug, Clone, PartialEq, Eq)]
pub enum OrderingConstraint {
    MustPrecede {
        before: String,
        after: String,
    },
    MustFollow {
        segment: String,
        after: String,
    },
    FixedPosition {
        segment: String,
        position: usize,
    },
    PreserveRelativeOrder {
        segments: Vec<String>,
        reason: PreserveOrderReason,
    },
    MovableWithinCompatibleRegion {
        segment: String,
        region: String,
    },
    Unknown {
        segment: String,
        reason: String,
    },
}

#[derive(Debug, Clone, PartialEq, Eq, Default)]
pub struct LayoutPlanningConstraints {
    pub constraints: Vec<OrderingConstraint>,
    pub provenance: Vec<(String, String)>,
}

#[derive(Debug, Clone, PartialEq, Eq)]
pub struct LayoutSegmentReference {
    pub source_position: usize,
    pub structural_path: String,
    pub component_id: Option<String>,
    pub role: ContextRole,
    pub content_fingerprint: String,
    /// Fingerprint of the complete metadata record when metadata was supplied.
    /// Layout identity intentionally excludes this value; materialization
    /// uses it to prove metadata conservation.
    pub metadata_fingerprint: Option<String>,
}

#[derive(Debug, Clone, Copy, PartialEq, Eq, Structural)]
pub enum LayoutTransformationKind {
    AdjacentSwap,
    RegionLocalMove,
}

#[derive(Debug, Clone, PartialEq, Eq)]
pub struct LayoutTransformation {
    pub kind: LayoutTransformationKind,
    pub moved_segments: Vec<String>,
    pub from_positions: Vec<usize>,
    pub to_positions: Vec<usize>,
}

#[derive(Debug, Clone, Copy, PartialEq, Eq, Structural)]
pub enum CandidateSafetyStatus {
    OrderingSafeUnderDeclaredConstraints,
    Rejected,
    UnknownNotProvable,
}

#[derive(Debug, Clone, Copy, PartialEq, Eq, Structural)]
pub enum PlanningReason {
    RemovesStabilityInversion,
    IncreasesStabilityAlignedLeadingRegion,
    PreservesDeclaredOrdering,
    TrustBoundaryPreserved,
    NoRuntimeEvidenceAttached,
}

#[derive(Debug, Clone, Copy, PartialEq, Eq, PartialOrd, Ord, Structural)]
pub enum RejectionReason {
    OrderingConstraint,
    SemanticDependency,
    TrustBoundary,
    UnknownMoveSafety,
    FixedSegment,
    WouldAlterChronology,
    NoStructuralBenefit,
    DuplicateCandidate,
    UnsupportedSegmentRegion,
    CandidateLimitReached,
}

#[derive(Debug, Clone, PartialEq, Eq)]
pub struct RejectedLayoutCandidate {
    pub attempted_layout_fingerprint: Option<String>,
    pub transformation: LayoutTransformation,
    pub status: CandidateSafetyStatus,
    pub reasons: Vec<RejectionReason>,
}

#[derive(Debug, Clone, PartialEq, Eq)]
pub struct LayoutStructuralMetrics {
    pub inversion_count: usize,
    pub stability_aligned_leading_segments: usize,
    pub unknown_boundary_count: usize,
}

#[derive(Debug, Clone, PartialEq, Eq)]
pub struct StructuralLayoutEffect {
    pub source: LayoutStructuralMetrics,
    pub candidate: LayoutStructuralMetrics,
    pub moved_segment_count: usize,
    pub changed_relative_relationships: usize,
}

/// A proposed reorder of the source segments, with its effect.
#[derive(Debug, Clone, PartialEq, Eq)]
pub struct LayoutCandidate {
    pub candidate_id: String,
    pub layout_fingerprint: String,
    pub ordered_segments: Vec<LayoutSegmentReference>,
    pub transformations: Vec<LayoutTransformation>,
    pub resulting_analysis: ContextStabilityAnalysis,
    pub safety: CandidateSafetyStatus,
    pub reasons: Vec<PlanningReason>,
    pub structural_effect: StructuralLayoutEffect,
    pub request_diff: RequestDiff,
}

/// The proposed and the rejected reorders of one request context.
/// `provenance` is a map, held as key/value pairs in key order.
#[derive(Debug, Clone, PartialEq, Eq)]
pub struct ContextLayoutPlan {
    pub schema_id: String,
    pub schema_version: u32,
    pub source_request_fingerprint: String,
    pub source_context_fingerprint: String,
    pub source_stability_analysis: ContextStabilityAnalysis,
    pub candidates: Vec<LayoutCandidate>,
    pub rejected_candidates: Vec<RejectedLayoutCandidate>,
    pub constraints: LayoutPlanningConstraints,
    pub provenance: Vec<(String, String)>,
}

/// A segment name or free text of layout planning: not blank and at most
/// `MAX_LAYOUT_TEXT_BYTES` bytes.
pub open spec fn layout_text(s: Seq<char>) -> bool {
    bounded_text(s, MAX_LAYOUT_TEXT_BYTES as int)
}

/// At most `MAX_LAYOUT_PROVENANCE` entries of layout texts, each key once
/// and in key order.
pub open spec fn layout_provenance_ok(p: Seq<(String, String)>) -> bool {
    &&& p.len() <= MAX_LAYOUT_PROVENANCE
    &&& forall|i: int| 0 <= i < p.len() ==> layout_text((#[trigger] p[i]).0@) && layout_text(p[i].1@)
    &&& keys_sorted(p)
}

pub open spec fn constraint_ok(c: OrderingConstraint) -> bool {
    match c {
        OrderingConstraint::MustPrecede { before, after } => layout_text(before@) && layout_text(after@),
        OrderingConstraint::MustFollow { segment, after } => layout_text(segment@) && layout_text(after@),
        OrderingConstraint::FixedPosition { segment, .. } => layout_text(segment@),
        OrderingConstraint::PreserveRelativeOrder { segments, .. } =>
            segments.len() >= 2 && forall|i: int| 0 <= i < segments.len() ==> layout_text((#[trigger] segments@[i])@),
        OrderingConstraint::MovableWithinCompatibleRegion { segment, region } => layout_text(segment@) && layout_text(region@),
        OrderingConstraint::Unknown { segment, reason } => layout_text(segment@) && layout_text(reason@),
    }
}

impl LayoutPlanningConstraints {
    pub open spec fn constraints_ok(self) -> bool {
        &&& self.constraints.len() <= MAX_LAYOUT_CONSTRAINTS
        &&& layout_provenance_ok(self.provenance@)
        &&& forall|i: int| 0 <= i < self.constraints.len() ==> constraint_ok(#[trigger] self.constraints@[i])
    }

    /// Checks the bounds and the texts of the declared constraints.
    pub fn validate(&self) -> (r: Result<(), BenchmarkError>)
        ensures
            checked(r, self.constraints_ok()),
    {
        if self.constraints.len() > MAX_LAYOUT_CONSTRAINTS {
            return Err(BenchmarkError::validation("layout planning constraints exceed their bound"));
        }
        let r = validate_layout_provenance(&self.provenance, "constraint");
        if r.is_err() {
            return r;
        }
        let mut i: usize = 0;
        while i < self.constraints.len()
            invariant
                i <= self.constraints.len(),
                forall|j: int| 0 <= j < i ==> constraint_ok(#[trigger] self.constraints@[j]),
            decreases self.constraints.len() - i,
        {
            let r = validate_constraint(&self.constraints[i]);
            if r.is_err() {
                return r;
            }
            i = i + 1;
        }
        Ok(())
    }
}

fn validate_layout_text(value: &str, field: &str) -> (r: Result<(), BenchmarkError>)
    ensures
        checked(r, layout_text(value@)),
{
    if check_bounded_text(value, MAX_LAYOUT_TEXT_BYTES) {
        Ok(())
    } else {
        Err(BenchmarkError::validation_owned(concat2(field, " must be non-empty and at most 256 bytes")))
    }
}

fn validate_layout_provenance(provenance: &Vec<(String, String)>, field: &str) -> (r: Result<(), BenchmarkError>)
    ensures
        checked(r, layout_provenance_ok(provenance@)),
{
    if provenance.len() > MAX_LAYOUT_PROVENANCE {
        return Err(BenchmarkError::validation_owned(concat2(field, " provenance exceeds its bound")));
    }
    let mut i: usize = 0;
    while i < provenance.len()
        invariant
            i <= provenance.len() <= MAX_LAYOUT_PROVENANCE,
            forall|j: int| 0 <= j < i ==> layout_text((#[trigger] provenance@[j]).0@) && layout_text(provenance@[j].1@),
        decreases provenance.len() - i,
    {
        let r = validate_layout_text(provenance[i].0.as_str(), "provenance key");
        if r.is_err() {
            return r;
        }
        let r = validate_layout_text(provenance[i].1.as_str(), "provenance value");
        if r.is_err() {
            return r;
        }
        i = i + 1;
    }
    if !check_keys_sorted(provenance) {
        return Err(BenchmarkError::validation_owned(concat2(field, " provenance keys must be unique and in key order")));
    }
    Ok(())
}

fn validate_segments(segments: &Vec<String>) -> (r: Result<(), BenchmarkError>)
    ensures
        checked(r, forall|i: int| 0 <= i < segments.len() ==> layout_text((#[trigger] segments@[i])@)),
{
    let mut i: usize = 0;
    while i < segments.len()
        invariant
            i <= segments.len(),
            forall|j: int| 0 <= j < i ==> layout_text((#[trigger] segments@[j])@),
        decreases segments.len() - i,
    {
        let r = validate_layout_text(segments[i].as_str(), "preserve_relative_order.segment");
        if r.is_err() {
            return r;
        }
        i = i + 1;
    }
    Ok(())
}

fn validate_constraint(c: &OrderingConstraint) -> (r: Result<(), BenchmarkError>)
    ensures
        checked(r, constraint_ok(*c)),
{
    match c {
        OrderingConstraint::MustPrecede { before, after } => {
            let r = validate_layout_text(before.as_str(), "must_precede.before");
            if r.is_err() {
                return r;
            }
            validate_layout_text(after.as_str(), "must_precede.after")
        },
        OrderingConstraint::MustFollow { segment, after } => {
            let r = validate_layout_text(segment.as_str(), "must_follow.segment");
            if r.is_err() {
                return r;
            }
            validate_layout_text(after.as_str(), "must_follow.after")
        },
        OrderingConstraint::FixedPosition { segment, .. } => validate_layout_text(segment.as_str(), "fixed_position.segment"),
        OrderingConstraint::PreserveRelativeOrder { segments, .. } => {
            if segments.len() < 2 {
                return Err(BenchmarkError::validation("preserve_relative_order requires at least two segments"));
            }
            validate_segments(segments)
        },
        OrderingConstraint::MovableWithinCompatibleRegion { segment, region } => {
            let r = validate_layout_text(segment.as_str(), "movable.segment");
            if r.is_err() {
                return r;
            }
            validate_layout_text(region.as_str(), "movable.region")
        },
        OrderingConstraint::Unknown { segment, reason } => {
            let r = validate_layout_text(segment.as_str(), "unknown.segment");
            if r.is_err() {
                return r;
            }
            validate_layout_text(reason.as_str(), "unknown.reason")
        },
    }
}

// ---------------------------------------------------------------------------
// Reading a proposed reorder of the analysed segments.
//
// An order lists, for each new position, the source position of the segment
// that goes there. Segments are named by their structural paths; a lookup of
// a name by position keeps the last position that bears it.

/// `order` lists every position below `n` exactly once.
pub open spec fn is_permutation(order: Seq<usize>, n: int) -> bool {
    &&& order.len() == n
    &&& forall|j: int| 0 <= j < n ==> (#[trigger] order[j]) < n
    &&& forall|i: int, j: int| 0 <= i < j < n ==> order[i] != order[j]
    &&& forall|p: int| 0 <= p < n ==> #[trigger] occurs(order, p)
}

/// Some entry of `order` is `p`.
pub open spec fn occurs(order: Seq<usize>, p: int) -> bool {
    exists|j: int| 0 <= j < order.len() && order[j] == p
}

/// An order of `n` distinct positions, each below `n`, lists every position
/// below `n`.
pub proof fn lemma_distinct_order_is_permutation(order: Seq<usize>, n: int)
    requires
        order.len() == n,
        forall|j: int| 0 <= j < n ==> (#[trigger] order[j]) < n,
        forall|i: int, j: int| 0 <= i < j < n ==> order[i] != order[j],
    ensures
        is_permutation(order, n),
{
    let ints = order.map_values(|x: usize| x as int);
    assert forall|i: int, j: int| 0 <= i < ints.len() && 0 <= j < ints.len() && i != j implies ints[i] != ints[j] by {
        if i < j {
            assert(order[i] != order[j]);
        } else {
            assert(order[j] != order[i]);
        }
    }
    assert(ints.no_duplicates());
    ints.unique_seq_to_set();
    let range = vstd::set_lib::set_int_range(0, n);
    vstd::set_lib::lemma_int_range(0, n);
    assert forall|x: int| ints.to_set().contains(x) implies range.contains(x) by {
        let j = choose|j: int| 0 <= j < ints.len() && ints[j] == x;
        assert(order[j] < n);
    }
    assert(ints.to_set().subset_of(range));
    vstd::seq_lib::seq_to_set_is_finite(ints);
    vstd::set_lib::lemma_subset_equality(ints.to_set(), range);
    assert forall|p: int| 0 <= p < n implies #[trigger] occurs(order, p) by {
        assert(range.contains(p));
        assert(ints.to_set().contains(p));
        let j = choose|j: int| 0 <= j < ints.len() && ints[j] == p;
        assert(order[j] == p);
    }
}

/// The names of the segments, by source position.
pub open spec fn source_names(segs: Seq<ContextSegmentAnalysis>) -> Seq<Seq<char>> {
    Seq::new(segs.len(), |p: int| segs[p].structural_path@)
}

/// The names of the segments in `order`, by new position.
pub open spec fn order_names(segs: Seq<ContextSegmentAnalysis>, order: Seq<usize>) -> Seq<Seq<char>> {
    Seq::new(order.len(), |j: int| segs[order[j] as int].structural_path@)
}

/// The last position in `names` that bears the name `x`.
pub open spec fn last_position(names: Seq<Seq<char>>, x: Seq<char>) -> Option<int>
    decreases names.len(),
{
    if names.len() == 0 {
        None
    } else if names.last() == x {
        Some(names.len() - 1)
    } else {
        last_position(names.drop_last(), x)
    }
}

/// The first position in `names` that bears the name `x`.
pub open spec fn first_position(names: Seq<Seq<char>>, x: Seq<char>) -> Option<int>
    decreases names.len(),
{
    if names.len() == 0 {
        None
    } else {
        match first_position(names.drop_last(), x) {
            Some(i) => Some(i),
            None => if names.last() == x { Some(names.len() - 1) } else { None },
        }
    }
}

/// The source position `p` is moved by `order`.
pub open spec fn moved(order: Seq<usize>, p: int) -> bool {
    0 <= p < order.len() && order[p] != p
}

pub open spec fn stability_rank_of(s: ArtifactStability) -> Option<int> {
    match s {
        ArtifactStability::Immutable => Some(0),
        ArtifactStability::Stable => Some(1),
        ArtifactStability::AppendOnly => Some(2),
        ArtifactStability::Volatile => Some(3),
        ArtifactStability::Unknown => None,
    }
}

pub open spec fn trust_rank_of(t: Observed<TrustLevel>) -> Option<int> {
    match t {
        Observed::Known(TrustLevel::Trusted) => Some(0),
        Observed::Known(TrustLevel::Mixed) => Some(1),
        Observed::Known(TrustLevel::Untrusted) => Some(2),
        _ => None,
    }
}

pub open spec fn rank_view(r: Option<u8>) -> Option<int> {
    match r {
        Some(x) => Some(x as int),
        None => None,
    }
}

pub open spec fn position_view(r: Option<usize>) -> Option<int> {
    match r {
        Some(x) => Some(x as int),
        None => None,
    }
}

pub(crate) proof fn lemma_last_position(names: Seq<Seq<char>>, x: Seq<char>)
    ensures
        match last_position(names, x) {
            Some(i) => 0 <= i < names.len() && names[i] == x
                && forall|k: int| i < k < names.len() ==> names[k] != x,
            None => forall|k: int| 0 <= k < names.len() ==> names[k] != x,
        },
    decreases names.len(),
{
    if names.len() > 0 {
        let d = names.drop_last();
        lemma_last_position(d, x);
        assert(forall|k: int| 0 <= k < d.len() ==> d[k] == names[k]);
    }
}

proof fn lemma_first_position(names: Seq<Seq<char>>, x: Seq<char>)
    ensures
        match first_position(names, x) {
            Some(i) => 0 <= i < names.len() && names[i] == x
                && forall|k: int| 0 <= k < i ==> names[k] != x,
            None => forall|k: int| 0 <= k < names.len() ==> names[k] != x,
        },
    decreases names.len(),
{
    if names.len() > 0 {
        let d = names.drop_last();
        lemma_first_position(d, x);
        assert(forall|k: int| 0 <= k < d.len() ==> d[k] == names[k]);
    }
}

pub(crate) fn stability_rank(stability: &ArtifactStability) -> (r: Option<u8>)
    ensures
        rank_view(r) == stability_rank_of(*stability),
{
    match stability {
        ArtifactStability::Immutable => Some(0),
        ArtifactStability::Stable => Some(1),
        ArtifactStability::AppendOnly => Some(2),
        ArtifactStability::Volatile => Some(3),
        ArtifactStability::Unknown => None,
    }
}

fn trust_rank(trust: &Observed<TrustLevel>) -> (r: Option<u8>)
    ensures
        rank_view(r) == trust_rank_of(*trust),
{
    match trust {
        Observed::Known(TrustLevel::Trusted) => Some(0),
        Observed::Known(TrustLevel::Mixed) => Some(1),
        Observed::Known(TrustLevel::Untrusted) => Some(2),
        Observed::Known(TrustLevel::Unknown) | Observed::Unknown | Observed::NotObserved => None,
    }
}

/// The segment at `position` exists and is a context artifact.
pub fn is_artifact_position(analysis: &ContextStabilityAnalysis, position: usize) -> (r: bool)
    ensures
        r == (position < analysis.segments.len()
            && analysis.segments@[position as int].role == ContextRole::ContextArtifact),
{
    position < analysis.segments.len() && analysis.segments[position].role == ContextRole::ContextArtifact
}

fn segment_name(segment: &ContextSegmentAnalysis) -> (r: String)
    ensures
        r@ == segment.structural_path@,
{
    segment.structural_path.clone()
}

/// The source positions that `order` moves, in increasing order.
pub fn changed_positions(order: &Vec<usize>) -> (r: Vec<usize>)
    ensures
        forall|k: int| 0 <= k < r.len() ==> moved(order@, #[trigger] r@[k] as int),
        forall|p: int| moved(order@, p) ==> r@.contains(p as usize),
        forall|i: int, j: int| 0 <= i < j < r.len() ==> r@[i] < r@[j],
{
    let mut r: Vec<usize> = Vec::new();
    let mut p: usize = 0;
    while p < order.len()
        invariant
            p <= order.len(),
            forall|k: int| 0 <= k < r.len() ==> moved(order@, #[trigger] r@[k] as int) && r@[k] < p,
            forall|q: int| 0 <= q < p && moved(order@, q) ==> r@.contains(q as usize),
            forall|i: int, j: int| 0 <= i < j < r.len() ==> r@[i] < r@[j],
        decreases order.len() - p,
    {
        let ghost old_r = r@;
        if order[p] != p {
            r.push(p);
            proof {
                assert(r@[r.len() - 1] == p);
                assert forall|q: int| 0 <= q < p && moved(order@, q) implies r@.contains(q as usize) by {
                    let k = choose|k: int| 0 <= k < old_r.len() && old_r[k] == q as usize;
                    assert(r@[k] == q as usize);
                }
            }
        }
        p = p + 1;
    }
    r
}

/// The names of the segments in `order`, by new position: the map from a
/// name to its position is read off it with `name_position`.
pub fn positions_by_name(analysis: &ContextStabilityAnalysis, order: &Vec<usize>) -> (r: Vec<String>)
    requires
        forall|j: int| 0 <= j < order.len() ==> (#[trigger] order@[j]) < analysis.segments.len(),
    ensures
        views(r@) == order_names(analysis.segments@, order@),
{
    let mut r: Vec<String> = Vec::new();
    let mut j: usize = 0;
    while j < order.len()
        invariant
            j <= order.len(),
            forall|k: int| 0 <= k < order.len() ==> (#[trigger] order@[k]) < analysis.segments.len(),
            r.len() == j,
            views(r@) == order_names(analysis.segments@, order@).take(j as int),
        decreases order.len() - j,
    {
        let ghost old_r = r@;
        let name = segment_name(&analysis.segments[order[j]]);
        r.push(name);
        proof {
            let want = order_names(analysis.segments@, order@).take(j + 1);
            assert forall|i: int| 0 <= i < j + 1 implies views(r@)[i] == want[i] by {
                if i < j {
                    assert(r@[i] == old_r[i]);
                    assert(views(old_r)[i] == order_names(analysis.segments@, order@).take(j as int)[i]);
                }
            }
            assert(views(r@) =~= want);
        }
        j = j + 1;
    }
    proof {
        assert(order_names(analysis.segments@, order@).take(order.len() as int)
            =~= order_names(analysis.segments@, order@));
    }
    r
}

/// The names of all segments, by source position.
fn all_names(analysis: &ContextStabilityAnalysis) -> (r: Vec<String>)
    ensures
        views(r@) == source_names(analysis.segments@),
{
    let mut r: Vec<String> = Vec::new();
    let mut j: usize = 0;
    while j < analysis.segments.len()
        invariant
            j <= analysis.segments.len(),
            r.len() == j,
            views(r@) == source_names(analysis.segments@).take(j as int),
        decreases analysis.segments.len() - j,
    {
        let ghost old_r = r@;
        let name = segment_name(&analysis.segments[j]);
        r.push(name);
        proof {
            let want = source_names(analysis.segments@).take(j + 1);
            assert forall|i: int| 0 <= i < j + 1 implies views(r@)[i] == want[i] by {
                if i < j {
                    assert(r@[i] == old_r[i]);
                    assert(views(old_r)[i] == source_names(analysis.segments@).take(j as int)[i]);
                }
            }
            assert(views(r@) =~= want);
        }
        j = j + 1;
    }
    proof {
        assert(source_names(analysis.segments@).take(analysis.segments.len() as int)
            =~= source_names(analysis.segments@));
    }
    r
}

/// The position that a name-to-position map filled from `names` holds for `x`.
pub(crate) fn name_position(names: &Vec<String>, x: &str) -> (r: Option<usize>)
    ensures
        position_view(r) == last_position(views(names@), x@),
{
    let mut found: Option<usize> = None;
    let mut j: usize = 0;
    while j < names.len()
        invariant
            j <= names.len(),
            position_view(found) == last_position(views(names@).take(j as int), x@),
        decreases names.len() - j,
    {
        proof {
            assert(views(names@).take(j + 1).drop_last() =~= views(names@).take(j as int));
        }
        if str_eq(names[j].as_str(), x) {
            found = Some(j);
        }
        j = j + 1;
    }
    proof {
        assert(views(names@).take(names.len() as int) =~= views(names@));
    }
    found
}

/// The source position of the first segment named `x`.
fn first_named(analysis: &ContextStabilityAnalysis, x: &str) -> (r: Option<usize>)
    ensures
        position_view(r) == first_position(source_names(analysis.segments@), x@),
{
    let ghost names = source_names(analysis.segments@);
    let mut j: usize = 0;
    while j < analysis.segments.len()
        invariant
            j <= analysis.segments.len(),
            names == source_names(analysis.segments@),
            first_position(names.take(j as int), x@) is None,
        decreases analysis.segments.len() - j,
    {
        proof {
            assert(names.take(j + 1).drop_last() =~= names.take(j as int));
        }
        if str_eq(analysis.segments[j].structural_path.as_str(), x) {
            proof {
                lemma_first_position_extends(names, x@, j as int);
            }
            return Some(j);
        }
        j = j + 1;
    }
    proof {
        assert(names.take(analysis.segments.len() as int) =~= names);
    }
    None
}

proof fn lemma_first_position_extends(names: Seq<Seq<char>>, x: Seq<char>, j: int)
    requires
        0 <= j < names.len(),
        first_position(names.take(j), x) is None,
        names[j] == x,
    ensures
        first_position(names, x) == Some(j),
{
    assert(names.take(j + 1).drop_last() =~= names.take(j));
    lemma_first_position_prefix(names, x, j + 1);
}

/// A first position found in a prefix is the first position in the whole.
proof fn lemma_first_position_prefix(names: Seq<Seq<char>>, x: Seq<char>, m: int)
    requires
        0 <= m <= names.len(),
        first_position(names.take(m), x) is Some,
    ensures
        first_position(names, x) == first_position(names.take(m), x),
    decreases names.len() - m,
{
    if m < names.len() {
        assert(names.take(m + 1).drop_last() =~= names.take(m));
        lemma_first_position_prefix(names, x, m + 1);
    } else {
        assert(names.take(m) =~= names);
    }
}

/// Whether `before` comes before `after` in the named positions, when both
/// are named there.
fn order_relation(names: &Vec<String>, before: &str, after: &str) -> (r: Option<bool>)
    ensures
        r == match (last_position(views(names@), before@), last_position(views(names@), after@)) {
            (Some(i), Some(j)) => Some(i < j),
            _ => None,
        },
{
    let b = name_position(names, before);
    let a = name_position(names, after);
    match (b, a) {
        (Some(i), Some(j)) => Some(i < j),
        _ => None,
    }
}

/// The region that the first movable-within-region constraint naming `x`
/// allows `x` to move in.
pub open spec fn region_of(cs: Seq<OrderingConstraint>, x: Seq<char>) -> Option<Seq<char>>
    decreases cs.len(),
{
    if cs.len() == 0 {
        None
    } else {
        match region_of(cs.drop_last(), x) {
            Some(r) => Some(r),
            None => match cs.last() {
                OrderingConstraint::MovableWithinCompatibleRegion { segment, region } =>
                    if segment@ == x { Some(region@) } else { None },
                _ => None,
            },
        }
    }
}

proof fn lemma_region_of_prefix(cs: Seq<OrderingConstraint>, x: Seq<char>, m: int)
    requires
        0 <= m <= cs.len(),
        region_of(cs.take(m), x) is Some,
    ensures
        region_of(cs, x) == region_of(cs.take(m), x),
    decreases cs.len() - m,
{
    if m < cs.len() {
        assert(cs.take(m + 1).drop_last() =~= cs.take(m));
        lemma_region_of_prefix(cs, x, m + 1);
    } else {
        assert(cs.take(m) =~= cs);
    }
}

/// The region of the first constraint that lets the segment named `x` move
/// within a region.
fn region_for(constraints: &Vec<OrderingConstraint>, x: &str) -> (r: Option<String>)
    ensures
        opt_text(r) == region_of(constraints@, x@),
{
    let mut i: usize = 0;
    while i < constraints.len()
        invariant
            i <= constraints.len(),
            region_of(constraints@.take(i as int), x@) is None,
        decreases constraints.len() - i,
    {
        proof {
            assert(constraints@.take(i + 1).drop_last() =~= constraints@.take(i as int));
        }
        match &constraints[i] {
            OrderingConstraint::MovableWithinCompatibleRegion { segment, region } => {
                if str_eq(segment.as_str(), x) {
                    proof {
                        lemma_region_of_prefix(constraints@, x@, i + 1);
                    }
                    return Some(region.clone());
                }
            },
            _ => {},
        }
        i = i + 1;
    }
    proof {
        assert(constraints@.take(constraints.len() as int) =~= constraints@);
    }
    None
}

pub open spec fn opt_text(r: Option<String>) -> Option<Seq<char>> {
    match r {
        Some(t) => Some(t@),
        None => None,
    }
}

/// The names `x` and `y` are in order in `src` and out of order in `cand`.
pub open spec fn pair_reversed(src: Seq<Seq<char>>, cand: Seq<Seq<char>>, x: Seq<char>, y: Seq<char>) -> bool {
    &&& last_position(src, x).unwrap() < last_position(src, y).unwrap()
    &&& last_position(cand, x).unwrap() >= last_position(cand, y).unwrap()
}

/// Some two consecutive names of `segments` are in order in `src` and out of
/// order in `cand`.
pub open spec fn relative_order_changed_in(src: Seq<Seq<char>>, cand: Seq<Seq<char>>, segments: Seq<Seq<char>>) -> bool {
    exists|k: int| 0 <= k < segments.len() - 1 && #[trigger] pair_reversed(src, cand, segments[k], segments[k + 1])
}

/// Whether some two consecutive names of `segments` were in order in
/// `original` and are not in order in `candidate`.
fn relative_order_changed(original: &Vec<String>, candidate: &Vec<String>, segments: &Vec<String>) -> (r: bool)
    requires
        forall|i: int| 0 <= i < segments.len() ==> last_position(views(original@), (#[trigger] segments@[i])@) is Some
            && last_position(views(candidate@), segments@[i]@) is Some,
    ensures
        r == relative_order_changed_in(views(original@), views(candidate@), views(segments@)),
{
    let ghost names = views(segments@);
    let mut k: usize = 0;
    while k + 1 < segments.len()
        invariant
            names == views(segments@),
            k + 1 <= segments.len() || segments.len() == 0,
            k <= segments.len(),
            forall|i: int| 0 <= i < segments.len() ==> last_position(views(original@), (#[trigger] segments@[i])@) is Some
                && last_position(views(candidate@), segments@[i]@) is Some,
            forall|j: int| 0 <= j < k ==> !#[trigger] pair_reversed(views(original@), views(candidate@), names[j], names[j + 1]),
        decreases segments.len() - k,
    {
        let a = segments[k].as_str();
        let b = segments[k + 1].as_str();
        let oa = name_position(original, a).unwrap();
        let ob = name_position(original, b).unwrap();
        if oa < ob {
            let ca = name_position(candidate, a).unwrap();
            let cb = name_position(candidate, b).unwrap();
            if ca >= cb {
                proof {
                    assert(pair_reversed(views(original@), views(candidate@), names[k as int], names[k + 1]));
                }
                return true;
            }
        }
        k = k + 1;
    }
    false
}

/// Every name of a segment has a position among the source names and among
/// the names in a permutation of the segments.
proof fn lemma_names_present(segs: Seq<ContextSegmentAnalysis>, order: Seq<usize>, p: int)
    requires
        is_permutation(order, segs.len() as int),
        0 <= p < segs.len(),
    ensures
        last_position(source_names(segs), source_names(segs)[p]) is Some,
        last_position(order_names(segs, order), source_names(segs)[p]) is Some,
        first_position(source_names(segs), source_names(segs)[p]) is Some,
{
    let src = source_names(segs);
    let cand = order_names(segs, order);
    lemma_last_position(src, src[p]);
    lemma_first_position(src, src[p]);
    assert(occurs(order, p));
    let j = choose|j: int| 0 <= j < order.len() && order[j] == p;
    assert(cand[j] == src[p]);
    lemma_last_position(cand, src[p]);
}

/// The pairs of segments at `a` and `b` whose names are in increasing order
/// and whose relative order `order` changes.
pub open spec fn relation_changed(segs: Seq<ContextSegmentAnalysis>, order: Seq<usize>, a: int, b: int) -> bool {
    let src = source_names(segs);
    let cand = order_names(segs, order);
    &&& seq_lt(src[a], src[b])
    &&& (last_position(src, src[a]).unwrap() < last_position(src, src[b]).unwrap())
        != (last_position(cand, src[a]).unwrap() < last_position(cand, src[b]).unwrap())
}

/// Row `a` of the changed pairs, over the segments before `m`.
pub open spec fn row_pairs(segs: Seq<ContextSegmentAnalysis>, order: Seq<usize>, a: int, m: int) -> Seq<(Seq<char>, Seq<char>)>
    decreases m,
{
    if m <= 0 {
        Seq::empty()
    } else {
        row_pairs(segs, order, a, m - 1) + if relation_changed(segs, order, a, m - 1) {
            seq![(source_names(segs)[a], source_names(segs)[m - 1])]
        } else {
            Seq::empty()
        }
    }
}

/// The changed pairs whose first segment lies before `m`, row by row.
pub open spec fn changed_pairs(segs: Seq<ContextSegmentAnalysis>, order: Seq<usize>, m: int) -> Seq<(Seq<char>, Seq<char>)>
    decreases m,
{
    if m <= 0 {
        Seq::empty()
    } else {
        changed_pairs(segs, order, m - 1) + row_pairs(segs, order, m - 1, segs.len() as int)
    }
}

pub open spec fn pair_names(s: Seq<(String, String)>) -> Seq<(Seq<char>, Seq<char>)> {
    s.map_values(|p: (String, String)| (p.0@, p.1@))
}

/// The pair of names of the segments at `a` and `b`.
pub open spec fn names_of(segs: Seq<ContextSegmentAnalysis>, a: int, b: int) -> (Seq<char>, Seq<char>) {
    (source_names(segs)[a], source_names(segs)[b])
}

/// `e` names a pair of row `a` before `m` whose relative order changed.
pub open spec fn in_row(segs: Seq<ContextSegmentAnalysis>, order: Seq<usize>, a: int, m: int, e: (Seq<char>, Seq<char>)) -> bool {
    exists|b: int| 0 <= b < m && #[trigger] relation_changed(segs, order, a, b) && e == names_of(segs, a, b)
}

/// `e` names a pair, with first segment before `m`, whose relative order changed.
pub open spec fn in_rows(segs: Seq<ContextSegmentAnalysis>, order: Seq<usize>, m: int, e: (Seq<char>, Seq<char>)) -> bool {
    exists|a: int, b: int| 0 <= a < m && 0 <= b < segs.len() && #[trigger] relation_changed(segs, order, a, b)
        && e == names_of(segs, a, b)
}

proof fn lemma_row_pairs(segs: Seq<ContextSegmentAnalysis>, order: Seq<usize>, a: int, m: int)
    requires
        0 <= m,
    ensures
        forall|k: int| 0 <= k < row_pairs(segs, order, a, m).len() ==>
            in_row(segs, order, a, m, #[trigger] row_pairs(segs, order, a, m)[k]),
        forall|b: int| 0 <= b < m && #[trigger] relation_changed(segs, order, a, b) ==>
            row_pairs(segs, order, a, m).contains(names_of(segs, a, b)),
    decreases m,
{
    if m > 0 {
        lemma_row_pairs(segs, order, a, m - 1);
        let prev = row_pairs(segs, order, a, m - 1);
        let cur = row_pairs(segs, order, a, m);
        assert forall|k: int| 0 <= k < cur.len() implies in_row(segs, order, a, m, #[trigger] cur[k]) by {
            if k < prev.len() {
                assert(cur[k] == prev[k]);
                assert(in_row(segs, order, a, m - 1, prev[k]));
                let b = choose|b: int| 0 <= b < m - 1 && #[trigger] relation_changed(segs, order, a, b) && prev[k] == names_of(segs, a, b);
                assert(0 <= b < m && relation_changed(segs, order, a, b) && cur[k] == names_of(segs, a, b));
            } else {
                assert(relation_changed(segs, order, a, m - 1));
                assert(cur[k] == names_of(segs, a, m - 1));
            }
        }
        assert forall|b: int| 0 <= b < m && #[trigger] relation_changed(segs, order, a, b) implies
            cur.contains(names_of(segs, a, b)) by {
            if b < m - 1 {
                let k = choose|k: int| 0 <= k < prev.len() && prev[k] == names_of(segs, a, b);
                assert(cur[k] == prev[k]);
            } else {
                assert(cur[prev.len() as int] == names_of(segs, a, b));
            }
        }
    }
}

proof fn lemma_changed_pairs(segs: Seq<ContextSegmentAnalysis>, order: Seq<usize>, m: int)
    requires
        0 <= m,
    ensures
        forall|k: int| 0 <= k < changed_pairs(segs, order, m).len() ==>
            in_rows(segs, order, m, #[trigger] changed_pairs(segs, order, m)[k]),
        forall|a: int, b: int| 0 <= a < m && 0 <= b < segs.len() && #[trigger] relation_changed(segs, order, a, b) ==>
            changed_pairs(segs, order, m).contains(names_of(segs, a, b)),
    decreases m,
{
    if m > 0 {
        let n = segs.len() as int;
        lemma_changed_pairs(segs, order, m - 1);
        lemma_row_pairs(segs, order, m - 1, n);
        let prev = changed_pairs(segs, order, m - 1);
        let row = row_pairs(segs, order, m - 1, n);
        let cur = changed_pairs(segs, order, m);
        assert(cur == prev + row);
        assert forall|k: int| 0 <= k < cur.len() implies in_rows(segs, order, m, #[trigger] cur[k]) by {
            if k < prev.len() {
                assert(cur[k] == prev[k]);
                assert(in_rows(segs, order, m - 1, prev[k]));
                let (a, b) = choose|a: int, b: int| 0 <= a < m - 1 && 0 <= b < n
                    && #[trigger] relation_changed(segs, order, a, b) && prev[k] == names_of(segs, a, b);
                assert(0 <= a < m && relation_changed(segs, order, a, b) && cur[k] == names_of(segs, a, b));
            } else {
                assert(cur[k] == row[k - prev.len()]);
                assert(in_row(segs, order, m - 1, n, row[k - prev.len()]));
                let b = choose|b: int| 0 <= b < n && #[trigger] relation_changed(segs, order, m - 1, b)
                    && row[k - prev.len()] == names_of(segs, m - 1, b);
                assert(relation_changed(segs, order, m - 1, b) && cur[k] == names_of(segs, m - 1, b));
            }
        }
        assert forall|a: int, b: int| 0 <= a < m && 0 <= b < n && #[trigger] relation_changed(segs, order, a, b) implies
            cur.contains(names_of(segs, a, b)) by {
            if a < m - 1 {
                let k = choose|k: int| 0 <= k < prev.len() && prev[k] == names_of(segs, a, b);
                assert(cur[k] == prev[k]);
            } else {
                let k = choose|k: int| 0 <= k < row.len() && row[k] == names_of(segs, a, b);
                assert(cur[prev.len() + k] == row[k]);
            }
        }
    }
}

/// The pairs of segment names, in increasing name order, whose relative
/// order `order` changes: row by row over the source positions.
pub fn changed_relative_pairs(analysis: &ContextStabilityAnalysis, order: &Vec<usize>) -> (r: Vec<(String, String)>)
    requires
        is_permutation(order@, analysis.segments.len() as int),
    ensures
        pair_names(r@) == changed_pairs(analysis.segments@, order@, analysis.segments.len() as int),
{
    let ghost segs = analysis.segments@;
    let n = analysis.segments.len();
    let original = all_names(analysis);
    let candidate = positions_by_name(analysis, order);
    let mut changed: Vec<(String, String)> = Vec::new();
    let mut a: usize = 0;
    while a < n
        invariant
            n == segs.len(),
            segs == analysis.segments@,
            is_permutation(order@, n as int),
            views(original@) == source_names(segs),
            views(candidate@) == order_names(segs, order@),
            a <= n,
            pair_names(changed@) == changed_pairs(segs, order@, a as int),
        decreases n - a,
    {
        let mut b: usize = 0;
        while b < n
            invariant
                n == segs.len(),
                segs == analysis.segments@,
                is_permutation(order@, n as int),
                views(original@) == source_names(segs),
                views(candidate@) == order_names(segs, order@),
                a < n,
                b <= n,
                pair_names(changed@) == changed_pairs(segs, order@, a as int) + row_pairs(segs, order@, a as int, b as int),
            decreases n - b,
        {
            proof {
                lemma_names_present(segs, order@, a as int);
                lemma_names_present(segs, order@, b as int);
            }
            let left = original[a].as_str();
            let right = original[b].as_str();
            let ghost before = changed@;
            if str_compare(left, right) == -1 {
                let old_relation = name_position(&original, left).unwrap() < name_position(&original, right).unwrap();
                let new_relation = name_position(&candidate, left).unwrap() < name_position(&candidate, right).unwrap();
                if old_relation != new_relation {
                    changed.push((original[a].clone(), original[b].clone()));
                    proof {
                        assert(relation_changed(segs, order@, a as int, b as int));
                        assert(pair_names(changed@) =~= pair_names(before).push(names_of(segs, a as int, b as int)));
                    }
                } else {
                    proof {
                        assert(!relation_changed(segs, order@, a as int, b as int));
                    }
                }
            } else {
                proof {
                    assert(!relation_changed(segs, order@, a as int, b as int));
                }
            }
            b = b + 1;
            proof {
                assert(pair_names(changed@) =~= changed_pairs(segs, order@, a as int) + row_pairs(segs, order@, a as int, b as int));
            }
        }
        a = a + 1;
        proof {
            assert(pair_names(changed@) =~= changed_pairs(segs, order@, a as int));
        }
    }
    changed
}

/// How many pairs of segments `order` puts in the other relative order.
pub fn changed_relative_relationship_count(analysis: &ContextStabilityAnalysis, order: &Vec<usize>) -> (r: usize)
    requires
        is_permutation(order@, analysis.segments.len() as int),
    ensures
        r == changed_pairs(analysis.segments@, order@, analysis.segments.len() as int).len(),
{
    let pairs = changed_relative_pairs(analysis, order);
    pairs.len()
}

// ---------------------------------------------------------------------------
// The reasons that make a proposed reorder unsafe.

/// The region that the segment at `p` may move in, if one is declared.
pub open spec fn region_at(segs: Seq<ContextSegmentAnalysis>, cs: Seq<OrderingConstraint>, p: int) -> Option<Seq<char>> {
    region_of(cs, segs[p].structural_path@)
}

/// `x` has a position before `y` among `names`.
pub open spec fn precedes(names: Seq<Seq<char>>, x: Seq<char>, y: Seq<char>) -> bool {
    match (last_position(names, x), last_position(names, y)) {
        (Some(i), Some(j)) => i < j,
        _ => false,
    }
}

/// A fixed-position constraint whose segment held its position and loses it.
pub open spec fn fixed_position_broken(src: Seq<Seq<char>>, cand: Seq<Seq<char>>, c: OrderingConstraint) -> bool {
    match c {
        OrderingConstraint::FixedPosition { segment, position } =>
            last_position(cand, segment@) != Some(position as int) && last_position(src, segment@) == Some(position as int),
        _ => false,
    }
}

/// A must-precede or must-follow constraint that the candidate order breaks.
pub open spec fn precedence_broken(cand: Seq<Seq<char>>, c: OrderingConstraint) -> bool {
    match c {
        OrderingConstraint::MustPrecede { before, after } => !precedes(cand, before@, after@),
        OrderingConstraint::MustFollow { segment, after } => !precedes(cand, after@, segment@),
        _ => false,
    }
}

/// A preserve-relative-order constraint, for chronology or (when
/// `chronology` is false) for another reason, that the candidate order breaks.
pub open spec fn relative_order_broken(src: Seq<Seq<char>>, cand: Seq<Seq<char>>, c: OrderingConstraint, chronology: bool) -> bool {
    match c {
        OrderingConstraint::PreserveRelativeOrder { segments, reason } =>
            (reason is Chronology) == chronology && relative_order_changed_in(src, cand, views(segments@)),
        _ => false,
    }
}

/// An unknown-move-safety constraint on a segment that the order moves.
pub open spec fn unknown_segment_moved(segs: Seq<ContextSegmentAnalysis>, order: Seq<usize>, c: OrderingConstraint) -> bool {
    match c {
        OrderingConstraint::Unknown { segment, .. } =>
            exists|p: int| #[trigger] moved(order, p) && segs[p].structural_path@ == segment@,
        _ => false,
    }
}

/// The trust ranks of the two segments named by `e`: first the one that the
/// candidate order puts earlier. A name stands for its first segment.
pub open spec fn trust_ranks(segs: Seq<ContextSegmentAnalysis>, order: Seq<usize>, e: (Seq<char>, Seq<char>)) -> (Option<int>, Option<int>) {
    let src = source_names(segs);
    let cand = order_names(segs, order);
    let l = first_position(src, e.0).unwrap();
    let r = first_position(src, e.1).unwrap();
    if last_position(cand, e.0).unwrap() < last_position(cand, e.1).unwrap() {
        (trust_rank_of(segs[l].trust), trust_rank_of(segs[r].trust))
    } else {
        (trust_rank_of(segs[r].trust), trust_rank_of(segs[l].trust))
    }
}

/// The earlier segment of the pair is less trusted than the later one.
pub open spec fn trust_inverted(segs: Seq<ContextSegmentAnalysis>, order: Seq<usize>, e: (Seq<char>, Seq<char>)) -> bool {
    match trust_ranks(segs, order, e) {
        (Some(x), Some(y)) => x > y,
        _ => false,
    }
}

/// The trust of a segment of the pair is not known.
pub open spec fn trust_unknown(segs: Seq<ContextSegmentAnalysis>, order: Seq<usize>, e: (Seq<char>, Seq<char>)) -> bool {
    trust_ranks(segs, order, e).0 is None || trust_ranks(segs, order, e).1 is None
}

/// Some pair whose relative order changes has the condition `unknown`
/// selects: unknown trust, or else inverted trust.
pub open spec fn reordered_pair_with(segs: Seq<ContextSegmentAnalysis>, order: Seq<usize>, unknown: bool) -> bool {
    exists|a: int, b: int| 0 <= a < segs.len() && 0 <= b < segs.len() && #[trigger] relation_changed(segs, order, a, b)
        && if unknown { trust_unknown(segs, order, names_of(segs, a, b)) } else { trust_inverted(segs, order, names_of(segs, a, b)) }
}

/// Some two moved segments may move in different declared regions.
pub open spec fn regions_differ(segs: Seq<ContextSegmentAnalysis>, order: Seq<usize>, cs: Seq<OrderingConstraint>) -> bool {
    exists|p: int, q: int| #[trigger] moved(order, p) && #[trigger] moved(order, q)
        && region_at(segs, cs, p) is Some && region_at(segs, cs, q) is Some && region_at(segs, cs, p) != region_at(segs, cs, q)
}

/// Whether `reason` applies to moving the segments into `order` under the
/// constraints `cs`.
pub open spec fn reason_holds(
    segs: Seq<ContextSegmentAnalysis>,
    order: Seq<usize>,
    cs: Seq<OrderingConstraint>,
    reason: RejectionReason,
) -> bool {
    let src = source_names(segs);
    let cand = order_names(segs, order);
    match reason {
        RejectionReason::OrderingConstraint => regions_differ(segs, order, cs)
            || exists|i: int| 0 <= i < cs.len() && #[trigger] precedence_broken(cand, cs[i]),
        RejectionReason::SemanticDependency =>
            exists|i: int| 0 <= i < cs.len() && #[trigger] relative_order_broken(src, cand, cs[i], false),
        RejectionReason::TrustBoundary => reordered_pair_with(segs, order, false),
        RejectionReason::UnknownMoveSafety =>
            (exists|p: int| #[trigger] moved(order, p) && segs[p].stability == ArtifactStability::Unknown)
            || (exists|p: int| #[trigger] moved(order, p) && region_at(segs, cs, p) is None)
            || (exists|i: int| 0 <= i < cs.len() && #[trigger] unknown_segment_moved(segs, order, cs[i]))
            || reordered_pair_with(segs, order, true),
        RejectionReason::FixedSegment =>
            exists|i: int| 0 <= i < cs.len() && #[trigger] fixed_position_broken(src, cand, cs[i]),
        RejectionReason::WouldAlterChronology =>
            exists|i: int| 0 <= i < cs.len() && #[trigger] relative_order_broken(src, cand, cs[i], true),
        RejectionReason::NoStructuralBenefit => !exists|p: int| #[trigger] moved(order, p),
        RejectionReason::DuplicateCandidate => false,
        RejectionReason::UnsupportedSegmentRegion =>
            exists|p: int| #[trigger] moved(order, p) && segs[p].role != ContextRole::ContextArtifact,
        RejectionReason::CandidateLimitReached => false,
    }
}

/// The order in which reasons are listed.
pub open spec fn reason_rank(r: RejectionReason) -> int {
    match r {
        RejectionReason::OrderingConstraint => 0,
        RejectionReason::SemanticDependency => 1,
        RejectionReason::TrustBoundary => 2,
        RejectionReason::UnknownMoveSafety => 3,
        RejectionReason::FixedSegment => 4,
        RejectionReason::WouldAlterChronology => 5,
        RejectionReason::NoStructuralBenefit => 6,
        RejectionReason::DuplicateCandidate => 7,
        RejectionReason::UnsupportedSegmentRegion => 8,
        RejectionReason::CandidateLimitReached => 9,
    }
}

/// `v` lists, each once and in reason order, the reasons of rank below `t`
/// that `holds` selects.
pub open spec fn lists_reasons(v: Seq<RejectionReason>, holds: spec_fn(RejectionReason) -> bool, t: int) -> bool {
    &&& forall|x: RejectionReason| v.contains(x) <==> (reason_rank(x) < t && holds(x))
    &&& forall|i: int, j: int| 0 <= i < j < v.len() ==> reason_rank(v[i]) < reason_rank(v[j])
    &&& forall|i: int| 0 <= i < v.len() ==> reason_rank(#[trigger] v[i]) < t
}

/// A preserve-relative-order constraint names only segments.
pub open spec fn names_known(segs: Seq<ContextSegmentAnalysis>, c: OrderingConstraint) -> bool {
    match c {
        OrderingConstraint::PreserveRelativeOrder { segments, .. } => forall|k: int| 0 <= k < segments.len()
            ==> last_position(source_names(segs), (#[trigger] segments@[k])@) is Some,
        _ => true,
    }
}

/// The constraints' preserve-relative-order lists name only segments.
pub open spec fn preserved_names_known(segs: Seq<ContextSegmentAnalysis>, cs: Seq<OrderingConstraint>) -> bool {
    forall|i: int| 0 <= i < cs.len() ==> names_known(segs, #[trigger] cs[i])
}

#[verifier::spinoff_prover]
fn push_reason(v: &mut Vec<RejectionReason>, cond: bool, x: RejectionReason, Ghost(holds): Ghost<spec_fn(RejectionReason) -> bool>)
    requires
        lists_reasons(old(v)@, holds, reason_rank(x)),
        cond == holds(x),
    ensures
        lists_reasons(final(v)@, holds, reason_rank(x) + 1),
{
    let ghost before = v@;
    if cond {
        v.push(x);
        proof {
            let after = v@;
            assert(after == before.push(x));
            assert(after[before.len() as int] == x);
            assert forall|y: RejectionReason| after.contains(y) <==> (reason_rank(y) < reason_rank(x) + 1 && holds(y)) by {
                assert(before.contains(y) <==> (reason_rank(y) < reason_rank(x) && holds(y)));
                if after.contains(y) {
                    let k = choose|k: int| 0 <= k < after.len() && after[k] == y;
                    if k < before.len() {
                        assert(before[k] == y);
                        assert(before.contains(y));
                    } else {
                        assert(y == x);
                    }
                }
                if reason_rank(y) < reason_rank(x) + 1 && holds(y) {
                    if reason_rank(y) < reason_rank(x) {
                        assert(before.contains(y));
                        let k = choose|k: int| 0 <= k < before.len() && before[k] == y;
                        assert(after[k] == y);
                    } else {
                        assert(y == x);
                        assert(after[before.len() as int] == y);
                    }
                }
            }
        }
    } else {
        proof {
            assert forall|y: RejectionReason| v@.contains(y) <==> (reason_rank(y) < reason_rank(x) + 1 && holds(y)) by {
                if reason_rank(y) == reason_rank(x) {
                    assert(y == x);
                }
            }
        }
    }
}

/// `changed` lists exactly the positions that `order` moves.
pub open spec fn lists_moved(changed: Seq<usize>, order: Seq<usize>) -> bool {
    &&& forall|k: int| 0 <= k < changed.len() ==> moved(order, #[trigger] changed[k] as int)
    &&& forall|p: int| moved(order, p) ==> changed.contains(p as usize)
}

/// What the moved segments alone decide: whether one is not a context
/// artifact, whether one has unknown stability, whether one has no declared
/// region, and whether two have different declared regions.
fn moved_segment_checks(
    analysis: &ContextStabilityAnalysis,
    order: &Vec<usize>,
    changed: &Vec<usize>,
    constraints: &Vec<OrderingConstraint>,
) -> (r: (bool, bool, bool, bool))
    requires
        order.len() == analysis.segments.len(),
        lists_moved(changed@, order@),
    ensures
        r.0 == exists|p: int| #[trigger] moved(order@, p) && analysis.segments@[p].role != ContextRole::ContextArtifact,
        r.1 == exists|p: int| #[trigger] moved(order@, p) && analysis.segments@[p].stability == ArtifactStability::Unknown,
        r.2 == exists|p: int| #[trigger] moved(order@, p) && region_at(analysis.segments@, constraints@, p) is None,
        r.3 == regions_differ(analysis.segments@, order@, constraints@),
{
    let ghost segs = analysis.segments@;
    let ghost cs = constraints@;
    let mut unsupported = false;
    let mut unknown_stability = false;
    let mut missing_region = false;
    let mut first_region: Option<String> = None;
    let mut differ = false;
    let ghost mut first_at: int = 0;
    let mut k: usize = 0;
    while k < changed.len()
        invariant
            segs == analysis.segments@,
            cs == constraints@,
            order.len() == segs.len(),
            lists_moved(changed@, order@),
            k <= changed.len(),
            unsupported == exists|j: int| 0 <= j < k && segs[#[trigger] changed@[j] as int].role != ContextRole::ContextArtifact,
            unknown_stability == exists|j: int| 0 <= j < k && segs[#[trigger] changed@[j] as int].stability == ArtifactStability::Unknown,
            missing_region == exists|j: int| 0 <= j < k && region_at(segs, cs, #[trigger] changed@[j] as int) is None,
            first_region is None ==> forall|j: int| 0 <= j < k ==> region_at(segs, cs, #[trigger] changed@[j] as int) is None,
            first_region is Some ==> 0 <= first_at < k && region_at(segs, cs, changed@[first_at] as int) == opt_text(first_region),
            first_region is Some && !differ ==> forall|j: int| 0 <= j < k && region_at(segs, cs, #[trigger] changed@[j] as int) is Some
                ==> region_at(segs, cs, changed@[j] as int) == opt_text(first_region),
            differ ==> exists|j1: int, j2: int| 0 <= j1 < k && 0 <= j2 < k
                && region_at(segs, cs, #[trigger] changed@[j1] as int) is Some && region_at(segs, cs, #[trigger] changed@[j2] as int) is Some
                && region_at(segs, cs, changed@[j1] as int) != region_at(segs, cs, changed@[j2] as int),
        decreases changed.len() - k,
    {
        let p = changed[k];
        proof {
            assert(moved(order@, p as int));
        }
        let segment = &analysis.segments[p];
        if !is_artifact_position(analysis, p) {
            unsupported = true;
        }
        if segment.stability == ArtifactStability::Unknown {
            unknown_stability = true;
        }
        let region = region_for(constraints, segment.structural_path.as_str());
        match region {
            None => {
                missing_region = true;
            },
            Some(r) => {
                match &first_region {
                    None => {
                        proof {
                            first_at = k as int;
                        }
                        first_region = Some(r);
                    },
                    Some(f) => {
                        if !str_eq(r.as_str(), f.as_str()) {
                            proof {
                                assert(region_at(segs, cs, changed@[first_at] as int) != region_at(segs, cs, changed@[k as int] as int));
                            }
                            differ = true;
                        }
                    },
                }
            },
        }
        k = k + 1;
    }
    proof {
        assert((exists|j: int| 0 <= j < changed.len() && segs[#[trigger] changed@[j] as int].role != ContextRole::ContextArtifact)
            == exists|p: int| #[trigger] moved(order@, p) && segs[p].role != ContextRole::ContextArtifact) by {
            if exists|p: int| #[trigger] moved(order@, p) && segs[p].role != ContextRole::ContextArtifact {
                let p = choose|p: int| #[trigger] moved(order@, p) && segs[p].role != ContextRole::ContextArtifact;
                let j = choose|j: int| 0 <= j < changed@.len() && changed@[j] == p as usize;
                assert(segs[changed@[j] as int].role != ContextRole::ContextArtifact);
            }
        }
        assert((exists|j: int| 0 <= j < changed.len() && segs[#[trigger] changed@[j] as int].stability == ArtifactStability::Unknown)
            == exists|p: int| #[trigger] moved(order@, p) && segs[p].stability == ArtifactStability::Unknown) by {
            if exists|p: int| #[trigger] moved(order@, p) && segs[p].stability == ArtifactStability::Unknown {
                let p = choose|p: int| #[trigger] moved(order@, p) && segs[p].stability == ArtifactStability::Unknown;
                let j = choose|j: int| 0 <= j < changed@.len() && changed@[j] == p as usize;
                assert(segs[changed@[j] as int].stability == ArtifactStability::Unknown);
            }
        }
        assert((exists|j: int| 0 <= j < changed.len() && region_at(segs, cs, #[trigger] changed@[j] as int) is None)
            == exists|p: int| #[trigger] moved(order@, p) && region_at(segs, cs, p) is None) by {
            if exists|p: int| #[trigger] moved(order@, p) && region_at(segs, cs, p) is None {
                let p = choose|p: int| #[trigger] moved(order@, p) && region_at(segs, cs, p) is None;
                let j = choose|j: int| 0 <= j < changed@.len() && changed@[j] == p as usize;
                assert(region_at(segs, cs, changed@[j] as int) is None);
            }
        }
        if differ {
            let (j1, j2) = choose|j1: int, j2: int| 0 <= j1 < changed.len() && 0 <= j2 < changed.len()
                && region_at(segs, cs, #[trigger] changed@[j1] as int) is Some && region_at(segs, cs, #[trigger] changed@[j2] as int) is Some
                && region_at(segs, cs, changed@[j1] as int) != region_at(segs, cs, changed@[j2] as int);
            assert(moved(order@, changed@[j1] as int) && moved(order@, changed@[j2] as int));
        } else if regions_differ(segs, order@, cs) {
            let (p, q) = choose|p: int, q: int| #[trigger] moved(order@, p) && #[trigger] moved(order@, q)
                && region_at(segs, cs, p) is Some && region_at(segs, cs, q) is Some && region_at(segs, cs, p) != region_at(segs, cs, q);
            let jp = choose|j: int| 0 <= j < changed@.len() && changed@[j] == p as usize;
            let jq = choose|j: int| 0 <= j < changed@.len() && changed@[j] == q as usize;
            assert(region_at(segs, cs, changed@[jp] as int) is Some);
            assert(region_at(segs, cs, changed@[jq] as int) is Some);
        }
    }
    (unsupported, unknown_stability, missing_region, differ)
}

/// A name that some segment bears has a position in every permutation.
proof fn lemma_known_name_in_order(segs: Seq<ContextSegmentAnalysis>, order: Seq<usize>, x: Seq<char>)
    requires
        is_permutation(order, segs.len() as int),
        last_position(source_names(segs), x) is Some,
    ensures
        last_position(order_names(segs, order), x) is Some,
{
    lemma_last_position(source_names(segs), x);
    let i = last_position(source_names(segs), x).unwrap();
    lemma_names_present(segs, order, i);
}

/// Some segment listed in `changed` is named `x`.
fn any_changed_named(analysis: &ContextStabilityAnalysis, changed: &Vec<usize>, x: &str) -> (r: bool)
    requires
        forall|k: int| 0 <= k < changed.len() ==> (#[trigger] changed@[k]) < analysis.segments.len(),
    ensures
        r == exists|k: int| 0 <= k < changed.len()
            && analysis.segments@[#[trigger] changed@[k] as int].structural_path@ == x@,
{
    let mut k: usize = 0;
    while k < changed.len()
        invariant
            k <= changed.len(),
            forall|j: int| 0 <= j < changed.len() ==> (#[trigger] changed@[j]) < analysis.segments.len(),
            forall|j: int| 0 <= j < k ==> analysis.segments@[#[trigger] changed@[j] as int].structural_path@ != x@,
        decreases changed.len() - k,
    {
        if str_eq(analysis.segments[changed[k]].structural_path.as_str(), x) {
            return true;
        }
        k = k + 1;
    }
    false
}

/// What the declared constraints decide: whether a precedence is broken,
/// whether a relative order kept for another reason than chronology is
/// broken, whether a fixed position is lost, whether a chronological order is
/// broken, and whether a segment of unknown move safety moves.
fn constraint_checks(
    analysis: &ContextStabilityAnalysis,
    order: &Vec<usize>,
    changed: &Vec<usize>,
    original: &Vec<String>,
    candidate: &Vec<String>,
    constraints: &Vec<OrderingConstraint>,
) -> (r: (bool, bool, bool, bool, bool))
    requires
        is_permutation(order@, analysis.segments.len() as int),
        lists_moved(changed@, order@),
        views(original@) == source_names(analysis.segments@),
        views(candidate@) == order_names(analysis.segments@, order@),
        preserved_names_known(analysis.segments@, constraints@),
    ensures
        r.0 == exists|i: int| 0 <= i < constraints.len()
            && #[trigger] precedence_broken(views(candidate@), constraints@[i]),
        r.1 == exists|i: int| 0 <= i < constraints.len()
            && #[trigger] relative_order_broken(views(original@), views(candidate@), constraints@[i], false),
        r.2 == exists|i: int| 0 <= i < constraints.len()
            && #[trigger] fixed_position_broken(views(original@), views(candidate@), constraints@[i]),
        r.3 == exists|i: int| 0 <= i < constraints.len()
            && #[trigger] relative_order_broken(views(original@), views(candidate@), constraints@[i], true),
        r.4 == exists|i: int| 0 <= i < constraints.len()
            && #[trigger] unknown_segment_moved(analysis.segments@, order@, constraints@[i]),
{
    let ghost segs = analysis.segments@;
    let ghost cs = constraints@;
    let ghost src = views(original@);
    let ghost cand = views(candidate@);
    let mut ordering = false;
    let mut semantic = false;
    let mut fixed = false;
    let mut chronology = false;
    let mut unknown = false;
    let count = order.len();
    let mut i: usize = 0;
    while i < constraints.len()
        invariant
            count == order@.len(),
            segs == analysis.segments@,
            cs == constraints@,
            src == views(original@),
            cand == views(candidate@),
            is_permutation(order@, segs.len() as int),
            lists_moved(changed@, order@),
            src == source_names(segs),
            cand == order_names(segs, order@),
            preserved_names_known(segs, cs),
            i <= constraints.len(),
            ordering == exists|j: int| 0 <= j < i && #[trigger] precedence_broken(cand, cs[j]),
            semantic == exists|j: int| 0 <= j < i && #[trigger] relative_order_broken(src, cand, cs[j], false),
            fixed == exists|j: int| 0 <= j < i && #[trigger] fixed_position_broken(src, cand, cs[j]),
            chronology == exists|j: int| 0 <= j < i && #[trigger] relative_order_broken(src, cand, cs[j], true),
            unknown == exists|j: int| 0 <= j < i && #[trigger] unknown_segment_moved(segs, order@, cs[j]),
        decreases constraints.len() - i,
    {
        match &constraints[i] {
            OrderingConstraint::FixedPosition { segment, position } => {
                let now = name_position(candidate, segment.as_str());
                let was = name_position(original, segment.as_str());
                let lost = match now {
                    Some(x) => x != *position,
                    None => true,
                };
                let held = match was {
                    Some(x) => x == *position,
                    None => false,
                };
                if lost && held {
                    fixed = true;
                }
                proof {
                    assert(fixed_position_broken(src, cand, cs[i as int]) == (lost && held));
                }
            },
            OrderingConstraint::MustPrecede { before, after } => {
                let kept = match order_relation(candidate, before.as_str(), after.as_str()) {
                    Some(b) => b,
                    None => false,
                };
                if !kept {
                    ordering = true;
                }
                proof {
                    assert(precedence_broken(cand, cs[i as int]) == !kept);
                }
            },
            OrderingConstraint::MustFollow { segment, after } => {
                let kept = match order_relation(candidate, after.as_str(), segment.as_str()) {
                    Some(b) => b,
                    None => false,
                };
                if !kept {
                    ordering = true;
                }
                proof {
                    assert(precedence_broken(cand, cs[i as int]) == !kept);
                }
            },
            OrderingConstraint::PreserveRelativeOrder { segments, reason } => {
                proof {
                    assert(names_known(segs, cs[i as int]));
                    assert forall|k: int| 0 <= k < segments.len() implies
                        last_position(views(original@), (#[trigger] segments@[k])@) is Some
                        && last_position(views(candidate@), segments@[k]@) is Some by {
                        lemma_known_name_in_order(segs, order@, segments@[k]@);
                    }
                }
                let broken = relative_order_changed(original, candidate, segments);
                let is_chronology = match reason {
                    PreserveOrderReason::Chronology => true,
                    _ => false,
                };
                if broken {
                    if is_chronology {
                        chronology = true;
                    } else {
                        semantic = true;
                    }
                }
                proof {
                    assert(relative_order_broken(src, cand, cs[i as int], true) == (broken && is_chronology));
                    assert(relative_order_broken(src, cand, cs[i as int], false) == (broken && !is_chronology));
                }
            },
            OrderingConstraint::Unknown { segment, reason } => {
                proof {
                    assert(cs[i as int] == OrderingConstraint::Unknown { segment: *segment, reason: *reason });
                    assert forall|k: int| 0 <= k < changed.len() implies (#[trigger] changed@[k]) < segs.len() by {
                        assert(moved(order@, changed@[k] as int));
                    }
                }
                let named = any_changed_named(analysis, changed, segment.as_str());
                if named {
                    unknown = true;
                }
                proof {
                    if named {
                        let k = choose|k: int| 0 <= k < changed.len()
                            && segs[#[trigger] changed@[k] as int].structural_path@ == segment@;
                        assert(moved(order@, changed@[k] as int));
                    }
                    if unknown_segment_moved(segs, order@, cs[i as int]) {
                        let p = choose|p: int| #[trigger] moved(order@, p) && segs[p].structural_path@ == segment@;
                        let k = choose|k: int| 0 <= k < changed@.len() && changed@[k] == p as usize;
                        assert(changed@[k] as int == p);
                        assert(segs[changed@[k] as int].structural_path@ == segment@);
                    }
                    assert(unknown_segment_moved(segs, order@, cs[i as int]) == named);
                }
            },
            OrderingConstraint::MovableWithinCompatibleRegion { .. } => {},
        }
        i = i + 1;
    }
    (ordering, semantic, fixed, chronology, unknown)
}

/// What the trust of reordered segments decides: whether some pair whose
/// relative order changes puts the less trusted segment first, and whether
/// the trust of a segment of such a pair is unknown.
fn trust_checks(analysis: &ContextStabilityAnalysis, order: &Vec<usize>, candidate: &Vec<String>) -> (r: Result<(bool, bool), BenchmarkError>)
    requires
        is_permutation(order@, analysis.segments.len() as int),
        views(candidate@) == order_names(analysis.segments@, order@),
    ensures
        r matches Ok(t) && t.0 == reordered_pair_with(analysis.segments@, order@, false)
            && t.1 == reordered_pair_with(analysis.segments@, order@, true),
{
    let ghost segs = analysis.segments@;
    let ghost n = segs.len() as int;
    let pairs = changed_relative_pairs(analysis, order);
    let mut inverted = false;
    let mut unknown = false;
    let mut k: usize = 0;
    while k < pairs.len()
        invariant
            segs == analysis.segments@,
            n == segs.len(),
            is_permutation(order@, n),
            views(candidate@) == order_names(segs, order@),
            pair_names(pairs@) == changed_pairs(segs, order@, n),
            k <= pairs.len(),
            inverted == exists|j: int| 0 <= j < k && trust_inverted(segs, order@, #[trigger] pair_names(pairs@)[j]),
            unknown == exists|j: int| 0 <= j < k && trust_unknown(segs, order@, #[trigger] pair_names(pairs@)[j]),
        decreases pairs.len() - k,
    {
        let ghost e = pair_names(pairs@)[k as int];
        proof {
            lemma_changed_pairs(segs, order@, n);
            assert(in_rows(segs, order@, n, e));
            let (a, b) = choose|a: int, b: int| 0 <= a < n && 0 <= b < n && #[trigger] relation_changed(segs, order@, a, b)
                && e == names_of(segs, a, b);
            lemma_names_present(segs, order@, a);
            lemma_names_present(segs, order@, b);
        }
        let left_name = pairs[k].0.as_str();
        let right_name = pairs[k].1.as_str();
        let left = match first_named(analysis, left_name) {
            Some(i) => i,
            None => return Err(BenchmarkError::validation("changed layout segment is missing")),
        };
        let right = match first_named(analysis, right_name) {
            Some(i) => i,
            None => return Err(BenchmarkError::validation("changed layout segment is missing")),
        };
        let left_at = name_position(candidate, left_name).unwrap();
        let right_at = name_position(candidate, right_name).unwrap();
        proof {
            lemma_first_position(source_names(segs), e.0);
            lemma_first_position(source_names(segs), e.1);
        }
        let (earlier, later) = if left_at < right_at { (left, right) } else { (right, left) };
        match (trust_rank(&analysis.segments[earlier].trust), trust_rank(&analysis.segments[later].trust)) {
            (Some(earlier_rank), Some(later_rank)) if earlier_rank <= later_rank => {},
            (Some(_), Some(_)) => {
                inverted = true;
            },
            _ => {
                unknown = true;
            },
        }
        proof {
            let t = trust_ranks(segs, order@, e);
            assert(t.0 == trust_rank_of(segs[earlier as int].trust));
            assert(t.1 == trust_rank_of(segs[later as int].trust));
        }
        k = k + 1;
    }
    proof {
        lemma_changed_pairs(segs, order@, n);
        let pn = pair_names(pairs@);
        assert(inverted == reordered_pair_with(segs, order@, false)) by {
            if inverted {
                let j = choose|j: int| 0 <= j < pn.len() && trust_inverted(segs, order@, #[trigger] pn[j]);
                assert(in_rows(segs, order@, n, pn[j]));
                let (a, b) = choose|a: int, b: int| 0 <= a < n && 0 <= b < n && #[trigger] relation_changed(segs, order@, a, b)
                    && pn[j] == names_of(segs, a, b);
                assert(relation_changed(segs, order@, a, b) && trust_inverted(segs, order@, names_of(segs, a, b)));
            }
            if reordered_pair_with(segs, order@, false) {
                let (a, b) = choose|a: int, b: int| 0 <= a < n && 0 <= b < n && #[trigger] relation_changed(segs, order@, a, b)
                    && trust_inverted(segs, order@, names_of(segs, a, b));
                assert(pn.contains(names_of(segs, a, b)));
                let j = choose|j: int| 0 <= j < pn.len() && pn[j] == names_of(segs, a, b);
                assert(trust_inverted(segs, order@, pn[j]));
            }
        }
        assert(unknown == reordered_pair_with(segs, order@, true)) by {
            if unknown {
                let j = choose|j: int| 0 <= j < pn.len() && trust_unknown(segs, order@, #[trigger] pn[j]);
                assert(in_rows(segs, order@, n, pn[j]));
                let (a, b) = choose|a: int, b: int| 0 <= a < n && 0 <= b < n && #[trigger] relation_changed(segs, order@, a, b)
                    && pn[j] == names_of(segs, a, b);
                assert(relation_changed(segs, order@, a, b) && trust_unknown(segs, order@, names_of(segs, a, b)));
            }
            if reordered_pair_with(segs, order@, true) {
                let (a, b) = choose|a: int, b: int| 0 <= a < n && 0 <= b < n && #[trigger] relation_changed(segs, order@, a, b)
                    && trust_unknown(segs, order@, names_of(segs, a, b));
                assert(pn.contains(names_of(segs, a, b)));
                let j = choose|j: int| 0 <= j < pn.len() && pn[j] == names_of(segs, a, b);
                assert(trust_unknown(segs, order@, pn[j]));
            }
        }
    }
    Ok((inverted, unknown))
}

/// The reasons, each once and in reason order, that make moving the
/// segments of `analysis` into `order` unsafe under `constraints`; none when
/// the move is safe to propose.
pub fn safety_reasons(
    analysis: &ContextStabilityAnalysis,
    order: &Vec<usize>,
    constraints: &LayoutPlanningConstraints,
) -> (r: Result<Vec<RejectionReason>, BenchmarkError>)
    requires
        is_permutation(order@, analysis.segments.len() as int),
        preserved_names_known(analysis.segments@, constraints.constraints@),
    ensures
        r matches Ok(v) && lists_reasons(
            v@,
            |x: RejectionReason| reason_holds(analysis.segments@, order@, constraints.constraints@, x),
            10,
        ),
{
    let ghost segs = analysis.segments@;
    let ghost cs = constraints.constraints@;
    let changed = changed_positions(order);
    let (unsupported, unknown_stability, missing_region, regions_differ) =
        moved_segment_checks(analysis, order, &changed, &constraints.constraints);
    let original = all_names(analysis);
    let candidate = positions_by_name(analysis, order);
    let (ordering, semantic, fixed, chronology, unknown_named) =
        constraint_checks(analysis, order, &changed, &original, &candidate, &constraints.constraints);
    let (inverted, unknown_trust) = match trust_checks(analysis, order, &candidate) {
        Ok(t) => t,
        Err(e) => return Err(e),
    };
    let no_benefit = changed.len() == 0;
    proof {
        if no_benefit {
            assert(!exists|p: int| #[trigger] moved(order@, p));
        } else {
            assert(moved(order@, changed@[0] as int));
        }
    }
    let ghost holds = |x: RejectionReason| reason_holds(segs, order@, cs, x);
    let mut reasons: Vec<RejectionReason> = Vec::new();
    push_reason(&mut reasons, ordering || regions_differ, RejectionReason::OrderingConstraint, Ghost(holds));
    push_reason(&mut reasons, semantic, RejectionReason::SemanticDependency, Ghost(holds));
    push_reason(&mut reasons, inverted, RejectionReason::TrustBoundary, Ghost(holds));
    push_reason(&mut reasons, unknown_stability || missing_region || unknown_named || unknown_trust,
        RejectionReason::UnknownMoveSafety, Ghost(holds));
    push_reason(&mut reasons, fixed, RejectionReason::FixedSegment, Ghost(holds));
    push_reason(&mut reasons, chronology, RejectionReason::WouldAlterChronology, Ghost(holds));
    push_reason(&mut reasons, no_benefit, RejectionReason::NoStructuralBenefit, Ghost(holds));
    push_reason(&mut reasons, false, RejectionReason::DuplicateCandidate, Ghost(holds));
    push_reason(&mut reasons, unsupported, RejectionReason::UnsupportedSegmentRegion, Ghost(holds));
    push_reason(&mut reasons, false, RejectionReason::CandidateLimitReached, Ghost(holds));
    Ok(reasons)
}

/// A reorder against which no reason stands is safe to propose: it moves
/// some segment; it moves only context artifacts of known stability, each
/// declared movable, all within one declared region; it keeps every declared
/// precedence, every fixed position a segment held, every preserved relative
/// order; it moves no segment of unknown move safety; and of every two
/// segments whose relative order it changes, the trust of both is known and
/// the one it puts first is trusted at least as much as the other.
pub proof fn law_unobjected_reorder_is_safe(
    segs: Seq<ContextSegmentAnalysis>,
    order: Seq<usize>,
    cs: Seq<OrderingConstraint>,
)
    requires
        is_permutation(order, segs.len() as int),
        forall|x: RejectionReason| !reason_holds(segs, order, cs, x),
    ensures
        exists|p: int| 0 <= p < order.len() && order[p] != p,
        forall|p: int| 0 <= p < order.len() && order[p] != p ==> {
            &&& segs[p].role == ContextRole::ContextArtifact
            &&& segs[p].stability != ArtifactStability::Unknown
            &&& region_at(segs, cs, p) is Some
        },
        forall|p: int, q: int| 0 <= p < order.len() && order[p] != p && 0 <= q < order.len() && order[q] != q
            ==> region_at(segs, cs, p) == region_at(segs, cs, q),
        forall|i: int| 0 <= i < cs.len() ==> match #[trigger] cs[i] {
            OrderingConstraint::MustPrecede { before, after } => precedes(order_names(segs, order), before@, after@),
            OrderingConstraint::MustFollow { segment, after } => precedes(order_names(segs, order), after@, segment@),
            OrderingConstraint::FixedPosition { segment, position } =>
                last_position(source_names(segs), segment@) == Some(position as int)
                ==> last_position(order_names(segs, order), segment@) == Some(position as int),
            OrderingConstraint::PreserveRelativeOrder { segments, .. } =>
                !relative_order_changed_in(source_names(segs), order_names(segs, order), views(segments@)),
            OrderingConstraint::Unknown { segment, .. } =>
                forall|p: int| 0 <= p < order.len() && order[p] != p ==> segs[p].structural_path@ != segment@,
            OrderingConstraint::MovableWithinCompatibleRegion { .. } => true,
        },
        forall|a: int, b: int| 0 <= a < segs.len() && 0 <= b < segs.len() && #[trigger] relation_changed(segs, order, a, b)
            ==> (trust_ranks(segs, order, names_of(segs, a, b)) matches (Some(first), Some(second)) && first <= second),
{
    let src = source_names(segs);
    let cand = order_names(segs, order);
    assert(!reason_holds(segs, order, cs, RejectionReason::NoStructuralBenefit));
    assert(!reason_holds(segs, order, cs, RejectionReason::UnsupportedSegmentRegion));
    assert(!reason_holds(segs, order, cs, RejectionReason::UnknownMoveSafety));
    assert(!reason_holds(segs, order, cs, RejectionReason::OrderingConstraint));
    assert(!reason_holds(segs, order, cs, RejectionReason::FixedSegment));
    assert(!reason_holds(segs, order, cs, RejectionReason::SemanticDependency));
    assert(!reason_holds(segs, order, cs, RejectionReason::WouldAlterChronology));
    assert(!reason_holds(segs, order, cs, RejectionReason::TrustBoundary));
    let p0 = choose|p: int| #[trigger] moved(order, p);
    assert(moved(order, p0));
    assert forall|p: int| 0 <= p < order.len() && order[p] != p implies {
        &&& segs[p].role == ContextRole::ContextArtifact
        &&& segs[p].stability != ArtifactStability::Unknown
        &&& region_at(segs, cs, p) is Some
    } by {
        assert(moved(order, p));
    }
    assert forall|p: int, q: int| 0 <= p < order.len() && order[p] != p && 0 <= q < order.len() && order[q] != q
        implies region_at(segs, cs, p) == region_at(segs, cs, q) by {
        assert(moved(order, p) && moved(order, q));
    }
    assert forall|i: int| 0 <= i < cs.len() implies match #[trigger] cs[i] {
        OrderingConstraint::MustPrecede { before, after } => precedes(cand, before@, after@),
        OrderingConstraint::MustFollow { segment, after } => precedes(cand, after@, segment@),
        OrderingConstraint::FixedPosition { segment, position } =>
            last_position(src, segment@) == Some(position as int)
            ==> last_position(cand, segment@) == Some(position as int),
        OrderingConstraint::PreserveRelativeOrder { segments, .. } =>
            !relative_order_changed_in(src, cand, views(segments@)),
        OrderingConstraint::Unknown { segment, .. } =>
            forall|p: int| 0 <= p < order.len() && order[p] != p ==> segs[p].structural_path@ != segment@,
        OrderingConstraint::MovableWithinCompatibleRegion { .. } => true,
    } by {
        assert(!precedence_broken(cand, cs[i]));
        assert(!fixed_position_broken(src, cand, cs[i]));
        assert(!relative_order_broken(src, cand, cs[i], true));
        assert(!relative_order_broken(src, cand, cs[i], false));
        assert(!unknown_segment_moved(segs, order, cs[i]));
        match cs[i] {
            OrderingConstraint::Unknown { segment, .. } => {
                assert forall|p: int| 0 <= p < order.len() && order[p] != p implies segs[p].structural_path@ != segment@ by {
                    assert(moved(order, p));
                }
            },
            OrderingConstraint::PreserveRelativeOrder { reason, .. } => {
                if reason is Chronology {
                    assert(!relative_order_broken(src, cand, cs[i], true));
                } else {
                    assert(!relative_order_broken(src, cand, cs[i], false));
                }
            },
            _ => {},
        }
    }
    assert forall|a: int, b: int| 0 <= a < segs.len() && 0 <= b < segs.len() && #[trigger] relation_changed(segs, order, a, b)
        implies (trust_ranks(segs, order, names_of(segs, a, b)) matches (Some(first), Some(second)) && first <= second) by {
        assert(!trust_inverted(segs, order, names_of(segs, a, b)));
        assert(!trust_unknown(segs, order, names_of(segs, a, b)));
    }
}

// ---------------------------------------------------------------------------
// Validation of a layout plan.

/// The segment names that a constraint refers to.
pub open spec fn constraint_names(c: OrderingConstraint) -> Seq<Seq<char>> {
    match c {
        OrderingConstraint::MustPrecede { before, after } => seq![before@, after@],
        OrderingConstraint::MustFollow { segment, after } => seq![segment@, after@],
        OrderingConstraint::FixedPosition { segment, .. } => seq![segment@],
        OrderingConstraint::PreserveRelativeOrder { segments, .. } => views(segments@),
        OrderingConstraint::MovableWithinCompatibleRegion { segment, .. } => seq![segment@],
        OrderingConstraint::Unknown { segment, .. } => seq![segment@],
    }
}

/// Every name that a constraint refers to is the name of a segment.
pub open spec fn references_known(segs: Seq<ContextSegmentAnalysis>, cs: Seq<OrderingConstraint>) -> bool {
    forall|i: int, k: int| 0 <= i < cs.len() && 0 <= k < constraint_names(cs[i]).len()
        ==> source_names(segs).contains(#[trigger] constraint_names(cs[i])[k])
}

pub(crate) proof fn lemma_last_position_contains(names: Seq<Seq<char>>, x: Seq<char>)
    ensures
        last_position(names, x) is Some <==> names.contains(x),
{
    lemma_last_position(names, x);
    if names.contains(x) {
        let k = choose|k: int| 0 <= k < names.len() && names[k] == x;
        assert(names[k] == x);
    }
}

/// Constraints whose names are all known name only segments in their
/// preserved relative orders.
pub proof fn lemma_known_references_preserved(segs: Seq<ContextSegmentAnalysis>, cs: Seq<OrderingConstraint>)
    requires
        references_known(segs, cs),
    ensures
        preserved_names_known(segs, cs),
{
    assert forall|i: int| 0 <= i < cs.len() implies names_known(segs, #[trigger] cs[i]) by {
        match cs[i] {
            OrderingConstraint::PreserveRelativeOrder { segments, .. } => {
                assert forall|k: int| 0 <= k < segments.len()
                    implies last_position(source_names(segs), (#[trigger] segments@[k])@) is Some by {
                    assert(constraint_names(cs[i])[k] == segments@[k]@);
                    lemma_last_position_contains(source_names(segs), segments@[k]@);
                }
            },
            _ => {},
        }
    }
}

/// The names that `constraint` refers to.
pub fn constraint_references(constraint: &OrderingConstraint) -> (r: Vec<String>)
    ensures
        views(r@) == constraint_names(*constraint),
{
    let r = match constraint {
        OrderingConstraint::MustPrecede { before, after } => vec![before.clone(), after.clone()],
        OrderingConstraint::MustFollow { segment, after } => vec![segment.clone(), after.clone()],
        OrderingConstraint::FixedPosition { segment, .. } => vec![segment.clone()],
        OrderingConstraint::PreserveRelativeOrder { segments, .. } => segments.clone(),
        OrderingConstraint::MovableWithinCompatibleRegion { segment, .. } => vec![segment.clone()],
        OrderingConstraint::Unknown { segment, .. } => vec![segment.clone()],
    };
    proof {
        assert(views(r@) =~= constraint_names(*constraint));
    }
    r
}

/// Checks that every constraint refers only to segments of the analysis.
pub fn validate_constraint_references(
    analysis: &ContextStabilityAnalysis,
    constraints: &LayoutPlanningConstraints,
) -> (r: Result<(), BenchmarkError>)
    ensures
        checked(r, references_known(analysis.segments@, constraints.constraints@)),
{
    let ghost segs = analysis.segments@;
    let ghost cs = constraints.constraints@;
    let known = all_names(analysis);
    let mut i: usize = 0;
    while i < constraints.constraints.len()
        invariant
            segs == analysis.segments@,
            cs == constraints.constraints@,
            views(known@) == source_names(segs),
            i <= cs.len(),
            forall|j: int, k: int| 0 <= j < i && 0 <= k < constraint_names(cs[j]).len()
                ==> source_names(segs).contains(#[trigger] constraint_names(cs[j])[k]),
        decreases cs.len() - i,
    {
        let references = constraint_references(&constraints.constraints[i]);
        let mut k: usize = 0;
        while k < references.len()
            invariant
                segs == analysis.segments@,
                cs == constraints.constraints@,
                views(known@) == source_names(segs),
                i < cs.len(),
                views(references@) == constraint_names(cs[i as int]),
                k <= references.len(),
                forall|j: int, m: int| 0 <= j < i && 0 <= m < constraint_names(cs[j]).len()
                    ==> source_names(segs).contains(#[trigger] constraint_names(cs[j])[m]),
                forall|m: int| 0 <= m < k ==> source_names(segs).contains(#[trigger] constraint_names(cs[i as int])[m]),
            decreases references.len() - k,
        {
            let found = name_position(&known, references[k].as_str());
            proof {
                lemma_last_position_contains(source_names(segs), references@[k as int]@);
                assert(constraint_names(cs[i as int])[k as int] == references@[k as int]@);
            }
            if found.is_none() {
                return Err(BenchmarkError::validation("layout constraint references an unknown segment"));
            }
            k = k + 1;
        }
        i = i + 1;
    }
    Ok(())
}

/// A complete, duplicate-free list of references to the `n` source segments,
/// with well-formed paths and fingerprints.
pub open spec fn segment_references_ok(refs: Seq<LayoutSegmentReference>, n: int) -> bool {
    &&& refs.len() == n
    &&& forall|i: int| 0 <= i < refs.len() ==> (#[trigger] refs[i]).source_position < n
        && layout_text(refs[i].structural_path@)
        && is_fingerprint(refs[i].content_fingerprint@)
        && (refs[i].metadata_fingerprint matches Some(f) ==> is_fingerprint(f@))
    &&& forall|i: int, j: int| 0 <= i < j < refs.len() ==> refs[i].source_position != refs[j].source_position
}

/// Checks that a candidate references every source segment exactly once,
/// with valid paths and fingerprints.
pub fn validate_segment_references(references: &Vec<LayoutSegmentReference>, expected_len: usize) -> (r: Result<(), BenchmarkError>)
    ensures
        checked(r, segment_references_ok(references@, expected_len as int)),
{
    if references.len() != expected_len {
        return Err(BenchmarkError::validation("candidate does not reference every source segment"));
    }
    let mut seen: Vec<bool> = Vec::new();
    let mut q: usize = 0;
    while q < expected_len
        invariant
            q <= expected_len,
            seen.len() == q,
            forall|k: int| 0 <= k < q ==> !seen@[k],
        decreases expected_len - q,
    {
        seen.push(false);
        q = q + 1;
    }
    let mut i: usize = 0;
    while i < references.len()
        invariant
            references.len() == expected_len,
            seen.len() == expected_len,
            i <= references.len(),
            forall|k: int| 0 <= k < i ==> (#[trigger] references@[k]).source_position < expected_len
                && layout_text(references@[k].structural_path@)
                && is_fingerprint(references@[k].content_fingerprint@)
                && (references@[k].metadata_fingerprint matches Some(f) ==> is_fingerprint(f@)),
            forall|k: int, m: int| 0 <= k < m < i ==> references@[k].source_position != references@[m].source_position,
            forall|p: int| 0 <= p < expected_len ==> (#[trigger] seen@[p] <==> exists|k: int| 0 <= k < i && references@[k].source_position == p),
        decreases references.len() - i,
    {
        let reference = &references[i];
        let position = reference.source_position;
        if position >= expected_len || seen[position] {
            return Err(BenchmarkError::validation("candidate segment references are not a permutation"));
        }
        seen.set(position, true);
        let r = validate_layout_text(reference.structural_path.as_str(), "candidate structural path");
        if r.is_err() {
            return r;
        }
        let r = validate_fingerprint(reference.content_fingerprint.as_str(), "candidate segment fingerprint");
        if r.is_err() {
            return r;
        }
        match &reference.metadata_fingerprint {
            Some(f) => {
                let r = validate_fingerprint(f.as_str(), "candidate segment metadata fingerprint");
                if r.is_err() {
                    return r;
                }
            },
            None => {},
        }
        proof {
            assert forall|k: int| 0 <= k < i implies references@[k].source_position != references@[i as int].source_position by {
                if references@[k].source_position == references@[i as int].source_position {
                    assert(seen@[position as int]);
                }
            }
        }
        i = i + 1;
    }
    Ok(())
}

/// The moved segments and their positions are listed in step, under valid names.
pub open spec fn transformation_ok(t: LayoutTransformation) -> bool {
    &&& t.moved_segments.len() == t.from_positions.len()
    &&& t.from_positions.len() == t.to_positions.len()
    &&& forall|i: int| 0 <= i < t.moved_segments.len() ==> layout_text((#[trigger] t.moved_segments@[i])@)
}

/// Checks that a transformation lists its moved segments and positions in
/// step, under valid names.
pub fn validate_transformation(transformation: &LayoutTransformation) -> (r: Result<(), BenchmarkError>)
    ensures
        checked(r, transformation_ok(*transformation)),
{
    if transformation.moved_segments.len() != transformation.from_positions.len()
        || transformation.from_positions.len() != transformation.to_positions.len()
    {
        return Err(BenchmarkError::validation("layout transformation positions are inconsistent"));
    }
    let mut i: usize = 0;
    while i < transformation.moved_segments.len()
        invariant
            i <= transformation.moved_segments.len(),
            forall|k: int| 0 <= k < i ==> layout_text((#[trigger] transformation.moved_segments@[k])@),
        decreases transformation.moved_segments.len() - i,
    {
        let r = validate_layout_text(transformation.moved_segments[i].as_str(), "transformation.segment");
        if r.is_err() {
            return r;
        }
        i = i + 1;
    }
    Ok(())
}

/// A proposed candidate: ordering-safe, well-formed, and with a request diff
/// from the plan's source request that leaves the cache impact unknown.
pub open spec fn candidate_ok(c: LayoutCandidate, source_fingerprint: Seq<char>, n: int) -> bool {
    &&& c.safety == CandidateSafetyStatus::OrderingSafeUnderDeclaredConstraints
    &&& is_fingerprint(c.layout_fingerprint@)
    &&& segment_references_ok(c.ordered_segments@, n)
    &&& c.resulting_analysis.analysis_ok()
    &&& c.request_diff.left_request_fingerprint@ == source_fingerprint
    &&& c.request_diff.prefix_diff.cache_impact == CacheImpactAssessment::Unknown
    &&& c.request_diff.envelope_diff.cache_impact == CacheImpactAssessment::Unknown
    &&& c.request_diff.cache_impact == CacheImpactAssessment::Unknown
}

/// A rejected candidate: not marked safe, with a reason and a well-formed
/// transformation and fingerprint.
pub open spec fn rejection_ok(c: RejectedLayoutCandidate) -> bool {
    &&& c.status != CandidateSafetyStatus::OrderingSafeUnderDeclaredConstraints
    &&& c.reasons.len() > 0
    &&& transformation_ok(c.transformation)
    &&& (c.attempted_layout_fingerprint matches Some(f) ==> is_fingerprint(f@))
}

impl ContextLayoutPlan {
    pub open spec fn plan_ok(self) -> bool {
        &&& self.schema_id@ == CONTEXT_LAYOUT_PLAN_SCHEMA_ID@
        &&& self.schema_version == CONTEXT_LAYOUT_PLAN_SCHEMA_VERSION
        &&& is_fingerprint(self.source_request_fingerprint@)
        &&& is_fingerprint(self.source_context_fingerprint@)
        &&& self.source_stability_analysis.analysis_ok()
        &&& self.constraints.constraints_ok()
        &&& references_known(self.source_stability_analysis.segments@, self.constraints.constraints@)
        &&& self.candidates.len() <= MAX_LAYOUT_CANDIDATES
        &&& self.rejected_candidates.len() <= MAX_LAYOUT_REJECTIONS
        &&& layout_provenance_ok(self.provenance@)
        &&& forall|i: int| 0 <= i < self.candidates.len() ==> candidate_ok(#[trigger] self.candidates@[i],
            self.source_request_fingerprint@, self.source_stability_analysis.segments.len() as int)
        &&& forall|i: int, j: int| 0 <= i < j < self.candidates.len() ==>
            self.candidates@[i].candidate_id@ != self.candidates@[j].candidate_id@
            && self.candidates@[i].layout_fingerprint@ != self.candidates@[j].layout_fingerprint@
        &&& forall|i: int| 0 <= i < self.rejected_candidates.len() ==> rejection_ok(#[trigger] self.rejected_candidates@[i])
    }

    /// Checks the schema, the fingerprints, the source analysis and
    /// constraints, the bounds, and each proposed and rejected candidate;
    /// proposed candidates must be distinct by identifier and by fingerprint.
    pub fn validate(&self) -> (r: Result<(), BenchmarkError>)
        ensures
            checked(r, self.plan_ok()),
    {
        if !str_eq(self.schema_id.as_str(), CONTEXT_LAYOUT_PLAN_SCHEMA_ID)
            || self.schema_version != CONTEXT_LAYOUT_PLAN_SCHEMA_VERSION
        {
            return Err(BenchmarkError::validation("unsupported context layout plan schema"));
        }
        let r = validate_fingerprint(self.source_request_fingerprint.as_str(), "source request fingerprint");
        if r.is_err() {
            return r;
        }
        let r = validate_fingerprint(self.source_context_fingerprint.as_str(), "source context fingerprint");
        if r.is_err() {
            return r;
        }
        let r = self.source_stability_analysis.validate();
        if r.is_err() {
            return r;
        }
        let r = self.constraints.validate();
        if r.is_err() {
            return r;
        }
        let r = validate_constraint_references(&self.source_stability_analysis, &self.constraints);
        if r.is_err() {
            return r;
        }
        if self.candidates.len() > MAX_LAYOUT_CANDIDATES || self.rejected_candidates.len() > MAX_LAYOUT_REJECTIONS {
            return Err(BenchmarkError::validation("context layout plan exceeds a candidate bound"));
        }
        let r = validate_layout_provenance(&self.provenance, "plan");
        if r.is_err() {
            return r;
        }
        let n = self.source_stability_analysis.segments.len();
        let mut i: usize = 0;
        while i < self.candidates.len()
            invariant
                n == self.source_stability_analysis.segments.len(),
                i <= self.candidates.len(),
                forall|k: int| 0 <= k < i ==> candidate_ok(#[trigger] self.candidates@[k],
                    self.source_request_fingerprint@, n as int),
                forall|k: int, m: int| 0 <= k < m < i ==>
                    self.candidates@[k].candidate_id@ != self.candidates@[m].candidate_id@
                    && self.candidates@[k].layout_fingerprint@ != self.candidates@[m].layout_fingerprint@,
            decreases self.candidates.len() - i,
        {
            let candidate = &self.candidates[i];
            if candidate.safety != CandidateSafetyStatus::OrderingSafeUnderDeclaredConstraints {
                return Err(BenchmarkError::validation("a proposed candidate must be ordering-safe"));
            }
            let mut k: usize = 0;
            while k < i
                invariant
                    i < self.candidates.len(),
                    *candidate == self.candidates@[i as int],
                    k <= i,
                    forall|m: int| 0 <= m < k ==>
                        self.candidates@[m].candidate_id@ != self.candidates@[i as int].candidate_id@
                        && self.candidates@[m].layout_fingerprint@ != self.candidates@[i as int].layout_fingerprint@,
                decreases i - k,
            {
                if str_eq(self.candidates[k].candidate_id.as_str(), candidate.candidate_id.as_str())
                    || str_eq(self.candidates[k].layout_fingerprint.as_str(), candidate.layout_fingerprint.as_str())
                {
                    return Err(BenchmarkError::validation("context layout candidates must be unique"));
                }
                k = k + 1;
            }
            let r = validate_fingerprint(candidate.layout_fingerprint.as_str(), "candidate layout fingerprint");
            if r.is_err() {
                return r;
            }
            let r = validate_segment_references(&candidate.ordered_segments, n);
            if r.is_err() {
                return r;
            }
            let r = candidate.resulting_analysis.validate();
            if r.is_err() {
                return r;
            }
            if !str_eq(candidate.request_diff.left_request_fingerprint.as_str(), self.source_request_fingerprint.as_str())
                || candidate.request_diff.prefix_diff.cache_impact != CacheImpactAssessment::Unknown
                || candidate.request_diff.envelope_diff.cache_impact != CacheImpactAssessment::Unknown
                || candidate.request_diff.cache_impact != CacheImpactAssessment::Unknown
            {
                return Err(BenchmarkError::validation("candidate request diff must preserve unknown cache impact"));
            }
            i = i + 1;
        }
        let mut i: usize = 0;
        while i < self.rejected_candidates.len()
            invariant
                i <= self.rejected_candidates.len(),
                forall|k: int| 0 <= k < i ==> rejection_ok(#[trigger] self.rejected_candidates@[k]),
            decreases self.rejected_candidates.len() - i,
        {
            let rejected = &self.rejected_candidates[i];
            if rejected.status == CandidateSafetyStatus::OrderingSafeUnderDeclaredConstraints {
                return Err(BenchmarkError::validation("a rejected candidate cannot be marked safe"));
            }
            if rejected.reasons.len() == 0 {
                return Err(BenchmarkError::validation("rejected candidate must have a reason"));
            }
            let r = validate_transformation(&rejected.transformation);
            if r.is_err() {
                return r;
            }
            match &rejected.attempted_layout_fingerprint {
                Some(f) => {
                    let r = validate_fingerprint(f.as_str(), "attempted layout fingerprint");
                    if r.is_err() {
                        return r;
                    }
                },
                None => {},
            }
            i = i + 1;
        }
        Ok(())
    }
}

// ---------------------------------------------------------------------------
// Proposing a reorder and describing it.

/// The positions `0..n` in order.
pub open spec fn identity_order(n: int) -> Seq<usize> {
    Seq::new(n as nat, |i: int| i as usize)
}

/// How far left of `left` a segment moving in front of `left` goes: past
/// every directly preceding context artifact whose known stability ranks
/// above `right_rank`.
pub open spec fn region_start(segs: Seq<ContextSegmentAnalysis>, left: int, right_rank: int) -> int
    decreases left,
{
    if left > 0 && left - 1 < segs.len() && segs[left - 1].role == ContextRole::ContextArtifact
        && (stability_rank_of(segs[left - 1].stability) matches Some(k) && k > right_rank)
    {
        region_start(segs, left - 1, right_rank)
    } else {
        left
    }
}

/// The order that moving across the boundary between `left` and `right`
/// proposes: a swap of the two, or, for a region move between two context
/// artifacts, the right one moved to the start of the region before `left`.
pub open spec fn proposed_order_of(
    segs: Seq<ContextSegmentAnalysis>,
    left: int,
    right: int,
    kind: LayoutTransformationKind,
    right_rank: int,
) -> Seq<usize> {
    let n = segs.len() as int;
    if kind == LayoutTransformationKind::AdjacentSwap
        || segs[left].role != ContextRole::ContextArtifact || segs[right].role != ContextRole::ContextArtifact
    {
        identity_order(n).update(left, right as usize).update(right, left as usize)
    } else {
        identity_order(n).remove(right).insert(region_start(segs, left, right_rank), right as usize)
    }
}

/// Whether a region move across this boundary needs the right segment's
/// stability, and it is unknown.
pub open spec fn region_move_unranked(segs: Seq<ContextSegmentAnalysis>, left: int, right: int, kind: LayoutTransformationKind) -> bool {
    &&& kind == LayoutTransformationKind::RegionLocalMove
    &&& segs[left].role == ContextRole::ContextArtifact
    &&& segs[right].role == ContextRole::ContextArtifact
    &&& stability_rank_of(segs[right].stability) is None
}

/// The segment at `position` is a context artifact whose known stability
/// ranks above `right_rank`.
fn extends_region(analysis: &ContextStabilityAnalysis, position: usize, right_rank: u8) -> (r: bool)
    ensures
        r == (position < analysis.segments.len()
            && analysis.segments@[position as int].role == ContextRole::ContextArtifact
            && (stability_rank_of(analysis.segments@[position as int].stability) matches Some(k) && k > right_rank)),
{
    is_artifact_position(analysis, position) && match stability_rank(&analysis.segments[position].stability) {
        Some(rank) => rank > right_rank,
        None => false,
    }
}

/// The order proposed by moving across `boundary` in the way `kind` names.
pub fn proposed_order(
    analysis: &ContextStabilityAnalysis,
    boundary: &StabilityBoundary,
    kind: LayoutTransformationKind,
) -> (r: Result<Vec<usize>, BenchmarkError>)
    requires
        boundary.left_segment < analysis.segments.len(),
        boundary.right_segment < analysis.segments.len(),
    ensures
        match r {
            Ok(order) => !region_move_unranked(analysis.segments@, boundary.left_segment as int, boundary.right_segment as int, kind)
                && order@ == proposed_order_of(analysis.segments@, boundary.left_segment as int, boundary.right_segment as int, kind,
                    stability_rank_of(analysis.segments@[boundary.right_segment as int].stability).unwrap()),
            Err(e) => region_move_unranked(analysis.segments@, boundary.left_segment as int, boundary.right_segment as int, kind)
                && (e matches BenchmarkError::Validation { path, message }
                    && path@ == "<in-memory>"@ && message@ == "region move requires known right stability"@),
        },
{
    let ghost segs = analysis.segments@;
    let n = analysis.segments.len();
    let mut order: Vec<usize> = Vec::new();
    let mut i: usize = 0;
    while i < n
        invariant
            i <= n,
            n == analysis.segments.len(),
            order@ == identity_order(i as int),
        decreases n - i,
    {
        order.push(i);
        i = i + 1;
        proof {
            assert(order@ =~= identity_order(i as int));
        }
    }
    let left = boundary.left_segment;
    let right = boundary.right_segment;
    if kind == LayoutTransformationKind::AdjacentSwap
        || !is_artifact_position(analysis, left) || !is_artifact_position(analysis, right)
    {
        let a = order[left];
        let b = order[right];
        order.set(left, b);
        order.set(right, a);
        return Ok(order);
    }
    let right_rank = match stability_rank(&analysis.segments[right].stability) {
        Some(rank) => rank,
        None => return Err(BenchmarkError::validation("region move requires known right stability")),
    };
    let mut start = left;
    while start > 0 && extends_region(analysis, start - 1, right_rank)
        invariant
            segs == analysis.segments@,
            start <= left < segs.len(),
            region_start(segs, start as int, right_rank as int) == region_start(segs, left as int, right_rank as int),
        decreases start,
    {
        start = start - 1;
    }
    let moved = order.remove(right);
    order.insert(start, moved);
    Ok(order)
}

/// The last position of `order` that holds `p`: where a map from source to
/// new position, filled in new-position order, puts `p`.
pub open spec fn new_position(order: Seq<usize>, p: int) -> Option<int>
    decreases order.len(),
{
    if order.len() == 0 {
        None
    } else if order.last() as int == p {
        Some(order.len() - 1)
    } else {
        new_position(order.drop_last(), p)
    }
}

pub(crate) proof fn lemma_new_position(order: Seq<usize>, p: int)
    ensures
        new_position(order, p) is Some <==> occurs(order, p),
        new_position(order, p) matches Some(j) ==> 0 <= j < order.len() && order[j] == p,
    decreases order.len(),
{
    if order.len() > 0 {
        let d = order.drop_last();
        lemma_new_position(d, p);
        assert(forall|k: int| 0 <= k < d.len() ==> d[k] == order[k]);
        if occurs(order, p) && order.last() as int != p {
            let j = choose|j: int| 0 <= j < order.len() && order[j] == p;
            assert(d[j] == p);
        }
    }
}

pub(crate) fn new_position_of(order: &Vec<usize>, p: usize) -> (r: Option<usize>)
    ensures
        position_view(r) == new_position(order@, p as int),
{
    let mut found: Option<usize> = None;
    let mut j: usize = 0;
    while j < order.len()
        invariant
            j <= order.len(),
            position_view(found) == new_position(order@.take(j as int), p as int),
        decreases order.len() - j,
    {
        proof {
            assert(order@.take(j + 1).drop_last() =~= order@.take(j as int));
        }
        if order[j] == p {
            found = Some(j);
        }
        j = j + 1;
    }
    proof {
        assert(order@.take(order.len() as int) =~= order@);
    }
    found
}

/// The segments that `order` moves, taking the source positions in the
/// order `sources` lists them: their names, source positions and new
/// positions.
pub open spec fn moves_listed(
    segs: Seq<ContextSegmentAnalysis>,
    order: Seq<usize>,
    sources: Seq<usize>,
) -> (Seq<Seq<char>>, Seq<usize>, Seq<usize>)
    decreases sources.len(),
{
    if sources.len() == 0 {
        (Seq::empty(), Seq::empty(), Seq::empty())
    } else {
        let prev = moves_listed(segs, order, sources.drop_last());
        let p = sources.last();
        let to = new_position(order, p as int).unwrap();
        if p as int != to {
            (prev.0.push(segs[p as int].structural_path@), prev.1.push(p), prev.2.push(to as usize))
        } else {
            prev
        }
    }
}

/// Describes the reorder from `source_order` to `order` as a transformation
/// of the given kind; fails when a source position has no place in `order`.
pub fn transformation_for_order(
    analysis: &ContextStabilityAnalysis,
    source_order: &Vec<usize>,
    order: &Vec<usize>,
    kind: LayoutTransformationKind,
) -> (r: Result<LayoutTransformation, BenchmarkError>)
    requires
        is_permutation(order@, analysis.segments.len() as int),
    ensures
        match r {
            Ok(t) => (forall|k: int| 0 <= k < source_order.len() ==> occurs(order@, #[trigger] source_order@[k] as int))
                && t.kind == kind
                && views(t.moved_segments@) == moves_listed(analysis.segments@, order@, source_order@).0
                && t.from_positions@ == moves_listed(analysis.segments@, order@, source_order@).1
                && t.to_positions@ == moves_listed(analysis.segments@, order@, source_order@).2,
            Err(e) => (exists|k: int| 0 <= k < source_order.len() && !occurs(order@, #[trigger] source_order@[k] as int))
                && (e matches BenchmarkError::Validation { path, message }
                    && path@ == "<in-memory>"@ && message@ == "candidate layout is not a permutation"@),
        },
{
    let ghost segs = analysis.segments@;
    let mut moved_segments: Vec<String> = Vec::new();
    let mut from_positions: Vec<usize> = Vec::new();
    let mut to_positions: Vec<usize> = Vec::new();
    let mut k: usize = 0;
    while k < source_order.len()
        invariant
            segs == analysis.segments@,
            is_permutation(order@, segs.len() as int),
            k <= source_order.len(),
            forall|m: int| 0 <= m < k ==> occurs(order@, #[trigger] source_order@[m] as int),
            views(moved_segments@) == moves_listed(segs, order@, source_order@.take(k as int)).0,
            from_positions@ == moves_listed(segs, order@, source_order@.take(k as int)).1,
            to_positions@ == moves_listed(segs, order@, source_order@.take(k as int)).2,
        decreases source_order.len() - k,
    {
        let source_position = source_order[k];
        proof {
            assert(source_order@.take(k + 1).drop_last() =~= source_order@.take(k as int));
            lemma_new_position(order@, source_position as int);
        }
        let new_position = match new_position_of(order, source_position) {
            Some(p) => p,
            None => return Err(BenchmarkError::validation("candidate layout is not a permutation")),
        };
        proof {
            assert(source_position < segs.len());
        }
        if source_position != new_position {
            let ghost before = moved_segments@;
            moved_segments.push(segment_name(&analysis.segments[source_position]));
            from_positions.push(source_position);
            to_positions.push(new_position);
            proof {
                assert(views(moved_segments@) =~= views(before).push(segs[source_position as int].structural_path@));
            }
        }
        k = k + 1;
    }
    proof {
        assert(source_order@.take(source_order.len() as int) =~= source_order@);
    }
    Ok(LayoutTransformation { kind, moved_segments, from_positions, to_positions })
}

/// How many findings of `s` are stability inversions.
pub open spec fn inversion_count(s: Seq<StabilityFinding>) -> nat
    decreases s.len(),
{
    if s.len() == 0 {
        0
    } else {
        inversion_count(s.drop_last()) + if s.last().kind == StabilityFindingKind::StabilityInversion { 1nat } else { 0nat }
    }
}

/// How many boundaries of `s` are unclassified.
pub open spec fn unknown_boundary_count(s: Seq<StabilityBoundary>) -> nat
    decreases s.len(),
{
    if s.len() == 0 {
        0
    } else {
        unknown_boundary_count(s.drop_last()) + if s.last().classification == BoundaryClassification::Unknown { 1nat } else { 0nat }
    }
}

/// The structural measures of an analysed layout: its stability
/// inversions, its stability-aligned leading segments, and its unclassified
/// boundaries.
pub fn layout_metrics(analysis: &ContextStabilityAnalysis) -> (r: LayoutStructuralMetrics)
    ensures
        r.inversion_count == inversion_count(analysis.findings@),
        r.stability_aligned_leading_segments == analysis.leading_region.segment_count,
        r.unknown_boundary_count == unknown_boundary_count(analysis.boundaries@),
{
    let mut inversions: usize = 0;
    let mut i: usize = 0;
    while i < analysis.findings.len()
        invariant
            i <= analysis.findings.len(),
            inversions == inversion_count(analysis.findings@.take(i as int)),
            inversions <= i,
        decreases analysis.findings.len() - i,
    {
        proof {
            assert(analysis.findings@.take(i + 1).drop_last() =~= analysis.findings@.take(i as int));
        }
        if analysis.findings[i].kind == StabilityFindingKind::StabilityInversion {
            inversions = inversions + 1;
        }
        i = i + 1;
    }
    let mut unknown: usize = 0;
    let mut i: usize = 0;
    while i < analysis.boundaries.len()
        invariant
            i <= analysis.boundaries.len(),
            unknown == unknown_boundary_count(analysis.boundaries@.take(i as int)),
            unknown <= i,
        decreases analysis.boundaries.len() - i,
    {
        proof {
            assert(analysis.boundaries@.take(i + 1).drop_last() =~= analysis.boundaries@.take(i as int));
        }
        if analysis.boundaries[i].classification == BoundaryClassification::Unknown {
            unknown = unknown + 1;
        }
        i = i + 1;
    }
    proof {
        assert(analysis.findings@.take(analysis.findings.len() as int) =~= analysis.findings@);
        assert(analysis.boundaries@.take(analysis.boundaries.len() as int) =~= analysis.boundaries@);
    }
    LayoutStructuralMetrics {
        inversion_count: inversions,
        stability_aligned_leading_segments: analysis.leading_region.segment_count,
        unknown_boundary_count: unknown,
    }
}

fn copy_metrics(m: &LayoutStructuralMetrics) -> (r: LayoutStructuralMetrics)
    ensures
        r == *m,
{
    LayoutStructuralMetrics {
        inversion_count: m.inversion_count,
        stability_aligned_leading_segments: m.stability_aligned_leading_segments,
        unknown_boundary_count: m.unknown_boundary_count,
    }
}

/// The structural effect of a reorder: the measures before and after, how
/// many segments it moves, and how many relative orders it changes.
pub fn structural_effect(
    source: &LayoutStructuralMetrics,
    candidate: &LayoutStructuralMetrics,
    transformation: &LayoutTransformation,
    analysis: &ContextStabilityAnalysis,
    order: &Vec<usize>,
) -> (r: StructuralLayoutEffect)
    requires
        is_permutation(order@, analysis.segments.len() as int),
    ensures
        r.source == *source,
        r.candidate == *candidate,
        r.moved_segment_count == transformation.moved_segments.len(),
        r.changed_relative_relationships == changed_pairs(analysis.segments@, order@, analysis.segments.len() as int).len(),
{
    StructuralLayoutEffect {
        source: copy_metrics(source),
        candidate: copy_metrics(candidate),
        moved_segment_count: transformation.moved_segments.len(),
        changed_relative_relationships: changed_relative_relationship_count(analysis, order),
    }
}

/// Why a candidate is proposed: the structural gains it makes, then the
/// guarantees every proposed candidate carries.
pub open spec fn planning_reasons_of(effect: StructuralLayoutEffect) -> Seq<PlanningReason> {
    (if effect.candidate.inversion_count < effect.source.inversion_count {
        seq![PlanningReason::RemovesStabilityInversion]
    } else {
        Seq::empty()
    }) + (if effect.candidate.stability_aligned_leading_segments > effect.source.stability_aligned_leading_segments {
        seq![PlanningReason::IncreasesStabilityAlignedLeadingRegion]
    } else {
        Seq::empty()
    }) + seq![
        PlanningReason::PreservesDeclaredOrdering,
        PlanningReason::TrustBoundaryPreserved,
        PlanningReason::NoRuntimeEvidenceAttached,
    ]
}

/// The reasons for proposing a candidate with this structural effect.
pub fn planning_reasons(effect: &StructuralLayoutEffect) -> (r: Vec<PlanningReason>)
    ensures
        r@ == planning_reasons_of(*effect),
{
    let mut reasons: Vec<PlanningReason> = Vec::new();
    if effect.candidate.inversion_count < effect.source.inversion_count {
        reasons.push(PlanningReason::RemovesStabilityInversion);
    }
    if effect.candidate.stability_aligned_leading_segments > effect.source.stability_aligned_leading_segments {
        reasons.push(PlanningReason::IncreasesStabilityAlignedLeadingRegion);
    }
    reasons.push(PlanningReason::PreservesDeclaredOrdering);
    reasons.push(PlanningReason::TrustBoundaryPreserved);
    reasons.push(PlanningReason::NoRuntimeEvidenceAttached);
    proof {
        assert(reasons@ =~= planning_reasons_of(*effect));
    }
    reasons
}

/// Records a rejected candidate while fewer than the bound are recorded.
pub fn push_rejection(rejected: &mut Vec<RejectedLayoutCandidate>, candidate: RejectedLayoutCandidate)
    ensures
        final(rejected)@ == if old(rejected).len() < MAX_LAYOUT_REJECTIONS {
            old(rejected)@.push(candidate)
        } else {
            old(rejected)@
        },
{
    if rejected.len() < MAX_LAYOUT_REJECTIONS {
        rejected.push(candidate);
    }
}

proof fn lemma_region_start_bounds(segs: Seq<ContextSegmentAnalysis>, left: int, right_rank: int)
    requires
        0 <= left,
    ensures
        0 <= region_start(segs, left, right_rank) <= left,
    decreases left,
{
    if left > 0 && left - 1 < segs.len() && segs[left - 1].role == ContextRole::ContextArtifact
        && (stability_rank_of(segs[left - 1].stability) matches Some(k) && k > right_rank)
    {
        lemma_region_start_bounds(segs, left - 1, right_rank);
    }
}

/// Every order proposed across a boundary between two segments lists each
/// segment exactly once.
pub proof fn law_proposed_order_is_permutation(
    segs: Seq<ContextSegmentAnalysis>,
    left: int,
    right: int,
    kind: LayoutTransformationKind,
    right_rank: int,
)
    requires
        0 <= left < segs.len(),
        0 <= right < segs.len(),
        segs.len() <= usize::MAX,
    ensures
        is_permutation(proposed_order_of(segs, left, right, kind, right_rank), segs.len() as int),
{
    let n = segs.len() as int;
    let id = identity_order(n);
    let order = proposed_order_of(segs, left, right, kind, right_rank);
    if kind == LayoutTransformationKind::AdjacentSwap
        || segs[left].role != ContextRole::ContextArtifact || segs[right].role != ContextRole::ContextArtifact
    {
        assert(order == id.update(left, right as usize).update(right, left as usize));
        assert forall|j: int| 0 <= j < n implies (#[trigger] order[j]) < n by {}
        assert forall|p: int| 0 <= p < n implies #[trigger] occurs(order, p) by {
            if p == left {
                assert(order[right] == p);
            } else if p == right {
                assert(order[left] == p);
            } else {
                assert(order[p] == p);
            }
        }
    } else {
        let start = region_start(segs, left, right_rank);
        lemma_region_start_bounds(segs, left, right_rank);
        let rest = id.remove(right);
        assert(rest.len() == n - 1);
        assert forall|k: int| 0 <= k < n - 1 implies #[trigger] rest[k] == (if k < right { k } else { k + 1 }) by {}
        assert(order == rest.insert(start, right as usize));
        assert forall|j: int| 0 <= j < n implies #[trigger] order[j] == (if j < start {
            rest[j] as int
        } else if j == start {
            right
        } else {
            rest[j - 1] as int
        }) by {}
        assert forall|j: int| 0 <= j < n implies (#[trigger] order[j]) < n by {
            assert(order[j] == (if j < start { rest[j] as int } else if j == start { right } else { rest[j - 1] as int }));
        }
        assert forall|i: int, j: int| 0 <= i < j < n implies order[i] != order[j] by {
            assert(order[i] == (if i < start { rest[i] as int } else if i == start { right } else { rest[i - 1] as int }));
            assert(order[j] == (if j < start { rest[j] as int } else if j == start { right } else { rest[j - 1] as int }));
        }
        assert forall|p: int| 0 <= p < n implies #[trigger] occurs(order, p) by {
            if p == right {
                assert(order[start] == p);
            } else {
                let k = if p < right { p } else { p - 1 };
                assert(rest[k] == p);
                if k < start {
                    assert(order[k] == p);
                } else {
                    assert(order[k + 1] == p);
                }
            }
        }
    }
}

proof fn lemma_region_start_passes(segs: Seq<ContextSegmentAnalysis>, left: int, right_rank: int)
    requires
        0 <= left <= segs.len(),
    ensures
        0 <= region_start(segs, left, right_rank) <= left,
        forall|p: int| region_start(segs, left, right_rank) <= p < left ==> (#[trigger] segs[p]).role == ContextRole::ContextArtifact
            && (stability_rank_of(segs[p].stability) matches Some(k) && k > right_rank),
        region_start(segs, left, right_rank) > 0 ==> !({
            let q = segs[region_start(segs, left, right_rank) - 1];
            q.role == ContextRole::ContextArtifact && (stability_rank_of(q.stability) matches Some(k) && k > right_rank)
        }),
    decreases left,
{
    if left > 0 && left - 1 < segs.len() && segs[left - 1].role == ContextRole::ContextArtifact
        && (stability_rank_of(segs[left - 1].stability) matches Some(k) && k > right_rank)
    {
        lemma_region_start_passes(segs, left - 1, right_rank);
    }
}

/// A region move across the boundary between two context artifacts, from a
/// less stable left artifact to the right one, carries the right segment
/// only past the directly preceding context artifacts that are strictly
/// less stable than it (by known stability rank): every segment it passes
/// is such an artifact, the segment just before its new place is not (an
/// equally stable artifact keeps its place in front of it), and every
/// other segment keeps its relative order.
pub proof fn law_region_move_passes_only_less_stable_artifacts(
    segs: Seq<ContextSegmentAnalysis>,
    left: int,
    right_rank: int,
)
    requires
        0 <= left,
        left + 1 < segs.len(),
        segs.len() <= usize::MAX,
        segs[left].role == ContextRole::ContextArtifact,
        segs[left + 1].role == ContextRole::ContextArtifact,
        stability_rank_of(segs[left].stability) matches Some(k) && k > right_rank,
    ensures
        ({
            let order = proposed_order_of(segs, left, left + 1, LayoutTransformationKind::RegionLocalMove, right_rank);
            &&& order.len() == segs.len()
            &&& exists|s: int| 0 <= s <= left && order[s] == left + 1
                && (forall|j: int| 0 <= j < s ==> #[trigger] order[j] == j)
                && (forall|j: int| s < j <= left + 1 ==> #[trigger] order[j] == j - 1)
                && (forall|j: int| left + 1 < j < segs.len() ==> #[trigger] order[j] == j)
                && (forall|p: int| s <= p <= left ==> (#[trigger] segs[p]).role == ContextRole::ContextArtifact
                    && (stability_rank_of(segs[p].stability) matches Some(k) && k > right_rank))
                && (s > 0 ==> !(segs[s - 1].role == ContextRole::ContextArtifact
                    && (stability_rank_of(segs[s - 1].stability) matches Some(k) && k > right_rank)))
        }),
{
    let n = segs.len() as int;
    let right = left + 1;
    let order = proposed_order_of(segs, left, right, LayoutTransformationKind::RegionLocalMove, right_rank);
    let start = region_start(segs, left, right_rank);
    lemma_region_start_passes(segs, left, right_rank);
    let id = identity_order(n);
    let rest = id.remove(right);
    assert forall|k: int| 0 <= k < n - 1 implies #[trigger] rest[k] == (if k < right { k } else { k + 1 }) by {}
    assert(order == rest.insert(start, right as usize));
    assert(order[start] == right);
    assert forall|j: int| 0 <= j < start implies #[trigger] order[j] == j by {
        assert(order[j] == rest[j]);
    }
    assert forall|j: int| start < j <= left + 1 implies #[trigger] order[j] == j - 1 by {
        assert(order[j] == rest[j - 1]);
    }
    assert forall|j: int| left + 1 < j < n implies #[trigger] order[j] == j by {
        assert(order[j] == rest[j - 1]);
    }
    assert forall|p: int| start <= p <= left implies (#[trigger] segs[p]).role == ContextRole::ContextArtifact
        && (stability_rank_of(segs[p].stability) matches Some(k) && k > right_rank) by {}
}

/// An adjacent swap exchanges the two segments of the boundary and keeps
/// every other segment in place.
pub proof fn law_adjacent_swap_exchanges_only_the_boundary(
    segs: Seq<ContextSegmentAnalysis>,
    left: int,
    right: int,
    right_rank: int,
)
    requires
        0 <= left < segs.len(),
        0 <= right < segs.len(),
        left != right,
        segs.len() <= usize::MAX,
    ensures
        ({
            let order = proposed_order_of(segs, left, right, LayoutTransformationKind::AdjacentSwap, right_rank);
            &&& order.len() == segs.len()
            &&& order[left] == right
            &&& order[right] == left
            &&& forall|j: int| 0 <= j < segs.len() && j != left && j != right ==> #[trigger] order[j] == j
        }),
{
}

} // verus!
