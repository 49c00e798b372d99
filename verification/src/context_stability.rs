//! Context stability analysis: how stable each segment of a request
//! context is, and where stability changes between adjacent segments.
use vstd::prelude::*;
use crate::error::{checked, in_memory_validation, BenchmarkError};
use crate::fields::{bounded_text, check_bounded_text};
use crate::layout_planner::{stability_rank, stability_rank_of};
use crate::text::{concat2, owned, str_eq};

verus! {

pub const CONTEXT_STABILITY_SCHEMA_ID: &'static str = "prefixity.context-stability-analysis";
pub const CONTEXT_STABILITY_SCHEMA_VERSION: u32 = 1;
pub const MAX_STABILITY_SEGMENTS: usize = 256;
pub const MAX_STABILITY_BOUNDARIES: usize = 255;
pub const MAX_STABILITY_FINDINGS: usize = 256;
pub const MAX_STABILITY_PROVENANCE: usize = 16;
pub const MAX_STABILITY_TEXT_BYTES: usize = 512;

/// A value that an observation established, could not establish, or did
/// not look at.
#[derive(Debug, Clone, PartialEq, Eq)]
pub enum Observed<T> {
    Known(T),
    Unknown,
    NotObserved,
}

/// How much a context artifact is expected to change between requests.
#[derive(Debug, Clone, Copy, PartialEq, Eq, Structural)]
pub enum ArtifactStability {
    Immutable,
    Stable,
    AppendOnly,
    Volatile,
    Unknown,
}

/// How far the source of a context artifact is trusted.
#[derive(Debug, Clone, Copy, PartialEq, Eq, Structural)]
pub enum TrustLevel {
    Trusted,
    Mixed,
    Untrusted,
    Unknown,
}

#[derive(Debug, Clone, Copy, PartialEq, Eq, PartialOrd, Ord, Structural)]
pub enum ContextRole {
    SystemInstruction,
    ContextArtifact,
    CurrentUserTask,
    ToolDefinition,
}

#[derive(Debug, Clone, Copy, PartialEq, Eq, Structural)]
pub enum ClassificationSource {
    ExplicitMetadata,
    StructuralRole,
    DerivedRule,
    Unknown,
}

#[derive(Debug, Clone, Copy, PartialEq, Eq, Structural)]
pub enum SizeSource {
    ExplicitMetadata,
    StructuralRequestBytes,
    Unknown,
}

#[derive(Debug, Clone, Copy, PartialEq, Eq, Structural)]
pub enum BoundaryDirection {
    TowardMoreStable,
    TowardMoreVolatile,
    NoKnownMovement,
    Unknown,
}

#[derive(Debug, Clone, Copy, PartialEq, Eq, Structural)]
pub enum BoundaryClassification {
    Classified,
    Unknown,
}

#[derive(Debug, Clone, Copy, PartialEq, Eq, Structural)]
pub enum StabilityFindingKind {
    StabilityInversion,
    UnknownStabilitySegment,
    VolatileBeforeStable,
    AppendOnlyRegion,
    TransientStableSegment,
}

/// One analysed segment of a request context, by its position in the
/// context. It holds what the analysis and layout planning read of a
/// segment: of its lifecycle, whether it is transient; of its size record,
/// its byte size. Its token size is not held here.
#[derive(Debug, Clone, PartialEq, Eq)]
pub struct ContextSegmentAnalysis {
    pub position: usize,
    pub structural_path: String,
    pub component_id: Option<String>,
    pub role: ContextRole,
    pub stability: ArtifactStability,
    pub transient: bool,
    pub byte_size: Observed<u64>,
    pub classification_source: ClassificationSource,
    pub trust: Observed<TrustLevel>,
    pub artifact_id: Option<String>,
    pub content_fingerprint: String,
    pub size_source: SizeSource,
}

/// The boundary between the segments at `left_segment` and `right_segment`.
/// The two segments' lifecycles are not held here.
#[derive(Debug, Clone, PartialEq, Eq)]
pub struct StabilityBoundary {
    pub position: usize,
    pub left_segment: usize,
    pub right_segment: usize,
    pub left_stability: ArtifactStability,
    pub right_stability: ArtifactStability,
    pub direction: BoundaryDirection,
    pub classification: BoundaryClassification,
}

#[derive(Debug, Clone, PartialEq, Eq)]
pub struct StabilityFinding {
    pub kind: StabilityFindingKind,
    pub segment: Option<usize>,
    pub boundary: Option<usize>,
}

#[derive(Debug, Clone, Copy, PartialEq, Eq, Structural)]
pub enum LeadingRegionLimit {
    Complete,
    Empty,
    LimitedByUnknown,
    LimitedByStabilityInversion,
}

#[derive(Debug, Clone, PartialEq, Eq)]
pub struct StabilityAlignedLeadingRegion {
    pub segment_count: usize,
    pub known_byte_size: Observed<u64>,
    pub limit: LeadingRegionLimit,
}

#[derive(Debug, Clone, PartialEq, Eq)]
pub struct StabilitySummary {
    pub immutable_segments: usize,
    pub stable_segments: usize,
    pub append_only_segments: usize,
    pub volatile_segments: usize,
    pub unknown_segments: usize,
    pub known_stable_bytes: u64,
    pub known_append_only_bytes: u64,
    pub known_volatile_bytes: u64,
    pub known_immutable_bytes: u64,
    pub known_bytes_total: u64,
    pub unknown_bytes: Observed<u64>,
    pub unknown_size_segments: usize,
    pub token_units: Observed<u64>,
}

/// The stability analysis of one request context. `provenance` is a map,
/// held as key/value pairs in key order.
#[derive(Debug, Clone, PartialEq, Eq)]
pub struct ContextStabilityAnalysis {
    pub schema_id: String,
    pub schema_version: u32,
    pub request_fingerprint: String,
    pub context_fingerprint: String,
    pub segments: Vec<ContextSegmentAnalysis>,
    pub boundaries: Vec<StabilityBoundary>,
    pub leading_region: StabilityAlignedLeadingRegion,
    pub summary: StabilitySummary,
    pub findings: Vec<StabilityFinding>,
    pub provenance: Vec<(String, String)>,
}

/// Not blank and at most `MAX_STABILITY_TEXT_BYTES` bytes.
pub open spec fn stability_text(s: Seq<char>) -> bool {
    bounded_text(s, MAX_STABILITY_TEXT_BYTES as int)
}

impl ContextStabilityAnalysis {
    /// Segments sit at their own positions and carry a fingerprint.
    pub open spec fn segments_ok(self) -> bool {
        forall|i: int| 0 <= i < self.segments.len() ==> (#[trigger] self.segments@[i]).position == i
            && self.segments@[i].content_fingerprint@.len() > 0
    }

    /// Boundary `i` lies between segments `i` and `i + 1`.
    pub open spec fn boundaries_ok(self) -> bool {
        forall|i: int| 0 <= i < self.boundaries.len() ==> (#[trigger] self.boundaries@[i]).position == i
            && self.boundaries@[i].left_segment == i && self.boundaries@[i].right_segment == i + 1
    }

    pub open spec fn analysis_ok(self) -> bool {
        &&& self.schema_id@ == CONTEXT_STABILITY_SCHEMA_ID@
        &&& self.schema_version == CONTEXT_STABILITY_SCHEMA_VERSION
        &&& 0 < self.segments.len() <= MAX_STABILITY_SEGMENTS
        &&& self.boundaries.len() <= MAX_STABILITY_BOUNDARIES
        &&& self.findings.len() <= MAX_STABILITY_FINDINGS
        &&& self.provenance.len() <= MAX_STABILITY_PROVENANCE
        &&& forall|i: int| 0 <= i < self.provenance.len() ==>
            stability_text((#[trigger] self.provenance@[i]).0@) && stability_text(self.provenance@[i].1@)
        &&& self.segments_ok()
        &&& self.boundaries_ok()
    }

    /// Checks the schema, the bounds, the provenance texts, and that
    /// segments and boundaries are numbered in order.
    pub fn validate(&self) -> (r: Result<(), BenchmarkError>)
        ensures
            checked(r, self.analysis_ok()),
    {
        if !str_eq(self.schema_id.as_str(), CONTEXT_STABILITY_SCHEMA_ID)
            || self.schema_version != CONTEXT_STABILITY_SCHEMA_VERSION
        {
            return Err(BenchmarkError::validation("unsupported context stability analysis schema"));
        }
        if self.segments.len() == 0 || self.segments.len() > MAX_STABILITY_SEGMENTS {
            return Err(BenchmarkError::validation("context stability analysis has an invalid segment count"));
        }
        if self.boundaries.len() > MAX_STABILITY_BOUNDARIES || self.findings.len() > MAX_STABILITY_FINDINGS {
            return Err(BenchmarkError::validation("context stability analysis exceeds a diagnostic bound"));
        }
        if self.provenance.len() > MAX_STABILITY_PROVENANCE {
            return Err(BenchmarkError::validation("context stability analysis provenance exceeds its bound"));
        }
        let mut i: usize = 0;
        while i < self.provenance.len()
            invariant
                i <= self.provenance.len(),
                forall|j: int| 0 <= j < i ==>
                    stability_text((#[trigger] self.provenance@[j]).0@) && stability_text(self.provenance@[j].1@),
            decreases self.provenance.len() - i,
        {
            let r = validate_stability_text(self.provenance[i].0.as_str(), "analysis provenance key");
            if r.is_err() {
                return r;
            }
            let r = validate_stability_text(self.provenance[i].1.as_str(), "analysis provenance value");
            if r.is_err() {
                return r;
            }
            i = i + 1;
        }
        let mut i: usize = 0;
        while i < self.segments.len()
            invariant
                i <= self.segments.len(),
                forall|j: int| 0 <= j < i ==> (#[trigger] self.segments@[j]).position == j
                    && self.segments@[j].content_fingerprint@.len() > 0,
            decreases self.segments.len() - i,
        {
            if self.segments[i].position != i {
                return Err(BenchmarkError::validation("context stability segment positions must be contiguous"));
            }
            if self.segments[i].content_fingerprint.unicode_len() == 0 {
                return Err(BenchmarkError::validation("context stability segment fingerprint must not be empty"));
            }
            i = i + 1;
        }
        let mut i: usize = 0;
        while i < self.boundaries.len()
            invariant
                i <= self.boundaries.len() <= MAX_STABILITY_BOUNDARIES,
                forall|j: int| 0 <= j < i ==> (#[trigger] self.boundaries@[j]).position == j
                    && self.boundaries@[j].left_segment == j && self.boundaries@[j].right_segment == j + 1,
            decreases self.boundaries.len() - i,
        {
            let b = &self.boundaries[i];
            if b.position != i || b.left_segment != i || b.right_segment != i + 1 {
                return Err(BenchmarkError::validation("context stability boundaries must be adjacent and ordered"));
            }
            i = i + 1;
        }
        Ok(())
    }
}

fn validate_stability_text(value: &str, field: &str) -> (r: Result<(), BenchmarkError>)
    ensures
        checked(r, stability_text(value@)),
{
    if check_bounded_text(value, MAX_STABILITY_TEXT_BYTES) {
        Ok(())
    } else {
        Err(BenchmarkError::validation_owned(concat2(field, " must be non-empty and at most 512 bytes")))
    }
}

// ---------------------------------------------------------------------------
// Boundaries, the leading region, the summary and the findings of an
// analysis, computed from its segments.

/// The direction of stability across a boundary: toward a more stable
/// segment when the right one ranks as more stable than the left, toward a
/// more volatile one in the opposite case, no known movement when they rank
/// alike, and unknown when either stability is unknown.
pub open spec fn direction_of(left: ArtifactStability, right: ArtifactStability) -> BoundaryDirection {
    match (stability_rank_of(left), stability_rank_of(right)) {
        (Some(l), Some(r)) => if r < l {
            BoundaryDirection::TowardMoreStable
        } else if r > l {
            BoundaryDirection::TowardMoreVolatile
        } else {
            BoundaryDirection::NoKnownMovement
        },
        _ => BoundaryDirection::Unknown,
    }
}

/// The direction of stability from `left` to `right` (see `direction_of`).
pub fn stability_direction(left: &ArtifactStability, right: &ArtifactStability) -> (r: BoundaryDirection)
    ensures
        r == direction_of(*left, *right),
{
    match (stability_rank(left), stability_rank(right)) {
        (Some(l), Some(r)) => if r < l {
            BoundaryDirection::TowardMoreStable
        } else if r > l {
            BoundaryDirection::TowardMoreVolatile
        } else {
            BoundaryDirection::NoKnownMovement
        },
        _ => BoundaryDirection::Unknown,
    }
}

/// The boundary between segments `i` and `i + 1`.
pub open spec fn boundary_of(segs: Seq<ContextSegmentAnalysis>, i: int) -> StabilityBoundary {
    let direction = direction_of(segs[i].stability, segs[i + 1].stability);
    StabilityBoundary {
        position: i as usize,
        left_segment: i as usize,
        right_segment: (i + 1) as usize,
        left_stability: segs[i].stability,
        right_stability: segs[i + 1].stability,
        direction,
        classification: if direction == BoundaryDirection::Unknown {
            BoundaryClassification::Unknown
        } else {
            BoundaryClassification::Classified
        },
    }
}

/// The boundaries between each pair of adjacent segments, in order.
pub fn build_boundaries(segments: &Vec<ContextSegmentAnalysis>) -> (r: Vec<StabilityBoundary>)
    ensures
        r.len() == if segments.len() == 0 { 0 } else { segments.len() - 1 },
        forall|i: int| 0 <= i < r.len() ==> #[trigger] r@[i] == boundary_of(segments@, i),
{
    let mut r: Vec<StabilityBoundary> = Vec::new();
    if segments.len() == 0 {
        return r;
    }
    let mut i: usize = 0;
    while i + 1 < segments.len()
        invariant
            0 < segments.len(),
            i < segments.len(),
            r.len() == i,
            forall|j: int| 0 <= j < i ==> #[trigger] r@[j] == boundary_of(segments@, j),
        decreases segments.len() - i,
    {
        let left = segments[i].stability;
        let right = segments[i + 1].stability;
        let direction = stability_direction(&left, &right);
        let classification = if direction == BoundaryDirection::Unknown {
            BoundaryClassification::Unknown
        } else {
            BoundaryClassification::Classified
        };
        r.push(StabilityBoundary {
            position: i,
            left_segment: i,
            right_segment: i + 1,
            left_stability: left,
            right_stability: right,
            direction,
            classification,
        });
        i = i + 1;
    }
    r
}

/// Where the scan for the stability-aligned leading region, starting at
/// segment `i`, stops: how many segments the region holds and what limits
/// it. The region stops before a segment of unknown stability (empty when
/// that is the first), and after a segment whose following boundary turns
/// toward more stability or is of unknown direction; otherwise it holds
/// every segment.
pub open spec fn leading_stop(
    segs: Seq<ContextSegmentAnalysis>,
    bounds: Seq<StabilityBoundary>,
    i: int,
) -> (int, LeadingRegionLimit)
    decreases segs.len() - i,
{
    if i < 0 || i >= segs.len() {
        (i, LeadingRegionLimit::Complete)
    } else if segs[i].stability == ArtifactStability::Unknown {
        (i, if i == 0 { LeadingRegionLimit::Empty } else { LeadingRegionLimit::LimitedByUnknown })
    } else if i < bounds.len() && bounds[i].direction == BoundaryDirection::TowardMoreStable {
        (i + 1, LeadingRegionLimit::LimitedByStabilityInversion)
    } else if i < bounds.len() && bounds[i].direction == BoundaryDirection::Unknown {
        (i + 1, LeadingRegionLimit::LimitedByUnknown)
    } else {
        leading_stop(segs, bounds, i + 1)
    }
}

/// The sum of the known byte sizes of the first `k` segments whose
/// stability is `only` (of all of them when `only` is `None`).
pub open spec fn known_bytes_of(segs: Seq<ContextSegmentAnalysis>, k: int, only: Option<ArtifactStability>) -> int
    decreases k,
{
    if k <= 0 {
        0
    } else {
        known_bytes_of(segs, k - 1, only) + match segs[k - 1].byte_size {
            Observed::Known(b) => if only is None || only == Some(segs[k - 1].stability) { b as int } else { 0 },
            _ => 0,
        }
    }
}

/// How many of the first `k` segments have no known byte size.
pub open spec fn unknown_size_count(segs: Seq<ContextSegmentAnalysis>, k: int) -> int
    decreases k,
{
    if k <= 0 {
        0
    } else {
        unknown_size_count(segs, k - 1) + if segs[k - 1].byte_size is Known { 0int } else { 1int }
    }
}

/// How many of the first `k` segments have stability `s`.
pub open spec fn stability_count(segs: Seq<ContextSegmentAnalysis>, k: int, s: ArtifactStability) -> int
    decreases k,
{
    if k <= 0 {
        0
    } else {
        stability_count(segs, k - 1, s) + if segs[k - 1].stability == s { 1int } else { 0int }
    }
}

/// `x`, or the largest `u64` when `x` exceeds it: a saturating sum.
pub open spec fn saturated(x: int) -> u64 {
    if x > u64::MAX { u64::MAX } else { x as u64 }
}

/// The byte size of the first `k` segments: unknown when one of them has no
/// known size, else the saturating sum of their sizes.
pub open spec fn region_bytes(segs: Seq<ContextSegmentAnalysis>, k: int) -> Observed<u64> {
    if unknown_size_count(segs, k) > 0 {
        Observed::Unknown
    } else {
        Observed::Known(saturated(known_bytes_of(segs, k, None)))
    }
}

proof fn lemma_leading_stop(segs: Seq<ContextSegmentAnalysis>, bounds: Seq<StabilityBoundary>, i: int)
    requires
        0 <= i <= segs.len(),
    ensures
        i <= leading_stop(segs, bounds, i).0 <= segs.len(),
        forall|j: int| i <= j < leading_stop(segs, bounds, i).0
            ==> (#[trigger] segs[j]).stability != ArtifactStability::Unknown,
        forall|j: int| i <= j < leading_stop(segs, bounds, i).0 - 1 && j < bounds.len()
            ==> (#[trigger] bounds[j]).direction != BoundaryDirection::TowardMoreStable
                && bounds[j].direction != BoundaryDirection::Unknown,
    decreases segs.len() - i,
{
    if i < segs.len() && segs[i].stability != ArtifactStability::Unknown
        && !(i < bounds.len() && bounds[i].direction == BoundaryDirection::TowardMoreStable)
        && !(i < bounds.len() && bounds[i].direction == BoundaryDirection::Unknown)
    {
        lemma_leading_stop(segs, bounds, i + 1);
    }
}

proof fn lemma_saturating_step(total: int, b: int)
    requires
        total >= 0,
        0 <= b <= u64::MAX,
    ensures
        saturated(total + b) == (if saturated(total) + b > u64::MAX { u64::MAX } else { (saturated(total) + b) as u64 }),
{
}

/// The leading run of segments whose stability never turns toward more
/// stability: how many there are, their byte size, and what ends the run
/// (see `leading_stop` and `region_bytes`). No segment in the run has
/// unknown stability, and no boundary inside it turns toward more stability
/// or has an unknown direction.
pub fn leading_region(
    segments: &Vec<ContextSegmentAnalysis>,
    boundaries: &Vec<StabilityBoundary>,
) -> (r: StabilityAlignedLeadingRegion)
    ensures
        r.segment_count == leading_stop(segments@, boundaries@, 0).0,
        r.limit == leading_stop(segments@, boundaries@, 0).1,
        r.known_byte_size == region_bytes(segments@, r.segment_count as int),
        r.segment_count <= segments.len(),
        forall|j: int| 0 <= j < r.segment_count ==> (#[trigger] segments@[j]).stability != ArtifactStability::Unknown,
        forall|j: int| 0 <= j < r.segment_count - 1 && j < boundaries.len()
            ==> (#[trigger] boundaries@[j]).direction != BoundaryDirection::TowardMoreStable
                && boundaries@[j].direction != BoundaryDirection::Unknown,
{
    proof {
        lemma_leading_stop(segments@, boundaries@, 0);
    }
    let ghost segs = segments@;
    let ghost bounds = boundaries@;
    let mut known_bytes: u64 = 0;
    let mut unknown_size = false;
    let mut i: usize = 0;
    while i < segments.len()
        invariant
            segs == segments@,
            bounds == boundaries@,
            i <= segments.len(),
            leading_stop(segs, bounds, 0) == leading_stop(segs, bounds, i as int),
            leading_stop(segs, bounds, 0).0 <= segs.len(),
            forall|j: int| 0 <= j < leading_stop(segs, bounds, 0).0
                ==> (#[trigger] segs[j]).stability != ArtifactStability::Unknown,
            forall|j: int| 0 <= j < leading_stop(segs, bounds, 0).0 - 1 && j < bounds.len()
                ==> (#[trigger] bounds[j]).direction != BoundaryDirection::TowardMoreStable
                    && bounds[j].direction != BoundaryDirection::Unknown,
            known_bytes == saturated(known_bytes_of(segs, i as int, None)),
            known_bytes_of(segs, i as int, None) >= 0,
            unknown_size == (unknown_size_count(segs, i as int) > 0),
            unknown_size_count(segs, i as int) >= 0,
        decreases segments.len() - i,
    {
        let segment = &segments[i];
        if segment.stability == ArtifactStability::Unknown {
            let limit = if i == 0 { LeadingRegionLimit::Empty } else { LeadingRegionLimit::LimitedByUnknown };
            return StabilityAlignedLeadingRegion {
                segment_count: i,
                known_byte_size: if unknown_size { Observed::Unknown } else { Observed::Known(known_bytes) },
                limit,
            };
        }
        match segment.byte_size {
            Observed::Known(bytes) => {
                proof {
                    lemma_saturating_step(known_bytes_of(segs, i as int, None), bytes as int);
                }
                known_bytes = known_bytes.saturating_add(bytes);
            },
            _ => {
                unknown_size = true;
            },
        }
        if i < boundaries.len() {
            if boundaries[i].direction == BoundaryDirection::TowardMoreStable {
                return StabilityAlignedLeadingRegion {
                    segment_count: i + 1,
                    known_byte_size: if unknown_size { Observed::Unknown } else { Observed::Known(known_bytes) },
                    limit: LeadingRegionLimit::LimitedByStabilityInversion,
                };
            }
            if boundaries[i].direction == BoundaryDirection::Unknown {
                return StabilityAlignedLeadingRegion {
                    segment_count: i + 1,
                    known_byte_size: if unknown_size { Observed::Unknown } else { Observed::Known(known_bytes) },
                    limit: LeadingRegionLimit::LimitedByUnknown,
                };
            }
        }
        i = i + 1;
    }
    StabilityAlignedLeadingRegion {
        segment_count: i,
        known_byte_size: if unknown_size { Observed::Unknown } else { Observed::Known(known_bytes) },
        limit: LeadingRegionLimit::Complete,
    }
}

/// Counts the segments by stability, sums their known byte sizes (in
/// total and by stability, each sum saturating at the largest `u64`),
/// counts the segments without a known size, and leaves token units
/// unobserved. The counts by stability add up to the number of segments.
pub fn summarize(segments: &Vec<ContextSegmentAnalysis>) -> (r: StabilitySummary)
    ensures
        r.immutable_segments == stability_count(segments@, segments.len() as int, ArtifactStability::Immutable),
        r.stable_segments == stability_count(segments@, segments.len() as int, ArtifactStability::Stable),
        r.append_only_segments == stability_count(segments@, segments.len() as int, ArtifactStability::AppendOnly),
        r.volatile_segments == stability_count(segments@, segments.len() as int, ArtifactStability::Volatile),
        r.unknown_segments == stability_count(segments@, segments.len() as int, ArtifactStability::Unknown),
        r.known_immutable_bytes == saturated(known_bytes_of(segments@, segments.len() as int, Some(ArtifactStability::Immutable))),
        r.known_stable_bytes == saturated(known_bytes_of(segments@, segments.len() as int, Some(ArtifactStability::Stable))),
        r.known_append_only_bytes == saturated(known_bytes_of(segments@, segments.len() as int, Some(ArtifactStability::AppendOnly))),
        r.known_volatile_bytes == saturated(known_bytes_of(segments@, segments.len() as int, Some(ArtifactStability::Volatile))),
        r.known_bytes_total == saturated(known_bytes_of(segments@, segments.len() as int, None)),
        r.unknown_size_segments == unknown_size_count(segments@, segments.len() as int),
        r.unknown_bytes == (if unknown_size_count(segments@, segments.len() as int) == 0 {
            Observed::Known(0u64)
        } else {
            Observed::<u64>::Unknown
        }),
        r.token_units == Observed::<u64>::NotObserved,
        r.immutable_segments + r.stable_segments + r.append_only_segments + r.volatile_segments
            + r.unknown_segments == segments.len(),
{
    let ghost segs = segments@;
    let mut immutable_segments: usize = 0;
    let mut stable_segments: usize = 0;
    let mut append_only_segments: usize = 0;
    let mut volatile_segments: usize = 0;
    let mut unknown_segments: usize = 0;
    let mut known_immutable_bytes: u64 = 0;
    let mut known_stable_bytes: u64 = 0;
    let mut known_append_only_bytes: u64 = 0;
    let mut known_volatile_bytes: u64 = 0;
    let mut known_bytes_total: u64 = 0;
    let mut unknown_size_segments: usize = 0;
    let mut i: usize = 0;
    while i < segments.len()
        invariant
            segs == segments@,
            i <= segments.len(),
            immutable_segments == stability_count(segs, i as int, ArtifactStability::Immutable),
            stable_segments == stability_count(segs, i as int, ArtifactStability::Stable),
            append_only_segments == stability_count(segs, i as int, ArtifactStability::AppendOnly),
            volatile_segments == stability_count(segs, i as int, ArtifactStability::Volatile),
            unknown_segments == stability_count(segs, i as int, ArtifactStability::Unknown),
            immutable_segments + stable_segments + append_only_segments + volatile_segments + unknown_segments == i,
            known_immutable_bytes == saturated(known_bytes_of(segs, i as int, Some(ArtifactStability::Immutable))),
            known_stable_bytes == saturated(known_bytes_of(segs, i as int, Some(ArtifactStability::Stable))),
            known_append_only_bytes == saturated(known_bytes_of(segs, i as int, Some(ArtifactStability::AppendOnly))),
            known_volatile_bytes == saturated(known_bytes_of(segs, i as int, Some(ArtifactStability::Volatile))),
            known_bytes_total == saturated(known_bytes_of(segs, i as int, None)),
            unknown_size_segments == unknown_size_count(segs, i as int),
            unknown_size_segments <= i,
        decreases segments.len() - i,
    {
        proof {
            lemma_known_bytes_nonnegative(segs, i as int, Some(ArtifactStability::Immutable));
            lemma_known_bytes_nonnegative(segs, i as int, Some(ArtifactStability::Stable));
            lemma_known_bytes_nonnegative(segs, i as int, Some(ArtifactStability::AppendOnly));
            lemma_known_bytes_nonnegative(segs, i as int, Some(ArtifactStability::Volatile));
            lemma_known_bytes_nonnegative(segs, i as int, None);
        }
        let segment = &segments[i];
        match segment.stability {
            ArtifactStability::Immutable => immutable_segments = immutable_segments + 1,
            ArtifactStability::Stable => stable_segments = stable_segments + 1,
            ArtifactStability::AppendOnly => append_only_segments = append_only_segments + 1,
            ArtifactStability::Volatile => volatile_segments = volatile_segments + 1,
            ArtifactStability::Unknown => unknown_segments = unknown_segments + 1,
        }
        match segment.byte_size {
            Observed::Known(bytes) => {
                proof {
                    lemma_saturating_step(known_bytes_of(segs, i as int, None), bytes as int);
                    lemma_known_bytes_nonnegative(segs, i as int, Some(segment.stability));
                    lemma_saturating_step(known_bytes_of(segs, i as int, Some(segment.stability)), bytes as int);
                }
                known_bytes_total = known_bytes_total.saturating_add(bytes);
                match segment.stability {
                    ArtifactStability::Immutable => known_immutable_bytes = known_immutable_bytes.saturating_add(bytes),
                    ArtifactStability::Stable => known_stable_bytes = known_stable_bytes.saturating_add(bytes),
                    ArtifactStability::AppendOnly => known_append_only_bytes = known_append_only_bytes.saturating_add(bytes),
                    ArtifactStability::Volatile => known_volatile_bytes = known_volatile_bytes.saturating_add(bytes),
                    ArtifactStability::Unknown => {},
                }
            },
            _ => {
                unknown_size_segments = unknown_size_segments + 1;
            },
        }
        i = i + 1;
    }
    StabilitySummary {
        immutable_segments,
        stable_segments,
        append_only_segments,
        volatile_segments,
        unknown_segments,
        known_stable_bytes,
        known_append_only_bytes,
        known_volatile_bytes,
        known_immutable_bytes,
        known_bytes_total,
        unknown_bytes: if unknown_size_segments == 0 { Observed::Known(0) } else { Observed::Unknown },
        unknown_size_segments,
        token_units: Observed::NotObserved,
    }
}

proof fn lemma_known_bytes_nonnegative(segs: Seq<ContextSegmentAnalysis>, k: int, only: Option<ArtifactStability>)
    ensures
        known_bytes_of(segs, k, only) >= 0,
    decreases k,
{
    if k > 0 {
        lemma_known_bytes_nonnegative(segs, k - 1, only);
    }
}

/// A finding about one segment.
pub open spec fn segment_finding(kind: StabilityFindingKind, s: ContextSegmentAnalysis) -> Seq<StabilityFinding> {
    seq![StabilityFinding { kind, segment: Some(s.position), boundary: None }]
}

/// The findings about one segment, in this order: its stability is
/// unknown; it is append-only; it is immutable or stable but transient.
pub open spec fn findings_for_segment(s: ContextSegmentAnalysis) -> Seq<StabilityFinding> {
    (if s.stability == ArtifactStability::Unknown {
        segment_finding(StabilityFindingKind::UnknownStabilitySegment, s)
    } else {
        Seq::empty()
    }) + (if s.stability == ArtifactStability::AppendOnly {
        segment_finding(StabilityFindingKind::AppendOnlyRegion, s)
    } else {
        Seq::empty()
    }) + (if (s.stability == ArtifactStability::Immutable || s.stability == ArtifactStability::Stable) && s.transient {
        segment_finding(StabilityFindingKind::TransientStableSegment, s)
    } else {
        Seq::empty()
    })
}

/// The findings about one boundary: a stability inversion where it turns
/// toward more stability, followed by volatile-before-stable where a
/// volatile segment precedes an immutable or stable one.
pub open spec fn findings_for_boundary(b: StabilityBoundary) -> Seq<StabilityFinding> {
    if b.direction == BoundaryDirection::TowardMoreStable {
        seq![StabilityFinding { kind: StabilityFindingKind::StabilityInversion, segment: None, boundary: Some(b.position) }]
            + if b.left_stability == ArtifactStability::Volatile
                && (b.right_stability == ArtifactStability::Immutable || b.right_stability == ArtifactStability::Stable)
            {
                seq![StabilityFinding { kind: StabilityFindingKind::VolatileBeforeStable, segment: None, boundary: Some(b.position) }]
            } else {
                Seq::empty()
            }
    } else {
        Seq::empty()
    }
}

pub open spec fn segment_findings(segs: Seq<ContextSegmentAnalysis>) -> Seq<StabilityFinding>
    decreases segs.len(),
{
    if segs.len() == 0 {
        Seq::empty()
    } else {
        segment_findings(segs.drop_last()) + findings_for_segment(segs.last())
    }
}

pub open spec fn boundary_findings(bounds: Seq<StabilityBoundary>) -> Seq<StabilityFinding>
    decreases bounds.len(),
{
    if bounds.len() == 0 {
        Seq::empty()
    } else {
        boundary_findings(bounds.drop_last()) + findings_for_boundary(bounds.last())
    }
}

/// The findings of the segments in order, then those of the boundaries in
/// order, cut to the first `MAX_STABILITY_FINDINGS`.
pub open spec fn findings_of(segs: Seq<ContextSegmentAnalysis>, bounds: Seq<StabilityBoundary>) -> Seq<StabilityFinding> {
    let all = segment_findings(segs) + boundary_findings(bounds);
    if all.len() > MAX_STABILITY_FINDINGS { all.take(MAX_STABILITY_FINDINGS as int) } else { all }
}

fn push_segment_finding(v: &mut Vec<StabilityFinding>, kind: StabilityFindingKind, s: &ContextSegmentAnalysis)
    ensures
        final(v)@ == old(v)@ + segment_finding(kind, *s),
{
    v.push(StabilityFinding { kind, segment: Some(s.position), boundary: None });
    proof {
        assert(final(v)@ =~= old(v)@ + segment_finding(kind, *s));
    }
}

/// The findings about segments and boundaries (see `findings_of`).
pub fn findings(
    segments: &Vec<ContextSegmentAnalysis>,
    boundaries: &Vec<StabilityBoundary>,
) -> (r: Vec<StabilityFinding>)
    ensures
        r@ == findings_of(segments@, boundaries@),
        r.len() <= MAX_STABILITY_FINDINGS,
{
    let mut r: Vec<StabilityFinding> = Vec::new();
    let mut i: usize = 0;
    while i < segments.len()
        invariant
            i <= segments.len(),
            r@ == segment_findings(segments@.take(i as int)),
        decreases segments.len() - i,
    {
        let segment = &segments[i];
        let ghost before = r@;
        if segment.stability == ArtifactStability::Unknown {
            push_segment_finding(&mut r, StabilityFindingKind::UnknownStabilitySegment, segment);
        }
        let ghost first = r@;
        if segment.stability == ArtifactStability::AppendOnly {
            push_segment_finding(&mut r, StabilityFindingKind::AppendOnlyRegion, segment);
        }
        let ghost second = r@;
        if (segment.stability == ArtifactStability::Immutable || segment.stability == ArtifactStability::Stable)
            && segment.transient
        {
            push_segment_finding(&mut r, StabilityFindingKind::TransientStableSegment, segment);
        }
        proof {
            let t = segments@.take(i + 1);
            assert(t.drop_last() =~= segments@.take(i as int));
            assert(t.last() == *segment);
            assert(r@ =~= before + findings_for_segment(*segment));
        }
        i = i + 1;
    }
    proof {
        assert(segments@.take(segments.len() as int) =~= segments@);
    }
    let ghost from_segments = r@;
    let mut j: usize = 0;
    while j < boundaries.len()
        invariant
            j <= boundaries.len(),
            r@ == from_segments + boundary_findings(boundaries@.take(j as int)),
        decreases boundaries.len() - j,
    {
        let boundary = &boundaries[j];
        let ghost before = r@;
        if boundary.direction == BoundaryDirection::TowardMoreStable {
            r.push(StabilityFinding { kind: StabilityFindingKind::StabilityInversion, segment: None, boundary: Some(boundary.position) });
            if boundary.left_stability == ArtifactStability::Volatile
                && (boundary.right_stability == ArtifactStability::Immutable
                    || boundary.right_stability == ArtifactStability::Stable)
            {
                r.push(StabilityFinding { kind: StabilityFindingKind::VolatileBeforeStable, segment: None, boundary: Some(boundary.position) });
            }
        }
        proof {
            let t = boundaries@.take(j + 1);
            assert(t.drop_last() =~= boundaries@.take(j as int));
            assert(t.last() == *boundary);
            assert(r@ =~= before + findings_for_boundary(*boundary));
            assert(r@ =~= from_segments + boundary_findings(t));
        }
        j = j + 1;
    }
    proof {
        assert(boundaries@.take(boundaries.len() as int) =~= boundaries@);
    }
    r.truncate(MAX_STABILITY_FINDINGS);
    r
}

/// The summary's counts and sums are those of the segments (see `summarize`).
pub open spec fn summary_matches(r: StabilitySummary, segs: Seq<ContextSegmentAnalysis>) -> bool {
    let n = segs.len() as int;
    &&& r.immutable_segments == stability_count(segs, n, ArtifactStability::Immutable)
    &&& r.stable_segments == stability_count(segs, n, ArtifactStability::Stable)
    &&& r.append_only_segments == stability_count(segs, n, ArtifactStability::AppendOnly)
    &&& r.volatile_segments == stability_count(segs, n, ArtifactStability::Volatile)
    &&& r.unknown_segments == stability_count(segs, n, ArtifactStability::Unknown)
    &&& r.known_immutable_bytes == saturated(known_bytes_of(segs, n, Some(ArtifactStability::Immutable)))
    &&& r.known_stable_bytes == saturated(known_bytes_of(segs, n, Some(ArtifactStability::Stable)))
    &&& r.known_append_only_bytes == saturated(known_bytes_of(segs, n, Some(ArtifactStability::AppendOnly)))
    &&& r.known_volatile_bytes == saturated(known_bytes_of(segs, n, Some(ArtifactStability::Volatile)))
    &&& r.known_bytes_total == saturated(known_bytes_of(segs, n, None))
    &&& r.unknown_size_segments == unknown_size_count(segs, n)
    &&& r.unknown_bytes == (if unknown_size_count(segs, n) == 0 { Observed::Known(0u64) } else { Observed::<u64>::Unknown })
    &&& r.token_units == Observed::<u64>::NotObserved
}

/// The provenance recorded when none is supplied.
pub open spec fn default_stability_provenance() -> Seq<(Seq<char>, Seq<char>)> {
    seq![("source"@, "neutral-request-and-context-artifact-metadata"@)]
}

pub open spec fn pair_views(p: Seq<(String, String)>) -> Seq<(Seq<char>, Seq<char>)> {
    Seq::new(p.len(), |i: int| (p[i].0@, p[i].1@))
}

/// `a` is the analysis of the given segments of a request with the given
/// fingerprints: its boundaries, leading region, summary and findings are
/// computed from the segments, and its provenance is the supplied one, or
/// the default when none is supplied.
pub open spec fn analysis_matches(
    a: ContextStabilityAnalysis,
    request_fingerprint: Seq<char>,
    context_fingerprint: Seq<char>,
    segs: Seq<ContextSegmentAnalysis>,
    provenance: Seq<(Seq<char>, Seq<char>)>,
) -> bool {
    let bounds = a.boundaries@;
    &&& a.schema_id@ == CONTEXT_STABILITY_SCHEMA_ID@
    &&& a.schema_version == CONTEXT_STABILITY_SCHEMA_VERSION
    &&& a.request_fingerprint@ == request_fingerprint
    &&& a.context_fingerprint@ == context_fingerprint
    &&& a.segments@ == segs
    &&& bounds.len() == if segs.len() == 0 { 0 } else { segs.len() - 1 }
    &&& forall|i: int| 0 <= i < bounds.len() ==> #[trigger] bounds[i] == boundary_of(segs, i)
    &&& a.leading_region.segment_count == leading_stop(segs, bounds, 0).0
    &&& a.leading_region.limit == leading_stop(segs, bounds, 0).1
    &&& a.leading_region.known_byte_size == region_bytes(segs, a.leading_region.segment_count as int)
    &&& summary_matches(a.summary, segs)
    &&& a.findings@ == findings_of(segs, bounds)
    &&& pair_views(a.provenance@) == if provenance.len() == 0 { default_stability_provenance() } else { provenance }
}

/// The segments can make a valid analysis with this provenance: there are
/// between one and `MAX_STABILITY_SEGMENTS` of them, each at its own
/// position with a non-empty fingerprint, and the provenance is bounded.
pub open spec fn analysis_inputs_ok(segs: Seq<ContextSegmentAnalysis>, provenance: Seq<(Seq<char>, Seq<char>)>) -> bool {
    &&& 0 < segs.len() <= MAX_STABILITY_SEGMENTS
    &&& forall|i: int| 0 <= i < segs.len() ==> (#[trigger] segs[i]).position == i && segs[i].content_fingerprint@.len() > 0
    &&& provenance.len() <= MAX_STABILITY_PROVENANCE
    &&& forall|i: int| 0 <= i < provenance.len() ==> stability_text((#[trigger] provenance[i]).0) && stability_text(provenance[i].1)
}

/// Builds and checks the analysis of already classified segments (see
/// `analysis_matches`); fails with a validation error exactly when the
/// segments and provenance cannot make a valid analysis.
pub fn analysis_from_segments(
    request_fingerprint: String,
    context_fingerprint: String,
    segments: Vec<ContextSegmentAnalysis>,
    provenance: Vec<(String, String)>,
) -> (r: Result<ContextStabilityAnalysis, BenchmarkError>)
    ensures
        match r {
            Ok(a) => analysis_matches(a, request_fingerprint@, context_fingerprint@, segments@, pair_views(provenance@))
                && a.analysis_ok(),
            Err(e) => in_memory_validation(e),
        },
        r is Ok <==> analysis_inputs_ok(segments@, if provenance.len() == 0 {
            default_stability_provenance()
        } else {
            pair_views(provenance@)
        }),
{
    let boundaries = build_boundaries(&segments);
    let leading_region = leading_region(&segments, &boundaries);
    let summary = summarize(&segments);
    let findings = findings(&segments, &boundaries);
    let ghost supplied = pair_views(provenance@);
    let provenance = if provenance.len() == 0 {
        let p = vec![(owned("source"), owned("neutral-request-and-context-artifact-metadata"))];
        proof {
            reveal_strlit("source");
            reveal_strlit("neutral-request-and-context-artifact-metadata");
            assert(pair_views(p@) =~= default_stability_provenance());
        }
        p
    } else {
        provenance
    };
    let analysis = ContextStabilityAnalysis {
        schema_id: owned(CONTEXT_STABILITY_SCHEMA_ID),
        schema_version: CONTEXT_STABILITY_SCHEMA_VERSION,
        request_fingerprint,
        context_fingerprint,
        segments,
        boundaries,
        leading_region,
        summary,
        findings,
        provenance,
    };
    proof {
        let a = analysis;
        let effective = pair_views(a.provenance@);
        assert(a.provenance.len() == effective.len());
        assert(forall|i: int| 0 <= i < a.provenance.len() ==> (#[trigger] a.provenance@[i]).0@ == effective[i].0
            && a.provenance@[i].1@ == effective[i].1);
        assert(a.boundaries_ok()) by {
            assert forall|i: int| 0 <= i < a.boundaries.len() implies (#[trigger] a.boundaries@[i]).position == i
                && a.boundaries@[i].left_segment == i && a.boundaries@[i].right_segment == i + 1 by {
                assert(a.boundaries@[i] == boundary_of(a.segments@, i));
            }
        }
        if analysis_inputs_ok(a.segments@, effective) {
            assert forall|i: int| 0 <= i < a.provenance.len() implies
                stability_text((#[trigger] a.provenance@[i]).0@) && stability_text(a.provenance@[i].1@) by {
                assert(stability_text(effective[i].0));
            }
            assert(a.analysis_ok());
        } else if a.analysis_ok() {
            assert forall|i: int| 0 <= i < effective.len() implies
                stability_text((#[trigger] effective[i]).0) && stability_text(effective[i].1) by {
                assert(stability_text(a.provenance@[i].0@));
            }
            assert(a.segments_ok());
        }
    }
    match analysis.validate() {
        Ok(_) => Ok(analysis),
        Err(e) => Err(e),
    }
}

} // verus!
