//! Cache observation diagnostics: whether two observations can be
//! compared, and on what identity.
use vstd::prelude::*;
use crate::context_stability::Observed;
use crate::diff::{ChangeCategory, EnvelopeField, RequestDiff};
use crate::json::{join, join_texts};
use crate::ordering::{sort_unique, sorted_strict, views};
use crate::text::{concat2, concat3, opt_view, owned, str_eq};

verus! {

pub const OBSERVATION_COMPARISON_SCHEMA_ID: &'static str = "prefixity.observation-comparison";
pub const OBSERVATION_COMPARISON_SCHEMA_VERSION: u32 = 1;
pub const CACHE_DIAGNOSTIC_SCHEMA_ID: &'static str = "prefixity.cache-diagnostic";
pub const CACHE_DIAGNOSTIC_SCHEMA_VERSION: u32 = 1;
pub const MAX_COMPARABILITY_REASONS: usize = 16;
pub const MAX_SIGNAL_DIRECTIONS: usize = 32;

/// Evidence source classes used by diagnostics.  A capability document is
/// documentation, not an observation; this enum keeps the distinction
/// visible when a diagnostic is assembled from controlled evidence.
#[derive(Debug, Clone, Copy, PartialEq, Eq, Structural)]
pub enum EvidenceSourceClass {
    SyntheticProtocolTest,
    DocumentedCapability,
    ExperimentallyObservedRuntime,
    UnknownUnverified,
}

#[derive(Debug, Clone, Copy, PartialEq, Eq, Structural)]
pub enum IdentityMatch {
    Match,
    Mismatch,
    Missing,
}

#[derive(Debug, Clone, PartialEq, Eq)]
pub struct IdentityComparison {
    pub backend: IdentityMatch,
    pub provider: IdentityMatch,
    pub model: IdentityMatch,
    pub protocol: IdentityMatch,
    pub runtime: IdentityMatch,
    pub profile: IdentityMatch,
}

#[derive(Debug, Clone, Copy, PartialEq, Eq, Structural)]
pub enum ComparabilityLevel {
    DirectlyComparable,
    PartiallyComparable,
    Incomparable,
    InsufficientEvidence,
}

#[derive(Debug, Clone, Copy, PartialEq, Eq, Structural)]
pub enum ComparabilityReason {
    RuntimeIdentityMismatch,
    ModelIdentityMismatch,
    ProviderIdentityMismatch,
    ProtocolIdentityMismatch,
    ProfileIdentityMismatch,
    MissingRequestFingerprint,
    MissingContextFingerprint,
    MissingIdentityDimension,
    ObservationSchemaMismatch,
    TokenScopeMismatch,
}

#[derive(Debug, Clone, PartialEq, Eq)]
pub struct ComparabilityReport {
    pub level: ComparabilityLevel,
    pub identity: IdentityComparison,
    pub reasons: Vec<ComparabilityReason>,
}

#[derive(Debug, Clone, Copy, PartialEq, Eq, Structural)]
pub enum MetricDirection {
    Increased,
    Decreased,
    Unchanged,
    Unavailable,
}

#[derive(Debug, Clone, Copy, PartialEq, Eq, Structural)]
pub enum TokenMetricName {
    TransmittedInputTokens,
    ProviderCachedTokens,
    FreshPrefillTokens,
    ReconstructedContextTokens,
    OutputTokens,
}

#[derive(Debug, Clone, Copy, PartialEq, Eq, Structural)]
pub enum CacheRegressionAssessment {
    InsufficientEvidence,
    NoObservedCacheReuseChange,
    ObservedReuseIncrease,
    ObservedReuseDecrease,
    MixedObservations,
    Incomparable,
}

#[derive(Debug, Clone, Copy, PartialEq, Eq, Structural)]
pub enum CausalityStatus {
    NotEstablished,
}

#[derive(Debug, Clone, Copy, PartialEq, Eq, Structural)]
pub enum EvidenceAssociation {
    NoStructuralDifference,
    StructuralDifferenceWithoutComparableObservation,
    StructuralDifferenceWithObservedMetricChange,
    StructuralDifferenceWithObservedReuseSignal,
}

#[derive(Debug, Clone, Copy, PartialEq, Eq, Structural)]
pub enum RequestObservationAlignment {
    Aligned,
    Mismatched,
    Unavailable,
}

#[derive(Debug, Clone, Copy, PartialEq, Eq, Structural)]
pub enum DiagnosticMetric {
    TransmittedInputTokens,
    ProviderCachedTokens,
    FreshPrefillTokens,
    ReconstructedContextTokens,
    OutputTokens,
    PrefillDurationMs,
    TimeToFirstTokenMs,
    GenerationDurationMs,
    WallDurationMs,
    RamBytes,
    VramBytes,
    KvCacheBytes,
}

#[derive(Debug, Clone, PartialEq, Eq)]
pub struct EvidenceStatement {
    pub structural_change_categories: Vec<String>,
    pub observed_metric_directions: Vec<(DiagnosticMetric, MetricDirection)>,
    pub association: EvidenceAssociation,
    pub causality: CausalityStatus,
    pub statement: String,
}

/// A compact identity projection used for comparison and audit. It
/// contains identity dimensions and no raw telemetry.
#[derive(Debug, Clone, PartialEq, Eq)]
pub struct RuntimeIdentityReference {
    pub backend: String,
    pub provider: Observed<String>,
    pub model: Observed<String>,
    pub protocol: Observed<String>,
    pub runtime: Observed<String>,
    pub runtime_version: Observed<String>,
    pub profile_id: Option<String>,
    pub identity_fingerprint: String,
}

/// Reference to one observation: its identity and the fingerprints of the
/// request it answered, when they are known.
#[derive(Debug, Clone, PartialEq, Eq)]
pub struct ObservationReference {
    pub observation_schema_version: u32,
    pub observation_id: String,
    pub experiment_id: Option<String>,
    pub case_id: Option<String>,
    pub request_fingerprint: Option<String>,
    pub context_fingerprint: Option<String>,
    pub envelope_fingerprint: Option<String>,
    pub runtime: RuntimeIdentityReference,
    pub source: EvidenceSourceClass,
}

pub open spec fn observed_view(o: Observed<String>) -> Observed<Seq<char>> {
    match o {
        Observed::Known(s) => Observed::Known(s@),
        Observed::Unknown => Observed::Unknown,
        Observed::NotObserved => Observed::NotObserved,
    }
}

/// A required identity dimension: missing when either side is empty.
pub open spec fn required_match(left: Seq<char>, right: Seq<char>) -> IdentityMatch {
    if left.len() == 0 || right.len() == 0 {
        IdentityMatch::Missing
    } else if left == right {
        IdentityMatch::Match
    } else {
        IdentityMatch::Mismatch
    }
}

/// An optional identity dimension: missing unless both sides have it.
pub open spec fn optional_match(left: Option<Seq<char>>, right: Option<Seq<char>>) -> IdentityMatch {
    match (left, right) {
        (Some(l), Some(r)) => if l == r { IdentityMatch::Match } else { IdentityMatch::Mismatch },
        _ => IdentityMatch::Missing,
    }
}

/// An observed identity dimension: missing unless both sides know it.
pub open spec fn observed_match(left: Observed<Seq<char>>, right: Observed<Seq<char>>) -> IdentityMatch {
    match (left, right) {
        (Observed::Known(l), Observed::Known(r)) => if l == r { IdentityMatch::Match } else { IdentityMatch::Mismatch },
        _ => IdentityMatch::Missing,
    }
}

pub fn compare_required_string(left: &str, right: &str) -> (r: IdentityMatch)
    ensures
        r == required_match(left@, right@),
{
    if left.unicode_len() == 0 || right.unicode_len() == 0 {
        IdentityMatch::Missing
    } else if str_eq(left, right) {
        IdentityMatch::Match
    } else {
        IdentityMatch::Mismatch
    }
}

pub fn compare_optional_string(left: Option<&str>, right: Option<&str>) -> (r: IdentityMatch)
    ensures
        r == optional_match(
            match left { Some(l) => Some(l@), None => None },
            match right { Some(x) => Some(x@), None => None },
        ),
{
    match (left, right) {
        (Some(l), Some(x)) => if str_eq(l, x) { IdentityMatch::Match } else { IdentityMatch::Mismatch },
        _ => IdentityMatch::Missing,
    }
}

pub fn compare_observed_string(left: &Observed<String>, right: &Observed<String>) -> (r: IdentityMatch)
    ensures
        r == observed_match(observed_view(*left), observed_view(*right)),
{
    match (left, right) {
        (Observed::Known(l), Observed::Known(x)) => if str_eq(l.as_str(), x.as_str()) {
            IdentityMatch::Match
        } else {
            IdentityMatch::Mismatch
        },
        _ => IdentityMatch::Missing,
    }
}

/// The value of an observed string, when it is known.
pub fn known_string(value: &Observed<String>) -> (r: Option<String>)
    ensures
        opt_view(r) == match observed_view(*value) {
            Observed::Known(s) => Some(s),
            _ => None,
        },
{
    match value {
        Observed::Known(v) => Some(v.clone()),
        Observed::Unknown | Observed::NotObserved => None,
    }
}

/// `reasons` with `reason` added, unless it is present or the list is full.
pub open spec fn with_reason(reasons: Seq<ComparabilityReason>, reason: ComparabilityReason) -> Seq<ComparabilityReason> {
    if reasons.contains(reason) || reasons.len() >= MAX_COMPARABILITY_REASONS {
        reasons
    } else {
        reasons.push(reason)
    }
}

/// `with_reason` when `cond` holds.
pub open spec fn reason_if(reasons: Seq<ComparabilityReason>, cond: bool, reason: ComparabilityReason) -> Seq<ComparabilityReason> {
    if cond { with_reason(reasons, reason) } else { reasons }
}

pub fn push_reason(reasons: &mut Vec<ComparabilityReason>, reason: ComparabilityReason)
    ensures
        final(reasons)@ == with_reason(old(reasons)@, reason),
{
    let mut i: usize = 0;
    while i < reasons.len()
        invariant
            i <= reasons.len(),
            forall|j: int| 0 <= j < i ==> reasons@[j] != reason,
        decreases reasons.len() - i,
    {
        if reasons[i] == reason {
            proof {
                assert(reasons@.contains(reason));
            }
            return;
        }
        i = i + 1;
    }
    if reasons.len() < MAX_COMPARABILITY_REASONS {
        reasons.push(reason);
    }
}

/// The identity comparison of two observations, dimension by dimension.
pub open spec fn identity_of(left: ObservationReference, right: ObservationReference) -> IdentityComparison {
    IdentityComparison {
        backend: required_match(left.runtime.backend@, right.runtime.backend@),
        provider: observed_match(observed_view(left.runtime.provider), observed_view(right.runtime.provider)),
        model: observed_match(observed_view(left.runtime.model), observed_view(right.runtime.model)),
        protocol: observed_match(observed_view(left.runtime.protocol), observed_view(right.runtime.protocol)),
        runtime: observed_match(observed_view(left.runtime.runtime), observed_view(right.runtime.runtime)),
        profile: optional_match(opt_view(left.runtime.profile_id), opt_view(right.runtime.profile_id)),
    }
}

/// The reasons raised by the checks `c1` to `c10`, each reason once, in
/// check order; `comparability_reasons` says which check each flag is.
pub open spec fn reason_chain(
    c1: bool, c2: bool, c3: bool, c4: bool, c5: bool,
    c6: bool, c7: bool, c8: bool, c9: bool, c10: bool,
) -> Seq<ComparabilityReason> {
    let r1 = reason_if(Seq::empty(), c1, ComparabilityReason::RuntimeIdentityMismatch);
    let r2 = reason_if(r1, c2, ComparabilityReason::ProviderIdentityMismatch);
    let r3 = reason_if(r2, c3, ComparabilityReason::ModelIdentityMismatch);
    let r4 = reason_if(r3, c4, ComparabilityReason::ProtocolIdentityMismatch);
    let r5 = reason_if(r4, c5, ComparabilityReason::RuntimeIdentityMismatch);
    let r6 = reason_if(r5, c6, ComparabilityReason::ProfileIdentityMismatch);
    let r7 = reason_if(r6, c7, ComparabilityReason::ObservationSchemaMismatch);
    let r8 = reason_if(r7, c8, ComparabilityReason::MissingRequestFingerprint);
    let r9 = reason_if(r8, c9, ComparabilityReason::MissingContextFingerprint);
    reason_if(r9, c10, ComparabilityReason::MissingIdentityDimension)
}

/// The reasons that limit comparing two observations, each once, in the
/// order they are checked: a mismatched backend, provider, model,
/// protocol, runtime or profile; a different observation schema; a missing
/// request fingerprint; a missing context fingerprint; a missing identity
/// dimension.
pub open spec fn comparability_reasons(left: ObservationReference, right: ObservationReference) -> Seq<ComparabilityReason> {
    let id = identity_of(left, right);
    reason_chain(
        id.backend == IdentityMatch::Mismatch,
        id.provider == IdentityMatch::Mismatch,
        id.model == IdentityMatch::Mismatch,
        id.protocol == IdentityMatch::Mismatch,
        id.runtime == IdentityMatch::Mismatch,
        id.profile == IdentityMatch::Mismatch,
        left.observation_schema_version != right.observation_schema_version,
        left.request_fingerprint is None || right.request_fingerprint is None,
        left.context_fingerprint is None || right.context_fingerprint is None,
        id.provider == IdentityMatch::Missing || id.model == IdentityMatch::Missing
            || id.protocol == IdentityMatch::Missing || id.runtime == IdentityMatch::Missing
            || id.profile == IdentityMatch::Missing,
    )
}

/// The level of comparability that a list of reasons leaves: mismatches
/// make observations incomparable, missing fingerprints leave too little
/// evidence, and a missing identity dimension leaves them partially
/// comparable.
pub open spec fn comparability_level(reasons: Seq<ComparabilityReason>) -> ComparabilityLevel {
    if reasons.contains(ComparabilityReason::RuntimeIdentityMismatch)
        || reasons.contains(ComparabilityReason::ModelIdentityMismatch)
        || reasons.contains(ComparabilityReason::ProviderIdentityMismatch)
        || reasons.contains(ComparabilityReason::ProtocolIdentityMismatch)
        || reasons.contains(ComparabilityReason::ProfileIdentityMismatch)
        || reasons.contains(ComparabilityReason::ObservationSchemaMismatch)
    {
        ComparabilityLevel::Incomparable
    } else if reasons.contains(ComparabilityReason::MissingRequestFingerprint)
        || reasons.contains(ComparabilityReason::MissingContextFingerprint)
    {
        ComparabilityLevel::InsufficientEvidence
    } else if reasons.contains(ComparabilityReason::MissingIdentityDimension) {
        ComparabilityLevel::PartiallyComparable
    } else {
        ComparabilityLevel::DirectlyComparable
    }
}

fn holds_any(reasons: &Vec<ComparabilityReason>, wanted: &Vec<ComparabilityReason>) -> (r: bool)
    ensures
        r == exists|k: int| 0 <= k < wanted.len() && reasons@.contains(#[trigger] wanted@[k]),
{
    let mut k: usize = 0;
    while k < wanted.len()
        invariant
            k <= wanted.len(),
            forall|m: int| 0 <= m < k ==> !reasons@.contains(#[trigger] wanted@[m]),
        decreases wanted.len() - k,
    {
        let mut i: usize = 0;
        while i < reasons.len()
            invariant
                k < wanted.len(),
                i <= reasons.len(),
                forall|j: int| 0 <= j < i ==> reasons@[j] != wanted@[k as int],
            decreases reasons.len() - i,
        {
            if reasons[i] == wanted[k] {
                proof {
                    assert(reasons@.contains(wanted@[k as int]));
                }
                return true;
            }
            i = i + 1;
        }
        k = k + 1;
    }
    false
}

/// Compares the identities of two observations and rates how comparable
/// they are.
pub fn compare_identity(left: &ObservationReference, right: &ObservationReference) -> (r: ComparabilityReport)
    ensures
        r.identity == identity_of(*left, *right),
        r.reasons@ == comparability_reasons(*left, *right),
        r.level == comparability_level(r.reasons@),
{
    let identity = IdentityComparison {
        backend: compare_required_string(left.runtime.backend.as_str(), right.runtime.backend.as_str()),
        provider: compare_observed_string(&left.runtime.provider, &right.runtime.provider),
        model: compare_observed_string(&left.runtime.model, &right.runtime.model),
        protocol: compare_observed_string(&left.runtime.protocol, &right.runtime.protocol),
        runtime: compare_observed_string(&left.runtime.runtime, &right.runtime.runtime),
        profile: compare_optional_string(
            match &left.runtime.profile_id { Some(p) => Some(p.as_str()), None => None },
            match &right.runtime.profile_id { Some(p) => Some(p.as_str()), None => None },
        ),
    };
    let mut reasons: Vec<ComparabilityReason> = Vec::new();
    if identity.backend == IdentityMatch::Mismatch {
        push_reason(&mut reasons, ComparabilityReason::RuntimeIdentityMismatch);
    }
    if identity.provider == IdentityMatch::Mismatch {
        push_reason(&mut reasons, ComparabilityReason::ProviderIdentityMismatch);
    }
    if identity.model == IdentityMatch::Mismatch {
        push_reason(&mut reasons, ComparabilityReason::ModelIdentityMismatch);
    }
    if identity.protocol == IdentityMatch::Mismatch {
        push_reason(&mut reasons, ComparabilityReason::ProtocolIdentityMismatch);
    }
    if identity.runtime == IdentityMatch::Mismatch {
        push_reason(&mut reasons, ComparabilityReason::RuntimeIdentityMismatch);
    }
    if identity.profile == IdentityMatch::Mismatch {
        push_reason(&mut reasons, ComparabilityReason::ProfileIdentityMismatch);
    }
    if left.observation_schema_version != right.observation_schema_version {
        push_reason(&mut reasons, ComparabilityReason::ObservationSchemaMismatch);
    }
    if left.request_fingerprint.is_none() || right.request_fingerprint.is_none() {
        push_reason(&mut reasons, ComparabilityReason::MissingRequestFingerprint);
    }
    if left.context_fingerprint.is_none() || right.context_fingerprint.is_none() {
        push_reason(&mut reasons, ComparabilityReason::MissingContextFingerprint);
    }
    if identity.provider == IdentityMatch::Missing
        || identity.model == IdentityMatch::Missing
        || identity.protocol == IdentityMatch::Missing
        || identity.runtime == IdentityMatch::Missing
        || identity.profile == IdentityMatch::Missing
    {
        push_reason(&mut reasons, ComparabilityReason::MissingIdentityDimension);
    }
    let mismatch = holds_any(&reasons, &vec![
        ComparabilityReason::RuntimeIdentityMismatch,
        ComparabilityReason::ModelIdentityMismatch,
        ComparabilityReason::ProviderIdentityMismatch,
        ComparabilityReason::ProtocolIdentityMismatch,
        ComparabilityReason::ProfileIdentityMismatch,
        ComparabilityReason::ObservationSchemaMismatch,
    ]);
    let missing_fingerprint = holds_any(&reasons, &vec![
        ComparabilityReason::MissingRequestFingerprint,
        ComparabilityReason::MissingContextFingerprint,
    ]);
    let missing_identity = holds_any(&reasons, &vec![ComparabilityReason::MissingIdentityDimension]);
    proof {
        assert(identity == identity_of(*left, *right));
    }
    let level = if mismatch {
        ComparabilityLevel::Incomparable
    } else if missing_fingerprint {
        ComparabilityLevel::InsufficientEvidence
    } else if missing_identity {
        ComparabilityLevel::PartiallyComparable
    } else {
        ComparabilityLevel::DirectlyComparable
    };
    ComparabilityReport { level, identity, reasons }
}

proof fn lemma_reason_if(s: Seq<ComparabilityReason>, c: bool, r: ComparabilityReason)
    requires
        s.len() < MAX_COMPARABILITY_REASONS,
    ensures
        reason_if(s, c, r).len() <= s.len() + 1,
        forall|x: ComparabilityReason| #[trigger] reason_if(s, c, r).contains(x) <==> s.contains(x) || (c && x == r),
{
    if c && !s.contains(r) {
        let t = s.push(r);
        assert(t[s.len() as int] == r);
        assert forall|x: ComparabilityReason| #[trigger] t.contains(x) <==> s.contains(x) || x == r by {
            if s.contains(x) {
                let k = choose|k: int| 0 <= k < s.len() && s[k] == x;
                assert(t[k] == x);
            }
            if t.contains(x) {
                let k = choose|k: int| 0 <= k < t.len() && t[k] == x;
                if k < s.len() {
                    assert(s[k] == x);
                }
            }
        }
    }
}

/// Some identity dimension, or the observation schema, differs.
pub open spec fn identity_mismatch(left: ObservationReference, right: ObservationReference) -> bool {
    let id = identity_of(left, right);
    ||| id.backend == IdentityMatch::Mismatch
    ||| id.provider == IdentityMatch::Mismatch
    ||| id.model == IdentityMatch::Mismatch
    ||| id.protocol == IdentityMatch::Mismatch
    ||| id.runtime == IdentityMatch::Mismatch
    ||| id.profile == IdentityMatch::Mismatch
    ||| left.observation_schema_version != right.observation_schema_version
}

/// Either observation lacks its request or context fingerprint.
pub open spec fn fingerprint_missing(left: ObservationReference, right: ObservationReference) -> bool {
    ||| left.request_fingerprint is None || right.request_fingerprint is None
    ||| left.context_fingerprint is None || right.context_fingerprint is None
}

/// An identity dimension other than the backend is missing on a side.
pub open spec fn dimension_missing(left: ObservationReference, right: ObservationReference) -> bool {
    let id = identity_of(left, right);
    ||| id.provider == IdentityMatch::Missing
    ||| id.model == IdentityMatch::Missing
    ||| id.protocol == IdentityMatch::Missing
    ||| id.runtime == IdentityMatch::Missing
    ||| id.profile == IdentityMatch::Missing
}

/// How comparable two observations are follows from their identities
/// alone: any mismatch makes them incomparable; otherwise a missing request
/// or context fingerprint leaves too little evidence; otherwise a missing
/// identity dimension leaves them partially comparable; otherwise they are
/// directly comparable.
proof fn lemma_reason_chain(
    c1: bool, c2: bool, c3: bool, c4: bool, c5: bool,
    c6: bool, c7: bool, c8: bool, c9: bool, c10: bool,
)
    ensures
        comparability_level(reason_chain(c1, c2, c3, c4, c5, c6, c7, c8, c9, c10))
            == if c1 || c2 || c3 || c4 || c5 || c6 || c7 {
                ComparabilityLevel::Incomparable
            } else if c8 || c9 {
                ComparabilityLevel::InsufficientEvidence
            } else if c10 {
                ComparabilityLevel::PartiallyComparable
            } else {
                ComparabilityLevel::DirectlyComparable
            },
{
    let r0 = Seq::<ComparabilityReason>::empty();
    let r1 = reason_if(r0, c1, ComparabilityReason::RuntimeIdentityMismatch);
    lemma_reason_if(r0, c1, ComparabilityReason::RuntimeIdentityMismatch);
    let r2 = reason_if(r1, c2, ComparabilityReason::ProviderIdentityMismatch);
    lemma_reason_if(r1, c2, ComparabilityReason::ProviderIdentityMismatch);
    let r3 = reason_if(r2, c3, ComparabilityReason::ModelIdentityMismatch);
    lemma_reason_if(r2, c3, ComparabilityReason::ModelIdentityMismatch);
    let r4 = reason_if(r3, c4, ComparabilityReason::ProtocolIdentityMismatch);
    lemma_reason_if(r3, c4, ComparabilityReason::ProtocolIdentityMismatch);
    let r5 = reason_if(r4, c5, ComparabilityReason::RuntimeIdentityMismatch);
    lemma_reason_if(r4, c5, ComparabilityReason::RuntimeIdentityMismatch);
    let r6 = reason_if(r5, c6, ComparabilityReason::ProfileIdentityMismatch);
    lemma_reason_if(r5, c6, ComparabilityReason::ProfileIdentityMismatch);
    let r7 = reason_if(r6, c7, ComparabilityReason::ObservationSchemaMismatch);
    lemma_reason_if(r6, c7, ComparabilityReason::ObservationSchemaMismatch);
    let r8 = reason_if(r7, c8, ComparabilityReason::MissingRequestFingerprint);
    lemma_reason_if(r7, c8, ComparabilityReason::MissingRequestFingerprint);
    let r9 = reason_if(r8, c9, ComparabilityReason::MissingContextFingerprint);
    lemma_reason_if(r8, c9, ComparabilityReason::MissingContextFingerprint);
    let r10 = reason_if(r9, c10, ComparabilityReason::MissingIdentityDimension);
    lemma_reason_if(r9, c10, ComparabilityReason::MissingIdentityDimension);
    assert(r10 == reason_chain(c1, c2, c3, c4, c5, c6, c7, c8, c9, c10));
    assert(r10.contains(ComparabilityReason::RuntimeIdentityMismatch) <==> c1 || c5);
    assert(r10.contains(ComparabilityReason::ProviderIdentityMismatch) <==> c2);
    assert(r10.contains(ComparabilityReason::ModelIdentityMismatch) <==> c3);
    assert(r10.contains(ComparabilityReason::ProtocolIdentityMismatch) <==> c4);
    assert(r10.contains(ComparabilityReason::ProfileIdentityMismatch) <==> c6);
    assert(r10.contains(ComparabilityReason::ObservationSchemaMismatch) <==> c7);
    assert(r10.contains(ComparabilityReason::MissingRequestFingerprint) <==> c8);
    assert(r10.contains(ComparabilityReason::MissingContextFingerprint) <==> c9);
    assert(r10.contains(ComparabilityReason::MissingIdentityDimension) <==> c10);
}

/// How comparable two observations are follows from their identities
/// alone: any mismatch makes them incomparable; otherwise a missing request
/// or context fingerprint leaves too little evidence; otherwise a missing
/// identity dimension leaves them partially comparable; otherwise they are
/// directly comparable.
pub proof fn law_comparability_follows_identity(left: ObservationReference, right: ObservationReference)
    ensures
        comparability_level(comparability_reasons(left, right)) == if identity_mismatch(left, right) {
            ComparabilityLevel::Incomparable
        } else if fingerprint_missing(left, right) {
            ComparabilityLevel::InsufficientEvidence
        } else if dimension_missing(left, right) {
            ComparabilityLevel::PartiallyComparable
        } else {
            ComparabilityLevel::DirectlyComparable
        },
{
    let id = identity_of(left, right);
    lemma_reason_chain(
        id.backend == IdentityMatch::Mismatch,
        id.provider == IdentityMatch::Mismatch,
        id.model == IdentityMatch::Mismatch,
        id.protocol == IdentityMatch::Mismatch,
        id.runtime == IdentityMatch::Mismatch,
        id.profile == IdentityMatch::Mismatch,
        left.observation_schema_version != right.observation_schema_version,
        left.request_fingerprint is None || right.request_fingerprint is None,
        left.context_fingerprint is None || right.context_fingerprint is None,
        dimension_missing(left, right),
    );
}

/// The snake-case name of a change category.
pub open spec fn category_name(category: ChangeCategory) -> Seq<char> {
    match category {
        ChangeCategory::TextContentChanged => "text_content_changed"@,
        ChangeCategory::ContentAdded => "content_added"@,
        ChangeCategory::ContentRemoved => "content_removed"@,
        ChangeCategory::ArtifactAdded => "artifact_added"@,
        ChangeCategory::ArtifactRemoved => "artifact_removed"@,
        ChangeCategory::ArtifactOrderChanged => "artifact_order_changed"@,
        ChangeCategory::ArtifactContentChanged => "artifact_content_changed"@,
        ChangeCategory::ToolAdded => "tool_added"@,
        ChangeCategory::ToolRemoved => "tool_removed"@,
        ChangeCategory::ToolOrderChanged => "tool_order_changed"@,
        ChangeCategory::ToolDefinitionChanged => "tool_definition_changed"@,
        ChangeCategory::OptionalSchemaFieldAdded => "optional_schema_field_added"@,
        ChangeCategory::OptionalSchemaFieldRemoved => "optional_schema_field_removed"@,
        ChangeCategory::OrderedSchemaFieldChanged => "ordered_schema_field_changed"@,
        ChangeCategory::JsonStructureChanged => "json_structure_changed"@,
        ChangeCategory::ValueChanged => "value_changed"@,
        ChangeCategory::PresenceChanged => "presence_changed"@,
    }
}

fn category_literal(category: ChangeCategory) -> (r: &'static str)
    ensures
        r@ == category_name(category),
{
    match category {
        ChangeCategory::TextContentChanged => "text_content_changed",
        ChangeCategory::ContentAdded => "content_added",
        ChangeCategory::ContentRemoved => "content_removed",
        ChangeCategory::ArtifactAdded => "artifact_added",
        ChangeCategory::ArtifactRemoved => "artifact_removed",
        ChangeCategory::ArtifactOrderChanged => "artifact_order_changed",
        ChangeCategory::ArtifactContentChanged => "artifact_content_changed",
        ChangeCategory::ToolAdded => "tool_added",
        ChangeCategory::ToolRemoved => "tool_removed",
        ChangeCategory::ToolOrderChanged => "tool_order_changed",
        ChangeCategory::ToolDefinitionChanged => "tool_definition_changed",
        ChangeCategory::OptionalSchemaFieldAdded => "optional_schema_field_added",
        ChangeCategory::OptionalSchemaFieldRemoved => "optional_schema_field_removed",
        ChangeCategory::OrderedSchemaFieldChanged => "ordered_schema_field_changed",
        ChangeCategory::JsonStructureChanged => "json_structure_changed",
        ChangeCategory::ValueChanged => "value_changed",
        ChangeCategory::PresenceChanged => "presence_changed",
    }
}

/// The snake-case name of a change category, as an owned string.
pub fn change_category_name(category: ChangeCategory) -> (r: String)
    ensures
        r@ == category_name(category),
{
    owned(category_literal(category))
}

pub open spec fn envelope_field_name_of(field: EnvelopeField) -> Seq<char> {
    match field {
        EnvelopeField::Model => "model"@,
        EnvelopeField::Reasoning => "reasoning"@,
        EnvelopeField::ResponseFormat => "response_format"@,
    }
}

pub fn envelope_field_name(field: EnvelopeField) -> (r: &'static str)
    ensures
        r@ == envelope_field_name_of(field),
{
    match field {
        EnvelopeField::Model => "model",
        EnvelopeField::Reasoning => "reasoning",
        EnvelopeField::ResponseFormat => "response_format",
    }
}

/// The names of the structural changes a request diff records: the
/// category of each context change, and `envelope_` with the field of each
/// envelope change.
pub open spec fn structural_names(d: RequestDiff) -> Set<Seq<char>> {
    Set::new(|name: Seq<char>|
        (exists|i: int| 0 <= i < d.prefix_diff.changes.len()
            && name == category_name(#[trigger] d.prefix_diff.changes@[i].category))
        || (exists|i: int| 0 <= i < d.envelope_diff.changes.len()
            && name == "envelope_"@ + envelope_field_name_of(#[trigger] d.envelope_diff.changes@[i].field)))
}

/// The structural change names of a request diff, sorted, each once.
pub fn structural_categories(request_diff: &RequestDiff) -> (r: Vec<String>)
    ensures
        sorted_strict::<String>(views(r@)),
        views(r@).to_set() == structural_names(*request_diff),
{
    let ghost d = *request_diff;
    let mut names: Vec<String> = Vec::new();
    let mut i: usize = 0;
    while i < request_diff.prefix_diff.changes.len()
        invariant
            d == *request_diff,
            i <= d.prefix_diff.changes.len(),
            names.len() == i,
            forall|k: int| 0 <= k < i ==> (#[trigger] names@[k])@ == category_name(d.prefix_diff.changes@[k].category),
        decreases d.prefix_diff.changes.len() - i,
    {
        names.push(change_category_name(request_diff.prefix_diff.changes[i].category));
        i = i + 1;
    }
    let prefix_count = names.len();
    let mut j: usize = 0;
    while j < request_diff.envelope_diff.changes.len()
        invariant
            d == *request_diff,
            prefix_count == d.prefix_diff.changes.len(),
            j <= d.envelope_diff.changes.len(),
            names.len() == prefix_count + j,
            forall|k: int| 0 <= k < prefix_count ==> (#[trigger] names@[k])@ == category_name(d.prefix_diff.changes@[k].category),
            forall|k: int| 0 <= k < j ==> (#[trigger] names@[prefix_count + k])@
                == "envelope_"@ + envelope_field_name_of(d.envelope_diff.changes@[k].field),
        decreases d.envelope_diff.changes.len() - j,
    {
        names.push(concat2("envelope_", envelope_field_name(request_diff.envelope_diff.changes[j].field)));
        proof {
            assert(names@[prefix_count + j as int]@ == "envelope_"@ + envelope_field_name_of(d.envelope_diff.changes@[j as int].field));
        }
        j = j + 1;
    }
    proof {
        assert(views(names@).to_set() =~= structural_names(d)) by {
            assert forall|name: Seq<char>| views(names@).to_set().contains(name) implies structural_names(d).contains(name) by {
                let k = choose|k: int| 0 <= k < views(names@).len() && views(names@)[k] == name;
                if k < prefix_count {
                    assert(name == category_name(d.prefix_diff.changes@[k].category));
                } else {
                    assert(names@[prefix_count + (k - prefix_count)]@ == name);
                    assert(name == "envelope_"@ + envelope_field_name_of(d.envelope_diff.changes@[k - prefix_count].field));
                }
            }
            assert forall|name: Seq<char>| structural_names(d).contains(name) implies views(names@).to_set().contains(name) by {
                if exists|i: int| 0 <= i < d.prefix_diff.changes.len()
                    && name == category_name(#[trigger] d.prefix_diff.changes@[i].category) {
                    let i = choose|i: int| 0 <= i < d.prefix_diff.changes.len()
                        && name == category_name(#[trigger] d.prefix_diff.changes@[i].category);
                    assert(views(names@)[i] == name);
                } else {
                    let i = choose|i: int| 0 <= i < d.envelope_diff.changes.len()
                        && name == "envelope_"@ + envelope_field_name_of(#[trigger] d.envelope_diff.changes@[i].field);
                    assert(names@[prefix_count + i]@ == name);
                    assert(views(names@)[prefix_count + i] == name);
                }
            }
        }
    }
    sort_unique(names)
}

// ---------------------------------------------------------------------------
// Assessing a comparison of two observations.

/// What the cache assessment reads of a comparison of two observations:
/// the request fingerprints the observations carry, their comparability,
/// and the direction in which each token, timing and resource metric moved.
/// The metric values themselves, and the ratios derived from them, are not
/// held here.
#[derive(Debug, Clone, PartialEq, Eq)]
pub struct ComparisonSignals {
    pub left_request_fingerprint: Option<String>,
    pub right_request_fingerprint: Option<String>,
    pub level: ComparabilityLevel,
    pub transmitted_input_tokens: MetricDirection,
    pub provider_cached_tokens: MetricDirection,
    pub fresh_prefill_tokens: MetricDirection,
    pub reconstructed_context_tokens: MetricDirection,
    pub output_tokens: MetricDirection,
    pub prefill_duration_ms: MetricDirection,
    pub time_to_first_token_ms: MetricDirection,
    pub generation_duration_ms: MetricDirection,
    pub wall_duration_ms: MetricDirection,
    pub ram_bytes: MetricDirection,
    pub vram_bytes: MetricDirection,
    pub kv_cache_bytes: MetricDirection,
}

/// Whether the observations answered the two requests of the diff.
pub open spec fn alignment_of(d: RequestDiff, c: ComparisonSignals) -> RequestObservationAlignment {
    match (opt_view(c.left_request_fingerprint), opt_view(c.right_request_fingerprint)) {
        (Some(l), Some(r)) => if l == d.left_request_fingerprint@ && r == d.right_request_fingerprint@ {
            RequestObservationAlignment::Aligned
        } else {
            RequestObservationAlignment::Mismatched
        },
        _ => RequestObservationAlignment::Unavailable,
    }
}

/// Whether the observations answered the two requests of the diff.
pub fn request_observation_alignment(request_diff: &RequestDiff, comparison: &ComparisonSignals) -> (r: RequestObservationAlignment)
    ensures
        r == alignment_of(*request_diff, *comparison),
{
    match (&comparison.left_request_fingerprint, &comparison.right_request_fingerprint) {
        (Some(l), Some(r)) => if str_eq(l.as_str(), request_diff.left_request_fingerprint.as_str())
            && str_eq(r.as_str(), request_diff.right_request_fingerprint.as_str())
        {
            RequestObservationAlignment::Aligned
        } else {
            RequestObservationAlignment::Mismatched
        },
        _ => RequestObservationAlignment::Unavailable,
    }
}

pub open spec fn moved_direction(d: MetricDirection) -> bool {
    d == MetricDirection::Increased || d == MetricDirection::Decreased
}

/// The cache assessment of a comparison: too little evidence when the
/// observations do not match the requests, the comparability or the
/// cached-token direction; no change when cached tokens did not move;
/// mixed when timing or fresh prefill moved as well; otherwise the
/// direction in which cached-token reuse moved.
pub open spec fn assessment_of(c: ComparisonSignals, alignment: RequestObservationAlignment) -> CacheRegressionAssessment {
    if alignment == RequestObservationAlignment::Mismatched {
        CacheRegressionAssessment::InsufficientEvidence
    } else if c.level == ComparabilityLevel::Incomparable {
        CacheRegressionAssessment::Incomparable
    } else if c.level == ComparabilityLevel::InsufficientEvidence {
        CacheRegressionAssessment::InsufficientEvidence
    } else if c.provider_cached_tokens == MetricDirection::Unavailable {
        CacheRegressionAssessment::InsufficientEvidence
    } else if c.provider_cached_tokens == MetricDirection::Unchanged {
        CacheRegressionAssessment::NoObservedCacheReuseChange
    } else if moved_direction(c.prefill_duration_ms) || moved_direction(c.time_to_first_token_ms)
        || moved_direction(c.generation_duration_ms) || moved_direction(c.wall_duration_ms)
        || moved_direction(c.fresh_prefill_tokens)
    {
        CacheRegressionAssessment::MixedObservations
    } else if c.provider_cached_tokens == MetricDirection::Increased {
        CacheRegressionAssessment::ObservedReuseIncrease
    } else {
        CacheRegressionAssessment::ObservedReuseDecrease
    }
}

fn moved_metric(d: MetricDirection) -> (r: bool)
    ensures
        r == moved_direction(d),
{
    d == MetricDirection::Increased || d == MetricDirection::Decreased
}

/// The cache assessment of a comparison.
pub fn assess_cache(comparison: &ComparisonSignals, alignment: RequestObservationAlignment) -> (r: CacheRegressionAssessment)
    ensures
        r == assessment_of(*comparison, alignment),
{
    if alignment == RequestObservationAlignment::Mismatched {
        return CacheRegressionAssessment::InsufficientEvidence;
    }
    match comparison.level {
        ComparabilityLevel::Incomparable => return CacheRegressionAssessment::Incomparable,
        ComparabilityLevel::InsufficientEvidence => return CacheRegressionAssessment::InsufficientEvidence,
        ComparabilityLevel::DirectlyComparable | ComparabilityLevel::PartiallyComparable => {},
    }
    let reuse = comparison.provider_cached_tokens;
    if reuse == MetricDirection::Unavailable {
        return CacheRegressionAssessment::InsufficientEvidence;
    }
    if reuse == MetricDirection::Unchanged {
        return CacheRegressionAssessment::NoObservedCacheReuseChange;
    }
    let timing_changed = moved_metric(comparison.prefill_duration_ms) || moved_metric(comparison.time_to_first_token_ms)
        || moved_metric(comparison.generation_duration_ms) || moved_metric(comparison.wall_duration_ms);
    let prefill_changed = moved_metric(comparison.fresh_prefill_tokens);
    if timing_changed || prefill_changed {
        CacheRegressionAssessment::MixedObservations
    } else if reuse == MetricDirection::Increased {
        CacheRegressionAssessment::ObservedReuseIncrease
    } else {
        CacheRegressionAssessment::ObservedReuseDecrease
    }
}

/// Every metric with its direction, in metric order.
pub open spec fn all_directions(c: ComparisonSignals) -> Seq<(DiagnosticMetric, MetricDirection)> {
    seq![
        (DiagnosticMetric::TransmittedInputTokens, c.transmitted_input_tokens),
        (DiagnosticMetric::ProviderCachedTokens, c.provider_cached_tokens),
        (DiagnosticMetric::FreshPrefillTokens, c.fresh_prefill_tokens),
        (DiagnosticMetric::ReconstructedContextTokens, c.reconstructed_context_tokens),
        (DiagnosticMetric::OutputTokens, c.output_tokens),
        (DiagnosticMetric::PrefillDurationMs, c.prefill_duration_ms),
        (DiagnosticMetric::TimeToFirstTokenMs, c.time_to_first_token_ms),
        (DiagnosticMetric::GenerationDurationMs, c.generation_duration_ms),
        (DiagnosticMetric::WallDurationMs, c.wall_duration_ms),
        (DiagnosticMetric::RamBytes, c.ram_bytes),
        (DiagnosticMetric::VramBytes, c.vram_bytes),
        (DiagnosticMetric::KvCacheBytes, c.kv_cache_bytes)
    ]
}

/// The metrics whose direction is available, with their directions, in
/// metric order.
pub open spec fn observed_directions(c: ComparisonSignals) -> Seq<(DiagnosticMetric, MetricDirection)> {
    all_directions(c).filter(|e: (DiagnosticMetric, MetricDirection)| e.1 != MetricDirection::Unavailable)
}

/// The metrics whose direction is available, with their directions.
pub fn metric_directions(comparison: &ComparisonSignals) -> (r: Vec<(DiagnosticMetric, MetricDirection)>)
    ensures
        r@ == observed_directions(*comparison),
{
    let values = vec![
        (DiagnosticMetric::TransmittedInputTokens, comparison.transmitted_input_tokens),
        (DiagnosticMetric::ProviderCachedTokens, comparison.provider_cached_tokens),
        (DiagnosticMetric::FreshPrefillTokens, comparison.fresh_prefill_tokens),
        (DiagnosticMetric::ReconstructedContextTokens, comparison.reconstructed_context_tokens),
        (DiagnosticMetric::OutputTokens, comparison.output_tokens),
        (DiagnosticMetric::PrefillDurationMs, comparison.prefill_duration_ms),
        (DiagnosticMetric::TimeToFirstTokenMs, comparison.time_to_first_token_ms),
        (DiagnosticMetric::GenerationDurationMs, comparison.generation_duration_ms),
        (DiagnosticMetric::WallDurationMs, comparison.wall_duration_ms),
        (DiagnosticMetric::RamBytes, comparison.ram_bytes),
        (DiagnosticMetric::VramBytes, comparison.vram_bytes),
        (DiagnosticMetric::KvCacheBytes, comparison.kv_cache_bytes)
    ];
    proof {
        assert(values@ =~= all_directions(*comparison));
    }
    let mut r: Vec<(DiagnosticMetric, MetricDirection)> = Vec::new();
    let mut i: usize = 0;
    while i < values.len()
        invariant
            values@ == all_directions(*comparison),
            i <= values.len(),
            r.len() <= i,
            r@ == all_directions(*comparison).take(i as int).filter(
                |e: (DiagnosticMetric, MetricDirection)| e.1 != MetricDirection::Unavailable),
        decreases values.len() - i,
    {
        let (metric, direction) = values[i];
        proof {
            reveal(Seq::filter);
            assert(values@.take(i + 1).drop_last() =~= values@.take(i as int));
        }
        if direction != MetricDirection::Unavailable && r.len() < MAX_SIGNAL_DIRECTIONS {
            r.push((metric, direction));
        }
        i = i + 1;
    }
    proof {
        assert(values@.take(values.len() as int) =~= values@);
    }
    r
}

/// The snake-case name of a diagnostic metric.
pub open spec fn metric_name_of(x: DiagnosticMetric) -> Seq<char> {
    match x {
        DiagnosticMetric::TransmittedInputTokens => "transmitted_input_tokens"@,
        DiagnosticMetric::ProviderCachedTokens => "provider_cached_tokens"@,
        DiagnosticMetric::FreshPrefillTokens => "fresh_prefill_tokens"@,
        DiagnosticMetric::ReconstructedContextTokens => "reconstructed_context_tokens"@,
        DiagnosticMetric::OutputTokens => "output_tokens"@,
        DiagnosticMetric::PrefillDurationMs => "prefill_duration_ms"@,
        DiagnosticMetric::TimeToFirstTokenMs => "time_to_first_token_ms"@,
        DiagnosticMetric::GenerationDurationMs => "generation_duration_ms"@,
        DiagnosticMetric::WallDurationMs => "wall_duration_ms"@,
        DiagnosticMetric::RamBytes => "ram_bytes"@,
        DiagnosticMetric::VramBytes => "vram_bytes"@,
        DiagnosticMetric::KvCacheBytes => "kv_cache_bytes"@,
    }
}

pub fn metric_name(x: DiagnosticMetric) -> (r: &'static str)
    ensures
        r@ == metric_name_of(x),
{
    match x {
        DiagnosticMetric::TransmittedInputTokens => "transmitted_input_tokens",
        DiagnosticMetric::ProviderCachedTokens => "provider_cached_tokens",
        DiagnosticMetric::FreshPrefillTokens => "fresh_prefill_tokens",
        DiagnosticMetric::ReconstructedContextTokens => "reconstructed_context_tokens",
        DiagnosticMetric::OutputTokens => "output_tokens",
        DiagnosticMetric::PrefillDurationMs => "prefill_duration_ms",
        DiagnosticMetric::TimeToFirstTokenMs => "time_to_first_token_ms",
        DiagnosticMetric::GenerationDurationMs => "generation_duration_ms",
        DiagnosticMetric::WallDurationMs => "wall_duration_ms",
        DiagnosticMetric::RamBytes => "ram_bytes",
        DiagnosticMetric::VramBytes => "vram_bytes",
        DiagnosticMetric::KvCacheBytes => "kv_cache_bytes",
    }
}

/// The snake-case name of a metric direction.
pub open spec fn direction_name_of(x: MetricDirection) -> Seq<char> {
    match x {
        MetricDirection::Increased => "increased"@,
        MetricDirection::Decreased => "decreased"@,
        MetricDirection::Unchanged => "unchanged"@,
        MetricDirection::Unavailable => "unavailable"@,
    }
}

pub fn direction_name(x: MetricDirection) -> (r: &'static str)
    ensures
        r@ == direction_name_of(x),
{
    match x {
        MetricDirection::Increased => "increased",
        MetricDirection::Decreased => "decreased",
        MetricDirection::Unchanged => "unchanged",
        MetricDirection::Unavailable => "unavailable",
    }
}

/// The snake-case name of a comparability level.
pub open spec fn comparability_name_of(x: ComparabilityLevel) -> Seq<char> {
    match x {
        ComparabilityLevel::DirectlyComparable => "directly_comparable"@,
        ComparabilityLevel::PartiallyComparable => "partially_comparable"@,
        ComparabilityLevel::Incomparable => "incomparable"@,
        ComparabilityLevel::InsufficientEvidence => "insufficient_evidence"@,
    }
}

pub fn comparability_name(x: ComparabilityLevel) -> (r: &'static str)
    ensures
        r@ == comparability_name_of(x),
{
    match x {
        ComparabilityLevel::DirectlyComparable => "directly_comparable",
        ComparabilityLevel::PartiallyComparable => "partially_comparable",
        ComparabilityLevel::Incomparable => "incomparable",
        ComparabilityLevel::InsufficientEvidence => "insufficient_evidence",
    }
}

/// The snake-case name of a cache assessment.
pub open spec fn assessment_name_of(x: CacheRegressionAssessment) -> Seq<char> {
    match x {
        CacheRegressionAssessment::InsufficientEvidence => "insufficient_evidence"@,
        CacheRegressionAssessment::NoObservedCacheReuseChange => "no_observed_cache_reuse_change"@,
        CacheRegressionAssessment::ObservedReuseIncrease => "observed_reuse_increase"@,
        CacheRegressionAssessment::ObservedReuseDecrease => "observed_reuse_decrease"@,
        CacheRegressionAssessment::MixedObservations => "mixed_observations"@,
        CacheRegressionAssessment::Incomparable => "incomparable"@,
    }
}

pub fn assessment_name(x: CacheRegressionAssessment) -> (r: &'static str)
    ensures
        r@ == assessment_name_of(x),
{
    match x {
        CacheRegressionAssessment::InsufficientEvidence => "insufficient_evidence",
        CacheRegressionAssessment::NoObservedCacheReuseChange => "no_observed_cache_reuse_change",
        CacheRegressionAssessment::ObservedReuseIncrease => "observed_reuse_increase",
        CacheRegressionAssessment::ObservedReuseDecrease => "observed_reuse_decrease",
        CacheRegressionAssessment::MixedObservations => "mixed_observations",
        CacheRegressionAssessment::Incomparable => "incomparable",
    }
}

/// The snake-case name of an evidence association.
pub open spec fn association_name_of(x: EvidenceAssociation) -> Seq<char> {
    match x {
        EvidenceAssociation::NoStructuralDifference => "no_structural_difference"@,
        EvidenceAssociation::StructuralDifferenceWithoutComparableObservation => "structural_difference_without_comparable_observation"@,
        EvidenceAssociation::StructuralDifferenceWithObservedMetricChange => "structural_difference_with_observed_metric_change"@,
        EvidenceAssociation::StructuralDifferenceWithObservedReuseSignal => "structural_difference_with_observed_reuse_signal"@,
    }
}

pub fn association_name(x: EvidenceAssociation) -> (r: &'static str)
    ensures
        r@ == association_name_of(x),
{
    match x {
        EvidenceAssociation::NoStructuralDifference => "no_structural_difference",
        EvidenceAssociation::StructuralDifferenceWithoutComparableObservation => "structural_difference_without_comparable_observation",
        EvidenceAssociation::StructuralDifferenceWithObservedMetricChange => "structural_difference_with_observed_metric_change",
        EvidenceAssociation::StructuralDifferenceWithObservedReuseSignal => "structural_difference_with_observed_reuse_signal",
    }
}

/// The snake-case name of a request/observation alignment.
pub open spec fn alignment_name_of(x: RequestObservationAlignment) -> Seq<char> {
    match x {
        RequestObservationAlignment::Aligned => "aligned"@,
        RequestObservationAlignment::Mismatched => "mismatched"@,
        RequestObservationAlignment::Unavailable => "unavailable"@,
    }
}

pub fn alignment_name(x: RequestObservationAlignment) -> (r: &'static str)
    ensures
        r@ == alignment_name_of(x),
{
    match x {
        RequestObservationAlignment::Aligned => "aligned",
        RequestObservationAlignment::Mismatched => "mismatched",
        RequestObservationAlignment::Unavailable => "unavailable",
    }
}


/// How the structural difference and the observed metrics relate.
pub open spec fn association_of(
    has_structural_change: bool,
    has_observed_change: bool,
    has_reuse_signal: bool,
    alignment: RequestObservationAlignment,
) -> EvidenceAssociation {
    if alignment != RequestObservationAlignment::Aligned && has_structural_change {
        EvidenceAssociation::StructuralDifferenceWithoutComparableObservation
    } else if !has_structural_change {
        EvidenceAssociation::NoStructuralDifference
    } else if !has_observed_change {
        EvidenceAssociation::StructuralDifferenceWithoutComparableObservation
    } else if has_reuse_signal {
        EvidenceAssociation::StructuralDifferenceWithObservedReuseSignal
    } else {
        EvidenceAssociation::StructuralDifferenceWithObservedMetricChange
    }
}

/// Some observed metric moved.
pub open spec fn some_moved(observed: Seq<(DiagnosticMetric, MetricDirection)>) -> bool {
    exists|k: int| 0 <= k < observed.len() && moved_direction(#[trigger] observed[k].1)
}

/// The `metric=direction` texts of the observed metrics.
pub open spec fn direction_texts(observed: Seq<(DiagnosticMetric, MetricDirection)>) -> Seq<Seq<char>> {
    observed.map_values(|e: (DiagnosticMetric, MetricDirection)| metric_name_of(e.0) + "="@ + direction_name_of(e.1))
}

/// The one-line statement of a diagnostic.
pub open spec fn statement_of(
    categories: Seq<Seq<char>>,
    observed: Seq<(DiagnosticMetric, MetricDirection)>,
    level: ComparabilityLevel,
    assessment: CacheRegressionAssessment,
    alignment: RequestObservationAlignment,
    association: EvidenceAssociation,
) -> Seq<char> {
    "structural_changes="@ + (if categories.len() == 0 { "none"@ } else { join(categories, seq![','])})
        + ";comparability="@ + comparability_name_of(level)
        + ";assessment="@ + assessment_name_of(assessment)
        + ";observed_directions="@
        + (if observed.len() == 0 { "none"@ } else { join(direction_texts(observed), seq![','])})
        + ";alignment="@ + alignment_name_of(alignment)
        + ";association="@ + association_name_of(association)
        + ";causality=not_established"@
}

fn append(out: &mut String, text: &str)
    ensures
        final(out)@ == old(out)@ + text@,
{
    out.append(text);
}

/// The evidence statement of a diagnostic: the structural changes, the
/// observed metric directions, how they relate, and a one-line summary.
/// Causality is never established.
pub fn evidence_statement(
    request_diff: &RequestDiff,
    comparison: &ComparisonSignals,
    assessment: CacheRegressionAssessment,
    alignment: RequestObservationAlignment,
) -> (r: EvidenceStatement)
    ensures
        sorted_strict::<String>(views(r.structural_change_categories@)),
        views(r.structural_change_categories@).to_set() == structural_names(*request_diff),
        r.observed_metric_directions@ == observed_directions(*comparison),
        r.association == association_of(
            r.structural_change_categories.len() > 0,
            some_moved(observed_directions(*comparison)),
            moved_direction(comparison.provider_cached_tokens),
            alignment,
        ),
        r.causality == CausalityStatus::NotEstablished,
        r.statement@ == statement_of(views(r.structural_change_categories@), observed_directions(*comparison),
            comparison.level, assessment, alignment, r.association),
{
    let structural_change_categories = structural_categories(request_diff);
    let observed_metric_directions = metric_directions(comparison);
    let has_structural_change = structural_change_categories.len() > 0;
    let mut has_observed_change = false;
    let mut k: usize = 0;
    while k < observed_metric_directions.len()
        invariant
            k <= observed_metric_directions.len(),
            has_observed_change == exists|j: int| 0 <= j < k && moved_direction(#[trigger] observed_metric_directions@[j].1),
        decreases observed_metric_directions.len() - k,
    {
        if moved_metric(observed_metric_directions[k].1) {
            has_observed_change = true;
        }
        k = k + 1;
    }
    let has_reuse_signal = moved_metric(comparison.provider_cached_tokens);
    let association = if alignment != RequestObservationAlignment::Aligned && has_structural_change {
        EvidenceAssociation::StructuralDifferenceWithoutComparableObservation
    } else if !has_structural_change {
        EvidenceAssociation::NoStructuralDifference
    } else if !has_observed_change {
        EvidenceAssociation::StructuralDifferenceWithoutComparableObservation
    } else if has_reuse_signal {
        EvidenceAssociation::StructuralDifferenceWithObservedReuseSignal
    } else {
        EvidenceAssociation::StructuralDifferenceWithObservedMetricChange
    };
    let structural = if structural_change_categories.len() == 0 {
        owned("none")
    } else {
        join_texts(&structural_change_categories, ',')
    };
    let mut texts: Vec<String> = Vec::new();
    let mut k: usize = 0;
    while k < observed_metric_directions.len()
        invariant
            k <= observed_metric_directions.len(),
            views(texts@) == direction_texts(observed_metric_directions@).take(k as int),
        decreases observed_metric_directions.len() - k,
    {
        let (metric, direction) = observed_metric_directions[k];
        let ghost before = views(texts@);
        texts.push(concat3(metric_name(metric), "=", direction_name(direction)));
        proof {
            assert(views(texts@) =~= before.push(metric_name_of(metric) + "="@ + direction_name_of(direction)));
            assert(direction_texts(observed_metric_directions@).take(k + 1)
                =~= direction_texts(observed_metric_directions@).take(k as int).push(
                    metric_name_of(metric) + "="@ + direction_name_of(direction)));
        }
        k = k + 1;
    }
    proof {
        assert(direction_texts(observed_metric_directions@).take(observed_metric_directions.len() as int)
            =~= direction_texts(observed_metric_directions@));
    }
    let directions = if observed_metric_directions.len() == 0 {
        owned("none")
    } else {
        join_texts(&texts, ',')
    };
    let mut statement = owned("structural_changes=");
    append(&mut statement, structural.as_str());
    append(&mut statement, ";comparability=");
    append(&mut statement, comparability_name(comparison.level));
    append(&mut statement, ";assessment=");
    append(&mut statement, assessment_name(assessment));
    append(&mut statement, ";observed_directions=");
    append(&mut statement, directions.as_str());
    append(&mut statement, ";alignment=");
    append(&mut statement, alignment_name(alignment));
    append(&mut statement, ";association=");
    append(&mut statement, association_name(association));
    append(&mut statement, ";causality=not_established");
    EvidenceStatement {
        structural_change_categories,
        observed_metric_directions,
        association,
        causality: CausalityStatus::NotEstablished,
        statement,
    }
}

/// A change in cache reuse is reported only for observations that are
/// comparable, that did not answer other requests than the diffed ones, and
/// whose cached tokens moved while neither timing nor fresh prefill did;
/// the direction reported is the direction the cached tokens moved.
pub proof fn law_reuse_change_needs_clean_comparison(c: ComparisonSignals, alignment: RequestObservationAlignment)
    ensures
        assessment_of(c, alignment) == CacheRegressionAssessment::ObservedReuseIncrease
            || assessment_of(c, alignment) == CacheRegressionAssessment::ObservedReuseDecrease
        ==> {
            &&& alignment != RequestObservationAlignment::Mismatched
            &&& (c.level == ComparabilityLevel::DirectlyComparable || c.level == ComparabilityLevel::PartiallyComparable)
            &&& !moved_direction(c.prefill_duration_ms) && !moved_direction(c.time_to_first_token_ms)
            &&& !moved_direction(c.generation_duration_ms) && !moved_direction(c.wall_duration_ms)
            &&& !moved_direction(c.fresh_prefill_tokens)
            &&& (assessment_of(c, alignment) == CacheRegressionAssessment::ObservedReuseIncrease
                <==> c.provider_cached_tokens == MetricDirection::Increased)
            &&& (assessment_of(c, alignment) == CacheRegressionAssessment::ObservedReuseDecrease
                <==> c.provider_cached_tokens == MetricDirection::Decreased)
        },
{
}

// ---------------------------------------------------------------------------
// Metric deltas between two observations.

/// A token count with the scope in which it was counted.
#[derive(Debug, Clone, PartialEq, Eq)]
pub struct TokenCount {
    pub count: u64,
    pub provider: Observed<String>,
    pub model: Observed<String>,
    pub tokenizer: Observed<String>,
}

/// What a comparison reads of one cache observation: its token accounting,
/// its timings and its resource usage.
#[derive(Debug, Clone, PartialEq, Eq)]
pub struct ObservationMetrics {
    pub transmitted_input_tokens: Observed<TokenCount>,
    pub provider_cached_tokens: Observed<TokenCount>,
    pub fresh_prefill_tokens: Observed<TokenCount>,
    pub reconstructed_context_tokens: Observed<TokenCount>,
    pub output_tokens: Observed<TokenCount>,
    pub prefill_duration_ms: Observed<u64>,
    pub time_to_first_token_ms: Observed<u64>,
    pub generation_duration_ms: Observed<u64>,
    pub wall_duration_ms: Observed<u64>,
    pub ram_bytes: Observed<u64>,
    pub vram_bytes: Observed<u64>,
    pub kv_cache_bytes: Observed<u64>,
}

/// The change of a token metric between two observations. The relative
/// change (a float: the delta over the denominator) is not held here.
#[derive(Debug, Clone, PartialEq, Eq)]
pub struct TokenMetricDelta {
    pub left: Observed<TokenCount>,
    pub right: Observed<TokenCount>,
    pub delta: Option<i64>,
    pub relative_change_denominator: Option<u64>,
    pub direction: MetricDirection,
}

/// The change of a timing or resource measurement between two
/// observations. The relative change (a float) is not held here.
#[derive(Debug, Clone, PartialEq, Eq)]
pub struct NumericMetricDelta {
    pub left: Observed<u64>,
    pub right: Observed<u64>,
    pub delta: Option<i64>,
    pub relative_change_denominator: Option<u64>,
    pub direction: MetricDirection,
}

pub open spec fn token_count_view(t: TokenCount) -> (u64, Observed<Seq<char>>, Observed<Seq<char>>, Observed<Seq<char>>) {
    (t.count, observed_view(t.provider), observed_view(t.model), observed_view(t.tokenizer))
}

pub open spec fn observed_count_view(o: Observed<TokenCount>) -> Observed<(u64, Observed<Seq<char>>, Observed<Seq<char>>, Observed<Seq<char>>)> {
    match o {
        Observed::Known(t) => Observed::Known(token_count_view(t)),
        Observed::Unknown => Observed::Unknown,
        Observed::NotObserved => Observed::NotObserved,
    }
}

/// The direction of a delta: up, down, unchanged, or unavailable without one.
pub open spec fn direction_of_delta(delta: Option<i64>) -> MetricDirection {
    match delta {
        Some(d) => if d > 0 {
            MetricDirection::Increased
        } else if d < 0 {
            MetricDirection::Decreased
        } else {
            MetricDirection::Unchanged
        },
        None => MetricDirection::Unavailable,
    }
}

/// `right - left`, when it fits in an `i64`.
pub open spec fn delta_of(left: u64, right: u64) -> Option<i64> {
    if i64::MIN <= right - left <= i64::MAX { Some((right - left) as i64) } else { None }
}

/// The denominator of a relative change: the left value, when it is not zero.
pub open spec fn denominator_of(left: u64) -> Option<u64> {
    if left > 0 { Some(left) } else { None }
}

/// Two scope dimensions agree unless both are known and differ.
pub open spec fn scope_matches(left: Observed<Seq<char>>, right: Observed<Seq<char>>) -> bool {
    match (left, right) {
        (Observed::Known(l), Observed::Known(r)) => l == r,
        _ => true,
    }
}

/// Two token counts were counted in compatible scopes: provider, model and
/// tokenizer each agree (see `scope_matches`).
pub open spec fn scopes_compatible(left: TokenCount, right: TokenCount) -> bool {
    &&& scope_matches(observed_view(left.provider), observed_view(right.provider))
    &&& scope_matches(observed_view(left.model), observed_view(right.model))
    &&& scope_matches(observed_view(left.tokenizer), observed_view(right.tokenizer))
}

/// The delta and denominator of a token metric: defined when both counts
/// are known and their scopes are compatible.
pub open spec fn token_values(left: Observed<TokenCount>, right: Observed<TokenCount>) -> (Option<i64>, Option<u64>) {
    match (left, right) {
        (Observed::Known(l), Observed::Known(r)) => if scopes_compatible(l, r) {
            (delta_of(l.count, r.count), denominator_of(l.count))
        } else {
            (None, None)
        },
        _ => (None, None),
    }
}

/// The delta and denominator of a measurement: defined when both are known.
pub open spec fn numeric_values_of(left: Observed<u64>, right: Observed<u64>) -> (Option<i64>, Option<u64>) {
    match (left, right) {
        (Observed::Known(l), Observed::Known(r)) => (delta_of(l, r), denominator_of(l)),
        _ => (None, None),
    }
}

/// The direction of a delta (see `direction_of_delta`).
pub fn direction(delta: Option<i64>) -> (r: MetricDirection)
    ensures
        r == direction_of_delta(delta),
{
    match delta {
        Some(d) => if d > 0 {
            MetricDirection::Increased
        } else if d < 0 {
            MetricDirection::Decreased
        } else {
            MetricDirection::Unchanged
        },
        None => MetricDirection::Unavailable,
    }
}

/// The delta from `left` to `right` and the denominator of its relative
/// change (see `delta_of` and `denominator_of`).
pub fn numeric_values(left: u64, right: u64) -> (r: (Option<i64>, Option<u64>))
    ensures
        r.0 == delta_of(left, right),
        r.1 == denominator_of(left),
{
    let d: i128 = right as i128 - left as i128;
    let delta = if -9223372036854775808i128 <= d && d <= 9223372036854775807i128 { Some(d as i64) } else { None };
    let denominator = if left > 0 { Some(left) } else { None };
    (delta, denominator)
}

/// Whether two scope dimensions agree (see `scope_matches`).
pub fn observed_scope_matches(left: &Observed<String>, right: &Observed<String>) -> (r: bool)
    ensures
        r == scope_matches(observed_view(*left), observed_view(*right)),
{
    match (left, right) {
        (Observed::Known(l), Observed::Known(x)) => str_eq(l.as_str(), x.as_str()),
        _ => true,
    }
}

/// Whether two token counts were counted in compatible scopes.
pub fn token_scopes_compatible(left: &TokenCount, right: &TokenCount) -> (r: bool)
    ensures
        r == scopes_compatible(*left, *right),
{
    observed_scope_matches(&left.provider, &right.provider)
        && observed_scope_matches(&left.model, &right.model)
        && observed_scope_matches(&left.tokenizer, &right.tokenizer)
}

fn copy_observed_string(o: &Observed<String>) -> (r: Observed<String>)
    ensures
        observed_view(r) == observed_view(*o),
{
    match o {
        Observed::Known(s) => Observed::Known(s.clone()),
        Observed::Unknown => Observed::Unknown,
        Observed::NotObserved => Observed::NotObserved,
    }
}

fn copy_observed_count(o: &Observed<TokenCount>) -> (r: Observed<TokenCount>)
    ensures
        observed_count_view(r) == observed_count_view(*o),
{
    match o {
        Observed::Known(t) => Observed::Known(TokenCount {
            count: t.count,
            provider: copy_observed_string(&t.provider),
            model: copy_observed_string(&t.model),
            tokenizer: copy_observed_string(&t.tokenizer),
        }),
        Observed::Unknown => Observed::Unknown,
        Observed::NotObserved => Observed::NotObserved,
    }
}

fn copy_observed_u64(o: &Observed<u64>) -> (r: Observed<u64>)
    ensures
        r == *o,
{
    match o {
        Observed::Known(v) => Observed::Known(*v),
        Observed::Unknown => Observed::Unknown,
        Observed::NotObserved => Observed::NotObserved,
    }
}

/// The change of a token metric (see `token_values`), with both sides.
pub fn token_delta(left: &Observed<TokenCount>, right: &Observed<TokenCount>) -> (r: TokenMetricDelta)
    ensures
        observed_count_view(r.left) == observed_count_view(*left),
        observed_count_view(r.right) == observed_count_view(*right),
        r.delta == token_values(*left, *right).0,
        r.relative_change_denominator == token_values(*left, *right).1,
        r.direction == direction_of_delta(r.delta),
{
    let (delta, denominator) = match (left, right) {
        (Observed::Known(l), Observed::Known(x)) => if token_scopes_compatible(l, x) {
            numeric_values(l.count, x.count)
        } else {
            (None, None)
        },
        _ => (None, None),
    };
    TokenMetricDelta {
        left: copy_observed_count(left),
        right: copy_observed_count(right),
        delta,
        relative_change_denominator: denominator,
        direction: direction(delta),
    }
}

/// The change of a timing or resource measurement (see `numeric_values_of`).
pub fn numeric_delta(left: &Observed<u64>, right: &Observed<u64>) -> (r: NumericMetricDelta)
    ensures
        r.left == *left,
        r.right == *right,
        r.delta == numeric_values_of(*left, *right).0,
        r.relative_change_denominator == numeric_values_of(*left, *right).1,
        r.direction == direction_of_delta(r.delta),
{
    let (delta, denominator) = match (left, right) {
        (Observed::Known(l), Observed::Known(x)) => numeric_values(*l, *x),
        _ => (None, None),
    };
    NumericMetricDelta {
        left: copy_observed_u64(left),
        right: copy_observed_u64(right),
        delta,
        relative_change_denominator: denominator,
        direction: direction(delta),
    }
}

/// The signals of a comparison of two observations: the request
/// fingerprints their references carry, the comparability of their
/// identities, and the direction of each token, timing and resource metric.
pub open spec fn signals_match(
    s: ComparisonSignals,
    left: ObservationMetrics,
    right: ObservationMetrics,
    left_reference: ObservationReference,
    right_reference: ObservationReference,
) -> bool {
    &&& opt_view(s.left_request_fingerprint) == opt_view(left_reference.request_fingerprint)
    &&& opt_view(s.right_request_fingerprint) == opt_view(right_reference.request_fingerprint)
    &&& s.level == comparability_level(comparability_reasons(left_reference, right_reference))
    &&& s.transmitted_input_tokens == direction_of_delta(token_values(left.transmitted_input_tokens, right.transmitted_input_tokens).0)
    &&& s.provider_cached_tokens == direction_of_delta(token_values(left.provider_cached_tokens, right.provider_cached_tokens).0)
    &&& s.fresh_prefill_tokens == direction_of_delta(token_values(left.fresh_prefill_tokens, right.fresh_prefill_tokens).0)
    &&& s.reconstructed_context_tokens == direction_of_delta(token_values(left.reconstructed_context_tokens, right.reconstructed_context_tokens).0)
    &&& s.output_tokens == direction_of_delta(token_values(left.output_tokens, right.output_tokens).0)
    &&& s.prefill_duration_ms == direction_of_delta(numeric_values_of(left.prefill_duration_ms, right.prefill_duration_ms).0)
    &&& s.time_to_first_token_ms == direction_of_delta(numeric_values_of(left.time_to_first_token_ms, right.time_to_first_token_ms).0)
    &&& s.generation_duration_ms == direction_of_delta(numeric_values_of(left.generation_duration_ms, right.generation_duration_ms).0)
    &&& s.wall_duration_ms == direction_of_delta(numeric_values_of(left.wall_duration_ms, right.wall_duration_ms).0)
    &&& s.ram_bytes == direction_of_delta(numeric_values_of(left.ram_bytes, right.ram_bytes).0)
    &&& s.vram_bytes == direction_of_delta(numeric_values_of(left.vram_bytes, right.vram_bytes).0)
    &&& s.kv_cache_bytes == direction_of_delta(numeric_values_of(left.kv_cache_bytes, right.kv_cache_bytes).0)
}

fn copy_opt_string(o: &Option<String>) -> (r: Option<String>)
    ensures
        opt_view(r) == opt_view(*o),
{
    match o {
        Some(s) => Some(s.clone()),
        None => None,
    }
}

/// Compares two observations with their references: their comparability
/// and the direction of each metric (see `signals_match`).
pub fn comparison_signals(
    left: &ObservationMetrics,
    right: &ObservationMetrics,
    left_reference: &ObservationReference,
    right_reference: &ObservationReference,
) -> (r: ComparisonSignals)
    ensures
        signals_match(r, *left, *right, *left_reference, *right_reference),
{
    let comparability = compare_identity(left_reference, right_reference);
    ComparisonSignals {
        left_request_fingerprint: copy_opt_string(&left_reference.request_fingerprint),
        right_request_fingerprint: copy_opt_string(&right_reference.request_fingerprint),
        level: comparability.level,
        transmitted_input_tokens: token_delta(&left.transmitted_input_tokens, &right.transmitted_input_tokens).direction,
        provider_cached_tokens: token_delta(&left.provider_cached_tokens, &right.provider_cached_tokens).direction,
        fresh_prefill_tokens: token_delta(&left.fresh_prefill_tokens, &right.fresh_prefill_tokens).direction,
        reconstructed_context_tokens: token_delta(&left.reconstructed_context_tokens, &right.reconstructed_context_tokens).direction,
        output_tokens: token_delta(&left.output_tokens, &right.output_tokens).direction,
        prefill_duration_ms: numeric_delta(&left.prefill_duration_ms, &right.prefill_duration_ms).direction,
        time_to_first_token_ms: numeric_delta(&left.time_to_first_token_ms, &right.time_to_first_token_ms).direction,
        generation_duration_ms: numeric_delta(&left.generation_duration_ms, &right.generation_duration_ms).direction,
        wall_duration_ms: numeric_delta(&left.wall_duration_ms, &right.wall_duration_ms).direction,
        ram_bytes: numeric_delta(&left.ram_bytes, &right.ram_bytes).direction,
        vram_bytes: numeric_delta(&left.vram_bytes, &right.vram_bytes).direction,
        kv_cache_bytes: numeric_delta(&left.kv_cache_bytes, &right.kv_cache_bytes).direction,
    }
}

/// A timing or resource measurement known on both observations moves in the
/// direction of its two values, an explicit zero included, whenever their
/// difference fits in an `i64`; one that either observation lacks has no
/// direction.
pub proof fn law_measurement_direction(left: Observed<u64>, right: Observed<u64>)
    ensures
        match (left, right) {
            (Observed::Known(l), Observed::Known(r)) => (i64::MIN <= r - l <= i64::MAX) ==> direction_of_delta(
                numeric_values_of(left, right).0,
            ) == if r > l {
                MetricDirection::Increased
            } else if r < l {
                MetricDirection::Decreased
            } else {
                MetricDirection::Unchanged
            },
            _ => direction_of_delta(numeric_values_of(left, right).0) == MetricDirection::Unavailable,
        },
{
}

/// The change of each token metric between two observations.
#[derive(Debug, Clone, PartialEq, Eq)]
pub struct TokenDeltas {
    pub transmitted_input_tokens: TokenMetricDelta,
    pub provider_cached_tokens: TokenMetricDelta,
    pub fresh_prefill_tokens: TokenMetricDelta,
    pub reconstructed_context_tokens: TokenMetricDelta,
    pub output_tokens: TokenMetricDelta,
}

/// The change of each timing between two observations.
#[derive(Debug, Clone, PartialEq, Eq)]
pub struct TimingDeltas {
    pub prefill_duration_ms: NumericMetricDelta,
    pub time_to_first_token_ms: NumericMetricDelta,
    pub generation_duration_ms: NumericMetricDelta,
    pub wall_duration_ms: NumericMetricDelta,
}

/// The change of each resource measurement between two observations.
#[derive(Debug, Clone, PartialEq, Eq)]
pub struct ResourceDeltas {
    pub ram_bytes: NumericMetricDelta,
    pub vram_bytes: NumericMetricDelta,
    pub kv_cache_bytes: NumericMetricDelta,
}

/// The comparison of two observations: their references, how comparable
/// they are, and the change of each metric. The derived reuse and
/// fresh-prefill ratios (floats) are not held here.
#[derive(Debug, Clone, PartialEq, Eq)]
pub struct ObservationComparison {
    pub schema_id: String,
    pub schema_version: u32,
    pub left: ObservationReference,
    pub right: ObservationReference,
    pub comparability: ComparabilityReport,
    pub token_deltas: TokenDeltas,
    pub timing_deltas: TimingDeltas,
    pub resource_deltas: ResourceDeltas,
}

/// `d` is the change of a token metric from `l` to `r`.
pub open spec fn token_delta_of(d: TokenMetricDelta, l: Observed<TokenCount>, r: Observed<TokenCount>) -> bool {
    &&& observed_count_view(d.left) == observed_count_view(l)
    &&& observed_count_view(d.right) == observed_count_view(r)
    &&& d.delta == token_values(l, r).0
    &&& d.relative_change_denominator == token_values(l, r).1
    &&& d.direction == direction_of_delta(d.delta)
}

/// `d` is the change of a measurement from `l` to `r`.
pub open spec fn numeric_delta_of(d: NumericMetricDelta, l: Observed<u64>, r: Observed<u64>) -> bool {
    &&& d.left == l
    &&& d.right == r
    &&& d.delta == numeric_values_of(l, r).0
    &&& d.relative_change_denominator == numeric_values_of(l, r).1
    &&& d.direction == direction_of_delta(d.delta)
}

/// Compares two observations given their references: the references are
/// kept, the identities rated (see `compare_identity`), and each token,
/// timing and resource metric compared.
pub fn compare_observations_with_references(
    left: &ObservationMetrics,
    right: &ObservationMetrics,
    left_reference: ObservationReference,
    right_reference: ObservationReference,
) -> (r: ObservationComparison)
    ensures
        r.schema_id@ == OBSERVATION_COMPARISON_SCHEMA_ID@,
        r.schema_version == OBSERVATION_COMPARISON_SCHEMA_VERSION,
        r.left == left_reference,
        r.right == right_reference,
        r.comparability.identity == identity_of(left_reference, right_reference),
        r.comparability.reasons@ == comparability_reasons(left_reference, right_reference),
        r.comparability.level == comparability_level(r.comparability.reasons@),
        token_delta_of(r.token_deltas.transmitted_input_tokens, left.transmitted_input_tokens, right.transmitted_input_tokens),
        token_delta_of(r.token_deltas.provider_cached_tokens, left.provider_cached_tokens, right.provider_cached_tokens),
        token_delta_of(r.token_deltas.fresh_prefill_tokens, left.fresh_prefill_tokens, right.fresh_prefill_tokens),
        token_delta_of(r.token_deltas.reconstructed_context_tokens, left.reconstructed_context_tokens, right.reconstructed_context_tokens),
        token_delta_of(r.token_deltas.output_tokens, left.output_tokens, right.output_tokens),
        numeric_delta_of(r.timing_deltas.prefill_duration_ms, left.prefill_duration_ms, right.prefill_duration_ms),
        numeric_delta_of(r.timing_deltas.time_to_first_token_ms, left.time_to_first_token_ms, right.time_to_first_token_ms),
        numeric_delta_of(r.timing_deltas.generation_duration_ms, left.generation_duration_ms, right.generation_duration_ms),
        numeric_delta_of(r.timing_deltas.wall_duration_ms, left.wall_duration_ms, right.wall_duration_ms),
        numeric_delta_of(r.resource_deltas.ram_bytes, left.ram_bytes, right.ram_bytes),
        numeric_delta_of(r.resource_deltas.vram_bytes, left.vram_bytes, right.vram_bytes),
        numeric_delta_of(r.resource_deltas.kv_cache_bytes, left.kv_cache_bytes, right.kv_cache_bytes),
{
    let comparability = compare_identity(&left_reference, &right_reference);
    ObservationComparison {
        schema_id: owned(OBSERVATION_COMPARISON_SCHEMA_ID),
        schema_version: OBSERVATION_COMPARISON_SCHEMA_VERSION,
        left: left_reference,
        right: right_reference,
        comparability,
        token_deltas: TokenDeltas {
            transmitted_input_tokens: token_delta(&left.transmitted_input_tokens, &right.transmitted_input_tokens),
            provider_cached_tokens: token_delta(&left.provider_cached_tokens, &right.provider_cached_tokens),
            fresh_prefill_tokens: token_delta(&left.fresh_prefill_tokens, &right.fresh_prefill_tokens),
            reconstructed_context_tokens: token_delta(&left.reconstructed_context_tokens, &right.reconstructed_context_tokens),
            output_tokens: token_delta(&left.output_tokens, &right.output_tokens),
        },
        timing_deltas: TimingDeltas {
            prefill_duration_ms: numeric_delta(&left.prefill_duration_ms, &right.prefill_duration_ms),
            time_to_first_token_ms: numeric_delta(&left.time_to_first_token_ms, &right.time_to_first_token_ms),
            generation_duration_ms: numeric_delta(&left.generation_duration_ms, &right.generation_duration_ms),
            wall_duration_ms: numeric_delta(&left.wall_duration_ms, &right.wall_duration_ms),
        },
        resource_deltas: ResourceDeltas {
            ram_bytes: numeric_delta(&left.ram_bytes, &right.ram_bytes),
            vram_bytes: numeric_delta(&left.vram_bytes, &right.vram_bytes),
            kv_cache_bytes: numeric_delta(&left.kv_cache_bytes, &right.kv_cache_bytes),
        },
    }
}

/// The signals a diagnostic reads of a comparison: the request
/// fingerprints, the comparability level and each metric's direction.
pub open spec fn signals_of(c: ObservationComparison) -> ComparisonSignals {
    ComparisonSignals {
        left_request_fingerprint: c.left.request_fingerprint,
        right_request_fingerprint: c.right.request_fingerprint,
        level: c.comparability.level,
        transmitted_input_tokens: c.token_deltas.transmitted_input_tokens.direction,
        provider_cached_tokens: c.token_deltas.provider_cached_tokens.direction,
        fresh_prefill_tokens: c.token_deltas.fresh_prefill_tokens.direction,
        reconstructed_context_tokens: c.token_deltas.reconstructed_context_tokens.direction,
        output_tokens: c.token_deltas.output_tokens.direction,
        prefill_duration_ms: c.timing_deltas.prefill_duration_ms.direction,
        time_to_first_token_ms: c.timing_deltas.time_to_first_token_ms.direction,
        generation_duration_ms: c.timing_deltas.generation_duration_ms.direction,
        wall_duration_ms: c.timing_deltas.wall_duration_ms.direction,
        ram_bytes: c.resource_deltas.ram_bytes.direction,
        vram_bytes: c.resource_deltas.vram_bytes.direction,
        kv_cache_bytes: c.resource_deltas.kv_cache_bytes.direction,
    }
}

fn comparison_signals_of(c: &ObservationComparison) -> (r: ComparisonSignals)
    ensures
        opt_view(r.left_request_fingerprint) == opt_view(signals_of(*c).left_request_fingerprint),
        opt_view(r.right_request_fingerprint) == opt_view(signals_of(*c).right_request_fingerprint),
        r.level == signals_of(*c).level,
        r.transmitted_input_tokens == signals_of(*c).transmitted_input_tokens,
        r.provider_cached_tokens == signals_of(*c).provider_cached_tokens,
        r.fresh_prefill_tokens == signals_of(*c).fresh_prefill_tokens,
        r.reconstructed_context_tokens == signals_of(*c).reconstructed_context_tokens,
        r.output_tokens == signals_of(*c).output_tokens,
        r.prefill_duration_ms == signals_of(*c).prefill_duration_ms,
        r.time_to_first_token_ms == signals_of(*c).time_to_first_token_ms,
        r.generation_duration_ms == signals_of(*c).generation_duration_ms,
        r.wall_duration_ms == signals_of(*c).wall_duration_ms,
        r.ram_bytes == signals_of(*c).ram_bytes,
        r.vram_bytes == signals_of(*c).vram_bytes,
        r.kv_cache_bytes == signals_of(*c).kv_cache_bytes,
{
    ComparisonSignals {
        left_request_fingerprint: copy_opt_string(&c.left.request_fingerprint),
        right_request_fingerprint: copy_opt_string(&c.right.request_fingerprint),
        level: c.comparability.level,
        transmitted_input_tokens: c.token_deltas.transmitted_input_tokens.direction,
        provider_cached_tokens: c.token_deltas.provider_cached_tokens.direction,
        fresh_prefill_tokens: c.token_deltas.fresh_prefill_tokens.direction,
        reconstructed_context_tokens: c.token_deltas.reconstructed_context_tokens.direction,
        output_tokens: c.token_deltas.output_tokens.direction,
        prefill_duration_ms: c.timing_deltas.prefill_duration_ms.direction,
        time_to_first_token_ms: c.timing_deltas.time_to_first_token_ms.direction,
        generation_duration_ms: c.timing_deltas.generation_duration_ms.direction,
        wall_duration_ms: c.timing_deltas.wall_duration_ms.direction,
        ram_bytes: c.resource_deltas.ram_bytes.direction,
        vram_bytes: c.resource_deltas.vram_bytes.direction,
        kv_cache_bytes: c.resource_deltas.kv_cache_bytes.direction,
    }
}

/// A cache diagnostic: a structural diff beside an observation comparison,
/// with their alignment, the cache assessment and the evidence statement.
#[derive(Debug, Clone, PartialEq, Eq)]
pub struct CacheDiagnostic {
    pub schema_id: String,
    pub schema_version: u32,
    pub request_diff: RequestDiff,
    pub observation_comparison: ObservationComparison,
    pub request_observation_alignment: RequestObservationAlignment,
    pub assessment: CacheRegressionAssessment,
    pub evidence: EvidenceStatement,
}

/// Combines a structural diff with an observation comparison. The result
/// is association only: causality stays not established.
pub fn build_diagnostic(request_diff: RequestDiff, comparison: ObservationComparison) -> (r: CacheDiagnostic)
    ensures
        r.schema_id@ == CACHE_DIAGNOSTIC_SCHEMA_ID@,
        r.schema_version == CACHE_DIAGNOSTIC_SCHEMA_VERSION,
        r.request_diff == request_diff,
        r.observation_comparison == comparison,
        r.request_observation_alignment == alignment_of(request_diff, signals_of(comparison)),
        r.assessment == assessment_of(signals_of(comparison), r.request_observation_alignment),
        sorted_strict::<String>(views(r.evidence.structural_change_categories@)),
        views(r.evidence.structural_change_categories@).to_set() == structural_names(request_diff),
        r.evidence.observed_metric_directions@ == observed_directions(signals_of(comparison)),
        r.evidence.association == association_of(
            r.evidence.structural_change_categories.len() > 0,
            some_moved(observed_directions(signals_of(comparison))),
            moved_direction(comparison.token_deltas.provider_cached_tokens.direction),
            r.request_observation_alignment,
        ),
        r.evidence.causality == CausalityStatus::NotEstablished,
        r.evidence.statement@ == statement_of(views(r.evidence.structural_change_categories@),
            observed_directions(signals_of(comparison)), comparison.comparability.level, r.assessment,
            r.request_observation_alignment, r.evidence.association),
{
    let signals = comparison_signals_of(&comparison);
    let alignment = request_observation_alignment(&request_diff, &signals);
    let assessment = assess_cache(&signals, alignment);
    let evidence = evidence_statement(&request_diff, &signals, assessment, alignment);
    proof {
        assert(observed_directions(signals) == observed_directions(signals_of(comparison)));
        assert(assessment_of(signals, alignment) == assessment_of(signals_of(comparison), alignment));
    }
    CacheDiagnostic {
        schema_id: owned(CACHE_DIAGNOSTIC_SCHEMA_ID),
        schema_version: CACHE_DIAGNOSTIC_SCHEMA_VERSION,
        request_diff,
        observation_comparison: comparison,
        request_observation_alignment: alignment,
        assessment,
        evidence,
    }
}

/// Compares two observations and diagnoses them beside a structural diff.
pub fn diagnose_cache(
    request_diff: RequestDiff,
    left: &ObservationMetrics,
    right: &ObservationMetrics,
    left_reference: ObservationReference,
    right_reference: ObservationReference,
) -> (r: CacheDiagnostic)
    ensures
        r.request_diff == request_diff,
        r.observation_comparison.left == left_reference,
        r.observation_comparison.right == right_reference,
        r.observation_comparison.comparability.reasons@ == comparability_reasons(left_reference, right_reference),
        token_delta_of(r.observation_comparison.token_deltas.transmitted_input_tokens, left.transmitted_input_tokens, right.transmitted_input_tokens),
        token_delta_of(r.observation_comparison.token_deltas.provider_cached_tokens, left.provider_cached_tokens, right.provider_cached_tokens),
        token_delta_of(r.observation_comparison.token_deltas.fresh_prefill_tokens, left.fresh_prefill_tokens, right.fresh_prefill_tokens),
        token_delta_of(r.observation_comparison.token_deltas.reconstructed_context_tokens, left.reconstructed_context_tokens, right.reconstructed_context_tokens),
        token_delta_of(r.observation_comparison.token_deltas.output_tokens, left.output_tokens, right.output_tokens),
        r.request_observation_alignment == alignment_of(request_diff, signals_of(r.observation_comparison)),
        r.assessment == assessment_of(signals_of(r.observation_comparison), r.request_observation_alignment),
        r.evidence.causality == CausalityStatus::NotEstablished,
{
    let comparison = compare_observations_with_references(left, right, left_reference, right_reference);
    build_diagnostic(request_diff, comparison)
}

/// When the observations are not mismatched with the requests, are
/// comparable (directly or partially), and the cached-token count did not
/// move, the assessment is that cache reuse did not change, whatever the
/// timing and fresh-prefill metrics did; and timing or prefill movement is
/// called mixed only when cached-token reuse itself moved.
pub proof fn law_unchanged_reuse_is_no_change(c: ComparisonSignals, alignment: RequestObservationAlignment)
    ensures
        alignment != RequestObservationAlignment::Mismatched
            && (c.level == ComparabilityLevel::DirectlyComparable || c.level == ComparabilityLevel::PartiallyComparable)
            && c.provider_cached_tokens == MetricDirection::Unchanged
            ==> assessment_of(c, alignment) == CacheRegressionAssessment::NoObservedCacheReuseChange,
        assessment_of(c, alignment) == CacheRegressionAssessment::MixedObservations
            ==> (c.provider_cached_tokens == MetricDirection::Increased
                || c.provider_cached_tokens == MetricDirection::Decreased),
        assessment_of(c, alignment) == CacheRegressionAssessment::NoObservedCacheReuseChange
            ==> c.provider_cached_tokens == MetricDirection::Unchanged,
{
}


} // verus!
