//! Records of conservative candidate evaluation and evidence gating.
use vstd::prelude::*;
use crate::capability_registry::{claim_of, CapabilityKey, CapabilityProfile, CapabilityState};
use crate::error::{checked, in_memory_validation, BenchmarkError};
use crate::layout_planner::{CandidateSafetyStatus, LayoutCandidate};
use crate::conformance::RuntimeIdentity;
use crate::context_stability::Observed;
use crate::diff::EnvelopeDiff;
use crate::diff_compare::{envelope_change_views, envelope_changes_same, request_diff_same, request_diff_view};
use crate::observation_diagnostics::{
    observed_view, CacheDiagnostic, CacheRegressionAssessment, CausalityStatus, ComparabilityLevel, EvidenceAssociation,
    EvidenceSourceClass, RequestObservationAlignment, RuntimeIdentityReference,
};
use crate::text::{lemma_seq_lt_irreflexive, lemma_seq_lt_transitive, opt_view, owned, seq_lt, str_compare, str_eq};

verus! {

pub const CANDIDATE_EVALUATION_SCHEMA_ID: &'static str = "prefixity.candidate-evaluation";
pub const CANDIDATE_EVALUATION_SCHEMA_VERSION: u32 = 1;
pub const CANDIDATE_EVALUATOR_VERSION: &'static str = "p0-l12-v1";
pub const MAX_EVALUATION_OBSERVATIONS: usize = 16;
pub const MAX_EVALUATION_BLOCKERS: usize = 16;
pub const MAX_EVALUATION_PROVENANCE: usize = 8;

#[derive(Debug, Clone, Copy, PartialEq, Eq, PartialOrd, Ord, Structural)]
pub enum EvidenceState {
    StructuralOnly,
    CapabilityCompatible,
    ReadyForExperiment,
    ObservationallySupported,
    MixedEvidence,
    UnsupportedByCurrentEvidence,
    Blocked,
}

#[derive(Debug, Clone, Copy, PartialEq, Eq, Structural)]
pub enum ClaimPermission {
    Allowed,
    AllowedIfEvidenced,
    AllowedIfRealObservation,
    NotAllowed,
}

#[derive(Debug, Clone, Copy, PartialEq, Eq, Structural)]
pub enum CandidateHypothesis {
    ReducedStabilityInversionMayIncreaseReusableLeadingContext,
}

#[derive(Debug, Clone, PartialEq, Eq)]
pub struct ClaimPermissions {
    pub structural_claims: ClaimPermission,
    pub capability_claims: ClaimPermission,
    pub observation_claims: ClaimPermission,
    pub performance_claims: ClaimPermission,
    pub causal_claims: ClaimPermission,
    pub application_claims: ClaimPermission,
}

#[derive(Debug, Clone, PartialEq, Eq)]
pub struct CandidateReference {
    pub candidate_id: String,
    pub layout_fingerprint: String,
    pub source_request_fingerprint: String,
    pub candidate_request_fingerprint: String,
    pub request_diff_fingerprint: String,
}

#[derive(Debug, Clone, PartialEq, Eq)]
pub struct StructuralAssessment {
    pub safety: CandidateSafetyStatus,
    pub source_inversion_count: usize,
    pub candidate_inversion_count: usize,
    pub source_leading_segments: usize,
    pub candidate_leading_segments: usize,
    pub source_unknown_boundary_count: usize,
    pub candidate_unknown_boundary_count: usize,
    pub moved_segment_count: usize,
    pub changed_relative_relationships: usize,
    pub cache_impact: String,
}

#[derive(Debug, Clone, Copy, PartialEq, Eq, Structural)]
pub enum CapabilityAssessment {
    NotProvided,
    SupportedDocumented,
    SupportedObserved,
    UnsupportedDocumented,
    UnsupportedObserved,
    UnknownDocumented,
    UnknownUnverified,
}

#[derive(Debug, Clone, Copy, PartialEq, Eq, Structural)]
pub enum ObservationRelevance {
    Relevant,
    Rejected,
}

#[derive(Debug, Clone, Copy, PartialEq, Eq, PartialOrd, Ord, Structural)]
pub enum ObservationRelevanceReason {
    RuntimeIdentityMismatch,
    ModelIdentityMismatch,
    ProtocolIdentityMismatch,
    RuntimeVersionIdentityMismatch,
    ProfileIdentityMismatch,
    RequestFingerprintMismatch,
    CandidateMutationMismatch,
    EnvelopeCompatibilityMismatch,
    IncomparableObservation,
    InsufficientObservationFields,
}

#[derive(Debug, Clone, PartialEq, Eq)]
pub struct ObservationEvidence {
    pub left_observation_id: String,
    pub right_observation_id: String,
    pub diagnostic_fingerprint: String,
    pub source: EvidenceSourceClass,
    pub relevance: ObservationRelevance,
    pub reasons: Vec<ObservationRelevanceReason>,
    pub assessment: CacheRegressionAssessment,
    pub association: EvidenceAssociation,
    pub causality: CausalityStatus,
}

#[derive(Debug, Clone, Copy, PartialEq, Eq, Structural)]
pub enum EnvironmentReadiness {
    Available,
    Blocked,
}

#[derive(Debug, Clone, PartialEq, Eq)]
pub struct EnvironmentState {
    pub readiness: EnvironmentReadiness,
    pub blockers: Vec<EvidenceBlocker>,
}

impl EnvironmentState {
    /// An available environment without blockers.
    pub fn available() -> (r: Self)
        ensures
            r.readiness == EnvironmentReadiness::Available,
            r.blockers@ == Seq::<EvidenceBlocker>::empty(),
    {
        Self { readiness: EnvironmentReadiness::Available, blockers: Vec::new() }
    }

    /// A blocked environment with the given blockers.
    pub fn blocked(blockers: Vec<EvidenceBlocker>) -> (r: Self)
        ensures
            r.readiness == EnvironmentReadiness::Blocked,
            r.blockers == blockers,
    {
        Self { readiness: EnvironmentReadiness::Blocked, blockers }
    }
}

#[derive(Debug, Clone, Copy, PartialEq, Eq, Structural)]
pub enum DesignReadiness {
    Ready,
    Blocked,
}

#[derive(Debug, Clone, Copy, PartialEq, Eq, Structural)]
pub enum ExecutionReadiness {
    Ready,
    Blocked,
}

#[derive(Debug, Clone, PartialEq, Eq)]
pub struct ExperimentReadiness {
    pub design: DesignReadiness,
    pub environment: EnvironmentReadiness,
    pub execution: ExecutionReadiness,
}

#[derive(Debug, Clone, Copy, PartialEq, Eq, PartialOrd, Ord, Structural)]
pub enum NextAction {
    ControlledExperiment,
    GatherCapabilityEvidence,
    GatherRuntimeObservation,
    ResolveEnvironment,
    RejectCandidate,
    NoAction,
}

#[derive(Debug, Clone, Copy, PartialEq, Eq, PartialOrd, Ord, Structural)]
pub enum EvidenceBlocker {
    CandidateSafetyNotEstablished,
    RuntimeCapabilityPending,
    RuntimeCapabilityUnsupported,
    RuntimeIdentityMismatch,
    ObservationIdentityMismatch,
    SyntheticOnlyEvidence,
    DocumentedOnlyEvidence,
    NoExperimentalObservation,
    MixedObservations,
    EnvironmentUnavailable,
    InsufficientObservationFields,
    NoObservedCacheBenefit,
}

#[derive(Debug, Clone, PartialEq, Eq)]
pub struct EvaluationProvenance {
    pub evaluator_version: String,
    pub source: String,
    pub environment: EnvironmentReadiness,
}

#[derive(Debug, Clone, PartialEq, Eq)]
pub struct RuntimeProfileReference {
    pub profile_id: String,
    pub identity_fingerprint: String,
}

#[derive(Debug, Clone, PartialEq, Eq)]
pub struct CapabilityGateAssessment {
    pub capability: CapabilityKey,
    pub state: CapabilityAssessment,
    pub profile: Option<RuntimeProfileReference>,
}

/// The evaluation of one layout candidate against capability and
/// observation evidence.
#[derive(Debug, Clone, PartialEq, Eq)]
pub struct CandidateEvaluation {
    pub schema_id: String,
    pub schema_version: u32,
    pub candidate: CandidateReference,
    pub hypothesis: CandidateHypothesis,
    pub runtime_profile: Option<RuntimeProfileReference>,
    pub structural: StructuralAssessment,
    pub capability: CapabilityGateAssessment,
    pub observations: Vec<ObservationEvidence>,
    pub evidence_state: EvidenceState,
    pub claim_permissions: ClaimPermissions,
    pub experiment_readiness: ExperimentReadiness,
    pub next_action: NextAction,
    pub blockers: Vec<EvidenceBlocker>,
    pub provenance: EvaluationProvenance,
}

/// The order of blockers: their declaration order.
pub open spec fn blocker_rank(b: EvidenceBlocker) -> int {
    match b {
        EvidenceBlocker::CandidateSafetyNotEstablished => 0,
        EvidenceBlocker::RuntimeCapabilityPending => 1,
        EvidenceBlocker::RuntimeCapabilityUnsupported => 2,
        EvidenceBlocker::RuntimeIdentityMismatch => 3,
        EvidenceBlocker::ObservationIdentityMismatch => 4,
        EvidenceBlocker::SyntheticOnlyEvidence => 5,
        EvidenceBlocker::DocumentedOnlyEvidence => 6,
        EvidenceBlocker::NoExperimentalObservation => 7,
        EvidenceBlocker::MixedObservations => 8,
        EvidenceBlocker::EnvironmentUnavailable => 9,
        EvidenceBlocker::InsufficientObservationFields => 10,
        EvidenceBlocker::NoObservedCacheBenefit => 11,
    }
}

fn blocker_order(b: EvidenceBlocker) -> (r: u8)
    ensures
        r as int == blocker_rank(b),
{
    match b {
        EvidenceBlocker::CandidateSafetyNotEstablished => 0,
        EvidenceBlocker::RuntimeCapabilityPending => 1,
        EvidenceBlocker::RuntimeCapabilityUnsupported => 2,
        EvidenceBlocker::RuntimeIdentityMismatch => 3,
        EvidenceBlocker::ObservationIdentityMismatch => 4,
        EvidenceBlocker::SyntheticOnlyEvidence => 5,
        EvidenceBlocker::DocumentedOnlyEvidence => 6,
        EvidenceBlocker::NoExperimentalObservation => 7,
        EvidenceBlocker::MixedObservations => 8,
        EvidenceBlocker::EnvironmentUnavailable => 9,
        EvidenceBlocker::InsufficientObservationFields => 10,
        EvidenceBlocker::NoObservedCacheBenefit => 11,
    }
}

/// The order in which evidence sources sort, from synthetic to unverified.
pub open spec fn source_rank_of(source: EvidenceSourceClass) -> int {
    match source {
        EvidenceSourceClass::SyntheticProtocolTest => 0,
        EvidenceSourceClass::DocumentedCapability => 1,
        EvidenceSourceClass::ExperimentallyObservedRuntime => 2,
        EvidenceSourceClass::UnknownUnverified => 3,
    }
}

pub fn source_rank(source: EvidenceSourceClass) -> (r: u8)
    ensures
        r as int == source_rank_of(source),
{
    match source {
        EvidenceSourceClass::SyntheticProtocolTest => 0,
        EvidenceSourceClass::DocumentedCapability => 1,
        EvidenceSourceClass::ExperimentallyObservedRuntime => 2,
        EvidenceSourceClass::UnknownUnverified => 3,
    }
}

/// `a` sorts after `b` by left observation, then right observation, then
/// source rank.
pub open spec fn observation_after(a: ObservationEvidence, b: ObservationEvidence) -> bool {
    ||| seq_lt(b.left_observation_id@, a.left_observation_id@)
    ||| a.left_observation_id@ == b.left_observation_id@ && seq_lt(b.right_observation_id@, a.right_observation_id@)
    ||| a.left_observation_id@ == b.left_observation_id@ && a.right_observation_id@ == b.right_observation_id@
        && source_rank_of(a.source) > source_rank_of(b.source)
}

fn observation_sorts_after(a: &ObservationEvidence, b: &ObservationEvidence) -> (r: bool)
    ensures
        r == observation_after(*a, *b),
{
    let left = str_compare(a.left_observation_id.as_str(), b.left_observation_id.as_str());
    if left != 0 {
        return left == 1;
    }
    let right = str_compare(a.right_observation_id.as_str(), b.right_observation_id.as_str());
    if right != 0 {
        return right == 1;
    }
    source_rank(a.source) > source_rank(b.source)
}

impl CandidateEvaluation {
    pub open spec fn evaluation_ok(self) -> bool {
        &&& self.schema_id@ == CANDIDATE_EVALUATION_SCHEMA_ID@
        &&& self.schema_version == CANDIDATE_EVALUATION_SCHEMA_VERSION
        &&& self.observations.len() <= MAX_EVALUATION_OBSERVATIONS
        &&& self.blockers.len() <= MAX_EVALUATION_BLOCKERS
        &&& forall|i: int| 0 <= i < self.blockers.len() - 1
            ==> blocker_rank(#[trigger] self.blockers@[i]) <= blocker_rank(self.blockers@[i + 1])
        &&& forall|i: int| 0 <= i < self.observations.len() - 1
            ==> !observation_after(#[trigger] self.observations@[i], self.observations@[i + 1])
        &&& self.structural.cache_impact@ == "unknown"@
        &&& self.claim_permissions.performance_claims == ClaimPermission::NotAllowed
        &&& self.claim_permissions.causal_claims == ClaimPermission::NotAllowed
        &&& self.claim_permissions.application_claims == ClaimPermission::NotAllowed
        &&& forall|i: int| 0 <= i < self.observations.len()
            ==> (#[trigger] self.observations@[i]).causality == CausalityStatus::NotEstablished
    }

    /// Checks the schema, the bounds, that blockers and observations are in
    /// their deterministic order, and that no forbidden claim is widened.
    pub fn validate(&self) -> (r: Result<(), BenchmarkError>)
        ensures
            checked(r, self.evaluation_ok()),
    {
        if !str_eq(self.schema_id.as_str(), CANDIDATE_EVALUATION_SCHEMA_ID)
            || self.schema_version != CANDIDATE_EVALUATION_SCHEMA_VERSION
        {
            return Err(BenchmarkError::validation("unsupported candidate evaluation schema"));
        }
        if self.observations.len() > MAX_EVALUATION_OBSERVATIONS || self.blockers.len() > MAX_EVALUATION_BLOCKERS {
            return Err(BenchmarkError::validation("candidate evaluation exceeds a bounded record limit"));
        }
        let mut i: usize = 0;
        while i + 1 < self.blockers.len()
            invariant
                self.blockers.len() <= MAX_EVALUATION_BLOCKERS,
                i < self.blockers.len() || i == 0,
                forall|j: int| 0 <= j < i ==> blocker_rank(#[trigger] self.blockers@[j]) <= blocker_rank(self.blockers@[j + 1]),
            decreases self.blockers.len() - i,
        {
            if blocker_order(self.blockers[i]) > blocker_order(self.blockers[i + 1]) {
                return Err(BenchmarkError::validation("candidate evaluation blockers are not deterministic"));
            }
            i = i + 1;
        }
        let mut i: usize = 0;
        while i + 1 < self.observations.len()
            invariant
                self.observations.len() <= MAX_EVALUATION_OBSERVATIONS,
                i < self.observations.len() || i == 0,
                forall|j: int| 0 <= j < i ==> !observation_after(#[trigger] self.observations@[j], self.observations@[j + 1]),
            decreases self.observations.len() - i,
        {
            if observation_sorts_after(&self.observations[i], &self.observations[i + 1]) {
                return Err(BenchmarkError::validation("candidate evaluation observations are not deterministic"));
            }
            i = i + 1;
        }
        if !str_eq(self.structural.cache_impact.as_str(), "unknown")
            || self.claim_permissions.performance_claims != ClaimPermission::NotAllowed
            || self.claim_permissions.causal_claims != ClaimPermission::NotAllowed
            || self.claim_permissions.application_claims != ClaimPermission::NotAllowed
        {
            proof {
                reveal_strlit("unknown");
            }
            return Err(BenchmarkError::validation("candidate evaluation widened a forbidden claim scope"));
        }
        proof {
            reveal_strlit("unknown");
        }
        let mut i: usize = 0;
        while i < self.observations.len()
            invariant
                i <= self.observations.len(),
                forall|j: int| 0 <= j < i ==> (#[trigger] self.observations@[j]).causality == CausalityStatus::NotEstablished,
            decreases self.observations.len() - i,
        {
            if self.observations[i].causality != CausalityStatus::NotEstablished {
                return Err(BenchmarkError::validation("candidate evaluation established causality"));
            }
            i = i + 1;
        }
        Ok(())
    }
}

/// `r` is the structural part of `candidate`'s evaluation: its safety and
/// the measures of its structural effect, with the cache impact unknown.
pub open spec fn structural_of(r: StructuralAssessment, candidate: LayoutCandidate) -> bool {
    &&& r.safety == candidate.safety
    &&& r.source_inversion_count == candidate.structural_effect.source.inversion_count
    &&& r.candidate_inversion_count == candidate.structural_effect.candidate.inversion_count
    &&& r.source_leading_segments == candidate.structural_effect.source.stability_aligned_leading_segments
    &&& r.candidate_leading_segments == candidate.structural_effect.candidate.stability_aligned_leading_segments
    &&& r.source_unknown_boundary_count == candidate.structural_effect.source.unknown_boundary_count
    &&& r.candidate_unknown_boundary_count == candidate.structural_effect.candidate.unknown_boundary_count
    &&& r.moved_segment_count == candidate.structural_effect.moved_segment_count
    &&& r.changed_relative_relationships == candidate.structural_effect.changed_relative_relationships
    &&& r.cache_impact@ == "unknown"@
}

/// The structural part of a candidate's evaluation (see `structural_of`).
pub fn structural_assessment(candidate: &LayoutCandidate) -> (r: StructuralAssessment)
    ensures
        structural_of(r, *candidate),
{
    let effect = &candidate.structural_effect;
    StructuralAssessment {
        safety: candidate.safety,
        source_inversion_count: effect.source.inversion_count,
        candidate_inversion_count: effect.candidate.inversion_count,
        source_leading_segments: effect.source.stability_aligned_leading_segments,
        candidate_leading_segments: effect.candidate.stability_aligned_leading_segments,
        source_unknown_boundary_count: effect.source.unknown_boundary_count,
        candidate_unknown_boundary_count: effect.candidate.unknown_boundary_count,
        moved_segment_count: effect.moved_segment_count,
        changed_relative_relationships: effect.changed_relative_relationships,
        cache_impact: owned("unknown"),
    }
}

impl EnvironmentState {
    /// Checks the bound on the environment's blockers.
    pub fn validate(&self) -> (r: Result<(), BenchmarkError>)
        ensures
            checked(r, self.blockers.len() <= MAX_EVALUATION_BLOCKERS),
    {
        if self.blockers.len() > MAX_EVALUATION_BLOCKERS {
            return Err(BenchmarkError::validation("environment blockers exceed their bound"));
        }
        Ok(())
    }
}

// ---------------------------------------------------------------------------
// Deciding an evaluation from its parts.

/// A capability whose support is not yet known (or was not provided).
pub open spec fn capability_pending(s: CapabilityAssessment) -> bool {
    s == CapabilityAssessment::NotProvided || s == CapabilityAssessment::UnknownDocumented
        || s == CapabilityAssessment::UnknownUnverified
}

pub open spec fn capability_unsupported(s: CapabilityAssessment) -> bool {
    s == CapabilityAssessment::UnsupportedDocumented || s == CapabilityAssessment::UnsupportedObserved
}

pub open spec fn capability_supported(s: CapabilityAssessment) -> bool {
    s == CapabilityAssessment::SupportedDocumented || s == CapabilityAssessment::SupportedObserved
}

/// The assessment of the prefix-reuse capability: not provided without a
/// profile, else the state of the profile's prefix-reuse cell.
pub open spec fn assessment_of_state(state: Option<CapabilityState>) -> CapabilityAssessment {
    match state {
        None => CapabilityAssessment::NotProvided,
        Some(CapabilityState::SupportedDocumented) => CapabilityAssessment::SupportedDocumented,
        Some(CapabilityState::SupportedObserved) => CapabilityAssessment::SupportedObserved,
        Some(CapabilityState::UnsupportedDocumented) => CapabilityAssessment::UnsupportedDocumented,
        Some(CapabilityState::UnsupportedObserved) => CapabilityAssessment::UnsupportedObserved,
        Some(CapabilityState::UnknownDocumented) => CapabilityAssessment::UnknownDocumented,
        Some(CapabilityState::UnknownUnverified) => CapabilityAssessment::UnknownUnverified,
    }
}

/// The capability gate of an evaluation, given the state of the profile's
/// prefix-reuse cell (`None` without a profile) and the profile's reference.
pub fn capability_assessment(
    prefix_reuse: Option<CapabilityState>,
    reference: Option<RuntimeProfileReference>,
) -> (r: CapabilityGateAssessment)
    ensures
        r.capability == CapabilityKey::PrefixReuse,
        r.state == assessment_of_state(prefix_reuse),
        r.profile == (if prefix_reuse is Some { reference } else { None }),
{
    match prefix_reuse {
        None => CapabilityGateAssessment {
            capability: CapabilityKey::PrefixReuse,
            state: CapabilityAssessment::NotProvided,
            profile: None,
        },
        Some(state) => CapabilityGateAssessment {
            capability: CapabilityKey::PrefixReuse,
            state: match state {
                CapabilityState::SupportedDocumented => CapabilityAssessment::SupportedDocumented,
                CapabilityState::SupportedObserved => CapabilityAssessment::SupportedObserved,
                CapabilityState::UnsupportedDocumented => CapabilityAssessment::UnsupportedDocumented,
                CapabilityState::UnsupportedObserved => CapabilityAssessment::UnsupportedObserved,
                CapabilityState::UnknownDocumented => CapabilityAssessment::UnknownDocumented,
                CapabilityState::UnknownUnverified => CapabilityAssessment::UnknownUnverified,
            },
            profile: reference,
        },
    }
}

/// The prefix-reuse state of a profile, if one is given.
pub open spec fn prefix_reuse_state(profile: Option<CapabilityProfile>) -> Option<CapabilityState> {
    match profile {
        Some(p) => Some(CapabilityState::state_of(
            claim_of(p.capabilities, CapabilityKey::PrefixReuse).0,
            claim_of(p.capabilities, CapabilityKey::PrefixReuse).1,
        )),
        None => None,
    }
}

/// The capability gate of a candidate: the prefix-reuse claim of the
/// runtime profile, or not provided without one.
pub fn profile_capability_assessment(
    profile: Option<&CapabilityProfile>,
    reference: Option<RuntimeProfileReference>,
) -> (r: CapabilityGateAssessment)
    ensures
        r.capability == CapabilityKey::PrefixReuse,
        r.state == assessment_of_state(match profile { Some(p) => prefix_reuse_state(Some(*p)), None => None }),
        r.profile == (if profile is Some { reference } else { None }),
{
    match profile {
        Some(p) => {
            let cell = p.capability(CapabilityKey::PrefixReuse);
            capability_assessment(Some(cell.state), reference)
        },
        None => capability_assessment(None, reference),
    }
}

pub open spec fn relevant(o: ObservationEvidence) -> bool {
    o.relevance == ObservationRelevance::Relevant
}

pub open spec fn experimental(o: ObservationEvidence) -> bool {
    relevant(o) && o.source == EvidenceSourceClass::ExperimentallyObservedRuntime
}

/// Some observation of `obs` is relevant and comes from `source`.
pub open spec fn relevant_from(obs: Seq<ObservationEvidence>, source: EvidenceSourceClass) -> bool {
    exists|i: int| 0 <= i < obs.len() && relevant(#[trigger] obs[i]) && obs[i].source == source
}

/// Some relevant experimental observation of `obs` has this assessment.
pub open spec fn experimental_with(obs: Seq<ObservationEvidence>, a: CacheRegressionAssessment) -> bool {
    exists|i: int| 0 <= i < obs.len() && experimental(#[trigger] obs[i]) && obs[i].assessment == a
}

/// The relevant experimental observations disagree: one is mixed, or one
/// shows more reuse while another shows less or no change.
pub open spec fn observations_mixed(obs: Seq<ObservationEvidence>) -> bool {
    let contrary = experimental_with(obs, CacheRegressionAssessment::ObservedReuseDecrease)
        || experimental_with(obs, CacheRegressionAssessment::NoObservedCacheReuseChange);
    experimental_with(obs, CacheRegressionAssessment::MixedObservations)
        || (experimental_with(obs, CacheRegressionAssessment::ObservedReuseIncrease) && contrary)
}

/// Some relevant experimental observation shows less reuse or no change.
pub open spec fn observations_contrary(obs: Seq<ObservationEvidence>) -> bool {
    experimental_with(obs, CacheRegressionAssessment::ObservedReuseDecrease)
        || experimental_with(obs, CacheRegressionAssessment::NoObservedCacheReuseChange)
}

/// There are relevant observations and none of them is experimental.
pub open spec fn non_experimental_only(obs: Seq<ObservationEvidence>) -> bool {
    &&& exists|i: int| 0 <= i < obs.len() && relevant(#[trigger] obs[i])
    &&& forall|i: int| 0 <= i < obs.len() && relevant(#[trigger] obs[i])
        ==> obs[i].source != EvidenceSourceClass::ExperimentallyObservedRuntime
}

/// Whether the evaluation records blocker `b`: for the reason the blocker
/// names, or because the environment reports it.
pub open spec fn blocker_holds(
    b: EvidenceBlocker,
    safety: CandidateSafetyStatus,
    capability: CapabilityAssessment,
    obs: Seq<ObservationEvidence>,
    environment: EnvironmentState,
) -> bool {
    environment.blockers@.contains(b) || match b {
        EvidenceBlocker::CandidateSafetyNotEstablished => safety != CandidateSafetyStatus::OrderingSafeUnderDeclaredConstraints,
        EvidenceBlocker::RuntimeCapabilityPending => capability_pending(capability),
        EvidenceBlocker::RuntimeCapabilityUnsupported => capability_unsupported(capability),
        EvidenceBlocker::RuntimeIdentityMismatch => false,
        EvidenceBlocker::ObservationIdentityMismatch =>
            exists|i: int| 0 <= i < obs.len() && (#[trigger] obs[i]).relevance == ObservationRelevance::Rejected,
        EvidenceBlocker::SyntheticOnlyEvidence =>
            non_experimental_only(obs) && relevant_from(obs, EvidenceSourceClass::SyntheticProtocolTest),
        EvidenceBlocker::DocumentedOnlyEvidence =>
            non_experimental_only(obs) && relevant_from(obs, EvidenceSourceClass::DocumentedCapability),
        EvidenceBlocker::NoExperimentalObservation =>
            !exists|i: int| 0 <= i < obs.len() && experimental(#[trigger] obs[i]),
        EvidenceBlocker::MixedObservations => observations_mixed(obs),
        EvidenceBlocker::EnvironmentUnavailable => environment.readiness == EnvironmentReadiness::Blocked,
        EvidenceBlocker::InsufficientObservationFields => exists|i: int| 0 <= i < obs.len()
            && (#[trigger] obs[i]).relevance == ObservationRelevance::Rejected
            && obs[i].reasons@.contains(ObservationRelevanceReason::InsufficientObservationFields),
        EvidenceBlocker::NoObservedCacheBenefit => !observations_mixed(obs) && observations_contrary(obs),
    }
}

/// The evidence state: blocked for an unsafe candidate; structural only
/// without a profile; blocked while the capability is pending or
/// unsupported; then mixed, unsupported by or supported by the experimental
/// observations; else ready for an experiment.
pub open spec fn evidence_state_of(
    safety: CandidateSafetyStatus,
    profile_supplied: bool,
    capability: CapabilityAssessment,
    obs: Seq<ObservationEvidence>,
) -> EvidenceState {
    if safety != CandidateSafetyStatus::OrderingSafeUnderDeclaredConstraints {
        EvidenceState::Blocked
    } else if !profile_supplied {
        EvidenceState::StructuralOnly
    } else if capability_pending(capability) || capability_unsupported(capability) {
        EvidenceState::Blocked
    } else if observations_mixed(obs) {
        EvidenceState::MixedEvidence
    } else if observations_contrary(obs) {
        EvidenceState::UnsupportedByCurrentEvidence
    } else if experimental_with(obs, CacheRegressionAssessment::ObservedReuseIncrease) {
        EvidenceState::ObservationallySupported
    } else {
        EvidenceState::ReadyForExperiment
    }
}

/// What to do next in each evidence state.
pub open spec fn next_action_of(
    state: EvidenceState,
    safety: CandidateSafetyStatus,
    capability: CapabilityAssessment,
    environment: EnvironmentReadiness,
) -> NextAction {
    match state {
        EvidenceState::Blocked => if safety != CandidateSafetyStatus::OrderingSafeUnderDeclaredConstraints
            || capability_unsupported(capability)
        {
            NextAction::RejectCandidate
        } else {
            NextAction::GatherCapabilityEvidence
        },
        EvidenceState::UnsupportedByCurrentEvidence => NextAction::NoAction,
        EvidenceState::MixedEvidence => NextAction::GatherRuntimeObservation,
        EvidenceState::ObservationallySupported => NextAction::NoAction,
        EvidenceState::ReadyForExperiment => if environment == EnvironmentReadiness::Blocked {
            NextAction::ResolveEnvironment
        } else {
            NextAction::ControlledExperiment
        },
        _ => NextAction::GatherCapabilityEvidence,
    }
}

proof fn lemma_observation_after_transitive(a: ObservationEvidence, b: ObservationEvidence, c: ObservationEvidence)
    requires
        observation_after(a, b),
        observation_after(b, c),
    ensures
        observation_after(a, c),
{
    let (al, bl, cl) = (a.left_observation_id@, b.left_observation_id@, c.left_observation_id@);
    let (ar, br, cr) = (a.right_observation_id@, b.right_observation_id@, c.right_observation_id@);
    if seq_lt(bl, al) && seq_lt(cl, bl) {
        lemma_seq_lt_transitive(cl, bl, al);
    }
    if al == bl && seq_lt(br, ar) && bl == cl && seq_lt(cr, br) {
        lemma_seq_lt_transitive(cr, br, ar);
    }
}

proof fn lemma_observation_after_irreflexive(a: ObservationEvidence)
    ensures
        !observation_after(a, a),
{
    lemma_seq_lt_irreflexive(a.left_observation_id@);
    lemma_seq_lt_irreflexive(a.right_observation_id@);
}

/// Where `x` goes among sorted observations: before the first that sorts
/// after it, so that observations that sort alike keep their order.
pub open spec fn insert_position(s: Seq<ObservationEvidence>, x: ObservationEvidence) -> int
    decreases s.len(),
{
    if s.len() == 0 {
        0
    } else if observation_after(s[0], x) {
        0
    } else {
        1 + insert_position(s.drop_first(), x)
    }
}

/// The observations in the stable order of left observation, right
/// observation and source rank.
pub open spec fn sorted_observations(s: Seq<ObservationEvidence>) -> Seq<ObservationEvidence>
    decreases s.len(),
{
    if s.len() == 0 {
        s
    } else {
        let rest = sorted_observations(s.drop_last());
        rest.insert(insert_position(rest, s.last()), s.last())
    }
}

pub open spec fn observations_in_order(s: Seq<ObservationEvidence>) -> bool {
    forall|i: int, j: int| 0 <= i < j < s.len() ==> !observation_after(#[trigger] s[i], #[trigger] s[j])
}

proof fn lemma_insert_position(s: Seq<ObservationEvidence>, x: ObservationEvidence)
    ensures
        0 <= insert_position(s, x) <= s.len(),
        forall|i: int| 0 <= i < insert_position(s, x) ==> !observation_after(#[trigger] s[i], x),
        insert_position(s, x) < s.len() ==> observation_after(s[insert_position(s, x)], x),
    decreases s.len(),
{
    if s.len() > 0 && !observation_after(s[0], x) {
        lemma_insert_position(s.drop_first(), x);
        assert forall|i: int| 0 <= i < insert_position(s, x) implies !observation_after(#[trigger] s[i], x) by {
            if i > 0 {
                assert(s[i] == s.drop_first()[i - 1]);
            }
        }
    }
}

proof fn lemma_sorted_observations(s: Seq<ObservationEvidence>)
    ensures
        sorted_observations(s).len() == s.len(),
        observations_in_order(sorted_observations(s)),
        forall|y: ObservationEvidence| sorted_observations(s).contains(y) <==> s.contains(y),
    decreases s.len(),
{
    if s.len() > 0 {
        let d = s.drop_last();
        let x = s.last();
        lemma_sorted_observations(d);
        let rest = sorted_observations(d);
        lemma_insert_position(rest, x);
        let p = insert_position(rest, x);
        let r = rest.insert(p, x);
        assert forall|i: int, j: int| 0 <= i < j < r.len() implies !observation_after(#[trigger] r[i], #[trigger] r[j]) by {
            if j < p {
                assert(r[i] == rest[i] && r[j] == rest[j]);
            } else if j == p {
                assert(r[i] == rest[i]);
            } else if i == p {
                assert(r[j] == rest[j - 1]);
                assert(observation_after(rest[p], x));
                if p < j - 1 {
                    assert(!observation_after(rest[p], rest[j - 1]));
                } else {
                    lemma_observation_after_irreflexive(rest[p]);
                }
                if observation_after(x, rest[j - 1]) {
                    lemma_observation_after_transitive(rest[p], x, rest[j - 1]);
                }
            } else if i < p {
                assert(r[i] == rest[i] && r[j] == rest[j - 1]);
            } else {
                assert(r[i] == rest[i - 1] && r[j] == rest[j - 1]);
            }
        }
        assert forall|y: ObservationEvidence| r.contains(y) <==> s.contains(y) by {
            if r.contains(y) {
                let k = choose|k: int| 0 <= k < r.len() && r[k] == y;
                if k == p {
                    assert(s[s.len() - 1] == y);
                } else {
                    if k < p {
                        assert(rest[k] == y);
                    } else {
                        assert(rest[k - 1] == y);
                    }
                    assert(rest.contains(y));
                    assert(d.contains(y));
                    let m = choose|m: int| 0 <= m < d.len() && d[m] == y;
                    assert(d[m] == s[m]);
                    assert(s.contains(y));
                }
            }
            if s.contains(y) {
                let k = choose|k: int| 0 <= k < s.len() && s[k] == y;
                if k == s.len() - 1 {
                    assert(r[p] == y);
                } else {
                    assert(d[k] == y);
                    assert(d.contains(y));
                    assert(rest.contains(y));
                    let m = choose|m: int| 0 <= m < rest.len() && rest[m] == y;
                    if m < p {
                        assert(r[m] == y);
                    } else {
                        assert(r[m + 1] == y);
                    }
                }
            }
        }
    }
}

fn insert_position_of(v: &Vec<ObservationEvidence>, x: &ObservationEvidence) -> (r: usize)
    ensures
        r as int == insert_position(v@, *x),
{
    let mut p: usize = 0;
    proof {
        assert(v@.skip(0) =~= v@);
    }
    while p < v.len()
        invariant
            p <= v.len(),
            insert_position(v@, *x) == p + insert_position(v@.skip(p as int), *x),
        decreases v.len() - p,
    {
        proof {
            assert(v@.skip(p as int)[0] == v@[p as int]);
            assert(v@.skip(p as int).drop_first() =~= v@.skip(p + 1));
        }
        if observation_sorts_after(&v[p], x) {
            return p;
        }
        p = p + 1;
    }
    proof {
        assert(v@.skip(p as int).len() == 0);
    }
    p
}

/// Sorts observations stably by left observation, right observation and
/// source rank.
pub fn sort_observations(observations: Vec<ObservationEvidence>) -> (r: Vec<ObservationEvidence>)
    ensures
        r@ == sorted_observations(observations@),
        r.len() == observations.len(),
        observations_in_order(r@),
        forall|y: ObservationEvidence| r@.contains(y) <==> observations@.contains(y),
{
    let ghost input = observations@;
    let mut rest = observations;
    let mut sorted: Vec<ObservationEvidence> = Vec::new();
    let mut k: usize = 0;
    proof {
        assert(input.take(0) =~= Seq::<ObservationEvidence>::empty());
        assert(rest@ =~= input.skip(0));
    }
    let n = rest.len();
    while rest.len() > 0
        invariant
            n == input.len(),
            k + rest.len() == input.len(),
            rest@ == input.skip(k as int),
            sorted@ == sorted_observations(input.take(k as int)),
        decreases rest.len(),
    {
        let x = rest.remove(0);
        proof {
            assert(x == input[k as int]);
            assert(rest@ =~= input.skip(k + 1));
            let t = input.take(k + 1);
            assert(t.drop_last() =~= input.take(k as int));
            assert(t.last() == x);
        }
        let p = insert_position_of(&sorted, &x);
        proof {
            lemma_insert_position(sorted@, x);
        }
        sorted.insert(p, x);
        k = k + 1;
    }
    proof {
        assert(input.take(k as int) =~= input);
        lemma_sorted_observations(input);
    }
    sorted
}

/// What the blockers of an evaluation depend on, besides the environment's
/// own blockers.
struct BlockerFacts {
    unsafe_candidate: bool,
    pending: bool,
    unsupported: bool,
    rejected: bool,
    synthetic_only: bool,
    documented_only: bool,
    no_experimental: bool,
    mixed: bool,
    environment_blocked: bool,
    insufficient: bool,
    no_benefit: bool,
}

spec fn fact_for(f: BlockerFacts, b: EvidenceBlocker) -> bool {
    match b {
        EvidenceBlocker::CandidateSafetyNotEstablished => f.unsafe_candidate,
        EvidenceBlocker::RuntimeCapabilityPending => f.pending,
        EvidenceBlocker::RuntimeCapabilityUnsupported => f.unsupported,
        EvidenceBlocker::RuntimeIdentityMismatch => false,
        EvidenceBlocker::ObservationIdentityMismatch => f.rejected,
        EvidenceBlocker::SyntheticOnlyEvidence => f.synthetic_only,
        EvidenceBlocker::DocumentedOnlyEvidence => f.documented_only,
        EvidenceBlocker::NoExperimentalObservation => f.no_experimental,
        EvidenceBlocker::MixedObservations => f.mixed,
        EvidenceBlocker::EnvironmentUnavailable => f.environment_blocked,
        EvidenceBlocker::InsufficientObservationFields => f.insufficient,
        EvidenceBlocker::NoObservedCacheBenefit => f.no_benefit,
    }
}

/// Facts about a list of observations, gathered in one pass.
struct ObservationFacts {
    rejected: bool,
    insufficient: bool,
    any_relevant: bool,
    relevant_experimental: bool,
    relevant_synthetic: bool,
    relevant_documented: bool,
    mixed: bool,
    increase: bool,
    decrease: bool,
    unchanged: bool,
}

spec fn observation_facts_hold(f: ObservationFacts, obs: Seq<ObservationEvidence>) -> bool {
    &&& f.rejected == exists|i: int| 0 <= i < obs.len() && (#[trigger] obs[i]).relevance == ObservationRelevance::Rejected
    &&& f.insufficient == exists|i: int| 0 <= i < obs.len()
        && (#[trigger] obs[i]).relevance == ObservationRelevance::Rejected
        && obs[i].reasons@.contains(ObservationRelevanceReason::InsufficientObservationFields)
    &&& f.any_relevant == exists|i: int| 0 <= i < obs.len() && relevant(#[trigger] obs[i])
    &&& f.relevant_experimental == exists|i: int| 0 <= i < obs.len() && experimental(#[trigger] obs[i])
    &&& f.relevant_synthetic == relevant_from(obs, EvidenceSourceClass::SyntheticProtocolTest)
    &&& f.relevant_documented == relevant_from(obs, EvidenceSourceClass::DocumentedCapability)
    &&& f.mixed == experimental_with(obs, CacheRegressionAssessment::MixedObservations)
    &&& f.increase == experimental_with(obs, CacheRegressionAssessment::ObservedReuseIncrease)
    &&& f.decrease == experimental_with(obs, CacheRegressionAssessment::ObservedReuseDecrease)
    &&& f.unchanged == experimental_with(obs, CacheRegressionAssessment::NoObservedCacheReuseChange)
}

fn has_reason(reasons: &Vec<ObservationRelevanceReason>, wanted: ObservationRelevanceReason) -> (r: bool)
    ensures
        r == reasons@.contains(wanted),
{
    let mut i: usize = 0;
    while i < reasons.len()
        invariant
            i <= reasons.len(),
            forall|j: int| 0 <= j < i ==> reasons@[j] != wanted,
        decreases reasons.len() - i,
    {
        if reasons[i] == wanted {
            proof {
                assert(reasons@[i as int] == wanted);
            }
            return true;
        }
        i = i + 1;
    }
    false
}

fn observation_facts(obs: &Vec<ObservationEvidence>) -> (f: ObservationFacts)
    ensures
        observation_facts_hold(f, obs@),
{
    let mut f = ObservationFacts {
        rejected: false,
        insufficient: false,
        any_relevant: false,
        relevant_experimental: false,
        relevant_synthetic: false,
        relevant_documented: false,
        mixed: false,
        increase: false,
        decrease: false,
        unchanged: false,
    };
    let mut i: usize = 0;
    while i < obs.len()
        invariant
            i <= obs.len(),
            observation_facts_hold(f, obs@.take(i as int)),
        decreases obs.len() - i,
    {
        let o = &obs[i];
        let ghost before = obs@.take(i as int);
        let ghost after = obs@.take(i + 1);
        let is_relevant = o.relevance == ObservationRelevance::Relevant;
        let is_experimental = is_relevant && o.source == EvidenceSourceClass::ExperimentallyObservedRuntime;
        if o.relevance == ObservationRelevance::Rejected {
            f.rejected = true;
            if has_reason(&o.reasons, ObservationRelevanceReason::InsufficientObservationFields) {
                f.insufficient = true;
            }
        }
        if is_relevant {
            f.any_relevant = true;
            if o.source == EvidenceSourceClass::SyntheticProtocolTest {
                f.relevant_synthetic = true;
            }
            if o.source == EvidenceSourceClass::DocumentedCapability {
                f.relevant_documented = true;
            }
        }
        if is_experimental {
            f.relevant_experimental = true;
            if o.assessment == CacheRegressionAssessment::MixedObservations {
                f.mixed = true;
            }
            if o.assessment == CacheRegressionAssessment::ObservedReuseIncrease {
                f.increase = true;
            }
            if o.assessment == CacheRegressionAssessment::ObservedReuseDecrease {
                f.decrease = true;
            }
            if o.assessment == CacheRegressionAssessment::NoObservedCacheReuseChange {
                f.unchanged = true;
            }
        }
        proof {
            assert(forall|j: int| 0 <= j < i ==> after[j] == before[j]);
            assert(after[i as int] == *o);
            assert(observation_facts_hold(f, after)) by {
                assert forall|j: int| 0 <= j < after.len() implies #[trigger] after[j] == obs@[j] by {}
            }
        }
        i = i + 1;
    }
    proof {
        assert(obs@.take(obs.len() as int) =~= obs@);
    }
    f
}

fn blocker_at(rank: u8) -> (b: EvidenceBlocker)
    requires
        rank < 12,
    ensures
        blocker_rank(b) == rank,
{
    if rank == 0 { EvidenceBlocker::CandidateSafetyNotEstablished }
    else if rank == 1 { EvidenceBlocker::RuntimeCapabilityPending }
    else if rank == 2 { EvidenceBlocker::RuntimeCapabilityUnsupported }
    else if rank == 3 { EvidenceBlocker::RuntimeIdentityMismatch }
    else if rank == 4 { EvidenceBlocker::ObservationIdentityMismatch }
    else if rank == 5 { EvidenceBlocker::SyntheticOnlyEvidence }
    else if rank == 6 { EvidenceBlocker::DocumentedOnlyEvidence }
    else if rank == 7 { EvidenceBlocker::NoExperimentalObservation }
    else if rank == 8 { EvidenceBlocker::MixedObservations }
    else if rank == 9 { EvidenceBlocker::EnvironmentUnavailable }
    else if rank == 10 { EvidenceBlocker::InsufficientObservationFields }
    else { EvidenceBlocker::NoObservedCacheBenefit }
}

fn fact_value(f: &BlockerFacts, b: EvidenceBlocker) -> (r: bool)
    ensures
        r == fact_for(*f, b),
{
    match b {
        EvidenceBlocker::CandidateSafetyNotEstablished => f.unsafe_candidate,
        EvidenceBlocker::RuntimeCapabilityPending => f.pending,
        EvidenceBlocker::RuntimeCapabilityUnsupported => f.unsupported,
        EvidenceBlocker::RuntimeIdentityMismatch => false,
        EvidenceBlocker::ObservationIdentityMismatch => f.rejected,
        EvidenceBlocker::SyntheticOnlyEvidence => f.synthetic_only,
        EvidenceBlocker::DocumentedOnlyEvidence => f.documented_only,
        EvidenceBlocker::NoExperimentalObservation => f.no_experimental,
        EvidenceBlocker::MixedObservations => f.mixed,
        EvidenceBlocker::EnvironmentUnavailable => f.environment_blocked,
        EvidenceBlocker::InsufficientObservationFields => f.insufficient,
        EvidenceBlocker::NoObservedCacheBenefit => f.no_benefit,
    }
}

fn has_blocker(v: &Vec<EvidenceBlocker>, b: EvidenceBlocker) -> (r: bool)
    ensures
        r == v@.contains(b),
{
    let mut i: usize = 0;
    while i < v.len()
        invariant
            i <= v.len(),
            forall|j: int| 0 <= j < i ==> v@[j] != b,
        decreases v.len() - i,
    {
        if v[i] == b {
            proof {
                assert(v@[i as int] == b);
            }
            return true;
        }
        i = i + 1;
    }
    false
}

proof fn lemma_blocker_rank_injective(a: EvidenceBlocker, b: EvidenceBlocker)
    ensures
        blocker_rank(a) == blocker_rank(b) ==> a == b,
{
    match a {
        EvidenceBlocker::CandidateSafetyNotEstablished => {},
        EvidenceBlocker::RuntimeCapabilityPending => {},
        EvidenceBlocker::RuntimeCapabilityUnsupported => {},
        EvidenceBlocker::RuntimeIdentityMismatch => {},
        EvidenceBlocker::ObservationIdentityMismatch => {},
        EvidenceBlocker::SyntheticOnlyEvidence => {},
        EvidenceBlocker::DocumentedOnlyEvidence => {},
        EvidenceBlocker::NoExperimentalObservation => {},
        EvidenceBlocker::MixedObservations => {},
        EvidenceBlocker::EnvironmentUnavailable => {},
        EvidenceBlocker::InsufficientObservationFields => {},
        EvidenceBlocker::NoObservedCacheBenefit => {},
    }
}

/// The blockers an evaluation records, in their declaration order, each
/// once (see `blocker_holds`).
pub fn evaluation_blockers(
    safety: CandidateSafetyStatus,
    capability: CapabilityAssessment,
    observations: &Vec<ObservationEvidence>,
    environment: &EnvironmentState,
) -> (r: Vec<EvidenceBlocker>)
    ensures
        forall|b: EvidenceBlocker| r@.contains(b) <==> blocker_holds(b, safety, capability, observations@, *environment),
        forall|i: int, j: int| 0 <= i < j < r.len() ==> blocker_rank(#[trigger] r@[i]) < blocker_rank(#[trigger] r@[j]),
        r.len() <= 12,
{
    let o = observation_facts(observations);
    let only_non_experimental = o.any_relevant && !o.relevant_experimental;
    let contrary = o.decrease || o.unchanged;
    let mixed = o.mixed || (o.increase && contrary);
    let facts = BlockerFacts {
        unsafe_candidate: safety != CandidateSafetyStatus::OrderingSafeUnderDeclaredConstraints,
        pending: capability == CapabilityAssessment::NotProvided || capability == CapabilityAssessment::UnknownDocumented
            || capability == CapabilityAssessment::UnknownUnverified,
        unsupported: capability == CapabilityAssessment::UnsupportedDocumented
            || capability == CapabilityAssessment::UnsupportedObserved,
        rejected: o.rejected,
        synthetic_only: only_non_experimental && o.relevant_synthetic,
        documented_only: only_non_experimental && o.relevant_documented,
        no_experimental: !o.relevant_experimental,
        mixed,
        environment_blocked: environment.readiness == EnvironmentReadiness::Blocked,
        insufficient: o.insufficient,
        no_benefit: !mixed && contrary,
    };
    proof {
        let obs = observations@;
        assert(only_non_experimental == non_experimental_only(obs)) by {
            if o.any_relevant && !o.relevant_experimental {
                assert forall|i: int| 0 <= i < obs.len() && relevant(#[trigger] obs[i])
                    implies obs[i].source != EvidenceSourceClass::ExperimentallyObservedRuntime by {
                    if obs[i].source == EvidenceSourceClass::ExperimentallyObservedRuntime {
                        assert(experimental(obs[i]));
                    }
                }
            }
            if non_experimental_only(obs) {
                let k = choose|k: int| 0 <= k < obs.len() && relevant(#[trigger] obs[k]);
                assert(relevant(obs[k]));
                if o.relevant_experimental {
                    let m = choose|m: int| 0 <= m < obs.len() && experimental(#[trigger] obs[m]);
                    assert(relevant(obs[m]));
                }
            }
        }
        assert forall|b: EvidenceBlocker| (fact_for(facts, b) || environment.blockers@.contains(b))
            <==> blocker_holds(b, safety, capability, obs, *environment) by {}
    }
    let mut r: Vec<EvidenceBlocker> = Vec::new();
    let mut rank: u8 = 0;
    while rank < 12
        invariant
            rank <= 12,
            r.len() <= rank,
            forall|b: EvidenceBlocker| r@.contains(b) <==> (blocker_rank(b) < rank
                && blocker_holds(b, safety, capability, observations@, *environment)),
            forall|i: int, j: int| 0 <= i < j < r.len() ==> blocker_rank(#[trigger] r@[i]) < blocker_rank(#[trigger] r@[j]),
            forall|i: int| 0 <= i < r.len() ==> blocker_rank(#[trigger] r@[i]) < rank,
            forall|b: EvidenceBlocker| (fact_for(facts, b) || environment.blockers@.contains(b))
                <==> blocker_holds(b, safety, capability, observations@, *environment),
        decreases 12 - rank,
    {
        let b = blocker_at(rank);
        if fact_value(&facts, b) || has_blocker(&environment.blockers, b) {
            let ghost before = r@;
            r.push(b);
            proof {
                assert(blocker_holds(b, safety, capability, observations@, *environment));
                assert forall|c: EvidenceBlocker| r@.contains(c) <==> (blocker_rank(c) < rank + 1
                    && blocker_holds(c, safety, capability, observations@, *environment)) by {
                    lemma_blocker_rank_injective(b, c);
                    if r@.contains(c) {
                        let k = choose|k: int| 0 <= k < r.len() && r@[k] == c;
                        if k < before.len() {
                            assert(before[k] == c);
                            assert(before.contains(c));
                        } else {
                            assert(c == b);
                        }
                    }
                    if blocker_rank(c) == rank {
                        assert(r@[r.len() - 1] == b);
                    } else if blocker_rank(c) < rank && blocker_holds(c, safety, capability, observations@, *environment) {
                        assert(before.contains(c));
                        let k = choose|k: int| 0 <= k < before.len() && before[k] == c;
                        assert(r@[k] == c);
                    }
                }
            }
        } else {
            proof {
                assert forall|c: EvidenceBlocker| r@.contains(c) <==> (blocker_rank(c) < rank + 1
                    && blocker_holds(c, safety, capability, observations@, *environment)) by {
                    lemma_blocker_rank_injective(b, c);
                }
            }
        }
        rank = rank + 1;
    }
    r
}

/// `e` is the evaluation decided from its parts (see `assemble_evaluation`).
pub open spec fn assembled_from(
    e: CandidateEvaluation,
    candidate: CandidateReference,
    runtime_profile: Option<RuntimeProfileReference>,
    structural: StructuralAssessment,
    capability: CapabilityGateAssessment,
    observations: Seq<ObservationEvidence>,
    environment: EnvironmentState,
) -> bool {
    let safe = structural.safety == CandidateSafetyStatus::OrderingSafeUnderDeclaredConstraints;
    let state = evidence_state_of(structural.safety, runtime_profile is Some, capability.state, observations);
    let design = if safe && capability_supported(capability.state) {
        DesignReadiness::Ready
    } else {
        DesignReadiness::Blocked
    };
    &&& e.evaluation_ok()
    &&& e.candidate == candidate
    &&& e.runtime_profile == runtime_profile
    &&& e.structural == structural
    &&& e.capability == capability
    &&& e.observations@ == sorted_observations(observations)
    &&& forall|b: EvidenceBlocker| e.blockers@.contains(b)
        <==> blocker_holds(b, structural.safety, capability.state, observations, environment)
    &&& forall|i: int, j: int| 0 <= i < j < e.blockers.len()
        ==> blocker_rank(#[trigger] e.blockers@[i]) < blocker_rank(#[trigger] e.blockers@[j])
    &&& e.evidence_state == state
    &&& e.next_action == next_action_of(state, structural.safety, capability.state, environment.readiness)
    &&& e.experiment_readiness.design == design
    &&& e.experiment_readiness.environment == environment.readiness
    &&& e.experiment_readiness.execution == if design == DesignReadiness::Ready
        && environment.readiness == EnvironmentReadiness::Available {
        ExecutionReadiness::Ready
    } else {
        ExecutionReadiness::Blocked
    }
    &&& e.claim_permissions.structural_claims == if safe { ClaimPermission::Allowed } else { ClaimPermission::NotAllowed }
    &&& e.claim_permissions.capability_claims == if runtime_profile is Some {
        ClaimPermission::AllowedIfEvidenced
    } else {
        ClaimPermission::NotAllowed
    }
    &&& e.claim_permissions.observation_claims == ClaimPermission::AllowedIfRealObservation
    &&& e.provenance.evaluator_version@ == CANDIDATE_EVALUATOR_VERSION@
    &&& e.provenance.source@ == "p0-l10-p0-l11-candidate-plus-p0-l8-p0-l9-evidence"@
    &&& e.provenance.environment == environment.readiness
    &&& e.hypothesis == CandidateHypothesis::ReducedStabilityInversionMayIncreaseReusableLeadingContext
}

/// Decides an evaluation from its parts: the candidate's reference, the
/// runtime profile's reference (`None` without a profile), the structural
/// assessment, the capability gate, the classified observations and the
/// environment. The observations are sorted; the blockers, evidence state,
/// readiness, next action and claim permissions follow from the parts
/// (see `blocker_holds`, `evidence_state_of` and `next_action_of`). It fails
/// when the environment or the observations exceed their bounds, or the
/// structural assessment claims a cache impact.
pub fn assemble_evaluation(
    candidate: CandidateReference,
    runtime_profile: Option<RuntimeProfileReference>,
    structural: StructuralAssessment,
    capability: CapabilityGateAssessment,
    observations: Vec<ObservationEvidence>,
    environment: &EnvironmentState,
) -> (r: Result<CandidateEvaluation, BenchmarkError>)
    ensures
        r is Ok <==> environment.blockers.len() <= MAX_EVALUATION_BLOCKERS
            && observations.len() <= MAX_EVALUATION_OBSERVATIONS && structural.cache_impact@ == "unknown"@,
        r is Err ==> in_memory_validation(r->Err_0),
        r matches Ok(e) ==> assembled_from(e, candidate, runtime_profile, structural, capability, observations@, *environment),
{
    let r = environment.validate();
    match r {
        Ok(_) => {},
        Err(e) => return Err(e),
    }
    if observations.len() > MAX_EVALUATION_OBSERVATIONS {
        return Err(BenchmarkError::validation("candidate evaluation observations exceed their bound"));
    }
    let blockers = evaluation_blockers(structural.safety, capability.state, &observations, environment);
    let o = observation_facts(&observations);
    let safe = structural.safety == CandidateSafetyStatus::OrderingSafeUnderDeclaredConstraints;
    let state = capability.state;
    let pending = state == CapabilityAssessment::NotProvided || state == CapabilityAssessment::UnknownDocumented
        || state == CapabilityAssessment::UnknownUnverified;
    let unsupported = state == CapabilityAssessment::UnsupportedDocumented
        || state == CapabilityAssessment::UnsupportedObserved;
    let supported = state == CapabilityAssessment::SupportedDocumented || state == CapabilityAssessment::SupportedObserved;
    let contrary = o.decrease || o.unchanged;
    let mixed = o.mixed || (o.increase && contrary);
    let design = if safe && supported { DesignReadiness::Ready } else { DesignReadiness::Blocked };
    let execution = if design == DesignReadiness::Ready && environment.readiness == EnvironmentReadiness::Available {
        ExecutionReadiness::Ready
    } else {
        ExecutionReadiness::Blocked
    };
    let profile_supplied = runtime_profile.is_some();
    let evidence_state = if !safe {
        EvidenceState::Blocked
    } else if !profile_supplied {
        EvidenceState::StructuralOnly
    } else if pending || unsupported {
        EvidenceState::Blocked
    } else if mixed {
        EvidenceState::MixedEvidence
    } else if contrary {
        EvidenceState::UnsupportedByCurrentEvidence
    } else if o.increase {
        EvidenceState::ObservationallySupported
    } else {
        EvidenceState::ReadyForExperiment
    };
    let next_action = match evidence_state {
        EvidenceState::Blocked => if !safe || unsupported {
            NextAction::RejectCandidate
        } else {
            NextAction::GatherCapabilityEvidence
        },
        EvidenceState::UnsupportedByCurrentEvidence => NextAction::NoAction,
        EvidenceState::MixedEvidence => NextAction::GatherRuntimeObservation,
        EvidenceState::ObservationallySupported => NextAction::NoAction,
        EvidenceState::ReadyForExperiment => if environment.readiness == EnvironmentReadiness::Blocked {
            NextAction::ResolveEnvironment
        } else {
            NextAction::ControlledExperiment
        },
        _ => NextAction::GatherCapabilityEvidence,
    };
    let observations = sort_observations(observations);
    let evaluation = CandidateEvaluation {
        schema_id: owned(CANDIDATE_EVALUATION_SCHEMA_ID),
        schema_version: CANDIDATE_EVALUATION_SCHEMA_VERSION,
        candidate,
        hypothesis: CandidateHypothesis::ReducedStabilityInversionMayIncreaseReusableLeadingContext,
        runtime_profile,
        structural,
        capability,
        observations,
        evidence_state,
        claim_permissions: ClaimPermissions {
            structural_claims: if safe { ClaimPermission::Allowed } else { ClaimPermission::NotAllowed },
            capability_claims: if profile_supplied { ClaimPermission::AllowedIfEvidenced } else { ClaimPermission::NotAllowed },
            observation_claims: ClaimPermission::AllowedIfRealObservation,
            performance_claims: ClaimPermission::NotAllowed,
            causal_claims: ClaimPermission::NotAllowed,
            application_claims: ClaimPermission::NotAllowed,
        },
        experiment_readiness: ExperimentReadiness { design, environment: environment.readiness, execution },
        next_action,
        blockers,
        provenance: EvaluationProvenance {
            evaluator_version: owned(CANDIDATE_EVALUATOR_VERSION),
            source: owned("p0-l10-p0-l11-candidate-plus-p0-l8-p0-l9-evidence"),
            environment: environment.readiness,
        },
    };
    proof {
        let e = evaluation;
        assert forall|i: int| 0 <= i < e.blockers.len() - 1
            implies blocker_rank(#[trigger] e.blockers@[i]) <= blocker_rank(e.blockers@[i + 1]) by {}
        assert forall|i: int| 0 <= i < e.observations.len() - 1
            implies !observation_after(#[trigger] e.observations@[i], e.observations@[i + 1]) by {}
        assert forall|i: int| 0 <= i < e.observations.len()
            implies (#[trigger] e.observations@[i]).causality == CausalityStatus::NotEstablished by {
            match e.observations@[i].causality {
                CausalityStatus::NotEstablished => {},
            }
        }
    }
    match evaluation.validate() {
        Ok(_) => Ok(evaluation),
        Err(e) => Err(e),
    }
}

/// An unsafe candidate is blocked and rejected, with its safety recorded as
/// the blocker, whatever the capability, observations and environment.
pub proof fn law_unsafe_candidate_is_rejected(
    safety: CandidateSafetyStatus,
    profile_supplied: bool,
    capability: CapabilityAssessment,
    observations: Seq<ObservationEvidence>,
    environment: EnvironmentState,
)
    requires
        safety != CandidateSafetyStatus::OrderingSafeUnderDeclaredConstraints,
    ensures
        evidence_state_of(safety, profile_supplied, capability, observations) == EvidenceState::Blocked,
        next_action_of(EvidenceState::Blocked, safety, capability, environment.readiness) == NextAction::RejectCandidate,
        blocker_holds(EvidenceBlocker::CandidateSafetyNotEstablished, safety, capability, observations, environment),
{
}

/// Observational support needs a relevant experimental observation of more
/// reuse and none of less reuse or no change: synthetic or documented
/// observations alone never give it, nor does any evidence without a
/// supported capability of a safe candidate with a profile.
pub proof fn law_support_needs_experimental_evidence(
    safety: CandidateSafetyStatus,
    profile_supplied: bool,
    capability: CapabilityAssessment,
    observations: Seq<ObservationEvidence>,
)
    ensures
        evidence_state_of(safety, profile_supplied, capability, observations) == EvidenceState::ObservationallySupported
            ==> {
            &&& safety == CandidateSafetyStatus::OrderingSafeUnderDeclaredConstraints
            &&& profile_supplied
            &&& capability_supported(capability)
            &&& experimental_with(observations, CacheRegressionAssessment::ObservedReuseIncrease)
            &&& !observations_contrary(observations)
            &&& !observations_mixed(observations)
        },
        (forall|i: int| 0 <= i < observations.len() ==> !experimental(#[trigger] observations[i]))
            ==> evidence_state_of(safety, profile_supplied, capability, observations) != EvidenceState::ObservationallySupported,
{
}

// ---------------------------------------------------------------------------
// Identity reasons for rejecting an observation.

/// The order of relevance reasons: their declaration order.
pub open spec fn reason_rank(r: ObservationRelevanceReason) -> int {
    match r {
        ObservationRelevanceReason::RuntimeIdentityMismatch => 0,
        ObservationRelevanceReason::ModelIdentityMismatch => 1,
        ObservationRelevanceReason::ProtocolIdentityMismatch => 2,
        ObservationRelevanceReason::RuntimeVersionIdentityMismatch => 3,
        ObservationRelevanceReason::ProfileIdentityMismatch => 4,
        ObservationRelevanceReason::RequestFingerprintMismatch => 5,
        ObservationRelevanceReason::CandidateMutationMismatch => 6,
        ObservationRelevanceReason::EnvelopeCompatibilityMismatch => 7,
        ObservationRelevanceReason::IncomparableObservation => 8,
        ObservationRelevanceReason::InsufficientObservationFields => 9,
    }
}

/// A known profile dimension that the observation knows otherwise.
pub open spec fn dimension_differs(expected: Observed<String>, observed: Observed<String>) -> bool {
    match (observed_view(expected), observed_view(observed)) {
        (Observed::Known(e), Observed::Known(o)) => e != o,
        _ => false,
    }
}

/// A known profile dimension that the observation does not know.
pub open spec fn dimension_unobserved(expected: Observed<String>, observed: Observed<String>) -> bool {
    expected is Known && !(observed is Known)
}

/// Whether an observation's runtime identity gives reason `r` to reject it
/// for a profile: a different backend, provider or runtime; a different
/// model, protocol or runtime version; another profile; or a dimension the
/// profile knows and the observation does not.
pub open spec fn identity_reason_holds(
    r: ObservationRelevanceReason,
    profile_id: Seq<char>,
    identity: RuntimeIdentity,
    reference: RuntimeIdentityReference,
) -> bool {
    match r {
        ObservationRelevanceReason::RuntimeIdentityMismatch => identity.backend@ != reference.backend@
            || dimension_differs(identity.provider, reference.provider)
            || dimension_differs(identity.runtime, reference.runtime),
        ObservationRelevanceReason::ModelIdentityMismatch => dimension_differs(identity.model, reference.model),
        ObservationRelevanceReason::ProtocolIdentityMismatch => dimension_differs(identity.protocol, reference.protocol),
        ObservationRelevanceReason::RuntimeVersionIdentityMismatch =>
            dimension_differs(identity.runtime_version, reference.runtime_version),
        ObservationRelevanceReason::ProfileIdentityMismatch => match opt_view(reference.profile_id) {
            Some(p) => p != profile_id,
            None => false,
        },
        ObservationRelevanceReason::InsufficientObservationFields =>
            dimension_unobserved(identity.provider, reference.provider)
            || dimension_unobserved(identity.model, reference.model)
            || dimension_unobserved(identity.protocol, reference.protocol)
            || dimension_unobserved(identity.runtime, reference.runtime)
            || dimension_unobserved(identity.runtime_version, reference.runtime_version),
        _ => false,
    }
}

fn differs(expected: &Observed<String>, observed: &Observed<String>) -> (r: bool)
    ensures
        r == dimension_differs(*expected, *observed),
{
    match (expected, observed) {
        (Observed::Known(e), Observed::Known(o)) => !str_eq(e.as_str(), o.as_str()),
        _ => false,
    }
}

fn unobserved(expected: &Observed<String>, observed: &Observed<String>) -> (r: bool)
    ensures
        r == dimension_unobserved(*expected, *observed),
{
    match (expected, observed) {
        (Observed::Known(_), Observed::Known(_)) => false,
        (Observed::Known(_), _) => true,
        _ => false,
    }
}

fn reason_at(rank: u8) -> (r: ObservationRelevanceReason)
    requires
        rank < 10,
    ensures
        reason_rank(r) == rank,
{
    if rank == 0 { ObservationRelevanceReason::RuntimeIdentityMismatch }
    else if rank == 1 { ObservationRelevanceReason::ModelIdentityMismatch }
    else if rank == 2 { ObservationRelevanceReason::ProtocolIdentityMismatch }
    else if rank == 3 { ObservationRelevanceReason::RuntimeVersionIdentityMismatch }
    else if rank == 4 { ObservationRelevanceReason::ProfileIdentityMismatch }
    else if rank == 5 { ObservationRelevanceReason::RequestFingerprintMismatch }
    else if rank == 6 { ObservationRelevanceReason::CandidateMutationMismatch }
    else if rank == 7 { ObservationRelevanceReason::EnvelopeCompatibilityMismatch }
    else if rank == 8 { ObservationRelevanceReason::IncomparableObservation }
    else { ObservationRelevanceReason::InsufficientObservationFields }
}

proof fn lemma_reason_rank_injective(a: ObservationRelevanceReason, b: ObservationRelevanceReason)
    ensures
        reason_rank(a) == reason_rank(b) ==> a == b,
{
    match a {
        ObservationRelevanceReason::RuntimeIdentityMismatch => {},
        ObservationRelevanceReason::ModelIdentityMismatch => {},
        ObservationRelevanceReason::ProtocolIdentityMismatch => {},
        ObservationRelevanceReason::RuntimeVersionIdentityMismatch => {},
        ObservationRelevanceReason::ProfileIdentityMismatch => {},
        ObservationRelevanceReason::RequestFingerprintMismatch => {},
        ObservationRelevanceReason::CandidateMutationMismatch => {},
        ObservationRelevanceReason::EnvelopeCompatibilityMismatch => {},
        ObservationRelevanceReason::IncomparableObservation => {},
        ObservationRelevanceReason::InsufficientObservationFields => {},
    }
}

/// The reasons, in declaration order and each once, to reject an
/// observation whose runtime identity is `reference` for the profile
/// `profile_id` with identity `identity` (see `identity_reason_holds`).
pub fn identity_reasons(
    profile_id: &str,
    identity: &RuntimeIdentity,
    reference: &RuntimeIdentityReference,
) -> (r: Vec<ObservationRelevanceReason>)
    ensures
        forall|x: ObservationRelevanceReason| r@.contains(x) <==> identity_reason_holds(x, profile_id@, *identity, *reference),
        forall|i: int, j: int| 0 <= i < j < r.len() ==> reason_rank(#[trigger] r@[i]) < reason_rank(#[trigger] r@[j]),
{
    let runtime = !str_eq(identity.backend.as_str(), reference.backend.as_str())
        || differs(&identity.provider, &reference.provider)
        || differs(&identity.runtime, &reference.runtime);
    let model = differs(&identity.model, &reference.model);
    let protocol = differs(&identity.protocol, &reference.protocol);
    let version = differs(&identity.runtime_version, &reference.runtime_version);
    let profile = match &reference.profile_id {
        Some(p) => !str_eq(p.as_str(), profile_id),
        None => false,
    };
    let insufficient = unobserved(&identity.provider, &reference.provider)
        || unobserved(&identity.model, &reference.model)
        || unobserved(&identity.protocol, &reference.protocol)
        || unobserved(&identity.runtime, &reference.runtime)
        || unobserved(&identity.runtime_version, &reference.runtime_version);
    let ghost holds = |x: ObservationRelevanceReason| identity_reason_holds(x, profile_id@, *identity, *reference);
    let mut r: Vec<ObservationRelevanceReason> = Vec::new();
    let mut rank: u8 = 0;
    while rank < 10
        invariant
            rank <= 10,
            forall|x: ObservationRelevanceReason| r@.contains(x) <==> (reason_rank(x) < rank && holds(x)),
            forall|i: int, j: int| 0 <= i < j < r.len() ==> reason_rank(#[trigger] r@[i]) < reason_rank(#[trigger] r@[j]),
            forall|i: int| 0 <= i < r.len() ==> reason_rank(#[trigger] r@[i]) < rank,
            holds(ObservationRelevanceReason::RuntimeIdentityMismatch) == runtime,
            holds(ObservationRelevanceReason::ModelIdentityMismatch) == model,
            holds(ObservationRelevanceReason::ProtocolIdentityMismatch) == protocol,
            holds(ObservationRelevanceReason::RuntimeVersionIdentityMismatch) == version,
            holds(ObservationRelevanceReason::ProfileIdentityMismatch) == profile,
            holds(ObservationRelevanceReason::InsufficientObservationFields) == insufficient,
            !holds(ObservationRelevanceReason::RequestFingerprintMismatch),
            !holds(ObservationRelevanceReason::CandidateMutationMismatch),
            !holds(ObservationRelevanceReason::EnvelopeCompatibilityMismatch),
            !holds(ObservationRelevanceReason::IncomparableObservation),
        decreases 10 - rank,
    {
        let x = reason_at(rank);
        let present = match x {
            ObservationRelevanceReason::RuntimeIdentityMismatch => runtime,
            ObservationRelevanceReason::ModelIdentityMismatch => model,
            ObservationRelevanceReason::ProtocolIdentityMismatch => protocol,
            ObservationRelevanceReason::RuntimeVersionIdentityMismatch => version,
            ObservationRelevanceReason::ProfileIdentityMismatch => profile,
            ObservationRelevanceReason::InsufficientObservationFields => insufficient,
            _ => false,
        };
        let ghost before = r@;
        if present {
            r.push(x);
        }
        proof {
            assert(present == holds(x));
            assert forall|c: ObservationRelevanceReason| r@.contains(c) <==> (reason_rank(c) < rank + 1 && holds(c)) by {
                lemma_reason_rank_injective(x, c);
                if r@.contains(c) {
                    let k = choose|k: int| 0 <= k < r.len() && r@[k] == c;
                    if k < before.len() {
                        assert(before[k] == c);
                        assert(before.contains(c));
                    } else {
                        assert(c == x);
                    }
                }
                if reason_rank(c) < rank && holds(c) {
                    assert(before.contains(c));
                    let k = choose|k: int| 0 <= k < before.len() && before[k] == c;
                    assert(r@[k] == c);
                }
                if reason_rank(c) == rank && holds(c) {
                    assert(r@[r.len() - 1] == x);
                }
            }
        }
        rank = rank + 1;
    }
    r
}

// ---------------------------------------------------------------------------
// Classifying a diagnostic as evidence about a candidate.

/// Whether two envelope diffs say the same about the envelope: the request
/// fingerprints that identify the surrounding pair are left out, since a
/// context mutation changes them while the envelope stays the same.
pub open spec fn envelopes_compatible(left: EnvelopeDiff, right: EnvelopeDiff) -> bool {
    &&& left.schema_id@ == right.schema_id@
    &&& left.schema_version == right.schema_version
    &&& left.identical == right.identical
    &&& envelope_change_views(left.changes@) == envelope_change_views(right.changes@)
    &&& left.cache_impact == right.cache_impact
}

/// The evidence source of a comparison: that of its two observations when
/// they agree, unknown otherwise.
pub open spec fn comparison_source(d: CacheDiagnostic) -> EvidenceSourceClass {
    if d.observation_comparison.left.source == d.observation_comparison.right.source {
        d.observation_comparison.left.source
    } else {
        EvidenceSourceClass::UnknownUnverified
    }
}

/// Whether reason `x` holds to reject diagnostic `d` as evidence about
/// `candidate` under `profile`: its request and observations are not
/// aligned; it measured another mutation or another envelope; its
/// observations are incomparable or lack fields; without a profile it
/// lacks the fields to compare identities; and with one, the runtime
/// identity of either observation gives reason `x` (see
/// `identity_reason_holds`).
pub open spec fn relevance_reason_holds(
    x: ObservationRelevanceReason,
    candidate: LayoutCandidate,
    profile: Option<CapabilityProfile>,
    d: CacheDiagnostic,
) -> bool {
    let c = d.observation_comparison;
    let by_identity = identity_flag(x, profile, d);
    match x {
        ObservationRelevanceReason::RequestFingerprintMismatch =>
            d.request_observation_alignment != RequestObservationAlignment::Aligned,
        ObservationRelevanceReason::CandidateMutationMismatch =>
            request_diff_view(d.request_diff) != request_diff_view(candidate.request_diff),
        ObservationRelevanceReason::EnvelopeCompatibilityMismatch =>
            !envelopes_compatible(d.request_diff.envelope_diff, candidate.request_diff.envelope_diff),
        ObservationRelevanceReason::IncomparableObservation =>
            c.comparability.level == ComparabilityLevel::Incomparable,
        ObservationRelevanceReason::InsufficientObservationFields =>
            c.comparability.level == ComparabilityLevel::InsufficientEvidence || by_identity,
        _ => by_identity,
    }
}

pub open spec fn profile_value(profile: Option<&CapabilityProfile>) -> Option<CapabilityProfile> {
    match profile {
        Some(p) => Some(*p),
        None => None,
    }
}

/// `e` classifies diagnostic `d` about `candidate` under `profile`, with
/// the diagnostic's fingerprint `fingerprint`: it carries the observation
/// IDs, the source, the assessment and the evidence statement of `d`, its
/// reasons are those that hold, in declaration order and each once, and
/// it is relevant exactly when no reason holds.
pub open spec fn classified(
    e: ObservationEvidence,
    candidate: LayoutCandidate,
    profile: Option<CapabilityProfile>,
    d: CacheDiagnostic,
    fingerprint: Seq<char>,
) -> bool {
    &&& e.left_observation_id@ == d.observation_comparison.left.observation_id@
    &&& e.right_observation_id@ == d.observation_comparison.right.observation_id@
    &&& e.diagnostic_fingerprint@ == fingerprint
    &&& e.source == comparison_source(d)
    &&& forall|x: ObservationRelevanceReason| e.reasons@.contains(x) <==> relevance_reason_holds(x, candidate, profile, d)
    &&& forall|i: int, j: int| 0 <= i < j < e.reasons.len()
        ==> reason_rank(#[trigger] e.reasons@[i]) < reason_rank(#[trigger] e.reasons@[j])
    &&& (e.relevance == ObservationRelevance::Relevant
        <==> forall|x: ObservationRelevanceReason| !relevance_reason_holds(x, candidate, profile, d))
    &&& e.assessment == d.assessment
    &&& e.association == d.evidence.association
    &&& e.causality == d.evidence.causality
}

fn identity_flags(profile_id: &str, identity: &RuntimeIdentity, reference: &RuntimeIdentityReference) -> (r: Vec<bool>)
    ensures
        r.len() == 10,
        forall|x: ObservationRelevanceReason| #[trigger] r@[reason_rank(x)]
            == identity_reason_holds(x, profile_id@, *identity, *reference),
{
    let runtime = !str_eq(identity.backend.as_str(), reference.backend.as_str())
        || differs(&identity.provider, &reference.provider)
        || differs(&identity.runtime, &reference.runtime);
    let profile = match &reference.profile_id {
        Some(p) => !str_eq(p.as_str(), profile_id),
        None => false,
    };
    let insufficient = unobserved(&identity.provider, &reference.provider)
        || unobserved(&identity.model, &reference.model)
        || unobserved(&identity.protocol, &reference.protocol)
        || unobserved(&identity.runtime, &reference.runtime)
        || unobserved(&identity.runtime_version, &reference.runtime_version);
    let r = vec![
        runtime,
        differs(&identity.model, &reference.model),
        differs(&identity.protocol, &reference.protocol),
        differs(&identity.runtime_version, &reference.runtime_version),
        profile,
        false,
        false,
        false,
        false,
        insufficient,
    ];
    assert forall|x: ObservationRelevanceReason| #[trigger] r@[reason_rank(x)]
        == identity_reason_holds(x, profile_id@, *identity, *reference) by {
        match x {
            ObservationRelevanceReason::RuntimeIdentityMismatch => {},
            ObservationRelevanceReason::ModelIdentityMismatch => {},
            ObservationRelevanceReason::ProtocolIdentityMismatch => {},
            ObservationRelevanceReason::RuntimeVersionIdentityMismatch => {},
            ObservationRelevanceReason::ProfileIdentityMismatch => {},
            ObservationRelevanceReason::RequestFingerprintMismatch => {},
            ObservationRelevanceReason::CandidateMutationMismatch => {},
            ObservationRelevanceReason::EnvelopeCompatibilityMismatch => {},
            ObservationRelevanceReason::IncomparableObservation => {},
            ObservationRelevanceReason::InsufficientObservationFields => {},
        }
    }
    r
}

/// The reasons whose flag is set, in declaration order and each once.
fn ordered_reasons(flags: &Vec<bool>) -> (r: Vec<ObservationRelevanceReason>)
    requires
        flags.len() == 10,
    ensures
        forall|x: ObservationRelevanceReason| r@.contains(x) <==> flags@[reason_rank(x)],
        forall|i: int, j: int| 0 <= i < j < r.len() ==> reason_rank(#[trigger] r@[i]) < reason_rank(#[trigger] r@[j]),
{
    let mut r: Vec<ObservationRelevanceReason> = Vec::new();
    let mut rank: u8 = 0;
    while rank < 10
        invariant
            rank <= 10,
            flags.len() == 10,
            forall|x: ObservationRelevanceReason| r@.contains(x) <==> (reason_rank(x) < rank && flags@[reason_rank(x)]),
            forall|i: int, j: int| 0 <= i < j < r.len() ==> reason_rank(#[trigger] r@[i]) < reason_rank(#[trigger] r@[j]),
            forall|i: int| 0 <= i < r.len() ==> reason_rank(#[trigger] r@[i]) < rank,
        decreases 10 - rank,
    {
        let x = reason_at(rank);
        let present = flags[rank as usize];
        let ghost before = r@;
        if present {
            r.push(x);
        }
        proof {
            assert forall|c: ObservationRelevanceReason| r@.contains(c)
                <==> (reason_rank(c) < rank + 1 && flags@[reason_rank(c)]) by {
                lemma_reason_rank_injective(x, c);
                if r@.contains(c) {
                    let k = choose|k: int| 0 <= k < r.len() && r@[k] == c;
                    if k < before.len() {
                        assert(before[k] == c);
                        assert(before.contains(c));
                    } else {
                        assert(c == x);
                    }
                }
                if reason_rank(c) < rank && flags@[reason_rank(c)] {
                    assert(before.contains(c));
                    let k = choose|k: int| 0 <= k < before.len() && before[k] == c;
                    assert(r@[k] == c);
                }
                if reason_rank(c) == rank && flags@[reason_rank(c)] {
                    assert(r@[r.len() - 1] == x);
                }
            }
        }
        rank = rank + 1;
    }
    r
}

/// Whether two envelope diffs say the same about the envelope (see
/// `envelopes_compatible`).
pub fn envelope_compatible(left: &EnvelopeDiff, right: &EnvelopeDiff) -> (r: bool)
    ensures
        r == envelopes_compatible(*left, *right),
{
    str_eq(left.schema_id.as_str(), right.schema_id.as_str()) && left.schema_version == right.schema_version
        && left.identical == right.identical && envelope_changes_same(&left.changes, &right.changes)
        && left.cache_impact == right.cache_impact
}

/// The identity reasons that hold for either observation of `d` under
/// `profile` (only missing fields without a profile).
pub open spec fn identity_flag(x: ObservationRelevanceReason, profile: Option<CapabilityProfile>, d: CacheDiagnostic) -> bool {
    match profile {
        Some(p) => identity_reason_holds(x, p.profile_id@, p.capabilities.identity, d.observation_comparison.left.runtime)
            || identity_reason_holds(x, p.profile_id@, p.capabilities.identity, d.observation_comparison.right.runtime),
        None => x == ObservationRelevanceReason::InsufficientObservationFields,
    }
}

#[verifier::spinoff_prover]
fn identity_flags_of(profile: Option<&CapabilityProfile>, diagnostic: &CacheDiagnostic) -> (r: Vec<bool>)
    ensures
        r.len() == 10,
        forall|x: ObservationRelevanceReason| #[trigger] r@[reason_rank(x)]
            == identity_flag(x, profile_value(profile), *diagnostic),
{
    let comparison = &diagnostic.observation_comparison;
    match profile {
        Some(p) => {
            let left = identity_flags(p.profile_id.as_str(), &p.capabilities.identity, &comparison.left.runtime);
            let right = identity_flags(p.profile_id.as_str(), &p.capabilities.identity, &comparison.right.runtime);
            let mut flags: Vec<bool> = Vec::new();
            let mut k: usize = 0;
            while k < 10
                invariant
                    k <= 10,
                    left.len() == 10,
                    right.len() == 10,
                    flags.len() == k,
                    forall|i: int| 0 <= i < k ==> #[trigger] flags@[i] == (left@[i] || right@[i]),
                decreases 10 - k,
            {
                flags.push(left[k] || right[k]);
                k = k + 1;
            }
            assert forall|x: ObservationRelevanceReason| #[trigger] flags@[reason_rank(x)]
                == identity_flag(x, profile_value(profile), *diagnostic) by {
                assert(0 <= reason_rank(x) < 10);
                assert(left@[reason_rank(x)] == identity_reason_holds(x, p.profile_id@, p.capabilities.identity, comparison.left.runtime));
                assert(right@[reason_rank(x)] == identity_reason_holds(x, p.profile_id@, p.capabilities.identity, comparison.right.runtime));
            }
            flags
        },
        None => {
            let flags = vec![false, false, false, false, false, false, false, false, false, true];
            assert forall|x: ObservationRelevanceReason| #[trigger] flags@[reason_rank(x)]
                == identity_flag(x, profile_value(profile), *diagnostic) by {
                lemma_reason_rank_injective(x, ObservationRelevanceReason::InsufficientObservationFields);
                assert(0 <= reason_rank(x) < 10);
            }
            flags
        },
    }
}

/// The flags, by reason rank, of the reasons that hold (see
/// `relevance_reason_holds`).
#[verifier::spinoff_prover]
fn relevance_flags(candidate: &LayoutCandidate, profile: Option<&CapabilityProfile>, diagnostic: &CacheDiagnostic) -> (r: Vec<bool>)
    ensures
        r.len() == 10,
        forall|x: ObservationRelevanceReason| #[trigger] r@[reason_rank(x)]
            == relevance_reason_holds(x, *candidate, profile_value(profile), *diagnostic),
{
    let mut flags = identity_flags_of(profile, diagnostic);
    let ghost by_identity = flags@;
    let comparison = &diagnostic.observation_comparison;
    let misaligned = diagnostic.request_observation_alignment != RequestObservationAlignment::Aligned;
    let mutation = !request_diff_same(&diagnostic.request_diff, &candidate.request_diff);
    let envelope = !envelope_compatible(&diagnostic.request_diff.envelope_diff, &candidate.request_diff.envelope_diff);
    let incomparable = comparison.comparability.level == ComparabilityLevel::Incomparable;
    let insufficient = comparison.comparability.level == ComparabilityLevel::InsufficientEvidence;
    flags.set(5, misaligned);
    flags.set(6, mutation);
    flags.set(7, envelope);
    flags.set(8, incomparable);
    let last = flags[9] || insufficient;
    flags.set(9, last);
    assert forall|x: ObservationRelevanceReason| #[trigger] flags@[reason_rank(x)]
        == relevance_reason_holds(x, *candidate, profile_value(profile), *diagnostic) by {
        assert(by_identity[reason_rank(x)] == identity_flag(x, profile_value(profile), *diagnostic));
    }
    flags
}

/// Classifies a cache diagnostic as evidence about a candidate under an
/// optional runtime profile: an observation of another request, another
/// mutation or envelope, another runtime identity or profile, or one
/// without the fields to compare is rejected, with every reason that
/// holds (see `classified`). `diagnostic_fingerprint` is the hash of the
/// diagnostic's canonical record.
pub fn classify_observation(
    candidate: &LayoutCandidate,
    profile: Option<&CapabilityProfile>,
    diagnostic: &CacheDiagnostic,
    diagnostic_fingerprint: String,
) -> (r: ObservationEvidence)
    ensures
        classified(r, *candidate, profile_value(profile), *diagnostic, diagnostic_fingerprint@),
{
    let comparison = &diagnostic.observation_comparison;
    let source = if comparison.left.source == comparison.right.source {
        comparison.left.source
    } else {
        EvidenceSourceClass::UnknownUnverified
    };
    let flags = relevance_flags(candidate, profile, diagnostic);
    let reasons = ordered_reasons(&flags);
    let relevance = if reasons.len() == 0 {
        ObservationRelevance::Relevant
    } else {
        ObservationRelevance::Rejected
    };
    let ghost pv = profile_value(profile);
    proof {
        assert forall|x: ObservationRelevanceReason| reasons@.contains(x)
            <==> relevance_reason_holds(x, *candidate, pv, *diagnostic) by {
            assert(flags@[reason_rank(x)] == relevance_reason_holds(x, *candidate, pv, *diagnostic));
        }
        if reasons.len() != 0 {
            assert(reasons@.contains(reasons@[0]));
        }
    }
    let e = ObservationEvidence {
        left_observation_id: comparison.left.observation_id.clone(),
        right_observation_id: comparison.right.observation_id.clone(),
        diagnostic_fingerprint,
        source,
        relevance,
        reasons,
        assessment: diagnostic.assessment,
        association: diagnostic.evidence.association,
        causality: diagnostic.evidence.causality,
    };
    assert(e.left_observation_id@ == diagnostic.observation_comparison.left.observation_id@);
    assert(e.right_observation_id@ == diagnostic.observation_comparison.right.observation_id@);
    assert(e.source == comparison_source(*diagnostic));
    assert(forall|x: ObservationRelevanceReason| e.reasons@.contains(x) <==> relevance_reason_holds(x, *candidate, pv, *diagnostic));
    assert(e.relevance == ObservationRelevance::Relevant
        <==> forall|x: ObservationRelevanceReason| !relevance_reason_holds(x, *candidate, pv, *diagnostic));
    e
}

// ---------------------------------------------------------------------------
// Evaluating a candidate.

/// The hashes of the serialized records that an evaluation references: the
/// candidate's request diff, the runtime identity of the capability
/// profile (unused without a profile), and each diagnostic, in the order of
/// the diagnostics.
#[derive(Debug, Clone, PartialEq, Eq)]
pub struct EvaluationFingerprints {
    pub request_diff: String,
    pub runtime_identity: String,
    pub diagnostics: Vec<String>,
}

/// `r` references `candidate`: its ID and layout fingerprint, the request
/// fingerprints of its diff, and the diff's own fingerprint.
pub open spec fn candidate_reference_of(r: CandidateReference, candidate: LayoutCandidate, diff_fingerprint: Seq<char>) -> bool {
    &&& r.candidate_id@ == candidate.candidate_id@
    &&& r.layout_fingerprint@ == candidate.layout_fingerprint@
    &&& r.source_request_fingerprint@ == candidate.request_diff.left_request_fingerprint@
    &&& r.candidate_request_fingerprint@ == candidate.request_diff.right_request_fingerprint@
    &&& r.request_diff_fingerprint@ == diff_fingerprint
}

/// `r` references `profile` by its ID and the fingerprint of its runtime
/// identity, and is `None` without a profile.
pub open spec fn profile_reference_of(
    r: Option<RuntimeProfileReference>,
    profile: Option<CapabilityProfile>,
    identity_fingerprint: Seq<char>,
) -> bool {
    match profile {
        Some(p) => r matches Some(x) && x.profile_id@ == p.profile_id@ && x.identity_fingerprint@ == identity_fingerprint,
        None => r is None,
    }
}

/// `e` evaluates `candidate` under `profile` with the diagnostics
/// `observations` and the environment: its parts reference the candidate
/// and the profile, assess the candidate's structure and the profile's
/// prefix-reuse capability, and the evaluation is decided from them and
/// from each diagnostic classified in turn (see `classified` and
/// `assembled_from`).
pub open spec fn evaluation_of(
    e: CandidateEvaluation,
    candidate: LayoutCandidate,
    profile: Option<CapabilityProfile>,
    observations: Seq<CacheDiagnostic>,
    environment: EnvironmentState,
    fingerprints: EvaluationFingerprints,
) -> bool {
    &&& candidate_reference_of(e.candidate, candidate, fingerprints.request_diff@)
    &&& profile_reference_of(e.runtime_profile, profile, fingerprints.runtime_identity@)
    &&& structural_of(e.structural, candidate)
    &&& e.capability.capability == CapabilityKey::PrefixReuse
    &&& e.capability.state == assessment_of_state(prefix_reuse_state(profile))
    &&& profile_reference_of(e.capability.profile, profile, fingerprints.runtime_identity@)
    &&& exists|obs: Seq<ObservationEvidence>| #![trigger assembled_from(e, e.candidate, e.runtime_profile, e.structural, e.capability, obs, environment)]
        obs.len() == observations.len()
        && (forall|i: int| 0 <= i < obs.len() ==> classified(#[trigger] obs[i], candidate, profile, observations[i],
            fingerprints.diagnostics@[i]@))
        && assembled_from(e, e.candidate, e.runtime_profile, e.structural, e.capability, obs, environment)
}

fn profile_reference(profile: Option<&CapabilityProfile>, identity_fingerprint: &String) -> (r: Option<RuntimeProfileReference>)
    ensures
        profile_reference_of(r, profile_value(profile), identity_fingerprint@),
{
    match profile {
        Some(p) => Some(RuntimeProfileReference {
            profile_id: p.profile_id.clone(),
            identity_fingerprint: identity_fingerprint.clone(),
        }),
        None => None,
    }
}

/// Evaluates a layout candidate against an optional runtime capability
/// profile, the cache diagnostics observed so far and the environment.
/// It fails when the candidate's resulting analysis is invalid, or the
/// environment's blockers or the diagnostics exceed their bounds;
/// otherwise the evaluation is `evaluation_of` the inputs. The profile is
/// taken as valid: its own check rests on the runtime capability model's
/// rules, which the caller applies.
pub fn evaluate_candidate(
    candidate: &LayoutCandidate,
    capability_profile: Option<&CapabilityProfile>,
    observations: &Vec<CacheDiagnostic>,
    environment: &EnvironmentState,
    fingerprints: &EvaluationFingerprints,
) -> (r: Result<CandidateEvaluation, BenchmarkError>)
    requires
        fingerprints.diagnostics.len() == observations.len(),
    ensures
        r is Ok <==> candidate.resulting_analysis.analysis_ok() && environment.blockers.len() <= MAX_EVALUATION_BLOCKERS
            && observations.len() <= MAX_EVALUATION_OBSERVATIONS,
        r is Err ==> in_memory_validation(r->Err_0),
        r matches Ok(e) ==> evaluation_of(e, *candidate, profile_value(capability_profile), observations@, *environment,
            *fingerprints),
{
    match candidate.resulting_analysis.validate() {
        Ok(_) => {},
        Err(e) => return Err(e),
    }
    match environment.validate() {
        Ok(_) => {},
        Err(e) => return Err(e),
    }
    if observations.len() > MAX_EVALUATION_OBSERVATIONS {
        return Err(BenchmarkError::validation("candidate evaluation observations exceed their bound"));
    }
    let reference = CandidateReference {
        candidate_id: candidate.candidate_id.clone(),
        layout_fingerprint: candidate.layout_fingerprint.clone(),
        source_request_fingerprint: candidate.request_diff.left_request_fingerprint.clone(),
        candidate_request_fingerprint: candidate.request_diff.right_request_fingerprint.clone(),
        request_diff_fingerprint: fingerprints.request_diff.clone(),
    };
    let runtime_profile = profile_reference(capability_profile, &fingerprints.runtime_identity);
    let structural = structural_assessment(candidate);
    let capability = profile_capability_assessment(capability_profile,
        profile_reference(capability_profile, &fingerprints.runtime_identity));
    let ghost pv = profile_value(capability_profile);
    let mut classified_observations: Vec<ObservationEvidence> = Vec::new();
    let mut i: usize = 0;
    while i < observations.len()
        invariant
            i <= observations.len() == fingerprints.diagnostics.len(),
            classified_observations.len() == i,
            pv == profile_value(capability_profile),
            forall|k: int| 0 <= k < i ==> classified(#[trigger] classified_observations@[k], *candidate, pv,
                observations@[k], fingerprints.diagnostics@[k]@),
        decreases observations.len() - i,
    {
        let o = classify_observation(candidate, capability_profile, &observations[i], fingerprints.diagnostics[i].clone());
        classified_observations.push(o);
        i = i + 1;
    }
    let ghost obs = classified_observations@;
    let ghost parts = (reference, runtime_profile, structural, capability);
    let r = assemble_evaluation(reference, runtime_profile, structural, capability, classified_observations, environment);
    proof {
        if r is Ok {
            let e = r->Ok_0;
            assert(e.candidate == parts.0);
            assert(assembled_from(e, e.candidate, e.runtime_profile, e.structural, e.capability, obs, *environment));
            assert(candidate_reference_of(e.candidate, *candidate, fingerprints.request_diff@));
            assert(profile_reference_of(e.runtime_profile, pv, fingerprints.runtime_identity@));
            assert(structural_of(e.structural, *candidate));
            assert(e.capability.state == assessment_of_state(prefix_reuse_state(pv)));
            assert(profile_reference_of(e.capability.profile, pv, fingerprints.runtime_identity@));
            assert(obs.len() == observations@.len());
            assert(forall|k: int| 0 <= k < obs.len() ==> classified(#[trigger] obs[k], *candidate, pv, observations@[k],
                fingerprints.diagnostics@[k]@));
        }
    }
    r
}

/// No reason holds to reject diagnostic `d` about `candidate` under
/// `profile`.
pub open spec fn diagnostic_relevant(candidate: LayoutCandidate, profile: Option<CapabilityProfile>, d: CacheDiagnostic) -> bool {
    forall|x: ObservationRelevanceReason| !relevance_reason_holds(x, candidate, profile, d)
}

/// The diagnostics that are relevant to `candidate` under `profile`, in order.
pub open spec fn relevant_diagnostics(
    candidate: LayoutCandidate,
    profile: Option<CapabilityProfile>,
    observations: Seq<CacheDiagnostic>,
) -> Seq<CacheDiagnostic> {
    observations.filter(|d: CacheDiagnostic| diagnostic_relevant(candidate, profile, d))
}

/// Diagnostic `d` is relevant, experimental, and assessed as `a`.
pub open spec fn diagnostic_experimental_with(
    candidate: LayoutCandidate,
    profile: Option<CapabilityProfile>,
    d: CacheDiagnostic,
    a: CacheRegressionAssessment,
) -> bool {
    &&& diagnostic_relevant(candidate, profile, d)
    &&& comparison_source(d) == EvidenceSourceClass::ExperimentallyObservedRuntime
    &&& d.assessment == a
}

proof fn lemma_classified_experimental(
    obs: Seq<ObservationEvidence>,
    candidate: LayoutCandidate,
    profile: Option<CapabilityProfile>,
    observations: Seq<CacheDiagnostic>,
    fingerprints: Seq<String>,
    a: CacheRegressionAssessment,
)
    requires
        obs.len() == observations.len(),
        forall|i: int| 0 <= i < obs.len() ==> classified(#[trigger] obs[i], candidate, profile, observations[i], fingerprints[i]@),
    ensures
        experimental_with(obs, a) <==> exists|i: int| 0 <= i < observations.len()
            && diagnostic_experimental_with(candidate, profile, #[trigger] observations[i], a),
{
    if experimental_with(obs, a) {
        let i = choose|i: int| 0 <= i < obs.len() && experimental(#[trigger] obs[i]) && obs[i].assessment == a;
        assert(classified(obs[i], candidate, profile, observations[i], fingerprints[i]@));
        assert(diagnostic_experimental_with(candidate, profile, observations[i], a));
    }
    if exists|i: int| 0 <= i < observations.len() && diagnostic_experimental_with(candidate, profile, #[trigger] observations[i], a) {
        let i = choose|i: int| 0 <= i < observations.len() && diagnostic_experimental_with(candidate, profile, #[trigger] observations[i], a);
        assert(classified(obs[i], candidate, profile, observations[i], fingerprints[i]@));
        assert(experimental(obs[i]) && obs[i].assessment == a);
    }
}

proof fn lemma_relevant_diagnostics_experimental(
    candidate: LayoutCandidate,
    profile: Option<CapabilityProfile>,
    observations: Seq<CacheDiagnostic>,
    a: CacheRegressionAssessment,
)
    ensures
        (exists|i: int| 0 <= i < observations.len() && diagnostic_experimental_with(candidate, profile, #[trigger] observations[i], a))
            <==> (exists|j: int| 0 <= j < relevant_diagnostics(candidate, profile, observations).len()
            && diagnostic_experimental_with(candidate, profile, #[trigger] relevant_diagnostics(candidate, profile, observations)[j], a)),
{
    let pred = |d: CacheDiagnostic| diagnostic_relevant(candidate, profile, d);
    let kept = relevant_diagnostics(candidate, profile, observations);
    observations.filter_lemma(pred);
    if exists|i: int| 0 <= i < observations.len() && diagnostic_experimental_with(candidate, profile, #[trigger] observations[i], a) {
        let i = choose|i: int| 0 <= i < observations.len() && diagnostic_experimental_with(candidate, profile, #[trigger] observations[i], a);
        assert(pred(observations[i]));
        assert(kept.contains(observations[i]));
        let j = choose|j: int| 0 <= j < kept.len() && kept[j] == observations[i];
        assert(diagnostic_experimental_with(candidate, profile, kept[j], a));
    }
    if exists|j: int| 0 <= j < kept.len() && diagnostic_experimental_with(candidate, profile, #[trigger] kept[j], a) {
        let j = choose|j: int| 0 <= j < kept.len() && diagnostic_experimental_with(candidate, profile, #[trigger] kept[j], a);
        assert(kept.contains(kept[j]));
        observations.lemma_filter_contains_rev(pred, kept[j]);
        let i = choose|i: int| 0 <= i < observations.len() && observations[i] == kept[j];
        assert(diagnostic_experimental_with(candidate, profile, observations[i], a));
    }
}

/// Diagnostics rejected as evidence about a candidate (an identity or
/// mutation mismatch among them) cannot influence its evaluation: the
/// evaluation of the same candidate under the same profile and environment
/// with only the relevant diagnostics has the same evidence state,
/// readiness and next action, and a rejected diagnostic raises the
/// observation-identity blocker.
pub proof fn law_rejected_diagnostics_do_not_change_evaluation(
    e: CandidateEvaluation,
    kept_e: CandidateEvaluation,
    candidate: LayoutCandidate,
    profile: Option<CapabilityProfile>,
    observations: Seq<CacheDiagnostic>,
    environment: EnvironmentState,
    fingerprints: EvaluationFingerprints,
    kept_fingerprints: EvaluationFingerprints,
)
    requires
        fingerprints.diagnostics.len() == observations.len(),
        evaluation_of(e, candidate, profile, observations, environment, fingerprints),
        evaluation_of(kept_e, candidate, profile, relevant_diagnostics(candidate, profile, observations), environment,
            kept_fingerprints),
    ensures
        kept_e.evidence_state == e.evidence_state,
        kept_e.experiment_readiness == e.experiment_readiness,
        kept_e.next_action == e.next_action,
        (exists|i: int| 0 <= i < observations.len() && !diagnostic_relevant(candidate, profile, #[trigger] observations[i]))
            ==> e.blockers@.contains(EvidenceBlocker::ObservationIdentityMismatch),
{
    let kept = relevant_diagnostics(candidate, profile, observations);
    let obs = choose|obs: Seq<ObservationEvidence>| #![trigger assembled_from(e, e.candidate, e.runtime_profile, e.structural, e.capability, obs, environment)]
        obs.len() == observations.len()
        && (forall|i: int| 0 <= i < obs.len() ==> classified(#[trigger] obs[i], candidate, profile, observations[i],
            fingerprints.diagnostics@[i]@))
        && assembled_from(e, e.candidate, e.runtime_profile, e.structural, e.capability, obs, environment);
    let kept_obs = choose|obs: Seq<ObservationEvidence>| #![trigger assembled_from(kept_e, kept_e.candidate, kept_e.runtime_profile, kept_e.structural, kept_e.capability, obs, environment)]
        obs.len() == kept.len()
        && (forall|i: int| 0 <= i < obs.len() ==> classified(#[trigger] obs[i], candidate, profile, kept[i],
            kept_fingerprints.diagnostics@[i]@))
        && assembled_from(kept_e, kept_e.candidate, kept_e.runtime_profile, kept_e.structural, kept_e.capability, obs, environment);
    let fps = fingerprints.diagnostics@;
    let kept_fps = kept_fingerprints.diagnostics@;
    let assessments = seq![
        CacheRegressionAssessment::MixedObservations,
        CacheRegressionAssessment::ObservedReuseIncrease,
        CacheRegressionAssessment::ObservedReuseDecrease,
        CacheRegressionAssessment::NoObservedCacheReuseChange,
    ];
    assert forall|k: int| 0 <= k < 4 implies
        experimental_with(obs, #[trigger] assessments[k]) == experimental_with(kept_obs, assessments[k]) by {
        lemma_classified_experimental(obs, candidate, profile, observations, fps, assessments[k]);
        lemma_classified_experimental(kept_obs, candidate, profile, kept, kept_fps, assessments[k]);
        lemma_relevant_diagnostics_experimental(candidate, profile, observations, assessments[k]);
    }
    assert(experimental_with(obs, assessments[0]) == experimental_with(kept_obs, assessments[0]));
    assert(experimental_with(obs, assessments[1]) == experimental_with(kept_obs, assessments[1]));
    assert(experimental_with(obs, assessments[2]) == experimental_with(kept_obs, assessments[2]));
    assert(experimental_with(obs, assessments[3]) == experimental_with(kept_obs, assessments[3]));
    assert(e.runtime_profile is Some <==> profile is Some);
    assert(kept_e.runtime_profile is Some <==> profile is Some);
    if exists|i: int| 0 <= i < observations.len() && !diagnostic_relevant(candidate, profile, #[trigger] observations[i]) {
        let i = choose|i: int| 0 <= i < observations.len() && !diagnostic_relevant(candidate, profile, #[trigger] observations[i]);
        assert(classified(obs[i], candidate, profile, observations[i], fps[i]@));
        assert(obs[i].relevance == ObservationRelevance::Rejected);
        assert(blocker_holds(EvidenceBlocker::ObservationIdentityMismatch, e.structural.safety, e.capability.state, obs,
            environment));
    }
}

/// Blockers strictly ascending by rank.
pub open spec fn blockers_ascending(s: Seq<EvidenceBlocker>) -> bool {
    forall|i: int, j: int| 0 <= i < j < s.len() ==> blocker_rank(#[trigger] s[i]) < blocker_rank(#[trigger] s[j])
}

proof fn lemma_rank_injective(a: EvidenceBlocker, b: EvidenceBlocker)
    ensures
        blocker_rank(a) == blocker_rank(b) ==> a == b,
{
}

/// A list of blockers strictly ascending by rank is fixed by which blockers
/// it holds: two such lists with the same members are equal. So the blockers
/// of an evaluation are fixed by its inputs.
pub proof fn law_blockers_fixed_by_membership(a: Seq<EvidenceBlocker>, b: Seq<EvidenceBlocker>)
    requires
        blockers_ascending(a),
        blockers_ascending(b),
        forall|x: EvidenceBlocker| a.contains(x) <==> b.contains(x),
    ensures
        a == b,
    decreases a.len(),
{
    if a.len() == 0 {
        if b.len() > 0 {
            assert(b.contains(b[0]));
        }
        assert(a =~= b);
    } else {
        assert(a.contains(a[0]));
        assert(b.len() > 0);
        assert(b.contains(b[0]));
        let i = choose|i: int| 0 <= i < b.len() && b[i] == a[0];
        let j = choose|j: int| 0 <= j < a.len() && a[j] == b[0];
        if i > 0 {
            assert(blocker_rank(b[0]) < blocker_rank(b[i]));
        }
        if j > 0 {
            assert(blocker_rank(a[0]) < blocker_rank(a[j]));
        }
        lemma_rank_injective(a[0], b[0]);
        assert(a[0] == b[0]);
        let ta = a.drop_first();
        let tb = b.drop_first();
        assert forall|x: EvidenceBlocker| ta.contains(x) <==> tb.contains(x) by {
            if ta.contains(x) {
                let k = choose|k: int| 0 <= k < ta.len() && ta[k] == x;
                assert(a[k + 1] == x);
                assert(blocker_rank(a[0]) < blocker_rank(a[k + 1]));
                assert(b.contains(x));
                let m = choose|m: int| 0 <= m < b.len() && b[m] == x;
                assert(m != 0);
                assert(tb[m - 1] == x);
            }
            if tb.contains(x) {
                let k = choose|k: int| 0 <= k < tb.len() && tb[k] == x;
                assert(b[k + 1] == x);
                assert(blocker_rank(b[0]) < blocker_rank(b[k + 1]));
                assert(a.contains(x));
                let m = choose|m: int| 0 <= m < a.len() && a[m] == x;
                assert(m != 0);
                assert(ta[m - 1] == x);
            }
        }
        assert(blockers_ascending(ta)) by {
            assert forall|p: int, q: int| 0 <= p < q < ta.len() implies blocker_rank(#[trigger] ta[p]) < blocker_rank(#[trigger] ta[q]) by {
                assert(ta[p] == a[p + 1] && ta[q] == a[q + 1]);
            }
        }
        assert(blockers_ascending(tb)) by {
            assert forall|p: int, q: int| 0 <= p < q < tb.len() implies blocker_rank(#[trigger] tb[p]) < blocker_rank(#[trigger] tb[q]) by {
                assert(tb[p] == b[p + 1] && tb[q] == b[q + 1]);
            }
        }
        law_blockers_fixed_by_membership(ta, tb);
        assert(a =~= seq![a[0]] + ta);
        assert(b =~= seq![b[0]] + tb);
    }
}

/// The relevant observations, in order.
pub open spec fn relevant_only(obs: Seq<ObservationEvidence>) -> Seq<ObservationEvidence> {
    obs.filter(|o: ObservationEvidence| relevant(o))
}

proof fn lemma_filtered_from(obs: Seq<ObservationEvidence>)
    ensures
        forall|j: int| 0 <= j < relevant_only(obs).len() ==> obs.contains(#[trigger] relevant_only(obs)[j]),
        forall|j: int| 0 <= j < relevant_only(obs).len() ==> relevant(#[trigger] relevant_only(obs)[j]),
    decreases obs.len(),
{
    reveal(Seq::filter);
    let pred = |o: ObservationEvidence| relevant(o);
    obs.filter_lemma(pred);
    if obs.len() > 0 {
        let d = obs.drop_last();
        lemma_filtered_from(d);
        assert forall|j: int| 0 <= j < relevant_only(obs).len() implies obs.contains(#[trigger] relevant_only(obs)[j]) by {
            if j < relevant_only(d).len() {
                assert(relevant_only(obs)[j] == relevant_only(d)[j]);
                let i = choose|i: int| 0 <= i < d.len() && d[i] == relevant_only(d)[j];
                assert(obs[i] == d[i]);
            } else {
                assert(relevant_only(obs)[j] == obs.last());
                assert(obs[obs.len() - 1] == obs.last());
            }
        }
    }
}

proof fn lemma_experimental_with_relevant(obs: Seq<ObservationEvidence>, a: CacheRegressionAssessment)
    ensures
        experimental_with(obs, a) == experimental_with(relevant_only(obs), a),
{
    let pred = |o: ObservationEvidence| relevant(o);
    let f = relevant_only(obs);
    obs.filter_lemma(pred);
    lemma_filtered_from(obs);
    if experimental_with(obs, a) {
        let i = choose|i: int| 0 <= i < obs.len() && experimental(#[trigger] obs[i]) && obs[i].assessment == a;
        assert(pred(obs[i]));
        assert(f.contains(obs[i]));
        let j = choose|j: int| 0 <= j < f.len() && f[j] == obs[i];
        assert(experimental(f[j]) && f[j].assessment == a);
    }
    if experimental_with(f, a) {
        let j = choose|j: int| 0 <= j < f.len() && experimental(#[trigger] f[j]) && f[j].assessment == a;
        assert(obs.contains(f[j]));
        let i = choose|i: int| 0 <= i < obs.len() && obs[i] == f[j];
        assert(experimental(obs[i]) && obs[i].assessment == a);
    }
}

/// Observations rejected as not relevant (an identity mismatch among them)
/// cannot influence the evidence: dropping them leaves the evidence state
/// and the next action as they are, and any rejected observation raises the
/// observation-identity blocker.
pub proof fn law_rejected_observations_do_not_change_evidence(
    safety: CandidateSafetyStatus,
    profile_supplied: bool,
    capability: CapabilityAssessment,
    obs: Seq<ObservationEvidence>,
    environment: EnvironmentState,
)
    ensures
        evidence_state_of(safety, profile_supplied, capability, obs)
            == evidence_state_of(safety, profile_supplied, capability, relevant_only(obs)),
        next_action_of(evidence_state_of(safety, profile_supplied, capability, obs), safety, capability, environment.readiness)
            == next_action_of(evidence_state_of(safety, profile_supplied, capability, relevant_only(obs)), safety, capability,
            environment.readiness),
        (exists|i: int| 0 <= i < obs.len() && (#[trigger] obs[i]).relevance == ObservationRelevance::Rejected)
            ==> blocker_holds(EvidenceBlocker::ObservationIdentityMismatch, safety, capability, obs, environment),
{
    lemma_experimental_with_relevant(obs, CacheRegressionAssessment::MixedObservations);
    lemma_experimental_with_relevant(obs, CacheRegressionAssessment::ObservedReuseIncrease);
    lemma_experimental_with_relevant(obs, CacheRegressionAssessment::ObservedReuseDecrease);
    lemma_experimental_with_relevant(obs, CacheRegressionAssessment::NoObservedCacheReuseChange);
}

/// The environment is separate from the design: the evidence state does not
/// read it, and it changes the next action only for a candidate ready for an
/// experiment, which it then asks to resolve the environment.
pub proof fn law_environment_only_gates_execution(
    state: EvidenceState,
    safety: CandidateSafetyStatus,
    capability: CapabilityAssessment,
    environment: EnvironmentReadiness,
)
    ensures
        (next_action_of(state, safety, capability, environment) == NextAction::ResolveEnvironment)
            <==> (state == EvidenceState::ReadyForExperiment && environment == EnvironmentReadiness::Blocked),
        state != EvidenceState::ReadyForExperiment ==> next_action_of(state, safety, capability, environment)
            == next_action_of(state, safety, capability, EnvironmentReadiness::Available),
{
}

} // verus!
