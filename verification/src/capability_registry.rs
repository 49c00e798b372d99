//! Runtime capability keys and states, and research gap summaries.
use vstd::prelude::*;
use crate::context_stability::Observed;
use crate::observation_diagnostics::observed_view;
use crate::text::{opt_view, owned, str_eq};
use crate::json_value::{copy_value, value_json, JsonValue};
use crate::conformance::RuntimeIdentity;

verus! {

/// The provenance class of a registry profile, separate from each capability
/// claim's existing documented/observed/unverified evidence state.
#[derive(Debug, Clone, Copy, PartialEq, Eq, Default, Structural)]
pub enum RegistryEvidenceOrigin {
    ProjectDocumentation,
    ExperimentalObservation,
    SyntheticFixture,
    #[default]
    UnknownUnverified,
}

/// Every normalized runtime capability dimension.
#[derive(Debug, Clone, Copy, PartialEq, Eq, PartialOrd, Ord, Hash, Structural)]
pub enum CapabilityKey {
    PrefixReuse,
    AutomaticCachePopulation,
    ExplicitCachePopulation,
    MinimumCacheablePrefixTokens,
    CacheUnit,
    MatchingConstraints,
    DeviceKvState,
    HostRamCaching,
    DiskPersistence,
    ExplicitSaveRestore,
    CheckpointSupport,
    IdleSlotSessionCaching,
    SlotsOrSessions,
    CacheAffinityRoutingHints,
    RetentionOrTtlControls,
    ConversationChaining,
    InputTokens,
    CachedTokens,
    PromptEvaluationDuration,
    TimeToFirstToken,
    CacheState,
    RamUsage,
    VramUsage,
    KvUsage,
    RestoreOrRebuild,
    PrecisionOptions,
    QuantizationSupport,
    QualityRegressionEvidence,
}

#[derive(Debug, Clone, Copy, PartialEq, Eq, Structural)]
pub enum CapabilityState {
    SupportedDocumented,
    SupportedObserved,
    UnsupportedDocumented,
    UnsupportedObserved,
    UnknownDocumented,
    UnknownUnverified,
}

pub const CAPABILITY_KEY_COUNT: usize = 28;

/// The capability keys in their canonical order.
pub open spec fn capability_keys() -> Seq<CapabilityKey> {
    seq![
        CapabilityKey::PrefixReuse,
        CapabilityKey::AutomaticCachePopulation,
        CapabilityKey::ExplicitCachePopulation,
        CapabilityKey::MinimumCacheablePrefixTokens,
        CapabilityKey::CacheUnit,
        CapabilityKey::MatchingConstraints,
        CapabilityKey::DeviceKvState,
        CapabilityKey::HostRamCaching,
        CapabilityKey::DiskPersistence,
        CapabilityKey::ExplicitSaveRestore,
        CapabilityKey::CheckpointSupport,
        CapabilityKey::IdleSlotSessionCaching,
        CapabilityKey::SlotsOrSessions,
        CapabilityKey::CacheAffinityRoutingHints,
        CapabilityKey::RetentionOrTtlControls,
        CapabilityKey::ConversationChaining,
        CapabilityKey::InputTokens,
        CapabilityKey::CachedTokens,
        CapabilityKey::PromptEvaluationDuration,
        CapabilityKey::TimeToFirstToken,
        CapabilityKey::CacheState,
        CapabilityKey::RamUsage,
        CapabilityKey::VramUsage,
        CapabilityKey::KvUsage,
        CapabilityKey::RestoreOrRebuild,
        CapabilityKey::PrecisionOptions,
        CapabilityKey::QuantizationSupport,
        CapabilityKey::QualityRegressionEvidence,
    ]
}

impl CapabilityKey {
    pub open spec fn spec_label(self) -> Seq<char> {
        match self {
            Self::PrefixReuse => "prefix_reuse"@,
            Self::AutomaticCachePopulation => "automatic_cache_population"@,
            Self::ExplicitCachePopulation => "explicit_cache_population"@,
            Self::MinimumCacheablePrefixTokens => "minimum_cacheable_prefix_tokens"@,
            Self::CacheUnit => "cache_unit"@,
            Self::MatchingConstraints => "matching_constraints"@,
            Self::DeviceKvState => "device_kv_state"@,
            Self::HostRamCaching => "host_ram_caching"@,
            Self::DiskPersistence => "disk_persistence"@,
            Self::ExplicitSaveRestore => "explicit_save_restore"@,
            Self::CheckpointSupport => "checkpoint_support"@,
            Self::IdleSlotSessionCaching => "idle_slot_session_caching"@,
            Self::SlotsOrSessions => "slots_or_sessions"@,
            Self::CacheAffinityRoutingHints => "cache_affinity_routing_hints"@,
            Self::RetentionOrTtlControls => "retention_or_ttl_controls"@,
            Self::ConversationChaining => "conversation_chaining"@,
            Self::InputTokens => "input_tokens"@,
            Self::CachedTokens => "cached_tokens"@,
            Self::PromptEvaluationDuration => "prompt_evaluation_duration"@,
            Self::TimeToFirstToken => "time_to_first_token"@,
            Self::CacheState => "cache_state"@,
            Self::RamUsage => "ram_usage"@,
            Self::VramUsage => "vram_usage"@,
            Self::KvUsage => "kv_usage"@,
            Self::RestoreOrRebuild => "restore_or_rebuild"@,
            Self::PrecisionOptions => "precision_options"@,
            Self::QuantizationSupport => "quantization_support"@,
            Self::QualityRegressionEvidence => "quality_regression_evidence"@,
        }
    }

    /// Every capability key, each once, in canonical order.
    pub fn all() -> (r: Vec<CapabilityKey>)
        ensures
            r@ == capability_keys(),
    {
        let mut r: Vec<CapabilityKey> = Vec::new();
        r.push(CapabilityKey::PrefixReuse);
        r.push(CapabilityKey::AutomaticCachePopulation);
        r.push(CapabilityKey::ExplicitCachePopulation);
        r.push(CapabilityKey::MinimumCacheablePrefixTokens);
        r.push(CapabilityKey::CacheUnit);
        r.push(CapabilityKey::MatchingConstraints);
        r.push(CapabilityKey::DeviceKvState);
        r.push(CapabilityKey::HostRamCaching);
        r.push(CapabilityKey::DiskPersistence);
        r.push(CapabilityKey::ExplicitSaveRestore);
        r.push(CapabilityKey::CheckpointSupport);
        r.push(CapabilityKey::IdleSlotSessionCaching);
        r.push(CapabilityKey::SlotsOrSessions);
        r.push(CapabilityKey::CacheAffinityRoutingHints);
        r.push(CapabilityKey::RetentionOrTtlControls);
        r.push(CapabilityKey::ConversationChaining);
        r.push(CapabilityKey::InputTokens);
        r.push(CapabilityKey::CachedTokens);
        r.push(CapabilityKey::PromptEvaluationDuration);
        r.push(CapabilityKey::TimeToFirstToken);
        r.push(CapabilityKey::CacheState);
        r.push(CapabilityKey::RamUsage);
        r.push(CapabilityKey::VramUsage);
        r.push(CapabilityKey::KvUsage);
        r.push(CapabilityKey::RestoreOrRebuild);
        r.push(CapabilityKey::PrecisionOptions);
        r.push(CapabilityKey::QuantizationSupport);
        r.push(CapabilityKey::QualityRegressionEvidence);
        assert(r@ =~= capability_keys());
        r
    }

    /// The snake_case name of the key.
    pub fn label(self) -> (r: &'static str)
        ensures
            r@ == self.spec_label(),
    {
        match self {
            Self::PrefixReuse => "prefix_reuse",
            Self::AutomaticCachePopulation => "automatic_cache_population",
            Self::ExplicitCachePopulation => "explicit_cache_population",
            Self::MinimumCacheablePrefixTokens => "minimum_cacheable_prefix_tokens",
            Self::CacheUnit => "cache_unit",
            Self::MatchingConstraints => "matching_constraints",
            Self::DeviceKvState => "device_kv_state",
            Self::HostRamCaching => "host_ram_caching",
            Self::DiskPersistence => "disk_persistence",
            Self::ExplicitSaveRestore => "explicit_save_restore",
            Self::CheckpointSupport => "checkpoint_support",
            Self::IdleSlotSessionCaching => "idle_slot_session_caching",
            Self::SlotsOrSessions => "slots_or_sessions",
            Self::CacheAffinityRoutingHints => "cache_affinity_routing_hints",
            Self::RetentionOrTtlControls => "retention_or_ttl_controls",
            Self::ConversationChaining => "conversation_chaining",
            Self::InputTokens => "input_tokens",
            Self::CachedTokens => "cached_tokens",
            Self::PromptEvaluationDuration => "prompt_evaluation_duration",
            Self::TimeToFirstToken => "time_to_first_token",
            Self::CacheState => "cache_state",
            Self::RamUsage => "ram_usage",
            Self::VramUsage => "vram_usage",
            Self::KvUsage => "kv_usage",
            Self::RestoreOrRebuild => "restore_or_rebuild",
            Self::PrecisionOptions => "precision_options",
            Self::QuantizationSupport => "quantization_support",
            Self::QualityRegressionEvidence => "quality_regression_evidence",
        }
    }
}

/// Whether a runtime supports a capability, as far as is known.
#[derive(Debug, Clone, Copy, PartialEq, Eq, Structural)]
pub enum CapabilitySupport {
    Supported,
    Unsupported,
    Unknown,
}

/// What a capability claim rests on.
#[derive(Debug, Clone, Copy, PartialEq, Eq, Structural)]
pub enum CapabilityEvidence {
    Documented,
    ExperimentallyObserved,
    Unverified,
}

impl CapabilityState {
    /// The state of a claim: its support qualified by its evidence. A claim
    /// resting on no verified evidence, or an unknown support that was only
    /// observed, is unknown and unverified.
    pub open spec fn state_of(support: CapabilitySupport, evidence: CapabilityEvidence) -> Self {
        match (support, evidence) {
            (CapabilitySupport::Supported, CapabilityEvidence::Documented) => Self::SupportedDocumented,
            (CapabilitySupport::Supported, CapabilityEvidence::ExperimentallyObserved) => Self::SupportedObserved,
            (CapabilitySupport::Unsupported, CapabilityEvidence::Documented) => Self::UnsupportedDocumented,
            (CapabilitySupport::Unsupported, CapabilityEvidence::ExperimentallyObserved) => Self::UnsupportedObserved,
            (CapabilitySupport::Unknown, CapabilityEvidence::Documented) => Self::UnknownDocumented,
            _ => Self::UnknownUnverified,
        }
    }

    /// The state of a claim (see `state_of`).
    pub fn from_parts(support: CapabilitySupport, evidence: CapabilityEvidence) -> (r: Self)
        ensures
            r == Self::state_of(support, evidence),
    {
        match (support, evidence) {
            (CapabilitySupport::Supported, CapabilityEvidence::Documented) => Self::SupportedDocumented,
            (CapabilitySupport::Supported, CapabilityEvidence::ExperimentallyObserved) => Self::SupportedObserved,
            (CapabilitySupport::Unsupported, CapabilityEvidence::Documented) => Self::UnsupportedDocumented,
            (CapabilitySupport::Unsupported, CapabilityEvidence::ExperimentallyObserved) => Self::UnsupportedObserved,
            (CapabilitySupport::Unknown, CapabilityEvidence::Documented) => Self::UnknownDocumented,
            (CapabilitySupport::Unknown, CapabilityEvidence::Unverified)
            | (CapabilitySupport::Supported, CapabilityEvidence::Unverified)
            | (CapabilitySupport::Unsupported, CapabilityEvidence::Unverified)
            | (CapabilitySupport::Unknown, CapabilityEvidence::ExperimentallyObserved) => Self::UnknownUnverified,
        }
    }

    pub open spec fn spec_label(self) -> Seq<char> {
        match self {
            Self::SupportedDocumented => "supported_documented"@,
            Self::SupportedObserved => "supported_observed"@,
            Self::UnsupportedDocumented => "unsupported_documented"@,
            Self::UnsupportedObserved => "unsupported_observed"@,
            Self::UnknownDocumented => "unknown_documented"@,
            Self::UnknownUnverified => "unknown_unverified"@,
        }
    }

    /// The snake_case name of the state.
    pub fn label(self) -> (r: &'static str)
        ensures
            r@ == self.spec_label(),
    {
        match self {
            Self::SupportedDocumented => "supported_documented",
            Self::SupportedObserved => "supported_observed",
            Self::UnsupportedDocumented => "unsupported_documented",
            Self::UnsupportedObserved => "unsupported_observed",
            Self::UnknownDocumented => "unknown_documented",
            Self::UnknownUnverified => "unknown_unverified",
        }
    }
}

/// A query value matches an identity dimension only when the dimension is
/// known and equal to it; no query value matches anything.
pub open spec fn string_matches(value: Observed<Seq<char>>, expected: Option<Seq<char>>) -> bool {
    match expected {
        None => true,
        Some(e) => value == Observed::Known(e),
    }
}

/// Whether an identity dimension matches a query value (see `string_matches`).
pub fn matches_string(value: &Observed<String>, expected: &Option<String>) -> (r: bool)
    ensures
        r == string_matches(observed_view(*value), opt_view(*expected)),
{
    match expected {
        None => true,
        Some(e) => match value {
            Observed::Known(v) => str_eq(v.as_str(), e.as_str()),
            _ => false,
        },
    }
}

/// A supported or unsupported claim is never called unknown-unverified when
/// it rests on documentation or observation; one without verified evidence
/// always is.
pub proof fn law_unverified_claims_stay_unknown(support: CapabilitySupport, evidence: CapabilityEvidence)
    ensures
        evidence == CapabilityEvidence::Unverified ==> CapabilityState::state_of(support, evidence) == CapabilityState::UnknownUnverified,
        support != CapabilitySupport::Unknown && evidence != CapabilityEvidence::Unverified
            ==> CapabilityState::state_of(support, evidence) != CapabilityState::UnknownUnverified
                && CapabilityState::state_of(support, evidence) != CapabilityState::UnknownDocumented,
{
}

/// Each capability key occurs exactly once in the canonical order.
pub proof fn law_capability_keys_listed_once(key: CapabilityKey)
    ensures
        capability_keys().len() == CAPABILITY_KEY_COUNT,
        capability_keys().contains(key),
        forall|i: int, j: int| 0 <= i < j < capability_keys().len() ==> capability_keys()[i] != capability_keys()[j],
{
    let keys = capability_keys();
    match key {
        CapabilityKey::PrefixReuse => assert(keys[0] == key),
        CapabilityKey::AutomaticCachePopulation => assert(keys[1] == key),
        CapabilityKey::ExplicitCachePopulation => assert(keys[2] == key),
        CapabilityKey::MinimumCacheablePrefixTokens => assert(keys[3] == key),
        CapabilityKey::CacheUnit => assert(keys[4] == key),
        CapabilityKey::MatchingConstraints => assert(keys[5] == key),
        CapabilityKey::DeviceKvState => assert(keys[6] == key),
        CapabilityKey::HostRamCaching => assert(keys[7] == key),
        CapabilityKey::DiskPersistence => assert(keys[8] == key),
        CapabilityKey::ExplicitSaveRestore => assert(keys[9] == key),
        CapabilityKey::CheckpointSupport => assert(keys[10] == key),
        CapabilityKey::IdleSlotSessionCaching => assert(keys[11] == key),
        CapabilityKey::SlotsOrSessions => assert(keys[12] == key),
        CapabilityKey::CacheAffinityRoutingHints => assert(keys[13] == key),
        CapabilityKey::RetentionOrTtlControls => assert(keys[14] == key),
        CapabilityKey::ConversationChaining => assert(keys[15] == key),
        CapabilityKey::InputTokens => assert(keys[16] == key),
        CapabilityKey::CachedTokens => assert(keys[17] == key),
        CapabilityKey::PromptEvaluationDuration => assert(keys[18] == key),
        CapabilityKey::TimeToFirstToken => assert(keys[19] == key),
        CapabilityKey::CacheState => assert(keys[20] == key),
        CapabilityKey::RamUsage => assert(keys[21] == key),
        CapabilityKey::VramUsage => assert(keys[22] == key),
        CapabilityKey::KvUsage => assert(keys[23] == key),
        CapabilityKey::RestoreOrRebuild => assert(keys[24] == key),
        CapabilityKey::PrecisionOptions => assert(keys[25] == key),
        CapabilityKey::QuantizationSupport => assert(keys[26] == key),
        CapabilityKey::QualityRegressionEvidence => assert(keys[27] == key),
    }
}

#[derive(Debug, Clone, PartialEq, Eq)]
pub struct CapabilityGap {
    pub capability: CapabilityKey,
    pub known_profiles: usize,
    pub unknown_profiles: usize,
    pub experimentally_observed_profiles: usize,
}

#[derive(Debug, Clone, PartialEq, Eq)]
pub struct ProfileGap {
    pub profile_id: String,
    pub known_capability_fields: usize,
    pub unknown_capability_fields: usize,
    pub experimentally_observed_fields: usize,
}

#[derive(Debug, Clone, PartialEq, Eq)]
pub struct ResearchGapReport {
    pub capability_gaps: Vec<CapabilityGap>,
    pub profile_gaps: Vec<ProfileGap>,
}

// ---------------------------------------------------------------------------
// Runtime cache capabilities and their matrix cells.

/// One capability claim: whether it is supported, what that rests on, and
/// its details as a JSON value.
#[derive(Debug)]
pub struct Capability {
    pub support: CapabilitySupport,
    pub evidence: CapabilityEvidence,
    pub details: Observed<JsonValue>,
}

/// Prefix-cache capabilities.
#[derive(Debug)]
pub struct PrefixCacheCapabilities {
    pub prefix_reuse: Capability,
    pub automatic_cache_population: Capability,
    pub explicit_cache_population: Capability,
    pub minimum_cacheable_prefix_tokens: Capability,
    pub cache_unit: Observed<JsonValue>,
    pub matching_constraints: Observed<JsonValue>,
}

/// Where cached state can live.
#[derive(Debug)]
pub struct ResidencyCapabilities {
    pub device_kv_state: Capability,
    pub host_ram_caching: Capability,
    pub disk_persistence: Capability,
    pub explicit_save_restore: Capability,
    pub checkpoint_support: Capability,
    pub idle_slot_session_caching: Capability,
}

/// Session and routing capabilities.
#[derive(Debug)]
pub struct SessionCapabilities {
    pub slots_or_sessions: Capability,
    pub cache_affinity_routing_hints: Capability,
    pub retention_or_ttl_controls: Capability,
    pub conversation_chaining: Capability,
}

/// Which cache metrics a runtime reports.
#[derive(Debug)]
pub struct MetricCapabilities {
    pub input_tokens: Capability,
    pub cached_tokens: Capability,
    pub prompt_evaluation_duration: Capability,
    pub time_to_first_token: Capability,
    pub cache_state: Capability,
    pub ram_usage: Capability,
    pub vram_usage: Capability,
    pub kv_usage: Capability,
    pub restore_or_rebuild: Capability,
}

/// Key/value cache precision capabilities.
#[derive(Debug)]
pub struct KvCacheCapabilities {
    pub precision_options: Observed<JsonValue>,
    pub quantization_support: Capability,
    pub quality_regression_evidence: Observed<JsonValue>,
}

/// The capabilities of one runtime, by dimension.
#[derive(Debug)]
pub struct RuntimeCacheCapabilities {
    pub identity: RuntimeIdentity,
    pub prefix_cache: PrefixCacheCapabilities,
    pub residency: ResidencyCapabilities,
    pub sessions: SessionCapabilities,
    pub metrics: MetricCapabilities,
    pub kv_cache: KvCacheCapabilities,
}

/// One cell of the capability matrix: a profile's claim for one capability.
#[derive(Debug)]
pub struct CapabilityCell {
    pub profile_id: String,
    pub capability: CapabilityKey,
    pub state: CapabilityState,
    pub support: CapabilitySupport,
    pub evidence: CapabilityEvidence,
    pub details: Observed<JsonValue>,
}

/// The JSON text of observed details.
pub open spec fn details_json(d: Observed<JsonValue>) -> Observed<Seq<char>> {
    match d {
        Observed::Known(v) => Observed::Known(value_json(v)),
        Observed::Unknown => Observed::Unknown,
        Observed::NotObserved => Observed::NotObserved,
    }
}

/// A typed claim's support, evidence and details.
pub open spec fn typed_claim(c: Capability) -> (CapabilitySupport, CapabilityEvidence, Observed<JsonValue>) {
    (c.support, c.evidence, c.details)
}

/// Details that carry no claim of their own: unknown and unverified.
pub open spec fn untyped_claim(d: Observed<JsonValue>) -> (CapabilitySupport, CapabilityEvidence, Observed<JsonValue>) {
    (CapabilitySupport::Unknown, CapabilityEvidence::Unverified, d)
}

/// The claim a runtime makes for capability `key`.
pub open spec fn claim_of(caps: RuntimeCacheCapabilities, key: CapabilityKey) -> (CapabilitySupport, CapabilityEvidence, Observed<JsonValue>) {
    match key {
        CapabilityKey::PrefixReuse => typed_claim(caps.prefix_cache.prefix_reuse),
        CapabilityKey::AutomaticCachePopulation => typed_claim(caps.prefix_cache.automatic_cache_population),
        CapabilityKey::ExplicitCachePopulation => typed_claim(caps.prefix_cache.explicit_cache_population),
        CapabilityKey::MinimumCacheablePrefixTokens => typed_claim(caps.prefix_cache.minimum_cacheable_prefix_tokens),
        CapabilityKey::CacheUnit => untyped_claim(caps.prefix_cache.cache_unit),
        CapabilityKey::MatchingConstraints => untyped_claim(caps.prefix_cache.matching_constraints),
        CapabilityKey::DeviceKvState => typed_claim(caps.residency.device_kv_state),
        CapabilityKey::HostRamCaching => typed_claim(caps.residency.host_ram_caching),
        CapabilityKey::DiskPersistence => typed_claim(caps.residency.disk_persistence),
        CapabilityKey::ExplicitSaveRestore => typed_claim(caps.residency.explicit_save_restore),
        CapabilityKey::CheckpointSupport => typed_claim(caps.residency.checkpoint_support),
        CapabilityKey::IdleSlotSessionCaching => typed_claim(caps.residency.idle_slot_session_caching),
        CapabilityKey::SlotsOrSessions => typed_claim(caps.sessions.slots_or_sessions),
        CapabilityKey::CacheAffinityRoutingHints => typed_claim(caps.sessions.cache_affinity_routing_hints),
        CapabilityKey::RetentionOrTtlControls => typed_claim(caps.sessions.retention_or_ttl_controls),
        CapabilityKey::ConversationChaining => typed_claim(caps.sessions.conversation_chaining),
        CapabilityKey::InputTokens => typed_claim(caps.metrics.input_tokens),
        CapabilityKey::CachedTokens => typed_claim(caps.metrics.cached_tokens),
        CapabilityKey::PromptEvaluationDuration => typed_claim(caps.metrics.prompt_evaluation_duration),
        CapabilityKey::TimeToFirstToken => typed_claim(caps.metrics.time_to_first_token),
        CapabilityKey::CacheState => typed_claim(caps.metrics.cache_state),
        CapabilityKey::RamUsage => typed_claim(caps.metrics.ram_usage),
        CapabilityKey::VramUsage => typed_claim(caps.metrics.vram_usage),
        CapabilityKey::KvUsage => typed_claim(caps.metrics.kv_usage),
        CapabilityKey::RestoreOrRebuild => typed_claim(caps.metrics.restore_or_rebuild),
        CapabilityKey::PrecisionOptions => untyped_claim(caps.kv_cache.precision_options),
        CapabilityKey::QuantizationSupport => typed_claim(caps.kv_cache.quantization_support),
        CapabilityKey::QualityRegressionEvidence => untyped_claim(caps.kv_cache.quality_regression_evidence),
    }
}

fn claim_parts(caps: &RuntimeCacheCapabilities, key: CapabilityKey) -> (r: (CapabilitySupport, CapabilityEvidence, &Observed<JsonValue>))
    ensures
        r.0 == claim_of(*caps, key).0,
        r.1 == claim_of(*caps, key).1,
        *r.2 == claim_of(*caps, key).2,
{
    match key {
        CapabilityKey::PrefixReuse => (caps.prefix_cache.prefix_reuse.support, caps.prefix_cache.prefix_reuse.evidence, &caps.prefix_cache.prefix_reuse.details),
        CapabilityKey::AutomaticCachePopulation => (caps.prefix_cache.automatic_cache_population.support, caps.prefix_cache.automatic_cache_population.evidence, &caps.prefix_cache.automatic_cache_population.details),
        CapabilityKey::ExplicitCachePopulation => (caps.prefix_cache.explicit_cache_population.support, caps.prefix_cache.explicit_cache_population.evidence, &caps.prefix_cache.explicit_cache_population.details),
        CapabilityKey::MinimumCacheablePrefixTokens => (caps.prefix_cache.minimum_cacheable_prefix_tokens.support, caps.prefix_cache.minimum_cacheable_prefix_tokens.evidence, &caps.prefix_cache.minimum_cacheable_prefix_tokens.details),
        CapabilityKey::CacheUnit => (CapabilitySupport::Unknown, CapabilityEvidence::Unverified, &caps.prefix_cache.cache_unit),
        CapabilityKey::MatchingConstraints => (CapabilitySupport::Unknown, CapabilityEvidence::Unverified, &caps.prefix_cache.matching_constraints),
        CapabilityKey::DeviceKvState => (caps.residency.device_kv_state.support, caps.residency.device_kv_state.evidence, &caps.residency.device_kv_state.details),
        CapabilityKey::HostRamCaching => (caps.residency.host_ram_caching.support, caps.residency.host_ram_caching.evidence, &caps.residency.host_ram_caching.details),
        CapabilityKey::DiskPersistence => (caps.residency.disk_persistence.support, caps.residency.disk_persistence.evidence, &caps.residency.disk_persistence.details),
        CapabilityKey::ExplicitSaveRestore => (caps.residency.explicit_save_restore.support, caps.residency.explicit_save_restore.evidence, &caps.residency.explicit_save_restore.details),
        CapabilityKey::CheckpointSupport => (caps.residency.checkpoint_support.support, caps.residency.checkpoint_support.evidence, &caps.residency.checkpoint_support.details),
        CapabilityKey::IdleSlotSessionCaching => (caps.residency.idle_slot_session_caching.support, caps.residency.idle_slot_session_caching.evidence, &caps.residency.idle_slot_session_caching.details),
        CapabilityKey::SlotsOrSessions => (caps.sessions.slots_or_sessions.support, caps.sessions.slots_or_sessions.evidence, &caps.sessions.slots_or_sessions.details),
        CapabilityKey::CacheAffinityRoutingHints => (caps.sessions.cache_affinity_routing_hints.support, caps.sessions.cache_affinity_routing_hints.evidence, &caps.sessions.cache_affinity_routing_hints.details),
        CapabilityKey::RetentionOrTtlControls => (caps.sessions.retention_or_ttl_controls.support, caps.sessions.retention_or_ttl_controls.evidence, &caps.sessions.retention_or_ttl_controls.details),
        CapabilityKey::ConversationChaining => (caps.sessions.conversation_chaining.support, caps.sessions.conversation_chaining.evidence, &caps.sessions.conversation_chaining.details),
        CapabilityKey::InputTokens => (caps.metrics.input_tokens.support, caps.metrics.input_tokens.evidence, &caps.metrics.input_tokens.details),
        CapabilityKey::CachedTokens => (caps.metrics.cached_tokens.support, caps.metrics.cached_tokens.evidence, &caps.metrics.cached_tokens.details),
        CapabilityKey::PromptEvaluationDuration => (caps.metrics.prompt_evaluation_duration.support, caps.metrics.prompt_evaluation_duration.evidence, &caps.metrics.prompt_evaluation_duration.details),
        CapabilityKey::TimeToFirstToken => (caps.metrics.time_to_first_token.support, caps.metrics.time_to_first_token.evidence, &caps.metrics.time_to_first_token.details),
        CapabilityKey::CacheState => (caps.metrics.cache_state.support, caps.metrics.cache_state.evidence, &caps.metrics.cache_state.details),
        CapabilityKey::RamUsage => (caps.metrics.ram_usage.support, caps.metrics.ram_usage.evidence, &caps.metrics.ram_usage.details),
        CapabilityKey::VramUsage => (caps.metrics.vram_usage.support, caps.metrics.vram_usage.evidence, &caps.metrics.vram_usage.details),
        CapabilityKey::KvUsage => (caps.metrics.kv_usage.support, caps.metrics.kv_usage.evidence, &caps.metrics.kv_usage.details),
        CapabilityKey::RestoreOrRebuild => (caps.metrics.restore_or_rebuild.support, caps.metrics.restore_or_rebuild.evidence, &caps.metrics.restore_or_rebuild.details),
        CapabilityKey::PrecisionOptions => (CapabilitySupport::Unknown, CapabilityEvidence::Unverified, &caps.kv_cache.precision_options),
        CapabilityKey::QuantizationSupport => (caps.kv_cache.quantization_support.support, caps.kv_cache.quantization_support.evidence, &caps.kv_cache.quantization_support.details),
        CapabilityKey::QualityRegressionEvidence => (CapabilitySupport::Unknown, CapabilityEvidence::Unverified, &caps.kv_cache.quality_regression_evidence),
    }
}

fn copy_details(d: &Observed<JsonValue>) -> (r: Observed<JsonValue>)
    ensures
        details_json(r) == details_json(*d),
{
    match d {
        Observed::Known(v) => Observed::Known(copy_value(v)),
        Observed::Unknown => Observed::Unknown,
        Observed::NotObserved => Observed::NotObserved,
    }
}

/// `c` is the cell of profile `profile_id` for capability `key`.
pub open spec fn cell_of(c: CapabilityCell, profile_id: Seq<char>, key: CapabilityKey, caps: RuntimeCacheCapabilities) -> bool {
    let (support, evidence, details) = claim_of(caps, key);
    &&& c.profile_id@ == profile_id
    &&& c.capability == key
    &&& c.state == CapabilityState::state_of(support, evidence)
    &&& c.support == support
    &&& c.evidence == evidence
    &&& details_json(c.details) == details_json(details)
}

/// The matrix cell of a profile for one capability: the claim's support,
/// evidence, state and details. Details that carry no claim of their own
/// (cache unit, matching constraints, precision options, quality
/// regression evidence) are unknown and unverified.
pub fn capability_cell(profile_id: &str, key: CapabilityKey, capabilities: &RuntimeCacheCapabilities) -> (c: CapabilityCell)
    ensures
        cell_of(c, profile_id@, key, *capabilities),
{
    let (support, evidence, details) = claim_parts(capabilities, key);
    CapabilityCell {
        profile_id: owned(profile_id),
        capability: key,
        state: CapabilityState::from_parts(support, evidence),
        support,
        evidence,
        details: copy_details(details),
    }
}

/// One capability profile: its identity, capabilities, evidence origin
/// and provenance (a map, held as pairs in key order).
#[derive(Debug)]
pub struct CapabilityProfile {
    pub profile_id: String,
    pub capabilities: RuntimeCacheCapabilities,
    pub origin: RegistryEvidenceOrigin,
    pub provenance: Vec<(String, String)>,
}

impl CapabilityProfile {
    /// The profile's cell for capability `key`.
    pub fn capability(&self, key: CapabilityKey) -> (c: CapabilityCell)
        ensures
            cell_of(c, self.profile_id@, key, self.capabilities),
    {
        capability_cell(self.profile_id.as_str(), key, &self.capabilities)
    }
}

/// A versioned registry of capability profiles; `provenance` is a map,
/// held as pairs in key order.
#[derive(Debug)]
pub struct CapabilityRegistry {
    pub schema_id: String,
    pub registry_version: u32,
    pub profiles: Vec<CapabilityProfile>,
    pub provenance: Vec<(String, String)>,
}

/// How many of the first `n` profiles have an unknown claim for `key`.
pub open spec fn profiles_unknown(ps: Seq<CapabilityProfile>, key: CapabilityKey, n: int) -> nat
    decreases n,
{
    if n <= 0 {
        0
    } else {
        profiles_unknown(ps, key, n - 1) + if claim_of(ps[n - 1].capabilities, key).0 == CapabilitySupport::Unknown { 1nat } else { 0nat }
    }
}

/// How many of the first `n` profiles have an experimentally observed claim for `key`.
pub open spec fn profiles_observed(ps: Seq<CapabilityProfile>, key: CapabilityKey, n: int) -> nat
    decreases n,
{
    if n <= 0 {
        0
    } else {
        profiles_observed(ps, key, n - 1) + if claim_of(ps[n - 1].capabilities, key).1 == CapabilityEvidence::ExperimentallyObserved { 1nat } else { 0nat }
    }
}

/// How many of the first `n` keys a runtime's claims leave unknown.
pub open spec fn keys_unknown(caps: RuntimeCacheCapabilities, keys: Seq<CapabilityKey>, n: int) -> nat
    decreases n,
{
    if n <= 0 {
        0
    } else {
        keys_unknown(caps, keys, n - 1) + if claim_of(caps, keys[n - 1]).0 == CapabilitySupport::Unknown { 1nat } else { 0nat }
    }
}

/// How many of the first `n` keys a runtime's claims rest on experimental observation.
pub open spec fn keys_observed(caps: RuntimeCacheCapabilities, keys: Seq<CapabilityKey>, n: int) -> nat
    decreases n,
{
    if n <= 0 {
        0
    } else {
        keys_observed(caps, keys, n - 1) + if claim_of(caps, keys[n - 1]).1 == CapabilityEvidence::ExperimentallyObserved { 1nat } else { 0nat }
    }
}

fn capability_gap(profiles: &Vec<CapabilityProfile>, key: CapabilityKey) -> (g: CapabilityGap)
    ensures
        g.capability == key,
        g.unknown_profiles == profiles_unknown(profiles@, key, profiles.len() as int),
        g.known_profiles == profiles.len() - profiles_unknown(profiles@, key, profiles.len() as int),
        g.experimentally_observed_profiles == profiles_observed(profiles@, key, profiles.len() as int),
{
    let mut known: usize = 0;
    let mut unknown: usize = 0;
    let mut observed: usize = 0;
    let mut i: usize = 0;
    while i < profiles.len()
        invariant
            i <= profiles.len(),
            unknown == profiles_unknown(profiles@, key, i as int),
            known == i - unknown,
            observed == profiles_observed(profiles@, key, i as int),
            observed <= i,
        decreases profiles.len() - i,
    {
        let cell = profiles[i].capability(key);
        if cell.support == CapabilitySupport::Unknown {
            unknown = unknown + 1;
        } else {
            known = known + 1;
        }
        if cell.evidence == CapabilityEvidence::ExperimentallyObserved {
            observed = observed + 1;
        }
        i = i + 1;
    }
    CapabilityGap { capability: key, known_profiles: known, unknown_profiles: unknown, experimentally_observed_profiles: observed }
}

fn profile_gap(profile: &CapabilityProfile, keys: &Vec<CapabilityKey>) -> (g: ProfileGap)
    ensures
        g.profile_id@ == profile.profile_id@,
        g.unknown_capability_fields == keys_unknown(profile.capabilities, keys@, keys.len() as int),
        g.known_capability_fields == keys.len() - keys_unknown(profile.capabilities, keys@, keys.len() as int),
        g.experimentally_observed_fields == keys_observed(profile.capabilities, keys@, keys.len() as int),
{
    let mut known: usize = 0;
    let mut unknown: usize = 0;
    let mut observed: usize = 0;
    let mut i: usize = 0;
    while i < keys.len()
        invariant
            i <= keys.len(),
            unknown == keys_unknown(profile.capabilities, keys@, i as int),
            known == i - unknown,
            observed == keys_observed(profile.capabilities, keys@, i as int),
            observed <= i,
        decreases keys.len() - i,
    {
        let cell = profile.capability(keys[i]);
        if cell.support == CapabilitySupport::Unknown {
            unknown = unknown + 1;
        } else {
            known = known + 1;
        }
        if cell.evidence == CapabilityEvidence::ExperimentallyObserved {
            observed = observed + 1;
        }
        i = i + 1;
    }
    ProfileGap {
        profile_id: profile.profile_id.clone(),
        known_capability_fields: known,
        unknown_capability_fields: unknown,
        experimentally_observed_fields: observed,
    }
}

impl CapabilityRegistry {
    /// The research gaps: for each capability, in canonical order, how many
    /// profiles know it, leave it unknown, or observed it experimentally;
    /// and for each profile, in order, the same counts over the capabilities.
    pub fn gap_report(&self) -> (r: ResearchGapReport)
        ensures
            r.capability_gaps.len() == capability_keys().len(),
            forall|i: int| 0 <= i < capability_keys().len() ==> {
                let g = #[trigger] r.capability_gaps@[i];
                let key = capability_keys()[i];
                let n = self.profiles.len() as int;
                &&& g.capability == key
                &&& g.unknown_profiles == profiles_unknown(self.profiles@, key, n)
                &&& g.known_profiles == n - profiles_unknown(self.profiles@, key, n)
                &&& g.experimentally_observed_profiles == profiles_observed(self.profiles@, key, n)
            },
            r.profile_gaps.len() == self.profiles.len(),
            forall|j: int| 0 <= j < self.profiles.len() ==> {
                let g = #[trigger] r.profile_gaps@[j];
                let p = self.profiles@[j];
                &&& g.profile_id@ == p.profile_id@
                &&& g.unknown_capability_fields == keys_unknown(p.capabilities, capability_keys(), 28)
                &&& g.known_capability_fields == 28 - keys_unknown(p.capabilities, capability_keys(), 28)
                &&& g.experimentally_observed_fields == keys_observed(p.capabilities, capability_keys(), 28)
            },
    {
        let keys = CapabilityKey::all();
        assert(keys.len() == 28);
        let mut capability_gaps: Vec<CapabilityGap> = Vec::new();
        let mut i: usize = 0;
        while i < keys.len()
            invariant
                keys@ == capability_keys(),
                i <= keys.len(),
                capability_gaps.len() == i,
                forall|k: int| 0 <= k < i ==> {
                    let g = #[trigger] capability_gaps@[k];
                    let key = capability_keys()[k];
                    let n = self.profiles.len() as int;
                    &&& g.capability == key
                    &&& g.unknown_profiles == profiles_unknown(self.profiles@, key, n)
                    &&& g.known_profiles == n - profiles_unknown(self.profiles@, key, n)
                    &&& g.experimentally_observed_profiles == profiles_observed(self.profiles@, key, n)
                },
            decreases keys.len() - i,
        {
            capability_gaps.push(capability_gap(&self.profiles, keys[i]));
            i = i + 1;
        }
        let mut profile_gaps: Vec<ProfileGap> = Vec::new();
        let mut j: usize = 0;
        while j < self.profiles.len()
            invariant
                keys@ == capability_keys(),
                keys.len() == 28,
                j <= self.profiles.len(),
                profile_gaps.len() == j,
                forall|k: int| 0 <= k < j ==> {
                    let g = #[trigger] profile_gaps@[k];
                    let p = self.profiles@[k];
                    &&& g.profile_id@ == p.profile_id@
                    &&& g.unknown_capability_fields == keys_unknown(p.capabilities, capability_keys(), 28)
                    &&& g.known_capability_fields == 28 - keys_unknown(p.capabilities, capability_keys(), 28)
                    &&& g.experimentally_observed_fields == keys_observed(p.capabilities, capability_keys(), 28)
                },
            decreases self.profiles.len() - j,
        {
            profile_gaps.push(profile_gap(&self.profiles[j], &keys));
            j = j + 1;
        }
        ResearchGapReport { capability_gaps, profile_gaps }
    }
}

/// Typed filters over profiles. A missing identity dimension never acts as
/// a wildcard for a known query value; only an explicit known value matches.
#[derive(Debug, Clone, PartialEq, Eq, Default)]
pub struct CapabilityQuery {
    pub provider: Option<String>,
    pub model: Option<String>,
    pub protocol: Option<String>,
    pub runtime: Option<String>,
    pub runtime_version: Option<String>,
    pub capability: Option<CapabilityKey>,
    pub support: Option<CapabilitySupport>,
    pub evidence: Option<CapabilityEvidence>,
    pub origin: Option<RegistryEvidenceOrigin>,
}

/// The claim for `key` passes the query's capability filters.
pub open spec fn key_matches(q: CapabilityQuery, caps: RuntimeCacheCapabilities, key: CapabilityKey) -> bool {
    &&& (q.capability matches Some(k) ==> k == key)
    &&& (q.support matches Some(s) ==> s == claim_of(caps, key).0)
    &&& (q.evidence matches Some(e) ==> e == claim_of(caps, key).1)
}

/// With no capability filter every profile passes; otherwise some
/// capability's claim must pass all of them.
pub open spec fn capability_matches(q: CapabilityQuery, caps: RuntimeCacheCapabilities) -> bool {
    (q.capability is None && q.support is None && q.evidence is None)
        || exists|i: int| 0 <= i < capability_keys().len() && key_matches(q, caps, #[trigger] capability_keys()[i])
}

/// The profile passes every filter of the query.
pub open spec fn query_matches(q: CapabilityQuery, p: CapabilityProfile) -> bool {
    let id = p.capabilities.identity;
    &&& string_matches(observed_view(id.provider), opt_view(q.provider))
    &&& string_matches(observed_view(id.model), opt_view(q.model))
    &&& string_matches(observed_view(id.protocol), opt_view(q.protocol))
    &&& string_matches(observed_view(id.runtime), opt_view(q.runtime))
    &&& string_matches(observed_view(id.runtime_version), opt_view(q.runtime_version))
    &&& (q.origin matches Some(o) ==> p.origin == o)
    &&& capability_matches(q, p.capabilities)
}

impl CapabilityQuery {
    fn matches_capability(&self, profile: &CapabilityProfile) -> (r: bool)
        ensures
            r == capability_matches(*self, profile.capabilities),
    {
        if self.capability.is_none() && self.support.is_none() && self.evidence.is_none() {
            return true;
        }
        let keys = CapabilityKey::all();
        let mut i: usize = 0;
        while i < keys.len()
            invariant
                keys@ == capability_keys(),
                i <= keys.len(),
                forall|k: int| 0 <= k < i ==> !key_matches(*self, profile.capabilities, #[trigger] capability_keys()[k]),
            decreases keys.len() - i,
        {
            let key = keys[i];
            let cell = profile.capability(key);
            let capability_ok = match self.capability {
                Some(expected) => expected == key,
                None => true,
            };
            let support_ok = match self.support {
                Some(s) => s == cell.support,
                None => true,
            };
            let evidence_ok = match self.evidence {
                Some(e) => e == cell.evidence,
                None => true,
            };
            if capability_ok && support_ok && evidence_ok {
                proof {
                    assert(key_matches(*self, profile.capabilities, capability_keys()[i as int]));
                }
                return true;
            }
            i = i + 1;
        }
        false
    }

    /// Whether the profile passes every filter (see `query_matches`).
    pub fn matches(&self, profile: &CapabilityProfile) -> (r: bool)
        ensures
            r == query_matches(*self, *profile),
    {
        let id = &profile.capabilities.identity;
        let origin_ok = match self.origin {
            Some(o) => o == profile.origin,
            None => true,
        };
        matches_string(&id.provider, &self.provider) && matches_string(&id.model, &self.model)
            && matches_string(&id.protocol, &self.protocol) && matches_string(&id.runtime, &self.runtime)
            && matches_string(&id.runtime_version, &self.runtime_version) && origin_ok
            && self.matches_capability(profile)
    }
}

/// One row of the capability matrix: a capability and its cells.
#[derive(Debug)]
pub struct CapabilityMatrixRow {
    pub capability: CapabilityKey,
    pub cells: Vec<CapabilityCell>,
}

/// The capability matrix of the profiles a query selects.
#[derive(Debug)]
pub struct CapabilityMatrix {
    pub registry_version: u32,
    pub profile_ids: Vec<String>,
    pub capabilities: Vec<CapabilityKey>,
    pub rows: Vec<CapabilityMatrixRow>,
}

/// The positions of the profiles the query selects, in registry order.
pub open spec fn selected_positions(ps: Seq<CapabilityProfile>, q: CapabilityQuery, n: int) -> Seq<int>
    decreases n,
{
    if n <= 0 {
        Seq::empty()
    } else {
        selected_positions(ps, q, n - 1) + if query_matches(q, ps[n - 1]) { seq![n - 1] } else { Seq::empty() }
    }
}

/// The capabilities of a matrix: the selected keys, each once, in key
/// order; every key when none is selected.
pub open spec fn matrix_keys(selected: Seq<CapabilityKey>) -> Seq<CapabilityKey> {
    if selected.len() == 0 {
        capability_keys()
    } else {
        capability_keys().filter(|k: CapabilityKey| selected.contains(k))
    }
}

impl CapabilityRegistry {
    /// The positions of the profiles that pass the query, in order.
    pub fn query(&self, query: &CapabilityQuery) -> (r: Vec<usize>)
        ensures
            r@.map_values(|i: usize| i as int) == selected_positions(self.profiles@, *query, self.profiles.len() as int),
    {
        let mut r: Vec<usize> = Vec::new();
        let mut i: usize = 0;
        while i < self.profiles.len()
            invariant
                i <= self.profiles.len(),
                r@.map_values(|k: usize| k as int) == selected_positions(self.profiles@, *query, i as int),
            decreases self.profiles.len() - i,
        {
            let ghost before = r@;
            if query.matches(&self.profiles[i]) {
                r.push(i);
                proof {
                    assert(r@.map_values(|k: usize| k as int) =~= before.map_values(|k: usize| k as int).push(i as int));
                }
            } else {
                proof {
                    assert(selected_positions(self.profiles@, *query, i + 1) =~= selected_positions(self.profiles@, *query, i as int));
                }
            }
            i = i + 1;
        }
        r
    }
}

fn contains_key(keys: &Vec<CapabilityKey>, key: CapabilityKey) -> (r: bool)
    ensures
        r == keys@.contains(key),
{
    let mut i: usize = 0;
    while i < keys.len()
        invariant
            i <= keys.len(),
            forall|k: int| 0 <= k < i ==> keys@[k] != key,
        decreases keys.len() - i,
    {
        if keys[i] == key {
            return true;
        }
        i = i + 1;
    }
    false
}

/// The capabilities of a matrix (see `matrix_keys`).
fn select_keys(selected: &Vec<CapabilityKey>) -> (r: Vec<CapabilityKey>)
    ensures
        r@ == matrix_keys(selected@),
{
    let all = CapabilityKey::all();
    if selected.len() == 0 {
        return all;
    }
    let ghost f = |k: CapabilityKey| selected@.contains(k);
    let mut r: Vec<CapabilityKey> = Vec::new();
    let mut i: usize = 0;
    while i < all.len()
        invariant
            all@ == capability_keys(),
            i <= all.len(),
            f == (|k: CapabilityKey| selected@.contains(k)),
            r@ == all@.take(i as int).filter(f),
        decreases all.len() - i,
    {
        proof {
            assert(all@.take(i + 1).drop_last() =~= all@.take(i as int));
            reveal(Seq::filter);
        }
        if contains_key(selected, all[i]) {
            r.push(all[i]);
        }
        i = i + 1;
    }
    proof {
        assert(all@.take(all.len() as int) =~= all@);
    }
    r
}

impl CapabilityRegistry {
    /// The matrix of the profiles that pass the query: their identities in
    /// registry order, the selected capabilities (each once, in key order;
    /// all when none is selected), and for each capability a row with each
    /// selected profile's cell.
    pub fn matrix(&self, query: &CapabilityQuery, selected_capabilities: &Vec<CapabilityKey>) -> (m: CapabilityMatrix)
        ensures
            m.registry_version == self.registry_version,
            m.capabilities@ == matrix_keys(selected_capabilities@),
            m.profile_ids.len() == selected_positions(self.profiles@, *query, self.profiles.len() as int).len(),
            forall|c: int| 0 <= c < m.profile_ids.len() ==> (#[trigger] m.profile_ids@[c])@
                == self.profiles@[selected_positions(self.profiles@, *query, self.profiles.len() as int)[c]].profile_id@,
            m.rows.len() == m.capabilities.len(),
            forall|r: int| 0 <= r < m.rows.len() ==> {
                let row = #[trigger] m.rows@[r];
                let pos = selected_positions(self.profiles@, *query, self.profiles.len() as int);
                &&& row.capability == m.capabilities@[r]
                &&& row.cells.len() == pos.len()
                &&& forall|c: int| 0 <= c < pos.len() ==> cell_of(#[trigger] row.cells@[c], self.profiles@[pos[c]].profile_id@,
                    m.capabilities@[r], self.profiles@[pos[c]].capabilities)
            },
    {
        let positions = self.query(query);
        let ghost pos = selected_positions(self.profiles@, *query, self.profiles.len() as int);
        proof {
            assert forall|c: int| 0 <= c < positions.len() implies #[trigger] positions@[c] < self.profiles.len() by {
                lemma_selected_positions_in_range(self.profiles@, *query, self.profiles.len() as int, c);
                assert(positions@.map_values(|i: usize| i as int)[c] == positions@[c] as int);
            }
        }
        let capabilities = select_keys(selected_capabilities);
        let mut profile_ids: Vec<String> = Vec::new();
        let mut c: usize = 0;
        while c < positions.len()
            invariant
                positions@.map_values(|i: usize| i as int) == pos,
                forall|k: int| 0 <= k < positions.len() ==> #[trigger] positions@[k] < self.profiles.len(),
                c <= positions.len(),
                profile_ids.len() == c,
                forall|k: int| 0 <= k < c ==> (#[trigger] profile_ids@[k])@ == self.profiles@[pos[k]].profile_id@,
            decreases positions.len() - c,
        {
            proof {
                assert(pos[c as int] == positions@[c as int] as int);
            }
            profile_ids.push(self.profiles[positions[c]].profile_id.clone());
            c = c + 1;
        }
        let mut rows: Vec<CapabilityMatrixRow> = Vec::new();
        let mut r: usize = 0;
        while r < capabilities.len()
            invariant
                positions@.map_values(|i: usize| i as int) == pos,
                forall|k: int| 0 <= k < positions.len() ==> #[trigger] positions@[k] < self.profiles.len(),
                r <= capabilities.len(),
                rows.len() == r,
                forall|k: int| 0 <= k < r ==> {
                    let row = #[trigger] rows@[k];
                    &&& row.capability == capabilities@[k]
                    &&& row.cells.len() == pos.len()
                    &&& forall|c: int| 0 <= c < pos.len() ==> cell_of(#[trigger] row.cells@[c], self.profiles@[pos[c]].profile_id@,
                        capabilities@[k], self.profiles@[pos[c]].capabilities)
                },
            decreases capabilities.len() - r,
        {
            let key = capabilities[r];
            let mut cells: Vec<CapabilityCell> = Vec::new();
            let mut c: usize = 0;
            while c < positions.len()
                invariant
                    positions@.map_values(|i: usize| i as int) == pos,
                    forall|k: int| 0 <= k < positions.len() ==> #[trigger] positions@[k] < self.profiles.len(),
                    c <= positions.len(),
                    cells.len() == c,
                    forall|k: int| 0 <= k < c ==> cell_of(#[trigger] cells@[k], self.profiles@[pos[k]].profile_id@, key,
                        self.profiles@[pos[k]].capabilities),
                decreases positions.len() - c,
            {
                proof {
                    assert(pos[c as int] == positions@[c as int] as int);
                }
                cells.push(self.profiles[positions[c]].capability(key));
                c = c + 1;
            }
            rows.push(CapabilityMatrixRow { capability: key, cells });
            r = r + 1;
        }
        CapabilityMatrix { registry_version: self.registry_version, profile_ids, capabilities, rows }
    }
}

proof fn lemma_selected_positions_in_range(ps: Seq<CapabilityProfile>, q: CapabilityQuery, n: int, c: int)
    requires
        0 <= n <= ps.len(),
        0 <= c < selected_positions(ps, q, n).len(),
    ensures
        0 <= selected_positions(ps, q, n)[c] < n,
    decreases n,
{
    if n > 0 {
        let prev = selected_positions(ps, q, n - 1);
        if c < prev.len() {
            lemma_selected_positions_in_range(ps, q, n - 1, c);
        }
    }
}

/// What tells one capability label from another: its length and first character.
spec fn key_label_signature(k: CapabilityKey) -> (int, char) {
    match k {
        CapabilityKey::PrefixReuse => (12, 'p'),
        CapabilityKey::AutomaticCachePopulation => (26, 'a'),
        CapabilityKey::ExplicitCachePopulation => (25, 'e'),
        CapabilityKey::MinimumCacheablePrefixTokens => (31, 'm'),
        CapabilityKey::CacheUnit => (10, 'c'),
        CapabilityKey::MatchingConstraints => (20, 'm'),
        CapabilityKey::DeviceKvState => (15, 'd'),
        CapabilityKey::HostRamCaching => (16, 'h'),
        CapabilityKey::DiskPersistence => (16, 'd'),
        CapabilityKey::ExplicitSaveRestore => (21, 'e'),
        CapabilityKey::CheckpointSupport => (18, 'c'),
        CapabilityKey::IdleSlotSessionCaching => (25, 'i'),
        CapabilityKey::SlotsOrSessions => (17, 's'),
        CapabilityKey::CacheAffinityRoutingHints => (28, 'c'),
        CapabilityKey::RetentionOrTtlControls => (25, 'r'),
        CapabilityKey::ConversationChaining => (21, 'c'),
        CapabilityKey::InputTokens => (12, 'i'),
        CapabilityKey::CachedTokens => (13, 'c'),
        CapabilityKey::PromptEvaluationDuration => (26, 'p'),
        CapabilityKey::TimeToFirstToken => (19, 't'),
        CapabilityKey::CacheState => (11, 'c'),
        CapabilityKey::RamUsage => (9, 'r'),
        CapabilityKey::VramUsage => (10, 'v'),
        CapabilityKey::KvUsage => (8, 'k'),
        CapabilityKey::RestoreOrRebuild => (18, 'r'),
        CapabilityKey::PrecisionOptions => (17, 'p'),
        CapabilityKey::QuantizationSupport => (20, 'q'),
        CapabilityKey::QualityRegressionEvidence => (27, 'q'),
    }
}

proof fn lemma_key_label_signature(k: CapabilityKey)
    ensures
        k.spec_label().len() == key_label_signature(k).0,
        k.spec_label()[0] == key_label_signature(k).1,
{
    match k {
        CapabilityKey::PrefixReuse => { reveal_strlit("prefix_reuse"); },
        CapabilityKey::AutomaticCachePopulation => { reveal_strlit("automatic_cache_population"); },
        CapabilityKey::ExplicitCachePopulation => { reveal_strlit("explicit_cache_population"); },
        CapabilityKey::MinimumCacheablePrefixTokens => { reveal_strlit("minimum_cacheable_prefix_tokens"); },
        CapabilityKey::CacheUnit => { reveal_strlit("cache_unit"); },
        CapabilityKey::MatchingConstraints => { reveal_strlit("matching_constraints"); },
        CapabilityKey::DeviceKvState => { reveal_strlit("device_kv_state"); },
        CapabilityKey::HostRamCaching => { reveal_strlit("host_ram_caching"); },
        CapabilityKey::DiskPersistence => { reveal_strlit("disk_persistence"); },
        CapabilityKey::ExplicitSaveRestore => { reveal_strlit("explicit_save_restore"); },
        CapabilityKey::CheckpointSupport => { reveal_strlit("checkpoint_support"); },
        CapabilityKey::IdleSlotSessionCaching => { reveal_strlit("idle_slot_session_caching"); },
        CapabilityKey::SlotsOrSessions => { reveal_strlit("slots_or_sessions"); },
        CapabilityKey::CacheAffinityRoutingHints => { reveal_strlit("cache_affinity_routing_hints"); },
        CapabilityKey::RetentionOrTtlControls => { reveal_strlit("retention_or_ttl_controls"); },
        CapabilityKey::ConversationChaining => { reveal_strlit("conversation_chaining"); },
        CapabilityKey::InputTokens => { reveal_strlit("input_tokens"); },
        CapabilityKey::CachedTokens => { reveal_strlit("cached_tokens"); },
        CapabilityKey::PromptEvaluationDuration => { reveal_strlit("prompt_evaluation_duration"); },
        CapabilityKey::TimeToFirstToken => { reveal_strlit("time_to_first_token"); },
        CapabilityKey::CacheState => { reveal_strlit("cache_state"); },
        CapabilityKey::RamUsage => { reveal_strlit("ram_usage"); },
        CapabilityKey::VramUsage => { reveal_strlit("vram_usage"); },
        CapabilityKey::KvUsage => { reveal_strlit("kv_usage"); },
        CapabilityKey::RestoreOrRebuild => { reveal_strlit("restore_or_rebuild"); },
        CapabilityKey::PrecisionOptions => { reveal_strlit("precision_options"); },
        CapabilityKey::QuantizationSupport => { reveal_strlit("quantization_support"); },
        CapabilityKey::QualityRegressionEvidence => { reveal_strlit("quality_regression_evidence"); },
    }
}

/// Distinct capability keys have distinct labels, so a label names one key.
pub proof fn law_capability_labels_are_distinct(a: CapabilityKey, b: CapabilityKey)
    ensures
        a.spec_label() == b.spec_label() ==> a == b,
{
    lemma_key_label_signature(a);
    lemma_key_label_signature(b);
}

spec fn state_label_signature(s: CapabilityState) -> (int, char, char) {
    match s {
        CapabilityState::SupportedDocumented => (20, 's', 'd'),
        CapabilityState::SupportedObserved => (18, 's', 'd'),
        CapabilityState::UnsupportedDocumented => (22, 'u', 't'),
        CapabilityState::UnsupportedObserved => (20, 'u', 't'),
        CapabilityState::UnknownDocumented => (18, 'u', 'd'),
        CapabilityState::UnknownUnverified => (18, 'u', 'u'),
    }
}

proof fn lemma_state_label_signature(s: CapabilityState)
    ensures
        s.spec_label().len() == state_label_signature(s).0,
        s.spec_label()[0] == state_label_signature(s).1,
        s.spec_label()[8] == state_label_signature(s).2,
{
    match s {
        CapabilityState::SupportedDocumented => { reveal_strlit("supported_documented"); },
        CapabilityState::SupportedObserved => { reveal_strlit("supported_observed"); },
        CapabilityState::UnsupportedDocumented => { reveal_strlit("unsupported_documented"); },
        CapabilityState::UnsupportedObserved => { reveal_strlit("unsupported_observed"); },
        CapabilityState::UnknownDocumented => { reveal_strlit("unknown_documented"); },
        CapabilityState::UnknownUnverified => { reveal_strlit("unknown_unverified"); },
    }
}

/// Distinct capability states have distinct labels.
pub proof fn law_state_labels_are_distinct(a: CapabilityState, b: CapabilityState)
    ensures
        a.spec_label() == b.spec_label() ==> a == b,
{
    lemma_state_label_signature(a);
    lemma_state_label_signature(b);
}

/// A query selects only profiles that meet each identity filter it sets:
/// for a query value `v` on a dimension (provider, model, protocol, runtime,
/// runtime version), every selected profile's identity knows that dimension
/// as exactly `v`, and a set origin is the profile's origin.
pub proof fn law_query_selects_only_matching_identities(ps: Seq<CapabilityProfile>, q: CapabilityQuery, n: int, j: int)
    requires
        0 <= n <= ps.len(),
        selected_positions(ps, q, n).contains(j),
    ensures
        0 <= j < n,
        ({
            let id = ps[j].capabilities.identity;
            &&& (q.provider matches Some(v) ==> observed_view(id.provider) == Observed::Known(v@))
            &&& (q.model matches Some(v) ==> observed_view(id.model) == Observed::Known(v@))
            &&& (q.protocol matches Some(v) ==> observed_view(id.protocol) == Observed::Known(v@))
            &&& (q.runtime matches Some(v) ==> observed_view(id.runtime) == Observed::Known(v@))
            &&& (q.runtime_version matches Some(v) ==> observed_view(id.runtime_version) == Observed::Known(v@))
            &&& (q.origin matches Some(o) ==> ps[j].origin == o)
        }),
    decreases n,
{
    if n > 0 {
        let prev = selected_positions(ps, q, n - 1);
        let last = if query_matches(q, ps[n - 1]) { seq![n - 1] } else { Seq::<int>::empty() };
        assert(selected_positions(ps, q, n) == prev + last);
        let k = choose|k: int| 0 <= k < (prev + last).len() && (prev + last)[k] == j;
        if k < prev.len() {
            assert(prev[k] == j);
            law_query_selects_only_matching_identities(ps, q, n - 1, j);
        } else {
            assert(last[k - prev.len()] == j);
            assert(j == n - 1);
            assert(query_matches(q, ps[j]));
        }
    }
}

/// A query without capability filters selects every profile that meets
/// each identity filter it sets and its origin filter.
pub proof fn law_matching_profile_is_selected(ps: Seq<CapabilityProfile>, q: CapabilityQuery, n: int, j: int)
    requires
        0 <= j < n <= ps.len(),
        q.capability is None && q.support is None && q.evidence is None,
        ({
            let id = ps[j].capabilities.identity;
            &&& (q.provider matches Some(v) ==> observed_view(id.provider) == Observed::Known(v@))
            &&& (q.model matches Some(v) ==> observed_view(id.model) == Observed::Known(v@))
            &&& (q.protocol matches Some(v) ==> observed_view(id.protocol) == Observed::Known(v@))
            &&& (q.runtime matches Some(v) ==> observed_view(id.runtime) == Observed::Known(v@))
            &&& (q.runtime_version matches Some(v) ==> observed_view(id.runtime_version) == Observed::Known(v@))
            &&& (q.origin matches Some(o) ==> ps[j].origin == o)
        }),
    ensures
        selected_positions(ps, q, n).contains(j),
    decreases n,
{
    let prev = selected_positions(ps, q, n - 1);
    let last = if query_matches(q, ps[n - 1]) { seq![n - 1] } else { Seq::<int>::empty() };
    assert(selected_positions(ps, q, n) == prev + last);
    if j < n - 1 {
        law_matching_profile_is_selected(ps, q, n - 1, j);
        let k = choose|k: int| 0 <= k < prev.len() && prev[k] == j;
        assert((prev + last)[k] == j);
    } else {
        assert(query_matches(q, ps[j]));
        assert((prev + last)[prev.len() as int] == j);
    }
}

} // verus!
