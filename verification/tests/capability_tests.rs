use prefixity_controlled_benchmark::candidate_evaluation::{profile_capability_assessment, CapabilityAssessment};
use prefixity_controlled_benchmark::capability_registry::{
    capability_cell, Capability, CapabilityEvidence, CapabilityKey, CapabilityProfile,
    CapabilityQuery, CapabilityRegistry, CapabilityState, CapabilitySupport, KvCacheCapabilities,
    MetricCapabilities, PrefixCacheCapabilities, RegistryEvidenceOrigin, ResidencyCapabilities,
    RuntimeCacheCapabilities, SessionCapabilities,
};
use prefixity_controlled_benchmark::conformance::RuntimeIdentity;
use prefixity_controlled_benchmark::context_stability::Observed;
use prefixity_controlled_benchmark::json_value::{render_value, JsonValue};

fn unknown() -> Capability {
    Capability { support: CapabilitySupport::Unknown, evidence: CapabilityEvidence::Unverified, details: Observed::Unknown }
}

fn caps(provider: &str, prefix_reuse: Capability) -> RuntimeCacheCapabilities {
    RuntimeCacheCapabilities {
        identity: RuntimeIdentity {
            backend: "llama.cpp".to_string(),
            provider: Observed::Known(provider.to_string()),
            model: Observed::Unknown,
            protocol: Observed::NotObserved,
            runtime: Observed::Unknown,
            runtime_version: Observed::Unknown,
        },
        prefix_cache: PrefixCacheCapabilities {
            prefix_reuse,
            automatic_cache_population: unknown(),
            explicit_cache_population: unknown(),
            minimum_cacheable_prefix_tokens: Capability {
                support: CapabilitySupport::Supported,
                evidence: CapabilityEvidence::Documented,
                details: Observed::Known(JsonValue::Number("1024".to_string())),
            },
            cache_unit: Observed::Known(JsonValue::Str("token".to_string())),
            matching_constraints: Observed::NotObserved,
        },
        residency: ResidencyCapabilities {
            device_kv_state: unknown(),
            host_ram_caching: unknown(),
            disk_persistence: unknown(),
            explicit_save_restore: unknown(),
            checkpoint_support: unknown(),
            idle_slot_session_caching: unknown(),
        },
        sessions: SessionCapabilities {
            slots_or_sessions: unknown(),
            cache_affinity_routing_hints: unknown(),
            retention_or_ttl_controls: unknown(),
            conversation_chaining: unknown(),
        },
        metrics: MetricCapabilities {
            input_tokens: unknown(),
            cached_tokens: unknown(),
            prompt_evaluation_duration: unknown(),
            time_to_first_token: unknown(),
            cache_state: unknown(),
            ram_usage: unknown(),
            vram_usage: unknown(),
            kv_usage: unknown(),
            restore_or_rebuild: unknown(),
        },
        kv_cache: KvCacheCapabilities {
            precision_options: Observed::Unknown,
            quantization_support: unknown(),
            quality_regression_evidence: Observed::Unknown,
        },
    }
}

fn profile(id: &str, provider: &str, prefix_reuse: Capability) -> CapabilityProfile {
    CapabilityProfile {
        profile_id: id.to_string(),
        capabilities: caps(provider, prefix_reuse),
        origin: RegistryEvidenceOrigin::ProjectDocumentation,
        provenance: vec![],
    }
}

fn registry() -> CapabilityRegistry {
    CapabilityRegistry {
        schema_id: "prefixity.capability-registry".to_string(),
        registry_version: 1,
        profiles: vec![
            profile(
                "p-a",
                "alpha",
                Capability {
                    support: CapabilitySupport::Supported,
                    evidence: CapabilityEvidence::ExperimentallyObserved,
                    details: Observed::NotObserved,
                },
            ),
            profile("p-b", "beta", unknown()),
        ],
        provenance: vec![],
    }
}

#[test]
fn cells_carry_the_claim_and_its_state() {
    let c = caps("alpha", unknown());
    let cell = capability_cell("p", CapabilityKey::MinimumCacheablePrefixTokens, &c);
    assert_eq!(cell.profile_id, "p");
    assert_eq!(cell.capability, CapabilityKey::MinimumCacheablePrefixTokens);
    assert_eq!(cell.state, CapabilityState::SupportedDocumented);
    assert_eq!(cell.support, CapabilitySupport::Supported);
    match &cell.details {
        Observed::Known(v) => assert_eq!(render_value(v), "1024"),
        other => panic!("unexpected {other:?}"),
    }
    let unit = capability_cell("p", CapabilityKey::CacheUnit, &c);
    assert_eq!(unit.support, CapabilitySupport::Unknown);
    assert_eq!(unit.evidence, CapabilityEvidence::Unverified);
    assert_eq!(unit.state, CapabilityState::UnknownUnverified);
    assert!(matches!(unit.details, Observed::Known(JsonValue::Str(ref s)) if s == "token"));
}

#[test]
fn queries_need_known_identity_values() {
    let r = registry();
    assert_eq!(r.query(&CapabilityQuery::default()), vec![0, 1]);
    let q = CapabilityQuery { provider: Some("beta".to_string()), ..CapabilityQuery::default() };
    assert_eq!(r.query(&q), vec![1]);
    let q = CapabilityQuery { model: Some("m".to_string()), ..CapabilityQuery::default() };
    assert!(r.query(&q).is_empty());
    let q = CapabilityQuery {
        capability: Some(CapabilityKey::PrefixReuse),
        evidence: Some(CapabilityEvidence::ExperimentallyObserved),
        ..CapabilityQuery::default()
    };
    assert_eq!(r.query(&q), vec![0]);
}

#[test]
fn matrix_rows_follow_key_order() {
    let r = registry();
    let m = r.matrix(&CapabilityQuery::default(), &vec![CapabilityKey::CacheUnit, CapabilityKey::PrefixReuse, CapabilityKey::CacheUnit]);
    assert_eq!(m.capabilities, vec![CapabilityKey::PrefixReuse, CapabilityKey::CacheUnit]);
    assert_eq!(m.profile_ids, vec!["p-a".to_string(), "p-b".to_string()]);
    assert_eq!(m.rows.len(), 2);
    assert_eq!(m.rows[0].cells[0].state, CapabilityState::SupportedObserved);
    assert_eq!(m.rows[0].cells[1].state, CapabilityState::UnknownUnverified);
    let all = r.matrix(&CapabilityQuery::default(), &vec![]);
    assert_eq!(all.capabilities.len(), 28);
}

#[test]
fn gap_report_counts_known_unknown_and_observed() {
    let g = registry().gap_report();
    assert_eq!(g.capability_gaps.len(), 28);
    let prefix = &g.capability_gaps[0];
    assert_eq!(prefix.capability, CapabilityKey::PrefixReuse);
    assert_eq!(prefix.known_profiles, 1);
    assert_eq!(prefix.unknown_profiles, 1);
    assert_eq!(prefix.experimentally_observed_profiles, 1);
    assert_eq!(g.profile_gaps.len(), 2);
    assert_eq!(g.profile_gaps[0].known_capability_fields, 2);
    assert_eq!(g.profile_gaps[0].unknown_capability_fields, 26);
    assert_eq!(g.profile_gaps[0].experimentally_observed_fields, 1);
    assert_eq!(g.profile_gaps[1].known_capability_fields, 1);
}

#[test]
fn capability_gate_reads_the_prefix_reuse_claim() {
    let r = registry();
    let gate = profile_capability_assessment(Some(&r.profiles[0]), None);
    assert_eq!(gate.state, CapabilityAssessment::SupportedObserved);
    assert_eq!(gate.capability, CapabilityKey::PrefixReuse);
    let gate = profile_capability_assessment(Some(&r.profiles[1]), None);
    assert_eq!(gate.state, CapabilityAssessment::UnknownUnverified);
    let gate = profile_capability_assessment(None, None);
    assert_eq!(gate.state, CapabilityAssessment::NotProvided);
    assert!(gate.profile.is_none());
}
