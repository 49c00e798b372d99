use prefixity_controlled_benchmark::context_stability::{
    ArtifactStability, BoundaryClassification, BoundaryDirection, ClassificationSource, ContextRole,
    ContextSegmentAnalysis, ContextStabilityAnalysis, LeadingRegionLimit, Observed, SizeSource,
    StabilityAlignedLeadingRegion, StabilityBoundary, StabilityFinding, StabilityFindingKind, StabilitySummary,
    TrustLevel,
};
use prefixity_controlled_benchmark::diff::{
    CacheImpactAssessment, ChangeCategory, CommonPrefixMeasurement, DiffChange, DiffState, EnvelopeDiff, PrefixDiff,
    RequestDiff, RequestDiffInterpretation,
};
use prefixity_controlled_benchmark::error::{BenchmarkError, MaterializationErrorCode};
use prefixity_controlled_benchmark::layout_planner::{
    changed_positions, changed_relative_pairs, changed_relative_relationship_count, constraint_references,
    is_artifact_position, layout_metrics, planning_reasons, positions_by_name, proposed_order, push_rejection,
    safety_reasons, structural_effect, transformation_for_order, validate_constraint_references,
    validate_segment_references, validate_transformation, CandidateSafetyStatus, ContextLayoutPlan, LayoutCandidate,
    LayoutPlanningConstraints, LayoutSegmentReference, LayoutStructuralMetrics, LayoutTransformation,
    LayoutTransformationKind, OrderingConstraint, PlanningReason, PreserveOrderReason, RejectedLayoutCandidate,
    RejectionReason, StructuralLayoutEffect,
};
use prefixity_controlled_benchmark::materialization::validate_reorder_diff;

const FP: &str = "0123456789abcdef0123456789abcdef0123456789abcdef0123456789abcdef";

fn segment(
    position: usize,
    path: &str,
    role: ContextRole,
    stability: ArtifactStability,
    trust: Observed<TrustLevel>,
) -> ContextSegmentAnalysis {
    ContextSegmentAnalysis {
        position,
        structural_path: path.to_string(),
        component_id: None,
        role,
        stability,
        transient: false,
        byte_size: Observed::Unknown,
        classification_source: ClassificationSource::ExplicitMetadata,
        trust,
        artifact_id: None,
        content_fingerprint: FP.to_string(),
        size_source: SizeSource::Unknown,
    }
}

fn boundary(position: usize, kind: BoundaryClassification) -> StabilityBoundary {
    StabilityBoundary {
        position,
        left_segment: position,
        right_segment: position + 1,
        left_stability: ArtifactStability::Unknown,
        right_stability: ArtifactStability::Unknown,
        direction: BoundaryDirection::TowardMoreStable,
        classification: kind,
    }
}

fn analysis(segments: Vec<ContextSegmentAnalysis>) -> ContextStabilityAnalysis {
    let boundaries = (0..segments.len().saturating_sub(1))
        .map(|p| boundary(p, BoundaryClassification::Classified))
        .collect();
    ContextStabilityAnalysis {
        schema_id: "prefixity.context-stability-analysis".to_string(),
        schema_version: 1,
        request_fingerprint: FP.to_string(),
        context_fingerprint: FP.to_string(),
        segments,
        boundaries,
        leading_region: StabilityAlignedLeadingRegion {
            segment_count: 1,
            known_byte_size: Observed::Unknown,
            limit: LeadingRegionLimit::LimitedByStabilityInversion,
        },
        summary: StabilitySummary {
            immutable_segments: 0,
            stable_segments: 0,
            append_only_segments: 0,
            volatile_segments: 0,
            unknown_segments: 0,
            known_stable_bytes: 0,
            known_append_only_bytes: 0,
            known_volatile_bytes: 0,
            known_immutable_bytes: 0,
            known_bytes_total: 0,
            unknown_bytes: Observed::NotObserved,
            unknown_size_segments: 0,
            token_units: Observed::NotObserved,
        },
        findings: vec![],
        provenance: vec![("source".to_string(), "fixture".to_string())],
    }
}

const A1: &str = "context.artifacts[a1]";
const A2: &str = "context.artifacts[a2]";

/// system, a1 (volatile), a2 (stable), user, tool.
fn sample() -> ContextStabilityAnalysis {
    analysis(vec![
        segment(0, "context.system_instruction", ContextRole::SystemInstruction, ArtifactStability::Stable,
            Observed::Known(TrustLevel::Trusted)),
        segment(1, A1, ContextRole::ContextArtifact, ArtifactStability::Volatile, Observed::Known(TrustLevel::Trusted)),
        segment(2, A2, ContextRole::ContextArtifact, ArtifactStability::Stable, Observed::Known(TrustLevel::Trusted)),
        segment(3, "context.current_user", ContextRole::CurrentUserTask, ArtifactStability::Volatile,
            Observed::Known(TrustLevel::Trusted)),
        segment(4, "context.tools[t]", ContextRole::ToolDefinition, ArtifactStability::Unknown, Observed::Unknown),
    ])
}

fn movable(segment: &str) -> OrderingConstraint {
    OrderingConstraint::MovableWithinCompatibleRegion { segment: segment.to_string(), region: "retrieved".to_string() }
}

fn constraints(cs: Vec<OrderingConstraint>) -> LayoutPlanningConstraints {
    LayoutPlanningConstraints { constraints: cs, provenance: vec![] }
}

fn swap12() -> Vec<usize> {
    vec![0, 2, 1, 3, 4]
}

#[test]
fn stability_analysis_validation_checks_numbering() {
    let a = sample();
    assert!(a.validate().is_ok());
    let mut bad = sample();
    bad.segments[2].position = 7;
    assert_eq!(
        bad.validate(),
        Err(BenchmarkError::Validation {
            path: "<in-memory>".to_string(),
            message: "context stability segment positions must be contiguous".to_string(),
        })
    );
    let mut bad = sample();
    bad.boundaries[1].right_segment = 3;
    assert!(bad.validate().is_err());
    let mut bad = sample();
    bad.schema_version = 2;
    assert!(bad.validate().is_err());
    let mut bad = sample();
    bad.segments.clear();
    bad.boundaries.clear();
    assert!(bad.validate().is_err());
}

#[test]
fn adjacent_swap_exchanges_the_boundary_segments() {
    let a = sample();
    let order = proposed_order(&a, &a.boundaries[1], LayoutTransformationKind::AdjacentSwap).unwrap();
    assert_eq!(order, swap12());
    // A region move next to a fixed slot falls back to a swap.
    let order = proposed_order(&a, &a.boundaries[0], LayoutTransformationKind::RegionLocalMove).unwrap();
    assert_eq!(order, vec![1, 0, 2, 3, 4]);
}

#[test]
fn region_move_carries_the_right_segment_past_less_stable_artifacts() {
    let a = analysis(vec![
        segment(0, "context.system_instruction", ContextRole::SystemInstruction, ArtifactStability::Stable,
            Observed::Known(TrustLevel::Trusted)),
        segment(1, "context.artifacts[v]", ContextRole::ContextArtifact, ArtifactStability::Volatile,
            Observed::Known(TrustLevel::Trusted)),
        segment(2, "context.artifacts[ap]", ContextRole::ContextArtifact, ArtifactStability::AppendOnly,
            Observed::Known(TrustLevel::Trusted)),
        segment(3, "context.artifacts[s]", ContextRole::ContextArtifact, ArtifactStability::Stable,
            Observed::Known(TrustLevel::Trusted)),
        segment(4, "context.current_user", ContextRole::CurrentUserTask, ArtifactStability::Volatile,
            Observed::Known(TrustLevel::Trusted)),
    ]);
    let order = proposed_order(&a, &a.boundaries[2], LayoutTransformationKind::RegionLocalMove).unwrap();
    assert_eq!(order, vec![0, 3, 1, 2, 4]);
    let t = transformation_for_order(&a, &vec![0, 1, 2, 3, 4], &order, LayoutTransformationKind::RegionLocalMove)
        .unwrap();
    assert_eq!(t.from_positions, vec![1, 2, 3]);
    assert_eq!(t.to_positions, vec![2, 3, 1]);
    assert_eq!(
        t.moved_segments,
        vec!["context.artifacts[v]".to_string(), "context.artifacts[ap]".to_string(), "context.artifacts[s]".to_string()]
    );
}

#[test]
fn region_move_needs_a_known_right_stability() {
    let mut a = sample();
    a.segments[2].stability = ArtifactStability::Unknown;
    assert_eq!(
        proposed_order(&a, &a.boundaries[1], LayoutTransformationKind::RegionLocalMove),
        Err(BenchmarkError::Validation {
            path: "<in-memory>".to_string(),
            message: "region move requires known right stability".to_string(),
        })
    );
}

#[test]
fn transformation_lists_moved_segments_and_rejects_missing_positions() {
    let a = sample();
    let t = transformation_for_order(&a, &vec![0, 1, 2, 3, 4], &swap12(), LayoutTransformationKind::AdjacentSwap)
        .unwrap();
    assert_eq!(t.kind, LayoutTransformationKind::AdjacentSwap);
    assert_eq!(t.moved_segments, vec![A1.to_string(), A2.to_string()]);
    assert_eq!(t.from_positions, vec![1, 2]);
    assert_eq!(t.to_positions, vec![2, 1]);
    assert!(validate_transformation(&t).is_ok());
    let err = transformation_for_order(&a, &vec![0, 9], &swap12(), LayoutTransformationKind::AdjacentSwap);
    assert_eq!(
        err,
        Err(BenchmarkError::Validation {
            path: "<in-memory>".to_string(),
            message: "candidate layout is not a permutation".to_string(),
        })
    );
    let uneven = LayoutTransformation {
        kind: LayoutTransformationKind::AdjacentSwap,
        moved_segments: vec![A1.to_string()],
        from_positions: vec![1, 2],
        to_positions: vec![2, 1],
    };
    assert!(validate_transformation(&uneven).is_err());
}

#[test]
fn changed_positions_and_pairs_of_a_swap() {
    let a = sample();
    assert_eq!(changed_positions(&swap12()), vec![1, 2]);
    assert_eq!(changed_positions(&vec![0, 1, 2, 3, 4]), Vec::<usize>::new());
    assert_eq!(changed_relative_pairs(&a, &swap12()), vec![(A1.to_string(), A2.to_string())]);
    assert_eq!(changed_relative_relationship_count(&a, &swap12()), 1);
    let names = positions_by_name(&a, &swap12());
    assert_eq!(names[1], A2);
    assert_eq!(names[2], A1);
    assert!(is_artifact_position(&a, 1));
    assert!(!is_artifact_position(&a, 0));
    assert!(!is_artifact_position(&a, 99));
}

#[test]
fn declared_movable_trusted_swap_is_safe() {
    let a = sample();
    let cs = constraints(vec![movable(A1), movable(A2)]);
    assert_eq!(safety_reasons(&a, &swap12(), &cs).unwrap(), Vec::<RejectionReason>::new());
}

#[test]
fn undeclared_movement_is_of_unknown_safety() {
    let a = sample();
    let cs = constraints(vec![movable(A1)]);
    assert_eq!(safety_reasons(&a, &swap12(), &cs).unwrap(), vec![RejectionReason::UnknownMoveSafety]);
}

#[test]
fn identity_order_has_no_benefit() {
    let a = sample();
    assert_eq!(
        safety_reasons(&a, &vec![0, 1, 2, 3, 4], &constraints(vec![])).unwrap(),
        vec![RejectionReason::NoStructuralBenefit]
    );
}

#[test]
fn declared_orderings_and_regions_are_enforced() {
    let a = sample();
    let mut cs = vec![
        movable(A1),
        OrderingConstraint::MovableWithinCompatibleRegion { segment: A2.to_string(), region: "other".to_string() },
    ];
    assert_eq!(safety_reasons(&a, &swap12(), &constraints(cs.clone())).unwrap(), vec![RejectionReason::OrderingConstraint]);
    cs[1] = movable(A2);
    cs.push(OrderingConstraint::MustPrecede { before: A1.to_string(), after: A2.to_string() });
    cs.push(OrderingConstraint::FixedPosition { segment: A1.to_string(), position: 1 });
    cs.push(OrderingConstraint::PreserveRelativeOrder {
        segments: vec![A1.to_string(), A2.to_string()],
        reason: PreserveOrderReason::Chronology,
    });
    cs.push(OrderingConstraint::PreserveRelativeOrder {
        segments: vec![A1.to_string(), A2.to_string()],
        reason: PreserveOrderReason::ToolCallResult,
    });
    cs.push(OrderingConstraint::Unknown { segment: A2.to_string(), reason: "unclear".to_string() });
    assert_eq!(
        safety_reasons(&a, &swap12(), &constraints(cs)).unwrap(),
        vec![
            RejectionReason::OrderingConstraint,
            RejectionReason::SemanticDependency,
            RejectionReason::UnknownMoveSafety,
            RejectionReason::FixedSegment,
            RejectionReason::WouldAlterChronology,
        ]
    );
}

#[test]
fn less_trusted_content_may_not_move_ahead() {
    let mut a = sample();
    a.segments[2].trust = Observed::Known(TrustLevel::Untrusted);
    let cs = constraints(vec![movable(A1), movable(A2)]);
    assert_eq!(safety_reasons(&a, &swap12(), &cs).unwrap(), vec![RejectionReason::TrustBoundary]);
    a.segments[2].trust = Observed::NotObserved;
    assert_eq!(safety_reasons(&a, &swap12(), &cs).unwrap(), vec![RejectionReason::UnknownMoveSafety]);
    // Moving a more trusted segment ahead of a less trusted one is allowed.
    a.segments[2].trust = Observed::Known(TrustLevel::Trusted);
    a.segments[1].trust = Observed::Known(TrustLevel::Mixed);
    assert_eq!(safety_reasons(&a, &swap12(), &cs).unwrap(), Vec::<RejectionReason>::new());
}

#[test]
fn fixed_slots_and_unknown_stability_block_a_move() {
    let a = sample();
    let cs = constraints(vec![movable("context.system_instruction"), movable(A1)]);
    assert_eq!(
        safety_reasons(&a, &vec![1, 0, 2, 3, 4], &cs).unwrap(),
        vec![RejectionReason::UnsupportedSegmentRegion]
    );
    let cs = constraints(vec![movable("context.current_user"), movable("context.tools[t]")]);
    assert_eq!(
        safety_reasons(&a, &vec![0, 1, 2, 4, 3], &cs).unwrap(),
        vec![RejectionReason::UnknownMoveSafety, RejectionReason::UnsupportedSegmentRegion]
    );
}

#[test]
fn constraint_references_must_name_segments() {
    let a = sample();
    let cs = constraints(vec![OrderingConstraint::MustFollow { segment: A2.to_string(), after: A1.to_string() }]);
    assert!(validate_constraint_references(&a, &cs).is_ok());
    assert_eq!(constraint_references(&cs.constraints[0]), vec![A2.to_string(), A1.to_string()]);
    let cs = constraints(vec![movable("context.artifacts[missing]")]);
    assert_eq!(
        validate_constraint_references(&a, &cs),
        Err(BenchmarkError::Validation {
            path: "<in-memory>".to_string(),
            message: "layout constraint references an unknown segment".to_string(),
        })
    );
}

fn reference(position: usize, path: &str) -> LayoutSegmentReference {
    LayoutSegmentReference {
        source_position: position,
        structural_path: path.to_string(),
        component_id: None,
        role: ContextRole::ContextArtifact,
        content_fingerprint: FP.to_string(),
        metadata_fingerprint: None,
    }
}

#[test]
fn segment_references_must_be_a_permutation() {
    let refs = vec![reference(0, "a"), reference(2, "b"), reference(1, "c")];
    assert!(validate_segment_references(&refs, 3).is_ok());
    assert!(validate_segment_references(&refs, 4).is_err());
    let dup = vec![reference(0, "a"), reference(0, "b"), reference(1, "c")];
    assert_eq!(
        validate_segment_references(&dup, 3),
        Err(BenchmarkError::Validation {
            path: "<in-memory>".to_string(),
            message: "candidate segment references are not a permutation".to_string(),
        })
    );
    let mut bad = refs.clone();
    bad[1].metadata_fingerprint = Some("xyz".to_string());
    assert!(validate_segment_references(&bad, 3).is_err());
}

#[test]
fn metrics_effect_and_planning_reasons() {
    let mut a = sample();
    a.findings = vec![
        StabilityFinding { kind: StabilityFindingKind::StabilityInversion, segment: None, boundary: Some(1) },
        StabilityFinding { kind: StabilityFindingKind::UnknownStabilitySegment, segment: Some(4), boundary: None },
        StabilityFinding { kind: StabilityFindingKind::StabilityInversion, segment: None, boundary: Some(3) },
    ];
    a.boundaries[3].classification = BoundaryClassification::Unknown;
    let source = layout_metrics(&a);
    assert_eq!(
        source,
        LayoutStructuralMetrics { inversion_count: 2, stability_aligned_leading_segments: 1, unknown_boundary_count: 1 }
    );
    let candidate =
        LayoutStructuralMetrics { inversion_count: 1, stability_aligned_leading_segments: 1, unknown_boundary_count: 1 };
    let t = transformation_for_order(&a, &vec![0, 1, 2, 3, 4], &swap12(), LayoutTransformationKind::AdjacentSwap)
        .unwrap();
    let effect = structural_effect(&source, &candidate, &t, &a, &swap12());
    assert_eq!(effect.moved_segment_count, 2);
    assert_eq!(effect.changed_relative_relationships, 1);
    assert_eq!(
        planning_reasons(&effect),
        vec![
            PlanningReason::RemovesStabilityInversion,
            PlanningReason::PreservesDeclaredOrdering,
            PlanningReason::TrustBoundaryPreserved,
            PlanningReason::NoRuntimeEvidenceAttached,
        ]
    );
}

fn rejected() -> RejectedLayoutCandidate {
    RejectedLayoutCandidate {
        attempted_layout_fingerprint: None,
        transformation: LayoutTransformation {
            kind: LayoutTransformationKind::AdjacentSwap,
            moved_segments: vec![],
            from_positions: vec![],
            to_positions: vec![],
        },
        status: CandidateSafetyStatus::Rejected,
        reasons: vec![RejectionReason::NoStructuralBenefit],
    }
}

#[test]
fn rejections_are_bounded() {
    let mut list = Vec::new();
    for _ in 0..40 {
        push_rejection(&mut list, rejected());
    }
    assert_eq!(list.len(), 32);
}

fn reorder_diff() -> RequestDiff {
    RequestDiff {
        schema_id: "prefixity.request-diff".to_string(),
        schema_version: 1,
        left_request_fingerprint: FP.to_string(),
        right_request_fingerprint: FP.to_string(),
        prefix_diff: PrefixDiff {
            schema_id: "prefixity.prefix-diff".to_string(),
            schema_version: 1,
            left_context_fingerprint: FP.to_string(),
            right_context_fingerprint: FP.to_string(),
            identical: false,
            common_prefix: CommonPrefixMeasurement {
                structural_units: 1,
                artifact_units: 0,
                tool_units: 0,
                text: vec![],
                token_units: Observed::NotObserved,
            },
            first_divergence: None,
            changes: vec![DiffChange {
                path: "context.artifacts".to_string(),
                category: ChangeCategory::ArtifactOrderChanged,
                left: None,
                right: None,
                order_changed: true,
                content_changed: false,
                presence_changed: false,
                whitespace_only: false,
                sequence_index: Some(1),
            }],
            provenance: vec![],
            cache_impact: CacheImpactAssessment::Unknown,
        },
        envelope_diff: EnvelopeDiff {
            schema_id: "prefixity.envelope-diff".to_string(),
            schema_version: 1,
            left_request_fingerprint: FP.to_string(),
            right_request_fingerprint: FP.to_string(),
            identical: true,
            changes: vec![],
            cache_impact: CacheImpactAssessment::Unknown,
        },
        interpretation: RequestDiffInterpretation { context: DiffState::Changed, envelope: DiffState::Identical },
        cache_impact: CacheImpactAssessment::Unknown,
    }
}

#[test]
fn reorder_diff_must_change_only_artifact_order() {
    assert!(validate_reorder_diff(&reorder_diff()).is_ok());
    let mut d = reorder_diff();
    d.cache_impact = CacheImpactAssessment::NotApplicable;
    match validate_reorder_diff(&d) {
        Err(BenchmarkError::Materialization { code, .. }) => {
            assert_eq!(code, MaterializationErrorCode::PlannedActualDiffMismatch)
        }
        other => panic!("unexpected {:?}", other),
    }
    let mut d = reorder_diff();
    d.prefix_diff.changes[0].content_changed = true;
    match validate_reorder_diff(&d) {
        Err(BenchmarkError::Materialization { code, .. }) => {
            assert_eq!(code, MaterializationErrorCode::UnexpectedContentChange)
        }
        other => panic!("unexpected {:?}", other),
    }
}

fn plan() -> ContextLayoutPlan {
    let a = sample();
    let refs = vec![
        reference(0, "context.system_instruction"),
        reference(2, A2),
        reference(1, A1),
        reference(3, "context.current_user"),
        reference(4, "context.tools[t]"),
    ];
    let candidate = LayoutCandidate {
        candidate_id: format!("layout-{FP}"),
        layout_fingerprint: FP.to_string(),
        ordered_segments: refs,
        transformations: vec![],
        resulting_analysis: a.clone(),
        safety: CandidateSafetyStatus::OrderingSafeUnderDeclaredConstraints,
        reasons: vec![PlanningReason::PreservesDeclaredOrdering],
        structural_effect: StructuralLayoutEffect {
            source: LayoutStructuralMetrics { inversion_count: 1, stability_aligned_leading_segments: 1, unknown_boundary_count: 0 },
            candidate: LayoutStructuralMetrics { inversion_count: 0, stability_aligned_leading_segments: 3, unknown_boundary_count: 0 },
            moved_segment_count: 2,
            changed_relative_relationships: 1,
        },
        request_diff: reorder_diff(),
    };
    ContextLayoutPlan {
        schema_id: "prefixity.context-layout-plan".to_string(),
        schema_version: 1,
        source_request_fingerprint: FP.to_string(),
        source_context_fingerprint: FP.to_string(),
        source_stability_analysis: a,
        candidates: vec![candidate],
        rejected_candidates: vec![rejected()],
        constraints: constraints(vec![movable(A1), movable(A2)]),
        provenance: vec![("application".to_string(), "proposal_only".to_string())],
    }
}

#[test]
fn layout_plan_validation() {
    assert!(plan().validate().is_ok());
    let mut p = plan();
    p.candidates.push(p.candidates[0].clone());
    assert_eq!(
        p.validate(),
        Err(BenchmarkError::Validation {
            path: "<in-memory>".to_string(),
            message: "context layout candidates must be unique".to_string(),
        })
    );
    let mut p = plan();
    p.candidates[0].safety = CandidateSafetyStatus::Rejected;
    assert!(p.validate().is_err());
    let mut p = plan();
    p.candidates[0].request_diff.cache_impact = CacheImpactAssessment::EvidenceSupported;
    assert!(p.validate().is_err());
    let mut p = plan();
    p.rejected_candidates[0].reasons.clear();
    assert!(p.validate().is_err());
    let mut p = plan();
    p.rejected_candidates[0].status = CandidateSafetyStatus::OrderingSafeUnderDeclaredConstraints;
    assert!(p.validate().is_err());
    let mut p = plan();
    p.constraints = constraints(vec![movable("context.artifacts[zz]")]);
    assert!(p.validate().is_err());
}
