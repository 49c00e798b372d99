use prefixity_controlled_benchmark::context_stability::{
    analysis_from_segments, build_boundaries, findings, leading_region, stability_direction, summarize,
    ArtifactStability, BoundaryClassification, BoundaryDirection, ClassificationSource, ContextRole,
    ContextSegmentAnalysis, LeadingRegionLimit, Observed, SizeSource, StabilityFinding, StabilityFindingKind,
    TrustLevel,
};
use prefixity_controlled_benchmark::diff::{
    CacheImpactAssessment, CommonPrefixMeasurement, DiffState, EnvelopeDiff, PrefixDiff, RequestDiff,
    RequestDiffInterpretation,
};
use prefixity_controlled_benchmark::error::{BenchmarkError, MaterializationErrorCode};
use prefixity_controlled_benchmark::layout_planner::{
    CandidateSafetyStatus, LayoutCandidate, LayoutSegmentReference, LayoutStructuralMetrics, LayoutTransformation,
    LayoutTransformationKind, StructuralLayoutEffect,
};
use prefixity_controlled_benchmark::materialization::{
    certify_materialization, equal_segment_metadata, invariant_results, metadata_unavailable, provenance_conserved,
    segment_metadata_conserved, validate_authorized_transformation, CertificationStatus, ConservationChecks,
    MaterializationInvariant, RequestDiffReference,
};

const FP: &str = "0123456789abcdef0123456789abcdef0123456789abcdef0123456789abcdef";

fn seg(position: usize, path: &str, role: ContextRole, stability: ArtifactStability, bytes: Observed<u64>) -> ContextSegmentAnalysis {
    ContextSegmentAnalysis {
        position,
        structural_path: path.to_string(),
        component_id: None,
        role,
        stability,
        transient: false,
        byte_size: bytes,
        classification_source: ClassificationSource::ExplicitMetadata,
        trust: Observed::Known(TrustLevel::Trusted),
        artifact_id: None,
        content_fingerprint: FP.to_string(),
        size_source: SizeSource::ExplicitMetadata,
    }
}

/// system (stable, 10 bytes), a1 (volatile, 20), a2 (stable, 30),
/// user (volatile, unknown size), tool (unknown stability, 5).
fn segments() -> Vec<ContextSegmentAnalysis> {
    vec![
        seg(0, "context.system_instruction", ContextRole::SystemInstruction, ArtifactStability::Stable, Observed::Known(10)),
        seg(1, "context.artifacts[a1]", ContextRole::ContextArtifact, ArtifactStability::Volatile, Observed::Known(20)),
        seg(2, "context.artifacts[a2]", ContextRole::ContextArtifact, ArtifactStability::Stable, Observed::Known(30)),
        seg(3, "context.current_user", ContextRole::CurrentUserTask, ArtifactStability::Volatile, Observed::Unknown),
        seg(4, "context.tools[t]", ContextRole::ToolDefinition, ArtifactStability::Unknown, Observed::Known(5)),
    ]
}

#[test]
fn stability_direction_compares_ranks() {
    let (v, s, i, a, u) = (
        ArtifactStability::Volatile,
        ArtifactStability::Stable,
        ArtifactStability::Immutable,
        ArtifactStability::AppendOnly,
        ArtifactStability::Unknown,
    );
    assert_eq!(stability_direction(&v, &s), BoundaryDirection::TowardMoreStable);
    assert_eq!(stability_direction(&i, &a), BoundaryDirection::TowardMoreVolatile);
    assert_eq!(stability_direction(&s, &s), BoundaryDirection::NoKnownMovement);
    assert_eq!(stability_direction(&s, &u), BoundaryDirection::Unknown);
}

#[test]
fn boundaries_lie_between_adjacent_segments() {
    let b = build_boundaries(&segments());
    assert_eq!(b.len(), 4);
    assert_eq!(b[0].direction, BoundaryDirection::TowardMoreVolatile);
    assert_eq!(b[1].direction, BoundaryDirection::TowardMoreStable);
    assert_eq!((b[1].left_segment, b[1].right_segment, b[1].position), (1, 2, 1));
    assert_eq!(b[3].direction, BoundaryDirection::Unknown);
    assert_eq!(b[3].classification, BoundaryClassification::Unknown);
    assert_eq!(b[2].classification, BoundaryClassification::Classified);
    assert!(build_boundaries(&vec![]).is_empty());
}

#[test]
fn leading_region_stops_at_an_inversion() {
    let s = segments();
    let r = leading_region(&s, &build_boundaries(&s));
    assert_eq!(r.segment_count, 2);
    assert_eq!(r.known_byte_size, Observed::Known(30));
    assert_eq!(r.limit, LeadingRegionLimit::LimitedByStabilityInversion);
}

#[test]
fn leading_region_limits() {
    let mut s = segments();
    s[0].stability = ArtifactStability::Unknown;
    let r = leading_region(&s, &build_boundaries(&s));
    assert_eq!((r.segment_count, r.limit), (0, LeadingRegionLimit::Empty));
    assert_eq!(r.known_byte_size, Observed::Known(0));
    let s = vec![segments()[0].clone(), segments()[4].clone()];
    let r = leading_region(&s, &build_boundaries(&s));
    assert_eq!((r.segment_count, r.limit), (1, LeadingRegionLimit::LimitedByUnknown));
    let s = vec![segments()[0].clone(), segments()[1].clone(), segments()[3].clone()];
    let r = leading_region(&s, &build_boundaries(&s));
    assert_eq!((r.segment_count, r.limit), (3, LeadingRegionLimit::Complete));
    assert_eq!(r.known_byte_size, Observed::Unknown);
    let mut s = vec![segments()[0].clone(), segments()[0].clone()];
    s[0].byte_size = Observed::Known(u64::MAX);
    let r = leading_region(&s, &build_boundaries(&s));
    assert_eq!(r.known_byte_size, Observed::Known(u64::MAX));
}

#[test]
fn summary_counts_and_sums_by_stability() {
    let s = summarize(&segments());
    assert_eq!(
        (s.immutable_segments, s.stable_segments, s.append_only_segments, s.volatile_segments, s.unknown_segments),
        (0, 2, 0, 2, 1)
    );
    assert_eq!(s.known_stable_bytes, 40);
    assert_eq!(s.known_volatile_bytes, 20);
    assert_eq!(s.known_immutable_bytes, 0);
    assert_eq!(s.known_bytes_total, 65);
    assert_eq!(s.unknown_size_segments, 1);
    assert_eq!(s.unknown_bytes, Observed::Unknown);
    assert_eq!(s.token_units, Observed::NotObserved);
    let empty = summarize(&vec![]);
    assert_eq!(empty.unknown_bytes, Observed::Known(0));
}

#[test]
fn findings_list_segments_then_boundaries() {
    let mut s = segments();
    s[2].transient = true;
    s[1].stability = ArtifactStability::AppendOnly;
    let b = build_boundaries(&s);
    let f = findings(&s, &b);
    assert_eq!(
        f,
        vec![
            StabilityFinding { kind: StabilityFindingKind::AppendOnlyRegion, segment: Some(1), boundary: None },
            StabilityFinding { kind: StabilityFindingKind::TransientStableSegment, segment: Some(2), boundary: None },
            StabilityFinding { kind: StabilityFindingKind::UnknownStabilitySegment, segment: Some(4), boundary: None },
            StabilityFinding { kind: StabilityFindingKind::StabilityInversion, segment: None, boundary: Some(1) },
        ]
    );
    let s = segments();
    let f = findings(&s, &build_boundaries(&s));
    assert!(f.contains(&StabilityFinding { kind: StabilityFindingKind::VolatileBeforeStable, segment: None, boundary: Some(1) }));
    let many: Vec<_> = (0..200)
        .map(|p| seg(p, "x", ContextRole::ContextArtifact, ArtifactStability::Unknown, Observed::Unknown))
        .collect();
    assert_eq!(findings(&many, &many.iter().take(199).map(|_| build_boundaries(&segments())[1].clone()).collect()).len(), 256);
}

#[test]
fn analysis_from_segments_fills_in_the_derived_parts() {
    let a = analysis_from_segments(FP.to_string(), FP.to_string(), segments(), vec![]).unwrap();
    assert_eq!(a.boundaries, build_boundaries(&segments()));
    assert_eq!(a.summary, summarize(&segments()));
    assert_eq!(a.leading_region.segment_count, 2);
    assert_eq!(a.provenance, vec![("source".to_string(), "neutral-request-and-context-artifact-metadata".to_string())]);
    assert!(a.validate().is_ok());
    let supplied = vec![("source".to_string(), "fixture".to_string())];
    let a = analysis_from_segments(FP.to_string(), FP.to_string(), segments(), supplied.clone()).unwrap();
    assert_eq!(a.provenance, supplied);
    assert!(analysis_from_segments(FP.to_string(), FP.to_string(), vec![], vec![]).is_err());
    let mut bad = segments();
    bad[3].position = 7;
    assert_eq!(
        analysis_from_segments(FP.to_string(), FP.to_string(), bad, vec![]),
        Err(BenchmarkError::Validation {
            path: "<in-memory>".to_string(),
            message: "context stability segment positions must be contiguous".to_string(),
        })
    );
}

fn reference_to(s: &ContextSegmentAnalysis, metadata: Option<&str>) -> LayoutSegmentReference {
    LayoutSegmentReference {
        source_position: s.position,
        structural_path: s.structural_path.clone(),
        component_id: s.component_id.clone(),
        role: s.role,
        content_fingerprint: s.content_fingerprint.clone(),
        metadata_fingerprint: metadata.map(|m| m.to_string()),
    }
}

fn swap_candidate(order: &[usize], from: Vec<usize>, to: Vec<usize>, moved: Vec<&str>) -> LayoutCandidate {
    let source = analysis_from_segments(FP.to_string(), FP.to_string(), segments(), vec![]).unwrap();
    let metadata = ["m0", "m1", "m2", "m3", "m4"];
    LayoutCandidate {
        candidate_id: format!("layout-{FP}"),
        layout_fingerprint: FP.to_string(),
        ordered_segments: order.iter().map(|&p| reference_to(&source.segments[p], Some(metadata[p]))).collect(),
        transformations: vec![LayoutTransformation {
            kind: LayoutTransformationKind::AdjacentSwap,
            moved_segments: moved.into_iter().map(|m| m.to_string()).collect(),
            from_positions: from,
            to_positions: to,
        }],
        resulting_analysis: source.clone(),
        safety: CandidateSafetyStatus::OrderingSafeUnderDeclaredConstraints,
        reasons: vec![],
        structural_effect: StructuralLayoutEffect {
            source: LayoutStructuralMetrics { inversion_count: 1, stability_aligned_leading_segments: 2, unknown_boundary_count: 1 },
            candidate: LayoutStructuralMetrics { inversion_count: 0, stability_aligned_leading_segments: 3, unknown_boundary_count: 1 },
            moved_segment_count: 2,
            changed_relative_relationships: 1,
        },
        request_diff: layout_diff(),
    }
}

fn layout_diff() -> RequestDiff {
    RequestDiff {
        schema_id: "prefixity.request-diff".to_string(),
        schema_version: 1,
        left_request_fingerprint: FP.to_string(),
        right_request_fingerprint: FP.to_string(),
        prefix_diff: PrefixDiff {
            schema_id: "prefixity.prefix-diff".to_string(),
            schema_version: 1,
            left_context_fingerprint: FP.to_string(),
            right_context_fingerprint: FP.to_string(),
            identical: false,
            common_prefix: CommonPrefixMeasurement {
                structural_units: 1,
                artifact_units: 0,
                tool_units: 0,
                text: vec![],
                token_units: Observed::NotObserved,
            },
            first_divergence: None,
            changes: vec![],
            provenance: vec![],
            cache_impact: CacheImpactAssessment::Unknown,
        },
        envelope_diff: EnvelopeDiff {
            schema_id: "prefixity.request-envelope-diff".to_string(),
            schema_version: 1,
            left_request_fingerprint: FP.to_string(),
            right_request_fingerprint: FP.to_string(),
            identical: true,
            changes: vec![],
            cache_impact: CacheImpactAssessment::Unknown,
        },
        interpretation: RequestDiffInterpretation { context: DiffState::Changed, envelope: DiffState::Identical },
        cache_impact: CacheImpactAssessment::Unknown,
    }
}

fn metadata() -> Vec<Option<String>> {
    ["m0", "m1", "m2", "m3", "m4"].iter().map(|m| Some(m.to_string())).collect()
}

fn materialization_error(code: MaterializationErrorCode, message: &str) -> Result<(), BenchmarkError> {
    Err(BenchmarkError::Materialization { code, message: message.to_string() })
}

#[test]
fn an_artifact_swap_is_an_authorized_transformation() {
    let source = analysis_from_segments(FP.to_string(), FP.to_string(), segments(), vec![]).unwrap();
    let swap = swap_candidate(&[0, 2, 1, 3, 4], vec![1, 2], vec![2, 1], vec!["context.artifacts[a1]", "context.artifacts[a2]"]);
    assert_eq!(validate_authorized_transformation(&swap, &source, &metadata()), Ok(()));
}

#[test]
fn unauthorized_transformations_are_refused() {
    let source = analysis_from_segments(FP.to_string(), FP.to_string(), segments(), vec![]).unwrap();
    let moved = vec!["context.artifacts[a1]", "context.artifacts[a2]"];
    let swap = || swap_candidate(&[0, 2, 1, 3, 4], vec![1, 2], vec![2, 1], moved.clone());

    let mut c = swap();
    c.transformations.push(c.transformations[0].clone());
    assert_eq!(
        validate_authorized_transformation(&c, &source, &metadata()),
        materialization_error(MaterializationErrorCode::UnsupportedTransformation, "materialization supports exactly one artifact reorder transformation")
    );
    let mut c = swap();
    c.transformations[0].kind = LayoutTransformationKind::RegionLocalMove;
    assert_eq!(validate_authorized_transformation(&c, &source, &metadata()), Ok(()));
    let mut c = swap();
    c.ordered_segments.pop();
    assert_eq!(
        validate_authorized_transformation(&c, &source, &metadata()),
        materialization_error(MaterializationErrorCode::ArtifactMissing, "candidate does not reference every source segment")
    );
    let c = swap_candidate(&[0, 2, 2, 3, 4], vec![1, 2], vec![2, 1], moved.clone());
    assert_eq!(
        validate_authorized_transformation(&c, &source, &metadata()),
        materialization_error(MaterializationErrorCode::ArtifactDuplicated, "candidate repeats a source segment occurrence")
    );
    let mut c = swap();
    c.ordered_segments[4].source_position = 9;
    assert_eq!(
        validate_authorized_transformation(&c, &source, &metadata()),
        materialization_error(MaterializationErrorCode::ArtifactMissing, "candidate references a missing source segment")
    );
    let mut c = swap();
    c.ordered_segments[1].role = ContextRole::ToolDefinition;
    assert_eq!(
        validate_authorized_transformation(&c, &source, &metadata()),
        materialization_error(MaterializationErrorCode::CandidateIdentityMismatch, "candidate segment identity does not match the source analysis")
    );
    let mut c = swap();
    c.ordered_segments[1].content_fingerprint = "changed".to_string();
    assert_eq!(
        validate_authorized_transformation(&c, &source, &metadata()),
        materialization_error(MaterializationErrorCode::ArtifactContentMismatch, "candidate segment content fingerprint changed")
    );
    let mut c = swap();
    c.ordered_segments[2].metadata_fingerprint = None;
    assert_eq!(
        validate_authorized_transformation(&c, &source, &metadata()),
        materialization_error(MaterializationErrorCode::TrustProvenanceMismatch, "candidate segment metadata identity changed")
    );
    let c = swap_candidate(&[1, 0, 2, 3, 4], vec![0, 1], vec![1, 0], vec!["context.system_instruction", "context.artifacts[a1]"]);
    assert_eq!(
        validate_authorized_transformation(&c, &source, &metadata()),
        materialization_error(MaterializationErrorCode::UnsupportedTransformation, "candidate transformation moves a fixed non-artifact segment")
    );
    let c = swap_candidate(&[0, 1, 2, 3, 4], vec![], vec![], vec![]);
    assert_eq!(
        validate_authorized_transformation(&c, &source, &metadata()),
        materialization_error(MaterializationErrorCode::UnsupportedTransformation, "candidate does not describe a concrete artifact reorder")
    );
    let c = swap_candidate(&[0, 2, 1, 3, 4], vec![2, 1], vec![1, 2], moved.clone());
    assert_eq!(
        validate_authorized_transformation(&c, &source, &metadata()),
        materialization_error(MaterializationErrorCode::UnsupportedTransformation, "candidate does not describe a concrete artifact reorder")
    );
}

#[test]
fn segment_metadata_is_conserved_across_a_reorder() {
    let source = analysis_from_segments(FP.to_string(), FP.to_string(), segments(), vec![]).unwrap();
    let mut reordered = segments();
    reordered.swap(1, 2);
    let materialized = analysis_from_segments(FP.to_string(), FP.to_string(), reordered.clone(), vec![]);
    assert!(materialized.is_err());
    reordered[1].position = 1;
    reordered[2].position = 2;
    let materialized = analysis_from_segments(FP.to_string(), FP.to_string(), reordered, vec![]).unwrap();
    let refs = swap_candidate(&[0, 2, 1, 3, 4], vec![1, 2], vec![2, 1], vec![]).ordered_segments;
    assert!(segment_metadata_conserved(&source, &materialized, &refs));
    let identity = swap_candidate(&[0, 1, 2, 3, 4], vec![], vec![], vec![]).ordered_segments;
    assert!(!segment_metadata_conserved(&source, &materialized, &identity));
    let mut changed = materialized.clone();
    changed.segments[1].transient = true;
    assert!(!segment_metadata_conserved(&source, &changed, &refs));
    assert!(equal_segment_metadata(&source.segments[1], &source.segments[1]));
    assert!(!equal_segment_metadata(&source.segments[1], &changed.segments[1]));
}

#[test]
fn metadata_availability_and_invariant_results() {
    let mut s = segments();
    s[2].classification_source = ClassificationSource::StructuralRole;
    let a = analysis_from_segments(FP.to_string(), FP.to_string(), s, vec![]).unwrap();
    let mut r = reference_to(&a.segments[2], None);
    assert!(metadata_unavailable(&a, &r));
    r.source_position = 1;
    assert!(!metadata_unavailable(&a, &r));
    r.source_position = 99;
    assert!(!metadata_unavailable(&a, &r));
    let results = invariant_results();
    assert_eq!(results.len(), 12);
    assert!(results.iter().all(|r| r.passed));
    assert_eq!(results[0].invariant, MaterializationInvariant::SourceIdentity);
    assert_eq!(results[11].invariant, MaterializationInvariant::StructuralReanalysis);
}

fn all_conserved() -> ConservationChecks {
    ConservationChecks {
        content: true,
        artifact: true,
        tool: true,
        envelope: true,
        trust: true,
        provenance: true,
        order_change_only: true,
    }
}

fn diff_reference() -> RequestDiffReference {
    RequestDiffReference {
        source_request_fingerprint: FP.to_string(),
        materialized_request_fingerprint: FP.to_string(),
        planned_diff_fingerprint: FP.to_string(),
        actual_diff_fingerprint: FP.to_string(),
    }
}

#[test]
fn a_conserving_materialization_is_certified() {
    let c = certify_materialization(all_conserved(), diff_reference()).unwrap();
    assert_eq!(c.certification_status, CertificationStatus::CertifiedForExperimentMaterialization);
    assert!(c.invariant_results.iter().all(|r| r.passed));
    assert_eq!(c.request_diff_reference, diff_reference());
    assert_eq!(c.provenance[0], ("evaluator".to_string(), "p0-l12-candidate-evaluation".to_string()));
    assert_eq!(c.provenance.len(), 5);
    assert!(c.validate().is_ok());
    let mut bad = diff_reference();
    bad.actual_diff_fingerprint = "short".to_string();
    assert!(matches!(certify_materialization(all_conserved(), bad), Err(BenchmarkError::Validation { .. })));
}

#[test]
fn the_first_failed_conservation_check_is_reported() {
    let refused = |checks: ConservationChecks, code: MaterializationErrorCode, message: &str| {
        assert_eq!(
            certify_materialization(checks, diff_reference()),
            Err(BenchmarkError::Materialization { code, message: message.to_string() })
        );
    };
    let mut c = all_conserved();
    c.order_change_only = false;
    refused(c, MaterializationErrorCode::UnexpectedContentChange, "materialization changed more than the authorized artifact order");
    c.provenance = false;
    refused(c, MaterializationErrorCode::TrustProvenanceMismatch, "trust or provenance metadata was not conserved");
    c.envelope = false;
    refused(c, MaterializationErrorCode::UnexpectedEnvelopeChange, "request envelope changed during materialization");
    c.tool = false;
    refused(c, MaterializationErrorCode::UnexpectedToolChange, "tool surface changed during materialization");
    c.artifact = false;
    refused(c, MaterializationErrorCode::ArtifactContentMismatch, "artifact content or occurrence multiset was not conserved");
}

#[test]
fn provenance_needs_metadata_fingerprints_where_metadata_was_supplied() {
    let mut s = segments();
    s[2].classification_source = ClassificationSource::Unknown;
    let a = analysis_from_segments(FP.to_string(), FP.to_string(), s, vec![]).unwrap();
    let with = swap_candidate(&[0, 2, 1, 3, 4], vec![], vec![], vec![]).ordered_segments;
    assert!(provenance_conserved(&a, &with));
    let mut without = with.clone();
    without[1].metadata_fingerprint = None;
    assert!(provenance_conserved(&a, &without));
    without[2].metadata_fingerprint = None;
    assert!(!provenance_conserved(&a, &without));
}
