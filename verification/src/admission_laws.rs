//! Properties of admission decisions that hold for every manifest.
use vstd::prelude::*;
use crate::admission_model::{
    AdmissionDecision, AdmissionReasonCode, AdmissionWarningCode, ExternalArtifactAdmissionManifestV1,
    PublicAccessibility, ReasonView, RequestedUse,
};
use crate::admission_validate::{is_exact_join, manifest_check, manifest_valid};
use crate::admission_decide::{
    admissible_for, all_material_absent, any_blocking, blocking_decision_of, code_group,
    collected_reasons, decision_of, execution_reason, fh_content_reasons, fh_execution_reasons,
    fh_permission_reasons, fh_provenance_reasons, front_half_reasons, gold_reasons, has_group,
    join_reasons, operation_reasons, redistribution_reasons,
    redistribution_retention_safe, report_reasons, retention_reason,
    sensitive_retention_unsafe, admitted_reason, blocking_rv, collected_warnings, common_warnings, content_warning, network_warning, wv,
};

verus! {

/// Every blocking reason in `s` belongs to a blocking group.
pub open spec fn all_grouped(s: Seq<ReasonView>) -> bool {
    forall|i: int| 0 <= i < s.len() && #[trigger] s[i].blocking ==> code_group(s[i].code) != 0
}

/// No reason in `s` blocks.
pub open spec fn none_blocking(s: Seq<ReasonView>) -> bool {
    forall|i: int| 0 <= i < s.len() ==> !(#[trigger] s[i].blocking)
}

proof fn lemma_grouped_concat(a: Seq<ReasonView>, b: Seq<ReasonView>)
    requires
        all_grouped(a),
        all_grouped(b),
    ensures
        all_grouped(a + b),
{
    assert forall|i: int| 0 <= i < (a + b).len() && #[trigger] (a + b)[i].blocking implies code_group((a + b)[i].code) != 0 by {
        if i < a.len() {
            assert((a + b)[i] == a[i]);
        } else {
            assert((a + b)[i] == b[i - a.len()]);
        }
    }
}

proof fn lemma_none_blocking_split(a: Seq<ReasonView>, b: Seq<ReasonView>)
    requires
        none_blocking(a + b),
    ensures
        none_blocking(a),
        none_blocking(b),
{
    assert forall|i: int| 0 <= i < a.len() implies !(#[trigger] a[i].blocking) by {
        assert((a + b)[i] == a[i]);
    }
    assert forall|i: int| 0 <= i < b.len() implies !(#[trigger] b[i].blocking) by {
        assert((a + b)[a.len() + i] == b[i]);
    }
}

proof fn lemma_permission_grouped(m: ExternalArtifactAdmissionManifestV1)
    ensures
        all_grouped(fh_permission_reasons(m)),
{
    reveal(fh_permission_reasons);
    lemma_grouped_concat(
        operation_reasons(m.permission.local_raw_read_parse.basis, "permission.local_raw_read_parse"@, false, false),
        operation_reasons(m.permission.local_transformation.basis, "permission.local_transformation"@, false, false),
    );
}

proof fn lemma_provenance_grouped(m: ExternalArtifactAdmissionManifestV1)
    ensures
        all_grouped(fh_provenance_reasons(m)),
{
    reveal(fh_provenance_reasons);
}

proof fn lemma_content_grouped(m: ExternalArtifactAdmissionManifestV1, limited: bool)
    ensures
        all_grouped(fh_content_reasons(m, limited)),
{
    reveal(fh_content_reasons);
}

proof fn lemma_execution_grouped(m: ExternalArtifactAdmissionManifestV1)
    ensures
        all_grouped(fh_execution_reasons(m)),
{
    reveal(fh_execution_reasons);
    let e1 = execution_reason(m.execution.provider_model_inference, "execution.provider_model_inference"@);
    let e2 = execution_reason(m.execution.third_party_code_execution, "execution.third_party_code_execution"@);
    let e3 = execution_reason(m.execution.container_execution, "execution.container_execution"@);
    lemma_grouped_concat(e1, e2);
    lemma_grouped_concat(e1 + e2, e3);
}

proof fn lemma_front_half_grouped(m: ExternalArtifactAdmissionManifestV1, limited: bool)
    ensures
        all_grouped(front_half_reasons(m, limited)),
{
    let a = fh_permission_reasons(m);
    let b = fh_provenance_reasons(m);
    let c = join_reasons(m.stable_join.classification) + gold_reasons(m.gold_independence.status);
    let d = fh_content_reasons(m, limited);
    let e = fh_execution_reasons(m);
    lemma_permission_grouped(m);
    lemma_provenance_grouped(m);
    lemma_content_grouped(m, limited);
    lemma_execution_grouped(m);
    lemma_grouped_concat(join_reasons(m.stable_join.classification), gold_reasons(m.gold_independence.status));
    lemma_grouped_concat(a, b);
    lemma_grouped_concat(a + b, c);
    lemma_grouped_concat(a + b + c, d);
    lemma_grouped_concat(a + b + c + d, e);
}

/// Every blocking reason the rules can raise belongs to a blocking group.
proof fn lemma_blocking_reasons_have_groups(m: ExternalArtifactAdmissionManifestV1)
    ensures
        all_grouped(collected_reasons(m)),
{
    match m.requested_use {
        crate::admission_model::RequestedUse::MetadataResearch => {
            lemma_grouped_concat(
                operation_reasons(m.permission.metadata_inspection.basis, "permission.metadata_inspection"@, false, true),
                if sensitive_retention_unsafe(m.retention, false) {
                    retention_reason("metadata research may not track raw artifact or trajectory content in git"@)
                } else {
                    seq![]
                },
            );
        },
        crate::admission_model::RequestedUse::ExternalFrontHalfEvaluation => lemma_front_half_grouped(m, false),
        crate::admission_model::RequestedUse::LimitedPilot => lemma_front_half_grouped(m, true),
        crate::admission_model::RequestedUse::RawRedistribution => {
            let r = redistribution_reasons(m);
            assert forall|i: int| 0 <= i < r.len() && #[trigger] r[i].blocking implies code_group(r[i].code) != 0 by {
            }
        },
        crate::admission_model::RequestedUse::ReferenceOnly => {},
    }
}

/// A blocking reason in a sequence makes some group present.
proof fn lemma_blocking_gives_group(reasons: Seq<ReasonView>, i: int)
    requires
        0 <= i < reasons.len(),
        reasons[i].blocking,
        code_group(reasons[i].code) != 0,
    ensures
        blocking_decision_of(reasons) is Some,
{
    let g = code_group(reasons[i].code);
    assert(has_group(reasons, g));
}

/// With every blocking reason grouped, no blocked decision means nothing blocks.
proof fn lemma_admitted_means_none_blocking(m: ExternalArtifactAdmissionManifestV1)
    requires
        blocking_decision_of(collected_reasons(m)) is None,
    ensures
        none_blocking(collected_reasons(m)),
{
    let reasons = collected_reasons(m);
    lemma_blocking_reasons_have_groups(m);
    assert forall|i: int| 0 <= i < reasons.len() implies !(#[trigger] reasons[i].blocking) by {
        if reasons[i].blocking {
            lemma_blocking_gives_group(reasons, i);
        }
    }
}

/// A reference-only request of a valid manifest is always answered `ReferenceOnly`.
pub proof fn law_reference_only_is_reference_only(m: ExternalArtifactAdmissionManifestV1)
    requires
        manifest_valid(m),
        m.requested_use is ReferenceOnly,
    ensures
        decision_of(m) == AdmissionDecision::ReferenceOnly,
{
}

/// For any other request, the requested use is admitted exactly when the rules
/// raise no blocking reason; otherwise the decision is one of the blocked ones.
/// The report carries a blocking reason exactly when the rules raised one.
pub proof fn law_admitted_iff_nothing_blocks(m: ExternalArtifactAdmissionManifestV1)
    requires
        manifest_valid(m),
        !(m.requested_use is ReferenceOnly),
    ensures
        decision_of(m) == admissible_for(m.requested_use) <==> !any_blocking(collected_reasons(m)),
        any_blocking(collected_reasons(m)) ==> (decision_of(m) is BlockedPermission || decision_of(m) is BlockedProvenance
            || decision_of(m) is BlockedJoin || decision_of(m) is BlockedGoldIndependence
            || decision_of(m) is BlockedContentSufficiency || decision_of(m) is BlockedExecutionRequirement),
        any_blocking(report_reasons(m)) <==> any_blocking(collected_reasons(m)),
{
    let reasons = collected_reasons(m);
    lemma_blocking_reasons_have_groups(m);
    if any_blocking(reasons) {
        let i = choose|i: int| 0 <= i < reasons.len() && #[trigger] reasons[i].blocking;
        lemma_blocking_gives_group(reasons, i);
        assert(report_reasons(m)[i] == reasons[i]);
    } else {
        assert(!has_group(reasons, 1));
        assert(!has_group(reasons, 2));
        assert(!has_group(reasons, 3));
        assert(!has_group(reasons, 4));
        assert(!has_group(reasons, 5));
        assert(!has_group(reasons, 6));
        let full = report_reasons(m);
        assert forall|k: int| 0 <= k < full.len() implies !(#[trigger] full[k].blocking) by {
            if k < reasons.len() {
                assert(full[k] == reasons[k]);
            }
        }
    }
}

/// Public or ungated accessibility is technical accessibility, not permission:
/// the recorded accessibility changes neither validity nor the decision nor the
/// reasons.
#[verifier::spinoff_prover]
#[verifier::rlimit(60)]
pub proof fn law_accessibility_is_not_permission(m: ExternalArtifactAdmissionManifestV1, access: PublicAccessibility)
    ensures
        manifest_valid(ExternalArtifactAdmissionManifestV1 { public_accessibility: access, ..m }) == manifest_valid(m),
        decision_of(ExternalArtifactAdmissionManifestV1 { public_accessibility: access, ..m }) == decision_of(m),
        report_reasons(ExternalArtifactAdmissionManifestV1 { public_accessibility: access, ..m }) == report_reasons(m),
{
    let m2 = ExternalArtifactAdmissionManifestV1 { public_accessibility: access, ..m };
    assert(manifest_check(m2) == manifest_check(m));
    assert(collected_reasons(m2) == collected_reasons(m)) by {
        assert(fh_permission_reasons(m2) == fh_permission_reasons(m)) by {
            reveal(fh_permission_reasons);
        }
        assert(fh_provenance_reasons(m2) == fh_provenance_reasons(m)) by {
            reveal(fh_provenance_reasons);
        }
        assert(fh_content_reasons(m2, true) == fh_content_reasons(m, true)) by {
            reveal(fh_content_reasons);
        }
        assert(fh_content_reasons(m2, false) == fh_content_reasons(m, false)) by {
            reveal(fh_content_reasons);
        }
        assert(fh_execution_reasons(m2) == fh_execution_reasons(m)) by {
            reveal(fh_execution_reasons);
        }
    }
}

/// Raw redistribution is admitted only with explicit permission to
/// redistribute and to vendor the raw artifact, explicit reuse evidence, no
/// recorded third-party or unknown material, and explicit tracking of raw
/// content.
pub proof fn law_redistribution_needs_explicit_grounds(m: ExternalArtifactAdmissionManifestV1)
    requires
        manifest_valid(m),
        m.requested_use is RawRedistribution,
        decision_of(m) is AdmissibleRawRedistribution,
    ensures
        m.permission.redistribute_raw_artifact.basis is PermittedExplicit,
        m.permission.vendor_raw_artifact.basis is PermittedExplicit,
        m.dataset_artifact_reuse.state is Explicit,
        m.underlying_third_party_material.state is Explicit,
        all_material_absent(m.third_party_material),
        redistribution_retention_safe(m.retention),
{
    lemma_admitted_means_none_blocking(m);
    let r = redistribution_reasons(m);
    assert(r == collected_reasons(m));
    let a = operation_reasons(m.permission.redistribute_raw_artifact.basis, "permission.redistribute_raw_artifact"@, true, false);
    let b = operation_reasons(m.permission.vendor_raw_artifact.basis, "permission.vendor_raw_artifact"@, true, false);
    assert(r.len() >= (a + b).len());
    assert(r.subrange(0, (a + b).len() as int) =~= a + b);
    if a.len() > 0 {
        assert((a + b)[0] == a[0]);
        assert(r.subrange(0, (a + b).len() as int)[0] == r[0]);
        assert(a[0].blocking);
        assert(r[0] == a[0]);
    }
    if b.len() > 0 {
        assert((a + b)[a.len() as int] == b[0]);
        assert(r.subrange(0, (a + b).len() as int)[a.len() as int] == r[a.len() as int]);
        assert(b[0].blocking);
        assert(r[a.len() as int] == b[0]);
    }
    let k = (a + b).len() as int;
    if !(m.dataset_artifact_reuse.state is Explicit) || !(m.underlying_third_party_material.state is Explicit) {
        assert(r[k].blocking);
    }
    if !all_material_absent(m.third_party_material) {
        if (m.dataset_artifact_reuse.state is Explicit) && (m.underlying_third_party_material.state is Explicit) {
            assert(r[k].blocking);
        } else {
            assert(r[k + 1].blocking);
        }
    }
    if !redistribution_retention_safe(m.retention) {
        assert(r[r.len() - 1].blocking);
    }
}

/// A bounded local study (or limited pilot) is admitted only when private
/// data is explicitly absent, the join is exact, the evidence is blind to
/// gold, raw content is explicitly untracked, and no execution boundary is
/// required; a full local study also needs sufficient content.
pub proof fn law_front_half_needs_clearance(m: ExternalArtifactAdmissionManifestV1)
    requires
        manifest_valid(m),
        decision_of(m) is AdmissibleLocalStudy || decision_of(m) is AdmissibleLimitedPilot,
    ensures
        m.third_party_material.private_user_data.status is ExplicitAbsent,
        is_exact_join(m.stable_join.classification),
        m.gold_independence.status is BlindToGold,
        !sensitive_retention_unsafe(m.retention, true),
        m.execution.provider_model_inference is NotRequired,
        m.execution.third_party_code_execution is NotRequired,
        m.execution.container_execution is NotRequired,
        decision_of(m) is AdmissibleLocalStudy ==> m.content.sufficiency is SufficientForFrontHalf,
{
    lemma_admitted_means_none_blocking(m);
    let limited = m.requested_use is LimitedPilot;
    let a = fh_permission_reasons(m);
    let b = fh_provenance_reasons(m);
    let jr = join_reasons(m.stable_join.classification);
    let gr = gold_reasons(m.gold_independence.status);
    let d = fh_content_reasons(m, limited);
    let e = fh_execution_reasons(m);
    assert(collected_reasons(m) == a + b + (jr + gr) + d + e);
    lemma_none_blocking_split(a + b + (jr + gr) + d, e);
    lemma_none_blocking_split(a + b + (jr + gr), d);
    lemma_none_blocking_split(a + b, jr + gr);
    lemma_none_blocking_split(a, b);
    lemma_none_blocking_split(jr, gr);
    reveal(fh_provenance_reasons);
    reveal(fh_content_reasons);
    reveal(fh_execution_reasons);
    let p1 = if m.provenance_evidence.len() == 0 || m.underlying_third_party_material.state is Unknown
        || m.underlying_third_party_material.state is Absent {
        seq![crate::admission_decide::blocking_rv(crate::admission_model::AdmissionReasonCode::ProvenanceIncomplete,
            "provenance_evidence"@, "bounded local research lacks a complete recorded provenance basis"@)]
    } else {
        seq![]
    };
    assert(b =~= p1 + b.skip(p1.len() as int));
    lemma_none_blocking_split(p1, b.skip(p1.len() as int));
    if !(m.third_party_material.private_user_data.status is ExplicitAbsent) {
        assert(b[b.len() - 1].blocking);
    }
    if !is_exact_join(m.stable_join.classification) {
        assert(jr[0].blocking);
    }
    if !(m.gold_independence.status is BlindToGold) {
        assert(gr[0].blocking);
    }
    if sensitive_retention_unsafe(m.retention, true) {
        assert(d[d.len() - 1].blocking);
    }
    let e1 = execution_reason(m.execution.provider_model_inference, "execution.provider_model_inference"@);
    let e2 = execution_reason(m.execution.third_party_code_execution, "execution.third_party_code_execution"@);
    let e3 = execution_reason(m.execution.container_execution, "execution.container_execution"@);
    assert(e == e1 + e2 + e3);
    lemma_none_blocking_split(e1 + e2, e3);
    lemma_none_blocking_split(e1, e2);
    if !(m.execution.provider_model_inference is NotRequired) {
        assert(e1[0].blocking);
    }
    if !(m.execution.third_party_code_execution is NotRequired) {
        assert(e2[0].blocking);
    }
    if !(m.execution.container_execution is NotRequired) {
        assert(e3[0].blocking);
    }
    if decision_of(m) is AdmissibleLocalStudy {
        assert(!limited);
        if !(m.content.sufficiency is SufficientForFrontHalf) {
            assert(d[0].blocking);
        }
    }
}

proof fn lemma_has_group_concat(a: Seq<ReasonView>, b: Seq<ReasonView>, g: int)
    ensures
        has_group(a + b, g) <==> has_group(a, g) || has_group(b, g),
{
    let c = a + b;
    if has_group(c, g) {
        let i = choose|i: int| 0 <= i < c.len() && #[trigger] c[i].blocking && code_group(c[i].code) == g;
        if i < a.len() {
            assert(a[i] == c[i]);
        } else {
            assert(b[i - a.len()] == c[i]);
        }
    }
    if has_group(a, g) {
        let i = choose|i: int| 0 <= i < a.len() && #[trigger] a[i].blocking && code_group(a[i].code) == g;
        assert(c[i] == a[i]);
    }
    if has_group(b, g) {
        let i = choose|i: int| 0 <= i < b.len() && #[trigger] b[i].blocking && code_group(b[i].code) == g;
        assert(c[i + a.len()] == b[i]);
    }
}

proof fn lemma_one_more_blocking_reason(
    prefix: Seq<ReasonView>,
    x: ReasonView,
    rest: Seq<ReasonView>,
    g: int,
)
    requires
        x.blocking,
    ensures
        has_group(prefix + (seq![x] + rest), g) <==> (g == code_group(x.code) || has_group(prefix + (Seq::empty() + rest), g)),
{
    lemma_has_group_concat(prefix, seq![x] + rest, g);
    lemma_has_group_concat(prefix, Seq::empty() + rest, g);
    lemma_has_group_concat(seq![x], rest, g);
    lemma_has_group_concat(Seq::empty(), rest, g);
    assert(seq![x][0] == x);
    if g == code_group(x.code) {
        assert(has_group(seq![x], g));
    }
    if has_group(seq![x], g) {
        assert(g == code_group(x.code));
    }
    assert(!has_group(Seq::<ReasonView>::empty(), g));
}

pub open spec fn as_pilot(m: ExternalArtifactAdmissionManifestV1) -> ExternalArtifactAdmissionManifestV1 {
    ExternalArtifactAdmissionManifestV1 { requested_use: RequestedUse::LimitedPilot, ..m }
}

pub open spec fn as_study(m: ExternalArtifactAdmissionManifestV1) -> ExternalArtifactAdmissionManifestV1 {
    ExternalArtifactAdmissionManifestV1 { requested_use: RequestedUse::ExternalFrontHalfEvaluation, ..m }
}

spec fn study_prefix(m: ExternalArtifactAdmissionManifestV1) -> Seq<ReasonView> {
    fh_permission_reasons(m) + fh_provenance_reasons(m)
        + (join_reasons(m.stable_join.classification) + gold_reasons(m.gold_independence.status))
}

spec fn retention_part(m: ExternalArtifactAdmissionManifestV1) -> Seq<ReasonView> {
    if sensitive_retention_unsafe(m.retention, true) {
        retention_reason("raw artifact and third-party content are not excluded from tracked Prefixity data"@)
    } else {
        seq![]
    }
}

spec fn insufficient_reason() -> ReasonView {
    blocking_rv(AdmissionReasonCode::ContentInsufficient, "content.sufficiency"@,
        "the artifact does not record sufficient chronological/context evidence"@)
}

proof fn lemma_limited_content_reasons(m: ExternalArtifactAdmissionManifestV1)
    requires
        m.content.sufficiency is Limited,
    ensures
        collected_reasons(as_pilot(m)) == (study_prefix(m) + (Seq::empty() + retention_part(m))) + fh_execution_reasons(m),
        collected_reasons(as_study(m))
            == (study_prefix(m) + (seq![insufficient_reason()] + retention_part(m))) + fh_execution_reasons(m),
{
    reveal(fh_permission_reasons);
    reveal(fh_provenance_reasons);
    reveal(fh_content_reasons);
    reveal(fh_execution_reasons);
    assert(fh_content_reasons(as_pilot(m), true) =~= Seq::empty() + retention_part(m));
    assert(fh_content_reasons(as_study(m), false) =~= seq![insufficient_reason()] + retention_part(m));
}

spec fn no_insufficient(s: Seq<ReasonView>) -> bool {
    forall|i: int| 0 <= i < s.len() ==> (#[trigger] s[i]).code != AdmissionReasonCode::ContentInsufficient
}

proof fn lemma_no_insufficient_concat(a: Seq<ReasonView>, b: Seq<ReasonView>)
    requires
        no_insufficient(a),
        no_insufficient(b),
    ensures
        no_insufficient(a + b),
{
    assert forall|i: int| 0 <= i < (a + b).len() implies (#[trigger] (a + b)[i]).code != AdmissionReasonCode::ContentInsufficient by {
        if i < a.len() {
            assert((a + b)[i] == a[i]);
        } else {
            assert((a + b)[i] == b[i - a.len()]);
        }
    }
}

proof fn lemma_no_insufficient_outside_content(m: ExternalArtifactAdmissionManifestV1)
    ensures
        no_insufficient(study_prefix(m)),
        no_insufficient(retention_part(m)),
        no_insufficient(fh_execution_reasons(m)),
{
    assert(no_insufficient(fh_permission_reasons(m))) by {
        reveal(fh_permission_reasons);
        let x = operation_reasons(m.permission.local_raw_read_parse.basis, "permission.local_raw_read_parse"@, false, false);
        let y = operation_reasons(m.permission.local_transformation.basis, "permission.local_transformation"@, false, false);
        lemma_no_insufficient_concat(x, y);
    }
    assert(no_insufficient(fh_provenance_reasons(m))) by {
        reveal(fh_provenance_reasons);
    }
    let jg = join_reasons(m.stable_join.classification) + gold_reasons(m.gold_independence.status);
    assert(no_insufficient(jg)) by {
        lemma_no_insufficient_concat(join_reasons(m.stable_join.classification), gold_reasons(m.gold_independence.status));
    }
    lemma_no_insufficient_concat(fh_permission_reasons(m), fh_provenance_reasons(m));
    lemma_no_insufficient_concat(fh_permission_reasons(m) + fh_provenance_reasons(m), jg);
    assert(no_insufficient(fh_execution_reasons(m))) by {
        reveal(fh_execution_reasons);
        let x = execution_reason(m.execution.provider_model_inference, "execution.provider_model_inference"@);
        let y = execution_reason(m.execution.third_party_code_execution, "execution.third_party_code_execution"@);
        let z = execution_reason(m.execution.container_execution, "execution.container_execution"@);
        lemma_no_insufficient_concat(x, y);
        lemma_no_insufficient_concat(x + y, z);
    }
}

/// Limited content blocks a full front-half study but only warns a limited
/// pilot: for a manifest whose content is limited, the pilot request raises no
/// insufficient-content reason and warns that content is limited, the full
/// study request raises a blocking insufficient-content reason at
/// `content.sufficiency` and no such warning, and when the pilot is admitted
/// the full study is blocked for content sufficiency.
#[verifier::spinoff_prover]
#[verifier::rlimit(80)]
pub proof fn law_limited_content_blocks_only_the_full_study(m: ExternalArtifactAdmissionManifestV1)
    requires
        m.content.sufficiency is Limited,
    ensures
        forall|i: int| 0 <= i < report_reasons(as_pilot(m)).len()
            ==> (#[trigger] report_reasons(as_pilot(m))[i]).code != AdmissionReasonCode::ContentInsufficient,
        collected_warnings(as_pilot(m)).contains(wv(AdmissionWarningCode::ContentLimited, "content.sufficiency"@,
            "limited content supports only a bounded pilot, not a full front-half claim"@)),
        report_reasons(as_study(m)).contains(blocking_rv(AdmissionReasonCode::ContentInsufficient,
            "content.sufficiency"@, "the artifact does not record sufficient chronological/context evidence"@)),
        forall|i: int| 0 <= i < collected_warnings(as_study(m)).len()
            ==> (#[trigger] collected_warnings(as_study(m))[i]).code != AdmissionWarningCode::ContentLimited,
        decision_of(as_pilot(m)) == AdmissionDecision::AdmissibleLimitedPilot
            ==> decision_of(as_study(m)) == AdmissionDecision::BlockedContentSufficiency,
{
    lemma_limited_content_reasons(m);
    let prefix = study_prefix(m);
    let ret = retention_part(m);
    let e = fh_execution_reasons(m);
    let rp = collected_reasons(as_pilot(m));
    let rs = collected_reasons(as_study(m));
    assert(no_insufficient(report_reasons(as_pilot(m)))) by {
        lemma_no_insufficient_outside_content(m);
        lemma_no_insufficient_concat(Seq::empty(), ret);
        lemma_no_insufficient_concat(prefix, Seq::empty() + ret);
        lemma_no_insufficient_concat(prefix + (Seq::empty() + ret), e);
        let admitted = if !any_blocking(rp) { seq![admitted_reason(decision_of(as_pilot(m)))] } else { seq![] };
        assert(no_insufficient(admitted));
        lemma_no_insufficient_concat(rp, admitted);
    }
    assert(report_reasons(as_study(m)).contains(insufficient_reason())) by {
        let k = prefix.len() as int;
        assert(rs[k] == insufficient_reason());
        assert(report_reasons(as_study(m))[k] == rs[k]);
    }
    assert(collected_warnings(as_pilot(m)).contains(wv(AdmissionWarningCode::ContentLimited, "content.sufficiency"@,
        "limited content supports only a bounded pilot, not a full front-half claim"@))) by {
        let wp = collected_warnings(as_pilot(m));
        let cw = common_warnings(as_pilot(m));
        assert(wp =~= cw + (content_warning(as_pilot(m), true) + network_warning(as_pilot(m))));
        assert(wp[cw.len() as int] == content_warning(as_pilot(m), true)[0]);
    }
    assert forall|i: int| 0 <= i < collected_warnings(as_study(m)).len()
        implies (#[trigger] collected_warnings(as_study(m))[i]).code != AdmissionWarningCode::ContentLimited by {
        let ws = collected_warnings(as_study(m));
        let cw = common_warnings(as_study(m));
        assert(content_warning(as_study(m), false) =~= Seq::empty());
        assert(ws =~= cw + (Seq::empty() + network_warning(as_study(m))));
        if i < cw.len() {
            assert(ws[i] == cw[i]);
        }
    }
    if decision_of(as_pilot(m)) == AdmissionDecision::AdmissibleLimitedPilot {
        assert(blocking_decision_of(rp) is None);
        assert forall|g: int| 1 <= g <= 6 implies (has_group(rs, g) <==> (g == 5 || has_group(rp, g))) by {
            lemma_has_group_concat(prefix + (seq![insufficient_reason()] + ret), e, g);
            lemma_has_group_concat(prefix + (Seq::empty() + ret), e, g);
            lemma_one_more_blocking_reason(prefix, insufficient_reason(), ret, g);
        }
        assert(has_group(rs, 5));
        assert(!has_group(rs, 1) && !has_group(rs, 2) && !has_group(rs, 3) && !has_group(rs, 4));
    }
}

/// A reason code about provenance: incomplete provenance, uncleared private
/// data, or unsafe raw retention.
pub open spec fn provenance_code(c: AdmissionReasonCode) -> bool {
    c == AdmissionReasonCode::ProvenanceIncomplete || c == AdmissionReasonCode::PrivateDataNotCleared
        || c == AdmissionReasonCode::RawRetentionNotSafe
}

/// A reason code about permission.
pub open spec fn permission_code(c: AdmissionReasonCode) -> bool {
    c == AdmissionReasonCode::PermissionNotEstablished || c == AdmissionReasonCode::PermissionNotExplicit
        || c == AdmissionReasonCode::MetadataPermissionNotEstablished || c == AdmissionReasonCode::RedistributionNotExplicit
}

/// Blocks are attributed to the rule that raised them: when some reason
/// blocks and every blocking reason is about provenance (incomplete
/// provenance, uncleared private data, unsafe raw retention), the blocked
/// decision is `BlockedProvenance`; a `BlockedPermission` decision comes only
/// from a blocking permission reason, and a `BlockedProvenance` one only from
/// a blocking provenance reason with no blocking permission reason.
pub proof fn law_blocks_follow_their_rule(reasons: Seq<ReasonView>)
    ensures
        (exists|i: int| 0 <= i < reasons.len() && #[trigger] reasons[i].blocking)
            && (forall|i: int| 0 <= i < reasons.len() && #[trigger] reasons[i].blocking ==> provenance_code(reasons[i].code))
            ==> blocking_decision_of(reasons) == Some(AdmissionDecision::BlockedProvenance),
        blocking_decision_of(reasons) == Some(AdmissionDecision::BlockedPermission)
            ==> exists|i: int| 0 <= i < reasons.len() && #[trigger] reasons[i].blocking && permission_code(reasons[i].code),
        blocking_decision_of(reasons) == Some(AdmissionDecision::BlockedProvenance) ==> {
            &&& exists|i: int| 0 <= i < reasons.len() && #[trigger] reasons[i].blocking && provenance_code(reasons[i].code)
            &&& forall|i: int| 0 <= i < reasons.len() && #[trigger] reasons[i].blocking ==> !permission_code(reasons[i].code)
        },
{
    if (exists|i: int| 0 <= i < reasons.len() && #[trigger] reasons[i].blocking)
        && (forall|i: int| 0 <= i < reasons.len() && #[trigger] reasons[i].blocking ==> provenance_code(reasons[i].code)) {
        let i = choose|i: int| 0 <= i < reasons.len() && #[trigger] reasons[i].blocking;
        assert(code_group(reasons[i].code) == 2);
        assert(has_group(reasons, 2));
        assert(!has_group(reasons, 1)) by {
            if has_group(reasons, 1) {
                let k = choose|k: int| 0 <= k < reasons.len() && #[trigger] reasons[k].blocking && code_group(reasons[k].code) == 1;
                assert(provenance_code(reasons[k].code));
            }
        }
    }
    if blocking_decision_of(reasons) == Some(AdmissionDecision::BlockedPermission) {
        let k = choose|k: int| 0 <= k < reasons.len() && #[trigger] reasons[k].blocking && code_group(reasons[k].code) == 1;
        assert(permission_code(reasons[k].code));
    }
    if blocking_decision_of(reasons) == Some(AdmissionDecision::BlockedProvenance) {
        let k = choose|k: int| 0 <= k < reasons.len() && #[trigger] reasons[k].blocking && code_group(reasons[k].code) == 2;
        assert(provenance_code(reasons[k].code));
        assert forall|i: int| 0 <= i < reasons.len() && #[trigger] reasons[i].blocking implies !permission_code(reasons[i].code) by {
            if permission_code(reasons[i].code) {
                assert(code_group(reasons[i].code) == 1);
                assert(has_group(reasons, 1));
            }
        }
    }
}

/// For a manifest whose requested use is not reference-only, a request
/// blocked only by provenance reasons is decided `BlockedProvenance`.
pub proof fn law_provenance_blocks_decide_provenance(m: ExternalArtifactAdmissionManifestV1)
    requires
        !(m.requested_use is ReferenceOnly),
        exists|i: int| 0 <= i < collected_reasons(m).len() && #[trigger] collected_reasons(m)[i].blocking,
        forall|i: int| 0 <= i < collected_reasons(m).len() && #[trigger] collected_reasons(m)[i].blocking
            ==> provenance_code(collected_reasons(m)[i].code),
    ensures
        decision_of(m) == AdmissionDecision::BlockedProvenance,
{
    law_blocks_follow_their_rule(collected_reasons(m));
}

/// Which rule a reason code is raised by, in the order the rules take
/// precedence: 1 permission, 2 provenance, 3 join, 4 gold independence,
/// 5 content, 6 execution; 0 for codes that never block a decision.
pub open spec fn rule_rank(c: AdmissionReasonCode) -> int {
    if permission_code(c) {
        1
    } else if provenance_code(c) {
        2
    } else if c == AdmissionReasonCode::JoinAmbiguous || c == AdmissionReasonCode::JoinUnavailable {
        3
    } else if c == AdmissionReasonCode::GoldConditioned || c == AdmissionReasonCode::GoldIndependenceUnknown {
        4
    } else if c == AdmissionReasonCode::ContentInsufficient {
        5
    } else if c == AdmissionReasonCode::ExecutionRequirementNotCleared {
        6
    } else {
        0
    }
}

/// The block each rule decides.
pub open spec fn rule_block(rank: int) -> AdmissionDecision {
    if rank == 1 {
        AdmissionDecision::BlockedPermission
    } else if rank == 2 {
        AdmissionDecision::BlockedProvenance
    } else if rank == 3 {
        AdmissionDecision::BlockedJoin
    } else if rank == 4 {
        AdmissionDecision::BlockedGoldIndependence
    } else if rank == 5 {
        AdmissionDecision::BlockedContentSufficiency
    } else {
        AdmissionDecision::BlockedExecutionRequirement
    }
}

/// The blocked decision is the block of the highest-precedence rule among
/// the blocking reasons: when a blocking reason of rule `g` exists and no
/// blocking reason of an earlier rule does, the decision is rule `g`'s
/// block; with no blocking reason of any rule there is no block.
pub proof fn law_block_of_the_first_blocking_rule(reasons: Seq<ReasonView>, i: int)
    ensures
        0 <= i < reasons.len() && reasons[i].blocking && 1 <= rule_rank(reasons[i].code)
            && (forall|k: int| 0 <= k < reasons.len() && #[trigger] reasons[k].blocking && 1 <= rule_rank(reasons[k].code)
                ==> rule_rank(reasons[i].code) <= rule_rank(reasons[k].code))
            ==> blocking_decision_of(reasons) == Some(rule_block(rule_rank(reasons[i].code))),
        (forall|k: int| 0 <= k < reasons.len() && #[trigger] reasons[k].blocking ==> rule_rank(reasons[k].code) == 0)
            ==> blocking_decision_of(reasons) is None,
{
    assert forall|c: AdmissionReasonCode| #[trigger] code_group(c) == rule_rank(c) by {
        match c {
            AdmissionReasonCode::AdmittedForLocalStudy => {},
            AdmissionReasonCode::AdmittedForLimitedPilot => {},
            AdmissionReasonCode::AdmittedForMetadataResearch => {},
            AdmissionReasonCode::AdmittedForRawRedistribution => {},
            AdmissionReasonCode::ContentInsufficient => {},
            AdmissionReasonCode::DatasetReuseEvidenceNotExplicit => {},
            AdmissionReasonCode::ExecutionRequirementNotCleared => {},
            AdmissionReasonCode::GoldConditioned => {},
            AdmissionReasonCode::GoldIndependenceUnknown => {},
            AdmissionReasonCode::InvalidManifest => {},
            AdmissionReasonCode::JoinAmbiguous => {},
            AdmissionReasonCode::JoinUnavailable => {},
            AdmissionReasonCode::MetadataPermissionNotEstablished => {},
            AdmissionReasonCode::PermissionNotEstablished => {},
            AdmissionReasonCode::PermissionNotExplicit => {},
            AdmissionReasonCode::PrivateDataNotCleared => {},
            AdmissionReasonCode::ProvenanceIncomplete => {},
            AdmissionReasonCode::RawRetentionNotSafe => {},
            AdmissionReasonCode::RedistributionNotExplicit => {},
        }
    }
    if 0 <= i < reasons.len() && reasons[i].blocking && 1 <= rule_rank(reasons[i].code)
        && (forall|k: int| 0 <= k < reasons.len() && #[trigger] reasons[k].blocking && 1 <= rule_rank(reasons[k].code)
            ==> rule_rank(reasons[i].code) <= rule_rank(reasons[k].code)) {
        let g = rule_rank(reasons[i].code);
        assert(code_group(reasons[i].code) == g);
        assert(has_group(reasons, g));
        assert forall|h: int| 1 <= h < g implies !has_group(reasons, h) by {
            if has_group(reasons, h) {
                let k = choose|k: int| 0 <= k < reasons.len() && #[trigger] reasons[k].blocking && code_group(reasons[k].code) == h;
                assert(code_group(reasons[k].code) == rule_rank(reasons[k].code));
            }
        }
    }
    if forall|k: int| 0 <= k < reasons.len() && #[trigger] reasons[k].blocking ==> rule_rank(reasons[k].code) == 0 {
        assert forall|h: int| 1 <= h <= 6 implies !has_group(reasons, h) by {
            if has_group(reasons, h) {
                let k = choose|k: int| 0 <= k < reasons.len() && #[trigger] reasons[k].blocking && code_group(reasons[k].code) == h;
                assert(code_group(reasons[k].code) == rule_rank(reasons[k].code));
            }
        }
    }
}

} // verus!
