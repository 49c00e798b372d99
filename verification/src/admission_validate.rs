//! Structural validation of external artifact admission manifests.
use vstd::prelude::*;
use vstd::string::*;
use crate::admission_model::{
    AdmissionValidationError, ArtifactContentEvidence, ContentSufficiency, EvidenceRecord,
    EvidenceReference, EvidenceState, ExternalArtifactAdmissionManifestV1, GoldIndependence,
    GoldIndependenceEvidence, JoinAmbiguity, JoinClassification, JoinKeyKind, MaterialEvidence,
    MaterialPresence, OperationEvidence, ParentProjectIdentity, PermissionBasis,
    PermissionEvidence, PresenceStatus, StableJoinEvidence, ThirdPartyMaterialEvidence,
    AdmissionError, ValidationFailure, EXTERNAL_ARTIFACT_ADMISSION_SCHEMA_ID, MAX_MANIFEST_BYTES,
    EXTERNAL_ARTIFACT_ADMISSION_SCHEMA_VERSION, MAX_ARTIFACT_ID, MAX_COUNT, MAX_LIST, MAX_LOCATOR,
    MAX_REVISION, MAX_SOURCE_OWNER, MAX_TEXT,
};
use crate::text::{concat2, concat3, decimal, decimal_string, owned, push_decimal, str_eq};

verus! {

/// Unicode control characters (general category Cc), as `char::is_control`.
pub open spec fn is_control(c: char) -> bool {
    (c as u32) <= 0x1f || (0x7f <= (c as u32) && (c as u32) <= 0x9f)
}

pub open spec fn fail(field: Seq<char>, message: Seq<char>) -> ValidationFailure {
    ValidationFailure::InvalidField { field, message }
}

/// The earlier of two checks: `a` when it failed, else `b`.
pub open spec fn first(a: Option<ValidationFailure>, b: Option<ValidationFailure>) -> Option<ValidationFailure> {
    if a is Some {
        a
    } else {
        b
    }
}

/// How a validation result reads: `None` on success, the failure otherwise.
pub open spec fn outcome(r: Result<(), AdmissionValidationError>) -> Option<ValidationFailure> {
    match r {
        Ok(_) => None,
        Err(e) => Some(e@),
    }
}

pub open spec fn has_control(value: Seq<char>) -> bool {
    exists|i: int| 0 <= i < value.len() && is_control(#[trigger] value[i])
}

/// A bounded text field: non-empty, at most `max` characters, no control character.
pub open spec fn check_bounded(value: Seq<char>, max: nat, field: Seq<char>) -> Option<ValidationFailure> {
    if value.len() == 0 {
        Some(fail(field, "must not be empty"@))
    } else if value.len() > max {
        Some(fail(field, "exceeds "@ + decimal(max) + " characters"@))
    } else if has_control(value) {
        Some(fail(field, "contains a control character"@))
    } else {
        None
    }
}

pub open spec fn check_optional_note(note: Option<String>, field: Seq<char>) -> Option<ValidationFailure> {
    match note {
        Some(n) => check_bounded(n@, MAX_TEXT as nat, field),
        None => None,
    }
}

pub open spec fn indexed_field(field: Seq<char>, index: int, suffix: Seq<char>) -> Seq<char> {
    field + "["@ + decimal(index as nat) + suffix
}

pub open spec fn check_reference(r: EvidenceReference, field: Seq<char>, index: int) -> Option<ValidationFailure> {
    first(
        check_bounded(r.locator@, MAX_LOCATOR as nat, indexed_field(field, index, "].locator"@)),
        check_optional_note(r.note, indexed_field(field, index, "].note"@)),
    )
}

pub open spec fn check_reference_items(refs: Seq<EvidenceReference>, field: Seq<char>, i: int) -> Option<ValidationFailure>
    decreases refs.len() - i,
{
    if i < 0 || i >= refs.len() {
        None
    } else {
        first(check_reference(refs[i], field, i), check_reference_items(refs, field, i + 1))
    }
}

pub open spec fn check_references(refs: Seq<EvidenceReference>, field: Seq<char>) -> Option<ValidationFailure> {
    if refs.len() > MAX_LIST {
        Some(fail(field, "contains more than 64 references"@))
    } else {
        check_reference_items(refs, field, 0)
    }
}

pub open spec fn check_record(record: EvidenceRecord, field: Seq<char>) -> Option<ValidationFailure> {
    first(
        check_references(record.references@, field + ".references"@),
        first(
            check_optional_note(record.note, field + ".note"@),
            if (record.state is Explicit || record.state is DeclaredButUnverified)
                && record.references.len() == 0 {
                Some(fail(field, "explicit or declared evidence requires a source reference"@))
            } else {
                None
            },
        ),
    )
}

pub open spec fn check_operation(op: OperationEvidence, field: Seq<char>) -> Option<ValidationFailure> {
    first(
        check_references(op.references@, field + ".references"@),
        first(
            check_optional_note(op.note, field + ".note"@),
            if (op.basis is PermittedExplicit || op.basis is PermittedByRecordedBasis)
                && op.references.len() == 0 {
                Some(fail(field, "permitted operation requires a source reference"@))
            } else {
                None
            },
        ),
    )
}

pub open spec fn check_permissions(p: PermissionEvidence) -> Option<ValidationFailure> {
    first(check_operation(p.metadata_inspection, "permission.metadata_inspection"@),
    first(check_operation(p.local_raw_download, "permission.local_raw_download"@),
    first(check_operation(p.local_raw_read_parse, "permission.local_raw_read_parse"@),
    first(check_operation(p.local_transformation, "permission.local_transformation"@),
    first(check_operation(p.retain_hashes_identifiers_aggregate_metrics,
        "permission.retain_hashes_identifiers_aggregate_metrics"@),
    first(check_operation(p.retain_bounded_structural_metadata,
        "permission.retain_bounded_structural_metadata"@),
    first(check_operation(p.retain_source_excerpts, "permission.retain_source_excerpts"@),
    first(check_operation(p.redistribute_raw_artifact, "permission.redistribute_raw_artifact"@),
    check_operation(p.vendor_raw_artifact, "permission.vendor_raw_artifact"@)))))))))
}

pub open spec fn check_material(m: MaterialEvidence, field: Seq<char>) -> Option<ValidationFailure> {
    first(
        check_references(m.references@, field + ".references"@),
        if !(m.status is Unknown) && m.references.len() == 0 {
            Some(fail(field, "explicit material status requires a source reference"@))
        } else {
            None
        },
    )
}

pub open spec fn check_third_party(t: ThirdPartyMaterialEvidence) -> Option<ValidationFailure> {
    first(check_material(t.source_code, "third_party_material.source_code"@),
    first(check_material(t.issue_or_pr_text, "third_party_material.issue_or_pr_text"@),
    first(check_material(t.patches, "third_party_material.patches"@),
    first(check_material(t.tests_or_test_patches, "third_party_material.tests_or_test_patches"@),
    first(check_material(t.tool_output_source_excerpts, "third_party_material.tool_output_source_excerpts"@),
    first(check_material(t.private_user_data, "third_party_material.private_user_data"@),
    check_material(t.unknown_third_party_material, "third_party_material.unknown_third_party_material"@)))))))
}

pub open spec fn check_count(count: Option<u64>, field: Seq<char>) -> Option<ValidationFailure> {
    match count {
        Some(c) => if c > MAX_COUNT {
            Some(fail(field, "exceeds bound 10000000"@))
        } else {
            None
        },
        None => None,
    }
}

pub open spec fn is_exact_join(c: JoinClassification) -> bool {
    c is ExactOneToOne || c is ExactOneToMany || c is ExactManyToOne
}

pub open spec fn check_join(j: StableJoinEvidence) -> Option<ValidationFailure> {
    let exact = is_exact_join(j.classification);
    first(check_bounded(j.left_identifier_description@, MAX_TEXT as nat,
        "stable_join.left_identifier_description"@),
    first(check_bounded(j.right_identifier_description@, MAX_TEXT as nat,
        "stable_join.right_identifier_description"@),
    first(check_count(j.expected_join_count, "stable_join.expected_join_count"@),
    first(check_count(j.observed_bounded_join_count, "stable_join.observed_bounded_join_count"@),
    if j.deterministic_exact_match != exact {
        Some(fail("stable_join.deterministic_exact_match"@, "does not agree with join classification"@))
    } else if exact && (j.key_kind is NoKey || !(j.ambiguity is NoAmbiguity)) {
        Some(fail("stable_join"@, "an exact join requires a key kind and no ambiguity"@))
    } else if j.classification is Ambiguous && j.ambiguity is NoAmbiguity {
        Some(fail("stable_join.ambiguity"@, "ambiguous classification requires an ambiguity marker"@))
    } else if !exact && !(j.key_kind is NoKey) && j.classification is NoJoin {
        Some(fail("stable_join.key_kind"@, "a missing join must use key_kind=NONE"@))
    } else {
        None
    }))))
}

pub open spec fn check_gold(g: GoldIndependenceEvidence) -> Option<ValidationFailure> {
    first(
        check_record(g.evidence_basis, "gold_independence.evidence_basis"@),
        if g.status is BlindToGold && (g.evidence_basis.state is Unknown
            || g.evidence_basis.state is Absent || g.evidence_basis.state is NotApplicable) {
            Some(fail("gold_independence"@, "BLIND_TO_GOLD requires a separately recorded evidence basis"@))
        } else {
            None
        },
    )
}

pub open spec fn check_content(c: ArtifactContentEvidence) -> Option<ValidationFailure> {
    if c.sufficiency is SufficientForFrontHalf && (!(c.chronology_or_order is ExplicitPresent)
        || !(c.stable_task_identity is ExplicitPresent) || (!(c.observations is ExplicitPresent)
        && !(c.edits_or_actions is ExplicitPresent) && !(c.tool_results is ExplicitPresent))) {
        Some(fail("content.sufficiency"@,
            "sufficient front-half content requires chronology, stable task identity, and observed action/result material"@))
    } else {
        None
    }
}

pub open spec fn check_parent(p: Option<ParentProjectIdentity>) -> Option<ValidationFailure> {
    match p {
        Some(parent) => first(
            check_bounded(parent.identifier@, MAX_ARTIFACT_ID as nat, "parent_project.identifier"@),
            check_bounded(parent.reference@, MAX_LOCATOR as nat, "parent_project.reference"@),
        ),
        None => None,
    }
}

/// The first failure of a manifest's validation, in the order the checks run;
/// `None` when the manifest is valid.
pub open spec fn manifest_check(m: ExternalArtifactAdmissionManifestV1) -> Option<ValidationFailure> {
    if m.schema_id@ != EXTERNAL_ARTIFACT_ADMISSION_SCHEMA_ID@ {
        Some(fail("schema_id"@, "must be prefixity.external-artifact-admission.v1"@))
    } else if m.schema_version != EXTERNAL_ARTIFACT_ADMISSION_SCHEMA_VERSION {
        Some(ValidationFailure::UnsupportedSchemaVersion {
            found: m.schema_version,
            expected: EXTERNAL_ARTIFACT_ADMISSION_SCHEMA_VERSION,
        })
    } else {
        first(check_bounded(m.artifact_id@, MAX_ARTIFACT_ID as nat, "artifact_id"@),
        first(check_bounded(m.canonical_source@, MAX_LOCATOR as nat, "canonical_source"@),
        first(check_bounded(m.source_owner@, MAX_SOURCE_OWNER as nat, "source_owner"@),
        first(check_bounded(m.immutable_revision@, MAX_REVISION as nat, "immutable_revision"@),
        first(check_references(m.provenance_evidence@, "provenance_evidence"@),
        first(check_parent(m.parent_project),
        first(check_record(m.framework_code_license, "framework_code_license"@),
        first(check_record(m.dataset_artifact_reuse, "dataset_artifact_reuse"@),
        first(check_record(m.underlying_third_party_material, "underlying_third_party_material"@),
        first(check_permissions(m.permission),
        first(check_third_party(m.third_party_material),
        first(check_join(m.stable_join),
        first(check_gold(m.gold_independence),
        check_content(m.content))))))))))))))
    }
}

/// A manifest passes validation.
pub open spec fn manifest_valid(m: ExternalArtifactAdmissionManifestV1) -> bool {
    manifest_check(m) is None
}

fn invalid(field: &str, message: String) -> (r: AdmissionValidationError)
    ensures
        r@ == fail(field@, message@),
{
    AdmissionValidationError::InvalidField { field: owned(field), message }
}

fn invalid_owned(field: String, message: String) -> (r: AdmissionValidationError)
    ensures
        r@ == fail(field@, message@),
{
    AdmissionValidationError::InvalidField { field, message }
}

fn validate_bounded(value: &str, maximum: usize, field: &str) -> (r: Result<(), AdmissionValidationError>)
    requires
        maximum <= u64::MAX,
    ensures
        outcome(r) == check_bounded(value@, maximum as nat, field@),
{
    let n = value.unicode_len();
    if n == 0 {
        return Err(invalid(field, owned("must not be empty")));
    }
    if n > maximum {
        let m = concat3("exceeds ", decimal_string(maximum as u64).as_str(), " characters");
        return Err(invalid(field, m));
    }
    let mut i: usize = 0;
    while i < n
        invariant
            n == value@.len(),
            0 < n <= maximum,
            i <= n,
            forall|j: int| 0 <= j < i ==> !is_control(#[trigger] value@[j]),
        decreases n - i,
    {
        let c = value.get_char(i);
        let code = c as u32;
        if code <= 0x1f || (0x7f <= code && code <= 0x9f) {
            assert(value@[i as int] == c);
            assert(is_control(value@[i as int]));
            assert(has_control(value@));
            return Err(invalid(field, owned("contains a control character")));
        }
        i = i + 1;
    }
    Ok(())
}

fn validate_bounded_at(value: &str, maximum: usize, field: String) -> (r: Result<(), AdmissionValidationError>)
    requires
        maximum <= u64::MAX,
    ensures
        outcome(r) == check_bounded(value@, maximum as nat, field@),
{
    match validate_bounded(value, maximum, field.as_str()) {
        Ok(()) => Ok(()),
        Err(e) => {
            match e {
                AdmissionValidationError::InvalidField { message, .. } => Err(invalid_owned(field, message)),
                AdmissionValidationError::UnsupportedSchemaVersion { found, expected } => {
                    Err(AdmissionValidationError::UnsupportedSchemaVersion { found, expected })
                },
            }
        },
    }
}

fn validate_note(note: &Option<String>, field: String) -> (r: Result<(), AdmissionValidationError>)
    ensures
        outcome(r) == check_optional_note(*note, field@),
{
    match note {
        Some(n) => validate_bounded_at(n.as_str(), MAX_TEXT, field),
        None => Ok(()),
    }
}

fn indexed(field: &str, index: usize, suffix: &str) -> (r: String)
    ensures
        r@ == indexed_field(field@, index as int, suffix@),
{
    let mut r = concat2(field, "[");
    push_decimal(&mut r, index as u64);
    r.append(suffix);
    r
}

fn validate_references(refs: &Vec<EvidenceReference>, field: &str) -> (r: Result<(), AdmissionValidationError>)
    ensures
        outcome(r) == check_references(refs@, field@),
{
    if refs.len() > MAX_LIST {
        return Err(invalid(field, owned("contains more than 64 references")));
    }
    let mut i: usize = 0;
    while i < refs.len()
        invariant
            i <= refs.len(),
            refs.len() <= MAX_LIST,
            check_reference_items(refs@, field@, 0) == check_reference_items(refs@, field@, i as int),
        decreases refs.len() - i,
    {
        let reference = &refs[i];
        let r1 = validate_bounded_at(reference.locator.as_str(), MAX_LOCATOR, indexed(field, i, "].locator"));
        if r1.is_err() {
            return r1;
        }
        let r2 = validate_note(&reference.note, indexed(field, i, "].note"));
        if r2.is_err() {
            return r2;
        }
        i = i + 1;
    }
    Ok(())
}

fn validate_record(record: &EvidenceRecord, field: &str) -> (r: Result<(), AdmissionValidationError>)
    ensures
        outcome(r) == check_record(*record, field@),
{
    let refs_field = concat2(field, ".references");
    let r1 = validate_references(&record.references, refs_field.as_str());
    if r1.is_err() {
        return r1;
    }
    let r2 = validate_note(&record.note, concat2(field, ".note"));
    if r2.is_err() {
        return r2;
    }
    let stated = match record.state {
        EvidenceState::Explicit | EvidenceState::DeclaredButUnverified => true,
        _ => false,
    };
    if stated && record.references.len() == 0 {
        return Err(invalid(field, owned("explicit or declared evidence requires a source reference")));
    }
    Ok(())
}

fn validate_operation(op: &OperationEvidence, field: &str) -> (r: Result<(), AdmissionValidationError>)
    ensures
        outcome(r) == check_operation(*op, field@),
{
    let refs_field = concat2(field, ".references");
    let r1 = validate_references(&op.references, refs_field.as_str());
    if r1.is_err() {
        return r1;
    }
    let r2 = validate_note(&op.note, concat2(field, ".note"));
    if r2.is_err() {
        return r2;
    }
    let permitted = match op.basis {
        PermissionBasis::PermittedExplicit | PermissionBasis::PermittedByRecordedBasis => true,
        _ => false,
    };
    if permitted && op.references.len() == 0 {
        return Err(invalid(field, owned("permitted operation requires a source reference")));
    }
    Ok(())
}

fn validate_permissions(p: &PermissionEvidence) -> (r: Result<(), AdmissionValidationError>)
    ensures
        outcome(r) == check_permissions(*p),
{
    let r = validate_operation(&p.metadata_inspection, "permission.metadata_inspection");
    if r.is_err() {
        return r;
    }
    let r = validate_operation(&p.local_raw_download, "permission.local_raw_download");
    if r.is_err() {
        return r;
    }
    let r = validate_operation(&p.local_raw_read_parse, "permission.local_raw_read_parse");
    if r.is_err() {
        return r;
    }
    let r = validate_operation(&p.local_transformation, "permission.local_transformation");
    if r.is_err() {
        return r;
    }
    let r = validate_operation(
        &p.retain_hashes_identifiers_aggregate_metrics,
        "permission.retain_hashes_identifiers_aggregate_metrics",
    );
    if r.is_err() {
        return r;
    }
    let r = validate_operation(
        &p.retain_bounded_structural_metadata,
        "permission.retain_bounded_structural_metadata",
    );
    if r.is_err() {
        return r;
    }
    let r = validate_operation(&p.retain_source_excerpts, "permission.retain_source_excerpts");
    if r.is_err() {
        return r;
    }
    let r = validate_operation(&p.redistribute_raw_artifact, "permission.redistribute_raw_artifact");
    if r.is_err() {
        return r;
    }
    validate_operation(&p.vendor_raw_artifact, "permission.vendor_raw_artifact")
}

fn validate_material(m: &MaterialEvidence, field: &str) -> (r: Result<(), AdmissionValidationError>)
    ensures
        outcome(r) == check_material(*m, field@),
{
    let refs_field = concat2(field, ".references");
    let r1 = validate_references(&m.references, refs_field.as_str());
    if r1.is_err() {
        return r1;
    }
    let unknown = match m.status {
        MaterialPresence::Unknown => true,
        _ => false,
    };
    if !unknown && m.references.len() == 0 {
        return Err(invalid(field, owned("explicit material status requires a source reference")));
    }
    Ok(())
}

fn validate_third_party(t: &ThirdPartyMaterialEvidence) -> (r: Result<(), AdmissionValidationError>)
    ensures
        outcome(r) == check_third_party(*t),
{
    let r = validate_material(&t.source_code, "third_party_material.source_code");
    if r.is_err() {
        return r;
    }
    let r = validate_material(&t.issue_or_pr_text, "third_party_material.issue_or_pr_text");
    if r.is_err() {
        return r;
    }
    let r = validate_material(&t.patches, "third_party_material.patches");
    if r.is_err() {
        return r;
    }
    let r = validate_material(&t.tests_or_test_patches, "third_party_material.tests_or_test_patches");
    if r.is_err() {
        return r;
    }
    let r = validate_material(
        &t.tool_output_source_excerpts,
        "third_party_material.tool_output_source_excerpts",
    );
    if r.is_err() {
        return r;
    }
    let r = validate_material(&t.private_user_data, "third_party_material.private_user_data");
    if r.is_err() {
        return r;
    }
    validate_material(
        &t.unknown_third_party_material,
        "third_party_material.unknown_third_party_material",
    )
}

fn validate_count(count: Option<u64>, field: &str) -> (r: Result<(), AdmissionValidationError>)
    ensures
        outcome(r) == check_count(count, field@),
{
    match count {
        Some(c) => if c > MAX_COUNT {
            Err(invalid(field, owned("exceeds bound 10000000")))
        } else {
            Ok(())
        },
        None => Ok(()),
    }
}

fn exact_join(c: JoinClassification) -> (r: bool)
    ensures
        r == is_exact_join(c),
{
    match c {
        JoinClassification::ExactOneToOne
        | JoinClassification::ExactOneToMany
        | JoinClassification::ExactManyToOne => true,
        _ => false,
    }
}

fn validate_join(j: &StableJoinEvidence) -> (r: Result<(), AdmissionValidationError>)
    ensures
        outcome(r) == check_join(*j),
{
    let r = validate_bounded(
        j.left_identifier_description.as_str(),
        MAX_TEXT,
        "stable_join.left_identifier_description",
    );
    if r.is_err() {
        return r;
    }
    let r = validate_bounded(
        j.right_identifier_description.as_str(),
        MAX_TEXT,
        "stable_join.right_identifier_description",
    );
    if r.is_err() {
        return r;
    }
    let r = validate_count(j.expected_join_count, "stable_join.expected_join_count");
    if r.is_err() {
        return r;
    }
    let r = validate_count(j.observed_bounded_join_count, "stable_join.observed_bounded_join_count");
    if r.is_err() {
        return r;
    }
    let exact = exact_join(j.classification);
    let no_key = j.key_kind == JoinKeyKind::NoKey;
    let no_ambiguity = j.ambiguity == JoinAmbiguity::NoAmbiguity;
    if j.deterministic_exact_match != exact {
        return Err(invalid(
            "stable_join.deterministic_exact_match",
            owned("does not agree with join classification"),
        ));
    }
    if exact && (no_key || !no_ambiguity) {
        return Err(invalid("stable_join", owned("an exact join requires a key kind and no ambiguity")));
    }
    if j.classification == JoinClassification::Ambiguous && no_ambiguity {
        return Err(invalid(
            "stable_join.ambiguity",
            owned("ambiguous classification requires an ambiguity marker"),
        ));
    }
    if !exact && !no_key && j.classification == JoinClassification::NoJoin {
        return Err(invalid("stable_join.key_kind", owned("a missing join must use key_kind=NONE")));
    }
    Ok(())
}

fn validate_gold(g: &GoldIndependenceEvidence) -> (r: Result<(), AdmissionValidationError>)
    ensures
        outcome(r) == check_gold(*g),
{
    let r = validate_record(&g.evidence_basis, "gold_independence.evidence_basis");
    if r.is_err() {
        return r;
    }
    let weak_basis = match g.evidence_basis.state {
        EvidenceState::Unknown | EvidenceState::Absent | EvidenceState::NotApplicable => true,
        _ => false,
    };
    if g.status == GoldIndependence::BlindToGold && weak_basis {
        return Err(invalid(
            "gold_independence",
            owned("BLIND_TO_GOLD requires a separately recorded evidence basis"),
        ));
    }
    Ok(())
}

fn validate_content(c: &ArtifactContentEvidence) -> (r: Result<(), AdmissionValidationError>)
    ensures
        outcome(r) == check_content(*c),
{
    let present = PresenceStatus::ExplicitPresent;
    if c.sufficiency == ContentSufficiency::SufficientForFrontHalf && (c.chronology_or_order != present
        || c.stable_task_identity != present || (c.observations != present && c.edits_or_actions
        != present && c.tool_results != present)) {
        return Err(invalid(
            "content.sufficiency",
            owned(
                "sufficient front-half content requires chronology, stable task identity, and observed action/result material",
            ),
        ));
    }
    Ok(())
}

fn validate_parent(p: &Option<ParentProjectIdentity>) -> (r: Result<(), AdmissionValidationError>)
    ensures
        outcome(r) == check_parent(*p),
{
    match p {
        Some(parent) => {
            let r = validate_bounded(parent.identifier.as_str(), MAX_ARTIFACT_ID, "parent_project.identifier");
            if r.is_err() {
                return r;
            }
            validate_bounded(parent.reference.as_str(), MAX_LOCATOR, "parent_project.reference")
        },
        None => Ok(()),
    }
}

/// Validates a manifest, returning the first failure in check order.
pub fn validate_manifest(manifest: &ExternalArtifactAdmissionManifestV1) -> (r: Result<(), AdmissionValidationError>)
    ensures
        outcome(r) == manifest_check(*manifest),
        r is Ok <==> manifest_valid(*manifest),
{
    if !str_eq(manifest.schema_id.as_str(), EXTERNAL_ARTIFACT_ADMISSION_SCHEMA_ID) {
        return Err(invalid("schema_id", owned("must be prefixity.external-artifact-admission.v1")));
    }
    if manifest.schema_version != EXTERNAL_ARTIFACT_ADMISSION_SCHEMA_VERSION {
        return Err(AdmissionValidationError::UnsupportedSchemaVersion {
            found: manifest.schema_version,
            expected: EXTERNAL_ARTIFACT_ADMISSION_SCHEMA_VERSION,
        });
    }
    let r = validate_bounded(manifest.artifact_id.as_str(), MAX_ARTIFACT_ID, "artifact_id");
    if r.is_err() {
        return r;
    }
    let r = validate_bounded(manifest.canonical_source.as_str(), MAX_LOCATOR, "canonical_source");
    if r.is_err() {
        return r;
    }
    let r = validate_bounded(manifest.source_owner.as_str(), MAX_SOURCE_OWNER, "source_owner");
    if r.is_err() {
        return r;
    }
    let r = validate_bounded(manifest.immutable_revision.as_str(), MAX_REVISION, "immutable_revision");
    if r.is_err() {
        return r;
    }
    let r = validate_references(&manifest.provenance_evidence, "provenance_evidence");
    if r.is_err() {
        return r;
    }
    let r = validate_parent(&manifest.parent_project);
    if r.is_err() {
        return r;
    }
    let r = validate_record(&manifest.framework_code_license, "framework_code_license");
    if r.is_err() {
        return r;
    }
    let r = validate_record(&manifest.dataset_artifact_reuse, "dataset_artifact_reuse");
    if r.is_err() {
        return r;
    }
    let r = validate_record(&manifest.underlying_third_party_material, "underlying_third_party_material");
    if r.is_err() {
        return r;
    }
    let r = validate_permissions(&manifest.permission);
    if r.is_err() {
        return r;
    }
    let r = validate_third_party(&manifest.third_party_material);
    if r.is_err() {
        return r;
    }
    let r = validate_join(&manifest.stable_join);
    if r.is_err() {
        return r;
    }
    let r = validate_gold(&manifest.gold_independence);
    if r.is_err() {
        return r;
    }
    validate_content(&manifest.content)
}

/// The size rule of manifest bytes: at most `MAX_MANIFEST_BYTES`.
pub fn check_manifest_size(len: usize) -> (r: Result<(), AdmissionError>)
    ensures
        r is Ok <==> len <= MAX_MANIFEST_BYTES,
        r is Err ==> r == Err::<(), AdmissionError>(AdmissionError::OversizedManifest),
{
    if len > MAX_MANIFEST_BYTES {
        Err(AdmissionError::OversizedManifest)
    } else {
        Ok(())
    }
}

/// Admits a decoded manifest that passes validation; a failure is reported
/// as the validation error it is.
pub fn admit_manifest(manifest: ExternalArtifactAdmissionManifestV1) -> (r: Result<ExternalArtifactAdmissionManifestV1, AdmissionError>)
    ensures
        match r {
            Ok(m) => m == manifest && manifest_valid(manifest),
            Err(AdmissionError::Validation(e)) => !manifest_valid(manifest) && Some(e@) == manifest_check(manifest),
            Err(_) => false,
        },
{
    match validate_manifest(&manifest) {
        Ok(_) => Ok(manifest),
        Err(e) => Err(AdmissionError::Validation(e)),
    }
}

} // verus!
