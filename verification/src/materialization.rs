//! Certificates and experiment pairs of candidate materialization.
use vstd::prelude::*;
use vstd::string::StrSliceExecFns;
use vstd::utf8::{encode_utf8, is_ascii_chars, is_ascii_chars_encode_utf8};
use crate::canonical::{
    candidate_experiment_pair_json, candidate_experiment_pair_text,
    materialization_safety_certificate_json, materialization_safety_certificate_text,
};
use crate::conformance::{request_json, request_ok, text_fingerprint, ConformanceRequest};
use crate::diff::{CacheImpactAssessment, ChangeCategory, DiffState, RequestDiff};
use crate::error::{checked, in_memory_validation, BenchmarkError, MaterializationErrorCode};
use crate::fields::{bounded_text, check_bounded_text, is_white_space};
use crate::hashing::{hex_lower, is_lower_hex_char, lemma_hex_lower_shape, sha256_digest, sha256_hex};
use crate::json::{array_value, json_array, json_number, json_string, number_value, string_map, string_map_value, string_value};
use crate::loader::json_digest;
use crate::ordering::{check_keys_sorted, keys_sorted, views};
use crate::text::{concat2, opt_view, owned, seq_lt, str_eq};
use crate::candidate_evaluation::{CandidateEvaluation, ClaimPermission, EvidenceBlocker};
use crate::context_stability::{
    ClassificationSource, ContextRole, ContextSegmentAnalysis, ContextStabilityAnalysis, Observed, TrustLevel,
};
use crate::layout_planner::{
    lemma_distinct_order_is_permutation, moves_listed, new_position, new_position_of, transformation_for_order,
    CandidateSafetyStatus, LayoutCandidate, LayoutSegmentReference, LayoutTransformationKind,
};
use crate::pair_shape::same_opt_str;

verus! {

pub const MATERIALIZATION_SCHEMA_ID: &'static str = "prefixity.candidate-materialization";
pub const MATERIALIZATION_SCHEMA_VERSION: u32 = 1;
pub const SAFETY_CERTIFICATE_SCHEMA_ID: &'static str = "prefixity.materialization-safety-certificate";
pub const SAFETY_CERTIFICATE_SCHEMA_VERSION: u32 = 1;
pub const EXPERIMENT_PAIR_SCHEMA_ID: &'static str = "prefixity.candidate-experiment-pair";
pub const EXPERIMENT_PAIR_SCHEMA_VERSION: u32 = 1;
pub const MAX_MATERIALIZATION_PROVENANCE: usize = 16;
pub const MAX_EXPERIMENT_CASE_ID_BYTES: usize = 256;

#[derive(Debug, Clone, Copy, PartialEq, Eq, Structural)]
pub enum CertificationStatus {
    CertifiedForExperimentMaterialization,
    Rejected,
}

#[derive(Debug, Clone, Copy, PartialEq, Eq, Ord, PartialOrd, Structural)]
pub enum MaterializationInvariant {
    SourceIdentity,
    CandidateIdentity,
    AuthorizedTransformation,
    ContentConservation,
    ArtifactConservation,
    ToolConservation,
    EnvelopeConservation,
    TrustConservation,
    ProvenanceConservation,
    OrderChangeOnly,
    RequestDiffAgreement,
    StructuralReanalysis,
}

#[derive(Debug, Clone, PartialEq, Eq)]
pub struct InvariantResult {
    pub invariant: MaterializationInvariant,
    pub passed: bool,
}

#[derive(Debug, Clone, PartialEq, Eq)]
pub struct RequestDiffReference {
    pub source_request_fingerprint: String,
    pub materialized_request_fingerprint: String,
    pub planned_diff_fingerprint: String,
    pub actual_diff_fingerprint: String,
}

#[derive(Debug, Clone, PartialEq)]
pub struct MaterializationSafetyCertificate {
    pub schema_id: String,
    pub schema_version: u32,
    pub source_identity_verified: bool,
    pub candidate_identity_verified: bool,
    pub authorized_transformation_verified: bool,
    pub content_conservation: bool,
    pub artifact_conservation: bool,
    pub tool_conservation: bool,
    pub envelope_conservation: bool,
    pub trust_conservation: bool,
    pub provenance_conservation: bool,
    pub order_change_only: bool,
    pub request_diff_reference: RequestDiffReference,
    pub invariant_results: Vec<InvariantResult>,
    pub certification_status: CertificationStatus,
    pub provenance: Vec<(String, String)>,
}

#[derive(Debug, Clone, PartialEq, Eq)]
pub struct CandidateExperimentPair {
    pub schema_id: String,
    pub schema_version: u32,
    pub source_request_fingerprint: String,
    pub candidate_request_fingerprint: String,
    pub candidate_fingerprint: String,
    pub safety_certificate_fingerprint: String,
    pub source_case_id: String,
    pub candidate_case_id: String,
    pub pair_fingerprint: String,
    pub provenance: Vec<(String, String)>,
}

pub open spec fn is_ascii_hex_byte(b: u8) -> bool {
    (48 <= b <= 57) || (65 <= b <= 70) || (97 <= b <= 102)
}

/// A SHA-256 fingerprint: 64 hexadecimal digits of either case.
pub open spec fn is_fingerprint(s: Seq<char>) -> bool {
    let b = encode_utf8(s);
    &&& b.len() == 64
    &&& forall|i: int| 0 <= i < b.len() ==> is_ascii_hex_byte(#[trigger] b[i])
}

/// Not blank and at most `MAX_EXPERIMENT_CASE_ID_BYTES` bytes.
pub open spec fn materialization_text(s: Seq<char>) -> bool {
    bounded_text(s, MAX_EXPERIMENT_CASE_ID_BYTES as int)
}

/// At most `MAX_MATERIALIZATION_PROVENANCE` entries of bounded texts, each
/// key once and in key order.
pub open spec fn materialization_provenance_ok(p: Seq<(String, String)>) -> bool {
    &&& p.len() <= MAX_MATERIALIZATION_PROVENANCE
    &&& forall|i: int| 0 <= i < p.len() ==> materialization_text((#[trigger] p[i]).0@) && materialization_text(p[i].1@)
    &&& keys_sorted(p)
}

/// The invariants of a certificate, in the order they are reported.
pub open spec fn invariant_order() -> Seq<MaterializationInvariant> {
    seq![
        MaterializationInvariant::SourceIdentity,
        MaterializationInvariant::CandidateIdentity,
        MaterializationInvariant::AuthorizedTransformation,
        MaterializationInvariant::ContentConservation,
        MaterializationInvariant::ArtifactConservation,
        MaterializationInvariant::ToolConservation,
        MaterializationInvariant::EnvelopeConservation,
        MaterializationInvariant::TrustConservation,
        MaterializationInvariant::ProvenanceConservation,
        MaterializationInvariant::OrderChangeOnly,
        MaterializationInvariant::RequestDiffAgreement,
        MaterializationInvariant::StructuralReanalysis,
    ]
}

impl MaterializationSafetyCertificate {
    /// The outcome each reported invariant must carry, in report order.
    pub open spec fn expected_outcomes(self) -> Seq<bool> {
        seq![
            self.source_identity_verified,
            self.candidate_identity_verified,
            self.authorized_transformation_verified,
            self.content_conservation,
            self.artifact_conservation,
            self.tool_conservation,
            self.envelope_conservation,
            self.trust_conservation,
            self.provenance_conservation,
            self.order_change_only,
            true,
            true,
        ]
    }

    /// A complete, deterministic and successful certification.
    pub open spec fn certificate_ok(self) -> bool {
        &&& self.schema_id@ == SAFETY_CERTIFICATE_SCHEMA_ID@
        &&& self.schema_version == SAFETY_CERTIFICATE_SCHEMA_VERSION
        &&& materialization_provenance_ok(self.provenance@)
        &&& is_fingerprint(self.request_diff_reference.source_request_fingerprint@)
        &&& is_fingerprint(self.request_diff_reference.materialized_request_fingerprint@)
        &&& is_fingerprint(self.request_diff_reference.planned_diff_fingerprint@)
        &&& is_fingerprint(self.request_diff_reference.actual_diff_fingerprint@)
        &&& self.invariant_results.len() == 12
        &&& forall|i: int| 0 <= i < 12 ==> (#[trigger] self.invariant_results@[i]).invariant == invariant_order()[i]
            && self.invariant_results@[i].passed == self.expected_outcomes()[i]
        &&& self.certification_status is CertifiedForExperimentMaterialization
        &&& forall|i: int| 0 <= i < 12 ==> #[trigger] self.expected_outcomes()[i]
    }

    #[verifier::rlimit(40)]
    fn expected(&self) -> (r: Vec<(MaterializationInvariant, bool)>)
        ensures
            r.len() == 12,
            forall|i: int| 0 <= i < 12 ==> (#[trigger] r@[i]).0 == invariant_order()[i] && r@[i].1 == self.expected_outcomes()[i],
    {
        let mut r: Vec<(MaterializationInvariant, bool)> = Vec::new();
        r.push((MaterializationInvariant::SourceIdentity, self.source_identity_verified));
        r.push((MaterializationInvariant::CandidateIdentity, self.candidate_identity_verified));
        r.push((MaterializationInvariant::AuthorizedTransformation, self.authorized_transformation_verified));
        r.push((MaterializationInvariant::ContentConservation, self.content_conservation));
        r.push((MaterializationInvariant::ArtifactConservation, self.artifact_conservation));
        r.push((MaterializationInvariant::ToolConservation, self.tool_conservation));
        r.push((MaterializationInvariant::EnvelopeConservation, self.envelope_conservation));
        r.push((MaterializationInvariant::TrustConservation, self.trust_conservation));
        r.push((MaterializationInvariant::ProvenanceConservation, self.provenance_conservation));
        r.push((MaterializationInvariant::OrderChangeOnly, self.order_change_only));
        r.push((MaterializationInvariant::RequestDiffAgreement, true));
        r.push((MaterializationInvariant::StructuralReanalysis, true));
        proof {
            let order = invariant_order();
            let outcomes = self.expected_outcomes();
            assert(r@ =~= Seq::new(12, |i: int| (order[i], outcomes[i])));
        }
        r
    }

    /// Checks that the certificate records a complete successful certification.
    pub fn validate(&self) -> (r: Result<(), BenchmarkError>)
        ensures
            checked(r, self.certificate_ok()),
    {
        if !str_eq(self.schema_id.as_str(), SAFETY_CERTIFICATE_SCHEMA_ID)
            || self.schema_version != SAFETY_CERTIFICATE_SCHEMA_VERSION
        {
            return Err(BenchmarkError::validation("unsupported materialization safety certificate schema"));
        }
        let r = validate_materialization_provenance(&self.provenance, "certificate provenance");
        if r.is_err() {
            return r;
        }
        let d = &self.request_diff_reference;
        let r = validate_fingerprint(d.source_request_fingerprint.as_str(), "certificate source request fingerprint");
        if r.is_err() {
            return r;
        }
        let r = validate_fingerprint(d.materialized_request_fingerprint.as_str(), "certificate materialized request fingerprint");
        if r.is_err() {
            return r;
        }
        let r = validate_fingerprint(d.planned_diff_fingerprint.as_str(), "certificate planned diff fingerprint");
        if r.is_err() {
            return r;
        }
        let r = validate_fingerprint(d.actual_diff_fingerprint.as_str(), "certificate actual diff fingerprint");
        if r.is_err() {
            return r;
        }
        let expected = self.expected();
        if self.invariant_results.len() != 12 {
            return Err(BenchmarkError::validation("materialization certificate invariants are incomplete or non-deterministic"));
        }
        let mut i: usize = 0;
        while i < 12
            invariant
                i <= 12,
                self.invariant_results.len() == 12,
                expected.len() == 12,
                forall|j: int| 0 <= j < 12 ==> (#[trigger] expected@[j]).0 == invariant_order()[j] && expected@[j].1 == self.expected_outcomes()[j],
                forall|j: int| 0 <= j < i ==> (#[trigger] self.invariant_results@[j]).invariant == invariant_order()[j]
                    && self.invariant_results@[j].passed == self.expected_outcomes()[j],
            decreases 12 - i,
        {
            let actual = &self.invariant_results[i];
            if actual.invariant != expected[i].0 || actual.passed != expected[i].1 {
                proof {
                    assert(expected@[i as int].0 == invariant_order()[i as int]);
                }
                return Err(BenchmarkError::validation("materialization certificate invariants are incomplete or non-deterministic"));
            }
            i = i + 1;
        }
        let mut all_passed = true;
        let mut i: usize = 0;
        while i < 12
            invariant
                i <= 12,
                expected.len() == 12,
                forall|j: int| 0 <= j < 12 ==> (#[trigger] expected@[j]).1 == self.expected_outcomes()[j],
                all_passed == forall|j: int| 0 <= j < i ==> #[trigger] self.expected_outcomes()[j],
            decreases 12 - i,
        {
            proof {
                assert(expected@[i as int].1 == self.expected_outcomes()[i as int]);
            }
            if !expected[i].1 {
                all_passed = false;
            }
            i = i + 1;
        }
        if self.certification_status != CertificationStatus::CertifiedForExperimentMaterialization || !all_passed {
            return Err(BenchmarkError::validation("materialization certificate is not a successful certification"));
        }
        Ok(())
    }

    /// The canonical JSON of a valid certificate.
    pub fn canonical_json(&self) -> (r: Result<Vec<u8>, BenchmarkError>)
        ensures
            match r {
                Ok(b) => self.certificate_ok() && b@ == encode_utf8(materialization_safety_certificate_json(*self)),
                Err(e) => !self.certificate_ok() && in_memory_validation(e),
            },
    {
        match self.validate() {
            Ok(_) => {
                let text = materialization_safety_certificate_text(self);
                Ok(text.as_str().as_bytes_vec())
            },
            Err(e) => Err(e),
        }
    }
}

/// A candidate request materialized for an experiment, with the
/// fingerprints that trace it to its source, candidate and evaluation, and
/// its safety certificate. `provenance` is a map, held as key/value pairs
/// in key order.
#[derive(Debug)]
pub struct MaterializedCandidate {
    pub schema_id: String,
    pub schema_version: u32,
    pub source_request_fingerprint: String,
    pub candidate_fingerprint: String,
    pub evaluation_fingerprint: String,
    pub materialized_request: ConformanceRequest,
    pub materialized_request_fingerprint: String,
    pub safety_certificate: MaterializationSafetyCertificate,
    pub provenance: Vec<(String, String)>,
}

impl MaterializedCandidate {
    /// The schema, the four fingerprints, a valid materialized request whose
    /// fingerprint is the recorded one, a certificate that names the same
    /// source and materialized requests and is itself valid, and bounded
    /// provenance.
    pub open spec fn materialized_ok(self) -> bool {
        &&& self.schema_id@ == MATERIALIZATION_SCHEMA_ID@
        &&& self.schema_version == MATERIALIZATION_SCHEMA_VERSION
        &&& is_fingerprint(self.source_request_fingerprint@)
        &&& is_fingerprint(self.candidate_fingerprint@)
        &&& is_fingerprint(self.evaluation_fingerprint@)
        &&& is_fingerprint(self.materialized_request_fingerprint@)
        &&& request_ok(self.materialized_request)
        &&& self.materialized_request_fingerprint@ == text_fingerprint(request_json(self.materialized_request))
        &&& self.safety_certificate.request_diff_reference.source_request_fingerprint@ == self.source_request_fingerprint@
        &&& self.safety_certificate.request_diff_reference.materialized_request_fingerprint@
            == self.materialized_request_fingerprint@
        &&& self.safety_certificate.certificate_ok()
        &&& materialization_provenance_ok(self.provenance@)
    }

    /// Checks the materialized candidate (see `materialized_ok`).
    pub fn validate(&self) -> (r: Result<(), BenchmarkError>)
        ensures
            checked(r, self.materialized_ok()),
    {
        if !str_eq(self.schema_id.as_str(), MATERIALIZATION_SCHEMA_ID) || self.schema_version != MATERIALIZATION_SCHEMA_VERSION {
            return Err(BenchmarkError::validation("unsupported materialized candidate schema"));
        }
        let r = validate_fingerprint(self.source_request_fingerprint.as_str(), "source request fingerprint");
        if r.is_err() {
            return r;
        }
        let r = validate_fingerprint(self.candidate_fingerprint.as_str(), "candidate fingerprint");
        if r.is_err() {
            return r;
        }
        let r = validate_fingerprint(self.evaluation_fingerprint.as_str(), "evaluation fingerprint");
        if r.is_err() {
            return r;
        }
        let r = validate_fingerprint(self.materialized_request_fingerprint.as_str(), "materialized request fingerprint");
        if r.is_err() {
            return r;
        }
        let fingerprint = match self.materialized_request.request_fingerprint() {
            Ok(f) => f,
            Err(e) => return Err(e),
        };
        if !str_eq(fingerprint.as_str(), self.materialized_request_fingerprint.as_str()) {
            return Err(BenchmarkError::validation("materialized request fingerprint is not traceable"));
        }
        let d = &self.safety_certificate.request_diff_reference;
        if !str_eq(d.source_request_fingerprint.as_str(), self.source_request_fingerprint.as_str())
            || !str_eq(d.materialized_request_fingerprint.as_str(), self.materialized_request_fingerprint.as_str())
        {
            return Err(BenchmarkError::validation("materialization certificate request identity is not traceable"));
        }
        let r = self.safety_certificate.validate();
        if r.is_err() {
            return r;
        }
        validate_materialization_provenance(&self.provenance, "materialization provenance")
    }
}

/// Lowercase hexadecimal digits of a SHA-256 digest form a fingerprint.
pub proof fn lemma_hex_fingerprint(bytes: Seq<u8>)
    requires
        hex_lower(bytes).len() == 64,
    ensures
        is_fingerprint(hex_lower(bytes)),
{
    let h = hex_lower(bytes);
    lemma_hex_lower_shape(bytes);
    assert forall|i: int| 0 <= i < h.len() implies '\0' <= #[trigger] h[i] <= '\u{7f}' by {
        assert(is_lower_hex_char(h[i]));
    }
    assert(is_ascii_chars(h));
    is_ascii_chars_encode_utf8(h);
    assert forall|i: int| 0 <= i < encode_utf8(h).len() implies is_ascii_hex_byte(#[trigger] encode_utf8(h)[i]) by {
        assert(is_lower_hex_char(h[i]));
    }
}

/// The experiment pair of a valid materialized candidate: the source and
/// materialized requests under the two case IDs, traced to the candidate
/// and to the fingerprint of the safety certificate's canonical record,
/// with its identity fingerprint. It fails when the candidate, the
/// provenance or a case ID is invalid, or the case IDs are equal.
#[verifier::spinoff_prover]
#[verifier::rlimit(50)]
pub fn build_candidate_experiment_pair(
    materialized: &MaterializedCandidate,
    source_case_id: String,
    candidate_case_id: String,
    provenance: Vec<(String, String)>,
) -> (r: Result<CandidateExperimentPair, BenchmarkError>)
    ensures
        r is Ok <==> materialized.materialized_ok() && materialization_provenance_ok(provenance@)
            && materialization_text(source_case_id@) && materialization_text(candidate_case_id@)
            && source_case_id@ != candidate_case_id@,
        r is Err ==> in_memory_validation(r->Err_0),
        r matches Ok(p) ==> {
            &&& p.pair_ok()
            &&& p.source_request_fingerprint@ == materialized.source_request_fingerprint@
            &&& p.candidate_request_fingerprint@ == materialized.materialized_request_fingerprint@
            &&& p.candidate_fingerprint@ == materialized.candidate_fingerprint@
            &&& p.safety_certificate_fingerprint@
                == json_digest(materialization_safety_certificate_json(materialized.safety_certificate))
            &&& p.source_case_id == source_case_id
            &&& p.candidate_case_id == candidate_case_id
            &&& p.provenance == provenance
        },
{
    let r = materialized.validate();
    match r {
        Ok(_) => {},
        Err(e) => return Err(e),
    }
    let r = validate_materialization_provenance(&provenance, "materialization provenance");
    match r {
        Ok(_) => {},
        Err(e) => return Err(e),
    }
    let r = validate_case_id(source_case_id.as_str());
    match r {
        Ok(_) => {},
        Err(e) => return Err(e),
    }
    let r = validate_case_id(candidate_case_id.as_str());
    match r {
        Ok(_) => {},
        Err(e) => return Err(e),
    }
    if str_eq(source_case_id.as_str(), candidate_case_id.as_str()) {
        return Err(BenchmarkError::validation("control and candidate case IDs must differ"));
    }
    assemble_pair(
        &materialized.source_request_fingerprint,
        &materialized.materialized_request_fingerprint,
        &materialized.candidate_fingerprint,
        &materialized.safety_certificate,
        source_case_id,
        candidate_case_id,
        provenance,
    )
}

#[verifier::spinoff_prover]
fn assemble_pair(
    source_request_fingerprint: &String,
    candidate_request_fingerprint: &String,
    candidate_fingerprint: &String,
    certificate: &MaterializationSafetyCertificate,
    source_case_id: String,
    candidate_case_id: String,
    provenance: Vec<(String, String)>,
) -> (r: Result<CandidateExperimentPair, BenchmarkError>)
    requires
        is_fingerprint(source_request_fingerprint@),
        is_fingerprint(candidate_request_fingerprint@),
        is_fingerprint(candidate_fingerprint@),
        materialization_provenance_ok(provenance@),
        materialization_text(source_case_id@),
        materialization_text(candidate_case_id@),
        source_case_id@ != candidate_case_id@,
    ensures
        r matches Ok(p) && p.pair_ok() && p.source_request_fingerprint@ == source_request_fingerprint@
            && p.candidate_request_fingerprint@ == candidate_request_fingerprint@
            && p.candidate_fingerprint@ == candidate_fingerprint@
            && p.safety_certificate_fingerprint@ == json_digest(materialization_safety_certificate_json(*certificate))
            && p.source_case_id == source_case_id && p.candidate_case_id == candidate_case_id
            && p.provenance == provenance,
{
    let text = materialization_safety_certificate_text(certificate);
    let certificate_fingerprint = sha256_hex(text.as_str().as_bytes());
    proof {
        lemma_hex_fingerprint(sha256_digest(encode_utf8(text@)));
    }
    let mut pair = CandidateExperimentPair {
        schema_id: owned(EXPERIMENT_PAIR_SCHEMA_ID),
        schema_version: EXPERIMENT_PAIR_SCHEMA_VERSION,
        source_request_fingerprint: source_request_fingerprint.clone(),
        candidate_request_fingerprint: candidate_request_fingerprint.clone(),
        candidate_fingerprint: candidate_fingerprint.clone(),
        safety_certificate_fingerprint: certificate_fingerprint,
        source_case_id,
        candidate_case_id,
        pair_fingerprint: String::new(),
        provenance,
    };
    pair.pair_fingerprint = pair_fingerprint(&pair);
    proof {
        lemma_hex_fingerprint(sha256_digest(encode_utf8(pair_identity_json(pair))));
        assert(pair.pair_ok());
    }
    let r = pair.validate();
    match r {
        Ok(_) => Ok(pair),
        Err(e) => Err(e),
    }
}

/// The JSON array that identifies an experiment pair.
pub open spec fn pair_identity_json(p: CandidateExperimentPair) -> Seq<char> {
    json_array(seq![
        json_string(p.schema_id@),
        json_number(p.schema_version as nat),
        json_string(p.source_request_fingerprint@),
        json_string(p.candidate_request_fingerprint@),
        json_string(p.candidate_fingerprint@),
        json_string(p.safety_certificate_fingerprint@),
        json_string(p.source_case_id@),
        json_string(p.candidate_case_id@),
        string_map(p.provenance@),
    ])
}

/// The deterministic fingerprint of an experiment pair's identity.
pub open spec fn pair_fingerprint_of(p: CandidateExperimentPair) -> Seq<char> {
    json_digest(pair_identity_json(p))
}

impl CandidateExperimentPair {
    pub open spec fn pair_ok(self) -> bool {
        &&& self.schema_id@ == EXPERIMENT_PAIR_SCHEMA_ID@
        &&& self.schema_version == EXPERIMENT_PAIR_SCHEMA_VERSION
        &&& is_fingerprint(self.source_request_fingerprint@)
        &&& is_fingerprint(self.candidate_request_fingerprint@)
        &&& is_fingerprint(self.candidate_fingerprint@)
        &&& is_fingerprint(self.safety_certificate_fingerprint@)
        &&& is_fingerprint(self.pair_fingerprint@)
        &&& materialization_text(self.source_case_id@)
        &&& materialization_text(self.candidate_case_id@)
        &&& self.source_case_id@ != self.candidate_case_id@
        &&& materialization_provenance_ok(self.provenance@)
        &&& self.pair_fingerprint@ == pair_fingerprint_of(self)
    }

    /// Checks the pair's fingerprints, case IDs, provenance and identity.
    pub fn validate(&self) -> (r: Result<(), BenchmarkError>)
        ensures
            checked(r, self.pair_ok()),
    {
        if !str_eq(self.schema_id.as_str(), EXPERIMENT_PAIR_SCHEMA_ID)
            || self.schema_version != EXPERIMENT_PAIR_SCHEMA_VERSION
        {
            return Err(BenchmarkError::validation("unsupported candidate experiment pair schema"));
        }
        let r = validate_fingerprint(self.source_request_fingerprint.as_str(), "source request fingerprint");
        if r.is_err() {
            return r;
        }
        let r = validate_fingerprint(self.candidate_request_fingerprint.as_str(), "candidate request fingerprint");
        if r.is_err() {
            return r;
        }
        let r = validate_fingerprint(self.candidate_fingerprint.as_str(), "candidate fingerprint");
        if r.is_err() {
            return r;
        }
        let r = validate_fingerprint(self.safety_certificate_fingerprint.as_str(), "safety certificate fingerprint");
        if r.is_err() {
            return r;
        }
        let r = validate_fingerprint(self.pair_fingerprint.as_str(), "pair fingerprint");
        if r.is_err() {
            return r;
        }
        let r = validate_case_id(self.source_case_id.as_str());
        if r.is_err() {
            return r;
        }
        let r = validate_case_id(self.candidate_case_id.as_str());
        if r.is_err() {
            return r;
        }
        if str_eq(self.source_case_id.as_str(), self.candidate_case_id.as_str()) {
            return Err(BenchmarkError::validation("control and candidate case IDs must differ"));
        }
        let r = validate_materialization_provenance(&self.provenance, "materialization provenance");
        if r.is_err() {
            return r;
        }
        let expected = pair_fingerprint(self);
        if !str_eq(self.pair_fingerprint.as_str(), expected.as_str()) {
            return Err(BenchmarkError::validation("candidate experiment pair fingerprint is not deterministic"));
        }
        Ok(())
    }

    /// The canonical JSON of a valid pair.
    pub fn canonical_json(&self) -> (r: Result<Vec<u8>, BenchmarkError>)
        ensures
            match r {
                Ok(b) => self.pair_ok() && b@ == encode_utf8(candidate_experiment_pair_json(*self)),
                Err(e) => !self.pair_ok() && in_memory_validation(e),
            },
    {
        match self.validate() {
            Ok(_) => {
                let text = candidate_experiment_pair_text(self);
                Ok(text.as_str().as_bytes_vec())
            },
            Err(e) => Err(e),
        }
    }
}

/// The fingerprint of the pair's identity fields.
fn pair_fingerprint(p: &CandidateExperimentPair) -> (r: String)
    ensures
        r@ == pair_fingerprint_of(*p),
        r@.len() == 64,
{
    let mut items: Vec<String> = Vec::new();
    items.push(string_value(p.schema_id.as_str()));
    items.push(number_value(p.schema_version as u64));
    items.push(string_value(p.source_request_fingerprint.as_str()));
    items.push(string_value(p.candidate_request_fingerprint.as_str()));
    items.push(string_value(p.candidate_fingerprint.as_str()));
    items.push(string_value(p.safety_certificate_fingerprint.as_str()));
    items.push(string_value(p.source_case_id.as_str()));
    items.push(string_value(p.candidate_case_id.as_str()));
    items.push(string_map_value(&p.provenance));
    let text = array_value(&items);
    proof {
        assert(views(items@) =~= seq![
            json_string(p.schema_id@),
            json_number(p.schema_version as nat),
            json_string(p.source_request_fingerprint@),
            json_string(p.candidate_request_fingerprint@),
            json_string(p.candidate_fingerprint@),
            json_string(p.safety_certificate_fingerprint@),
            json_string(p.source_case_id@),
            json_string(p.candidate_case_id@),
            string_map(p.provenance@),
        ]);
    }
    sha256_hex(text.as_str().as_bytes())
}

pub(crate) fn validate_fingerprint(value: &str, field: &str) -> (r: Result<(), BenchmarkError>)
    ensures
        checked(r, is_fingerprint(value@)),
{
    let b = value.as_bytes();
    if b.len() != 64 {
        return Err(BenchmarkError::validation_owned(concat2(field, " must be a SHA-256 fingerprint")));
    }
    let mut i: usize = 0;
    while i < b.len()
        invariant
            i <= b.len(),
            b@ == encode_utf8(value@),
            forall|j: int| 0 <= j < i ==> is_ascii_hex_byte(#[trigger] b@[j]),
        decreases b.len() - i,
    {
        let c = b[i];
        if !((48 <= c && c <= 57) || (65 <= c && c <= 70) || (97 <= c && c <= 102)) {
            return Err(BenchmarkError::validation_owned(concat2(field, " must be a SHA-256 fingerprint")));
        }
        i = i + 1;
    }
    Ok(())
}

fn validate_materialization_text(value: &str, field: &str) -> (r: Result<(), BenchmarkError>)
    ensures
        checked(r, materialization_text(value@)),
{
    if check_bounded_text(value, MAX_EXPERIMENT_CASE_ID_BYTES) {
        Ok(())
    } else {
        Err(BenchmarkError::validation_owned(concat2(field, " must be non-empty and bounded")))
    }
}

fn validate_case_id(value: &str) -> (r: Result<(), BenchmarkError>)
    ensures
        checked(r, materialization_text(value@)),
{
    validate_materialization_text(value, "experiment case ID")
}

fn validate_materialization_provenance(provenance: &Vec<(String, String)>, field: &str) -> (r: Result<(), BenchmarkError>)
    ensures
        checked(r, materialization_provenance_ok(provenance@)),
{
    if provenance.len() > MAX_MATERIALIZATION_PROVENANCE {
        return Err(BenchmarkError::validation_owned(concat2(field, " exceeds its bound")));
    }
    let mut i: usize = 0;
    while i < provenance.len()
        invariant
            i <= provenance.len(),
            forall|j: int| 0 <= j < i ==> materialization_text((#[trigger] provenance@[j]).0@) && materialization_text(provenance@[j].1@),
        decreases provenance.len() - i,
    {
        let r = validate_materialization_text(provenance[i].0.as_str(), field);
        if r.is_err() {
            return r;
        }
        let r = validate_materialization_text(provenance[i].1.as_str(), field);
        if r.is_err() {
            return r;
        }
        i = i + 1;
    }
    if !check_keys_sorted(provenance) {
        return Err(BenchmarkError::validation_owned(concat2(field, " keys must be unique and in key order")));
    }
    Ok(())
}

/// The diff keeps the cache impact unknown at every level.
pub open spec fn cache_impact_kept_unknown(d: RequestDiff) -> bool {
    &&& d.envelope_diff.cache_impact == CacheImpactAssessment::Unknown
    &&& d.prefix_diff.cache_impact == CacheImpactAssessment::Unknown
    &&& d.cache_impact == CacheImpactAssessment::Unknown
}

/// The diff records one change of the context, an order change of its
/// artifacts, and no change of the envelope.
pub open spec fn order_change_only(d: RequestDiff) -> bool {
    &&& d.interpretation.context == DiffState::Changed
    &&& d.interpretation.envelope == DiffState::Identical
    &&& d.envelope_diff.changes.len() == 0
    &&& d.prefix_diff.changes.len() == 1
    &&& d.prefix_diff.changes@[0].category == ChangeCategory::ArtifactOrderChanged
    &&& d.prefix_diff.changes@[0].order_changed
    &&& !d.prefix_diff.changes@[0].content_changed
    &&& !d.prefix_diff.changes@[0].presence_changed
}

/// Checks that a request diff describes a reorder of context artifacts and
/// nothing else, with its cache impact left unknown.
pub fn validate_reorder_diff(diff: &RequestDiff) -> (r: Result<(), BenchmarkError>)
    ensures
        match r {
            Ok(_) => cache_impact_kept_unknown(*diff) && order_change_only(*diff),
            Err(e) => if !cache_impact_kept_unknown(*diff) {
                e matches BenchmarkError::Materialization { code, message }
                    && code == MaterializationErrorCode::PlannedActualDiffMismatch
                    && message@ == "RequestDiff cache impact was not preserved as unknown"@
            } else {
                !order_change_only(*diff) && (e matches BenchmarkError::Materialization { code, message }
                    && code == MaterializationErrorCode::UnexpectedContentChange
                    && message@ == "actual RequestDiff contains a non-order transformation"@)
            },
        },
{
    if diff.envelope_diff.cache_impact != CacheImpactAssessment::Unknown
        || diff.prefix_diff.cache_impact != CacheImpactAssessment::Unknown
        || diff.cache_impact != CacheImpactAssessment::Unknown
    {
        return Err(BenchmarkError::materialization(
            MaterializationErrorCode::PlannedActualDiffMismatch,
            "RequestDiff cache impact was not preserved as unknown",
        ));
    }
    if diff.interpretation.context != DiffState::Changed
        || diff.interpretation.envelope != DiffState::Identical
        || diff.envelope_diff.changes.len() != 0
        || diff.prefix_diff.changes.len() != 1
        || diff.prefix_diff.changes[0].category != ChangeCategory::ArtifactOrderChanged
        || !diff.prefix_diff.changes[0].order_changed
        || diff.prefix_diff.changes[0].content_changed
        || diff.prefix_diff.changes[0].presence_changed
    {
        return Err(BenchmarkError::materialization(
            MaterializationErrorCode::UnexpectedContentChange,
            "actual RequestDiff contains a non-order transformation",
        ));
    }
    Ok(())
}

// ---------------------------------------------------------------------------
// The authorized transformation of a candidate.

pub open spec fn fault_message(f: Option<(MaterializationErrorCode, Seq<char>)>, e: BenchmarkError) -> bool {
    match f {
        Some(f) => e matches BenchmarkError::Materialization { code, message } && code == f.0 && message@ == f.1,
        None => false,
    }
}

/// What is wrong with the `i`-th segment reference of a candidate, if
/// anything, given that the references before it are sound: it repeats an
/// earlier source position, names no source segment, or differs from its
/// source segment in identity, content fingerprint or metadata fingerprint.
/// `meta` holds the metadata fingerprint of each source segment.
pub open spec fn reference_fault(
    refs: Seq<LayoutSegmentReference>,
    segs: Seq<ContextSegmentAnalysis>,
    meta: Seq<Option<String>>,
    i: int,
) -> Option<(MaterializationErrorCode, Seq<char>)> {
    let r = refs[i];
    if exists|j: int| 0 <= j < i && (#[trigger] refs[j]).source_position == r.source_position {
        Some((MaterializationErrorCode::ArtifactDuplicated, "candidate repeats a source segment occurrence"@))
    } else if r.source_position >= segs.len() {
        Some((MaterializationErrorCode::ArtifactMissing, "candidate references a missing source segment"@))
    } else {
        let s = segs[r.source_position as int];
        if r.structural_path@ != s.structural_path@ || opt_view(r.component_id) != opt_view(s.component_id)
            || r.role != s.role
        {
            Some((MaterializationErrorCode::CandidateIdentityMismatch, "candidate segment identity does not match the source analysis"@))
        } else if r.content_fingerprint@ != s.content_fingerprint@ {
            Some((MaterializationErrorCode::ArtifactContentMismatch, "candidate segment content fingerprint changed"@))
        } else if opt_view(r.metadata_fingerprint) != opt_view(meta[r.source_position as int]) {
            Some((MaterializationErrorCode::TrustProvenanceMismatch, "candidate segment metadata identity changed"@))
        } else {
            None
        }
    }
}

/// The fault of the first unsound reference among the first `k`.
pub open spec fn first_reference_fault(
    refs: Seq<LayoutSegmentReference>,
    segs: Seq<ContextSegmentAnalysis>,
    meta: Seq<Option<String>>,
    k: int,
) -> Option<(MaterializationErrorCode, Seq<char>)>
    decreases k,
{
    if k <= 0 {
        None
    } else {
        match first_reference_fault(refs, segs, meta, k - 1) {
            Some(f) => Some(f),
            None => reference_fault(refs, segs, meta, k - 1),
        }
    }
}

/// The source positions of the references, by new position.
pub open spec fn reference_order(refs: Seq<LayoutSegmentReference>) -> Seq<usize> {
    Seq::new(refs.len(), |i: int| refs[i].source_position)
}

/// The positions below `n`, in increasing order.
pub open spec fn identity_order(n: int) -> Seq<usize> {
    Seq::new(n as nat, |i: int| i as usize)
}

/// Why a candidate is not an authorized reorder of the analysed source
/// segments, if it is not: it must carry exactly one transformation, an
/// adjacent swap or a region-local move; its references must name every
/// source segment once, each with the source's identity, content and
/// metadata; it must move context artifacts only, move at least one
/// segment, and its transformation must list exactly the moved segments
/// (names, source and new positions, by source position).
pub open spec fn authorization_fault(
    c: LayoutCandidate,
    segs: Seq<ContextSegmentAnalysis>,
    meta: Seq<Option<String>>,
) -> Option<(MaterializationErrorCode, Seq<char>)> {
    let refs = c.ordered_segments@;
    let n = segs.len() as int;
    if c.transformations.len() != 1 {
        Some((MaterializationErrorCode::UnsupportedTransformation, "materialization supports exactly one artifact reorder transformation"@))
    } else if !(c.transformations@[0].kind == LayoutTransformationKind::AdjacentSwap
        || c.transformations@[0].kind == LayoutTransformationKind::RegionLocalMove)
    {
        Some((MaterializationErrorCode::UnsupportedTransformation, "candidate transformation is outside the reorder vocabulary"@))
    } else if refs.len() != n {
        Some((MaterializationErrorCode::ArtifactMissing, "candidate does not reference every source segment"@))
    } else if first_reference_fault(refs, segs, meta, n) is Some {
        first_reference_fault(refs, segs, meta, n)
    } else {
        let order = reference_order(refs);
        let t = c.transformations@[0];
        let moves = moves_listed(segs, order, identity_order(n));
        if exists|s: int| 0 <= s < n && new_position(order, s) != Some(s)
            && (#[trigger] segs[s]).role != ContextRole::ContextArtifact
        {
            Some((MaterializationErrorCode::UnsupportedTransformation, "candidate transformation moves a fixed non-artifact segment"@))
        } else if (forall|p: int| 0 <= p < n ==> order[p] == p)
            || views(t.moved_segments@) != moves.0 || t.from_positions@ != moves.1 || t.to_positions@ != moves.2
        {
            Some((MaterializationErrorCode::UnsupportedTransformation, "candidate does not describe a concrete artifact reorder"@))
        } else {
            None
        }
    }
}

proof fn lemma_first_fault_stays(
    refs: Seq<LayoutSegmentReference>,
    segs: Seq<ContextSegmentAnalysis>,
    meta: Seq<Option<String>>,
    k: int,
    m: int,
)
    requires
        0 < k <= m,
        first_reference_fault(refs, segs, meta, k) is Some,
    ensures
        first_reference_fault(refs, segs, meta, m) == first_reference_fault(refs, segs, meta, k),
    decreases m - k,
{
    if k < m {
        lemma_first_fault_stays(refs, segs, meta, k, m - 1);
    }
}

fn reference_check(
    refs: &Vec<LayoutSegmentReference>,
    segs: &Vec<ContextSegmentAnalysis>,
    meta: &Vec<Option<String>>,
    seen: &Vec<bool>,
    i: usize,
) -> (r: Result<(), BenchmarkError>)
    requires
        i < refs.len(),
        seen.len() == segs.len(),
        meta.len() == segs.len(),
        forall|j: int| 0 <= j < i ==> (#[trigger] refs@[j]).source_position < segs.len(),
        forall|s: int| 0 <= s < segs.len() ==> (seen@[s] <==> exists|j: int| 0 <= j < i && (#[trigger] refs@[j]).source_position == s),
    ensures
        match reference_fault(refs@, segs@, meta@, i as int) {
            None => r is Ok,
            Some(f) => r is Err && fault_message(Some(f), r->Err_0),
        },
{
    let reference = &refs[i];
    let p = reference.source_position;
    if p < segs.len() && seen[p] {
        return Err(BenchmarkError::materialization(
            MaterializationErrorCode::ArtifactDuplicated,
            "candidate repeats a source segment occurrence",
        ));
    }
    if p >= segs.len() {
        return Err(BenchmarkError::materialization(
            MaterializationErrorCode::ArtifactMissing,
            "candidate references a missing source segment",
        ));
    }
    let source = &segs[p];
    if !str_eq(reference.structural_path.as_str(), source.structural_path.as_str())
        || !same_opt_str(&reference.component_id, &source.component_id)
        || reference.role != source.role
    {
        return Err(BenchmarkError::materialization(
            MaterializationErrorCode::CandidateIdentityMismatch,
            "candidate segment identity does not match the source analysis",
        ));
    }
    if !str_eq(reference.content_fingerprint.as_str(), source.content_fingerprint.as_str()) {
        return Err(BenchmarkError::materialization(
            MaterializationErrorCode::ArtifactContentMismatch,
            "candidate segment content fingerprint changed",
        ));
    }
    if !same_opt_str(&reference.metadata_fingerprint, &meta[p]) {
        return Err(BenchmarkError::materialization(
            MaterializationErrorCode::TrustProvenanceMismatch,
            "candidate segment metadata identity changed",
        ));
    }
    Ok(())
}

/// Checks that a candidate is an authorized reorder of the analysed source
/// segments (see `authorization_fault`). `expected_metadata` holds, for each
/// source segment, the fingerprint of the metadata supplied for it.
pub fn validate_authorized_transformation(
    candidate: &LayoutCandidate,
    source_analysis: &ContextStabilityAnalysis,
    expected_metadata: &Vec<Option<String>>,
) -> (r: Result<(), BenchmarkError>)
    requires
        expected_metadata.len() == source_analysis.segments.len(),
    ensures
        match authorization_fault(*candidate, source_analysis.segments@, expected_metadata@) {
            None => r is Ok,
            Some(f) => r is Err && fault_message(Some(f), r->Err_0),
        },
{
    let segs = &source_analysis.segments;
    let refs = &candidate.ordered_segments;
    let n = segs.len();
    if candidate.transformations.len() != 1 {
        return Err(BenchmarkError::materialization(
            MaterializationErrorCode::UnsupportedTransformation,
            "materialization supports exactly one artifact reorder transformation",
        ));
    }
    let transformation = &candidate.transformations[0];
    if !(transformation.kind == LayoutTransformationKind::AdjacentSwap
        || transformation.kind == LayoutTransformationKind::RegionLocalMove)
    {
        return Err(BenchmarkError::materialization(
            MaterializationErrorCode::UnsupportedTransformation,
            "candidate transformation is outside the reorder vocabulary",
        ));
    }
    if refs.len() != n {
        return Err(BenchmarkError::materialization(
            MaterializationErrorCode::ArtifactMissing,
            "candidate does not reference every source segment",
        ));
    }
    let mut seen: Vec<bool> = Vec::new();
    let mut k: usize = 0;
    while k < n
        invariant
            k <= n,
            n == segs.len(),
            seen.len() == k,
            forall|s: int| 0 <= s < k ==> !seen@[s],
        decreases n - k,
    {
        seen.push(false);
        k = k + 1;
    }
    let mut order: Vec<usize> = Vec::new();
    let mut i: usize = 0;
    while i < n
        invariant
            i <= n,
            n == segs.len(),
            refs.len() == n,
            seen.len() == n,
            expected_metadata.len() == n,
            refs@ == candidate.ordered_segments@,
            segs@ == source_analysis.segments@,
            candidate.transformations.len() == 1,
            candidate.transformations@[0].kind == LayoutTransformationKind::AdjacentSwap
                || candidate.transformations@[0].kind == LayoutTransformationKind::RegionLocalMove,
            first_reference_fault(refs@, segs@, expected_metadata@, i as int) is None,
            order@ == reference_order(refs@).take(i as int),
            forall|j: int| 0 <= j < i ==> (#[trigger] refs@[j]).source_position < n,
            forall|a: int, b: int| 0 <= a < b < i ==> refs@[a].source_position != refs@[b].source_position,
            forall|s: int| 0 <= s < n ==> (seen@[s] <==> exists|j: int| 0 <= j < i && (#[trigger] refs@[j]).source_position == s),
        decreases n - i,
    {
        let checked_reference = reference_check(refs, segs, expected_metadata, &seen, i);
        if checked_reference.is_err() {
            proof {
                lemma_first_fault_stays(refs@, segs@, expected_metadata@, i as int + 1, n as int);
            }
            return checked_reference;
        }
        let p = refs[i].source_position;
        proof {
            assert(reference_fault(refs@, segs@, expected_metadata@, i as int) is None);
            assert(!exists|j: int| 0 <= j < i && (#[trigger] refs@[j]).source_position == p);
        }
        seen.set(p, true);
        order.push(p);
        proof {
            assert(order@ =~= reference_order(refs@).take(i + 1));
            assert forall|s: int| 0 <= s < n implies (seen@[s] <==> exists|j: int| 0 <= j < i + 1 && (#[trigger] refs@[j]).source_position == s) by {
                if s == p {
                    assert(refs@[i as int].source_position == s);
                }
            }
        }
        i = i + 1;
    }
    proof {
        assert(order@ =~= reference_order(refs@));
        lemma_distinct_order_is_permutation(order@, n as int);
    }
    let mut s: usize = 0;
    while s < n
        invariant
            s <= n,
            n == segs.len(),
            order@ == reference_order(refs@),
            refs.len() == n,
            expected_metadata.len() == n,
            refs@ == candidate.ordered_segments@,
            segs@ == source_analysis.segments@,
            candidate.transformations.len() == 1,
            candidate.transformations@[0].kind == LayoutTransformationKind::AdjacentSwap
                || candidate.transformations@[0].kind == LayoutTransformationKind::RegionLocalMove,
            first_reference_fault(refs@, segs@, expected_metadata@, n as int) is None,
            forall|q: int| 0 <= q < s ==> !(new_position(order@, q) != Some(q)
                && (#[trigger] segs@[q]).role != ContextRole::ContextArtifact),
        decreases n - s,
    {
        let to = new_position_of(&order, s);
        if to != Some(s) && segs[s].role != ContextRole::ContextArtifact {
            proof {
                assert(new_position(order@, s as int) != Some(s as int));
                assert(segs@[s as int].role != ContextRole::ContextArtifact);
            }
            return Err(BenchmarkError::materialization(
                MaterializationErrorCode::UnsupportedTransformation,
                "candidate transformation moves a fixed non-artifact segment",
            ));
        }
        proof {
            assert(!(new_position(order@, s as int) != Some(s as int)
                && segs@[s as int].role != ContextRole::ContextArtifact));
        }
        s = s + 1;
    }
    let mut unchanged = true;
    let mut p: usize = 0;
    while p < n
        invariant
            p <= n,
            order.len() == n,
            unchanged == (forall|q: int| 0 <= q < p ==> order@[q] == q),
        decreases n - p,
    {
        if order[p] != p {
            unchanged = false;
        }
        p = p + 1;
    }
    let identity = identity_positions(n);
    let expected = match transformation_for_order(source_analysis, &identity, &order, transformation.kind) {
        Ok(t) => t,
        Err(e) => return Err(e),
    };
    if unchanged
        || !same_strings(&transformation.moved_segments, &expected.moved_segments)
        || !same_positions(&transformation.from_positions, &expected.from_positions)
        || !same_positions(&transformation.to_positions, &expected.to_positions)
    {
        return Err(BenchmarkError::materialization(
            MaterializationErrorCode::UnsupportedTransformation,
            "candidate does not describe a concrete artifact reorder",
        ));
    }
    Ok(())
}

fn identity_positions(n: usize) -> (r: Vec<usize>)
    ensures
        r@ == identity_order(n as int),
{
    let mut r: Vec<usize> = Vec::new();
    let mut i: usize = 0;
    while i < n
        invariant
            i <= n,
            r@ == identity_order(i as int),
        decreases n - i,
    {
        r.push(i);
        proof {
            assert(r@ =~= identity_order(i + 1));
        }
        i = i + 1;
    }
    r
}

fn same_strings(a: &Vec<String>, b: &Vec<String>) -> (r: bool)
    ensures
        r == (views(a@) == views(b@)),
{
    if a.len() != b.len() {
        proof {
            assert(views(a@).len() != views(b@).len());
        }
        return false;
    }
    let mut i: usize = 0;
    while i < a.len()
        invariant
            i <= a.len(),
            a.len() == b.len(),
            forall|j: int| 0 <= j < i ==> a@[j]@ == b@[j]@,
        decreases a.len() - i,
    {
        if !str_eq(a[i].as_str(), b[i].as_str()) {
            proof {
                assert(views(a@)[i as int] != views(b@)[i as int]);
            }
            return false;
        }
        i = i + 1;
    }
    proof {
        assert(views(a@) =~= views(b@));
    }
    true
}

fn same_positions(a: &Vec<usize>, b: &Vec<usize>) -> (r: bool)
    ensures
        r == (a@ == b@),
{
    if a.len() != b.len() {
        return false;
    }
    let mut i: usize = 0;
    while i < a.len()
        invariant
            i <= a.len(),
            a.len() == b.len(),
            forall|j: int| 0 <= j < i ==> a@[j] == b@[j],
        decreases a.len() - i,
    {
        if a[i] != b[i] {
            return false;
        }
        i = i + 1;
    }
    proof {
        assert(a@ =~= b@);
    }
    true
}

// ---------------------------------------------------------------------------
// The evaluation of the candidate, and the conservation of segment metadata.

/// The evaluation names this candidate of this source request (with the
/// given fingerprint of the planned request diff), found it safe, and grants
/// no performance or application claims.
pub open spec fn evaluation_identifies(
    evaluation: CandidateEvaluation,
    candidate: LayoutCandidate,
    source_fingerprint: Seq<char>,
    planned_diff_fingerprint: Seq<char>,
) -> bool {
    let reference = evaluation.candidate;
    &&& reference.candidate_id@ == candidate.candidate_id@
    &&& reference.layout_fingerprint@ == candidate.layout_fingerprint@
    &&& reference.source_request_fingerprint@ == source_fingerprint
    &&& reference.candidate_request_fingerprint@ == candidate.request_diff.right_request_fingerprint@
    &&& reference.request_diff_fingerprint@ == planned_diff_fingerprint
    &&& evaluation.structural.safety == CandidateSafetyStatus::OrderingSafeUnderDeclaredConstraints
    &&& evaluation.claim_permissions.performance_claims == ClaimPermission::NotAllowed
    &&& evaluation.claim_permissions.application_claims == ClaimPermission::NotAllowed
}

/// Checks that an evaluation is valid, identifies the candidate (see
/// `evaluation_identifies`) and records no structural safety blocker.
/// `planned_diff_fingerprint` is the fingerprint of the candidate's planned
/// request diff.
pub fn validate_evaluation_identity(
    evaluation: &CandidateEvaluation,
    candidate: &LayoutCandidate,
    source_fingerprint: &str,
    planned_diff_fingerprint: &str,
) -> (r: Result<(), BenchmarkError>)
    ensures
        match r {
            Ok(_) => evaluation.evaluation_ok()
                && evaluation_identifies(*evaluation, *candidate, source_fingerprint@, planned_diff_fingerprint@)
                && !evaluation.blockers@.contains(EvidenceBlocker::CandidateSafetyNotEstablished),
            Err(e) => if !evaluation.evaluation_ok() {
                e matches BenchmarkError::Materialization { code, message }
                    && code == MaterializationErrorCode::EvaluationMismatch
                    && message@.take(23) == "evaluation is invalid: "@
            } else if !evaluation_identifies(*evaluation, *candidate, source_fingerprint@, planned_diff_fingerprint@) {
                e matches BenchmarkError::Materialization { code, message }
                    && code == MaterializationErrorCode::EvaluationMismatch
                    && message@ == "evaluation does not identify the supplied safe candidate"@
            } else {
                evaluation.blockers@.contains(EvidenceBlocker::CandidateSafetyNotEstablished)
                    && (e matches BenchmarkError::Materialization { code, message }
                    && code == MaterializationErrorCode::CandidateSafetyRejected
                    && message@ == "evaluation recorded a structural safety blocker"@)
            },
        },
{
    match evaluation.validate() {
        Ok(_) => {},
        Err(error) => {
            let message = invalid_evaluation_message(&error);
            proof {
                reveal_strlit("evaluation is invalid: ");
                assert(message@.take(23) =~= "evaluation is invalid: "@);
            }
            return Err(BenchmarkError::Materialization {
                code: MaterializationErrorCode::EvaluationMismatch,
                message,
            });
        },
    }
    let reference = &evaluation.candidate;
    if !str_eq(reference.candidate_id.as_str(), candidate.candidate_id.as_str())
        || !str_eq(reference.layout_fingerprint.as_str(), candidate.layout_fingerprint.as_str())
        || !str_eq(reference.source_request_fingerprint.as_str(), source_fingerprint)
        || !str_eq(
            reference.candidate_request_fingerprint.as_str(),
            candidate.request_diff.right_request_fingerprint.as_str(),
        )
        || !str_eq(reference.request_diff_fingerprint.as_str(), planned_diff_fingerprint)
        || evaluation.structural.safety != CandidateSafetyStatus::OrderingSafeUnderDeclaredConstraints
        || evaluation.claim_permissions.performance_claims != ClaimPermission::NotAllowed
        || evaluation.claim_permissions.application_claims != ClaimPermission::NotAllowed
    {
        return Err(BenchmarkError::materialization(
            MaterializationErrorCode::EvaluationMismatch,
            "evaluation does not identify the supplied safe candidate",
        ));
    }
    let mut i: usize = 0;
    while i < evaluation.blockers.len()
        invariant
            i <= evaluation.blockers.len(),
            evaluation.evaluation_ok(),
            evaluation_identifies(*evaluation, *candidate, source_fingerprint@, planned_diff_fingerprint@),
            forall|j: int| 0 <= j < i ==> evaluation.blockers@[j] != EvidenceBlocker::CandidateSafetyNotEstablished,
        decreases evaluation.blockers.len() - i,
    {
        if evaluation.blockers[i] == EvidenceBlocker::CandidateSafetyNotEstablished {
            proof {
                assert(evaluation.blockers@[i as int] == EvidenceBlocker::CandidateSafetyNotEstablished);
            }
            return Err(BenchmarkError::materialization(
                MaterializationErrorCode::CandidateSafetyRejected,
                "evaluation recorded a structural safety blocker",
            ));
        }
        i = i + 1;
    }
    Ok(())
}

/// "evaluation is invalid: " followed by the error's text.
fn invalid_evaluation_message(error: &BenchmarkError) -> (r: String)
    ensures
        r@.len() >= 23,
        r@.take(23) == "evaluation is invalid: "@,
{
    let mut message = owned("evaluation is invalid: ");
    proof {
        reveal_strlit("evaluation is invalid: ");
    }
    let ghost head = message@;
    match error {
        BenchmarkError::Validation { path, message: detail } => {
            message.append("controlled benchmark validation failed at ");
            message.append(path.as_str());
            message.append(": ");
            message.append(detail.as_str());
        },
        _ => {},
    }
    proof {
        assert(message@.take(23) =~= head);
    }
    message
}

/// The recorded metadata of two segment analyses agree.
pub open spec fn same_segment_metadata(a: ContextSegmentAnalysis, b: ContextSegmentAnalysis) -> bool {
    &&& a.structural_path@ == b.structural_path@
    &&& opt_view(a.component_id) == opt_view(b.component_id)
    &&& a.role == b.role
    &&& a.stability == b.stability
    &&& a.transient == b.transient
    &&& a.classification_source == b.classification_source
    &&& a.trust == b.trust
    &&& opt_view(a.artifact_id) == opt_view(b.artifact_id)
    &&& a.content_fingerprint@ == b.content_fingerprint@
    &&& a.byte_size == b.byte_size
    &&& a.size_source == b.size_source
}

/// Compares the recorded metadata of two segment analyses.
pub fn equal_segment_metadata(left: &ContextSegmentAnalysis, right: &ContextSegmentAnalysis) -> (r: bool)
    ensures
        r == same_segment_metadata(*left, *right),
{
    str_eq(left.structural_path.as_str(), right.structural_path.as_str())
        && same_opt_str(&left.component_id, &right.component_id)
        && left.role == right.role
        && left.stability == right.stability
        && left.transient == right.transient
        && left.classification_source == right.classification_source
        && same_trust(&left.trust, &right.trust)
        && same_opt_str(&left.artifact_id, &right.artifact_id)
        && str_eq(left.content_fingerprint.as_str(), right.content_fingerprint.as_str())
        && same_size(&left.byte_size, &right.byte_size)
        && left.size_source == right.size_source
}

/// Each segment of the materialized analysis carries the metadata of the
/// source segment that its reference names.
pub open spec fn metadata_conserved(
    source: Seq<ContextSegmentAnalysis>,
    materialized: Seq<ContextSegmentAnalysis>,
    refs: Seq<LayoutSegmentReference>,
) -> bool {
    forall|p: int| 0 <= p < refs.len() ==> {
        &&& (#[trigger] refs[p]).source_position < source.len()
        &&& p < materialized.len()
        &&& same_segment_metadata(source[refs[p].source_position as int], materialized[p])
    }
}

fn same_size(a: &Observed<u64>, b: &Observed<u64>) -> (r: bool)
    ensures
        r == (*a == *b),
{
    match (a, b) {
        (Observed::Known(x), Observed::Known(y)) => *x == *y,
        (Observed::Unknown, Observed::Unknown) => true,
        (Observed::NotObserved, Observed::NotObserved) => true,
        _ => false,
    }
}

fn same_trust(a: &Observed<TrustLevel>, b: &Observed<TrustLevel>) -> (r: bool)
    ensures
        r == (*a == *b),
{
    match (a, b) {
        (Observed::Known(x), Observed::Known(y)) => *x == *y,
        (Observed::Unknown, Observed::Unknown) => true,
        (Observed::NotObserved, Observed::NotObserved) => true,
        _ => false,
    }
}

/// Checks that materialization carried every segment's metadata along with
/// it (see `metadata_conserved`).
pub fn segment_metadata_conserved(
    source: &ContextStabilityAnalysis,
    materialized: &ContextStabilityAnalysis,
    ordered_segments: &Vec<LayoutSegmentReference>,
) -> (r: bool)
    ensures
        r == metadata_conserved(source.segments@, materialized.segments@, ordered_segments@),
{
    let mut p: usize = 0;
    while p < ordered_segments.len()
        invariant
            p <= ordered_segments.len(),
            forall|q: int| 0 <= q < p ==> {
                &&& (#[trigger] ordered_segments@[q]).source_position < source.segments.len()
                &&& q < materialized.segments.len()
                &&& same_segment_metadata(source.segments@[ordered_segments@[q].source_position as int], materialized.segments@[q])
            },
        decreases ordered_segments.len() - p,
    {
        let position = ordered_segments[p].source_position;
        if position >= source.segments.len() || p >= materialized.segments.len()
            || !equal_segment_metadata(&source.segments[position], &materialized.segments[p])
        {
            proof {
                assert(!{
                    &&& ordered_segments@[p as int].source_position < source.segments.len()
                    &&& p < materialized.segments.len()
                    &&& same_segment_metadata(source.segments@[ordered_segments@[p as int].source_position as int], materialized.segments@[p as int])
                });
            }
            return false;
        }
        p = p + 1;
    }
    true
}

/// The reference names a source segment whose classification came from its
/// structural role alone or is unknown: no metadata was supplied for it.
pub open spec fn metadata_missing(analysis: ContextStabilityAnalysis, reference: LayoutSegmentReference) -> bool {
    &&& reference.source_position < analysis.segments.len()
    &&& (analysis.segments@[reference.source_position as int].classification_source == ClassificationSource::StructuralRole
        || analysis.segments@[reference.source_position as int].classification_source == ClassificationSource::Unknown)
}

/// Whether no metadata was supplied for the segment that `reference` names.
pub fn metadata_unavailable(analysis: &ContextStabilityAnalysis, reference: &LayoutSegmentReference) -> (r: bool)
    ensures
        r == metadata_missing(*analysis, *reference),
{
    reference.source_position < analysis.segments.len() && {
        let source = analysis.segments[reference.source_position].classification_source;
        source == ClassificationSource::StructuralRole || source == ClassificationSource::Unknown
    }
}

/// Every invariant of a certificate, in report order, marked as passed.
pub fn invariant_results() -> (r: Vec<InvariantResult>)
    ensures
        r.len() == 12,
        forall|i: int| 0 <= i < 12 ==> (#[trigger] r@[i]).invariant == invariant_order()[i] && r@[i].passed,
{
    let all = vec![
        MaterializationInvariant::SourceIdentity,
        MaterializationInvariant::CandidateIdentity,
        MaterializationInvariant::AuthorizedTransformation,
        MaterializationInvariant::ContentConservation,
        MaterializationInvariant::ArtifactConservation,
        MaterializationInvariant::ToolConservation,
        MaterializationInvariant::EnvelopeConservation,
        MaterializationInvariant::TrustConservation,
        MaterializationInvariant::ProvenanceConservation,
        MaterializationInvariant::OrderChangeOnly,
        MaterializationInvariant::RequestDiffAgreement,
        MaterializationInvariant::StructuralReanalysis,
    ];
    proof {
        assert(all@ =~= invariant_order());
    }
    let mut r: Vec<InvariantResult> = Vec::new();
    let mut i: usize = 0;
    while i < all.len()
        invariant
            i <= all.len(),
            all@ == invariant_order(),
            r.len() == i,
            forall|j: int| 0 <= j < i ==> (#[trigger] r@[j]).invariant == invariant_order()[j] && r@[j].passed,
        decreases all.len() - i,
    {
        r.push(InvariantResult { invariant: all[i], passed: true });
        i = i + 1;
    }
    r
}

// ---------------------------------------------------------------------------
// Certifying a materialization.

/// Every reference carries a metadata fingerprint, unless no metadata was
/// supplied for the segment it names.
pub open spec fn provenance_kept(analysis: ContextStabilityAnalysis, refs: Seq<LayoutSegmentReference>) -> bool {
    forall|i: int| 0 <= i < refs.len() ==> (#[trigger] refs[i]).metadata_fingerprint is Some || metadata_missing(analysis, refs[i])
}

/// Whether the references kept their provenance (see `provenance_kept`).
pub fn provenance_conserved(analysis: &ContextStabilityAnalysis, ordered_segments: &Vec<LayoutSegmentReference>) -> (r: bool)
    ensures
        r == provenance_kept(*analysis, ordered_segments@),
{
    let mut i: usize = 0;
    while i < ordered_segments.len()
        invariant
            i <= ordered_segments.len(),
            forall|k: int| 0 <= k < i ==> (#[trigger] ordered_segments@[k]).metadata_fingerprint is Some
                || metadata_missing(*analysis, ordered_segments@[k]),
        decreases ordered_segments.len() - i,
    {
        if ordered_segments[i].metadata_fingerprint.is_none() && !metadata_unavailable(analysis, &ordered_segments[i]) {
            return false;
        }
        i = i + 1;
    }
    true
}

/// The conservation checks of a materialization, as they came out.
#[derive(Debug, Clone, Copy, PartialEq, Eq)]
pub struct ConservationChecks {
    pub content: bool,
    pub artifact: bool,
    pub tool: bool,
    pub envelope: bool,
    pub trust: bool,
    pub provenance: bool,
    pub order_change_only: bool,
}

/// The first failed conservation check, with the code and message it is
/// refused with: content or artifacts, then tools, the envelope, trust or
/// provenance, and last an order change beyond the authorized one.
pub open spec fn conservation_fault(c: ConservationChecks) -> Option<(MaterializationErrorCode, Seq<char>)> {
    if !c.content || !c.artifact {
        Some((MaterializationErrorCode::ArtifactContentMismatch, "artifact content or occurrence multiset was not conserved"@))
    } else if !c.tool {
        Some((MaterializationErrorCode::UnexpectedToolChange, "tool surface changed during materialization"@))
    } else if !c.envelope {
        Some((MaterializationErrorCode::UnexpectedEnvelopeChange, "request envelope changed during materialization"@))
    } else if !c.trust || !c.provenance {
        Some((MaterializationErrorCode::TrustProvenanceMismatch, "trust or provenance metadata was not conserved"@))
    } else if !c.order_change_only {
        Some((MaterializationErrorCode::UnexpectedContentChange, "materialization changed more than the authorized artifact order"@))
    } else {
        None
    }
}

/// The provenance of a certificate, in key order.
pub open spec fn certificate_provenance() -> Seq<(Seq<char>, Seq<char>)> {
    seq![
        ("evaluator"@, "p0-l12-candidate-evaluation"@),
        ("performance_claim"@, "not_allowed"@),
        ("planner"@, "p0-l11-layout-candidate"@),
        ("runtime_execution"@, "not_performed"@),
        ("source"@, "p0-l4-neutral-request"@),
    ]
}

pub open spec fn string_pairs_view(p: Seq<(String, String)>) -> Seq<(Seq<char>, Seq<char>)> {
    Seq::new(p.len(), |i: int| (p[i].0@, p[i].1@))
}

fn certificate_provenance_pairs() -> (r: Vec<(String, String)>)
    ensures
        string_pairs_view(r@) == certificate_provenance(),
{
    let r = vec![
        (owned("evaluator"), owned("p0-l12-candidate-evaluation")),
        (owned("performance_claim"), owned("not_allowed")),
        (owned("planner"), owned("p0-l11-layout-candidate")),
        (owned("runtime_execution"), owned("not_performed")),
        (owned("source"), owned("p0-l4-neutral-request")),
    ];
    proof {
        assert(string_pairs_view(r@) =~= certificate_provenance());
    }
    r
}

/// Certifies a materialization whose conservation checks came out as
/// `checks`, with the request and diff fingerprints of `diff_reference`:
/// refused with the first failed check (see `conservation_fault`), else a
/// certificate of every invariant passed, which fails validation only when
/// a fingerprint of the reference is not a SHA-256 fingerprint.
pub fn certify_materialization(
    checks: ConservationChecks,
    diff_reference: RequestDiffReference,
) -> (r: Result<MaterializationSafetyCertificate, BenchmarkError>)
    ensures
        match conservation_fault(checks) {
            Some(f) => r is Err && fault_message(Some(f), r->Err_0),
            None => match r {
                Ok(c) => c.certificate_ok() && c.request_diff_reference == diff_reference
                    && string_pairs_view(c.provenance@) == certificate_provenance(),
                Err(e) => in_memory_validation(e) && !(is_fingerprint(diff_reference.source_request_fingerprint@)
                    && is_fingerprint(diff_reference.materialized_request_fingerprint@)
                    && is_fingerprint(diff_reference.planned_diff_fingerprint@)
                    && is_fingerprint(diff_reference.actual_diff_fingerprint@)),
            },
        },
{
    if !checks.content || !checks.artifact {
        return Err(BenchmarkError::materialization(
            MaterializationErrorCode::ArtifactContentMismatch,
            "artifact content or occurrence multiset was not conserved",
        ));
    }
    if !checks.tool {
        return Err(BenchmarkError::materialization(
            MaterializationErrorCode::UnexpectedToolChange,
            "tool surface changed during materialization",
        ));
    }
    if !checks.envelope {
        return Err(BenchmarkError::materialization(
            MaterializationErrorCode::UnexpectedEnvelopeChange,
            "request envelope changed during materialization",
        ));
    }
    if !checks.trust || !checks.provenance {
        return Err(BenchmarkError::materialization(
            MaterializationErrorCode::TrustProvenanceMismatch,
            "trust or provenance metadata was not conserved",
        ));
    }
    if !checks.order_change_only {
        return Err(BenchmarkError::materialization(
            MaterializationErrorCode::UnexpectedContentChange,
            "materialization changed more than the authorized artifact order",
        ));
    }
    let provenance = certificate_provenance_pairs();
    let certificate = MaterializationSafetyCertificate {
        schema_id: owned(SAFETY_CERTIFICATE_SCHEMA_ID),
        schema_version: SAFETY_CERTIFICATE_SCHEMA_VERSION,
        source_identity_verified: true,
        candidate_identity_verified: true,
        authorized_transformation_verified: true,
        content_conservation: true,
        artifact_conservation: true,
        tool_conservation: true,
        envelope_conservation: true,
        trust_conservation: true,
        provenance_conservation: true,
        order_change_only: true,
        request_diff_reference: diff_reference,
        invariant_results: invariant_results(),
        certification_status: CertificationStatus::CertifiedForExperimentMaterialization,
        provenance,
    };
    proof {
        let c = certificate;
        reveal_strlit("evaluator");
        reveal_strlit("p0-l12-candidate-evaluation");
        reveal_strlit("performance_claim");
        reveal_strlit("not_allowed");
        reveal_strlit("planner");
        reveal_strlit("p0-l11-layout-candidate");
        reveal_strlit("runtime_execution");
        reveal_strlit("not_performed");
        reveal_strlit("source");
        reveal_strlit("p0-l4-neutral-request");
        assert(certificate_provenance().len() == 5);
        assert(string_pairs_view(c.provenance@).len() == c.provenance.len());
        assert forall|i: int| 0 <= i < c.provenance.len() implies materialization_text((#[trigger] c.provenance@[i]).0@)
            && materialization_text(c.provenance@[i].1@) by {
            assert(c.provenance@[i].0@ == certificate_provenance()[i].0);
            assert(c.provenance@[i].1@ == certificate_provenance()[i].1);
            lemma_certificate_provenance_texts(i);
        }
        assert forall|i: int| 0 <= i < 12 implies #[trigger] c.expected_outcomes()[i] by {}
        lemma_certificate_keys_sorted();
        assert forall|i: int, j: int| 0 <= i < j < c.provenance.len() implies
            seq_lt(#[trigger] c.provenance@[i].0@, #[trigger] c.provenance@[j].0@) by {
            assert(c.provenance@[i].0@ == certificate_provenance()[i].0);
            assert(c.provenance@[j].0@ == certificate_provenance()[j].0);
        }
        assert(materialization_provenance_ok(c.provenance@));
        assert(c.certificate_ok() <==> (is_fingerprint(diff_reference.source_request_fingerprint@)
            && is_fingerprint(diff_reference.materialized_request_fingerprint@)
            && is_fingerprint(diff_reference.planned_diff_fingerprint@)
            && is_fingerprint(diff_reference.actual_diff_fingerprint@)));
    }
    match certificate.validate() {
        Ok(_) => Ok(certificate),
        Err(e) => Err(e),
    }
}

proof fn lemma_certificate_keys_sorted()
    ensures
        forall|i: int, j: int| 0 <= i < j < 5 ==> seq_lt(certificate_provenance()[i].0, certificate_provenance()[j].0),
{
    reveal_strlit("evaluator");
    reveal_strlit("performance_claim");
    reveal_strlit("planner");
    reveal_strlit("runtime_execution");
    reveal_strlit("source");
    reveal_with_fuel(seq_lt, 2);
    let p = certificate_provenance();
    assert(seq_lt(p[0].0, p[1].0));
    assert(seq_lt(p[0].0, p[2].0));
    assert(seq_lt(p[0].0, p[3].0));
    assert(seq_lt(p[0].0, p[4].0));
    assert(p[1].0.drop_first() =~= "erformance_claim"@) by { reveal_strlit("erformance_claim"); }
    assert(p[2].0.drop_first() =~= "lanner"@) by { reveal_strlit("lanner"); }
    assert(seq_lt(p[1].0, p[2].0)) by { reveal_strlit("erformance_claim"); reveal_strlit("lanner"); }
    assert(seq_lt(p[1].0, p[3].0));
    assert(seq_lt(p[1].0, p[4].0));
    assert(seq_lt(p[2].0, p[3].0));
    assert(seq_lt(p[2].0, p[4].0));
    assert(seq_lt(p[3].0, p[4].0));
}

proof fn lemma_certificate_provenance_texts(i: int)
    requires
        0 <= i < 5,
    ensures
        materialization_text(certificate_provenance()[i].0),
        materialization_text(certificate_provenance()[i].1),
{
    reveal_strlit("evaluator");
    reveal_strlit("p0-l12-candidate-evaluation");
    reveal_strlit("performance_claim");
    reveal_strlit("not_allowed");
    reveal_strlit("planner");
    reveal_strlit("p0-l11-layout-candidate");
    reveal_strlit("runtime_execution");
    reveal_strlit("not_performed");
    reveal_strlit("source");
    reveal_strlit("p0-l4-neutral-request");
    let p = certificate_provenance();
    lemma_short_ascii_text(p[i].0);
    lemma_short_ascii_text(p[i].1);
}

proof fn lemma_short_ascii_text(s: Seq<char>)
    requires
        vstd::utf8::is_ascii_chars(s),
        0 < s.len() <= MAX_EXPERIMENT_CASE_ID_BYTES,
        !is_white_space(s[0]),
    ensures
        materialization_text(s),
{
    vstd::utf8::is_ascii_chars_encode_utf8(s);
}

} // verus!
