//! Provider-neutral conformance requests and their vocabulary.
use vstd::prelude::*;
use vstd::utf8::encode_utf8;
use crate::error::{checked, in_memory_validation, BenchmarkError};
use crate::context_stability::Observed;
use crate::json::{
    array_value, json_array, json_object, json_string, member, object_value, opt_member, push_member, push_opt_member,
    string_value,
};
use crate::json_value::{copy_value, render_value, value_json, JsonValue};
use crate::hashing::{hex_lower, sha256_digest, sha256_hex};
use crate::ordering::{check_keys_sorted, keys_sorted, views};
use crate::fields::{bounded_text, check_bounded_text, check_not_blank, not_blank};
use crate::text::{concat2, str_eq};

verus! {

pub const CONFORMANCE_SCHEMA_ID: &'static str = "prefixity.cache-conformance";
pub const CONFORMANCE_SCHEMA_VERSION: u32 = 1;
pub const CONFORMANCE_RESULT_SCHEMA_ID: &'static str = "prefixity.cache-conformance-result";
pub const CONFORMANCE_RESULT_SCHEMA_VERSION: u32 = 1;
pub const MOCK_TRANSPORT_ID: &'static str = "prefixity.mock-conformance-transport";
pub const MOCK_TRANSPORT_VERSION: &'static str = "1";
pub const MAX_ID_BYTES: usize = 256;
pub const MAX_TEXT_BYTES: usize = 65536;
pub const MAX_TOOLS: usize = 64;
pub const MAX_CONTEXT_ARTIFACTS: usize = 128;
pub const MAX_JSON_FIELDS: usize = 128;

/// A controlled mutation class. The class describes what was changed, not
/// what a runtime is expected to do with that change.
#[derive(Debug, Clone, Copy, PartialEq, Eq, Structural)]
pub enum MutationClass {
    Baseline,
    ExactRepeat,
    StableContentBeginning,
    CurrentContentEnd,
    WhitespaceOnly,
    JsonFieldOrder,
    ToolDefinitionOrder,
    OptionalToolField,
    ToolDefinitionChange,
    ModelIdentifier,
    ReasoningSetting,
    ResponseFormat,
}

/// The relationship that lets a case be compared with a baseline or an
/// earlier case without relying on vector position alone.
#[derive(Debug, Clone, PartialEq, Eq)]
pub enum CaseRelationship {
    Baseline,
    ExactRepeatOf(String),
    MutationOf(String),
}

/// Expected result metadata, deliberately non-committal.
#[derive(Debug, Clone, Copy, PartialEq, Eq, Structural)]
pub enum ExpectedObservationState {
    Unknown,
    ToBeObserved,
}

#[derive(Debug, Clone, PartialEq, Eq)]
pub struct ExpectedObservationMetadata {
    pub cache_reuse: ExpectedObservationState,
    pub cache_write: ExpectedObservationState,
    pub notes: String,
}

#[derive(Debug, Clone, PartialEq)]
pub struct ContextArtifactInput {
    pub artifact_id: String,
    pub content: String,
}

#[derive(Debug, Clone, PartialEq, Eq)]
pub enum ReasoningSetting {
    Disabled,
    Enabled,
    Level(String),
}

#[derive(Debug, Clone, Copy, PartialEq, Eq, Structural)]
pub enum CompletionStatus {
    Complete,
    Failed,
}

/// A JSON field whose position in its object is intentional.
#[derive(Debug)]
pub struct JsonField {
    pub name: String,
    pub value: JsonValue,
}

/// A JSON object whose field order is part of its identity.
#[derive(Debug)]
pub struct OrderedJsonObject {
    pub fields: Vec<JsonField>,
}

#[derive(Debug)]
pub struct ToolDefinition {
    pub name: String,
    pub description: String,
    pub parameters: OrderedJsonObject,
}

#[derive(Debug)]
pub struct RequestContext {
    pub system_instruction: String,
    pub artifacts: Vec<ContextArtifactInput>,
    pub user_content: String,
    pub tools: Vec<ToolDefinition>,
}

#[derive(Debug)]
pub enum ResponseFormat {
    Text,
    JsonObject,
    JsonSchema(OrderedJsonObject),
}

#[derive(Debug)]
pub struct RequestEnvelope {
    pub model: String,
    pub reasoning: Option<ReasoningSetting>,
    pub response_format: Option<ResponseFormat>,
}

/// The smallest neutral request representation: the model-visible context,
/// kept apart from the request envelope.
#[derive(Debug)]
pub struct ConformanceRequest {
    pub context: RequestContext,
    pub envelope: RequestEnvelope,
}

/// An identifier: not blank and at most `MAX_ID_BYTES` bytes.
pub open spec fn conformance_id(s: Seq<char>) -> bool {
    bounded_text(s, MAX_ID_BYTES as int)
}

/// A text of at most `MAX_TEXT_BYTES` bytes.
pub open spec fn conformance_text(s: Seq<char>) -> bool {
    encode_utf8(s).len() <= MAX_TEXT_BYTES
}

fn validate_id(field: &str, value: &str) -> (r: Result<(), BenchmarkError>)
    ensures
        checked(r, conformance_id(value@)),
{
    if check_bounded_text(value, MAX_ID_BYTES) {
        Ok(())
    } else {
        Err(BenchmarkError::validation_owned(concat2(field, " is empty or exceeds 256 bytes")))
    }
}

fn validate_text(field: &str, value: &str) -> (r: Result<(), BenchmarkError>)
    ensures
        checked(r, conformance_text(value@)),
{
    if value.as_bytes().len() > MAX_TEXT_BYTES {
        return Err(BenchmarkError::validation_owned(concat2(field, " exceeds 65536 bytes")));
    }
    Ok(())
}

impl OrderedJsonObject {
    /// A bounded object whose field names are identifiers, each used once.
    pub open spec fn object_ok(self) -> bool {
        &&& self.fields.len() <= MAX_JSON_FIELDS
        &&& forall|i: int| 0 <= i < self.fields.len() ==> conformance_id((#[trigger] self.fields@[i]).name@)
        &&& forall|i: int, j: int| 0 <= i < j < self.fields.len() ==> self.fields@[i].name@ != self.fields@[j].name@
    }

    pub fn new(fields: Vec<JsonField>) -> (r: Self)
        ensures
            r.fields == fields,
    {
        Self { fields }
    }

    /// Checks the bound on the fields, their names, and that no name repeats.
    pub fn validate(&self, field: &str) -> (r: Result<(), BenchmarkError>)
        ensures
            checked(r, self.object_ok()),
    {
        if self.fields.len() > MAX_JSON_FIELDS {
            return Err(BenchmarkError::validation_owned(concat2(field, " exceeds 128 fields")));
        }
        let name_field = concat2(field, ".name");
        let mut i: usize = 0;
        while i < self.fields.len()
            invariant
                self.fields.len() <= MAX_JSON_FIELDS,
                i <= self.fields.len(),
                forall|k: int| 0 <= k < i ==> conformance_id((#[trigger] self.fields@[k]).name@),
                forall|k: int, m: int| 0 <= k < m < i ==> self.fields@[k].name@ != self.fields@[m].name@,
            decreases self.fields.len() - i,
        {
            let r = validate_id(name_field.as_str(), self.fields[i].name.as_str());
            if r.is_err() {
                return r;
            }
            let mut k: usize = 0;
            while k < i
                invariant
                    i < self.fields.len(),
                    k <= i,
                    forall|m: int| 0 <= m < k ==> self.fields@[m].name@ != self.fields@[i as int].name@,
                decreases i - k,
            {
                if str_eq(self.fields[k].name.as_str(), self.fields[i].name.as_str()) {
                    return Err(BenchmarkError::validation_owned(concat2(field, " contains duplicate field names")));
                }
                k = k + 1;
            }
            i = i + 1;
        }
        Ok(())
    }
}

/// Artifact identifiers and tool names are valid and each used once;
/// texts and lists are within their bounds; the envelope's model, reasoning
/// level and response schema are valid.
pub open spec fn request_ok(r: ConformanceRequest) -> bool {
    conformance_text(r.context.system_instruction@) && request_ok_but_instruction(r)
}

/// Every check of a valid request but that of its system instruction.
pub open spec fn request_ok_but_instruction(r: ConformanceRequest) -> bool {
    let c = r.context;
    let e = r.envelope;
    &&& conformance_text(c.user_content@)
    &&& c.artifacts.len() <= MAX_CONTEXT_ARTIFACTS
    &&& forall|i: int| 0 <= i < c.artifacts.len() ==> conformance_id((#[trigger] c.artifacts@[i]).artifact_id@)
        && conformance_text(c.artifacts@[i].content@)
    &&& forall|i: int, j: int| 0 <= i < j < c.artifacts.len() ==> c.artifacts@[i].artifact_id@ != c.artifacts@[j].artifact_id@
    &&& c.tools.len() <= MAX_TOOLS
    &&& forall|i: int| 0 <= i < c.tools.len() ==> conformance_id((#[trigger] c.tools@[i]).name@)
        && conformance_text(c.tools@[i].description@) && c.tools@[i].parameters.object_ok()
    &&& forall|i: int, j: int| 0 <= i < j < c.tools.len() ==> c.tools@[i].name@ != c.tools@[j].name@
    &&& conformance_id(e.model@)
    &&& (e.reasoning matches Some(ReasoningSetting::Level(level)) ==> conformance_id(level@))
    &&& (e.response_format matches Some(ResponseFormat::JsonSchema(schema)) ==> schema.object_ok())
}

impl ConformanceRequest {
    /// Checks the texts, the bounds, that artifact identifiers and tool names
    /// are valid and distinct, each tool's parameters, and the envelope.
    pub fn validate(&self) -> (r: Result<(), BenchmarkError>)
        ensures
            checked(r, request_ok(*self)),
    {
        let c = &self.context;
        let r = validate_text("context.system_instruction", c.system_instruction.as_str());
        if r.is_err() {
            return r;
        }
        let r = validate_text("context.user_content", c.user_content.as_str());
        if r.is_err() {
            return r;
        }
        if c.artifacts.len() > MAX_CONTEXT_ARTIFACTS {
            return Err(BenchmarkError::validation("context.artifacts exceeds its bound"));
        }
        let mut i: usize = 0;
        while i < c.artifacts.len()
            invariant
                *c == self.context,
                c.artifacts.len() <= MAX_CONTEXT_ARTIFACTS,
                i <= c.artifacts.len(),
                forall|k: int| 0 <= k < i ==> conformance_id((#[trigger] c.artifacts@[k]).artifact_id@)
                    && conformance_text(c.artifacts@[k].content@),
                forall|k: int, m: int| 0 <= k < m < i ==> c.artifacts@[k].artifact_id@ != c.artifacts@[m].artifact_id@,
            decreases c.artifacts.len() - i,
        {
            let r = validate_id("context.artifact_id", c.artifacts[i].artifact_id.as_str());
            if r.is_err() {
                return r;
            }
            let r = validate_text("context.artifact.content", c.artifacts[i].content.as_str());
            if r.is_err() {
                return r;
            }
            let mut k: usize = 0;
            while k < i
                invariant
                    *c == self.context,
                    i < c.artifacts.len(),
                    k <= i,
                    forall|m: int| 0 <= m < k ==> c.artifacts@[m].artifact_id@ != c.artifacts@[i as int].artifact_id@,
                decreases i - k,
            {
                if str_eq(c.artifacts[k].artifact_id.as_str(), c.artifacts[i].artifact_id.as_str()) {
                    return Err(BenchmarkError::validation("context contains duplicate artifact IDs"));
                }
                k = k + 1;
            }
            i = i + 1;
        }
        if c.tools.len() > MAX_TOOLS {
            return Err(BenchmarkError::validation("context.tools exceeds its bound"));
        }
        let mut i: usize = 0;
        while i < c.tools.len()
            invariant
                *c == self.context,
                c.tools.len() <= MAX_TOOLS,
                i <= c.tools.len(),
                forall|k: int| 0 <= k < i ==> conformance_id((#[trigger] c.tools@[k]).name@)
                    && conformance_text(c.tools@[k].description@) && c.tools@[k].parameters.object_ok(),
                forall|k: int, m: int| 0 <= k < m < i ==> c.tools@[k].name@ != c.tools@[m].name@,
            decreases c.tools.len() - i,
        {
            let r = validate_id("context.tool.name", c.tools[i].name.as_str());
            if r.is_err() {
                return r;
            }
            let r = validate_text("context.tool.description", c.tools[i].description.as_str());
            if r.is_err() {
                return r;
            }
            let r = c.tools[i].parameters.validate("context.tool.parameters");
            if r.is_err() {
                return r;
            }
            let mut k: usize = 0;
            while k < i
                invariant
                    *c == self.context,
                    i < c.tools.len(),
                    k <= i,
                    forall|m: int| 0 <= m < k ==> c.tools@[m].name@ != c.tools@[i as int].name@,
                decreases i - k,
            {
                if str_eq(c.tools[k].name.as_str(), c.tools[i].name.as_str()) {
                    return Err(BenchmarkError::validation("context contains duplicate tool names"));
                }
                k = k + 1;
            }
            i = i + 1;
        }
        let r = validate_id("envelope.model", self.envelope.model.as_str());
        if r.is_err() {
            return r;
        }
        match &self.envelope.reasoning {
            Some(ReasoningSetting::Level(level)) => {
                let r = validate_id("envelope.reasoning.level", level.as_str());
                if r.is_err() {
                    return r;
                }
            },
            _ => {},
        }
        match &self.envelope.response_format {
            Some(ResponseFormat::JsonSchema(schema)) => {
                let r = schema.validate("envelope.response_format.schema");
                if r.is_err() {
                    return r;
                }
            },
            _ => {},
        }
        Ok(())
    }
}

// ---------------------------------------------------------------------------
// Conformance experiments.

pub const MAX_CASES: usize = 128;
pub const MAX_METADATA_FIELDS: usize = 64;

/// What a conformance experiment reads of a runtime identity: its backend
/// and the observed provider, model, protocol, runtime and runtime version.
#[derive(Debug, Clone, PartialEq, Eq)]
pub struct RuntimeIdentity {
    pub backend: String,
    pub provider: Observed<String>,
    pub model: Observed<String>,
    pub protocol: Observed<String>,
    pub runtime: Observed<String>,
    pub runtime_version: Observed<String>,
}

/// The runtime profile an experiment is designed for.
#[derive(Debug, Clone, PartialEq, Eq)]
pub struct RuntimeProfileReference {
    pub profile_id: String,
    pub identity: RuntimeIdentity,
}

#[derive(Debug)]
pub struct ConformanceCase {
    pub case_id: String,
    pub mutation: MutationClass,
    pub request: ConformanceRequest,
    pub relationship: CaseRelationship,
    pub expected_observation: ExpectedObservationMetadata,
}

/// A baseline request and its controlled variants. `metadata` is a map,
/// held as key/value pairs in key order.
#[derive(Debug)]
pub struct ConformanceExperiment {
    pub schema_id: String,
    pub schema_version: u32,
    pub experiment_id: String,
    pub baseline_request: ConformanceRequest,
    pub cases: Vec<ConformanceCase>,
    pub runtime_profile: RuntimeProfileReference,
    pub metadata: Vec<(String, String)>,
}

/// An observed identity dimension, when known, is an identifier.
pub open spec fn known_id(o: Observed<String>) -> bool {
    match o {
        Observed::Known(s) => conformance_id(s@),
        _ => true,
    }
}

/// The profile identifier and backend are identifiers, and so is each known
/// identity dimension.
pub open spec fn profile_ok(p: RuntimeProfileReference) -> bool {
    &&& conformance_id(p.profile_id@)
    &&& conformance_id(p.identity.backend@)
    &&& known_id(p.identity.provider)
    &&& known_id(p.identity.model)
    &&& known_id(p.identity.protocol)
    &&& known_id(p.identity.runtime)
    &&& known_id(p.identity.runtime_version)
}

fn validate_known_id(field: &str, value: &Observed<String>) -> (r: Result<(), BenchmarkError>)
    ensures
        checked(r, known_id(*value)),
{
    match value {
        Observed::Known(s) => validate_id(field, s.as_str()),
        _ => Ok(()),
    }
}

impl RuntimeProfileReference {
    /// Checks the profile identifier, the backend and each known identity
    /// dimension (see `profile_ok`).
    pub fn validate(&self) -> (r: Result<(), BenchmarkError>)
        ensures
            checked(r, profile_ok(*self)),
    {
        let r = validate_id("runtime_profile.profile_id", self.profile_id.as_str());
        if r.is_err() {
            return r;
        }
        let r = validate_id("runtime_profile.identity.backend", self.identity.backend.as_str());
        if r.is_err() {
            return r;
        }
        let r = validate_known_id("runtime_profile.identity.provider", &self.identity.provider);
        if r.is_err() {
            return r;
        }
        let r = validate_known_id("runtime_profile.identity.model", &self.identity.model);
        if r.is_err() {
            return r;
        }
        let r = validate_known_id("runtime_profile.identity.protocol", &self.identity.protocol);
        if r.is_err() {
            return r;
        }
        let r = validate_known_id("runtime_profile.identity.runtime", &self.identity.runtime);
        if r.is_err() {
            return r;
        }
        validate_known_id("runtime_profile.identity.runtime_version", &self.identity.runtime_version)
    }
}

/// At most `MAX_METADATA_FIELDS` entries, with identifier keys and bounded
/// values, each key once and in key order.
pub open spec fn metadata_ok(m: Seq<(String, String)>) -> bool {
    &&& m.len() <= MAX_METADATA_FIELDS
    &&& forall|i: int| 0 <= i < m.len() ==> conformance_id((#[trigger] m[i]).0@) && conformance_text(m[i].1@)
    &&& keys_sorted(m)
}

fn validate_metadata(values: &Vec<(String, String)>) -> (r: Result<(), BenchmarkError>)
    ensures
        checked(r, metadata_ok(values@)),
{
    if values.len() > MAX_METADATA_FIELDS {
        return Err(BenchmarkError::validation("metadata exceeds its field bound"));
    }
    let mut i: usize = 0;
    while i < values.len()
        invariant
            values.len() <= MAX_METADATA_FIELDS,
            i <= values.len(),
            forall|k: int| 0 <= k < i ==> conformance_id((#[trigger] values@[k]).0@) && conformance_text(values@[k].1@),
        decreases values.len() - i,
    {
        let r = validate_id("metadata key", values[i].0.as_str());
        if r.is_err() {
            return r;
        }
        let r = validate_text("metadata value", values[i].1.as_str());
        if r.is_err() {
            return r;
        }
        i = i + 1;
    }
    if !check_keys_sorted(values) {
        return Err(BenchmarkError::validation("metadata keys must be unique and in key order"));
    }
    Ok(())
}

/// How many of the first `k` cases are the baseline.
pub open spec fn baseline_count(cases: Seq<ConformanceCase>, k: int) -> int
    decreases k,
{
    if k <= 0 {
        0
    } else {
        baseline_count(cases, k - 1) + if cases[k - 1].relationship is Baseline { 1int } else { 0int }
    }
}

/// Case `i` on its own: a valid identifier, a valid request, notes, and a
/// mutation class that fits its relationship. A baseline case carries the
/// baseline request (by fingerprint); a case repeats or mutates another
/// case, never itself.
pub open spec fn case_ok(cases: Seq<ConformanceCase>, fingerprints: Seq<Seq<char>>, baseline: Seq<char>, i: int) -> bool {
    let c = cases[i];
    &&& conformance_id(c.case_id@)
    &&& request_ok(c.request)
    &&& not_blank(c.expected_observation.notes@)
    &&& match c.relationship {
        CaseRelationship::Baseline => c.mutation == MutationClass::Baseline && fingerprints[i] == baseline,
        CaseRelationship::ExactRepeatOf(t) => c.mutation == MutationClass::ExactRepeat && t@ != c.case_id@,
        CaseRelationship::MutationOf(t) => c.mutation != MutationClass::Baseline
            && c.mutation != MutationClass::ExactRepeat && t@ != c.case_id@,
    }
}

/// Case `i`'s target exists; an exact repeat carries its target's request
/// (by fingerprint).
pub open spec fn target_ok(cases: Seq<ConformanceCase>, fingerprints: Seq<Seq<char>>, i: int) -> bool {
    match cases[i].relationship {
        CaseRelationship::Baseline => true,
        CaseRelationship::ExactRepeatOf(t) => exists|j: int| 0 <= j < cases.len() && (#[trigger] cases[j]).case_id@ == t@
            && fingerprints[i] == fingerprints[j],
        CaseRelationship::MutationOf(t) => exists|j: int| 0 <= j < cases.len() && (#[trigger] cases[j]).case_id@ == t@,
    }
}

impl ConformanceExperiment {
    /// The experiment is valid, given the fingerprints of its baseline
    /// request and of each case's request: a supported schema, a valid
    /// identifier, baseline request, runtime profile and metadata; one to
    /// `MAX_CASES` cases with distinct identifiers, each valid on its own and
    /// with an existing target, exactly one of them the baseline.
    pub open spec fn experiment_ok(self, baseline: Seq<char>, fingerprints: Seq<Seq<char>>) -> bool {
        let cases = self.cases@;
        &&& self.schema_id@ == CONFORMANCE_SCHEMA_ID@
        &&& self.schema_version == CONFORMANCE_SCHEMA_VERSION
        &&& conformance_id(self.experiment_id@)
        &&& request_ok(self.baseline_request)
        &&& profile_ok(self.runtime_profile)
        &&& metadata_ok(self.metadata@)
        &&& 0 < cases.len() <= MAX_CASES
        &&& forall|i: int| 0 <= i < cases.len() ==> #[trigger] case_ok(cases, fingerprints, baseline, i)
        &&& forall|i: int, j: int| 0 <= i < j < cases.len() ==> cases[i].case_id@ != cases[j].case_id@
        &&& baseline_count(cases, cases.len() as int) == 1
        &&& forall|i: int| 0 <= i < cases.len() ==> #[trigger] target_ok(cases, fingerprints, i)
    }

    /// Checks the experiment (see `experiment_ok`). `baseline_fingerprint`
    /// is the fingerprint of the baseline request and `case_fingerprints`
    /// those of the cases' requests, in case order.
    pub fn validate_with_fingerprints(&self, baseline_fingerprint: &str, case_fingerprints: &Vec<String>) -> (r: Result<(), BenchmarkError>)
        requires
            case_fingerprints.len() == self.cases.len(),
        ensures
            checked(r, self.experiment_ok(baseline_fingerprint@, views(case_fingerprints@))),
    {
        let ghost cases = self.cases@;
        let ghost fps = views(case_fingerprints@);
        if !str_eq(self.schema_id.as_str(), CONFORMANCE_SCHEMA_ID) {
            return Err(BenchmarkError::validation("unsupported conformance schema_id"));
        }
        if self.schema_version != CONFORMANCE_SCHEMA_VERSION {
            return Err(BenchmarkError::validation("unsupported conformance schema_version"));
        }
        let r = validate_id("experiment_id", self.experiment_id.as_str());
        if r.is_err() {
            return r;
        }
        let r = self.baseline_request.validate();
        if r.is_err() {
            return r;
        }
        let r = self.runtime_profile.validate();
        if r.is_err() {
            return r;
        }
        let r = validate_metadata(&self.metadata);
        if r.is_err() {
            return r;
        }
        if self.cases.len() == 0 || self.cases.len() > MAX_CASES {
            return Err(BenchmarkError::validation("experiment must contain a bounded non-empty case list"));
        }
        let mut baselines: usize = 0;
        let mut i: usize = 0;
        while i < self.cases.len()
            invariant
                cases == self.cases@,
                fps == views(case_fingerprints@),
                fps.len() == cases.len() <= MAX_CASES,
                i <= cases.len(),
                baselines == baseline_count(cases, i as int),
                baselines <= i,
                forall|k: int| 0 <= k < i ==> #[trigger] case_ok(cases, fps, baseline_fingerprint@, k),
                forall|k: int, m: int| 0 <= k < m < i ==> cases[k].case_id@ != cases[m].case_id@,
            decreases cases.len() - i,
        {
            let case = &self.cases[i];
            let r = validate_id("case_id", case.case_id.as_str());
            if r.is_err() {
                proof {
                    assert(!case_ok(cases, fps, baseline_fingerprint@, i as int));
                }
                return r;
            }
            let mut k: usize = 0;
            while k < i
                invariant
                    cases == self.cases@,
                    i < cases.len(),
                    k <= i,
                    forall|m: int| 0 <= m < k ==> cases[m].case_id@ != cases[i as int].case_id@,
                decreases i - k,
            {
                if str_eq(self.cases[k].case_id.as_str(), self.cases[i].case_id.as_str()) {
                    return Err(BenchmarkError::validation("experiment contains duplicate case IDs"));
                }
                k = k + 1;
            }
            let r = case.request.validate();
            if r.is_err() {
                proof {
                    assert(!case_ok(cases, fps, baseline_fingerprint@, i as int));
                }
                return r;
            }
            if !check_not_blank(case.expected_observation.notes.as_str()) {
                {
                    proof {
                        assert(!case_ok(cases, fps, baseline_fingerprint@, i as int));
                    }
                    return Err(BenchmarkError::validation("expected observation notes must not be empty"));
                }
            }
            match &case.relationship {
                CaseRelationship::Baseline => {
                    baselines = baselines + 1;
                    if case.mutation != MutationClass::Baseline {
                        {
                    proof {
                        assert(!case_ok(cases, fps, baseline_fingerprint@, i as int));
                    }
                    return Err(BenchmarkError::validation("baseline relationship requires baseline mutation"));
                }
                    }
                    if !str_eq(case_fingerprints[i].as_str(), baseline_fingerprint) {
                        {
                    proof {
                        assert(!case_ok(cases, fps, baseline_fingerprint@, i as int));
                    }
                    return Err(BenchmarkError::validation("baseline case does not match baseline_request"));
                }
                    }
                },
                CaseRelationship::ExactRepeatOf(target) => {
                    if case.mutation != MutationClass::ExactRepeat {
                        {
                    proof {
                        assert(!case_ok(cases, fps, baseline_fingerprint@, i as int));
                    }
                    return Err(BenchmarkError::validation("exact-repeat relationship has wrong mutation"));
                }
                    }
                    if str_eq(target.as_str(), case.case_id.as_str()) {
                        {
                    proof {
                        assert(!case_ok(cases, fps, baseline_fingerprint@, i as int));
                    }
                    return Err(BenchmarkError::validation("case cannot repeat itself"));
                }
                    }
                },
                CaseRelationship::MutationOf(target) => {
                    if case.mutation == MutationClass::Baseline || case.mutation == MutationClass::ExactRepeat {
                        {
                    proof {
                        assert(!case_ok(cases, fps, baseline_fingerprint@, i as int));
                    }
                    return Err(BenchmarkError::validation("mutation relationship has wrong mutation class"));
                }
                    }
                    if str_eq(target.as_str(), case.case_id.as_str()) {
                        {
                    proof {
                        assert(!case_ok(cases, fps, baseline_fingerprint@, i as int));
                    }
                    return Err(BenchmarkError::validation("case cannot mutate itself"));
                }
                    }
                },
            }
            proof {
                assert(case_ok(cases, fps, baseline_fingerprint@, i as int));
            }
            i = i + 1;
        }
        if baselines != 1 {
            return Err(BenchmarkError::validation("experiment must contain exactly one baseline case"));
        }
        let mut i: usize = 0;
        while i < self.cases.len()
            invariant
                cases == self.cases@,
                fps == views(case_fingerprints@),
                fps.len() == cases.len(),
                i <= cases.len(),
                forall|k: int, m: int| 0 <= k < m < cases.len() ==> cases[k].case_id@ != cases[m].case_id@,
                forall|k: int| 0 <= k < i ==> #[trigger] target_ok(cases, fps, k),
            decreases cases.len() - i,
        {
            match &self.cases[i].relationship {
                CaseRelationship::Baseline => {},
                CaseRelationship::ExactRepeatOf(target) => {
                    match find_case(&self.cases, target.as_str()) {
                        None => {
                            {
                            proof {
                                assert(!target_ok(cases, fps, i as int));
                            }
                            return Err(BenchmarkError::validation("exact-repeat target case does not exist"));
                        }
                        },
                        Some(j) => {
                            if !str_eq(case_fingerprints[i].as_str(), case_fingerprints[j].as_str()) {
                                proof {
                                    assert forall|m: int| 0 <= m < cases.len() && (#[trigger] cases[m]).case_id@ == target@
                                        implies fps[i as int] != fps[m] by {
                                        if m != j {
                                            if m < j {
                                                assert(cases[m].case_id@ != cases[j as int].case_id@);
                                            } else {
                                                assert(cases[j as int].case_id@ != cases[m].case_id@);
                                            }
                                        }
                                    }
                                    assert(!target_ok(cases, fps, i as int));
                                }
                                return Err(BenchmarkError::validation("exact-repeat request differs from its target"));
                            }
                        },
                    }
                },
                CaseRelationship::MutationOf(target) => {
                    if find_case(&self.cases, target.as_str()).is_none() {
                        {
                            proof {
                                assert(!target_ok(cases, fps, i as int));
                            }
                            return Err(BenchmarkError::validation("mutation target case does not exist"));
                        }
                    }
                },
            }
            proof {
                assert(target_ok(cases, fps, i as int));
            }
            i = i + 1;
        }
        Ok(())
    }
}

/// The position of the first case with identifier `id`.
fn find_case(cases: &Vec<ConformanceCase>, id: &str) -> (r: Option<usize>)
    ensures
        match r {
            Some(j) => j < cases.len() && cases@[j as int].case_id@ == id@,
            None => forall|j: int| 0 <= j < cases.len() ==> (#[trigger] cases@[j]).case_id@ != id@,
        },
{
    let mut j: usize = 0;
    while j < cases.len()
        invariant
            j <= cases.len(),
            forall|m: int| 0 <= m < j ==> (#[trigger] cases@[m]).case_id@ != id@,
        decreases cases.len() - j,
    {
        if str_eq(cases[j].case_id.as_str(), id) {
            return Some(j);
        }
        j = j + 1;
    }
    None
}

// ---------------------------------------------------------------------------
/// The fingerprints of the cases' requests, in case order.
pub open spec fn request_fingerprints(cases: Seq<ConformanceCase>) -> Seq<Seq<char>> {
    cases.map_values(|c: ConformanceCase| text_fingerprint(request_json(c.request)))
}

impl ConformanceExperiment {
    /// The baseline request and every case's request are valid.
    pub open spec fn requests_ok(self) -> bool {
        &&& request_ok(self.baseline_request)
        &&& forall|i: int| 0 <= i < self.cases.len() ==> request_ok(#[trigger] self.cases@[i].request)
    }

    /// Checks the experiment: every request is valid, and the experiment is
    /// (see `experiment_ok`) with the fingerprints of its own requests.
    pub fn validate(&self) -> (r: Result<(), BenchmarkError>)
        ensures
            checked(r, self.requests_ok() && self.experiment_ok(text_fingerprint(request_json(self.baseline_request)),
                request_fingerprints(self.cases@))),
    {
        let baseline = match self.baseline_request.request_fingerprint() {
            Ok(f) => f,
            Err(e) => return Err(e),
        };
        let mut fingerprints: Vec<String> = Vec::new();
        let mut i: usize = 0;
        while i < self.cases.len()
            invariant
                i <= self.cases.len(),
                fingerprints.len() == i,
                forall|k: int| 0 <= k < i ==> request_ok(#[trigger] self.cases@[k].request),
                forall|k: int| 0 <= k < i ==> (#[trigger] fingerprints@[k])@ == text_fingerprint(request_json(self.cases@[k].request)),
            decreases self.cases.len() - i,
        {
            match self.cases[i].request.request_fingerprint() {
                Ok(f) => fingerprints.push(f),
                Err(e) => return Err(e),
            }
            i = i + 1;
        }
        proof {
            assert(views(fingerprints@) =~= request_fingerprints(self.cases@));
        }
        self.validate_with_fingerprints(baseline.as_str(), &fingerprints)
    }
}

// Canonical JSON of requests, and their fingerprints.
//
// A record is written as JSON with its members in increasing key order; a
// JSON value is written as it is held.

pub open spec fn field_json(f: JsonField) -> Seq<char> {
    json_object(seq![member("name"@, json_string(f.name@)), member("value"@, value_json(f.value))])
}

pub open spec fn field_texts(fields: Seq<JsonField>) -> Seq<Seq<char>> {
    Seq::new(fields.len(), |i: int| field_json(fields[i]))
}

pub open spec fn ordered_object_json(o: OrderedJsonObject) -> Seq<char> {
    json_object(seq![member("fields"@, json_array(field_texts(o.fields@)))])
}

pub open spec fn artifact_json(a: ContextArtifactInput) -> Seq<char> {
    json_object(seq![member("artifact_id"@, json_string(a.artifact_id@)), member("content"@, json_string(a.content@))])
}

pub open spec fn tool_json(t: ToolDefinition) -> Seq<char> {
    json_object(seq![
        member("description"@, json_string(t.description@)),
        member("name"@, json_string(t.name@)),
        member("parameters"@, ordered_object_json(t.parameters)),
    ])
}

pub open spec fn reasoning_json(r: ReasoningSetting) -> Seq<char> {
    match r {
        ReasoningSetting::Disabled => json_string("disabled"@),
        ReasoningSetting::Enabled => json_string("enabled"@),
        ReasoningSetting::Level(level) => json_object(seq![member("level"@, json_string(level@))]),
    }
}

pub open spec fn response_format_json(f: ResponseFormat) -> Seq<char> {
    match f {
        ResponseFormat::Text => json_object(seq![member("kind"@, json_string("text"@))]),
        ResponseFormat::JsonObject => json_object(seq![member("kind"@, json_string("json_object"@))]),
        ResponseFormat::JsonSchema(schema) => json_object(seq![
            member("kind"@, json_string("json_schema"@)),
            member("schema"@, ordered_object_json(schema)),
        ]),
    }
}

pub open spec fn envelope_json(e: RequestEnvelope) -> Seq<char> {
    json_object(seq![member("model"@, json_string(e.model@))]
        + opt_member("reasoning"@, match e.reasoning { Some(r) => Some(reasoning_json(r)), None => None })
        + opt_member("response_format"@, match e.response_format { Some(f) => Some(response_format_json(f)), None => None }))
}

pub open spec fn artifact_texts(artifacts: Seq<ContextArtifactInput>) -> Seq<Seq<char>> {
    Seq::new(artifacts.len(), |i: int| artifact_json(artifacts[i]))
}

pub open spec fn tool_texts(tools: Seq<ToolDefinition>) -> Seq<Seq<char>> {
    Seq::new(tools.len(), |i: int| tool_json(tools[i]))
}

pub open spec fn context_json(c: RequestContext) -> Seq<char> {
    json_object(seq![
        member("artifacts"@, json_array(artifact_texts(c.artifacts@))),
        member("system_instruction"@, json_string(c.system_instruction@)),
        member("tools"@, json_array(tool_texts(c.tools@))),
        member("user_content"@, json_string(c.user_content@)),
    ])
}

pub open spec fn request_json(r: ConformanceRequest) -> Seq<char> {
    json_object(seq![member("context"@, context_json(r.context)), member("envelope"@, envelope_json(r.envelope))])
}

/// The SHA-256 fingerprint, in lowercase hexadecimal, of a JSON text.
pub open spec fn text_fingerprint(text: Seq<char>) -> Seq<char> {
    hex_lower(sha256_digest(encode_utf8(text)))
}

fn members2(k1: &str, v1: String, k2: &str, v2: String) -> (r: String)
    ensures
        r@ == json_object(seq![member(k1@, v1@), member(k2@, v2@)]),
{
    let mut m: Vec<String> = Vec::new();
    push_member(&mut m, k1, v1);
    push_member(&mut m, k2, v2);
    proof {
        assert(views(m@) =~= seq![member(k1@, v1@), member(k2@, v2@)]);
    }
    object_value(&m)
}

/// The canonical JSON of a field.
pub fn field_text(f: &JsonField) -> (r: String)
    ensures
        r@ == field_json(*f),
{
    proof {
        reveal_strlit("name");
        reveal_strlit("value");
    }
    members2("name", string_value(f.name.as_str()), "value", render_value(&f.value))
}

/// The canonical JSON of an ordered object.
pub fn ordered_object_text(o: &OrderedJsonObject) -> (r: String)
    ensures
        r@ == ordered_object_json(*o),
{
    let mut texts: Vec<String> = Vec::new();
    let mut i: usize = 0;
    while i < o.fields.len()
        invariant
            i <= o.fields.len(),
            views(texts@) == field_texts(o.fields@).take(i as int),
        decreases o.fields.len() - i,
    {
        let t = field_text(&o.fields[i]);
        let ghost before = texts@;
        texts.push(t);
        proof {
            assert(views(texts@) =~= views(before).push(field_json(o.fields@[i as int])));
            assert(views(texts@) =~= field_texts(o.fields@).take(i + 1));
        }
        i = i + 1;
    }
    proof {
        assert(field_texts(o.fields@).take(o.fields.len() as int) =~= field_texts(o.fields@));
    }
    let mut m: Vec<String> = Vec::new();
    push_member(&mut m, "fields", array_value(&texts));
    proof {
        assert(views(m@) =~= seq![member("fields"@, json_array(field_texts(o.fields@)))]);
    }
    object_value(&m)
}

fn artifact_text(a: &ContextArtifactInput) -> (r: String)
    ensures
        r@ == artifact_json(*a),
{
    members2("artifact_id", string_value(a.artifact_id.as_str()), "content", string_value(a.content.as_str()))
}

/// The canonical JSON of a tool definition.
pub fn tool_text(t: &ToolDefinition) -> (r: String)
    ensures
        r@ == tool_json(*t),
{
    let mut m: Vec<String> = Vec::new();
    push_member(&mut m, "description", string_value(t.description.as_str()));
    push_member(&mut m, "name", string_value(t.name.as_str()));
    push_member(&mut m, "parameters", ordered_object_text(&t.parameters));
    proof {
        assert(views(m@) =~= seq![
            member("description"@, json_string(t.description@)),
            member("name"@, json_string(t.name@)),
            member("parameters"@, ordered_object_json(t.parameters)),
        ]);
    }
    object_value(&m)
}

pub(crate) fn reasoning_text(r: &ReasoningSetting) -> (t: String)
    ensures
        t@ == reasoning_json(*r),
{
    match r {
        ReasoningSetting::Disabled => string_value("disabled"),
        ReasoningSetting::Enabled => string_value("enabled"),
        ReasoningSetting::Level(level) => {
            let mut m: Vec<String> = Vec::new();
            push_member(&mut m, "level", string_value(level.as_str()));
            proof {
                assert(views(m@) =~= seq![member("level"@, json_string(level@))]);
            }
            object_value(&m)
        },
    }
}

pub(crate) fn response_format_text(f: &ResponseFormat) -> (t: String)
    ensures
        t@ == response_format_json(*f),
{
    let mut m: Vec<String> = Vec::new();
    match f {
        ResponseFormat::Text => {
            push_member(&mut m, "kind", string_value("text"));
            proof {
                assert(views(m@) =~= seq![member("kind"@, json_string("text"@))]);
            }
        },
        ResponseFormat::JsonObject => {
            push_member(&mut m, "kind", string_value("json_object"));
            proof {
                assert(views(m@) =~= seq![member("kind"@, json_string("json_object"@))]);
            }
        },
        ResponseFormat::JsonSchema(schema) => {
            push_member(&mut m, "kind", string_value("json_schema"));
            push_member(&mut m, "schema", ordered_object_text(schema));
            proof {
                assert(views(m@) =~= seq![
                    member("kind"@, json_string("json_schema"@)),
                    member("schema"@, ordered_object_json(*schema)),
                ]);
            }
        },
    }
    object_value(&m)
}

/// The canonical JSON of a request envelope.
pub fn envelope_text(e: &RequestEnvelope) -> (r: String)
    ensures
        r@ == envelope_json(*e),
{
    let mut m: Vec<String> = Vec::new();
    push_member(&mut m, "model", string_value(e.model.as_str()));
    let ghost first = views(m@);
    let reasoning = match &e.reasoning {
        Some(r) => Some(reasoning_text(r)),
        None => None,
    };
    push_opt_member(&mut m, "reasoning", reasoning);
    let format = match &e.response_format {
        Some(f) => Some(response_format_text(f)),
        None => None,
    };
    push_opt_member(&mut m, "response_format", format);
    proof {
        assert(first =~= seq![member("model"@, json_string(e.model@))]);
    }
    object_value(&m)
}

/// The canonical JSON of each artifact, in order.
fn artifact_items(artifacts: &Vec<ContextArtifactInput>) -> (r: Vec<String>)
    ensures
        views(r@) == artifact_texts(artifacts@),
{
    let mut items: Vec<String> = Vec::new();
    let mut i: usize = 0;
    while i < artifacts.len()
        invariant
            i <= artifacts.len(),
            views(items@) == artifact_texts(artifacts@).take(i as int),
        decreases artifacts.len() - i,
    {
        let t = artifact_text(&artifacts[i]);
        let ghost before = items@;
        items.push(t);
        proof {
            assert(views(items@) =~= views(before).push(artifact_json(artifacts@[i as int])));
            assert(views(items@) =~= artifact_texts(artifacts@).take(i + 1));
        }
        i = i + 1;
    }
    proof {
        assert(artifact_texts(artifacts@).take(artifacts.len() as int) =~= artifact_texts(artifacts@));
    }
    items
}

/// The canonical JSON of each tool, in order.
fn tool_items(tools: &Vec<ToolDefinition>) -> (r: Vec<String>)
    ensures
        views(r@) == tool_texts(tools@),
{
    let mut items: Vec<String> = Vec::new();
    let mut i: usize = 0;
    while i < tools.len()
        invariant
            i <= tools.len(),
            views(items@) == tool_texts(tools@).take(i as int),
        decreases tools.len() - i,
    {
        let t = tool_text(&tools[i]);
        let ghost before = items@;
        items.push(t);
        proof {
            assert(views(items@) =~= views(before).push(tool_json(tools@[i as int])));
            assert(views(items@) =~= tool_texts(tools@).take(i + 1));
        }
        i = i + 1;
    }
    proof {
        assert(tool_texts(tools@).take(tools.len() as int) =~= tool_texts(tools@));
    }
    items
}

/// The canonical JSON of a request context.
#[verifier::spinoff_prover]
pub fn context_text(c: &RequestContext) -> (r: String)
    ensures
        r@ == context_json(*c),
{
    let artifacts = artifact_items(&c.artifacts);
    let tools = tool_items(&c.tools);
    let mut m: Vec<String> = Vec::new();
    push_member(&mut m, "artifacts", array_value(&artifacts));
    push_member(&mut m, "system_instruction", string_value(c.system_instruction.as_str()));
    push_member(&mut m, "tools", array_value(&tools));
    push_member(&mut m, "user_content", string_value(c.user_content.as_str()));
    proof {
        assert(views(m@) =~= seq![
            member("artifacts"@, json_array(artifact_texts(c.artifacts@))),
            member("system_instruction"@, json_string(c.system_instruction@)),
            member("tools"@, json_array(tool_texts(c.tools@))),
            member("user_content"@, json_string(c.user_content@)),
        ]);
    }
    object_value(&m)
}

/// The canonical JSON of a request.
pub fn request_text(r: &ConformanceRequest) -> (t: String)
    ensures
        t@ == request_json(*r),
{
    members2("context", context_text(&r.context), "envelope", envelope_text(&r.envelope))
}

impl ConformanceRequest {
    /// The fingerprint of the valid request: the SHA-256 digest of its
    /// canonical JSON.
    pub fn request_fingerprint(&self) -> (r: Result<String, BenchmarkError>)
        ensures
            match r {
                Ok(f) => request_ok(*self) && f@ == text_fingerprint(request_json(*self)) && f@.len() == 64,
                Err(e) => !request_ok(*self) && in_memory_validation(e),
            },
    {
        match self.validate() {
            Ok(_) => {},
            Err(e) => return Err(e),
        }
        let text = request_text(self);
        Ok(sha256_hex(text.as_str().as_bytes()))
    }

    /// The fingerprint of the valid request's context: the SHA-256 digest
    /// of the context's canonical JSON.
    pub fn context_fingerprint(&self) -> (r: Result<String, BenchmarkError>)
        ensures
            match r {
                Ok(f) => request_ok(*self) && f@ == text_fingerprint(context_json(self.context)) && f@.len() == 64,
                Err(e) => !request_ok(*self) && in_memory_validation(e),
            },
    {
        match self.validate() {
            Ok(_) => {},
            Err(e) => return Err(e),
        }
        let text = context_text(&self.context);
        Ok(sha256_hex(text.as_str().as_bytes()))
    }
}

// ---------------------------------------------------------------------------
// Copies of requests.

/// Two objects with the same field names and field values, in order.
pub open spec fn object_same(a: OrderedJsonObject, b: OrderedJsonObject) -> bool {
    &&& a.fields.len() == b.fields.len()
    &&& forall|i: int| 0 <= i < a.fields.len() ==> (#[trigger] a.fields@[i]).name@ == b.fields@[i].name@
        && value_json(a.fields@[i].value) == value_json(b.fields@[i].value)
}

/// Two requests that agree in everything but, perhaps, the system instruction.
pub open spec fn same_but_instruction(a: ConformanceRequest, b: ConformanceRequest) -> bool {
    let (x, y) = (a.context, b.context);
    &&& x.artifacts.len() == y.artifacts.len()
    &&& forall|i: int| 0 <= i < x.artifacts.len() ==> (#[trigger] x.artifacts@[i]).artifact_id@ == y.artifacts@[i].artifact_id@
        && x.artifacts@[i].content@ == y.artifacts@[i].content@
    &&& x.user_content@ == y.user_content@
    &&& x.tools.len() == y.tools.len()
    &&& forall|i: int| 0 <= i < x.tools.len() ==> (#[trigger] x.tools@[i]).name@ == y.tools@[i].name@
        && x.tools@[i].description@ == y.tools@[i].description@ && object_same(x.tools@[i].parameters, y.tools@[i].parameters)
    &&& a.envelope.model@ == b.envelope.model@
    &&& match (a.envelope.reasoning, b.envelope.reasoning) {
        (None, None) => true,
        (Some(ReasoningSetting::Disabled), Some(ReasoningSetting::Disabled)) => true,
        (Some(ReasoningSetting::Enabled), Some(ReasoningSetting::Enabled)) => true,
        (Some(ReasoningSetting::Level(l)), Some(ReasoningSetting::Level(m))) => l@ == m@,
        _ => false,
    }
    &&& match (a.envelope.response_format, b.envelope.response_format) {
        (None, None) => true,
        (Some(ResponseFormat::Text), Some(ResponseFormat::Text)) => true,
        (Some(ResponseFormat::JsonObject), Some(ResponseFormat::JsonObject)) => true,
        (Some(ResponseFormat::JsonSchema(s)), Some(ResponseFormat::JsonSchema(t))) => object_same(s, t),
        _ => false,
    }
}

proof fn lemma_object_same(a: OrderedJsonObject, b: OrderedJsonObject)
    requires
        object_same(a, b),
    ensures
        ordered_object_json(a) == ordered_object_json(b),
        a.object_ok() == b.object_ok(),
{
    assert(field_texts(a.fields@) =~= field_texts(b.fields@)) by {
        assert forall|i: int| 0 <= i < a.fields.len() implies field_json(a.fields@[i]) == field_json(b.fields@[i]) by {
            assert(a.fields@[i].name@ == b.fields@[i].name@);
        }
    }
    if a.object_ok() {
        assert forall|i: int, j: int| 0 <= i < j < b.fields.len() implies b.fields@[i].name@ != b.fields@[j].name@ by {
            assert(a.fields@[i].name@ == b.fields@[i].name@);
            assert(a.fields@[j].name@ == b.fields@[j].name@);
        }
        assert forall|i: int| 0 <= i < b.fields.len() implies conformance_id((#[trigger] b.fields@[i]).name@) by {
            assert(a.fields@[i].name@ == b.fields@[i].name@);
        }
    }
    if b.object_ok() {
        assert forall|i: int, j: int| 0 <= i < j < a.fields.len() implies a.fields@[i].name@ != a.fields@[j].name@ by {
            assert(a.fields@[i].name@ == b.fields@[i].name@);
            assert(a.fields@[j].name@ == b.fields@[j].name@);
        }
        assert forall|i: int| 0 <= i < a.fields.len() implies conformance_id((#[trigger] a.fields@[i]).name@) by {
            assert(a.fields@[i].name@ == b.fields@[i].name@);
        }
    }
}

/// Requests that agree but for the system instruction have the same
/// validity apart from it, and, with equal instructions, the same JSON.
pub proof fn lemma_same_but_instruction(a: ConformanceRequest, b: ConformanceRequest)
    requires
        same_but_instruction(a, b),
    ensures
        request_ok(b) == (conformance_text(b.context.system_instruction@) && request_ok_but_instruction(a)),
        request_ok(a) == (conformance_text(a.context.system_instruction@) && request_ok_but_instruction(a)),
        a.context.system_instruction@ == b.context.system_instruction@ ==> request_json(a) == request_json(b),
{
    let (x, y) = (a.context, b.context);
    assert forall|i: int| 0 <= i < x.tools.len() implies
        ordered_object_json(x.tools@[i].parameters) == ordered_object_json(y.tools@[i].parameters)
        && x.tools@[i].parameters.object_ok() == y.tools@[i].parameters.object_ok() by {
        lemma_object_same(x.tools@[i].parameters, y.tools@[i].parameters);
    }
    match (a.envelope.response_format, b.envelope.response_format) {
        (Some(ResponseFormat::JsonSchema(s)), Some(ResponseFormat::JsonSchema(t))) => lemma_object_same(s, t),
        _ => {},
    }
    assert(artifact_texts(x.artifacts@) =~= artifact_texts(y.artifacts@));
    assert(tool_texts(x.tools@) =~= tool_texts(y.tools@));
    assert(request_ok_but_instruction(a) == request_ok_but_instruction(b)) by {
        if request_ok_but_instruction(a) {
            assert forall|i: int| 0 <= i < y.artifacts.len() implies conformance_id((#[trigger] y.artifacts@[i]).artifact_id@)
                && conformance_text(y.artifacts@[i].content@) by {
                assert(conformance_id(x.artifacts@[i].artifact_id@) && conformance_text(x.artifacts@[i].content@));
            }
            assert forall|i: int| 0 <= i < y.tools.len() implies conformance_id((#[trigger] y.tools@[i]).name@)
                && conformance_text(y.tools@[i].description@) && y.tools@[i].parameters.object_ok() by {
                assert(conformance_id(x.tools@[i].name@) && conformance_text(x.tools@[i].description@)
                    && x.tools@[i].parameters.object_ok());
            }
            assert forall|i: int, j: int| 0 <= i < j < y.artifacts.len() implies
                y.artifacts@[i].artifact_id@ != y.artifacts@[j].artifact_id@ by {
                assert(x.artifacts@[i].artifact_id@ == y.artifacts@[i].artifact_id@);
                assert(x.artifacts@[j].artifact_id@ == y.artifacts@[j].artifact_id@);
            }
            assert forall|i: int, j: int| 0 <= i < j < y.tools.len() implies y.tools@[i].name@ != y.tools@[j].name@ by {
                assert(x.tools@[i].name@ == y.tools@[i].name@);
                assert(x.tools@[j].name@ == y.tools@[j].name@);
            }
        }
        if request_ok_but_instruction(b) {
            assert forall|i: int| 0 <= i < x.artifacts.len() implies conformance_id((#[trigger] x.artifacts@[i]).artifact_id@)
                && conformance_text(x.artifacts@[i].content@) by {
                assert(conformance_id(y.artifacts@[i].artifact_id@) && conformance_text(y.artifacts@[i].content@));
            }
            assert forall|i: int| 0 <= i < x.tools.len() implies conformance_id((#[trigger] x.tools@[i]).name@)
                && conformance_text(x.tools@[i].description@) && x.tools@[i].parameters.object_ok() by {
                assert(conformance_id(y.tools@[i].name@) && conformance_text(y.tools@[i].description@)
                    && y.tools@[i].parameters.object_ok());
            }
            assert forall|i: int, j: int| 0 <= i < j < x.artifacts.len() implies
                x.artifacts@[i].artifact_id@ != x.artifacts@[j].artifact_id@ by {
                assert(x.artifacts@[i].artifact_id@ == y.artifacts@[i].artifact_id@);
                assert(x.artifacts@[j].artifact_id@ == y.artifacts@[j].artifact_id@);
            }
            assert forall|i: int, j: int| 0 <= i < j < x.tools.len() implies x.tools@[i].name@ != x.tools@[j].name@ by {
                assert(x.tools@[i].name@ == y.tools@[i].name@);
                assert(x.tools@[j].name@ == y.tools@[j].name@);
            }
        }
    }
}

fn copy_object(o: &OrderedJsonObject) -> (r: OrderedJsonObject)
    ensures
        object_same(*o, r),
{
    let mut fields: Vec<JsonField> = Vec::new();
    let mut i: usize = 0;
    while i < o.fields.len()
        invariant
            i <= o.fields.len(),
            fields.len() == i,
            forall|k: int| 0 <= k < i ==> (#[trigger] o.fields@[k]).name@ == fields@[k].name@
                && value_json(o.fields@[k].value) == value_json(fields@[k].value),
        decreases o.fields.len() - i,
    {
        fields.push(JsonField { name: o.fields[i].name.clone(), value: copy_value(&o.fields[i].value) });
        i = i + 1;
    }
    OrderedJsonObject { fields }
}

/// A copy of a request with another system instruction.
pub fn with_instruction(r: &ConformanceRequest, instruction: String) -> (out: ConformanceRequest)
    ensures
        out.context.system_instruction == instruction,
        same_but_instruction(*r, out),
{
    let c = &r.context;
    let mut artifacts: Vec<ContextArtifactInput> = Vec::new();
    let mut i: usize = 0;
    while i < c.artifacts.len()
        invariant
            i <= c.artifacts.len(),
            artifacts.len() == i,
            forall|k: int| 0 <= k < i ==> (#[trigger] c.artifacts@[k]).artifact_id@ == artifacts@[k].artifact_id@
                && c.artifacts@[k].content@ == artifacts@[k].content@,
        decreases c.artifacts.len() - i,
    {
        artifacts.push(ContextArtifactInput {
            artifact_id: c.artifacts[i].artifact_id.clone(),
            content: c.artifacts[i].content.clone(),
        });
        i = i + 1;
    }
    let mut tools: Vec<ToolDefinition> = Vec::new();
    let mut j: usize = 0;
    while j < c.tools.len()
        invariant
            j <= c.tools.len(),
            tools.len() == j,
            forall|k: int| 0 <= k < j ==> (#[trigger] c.tools@[k]).name@ == tools@[k].name@
                && c.tools@[k].description@ == tools@[k].description@
                && object_same(c.tools@[k].parameters, tools@[k].parameters),
        decreases c.tools.len() - j,
    {
        tools.push(ToolDefinition {
            name: c.tools[j].name.clone(),
            description: c.tools[j].description.clone(),
            parameters: copy_object(&c.tools[j].parameters),
        });
        j = j + 1;
    }
    let reasoning = match &r.envelope.reasoning {
        None => None,
        Some(ReasoningSetting::Disabled) => Some(ReasoningSetting::Disabled),
        Some(ReasoningSetting::Enabled) => Some(ReasoningSetting::Enabled),
        Some(ReasoningSetting::Level(l)) => Some(ReasoningSetting::Level(l.clone())),
    };
    let response_format = match &r.envelope.response_format {
        None => None,
        Some(ResponseFormat::Text) => Some(ResponseFormat::Text),
        Some(ResponseFormat::JsonObject) => Some(ResponseFormat::JsonObject),
        Some(ResponseFormat::JsonSchema(s)) => Some(ResponseFormat::JsonSchema(copy_object(s))),
    };
    ConformanceRequest {
        context: RequestContext { system_instruction: instruction, artifacts, user_content: c.user_content.clone(), tools },
        envelope: RequestEnvelope { model: r.envelope.model.clone(), reasoning, response_format },
    }
}

} // verus!
