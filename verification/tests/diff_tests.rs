use prefixity_controlled_benchmark::conformance::ContextArtifactInput;
use prefixity_controlled_benchmark::diff::{
    bounded_preview, common_artifact_units, common_byte_prefix, compare_artifacts, compare_text,
    ensure_change_bound, first_difference_index, presence_change, push_change, sequence_summary, summary_text,
    value_change, whitespace_only_change, ChangeCategory, DiffChange,
};
use sha2::{Digest, Sha256};

fn sha(text: &str) -> String {
    Sha256::digest(text.as_bytes()).iter().map(|b| format!("{b:02x}")).collect()
}

fn artifact(id: &str, content: &str) -> ContextArtifactInput {
    ContextArtifactInput { artifact_id: id.to_string(), content: content.to_string() }
}

fn strings(items: &[&str]) -> Vec<String> {
    items.iter().map(|s| s.to_string()).collect()
}

#[test]
fn common_prefix_is_counted_in_bytes() {
    assert_eq!(common_byte_prefix("abcd", "abxy"), 2);
    assert_eq!(common_byte_prefix("", "a"), 0);
    assert_eq!(common_byte_prefix("same", "same"), 4);
    assert_eq!(common_byte_prefix("é", "è"), 1);
}

#[test]
fn previews_keep_short_texts_and_cut_long_ones_at_characters() {
    assert_eq!(bounded_preview("short"), Some("short".to_string()));
    let long = "a".repeat(100);
    assert_eq!(bounded_preview(&long), Some(format!("{}…[truncated]", "a".repeat(64))));
    let split = format!("{}é{}", "a".repeat(63), "b".repeat(10));
    assert_eq!(bounded_preview(&split), Some(format!("{}…[truncated]", "a".repeat(63))));
    let exact = "x".repeat(64);
    assert_eq!(bounded_preview(&exact), Some(exact.clone()));
}

#[test]
fn text_summaries_fingerprint_the_bytes() {
    let s = summary_text("hello");
    assert_eq!(s.value_type, "string");
    assert_eq!(s.fingerprint, sha("hello"));
    assert_eq!(s.size_bytes, 5);
    assert_eq!(s.preview, Some("hello".to_string()));
    let names = strings(&["b", "a\"q"]);
    let json = serde_json::to_string(&names).unwrap();
    let s = sequence_summary(&names);
    assert_eq!(s.value_type, "array");
    assert_eq!(s.fingerprint, sha(&json));
    assert_eq!(s.size_bytes, json.len());
    assert_eq!(s.preview, None);
}

#[test]
fn whitespace_only_differences_are_recognised() {
    assert!(whitespace_only_change("a b", "ab\n"));
    assert!(whitespace_only_change("x\u{3000}y", "xy"));
    assert!(!whitespace_only_change("a", "b"));
}

#[test]
fn compare_text_records_prefix_and_change() {
    let mut changes = Vec::new();
    let mut text = Vec::new();
    compare_text("p".to_string(), "same", "same", ChangeCategory::TextContentChanged, None, &mut changes, &mut text);
    assert!(changes.is_empty());
    assert_eq!(text.len(), 1);
    assert_eq!(text[0].common_bytes, 4);
    compare_text("q".to_string(), "a b", "ab", ChangeCategory::TextContentChanged, Some(3), &mut changes, &mut text);
    assert_eq!(changes.len(), 1);
    let c = &changes[0];
    assert_eq!(c.path, "q");
    assert!(c.content_changed && !c.order_changed && !c.presence_changed);
    assert!(c.whitespace_only);
    assert_eq!(c.sequence_index, Some(3));
    assert_eq!(c.left.as_ref().unwrap().fingerprint, sha("a b"));
    assert_eq!(text[1].left_bytes, 3);
    assert_eq!(text[1].right_bytes, 2);
    assert_eq!(text[1].common_bytes, 1);
}

#[test]
fn first_difference_of_name_lists() {
    assert_eq!(first_difference_index(&strings(&["a", "b"]), &strings(&["a", "c"])), Some(1));
    assert_eq!(first_difference_index(&strings(&["a"]), &strings(&["a", "c"])), Some(1));
    assert_eq!(first_difference_index(&strings(&["a", "b"]), &strings(&["a", "b"])), None);
}

#[test]
fn reordered_artifacts_record_one_order_change() {
    let left = vec![artifact("a", "x"), artifact("b", "y")];
    let right = vec![artifact("b", "y"), artifact("a", "x")];
    let mut changes = Vec::new();
    let mut text = Vec::new();
    compare_artifacts(&left, &right, &mut changes, &mut text);
    assert_eq!(changes.len(), 1);
    assert_eq!(changes[0].path, "context.artifacts");
    assert_eq!(changes[0].category, ChangeCategory::ArtifactOrderChanged);
    assert!(changes[0].order_changed);
    assert_eq!(changes[0].sequence_index, Some(0));
    assert_eq!(changes[0].left.as_ref().unwrap().fingerprint, sha("[\"a\",\"b\"]"));
    assert_eq!(text.len(), 2);
    assert_eq!(text[0].path, "context.artifacts[1].content");
    assert_eq!(text[1].path, "context.artifacts[0].content");
}

#[test]
fn removed_added_and_changed_artifacts() {
    let left = vec![artifact("a", "x"), artifact("gone", "old")];
    let right = vec![artifact("a", "x2"), artifact("new", "fresh")];
    let mut changes = Vec::new();
    let mut text = Vec::new();
    compare_artifacts(&left, &right, &mut changes, &mut text);
    assert_eq!(changes.len(), 3);
    assert_eq!(changes[0].path, "context.artifacts[1]");
    assert_eq!(changes[0].category, ChangeCategory::ArtifactRemoved);
    assert!(changes[0].presence_changed);
    assert!(changes[0].right.is_none());
    assert_eq!(changes[1].category, ChangeCategory::ArtifactAdded);
    assert_eq!(changes[1].right.as_ref().unwrap().preview, Some("fresh".to_string()));
    assert_eq!(changes[2].path, "context.artifacts[0].content");
    assert_eq!(changes[2].category, ChangeCategory::ArtifactContentChanged);
    assert_eq!(text.len(), 1);
    assert_eq!(common_artifact_units(&left, &right), 0);
    assert_eq!(common_artifact_units(&left, &left), 2);
}

fn change(i: usize) -> DiffChange {
    presence_change(format!("p{i}"), ChangeCategory::PresenceChanged, None, None, Some(i))
}

#[test]
fn change_records_are_bounded() {
    let mut changes = Vec::new();
    for i in 0..300 {
        push_change(&mut changes, change(i));
    }
    assert_eq!(changes.len(), 257);
    assert!(ensure_change_bound(&changes).is_err());
    changes.pop();
    assert!(ensure_change_bound(&changes).is_ok());
    let v = value_change("v".to_string(), ChangeCategory::ValueChanged, None, None, None);
    assert!(v.content_changed && !v.presence_changed);
}

use prefixity_controlled_benchmark::conformance::{
    CaseRelationship, ConformanceCase, ConformanceExperiment, ConformanceRequest, ExpectedObservationMetadata,
    ExpectedObservationState, JsonField, MutationClass, OrderedJsonObject, ReasoningSetting, RequestContext,
    RequestEnvelope, ResponseFormat, RuntimeIdentity, RuntimeProfileReference, ToolDefinition,
};
use prefixity_controlled_benchmark::context_stability::Observed;
use prefixity_controlled_benchmark::error::BenchmarkError;
use prefixity_controlled_benchmark::json_value::JsonValue;

fn field(name: &str) -> JsonField {
    JsonField { name: name.to_string(), value: JsonValue::Str("string".to_string()) }
}

fn request() -> ConformanceRequest {
    ConformanceRequest {
        context: RequestContext {
            system_instruction: "You are careful.".to_string(),
            artifacts: vec![artifact("a", "alpha"), artifact("b", "beta")],
            user_content: "Summarise.".to_string(),
            tools: vec![ToolDefinition {
                name: "lookup".to_string(),
                description: "Looks things up.".to_string(),
                parameters: OrderedJsonObject::new(vec![field("type"), field("properties")]),
            }],
        },
        envelope: RequestEnvelope {
            model: "local-model".to_string(),
            reasoning: Some(ReasoningSetting::Level("low".to_string())),
            response_format: Some(ResponseFormat::JsonSchema(OrderedJsonObject::new(vec![field("type")]))),
        },
    }
}

#[test]
fn conformance_request_validation() {
    assert!(request().validate().is_ok());
    let mut r = request();
    r.context.artifacts.push(artifact("a", "again"));
    assert!(matches!(
        r.validate(),
        Err(prefixity_controlled_benchmark::error::BenchmarkError::Validation { message, .. })
            if message == "context contains duplicate artifact IDs"
    ));
    let mut r = request();
    r.context.tools[0].parameters.fields.push(field("type"));
    assert!(r.validate().is_err());
    let mut r = request();
    r.envelope.model = "  ".to_string();
    assert!(r.validate().is_err());
    let mut r = request();
    r.envelope.reasoning = Some(ReasoningSetting::Level(String::new()));
    assert!(r.validate().is_err());
    let mut r = request();
    r.context.user_content = "x".repeat(65537);
    assert!(r.validate().is_err());
    let mut r = request();
    r.envelope.response_format = Some(ResponseFormat::JsonSchema(OrderedJsonObject::new(vec![field(""), field("x")])));
    assert!(r.validate().is_err());
}

fn identity() -> RuntimeIdentity {
    RuntimeIdentity {
        backend: "llama.cpp".to_string(),
        provider: Observed::Known("local".to_string()),
        model: Observed::Known("fixture-model".to_string()),
        protocol: Observed::Unknown,
        runtime: Observed::NotObserved,
        runtime_version: Observed::Unknown,
    }
}

fn case(id: &str, mutation: MutationClass, relationship: CaseRelationship) -> ConformanceCase {
    ConformanceCase {
        case_id: id.to_string(),
        mutation,
        request: request(),
        relationship,
        expected_observation: ExpectedObservationMetadata {
            cache_reuse: ExpectedObservationState::Unknown,
            cache_write: ExpectedObservationState::ToBeObserved,
            notes: "no expectation".to_string(),
        },
    }
}

fn experiment() -> ConformanceExperiment {
    ConformanceExperiment {
        schema_id: "prefixity.cache-conformance".to_string(),
        schema_version: 1,
        experiment_id: "exp".to_string(),
        baseline_request: request(),
        cases: vec![
            case("base", MutationClass::Baseline, CaseRelationship::Baseline),
            case("repeat", MutationClass::ExactRepeat, CaseRelationship::ExactRepeatOf("base".to_string())),
            case("ws", MutationClass::WhitespaceOnly, CaseRelationship::MutationOf("base".to_string())),
        ],
        runtime_profile: RuntimeProfileReference { profile_id: "profile".to_string(), identity: identity() },
        metadata: vec![("purpose".to_string(), "test".to_string())],
    }
}

fn fingerprints() -> Vec<String> {
    vec!["f0".to_string(), "f0".to_string(), "f1".to_string()]
}

fn validation_message(r: Result<(), BenchmarkError>) -> String {
    match r {
        Err(BenchmarkError::Validation { message, .. }) => message,
        other => panic!("unexpected {other:?}"),
    }
}

#[test]
fn runtime_profile_needs_identifier_dimensions() {
    let p = RuntimeProfileReference { profile_id: "profile".to_string(), identity: identity() };
    assert_eq!(p.validate(), Ok(()));
    let mut q = p.clone();
    q.identity.model = Observed::Known(" ".to_string());
    assert_eq!(validation_message(q.validate()), "runtime_profile.identity.model is empty or exceeds 256 bytes");
    let mut q = p.clone();
    q.identity.backend = String::new();
    assert!(q.validate().is_err());
}

#[test]
fn conformance_experiment_validation() {
    assert_eq!(experiment().validate_with_fingerprints("f0", &fingerprints()), Ok(()));
    assert_eq!(
        validation_message(experiment().validate_with_fingerprints("other", &fingerprints())),
        "baseline case does not match baseline_request"
    );
    assert_eq!(
        validation_message(experiment().validate_with_fingerprints("f0", &vec!["f0".to_string(), "f2".to_string(), "f1".to_string()])),
        "exact-repeat request differs from its target"
    );
    let mut e = experiment();
    e.cases.push(case("base", MutationClass::Baseline, CaseRelationship::Baseline));
    let mut fps = fingerprints();
    fps.push("f0".to_string());
    assert_eq!(validation_message(e.validate_with_fingerprints("f0", &fps)), "experiment contains duplicate case IDs");
    let mut e = experiment();
    e.cases[2].relationship = CaseRelationship::MutationOf("missing".to_string());
    assert_eq!(validation_message(e.validate_with_fingerprints("f0", &fingerprints())), "mutation target case does not exist");
    let mut e = experiment();
    e.cases[1].relationship = CaseRelationship::ExactRepeatOf("missing".to_string());
    assert_eq!(validation_message(e.validate_with_fingerprints("f0", &fingerprints())), "exact-repeat target case does not exist");
    let mut e = experiment();
    e.cases[2].mutation = MutationClass::ExactRepeat;
    assert_eq!(validation_message(e.validate_with_fingerprints("f0", &fingerprints())), "mutation relationship has wrong mutation class");
    let mut e = experiment();
    e.cases[2].relationship = CaseRelationship::MutationOf("ws".to_string());
    assert_eq!(validation_message(e.validate_with_fingerprints("f0", &fingerprints())), "case cannot mutate itself");
    let mut e = experiment();
    e.cases[0].relationship = CaseRelationship::MutationOf("ws".to_string());
    e.cases[0].mutation = MutationClass::WhitespaceOnly;
    assert_eq!(validation_message(e.validate_with_fingerprints("f0", &fingerprints())), "experiment must contain exactly one baseline case");
    let mut e = experiment();
    e.cases[1].expected_observation.notes = "  ".to_string();
    assert_eq!(validation_message(e.validate_with_fingerprints("f0", &fingerprints())), "expected observation notes must not be empty");
    let mut e = experiment();
    e.cases.clear();
    assert_eq!(
        validation_message(e.validate_with_fingerprints("f0", &vec![])),
        "experiment must contain a bounded non-empty case list"
    );
    let mut e = experiment();
    e.schema_version = 2;
    assert_eq!(validation_message(e.validate_with_fingerprints("f0", &fingerprints())), "unsupported conformance schema_version");
    let mut e = experiment();
    e.metadata = (0..65).map(|i| (format!("k{i}"), "v".to_string())).collect();
    assert_eq!(validation_message(e.validate_with_fingerprints("f0", &fingerprints())), "metadata exceeds its field bound");
}

#[test]
fn conformance_experiment_validation_uses_its_own_request_fingerprints() {
    assert_eq!(experiment().validate(), Ok(()));
    let mut e = experiment();
    e.cases[1].request.context.user_content = "Changed.".to_string();
    assert_eq!(validation_message(e.validate()), "exact-repeat request differs from its target");
    let mut e = experiment();
    e.cases[0].request.envelope.model = "other-model".to_string();
    assert_eq!(validation_message(e.validate()), "baseline case does not match baseline_request");
    let mut e = experiment();
    e.cases[2].request.envelope.model = " ".to_string();
    assert!(e.validate().is_err());
}

#[test]
fn metadata_keys_must_be_unique_and_sorted() {
    let mut e = experiment();
    e.metadata = vec![("b".to_string(), "1".to_string()), ("a".to_string(), "2".to_string())];
    assert_eq!(
        validation_message(e.validate_with_fingerprints("f0", &fingerprints())),
        "metadata keys must be unique and in key order"
    );
    let mut e = experiment();
    e.metadata = vec![("a".to_string(), "1".to_string()), ("a".to_string(), "2".to_string())];
    assert!(e.validate_with_fingerprints("f0", &fingerprints()).is_err());
    let mut e = experiment();
    e.metadata = vec![("a".to_string(), "1".to_string()), ("b".to_string(), "2".to_string())];
    assert_eq!(e.validate_with_fingerprints("f0", &fingerprints()), Ok(()));
}
