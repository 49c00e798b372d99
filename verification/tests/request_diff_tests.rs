use prefixity_controlled_benchmark::conformance::{
    request_text, ConformanceRequest, ContextArtifactInput, JsonField, OrderedJsonObject, ReasoningSetting,
    RequestContext, RequestEnvelope, ResponseFormat, ToolDefinition,
};
use prefixity_controlled_benchmark::context_stability::Observed;
use prefixity_controlled_benchmark::diff::{
    common_tool_units, compare_ordered_fields, compare_tools, envelope_diff, json_shape, prefix_diff, request_diff,
    value_summary, value_type, CacheImpactAssessment, ChangeCategory, DiffState, EnvelopeField,
};
use prefixity_controlled_benchmark::json_value::{render_value, JsonValue};
use serde_json::Value;
use sha2::{Digest, Sha256};

fn sha(text: &str) -> String {
    Sha256::digest(text.as_bytes()).iter().map(|b| format!("{b:02x}")).collect()
}

fn artifact(id: &str, content: &str) -> ContextArtifactInput {
    ContextArtifactInput { artifact_id: id.to_string(), content: content.to_string() }
}

fn field(name: &str, value: JsonValue) -> JsonField {
    JsonField { name: name.to_string(), value }
}

fn text(s: &str) -> JsonValue {
    JsonValue::Str(s.to_string())
}

fn tool(name: &str, description: &str, fields: Vec<JsonField>) -> ToolDefinition {
    ToolDefinition {
        name: name.to_string(),
        description: description.to_string(),
        parameters: OrderedJsonObject { fields },
    }
}

fn request() -> ConformanceRequest {
    ConformanceRequest {
        context: RequestContext {
            system_instruction: "You are careful.".to_string(),
            artifacts: vec![artifact("a", "alpha"), artifact("b", "beta")],
            user_content: "Summarise.".to_string(),
            tools: vec![tool("lookup", "Looks things up.", vec![field("type", text("string"))])],
        },
        envelope: RequestEnvelope {
            model: "local-model".to_string(),
            reasoning: Some(ReasoningSetting::Level("low".to_string())),
            response_format: Some(ResponseFormat::Text),
        },
    }
}

fn object(pairs: Vec<(&str, Value)>) -> Value {
    let mut m = serde_json::Map::new();
    for (k, v) in pairs {
        m.insert(k.to_string(), v);
    }
    Value::Object(m)
}

fn s(v: &str) -> Value {
    Value::String(v.to_string())
}

#[test]
fn json_values_render_as_serde_writes_them() {
    let v = JsonValue::Object(vec![
        ("a".to_string(), JsonValue::Array(vec![JsonValue::Number("1".to_string()), JsonValue::Null])),
        ("b".to_string(), JsonValue::Bool(true)),
        ("c".to_string(), text("x\"y")),
    ]);
    let expected = object(vec![
        ("a", Value::Array(vec![Value::from(1), Value::Null])),
        ("b", Value::Bool(true)),
        ("c", s("x\"y")),
    ]);
    assert_eq!(render_value(&v), serde_json::to_string(&expected).unwrap());
    assert_eq!(value_type(&v), "object");
    assert_eq!(json_shape(&v), r#"{"a":["number","null"],"b":"boolean","c":"string"}"#);
    let summary = value_summary(&v);
    assert_eq!(summary.value_type, "object");
    assert_eq!(summary.fingerprint, sha(&serde_json::to_string(&expected).unwrap()));
    assert_eq!(summary.size_bytes, serde_json::to_vec(&expected).unwrap().len());
    assert_eq!(summary.preview, None);
}

#[test]
fn request_text_is_the_sorted_compact_json() {
    let expected = object(vec![
        (
            "context",
            object(vec![
                (
                    "artifacts",
                    Value::Array(vec![
                        object(vec![("artifact_id", s("a")), ("content", s("alpha"))]),
                        object(vec![("artifact_id", s("b")), ("content", s("beta"))]),
                    ]),
                ),
                ("system_instruction", s("You are careful.")),
                (
                    "tools",
                    Value::Array(vec![object(vec![
                        ("description", s("Looks things up.")),
                        ("name", s("lookup")),
                        (
                            "parameters",
                            object(vec![(
                                "fields",
                                Value::Array(vec![object(vec![("name", s("type")), ("value", s("string"))])]),
                            )]),
                        ),
                    ])]),
                ),
                ("user_content", s("Summarise.")),
            ]),
        ),
        (
            "envelope",
            object(vec![
                ("model", s("local-model")),
                ("reasoning", object(vec![("level", s("low"))])),
                ("response_format", object(vec![("kind", s("text"))])),
            ]),
        ),
    ]);
    let json = serde_json::to_string(&expected).unwrap();
    assert_eq!(request_text(&request()), json);
    assert_eq!(request().request_fingerprint().unwrap(), sha(&json));
}

#[test]
fn identical_requests_have_an_empty_prefix_diff() {
    let d = prefix_diff(&request(), &request()).unwrap();
    assert!(d.identical);
    assert_eq!(d.left_context_fingerprint, d.right_context_fingerprint);
    assert!(d.changes.is_empty());
    assert!(d.first_divergence.is_none());
    assert_eq!(d.common_prefix.structural_units, 5);
    assert_eq!(d.common_prefix.artifact_units, 2);
    assert_eq!(d.common_prefix.tool_units, 1);
    assert_eq!(d.common_prefix.text.len(), 5);
    assert_eq!(d.common_prefix.text[0].path, "context.system_instruction");
    assert_eq!(d.common_prefix.text[1].path, "context.artifacts[0].content");
    assert_eq!(d.common_prefix.text[3].path, "context.current_user");
    assert_eq!(d.common_prefix.text[4].path, "context.tools[0].description");
    assert_eq!(d.common_prefix.token_units, Observed::NotObserved);
    assert_eq!(d.provenance[0], ("cache_semantics".to_string(), "not_observed".to_string()));
    assert_eq!(d.provenance[1], ("source".to_string(), "neutral-request-structure".to_string()));
    assert_eq!(d.cache_impact, CacheImpactAssessment::Unknown);
}

#[test]
fn prefix_diff_records_changes_in_context_order() {
    let left = request();
    let mut right = request();
    right.context.system_instruction = "You are very careful.".to_string();
    right.context.artifacts.swap(0, 1);
    right.context.tools[0].parameters.fields[0].value = JsonValue::Number("1".to_string());
    let d = prefix_diff(&left, &right).unwrap();
    assert!(!d.identical);
    let categories: Vec<ChangeCategory> = d.changes.iter().map(|c| c.category).collect();
    assert_eq!(
        categories,
        vec![
            ChangeCategory::TextContentChanged,
            ChangeCategory::ArtifactOrderChanged,
            ChangeCategory::JsonStructureChanged,
        ]
    );
    assert_eq!(d.changes[2].path, "context.tools[0].parameters.fields[0].value");
    assert_eq!(d.changes[2].right.as_ref().unwrap().value_type, "number");
    assert_eq!(d.first_divergence.as_ref().unwrap().path, "context.system_instruction");
    assert_eq!(d.common_prefix.structural_units, 0);
    assert_eq!(d.common_prefix.artifact_units, 0);
    assert_eq!(d.common_prefix.tool_units, 0);
    assert_eq!(d.common_prefix.text[0].common_bytes, 8);
}

#[test]
fn ordered_fields_record_order_presence_and_values() {
    let left = OrderedJsonObject { fields: vec![field("a", text("x")), field("b", text("y")), field("gone", text("z"))] };
    let right = OrderedJsonObject { fields: vec![field("b", text("y2")), field("a", text("x")), field("new", JsonValue::Null)] };
    let mut changes = Vec::new();
    compare_ordered_fields("p", &left, &right, &mut changes);
    let categories: Vec<ChangeCategory> = changes.iter().map(|c| c.category).collect();
    assert_eq!(
        categories,
        vec![
            ChangeCategory::OptionalSchemaFieldRemoved,
            ChangeCategory::OptionalSchemaFieldAdded,
            ChangeCategory::ValueChanged,
        ]
    );
    assert_eq!(changes[0].path, "p[2]");
    assert_eq!(changes[1].path, "p[2]");
    assert_eq!(changes[1].right.as_ref().unwrap().value_type, "null");
    assert_eq!(changes[2].path, "p[0].value");
    assert_eq!(changes[2].left.as_ref().unwrap().fingerprint, sha("\"y\""));
    let reordered = OrderedJsonObject { fields: vec![field("b", text("y")), field("a", text("x"))] };
    let same = OrderedJsonObject { fields: vec![field("a", text("x")), field("b", text("y"))] };
    let mut changes = Vec::new();
    compare_ordered_fields("q", &same, &reordered, &mut changes);
    assert_eq!(changes.len(), 1);
    assert_eq!(changes[0].category, ChangeCategory::OrderedSchemaFieldChanged);
    assert_eq!(changes[0].sequence_index, Some(0));
}

#[test]
fn tools_record_removal_addition_and_definition_changes() {
    let left = vec![tool("a", "first", vec![]), tool("b", "second", vec![])];
    let right = vec![tool("a", "first!", vec![]), tool("c", "third", vec![])];
    let mut changes = Vec::new();
    let mut text = Vec::new();
    compare_tools(&left, &right, &mut changes, &mut text);
    let categories: Vec<ChangeCategory> = changes.iter().map(|c| c.category).collect();
    assert_eq!(
        categories,
        vec![ChangeCategory::ToolRemoved, ChangeCategory::ToolAdded, ChangeCategory::ToolDefinitionChanged]
    );
    assert_eq!(changes[0].path, "context.tools[1]");
    assert_eq!(changes[2].path, "context.tools[0].description");
    assert_eq!(text.len(), 1);
    assert_eq!(text[0].common_bytes, 5);
    assert_eq!(common_tool_units(&left, &right), 0);
    assert_eq!(common_tool_units(&left, &left), 2);
}

#[test]
fn envelope_diff_compares_settings_only() {
    let left = request();
    let mut right = request();
    right.envelope.model = "m2".to_string();
    right.envelope.reasoning = None;
    right.context.user_content = "Other.".to_string();
    let d = envelope_diff(&left, &right).unwrap();
    assert!(!d.identical);
    assert_eq!(d.changes.len(), 2);
    assert_eq!(d.changes[0].field, EnvelopeField::Model);
    assert_eq!(d.changes[0].path, "envelope.model");
    assert!(!d.changes[0].presence_changed);
    assert_eq!(d.changes[0].right.as_ref().unwrap().fingerprint, sha("\"m2\""));
    assert_eq!(d.changes[0].right.as_ref().unwrap().value_type, "string");
    assert_eq!(d.changes[1].field, EnvelopeField::Reasoning);
    assert!(d.changes[1].presence_changed);
    assert!(d.changes[1].right.is_none());
    assert_eq!(d.changes[1].left.as_ref().unwrap().value_type, "object");
    assert_eq!(d.left_request_fingerprint, left.request_fingerprint().unwrap());
    let same = envelope_diff(&left, &left).unwrap();
    assert!(same.identical);
    assert!(same.changes.is_empty());
}

#[test]
fn request_diff_separates_context_and_envelope() {
    let left = request();
    let mut right = request();
    right.envelope.response_format = None;
    let d = request_diff(&left, &right).unwrap();
    assert_eq!(d.interpretation.context, DiffState::Identical);
    assert_eq!(d.interpretation.envelope, DiffState::Changed);
    assert!(d.prefix_diff.identical);
    assert_eq!(d.right_request_fingerprint, right.request_fingerprint().unwrap());
    let mut bad = request();
    bad.envelope.model = " ".to_string();
    assert!(request_diff(&left, &bad).is_err());
    assert!(prefix_diff(&bad, &left).is_err());
    assert!(envelope_diff(&left, &bad).is_err());
}
