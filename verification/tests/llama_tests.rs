use prefixity_controlled_benchmark::conformance::{
    ConformanceRequest, ContextArtifactInput, JsonField, OrderedJsonObject, ReasoningSetting, RequestContext,
    RequestEnvelope, ResponseFormat, ToolDefinition,
};
use prefixity_controlled_benchmark::error::BenchmarkError;
use prefixity_controlled_benchmark::json_value::JsonValue;
use prefixity_controlled_benchmark::llama_cpp::{project_llama_cpp_request, LlamaCppResponseFormat};

fn field(name: &str, value: &str) -> JsonField {
    JsonField { name: name.to_string(), value: JsonValue::Str(value.to_string()) }
}

fn request() -> ConformanceRequest {
    ConformanceRequest {
        context: RequestContext {
            system_instruction: "You are careful.".to_string(),
            artifacts: vec![
                ContextArtifactInput { artifact_id: "b".to_string(), content: "beta".to_string() },
                ContextArtifactInput { artifact_id: "a".to_string(), content: "alpha".to_string() },
            ],
            user_content: "Summarise.".to_string(),
            tools: vec![ToolDefinition {
                name: "lookup".to_string(),
                description: "Looks things up.".to_string(),
                parameters: OrderedJsonObject::new(vec![field("type", "object"), field("properties", "none")]),
            }],
        },
        envelope: RequestEnvelope {
            model: "local-model".to_string(),
            reasoning: None,
            response_format: Some(ResponseFormat::JsonSchema(OrderedJsonObject::new(vec![field("type", "object")]))),
        },
    }
}

#[test]
fn projection_keeps_content_and_order() {
    let p = project_llama_cpp_request(&request()).unwrap();
    assert_eq!(p.model, "local-model");
    let messages: Vec<(&str, &str)> = p.messages.iter().map(|m| (m.role.as_str(), m.content.as_str())).collect();
    assert_eq!(
        messages,
        vec![("system", "You are careful."), ("user", "beta"), ("user", "alpha"), ("user", "Summarise.")]
    );
    assert_eq!(p.tools.len(), 1);
    assert_eq!(p.tools[0].tool_type, "function");
    assert_eq!(p.tools[0].function.name, "lookup");
    assert_eq!(p.tools[0].function.description, "Looks things up.");
    let names: Vec<&str> = p.tools[0].function.parameters.fields.iter().map(|f| f.0.as_str()).collect();
    assert_eq!(names, vec!["type", "properties"]);
    assert!(matches!(&p.tools[0].function.parameters.fields[0].1, JsonValue::Str(s) if s == "object"));
    match &p.response_format {
        Some(LlamaCppResponseFormat::JsonSchema { json_schema }) => {
            assert_eq!(json_schema.fields.len(), 1);
            assert_eq!(json_schema.fields[0].0, "type");
        }
        other => panic!("unexpected response format {other:?}"),
    }
}

#[test]
fn projection_without_artifacts_or_format() {
    let mut r = request();
    r.context.artifacts.clear();
    r.context.tools.clear();
    r.envelope.response_format = Some(ResponseFormat::Text);
    let p = project_llama_cpp_request(&r).unwrap();
    assert_eq!(p.messages.len(), 2);
    assert_eq!(p.messages[1].content, "Summarise.");
    assert!(p.tools.is_empty());
    assert!(matches!(p.response_format, Some(LlamaCppResponseFormat::Text)));
    r.envelope.response_format = None;
    assert!(project_llama_cpp_request(&r).unwrap().response_format.is_none());
}

#[test]
fn projection_refuses_reasoning_and_invalid_requests() {
    let mut r = request();
    r.envelope.reasoning = Some(ReasoningSetting::Disabled);
    assert_eq!(
        project_llama_cpp_request(&r).err(),
        Some(BenchmarkError::Validation {
            path: "<in-memory>".to_string(),
            message: "llama.cpp does not have a faithful neutral reasoning-setting projection".to_string(),
        })
    );
    let mut r = request();
    r.envelope.model = " ".to_string();
    assert!(project_llama_cpp_request(&r).is_err());
}
