//! The llama.cpp protocol adapter: the projection of a neutral request onto
//! a llama-server chat-completions request, and the records of its usage.
use vstd::prelude::*;
use crate::conformance::{request_ok, ConformanceRequest, OrderedJsonObject, ResponseFormat};
use crate::error::{in_memory_validation, BenchmarkError};
use crate::json_value::{copy_value, value_json, JsonValue};
use crate::text::owned;

verus! {

#[derive(Debug, Clone, PartialEq, Eq)]
pub struct LlamaCppMessage {
    pub role: String,
    pub content: String,
}

/// A JSON object whose fields keep the neutral request's order.
#[derive(Debug)]
pub struct LlamaCppJsonObject {
    pub fields: Vec<(String, JsonValue)>,
}

#[derive(Debug)]
pub struct LlamaCppFunction {
    pub name: String,
    pub description: String,
    pub parameters: LlamaCppJsonObject,
}

#[derive(Debug)]
pub struct LlamaCppTool {
    pub tool_type: String,
    pub function: LlamaCppFunction,
}

#[derive(Debug)]
pub enum LlamaCppResponseFormat {
    Text,
    JsonObject,
    JsonSchema { json_schema: LlamaCppJsonObject },
}

/// A llama-server chat-completions request with intentional message and
/// tool order.
#[derive(Debug)]
pub struct LlamaCppRequest {
    pub model: String,
    pub messages: Vec<LlamaCppMessage>,
    pub tools: Vec<LlamaCppTool>,
    pub response_format: Option<LlamaCppResponseFormat>,
}

#[derive(Debug, Clone, PartialEq)]
pub struct LlamaCppPromptTokenDetails {
    pub cached_tokens: Option<u64>,
}

#[derive(Debug, Clone, PartialEq)]
pub struct LlamaCppUsage {
    pub prompt_tokens: Option<u64>,
    pub completion_tokens: Option<u64>,
    pub total_tokens: Option<u64>,
    pub prompt_tokens_details: Option<LlamaCppPromptTokenDetails>,
}

/// `o` has the fields of `source`, in order: the same names and values that
/// render to the same JSON.
pub open spec fn object_projected(o: LlamaCppJsonObject, source: OrderedJsonObject) -> bool {
    &&& o.fields.len() == source.fields.len()
    &&& forall|i: int| 0 <= i < o.fields.len() ==> (#[trigger] o.fields@[i]).0@ == source.fields@[i].name@
        && value_json(o.fields@[i].1) == value_json(source.fields@[i].value)
}

/// The messages of a request: the system instruction, each context
/// artifact in order, then the current user content; the first as a system
/// message, the others as user messages.
pub open spec fn messages_projected(m: Seq<LlamaCppMessage>, request: ConformanceRequest) -> bool {
    let artifacts = request.context.artifacts@;
    &&& m.len() == artifacts.len() + 2
    &&& m[0].role@ == "system"@
    &&& m[0].content@ == request.context.system_instruction@
    &&& forall|i: int| 0 <= i < artifacts.len() ==> (#[trigger] m[i + 1]).role@ == "user"@
        && m[i + 1].content@ == artifacts[i].content@
    &&& m[m.len() - 1].role@ == "user"@
    &&& m[m.len() - 1].content@ == request.context.user_content@
}

/// Each tool of the request as a function tool, in order.
pub open spec fn tools_projected(t: Seq<LlamaCppTool>, request: ConformanceRequest) -> bool {
    let tools = request.context.tools@;
    &&& t.len() == tools.len()
    &&& forall|i: int| 0 <= i < t.len() ==> (#[trigger] t[i]).tool_type@ == "function"@
        && t[i].function.name@ == tools[i].name@
        && t[i].function.description@ == tools[i].description@
        && object_projected(t[i].function.parameters, tools[i].parameters)
}

/// The response format of the request, with a JSON schema's fields in order.
pub open spec fn format_projected(f: Option<LlamaCppResponseFormat>, source: Option<ResponseFormat>) -> bool {
    match (f, source) {
        (None, None) => true,
        (Some(LlamaCppResponseFormat::Text), Some(ResponseFormat::Text)) => true,
        (Some(LlamaCppResponseFormat::JsonObject), Some(ResponseFormat::JsonObject)) => true,
        (Some(LlamaCppResponseFormat::JsonSchema { json_schema }), Some(ResponseFormat::JsonSchema(schema))) =>
            object_projected(json_schema, schema),
        _ => false,
    }
}

fn project_object(source: &OrderedJsonObject) -> (r: LlamaCppJsonObject)
    ensures
        object_projected(r, *source),
{
    let mut fields: Vec<(String, JsonValue)> = Vec::new();
    let mut i: usize = 0;
    while i < source.fields.len()
        invariant
            i <= source.fields.len(),
            fields.len() == i,
            forall|k: int| 0 <= k < i ==> (#[trigger] fields@[k]).0@ == source.fields@[k].name@
                && value_json(fields@[k].1) == value_json(source.fields@[k].value),
        decreases source.fields.len() - i,
    {
        let name = source.fields[i].name.clone();
        fields.push((name, copy_value(&source.fields[i].value)));
        i = i + 1;
    }
    LlamaCppJsonObject { fields }
}

/// Projects a valid neutral request onto a llama-server request without
/// changing the represented content or its order. A request that is not
/// valid, or that sets reasoning (which llama.cpp cannot represent
/// faithfully), is refused.
pub fn project_llama_cpp_request(request: &ConformanceRequest) -> (r: Result<LlamaCppRequest, BenchmarkError>)
    ensures
        r is Ok <==> request_ok(*request) && request.envelope.reasoning is None,
        r is Err ==> in_memory_validation(r->Err_0),
        r matches Ok(p) ==> {
            &&& p.model@ == request.envelope.model@
            &&& messages_projected(p.messages@, *request)
            &&& tools_projected(p.tools@, *request)
            &&& format_projected(p.response_format, request.envelope.response_format)
        },
{
    match request.validate() {
        Ok(_) => {},
        Err(e) => return Err(e),
    }
    if request.envelope.reasoning.is_some() {
        return Err(BenchmarkError::validation("llama.cpp does not have a faithful neutral reasoning-setting projection"));
    }
    let context = &request.context;
    let mut messages: Vec<LlamaCppMessage> = Vec::new();
    messages.push(LlamaCppMessage { role: owned("system"), content: context.system_instruction.clone() });
    let mut i: usize = 0;
    while i < context.artifacts.len()
        invariant
            i <= context.artifacts.len(),
            messages.len() == i + 1,
            messages@[0].role@ == "system"@,
            messages@[0].content@ == context.system_instruction@,
            forall|k: int| 0 <= k < i ==> (#[trigger] messages@[k + 1]).role@ == "user"@
                && messages@[k + 1].content@ == context.artifacts@[k].content@,
        decreases context.artifacts.len() - i,
    {
        messages.push(LlamaCppMessage { role: owned("user"), content: context.artifacts[i].content.clone() });
        i = i + 1;
    }
    messages.push(LlamaCppMessage { role: owned("user"), content: context.user_content.clone() });
    let mut tools: Vec<LlamaCppTool> = Vec::new();
    let mut j: usize = 0;
    while j < context.tools.len()
        invariant
            j <= context.tools.len(),
            tools.len() == j,
            forall|k: int| 0 <= k < j ==> (#[trigger] tools@[k]).tool_type@ == "function"@
                && tools@[k].function.name@ == context.tools@[k].name@
                && tools@[k].function.description@ == context.tools@[k].description@
                && object_projected(tools@[k].function.parameters, context.tools@[k].parameters),
        decreases context.tools.len() - j,
    {
        let tool = &context.tools[j];
        tools.push(LlamaCppTool {
            tool_type: owned("function"),
            function: LlamaCppFunction {
                name: tool.name.clone(),
                description: tool.description.clone(),
                parameters: project_object(&tool.parameters),
            },
        });
        j = j + 1;
    }
    let response_format = match &request.envelope.response_format {
        None => None,
        Some(ResponseFormat::Text) => Some(LlamaCppResponseFormat::Text),
        Some(ResponseFormat::JsonObject) => Some(LlamaCppResponseFormat::JsonObject),
        Some(ResponseFormat::JsonSchema(schema)) =>
            Some(LlamaCppResponseFormat::JsonSchema { json_schema: project_object(schema) }),
    };
    Ok(LlamaCppRequest { model: request.envelope.model.clone(), messages, tools, response_format })
}

} // verus!
