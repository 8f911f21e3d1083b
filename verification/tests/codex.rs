use crabclaw::codex::{
    decode_tool_name, encode_tool_name, finish_reason, instructions, resolve_reasoning_effort,
    tool_choice,
};

#[test]
fn reasoning_effort_clamping() {
    assert_eq!(resolve_reasoning_effort("gpt-5-codex", None), "high");
    assert_eq!(resolve_reasoning_effort("gpt-5.3-codex", None), "high");
}

#[test]
fn reasoning_effort_follows_configured_value_per_model() {
    assert_eq!(resolve_reasoning_effort("gpt-5-codex", Some("MINIMAL")), "low");
    assert_eq!(resolve_reasoning_effort("gpt-5-codex", Some("Medium")), "medium");
    assert_eq!(resolve_reasoning_effort("gpt-5-codex", Some("xhigh")), "high");
    assert_eq!(resolve_reasoning_effort("gpt-5.1-codex-mini", Some("xhigh")), "high");
    assert_eq!(resolve_reasoning_effort("gpt-5.1-codex-mini-x", Some("low")), "medium");
    assert_eq!(resolve_reasoning_effort("gpt-5.2-codex", Some("minimal")), "low");
    assert_eq!(resolve_reasoning_effort("gpt-5.2-codex", Some("low")), "low");
    assert_eq!(resolve_reasoning_effort("other", Some("Minimal")), "minimal");
}

#[test]
fn tool_names_lose_and_regain_their_dots() {
    assert_eq!(encode_tool_name("file.write"), "file__write");
    assert_eq!(encode_tool_name("a.b.c"), "a__b__c");
    assert_eq!(encode_tool_name("plain"), "plain");
    assert_eq!(decode_tool_name("file__write"), "file.write");
    assert_eq!(decode_tool_name("a___b"), "a._b");
    assert_eq!(decode_tool_name(&encode_tool_name("schedule.add")), "schedule.add");
}

#[test]
fn request_settings() {
    assert_eq!(
        instructions(None),
        "You are CrabClaw, a concise and helpful coding assistant."
    );
    assert_eq!(
        instructions(Some("  \n")),
        "You are CrabClaw, a concise and helpful coding assistant."
    );
    assert_eq!(instructions(Some(" Be brief ")), " Be brief ");
    assert_eq!(tool_choice(0), "none");
    assert_eq!(tool_choice(3), "auto");
    assert_eq!(finish_reason(true), "tool_calls");
    assert_eq!(finish_reason(false), "stop");
}

use base64::Engine;
use crabclaw::api_types::{
    FunctionDefinition, Message, ToolCall, ToolCallFunction, ToolDefinition, ToolParams,
};
use crabclaw::codex::{
    account_id_from_claims, build_responses_input, convert_tools, extract_account_id_from_jwt,
    parse_sse_response, SseState,
};
use crabclaw::error::CrabClawError;
use crabclaw::json::Json;

fn at<'a>(j: &'a Json, key: &str) -> &'a Json {
    j.get(key).unwrap()
}

fn item<'a>(j: &'a Json, i: usize) -> &'a Json {
    &j.as_array().unwrap()[i]
}

fn text(s: &str) -> Json {
    Json::Str(s.to_string())
}

fn object(members: Vec<(&str, Json)>) -> Json {
    Json::Object(members.into_iter().map(|(k, v)| (k.to_string(), v)).collect())
}

#[test]
fn extract_account_id_from_valid_jwt() {
    let engine = base64::engine::general_purpose::URL_SAFE_NO_PAD;
    let header = engine.encode("{}");
    let payload = engine.encode(r#"{"account_id":"acct_123"}"#);
    let token = format!("{header}.{payload}.sig");
    assert_eq!(extract_account_id_from_jwt(&token).as_deref(), Some("acct_123"));
}

#[test]
fn extract_account_id_from_sub_claim() {
    let engine = base64::engine::general_purpose::URL_SAFE_NO_PAD;
    let header = engine.encode("{}");
    let payload = engine.encode(r#"{"sub":"user_456"}"#);
    let token = format!("{header}.{payload}.sig");
    assert_eq!(extract_account_id_from_jwt(&token).as_deref(), Some("user_456"));
}

#[test]
fn extract_account_id_missing() {
    assert_eq!(extract_account_id_from_jwt("invalid"), None);
    assert_eq!(extract_account_id_from_jwt("a.b.c"), None);
}

#[test]
fn account_id_claims_in_order_and_not_blank() {
    let claims = object(vec![
        ("sub", text("user_1")),
        ("acct", text("  ")),
        ("accountId", text("acc_2")),
    ]);
    assert_eq!(account_id_from_claims(&claims).as_deref(), Some("acc_2"));
    let only_blank = object(vec![("account_id", text(" "))]);
    assert_eq!(account_id_from_claims(&only_blank), None);
    assert_eq!(account_id_from_claims(&text("sub")), None);
}

#[test]
fn parse_sse_delta_events() {
    let payload = [
        "data: {\"type\":\"response.created\",\"response\":{\"id\":\"r1\"}}\n\n",
        "data: {\"type\":\"response.output_text.delta\",\"delta\":\"Hello\"}\n\n",
        "data: {\"type\":\"response.output_text.delta\",\"delta\":\" world\"}\n\n",
        "data: [DONE]\n\n",
    ]
    .concat();
    let parsed = parse_sse_response(&payload).unwrap();
    assert_eq!(parsed.text, "Hello world");
    assert!(parsed.tool_calls.is_empty());
}

#[test]
fn parse_sse_completed_fallback() {
    let payload = "data: {\"type\":\"response.completed\",\"response\":{\"output_text\":\"Done\"}}\ndata: [DONE]\n";
    let parsed = parse_sse_response(payload).unwrap();
    assert_eq!(parsed.text, "Done");
}

#[test]
fn parse_sse_error_event() {
    let payload = "data: {\"type\":\"error\",\"message\":\"rate limited\"}\n\n";
    let err = parse_sse_response(payload).err().unwrap();
    assert!(err.message().contains("rate limited"));
}

#[test]
fn parse_sse_function_call() {
    let payload = [
        "data: {\"type\":\"response.output_item.added\",\"output_index\":0,\"item\":{\"type\":\"function_call\",\"name\":\"file.write\",\"call_id\":\"call_123\"}}\n\n",
        "data: {\"type\":\"response.function_call_arguments.delta\",\"output_index\":0,\"delta\":\"{\\\"path\\\": \"}\n\n",
        "data: {\"type\":\"response.function_call_arguments.delta\",\"output_index\":0,\"delta\":\"\\\"test.txt\\\"}\"}\n\n",
        "data: {\"type\":\"response.function_call_arguments.done\",\"output_index\":0,\"name\":\"file.write\",\"call_id\":\"call_123\",\"arguments\":\"{\\\"path\\\": \\\"test.txt\\\"}\"}\n\n",
        "data: [DONE]\n\n",
    ]
    .concat();
    let parsed = parse_sse_response(&payload).unwrap();
    assert_eq!(parsed.tool_calls.len(), 1);
    assert_eq!(parsed.tool_calls[0].function.name, "file.write");
    assert_eq!(parsed.tool_calls[0].id, "call_123");
    assert!(parsed.tool_calls[0].function.arguments.contains("test.txt"));
}

#[test]
fn parse_sse_function_call_from_completed() {
    let payload = [
        "data: {\"type\":\"response.completed\",\"response\":{\"output\":[{\"type\":\"function_call\",\"name\":\"shell.exec\",\"call_id\":\"call_456\",\"arguments\":\"{\\\"command\\\":\\\"echo hi\\\"}\"}]}}\n\n",
        "data: [DONE]\n\n",
    ]
    .concat();
    let parsed = parse_sse_response(&payload).unwrap();
    assert_eq!(parsed.tool_calls.len(), 1);
    assert_eq!(parsed.tool_calls[0].function.name, "shell.exec");
    assert_eq!(parsed.tool_calls[0].id, "call_456");
}

#[test]
fn sse_falls_back_to_plain_json_body_and_reports_emptiness() {
    let parsed = parse_sse_response("  {\"output_text\":\"plain\"}  ").unwrap();
    assert_eq!(parsed.text, "plain");
    let err = parse_sse_response("data: [DONE]\n").err().unwrap();
    assert!(matches!(err, CrabClawError::Api(_)));
    assert!(err.message().contains("No text content or tool calls in Codex response"));
    let nested = "data: {\"type\":\"response.failed\",\"response\":{\"error\":{\"message\":\"quota\"}}}\n";
    assert!(parse_sse_response(nested).err().unwrap().message().contains("Codex stream error: quota"));
}

#[test]
fn sse_state_uses_streamed_pieces_of_a_call() {
    let mut state = SseState::new();
    state.apply_event(&object(vec![
        ("type", text("response.output_item.added")),
        ("output_index", Json::Number(Some(2))),
        ("item", object(vec![
            ("type", text("function_call")),
            ("name", text("web__fetch")),
            ("call_id", text("c9")),
        ])),
    ]));
    state.apply_event(&object(vec![
        ("type", text("response.function_call_arguments.delta")),
        ("output_index", Json::Number(Some(2))),
        ("delta", text("{\"url\":1}")),
    ]));
    state.apply_event(&object(vec![
        ("type", text("response.function_call_arguments.done")),
        ("output_index", Json::Number(Some(2))),
    ]));
    let parsed = state.finish(None).ok().unwrap();
    assert_eq!(parsed.tool_calls.len(), 1);
    assert_eq!(parsed.tool_calls[0].function.name, "web.fetch");
    assert_eq!(parsed.tool_calls[0].id, "c9");
    assert_eq!(parsed.tool_calls[0].function.arguments, "{\"url\":1}");
    assert_eq!(parsed.tool_calls[0].call_type, "function");
}

#[test]
fn build_input_from_messages() {
    let messages = vec![
        Message::system("Be helpful"),
        Message::user("hi"),
        Message {
            role: "assistant".to_string(),
            content: "hello!".to_string(),
            tool_calls: None,
            tool_call_id: None,
        },
    ];
    let input = build_responses_input(&messages);
    assert_eq!(input.len(), 2);
    assert_eq!(at(&input[0], "role").as_str(), Some("user"));
    assert_eq!(at(item(at(&input[0], "content"), 0), "type").as_str(), Some("input_text"));
    assert_eq!(at(&input[1], "role").as_str(), Some("assistant"));
    assert_eq!(at(item(at(&input[1], "content"), 0), "type").as_str(), Some("output_text"));
}

#[test]
fn build_input_with_tool_calls() {
    let messages = vec![
        Message::user("create a file"),
        Message::assistant_with_tool_calls(vec![ToolCall {
            id: "call_abc".to_string(),
            call_type: "function".to_string(),
            function: ToolCallFunction {
                name: "file.write".to_string(),
                arguments: r#"{"path":"test.txt"}"#.to_string(),
            },
        }]),
        Message::tool("call_abc", "File written successfully"),
    ];
    let input = build_responses_input(&messages);
    assert_eq!(input.len(), 3);
    assert_eq!(at(&input[0], "role").as_str(), Some("user"));
    assert_eq!(at(&input[1], "type").as_str(), Some("function_call"));
    assert_eq!(at(&input[1], "name").as_str(), Some("file__write"));
    assert_eq!(at(&input[1], "call_id").as_str(), Some("call_abc"));
    assert_eq!(at(&input[2], "type").as_str(), Some("function_call_output"));
    assert_eq!(at(&input[2], "call_id").as_str(), Some("call_abc"));
    assert_eq!(at(&input[2], "output").as_str(), Some("File written successfully"));
}

#[test]
fn convert_tools_formats_correctly() {
    let tools = vec![ToolDefinition {
        tool_type: "function".to_string(),
        function: FunctionDefinition {
            name: "file.read".to_string(),
            description: "Read a file".to_string(),
            parameters: ToolParams { properties: vec![], required: vec![] },
        },
    }];
    let codex_tools = convert_tools(&Some(tools));
    assert_eq!(codex_tools.len(), 1);
    assert_eq!(codex_tools[0].name, "file__read");
    assert_eq!(codex_tools[0].tool_type, "function");
    assert!(!codex_tools[0].strict);
}

#[test]
fn convert_tools_empty() {
    assert!(convert_tools(&None).is_empty());
}

#[test]
fn parse_sse_interleaved_calls_keep_their_own_arguments() {
    let payload = [
        "data: {\"type\":\"response.output_item.added\",\"output_index\":0,\"item\":{\"type\":\"function_call\",\"name\":\"file.read\",\"call_id\":\"c0\"}}\n\n",
        "data: {\"type\":\"response.output_item.added\",\"output_index\":1,\"item\":{\"type\":\"function_call\",\"name\":\"file.list\",\"call_id\":\"c1\"}}\n\n",
        "data: {\"type\":\"response.function_call_arguments.delta\",\"output_index\":1,\"delta\":\"{\\\"path\\\":\"}\n\n",
        "data: {\"type\":\"response.function_call_arguments.delta\",\"output_index\":0,\"delta\":\"{\\\"path\\\":\\\"a\\\"}\"}\n\n",
        "data: {\"type\":\"response.function_call_arguments.delta\",\"output_index\":1,\"delta\":\"\\\"b\\\"}\"}\n\n",
        "data: {\"type\":\"response.function_call_arguments.done\",\"output_index\":1}\n\n",
        "data: {\"type\":\"response.function_call_arguments.done\",\"output_index\":0}\n\n",
        "data: {\"type\":\"response.function_call_arguments.done\",\"output_index\":0}\n\n",
    ]
    .concat();
    let parsed = parse_sse_response(&payload).unwrap();
    assert_eq!(parsed.tool_calls.len(), 2);
    assert_eq!(parsed.tool_calls[0].function.name, "file.list");
    assert_eq!(parsed.tool_calls[0].id, "c1");
    assert_eq!(parsed.tool_calls[0].function.arguments, "{\"path\":\"b\"}");
    assert_eq!(parsed.tool_calls[1].function.name, "file.read");
    assert_eq!(parsed.tool_calls[1].function.arguments, "{\"path\":\"a\"}");
}
