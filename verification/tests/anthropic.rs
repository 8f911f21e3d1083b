use crabclaw::anthropic::{
    convert_messages_for_anthropic, AnthropicContent, AnthropicContentBlock, AnthropicContentItem,
    AnthropicResponse, AnthropicUsage,
};
use crabclaw::api_types::{Message, ToolCall, ToolCallFunction};
use crabclaw::json::Json;

fn call(id: &str, name: &str, args: &str) -> ToolCall {
    ToolCall {
        id: id.to_string(),
        call_type: "function".to_string(),
        function: ToolCallFunction { name: name.to_string(), arguments: args.to_string() },
    }
}

#[test]
fn system_messages_are_left_out_and_tool_results_grouped() {
    let msgs = vec![
        Message::system("sys"),
        Message::user("hi"),
        Message::assistant_with_tool_calls(vec![call("c1", "file.read", r#"{"path":"a"}"#), call("c2", "x", "not json")]),
        Message::tool("c1", "content"),
        Message::tool("c2", "other"),
        Message::assistant("done"),
    ];
    let out = convert_messages_for_anthropic(&msgs);
    assert_eq!(out.len(), 4);
    assert_eq!(out[0].role, "user");
    assert!(matches!(&out[0].content, AnthropicContent::Text(t) if t == "hi"));
    assert_eq!(out[1].role, "assistant");
    match &out[1].content {
        AnthropicContent::Blocks(b) => {
            assert_eq!(b.len(), 2);
            match &b[0] {
                AnthropicContentItem::ToolUse(id, name, input) => {
                    assert_eq!(id, "c1");
                    assert_eq!(name, "file.read");
                    assert_eq!(input.get("path").unwrap().as_str(), Some("a"));
                }
                _ => panic!("expected a tool use"),
            }
            assert!(matches!(&b[1], AnthropicContentItem::ToolUse(_, _, Json::Object(m)) if m.is_empty()));
        }
        _ => panic!("expected blocks"),
    }
    assert_eq!(out[2].role, "user");
    match &out[2].content {
        AnthropicContent::Blocks(b) => {
            assert_eq!(b.len(), 2);
            assert!(matches!(&b[1], AnthropicContentItem::ToolResult(id, c) if id == "c2" && c == "other"));
        }
        _ => panic!("expected blocks"),
    }
    assert!(matches!(&out[3].content, AnthropicContent::Text(t) if t == "done"));
}

#[test]
fn reply_becomes_chat_response() {
    let reply = AnthropicResponse {
        id: Some("msg_1".to_string()),
        content: vec![
            AnthropicContentBlock { block_type: "text".to_string(), text: Some("Hel".to_string()), id: None, name: None, input: None },
            AnthropicContentBlock { block_type: "text".to_string(), text: Some("lo".to_string()), id: None, name: None, input: None },
            AnthropicContentBlock {
                block_type: "tool_use".to_string(),
                text: None,
                id: Some("tu1".to_string()),
                name: Some("shell.exec".to_string()),
                input: Some("{\"command\":\"ls\"}".to_string()),
            },
        ],
        stop_reason: Some("tool_use".to_string()),
        usage: Some(AnthropicUsage { input_tokens: 5, output_tokens: 7 }),
    };
    let r = reply.into_chat_response();
    assert_eq!(r.id.as_deref(), Some("msg_1"));
    assert_eq!(r.choices.len(), 1);
    assert_eq!(r.choices[0].message.content, "Hello");
    let calls = r.choices[0].message.tool_calls.as_ref().unwrap();
    assert_eq!(calls[0].function.arguments, "{\"command\":\"ls\"}");
    assert_eq!(r.choices[0].finish_reason.as_deref(), Some("tool_use"));
    assert_eq!(r.usage.as_ref().unwrap().total_tokens, 12);
}

#[test]
fn empty_reply_has_no_choice() {
    let reply = AnthropicResponse { id: None, content: Vec::new(), stop_reason: None, usage: None };
    let r = reply.into_chat_response();
    assert!(r.choices.is_empty());
    assert!(r.usage.is_none());
}
