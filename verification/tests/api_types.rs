use crabclaw::api_types::{ChatResponse, Choice, Message, ToolCall, ToolCallFunction};

#[test]
fn api_types_message_constructors() {
    let u = Message::user("hi");
    assert_eq!(u.role, "user");
    assert_eq!(u.content, "hi");
    let s = Message::system("be concise");
    assert_eq!(s.role, "system");
    assert_eq!(s.content, "be concise");
}

#[test]
fn tool_message_carries_call_id() {
    let t = Message::tool("call_1", "result");
    assert_eq!(t.role, "tool");
    assert_eq!(t.tool_call_id.as_deref(), Some("call_1"));
    let a = Message::assistant_with_tool_calls(vec![]);
    assert_eq!(a.role, "assistant");
    assert!(a.content.is_empty());
}

fn response(content: &str, calls: Option<Vec<ToolCall>>) -> ChatResponse {
    let mut message = Message::assistant(content);
    message.tool_calls = calls;
    ChatResponse {
        id: None,
        choices: vec![Choice { index: 0, message, finish_reason: None }],
        usage: None,
    }
}

#[test]
fn assistant_content_empty_choices() {
    let resp = ChatResponse { id: Some("chatcmpl-empty".to_string()), choices: vec![], usage: None };
    assert!(resp.assistant_content().is_none());
    assert!(!resp.has_tool_calls());
    assert!(resp.tool_calls().is_none());
}

#[test]
fn assistant_content_and_tool_calls() {
    let resp = response("Hello!", None);
    assert_eq!(resp.assistant_content(), Some("Hello!"));
    assert!(response("", None).assistant_content().is_none());
    let call = ToolCall {
        id: "c1".to_string(),
        call_type: "function".to_string(),
        function: ToolCallFunction { name: "shell.exec".to_string(), arguments: "{}".to_string() },
    };
    let with_calls = response("", Some(vec![call]));
    assert!(with_calls.has_tool_calls());
    assert_eq!(with_calls.tool_calls().unwrap().len(), 1);
    assert!(!response("", Some(vec![])).has_tool_calls());
}
