//! Provider selection, endpoints and the errors that replies report.

use crabclaw::api_types::{Message, ToolCall, ToolCallFunction};
use crabclaw::client::{endpoint_url, nonstandard_error, split_model, system_text, Provider};
use crabclaw::codex::{codex_account_id, codex_chat_response, codex_http_error, codex_login_required, ParsedCodexResponse};
use crabclaw::error::CrabClawError;

#[test]
fn model_prefix_names_the_provider() {
    assert_eq!(split_model("anthropic:sonnet-4"), (Provider::Anthropic, "sonnet-4".to_string()));
    assert_eq!(split_model("codex:gpt-5.3-codex"), (Provider::Codex, "gpt-5.3-codex".to_string()));
    assert_eq!(split_model("openai:gpt-4o"), (Provider::OpenAi, "gpt-4o".to_string()));
    assert_eq!(split_model("gpt-4o"), (Provider::OpenAi, "gpt-4o".to_string()));
    assert_eq!(split_model("anthropic"), (Provider::OpenAi, "anthropic".to_string()));
}

#[test]
fn endpoint_drops_trailing_slashes() {
    assert_eq!(endpoint_url("https://api.openai.com/v1/", "/chat/completions"), "https://api.openai.com/v1/chat/completions");
    assert_eq!(endpoint_url("http://x//", "/v1/messages"), "http://x/v1/messages");
    assert_eq!(endpoint_url("http://x", "/v1/messages"), "http://x/v1/messages");
}

#[test]
fn system_messages_become_the_system_text() {
    let msgs = vec![Message::system("one"), Message::user("hi"), Message::system("two")];
    assert_eq!(system_text(&msgs), Some("one\ntwo".to_string()));
    let none = vec![Message::user("hi"), Message::system("")];
    assert_eq!(system_text(&none), None);
    let leading_empty = vec![Message::system(""), Message::system("x")];
    assert_eq!(system_text(&leading_empty), Some("x".to_string()));
}

#[test]
fn nonstandard_200_error_body_returns_error() {
    match nonstandard_error(Some(false), Some(1301), Some("blocked".to_string())) {
        Some(CrabClawError::Api(m)) => assert_eq!(m, "API error (code 1301): blocked"),
        other => panic!("expected an API error, got {other:?}"),
    }
    match nonstandard_error(None, Some(500), None) {
        Some(CrabClawError::Api(m)) => assert_eq!(m, "API error (code 500): unknown API error"),
        other => panic!("expected an API error, got {other:?}"),
    }
    match nonstandard_error(Some(false), None, None) {
        Some(CrabClawError::Api(m)) => assert_eq!(m, "API error (code 0): unknown API error"),
        other => panic!("expected an API error, got {other:?}"),
    }
    assert!(nonstandard_error(Some(true), Some(200), None).is_none());
    assert!(nonstandard_error(None, Some(399), Some("x".to_string())).is_none());
    assert!(nonstandard_error(None, None, None).is_none());
}

#[test]
fn codex_reply_becomes_one_choice() {
    let call = ToolCall {
        id: "c1".to_string(),
        call_type: "function".to_string(),
        function: ToolCallFunction { name: "file.read".to_string(), arguments: "{}".to_string() },
    };
    let r = codex_chat_response(ParsedCodexResponse { text: String::new(), tool_calls: vec![call] });
    assert_eq!(r.choices.len(), 1);
    assert_eq!(r.choices[0].finish_reason.as_deref(), Some("tool_calls"));
    assert!(r.has_tool_calls());
    let r = codex_chat_response(ParsedCodexResponse { text: "hi".to_string(), tool_calls: vec![] });
    assert_eq!(r.assistant_content(), Some("hi"));
    assert_eq!(r.choices[0].finish_reason.as_deref(), Some("stop"));
    assert!(r.choices[0].message.tool_calls.is_none());
}

#[test]
fn codex_needs_an_account_id() {
    // header {"alg":"none"}, payload {"account_id":"acct-1"} in base64url
    let token = "eyJhbGciOiJub25lIn0.eyJhY2NvdW50X2lkIjoiYWNjdC0xIn0.sig";
    assert_eq!(codex_account_id(Some(token)).unwrap(), "acct-1");
    match codex_account_id(None) {
        Err(CrabClawError::Auth(m)) => assert_eq!(m, "No account_id in OAuth token. Run `crabclaw auth login` again."),
        other => panic!("expected an auth error, got {other:?}"),
    }
    assert!(matches!(codex_account_id(Some("not-a-jwt")), Err(CrabClawError::Auth(_))));
    assert!(matches!(codex_login_required(), CrabClawError::Auth(m) if m.contains("auth login")));
    assert!(matches!(codex_http_error("500 Internal Server Error", "boom"), CrabClawError::Api(m) if m == "Codex API error (HTTP 500 Internal Server Error): boom"));
}
