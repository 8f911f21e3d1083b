use crabclaw::api_types::{ChatResponse, Choice, Message, StreamChunk};
use crabclaw::config::AppConfig;
use crabclaw::model_runner::{
    record_tool_round, response_action, stream_action, ModelRunner, ModelTurnResult,
    StreamAccumulator, TurnAction, DEFAULT_MAX_TOOL_ITERATIONS,
};

fn make_test_config() -> AppConfig {
    AppConfig {
        profile: String::new(),
        api_key: String::new(),
        api_base: String::new(),
        model: "test-model".to_string(),
        system_prompt: None,
        telegram_token: None,
        telegram_allow_from: vec![],
        telegram_allow_chats: vec![],
        telegram_proxy: None,
    }
}

#[test]
fn model_turn_result_default_is_empty() {
    let result = ModelTurnResult::default();
    assert!(result.assistant_text.is_empty());
    assert_eq!(result.tool_rounds, 0);
    assert!(result.error.is_none());
}

#[test]
fn model_runner_default_max_iterations() {
    let config = make_test_config();
    let workspace = "/tmp";
    let runner = ModelRunner::new(&config, workspace);
    assert_eq!(runner.max_tool_iterations, DEFAULT_MAX_TOOL_ITERATIONS);
}

#[test]
fn model_runner_with_max_iterations() {
    let config = make_test_config();
    let workspace = "/tmp";
    let runner = ModelRunner::new(&config, workspace).with_max_iterations(3);
    assert_eq!(runner.max_tool_iterations, 3);
}

#[test]
fn stream_chunks_accumulate_text_and_tool_calls() {
    let mut acc = StreamAccumulator::new();
    assert!(!acc.apply_chunk(StreamChunk::Content("Hel".to_string())));
    assert!(!acc.apply_chunk(StreamChunk::Content("lo".to_string())));
    assert!(!acc.apply_chunk(StreamChunk::ToolCallStart {
        index: 1,
        id: "c1".to_string(),
        name: "file.read".to_string()
    }));
    assert!(!acc.apply_chunk(StreamChunk::ToolCallArgument { index: 1, text: "{\"path\":".to_string() }));
    assert!(!acc.apply_chunk(StreamChunk::ToolCallArgument { index: 1, text: "\"a\"}".to_string() }));
    assert!(!acc.apply_chunk(StreamChunk::ToolCallArgument { index: 7, text: "x".to_string() }));
    assert!(!acc.apply_chunk(StreamChunk::ToolCallStart {
        index: 0,
        id: "c0".to_string(),
        name: "help".to_string()
    }));
    assert!(acc.apply_chunk(StreamChunk::Done));
    assert_eq!(acc.full_content, "Hello");
    assert_eq!(acc.tool_calls.len(), 2);
    assert_eq!(acc.tool_calls[0].id, "c0");
    assert_eq!(acc.tool_calls[0].function.name, "help");
    assert_eq!(acc.tool_calls[0].function.arguments, "");
    assert_eq!(acc.tool_calls[1].function.arguments, "{\"path\":\"a\"}");
    match stream_action(acc) {
        TurnAction::RunTools(calls) => assert_eq!(calls.len(), 2),
        TurnAction::Finish(_) => panic!("expected tool calls"),
    }
}

#[test]
fn tool_round_is_recorded_in_order() {
    let mut acc = StreamAccumulator::new();
    acc.apply_chunk(StreamChunk::ToolCallStart { index: 0, id: "a".to_string(), name: "x".to_string() });
    let calls = acc.tool_calls;
    let mut messages = vec![Message::user("go")];
    record_tool_round(&mut messages, calls, &vec!["out".to_string()]);
    assert_eq!(messages.len(), 3);
    assert_eq!(messages[1].role, "assistant");
    assert_eq!(messages[2].role, "tool");
    assert_eq!(messages[2].content, "out");
    assert_eq!(messages[2].tool_call_id.as_deref(), Some("a"));
}

#[test]
fn response_action_finishes_with_text() {
    let resp = ChatResponse {
        id: None,
        choices: vec![Choice { index: 0, message: Message::assistant("done"), finish_reason: None }],
        usage: None,
    };
    match response_action(resp) {
        TurnAction::Finish(t) => assert_eq!(t, "done"),
        TurnAction::RunTools(_) => panic!("expected text"),
    }
}
