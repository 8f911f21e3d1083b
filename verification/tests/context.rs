use crabclaw::context::{build_messages, build_system_prompt, tape_name};
use crabclaw::json::Json;
use crabclaw::tape::{anchor_payload, message_payload, TapeStore};

fn append(tape: &mut TapeStore, kind: &str, payload: Json) {
    let entry = tape.next_entry(kind, payload, "2026-01-01T00:00:00Z");
    tape.commit(entry);
}

fn append_message(tape: &mut TapeStore, role: &str, content: &str) {
    append(tape, "message", message_payload(role, content));
}

fn object(members: Vec<(&str, &str)>) -> Json {
    Json::Object(
        members
            .into_iter()
            .map(|(k, v)| (k.to_string(), Json::Str(v.to_string())))
            .collect(),
    )
}

#[test]
fn empty_tape_no_system_prompt() {
    let tape = TapeStore::open_with("ctx-test", Vec::new());
    let msgs = build_messages(&tape, None, 50);
    assert!(msgs.is_empty());
}

#[test]
fn empty_tape_with_system_prompt() {
    let tape = TapeStore::open_with("ctx-test", Vec::new());
    let msgs = build_messages(&tape, Some("You are a helpful assistant."), 50);
    assert_eq!(msgs.len(), 1);
    assert_eq!(msgs[0].role, "system");
    assert_eq!(msgs[0].content, "You are a helpful assistant.");
}

#[test]
fn tape_messages_in_order() {
    let mut tape = TapeStore::open_with("ctx-test", Vec::new());
    append_message(&mut tape, "user", "Hello");
    append_message(&mut tape, "assistant", "Hi there!");
    append_message(&mut tape, "user", "How are you?");
    let msgs = build_messages(&tape, None, 50);
    assert_eq!(msgs.len(), 3);
    assert_eq!(msgs[0].role, "user");
    assert_eq!(msgs[0].content, "Hello");
    assert_eq!(msgs[1].role, "assistant");
    assert_eq!(msgs[1].content, "Hi there!");
    assert_eq!(msgs[2].role, "user");
    assert_eq!(msgs[2].content, "How are you?");
}

#[test]
fn skips_non_message_entries() {
    let mut tape = TapeStore::open_with("ctx-test", Vec::new());
    append(&mut tape, "anchor", anchor_payload("session/start", Json::Object(Vec::new())));
    append(&mut tape, "route", object(vec![("kind", "model")]));
    append_message(&mut tape, "user", "Hello");
    append(&mut tape, "command", object(vec![("name", "help")]));
    append_message(&mut tape, "assistant", "Hi");
    let msgs = build_messages(&tape, None, 50);
    assert_eq!(msgs.len(), 2);
    assert_eq!(msgs[0].content, "Hello");
    assert_eq!(msgs[1].content, "Hi");
}

#[test]
fn system_prompt_prepended_before_messages() {
    let mut tape = TapeStore::open_with("ctx-test", Vec::new());
    append_message(&mut tape, "user", "Hello");
    let msgs = build_messages(&tape, Some("Be concise."), 50);
    assert_eq!(msgs.len(), 2);
    assert_eq!(msgs[0].role, "system");
    assert_eq!(msgs[0].content, "Be concise.");
    assert_eq!(msgs[1].role, "user");
    assert_eq!(msgs[1].content, "Hello");
}

#[test]
fn blank_system_prompt_is_ignored() {
    let tape = TapeStore::open_with("ctx-test", Vec::new());
    let msgs = build_messages(&tape, Some("   "), 50);
    assert!(msgs.is_empty());
}

#[test]
fn skips_empty_content_messages() {
    let mut tape = TapeStore::open_with("ctx-test", Vec::new());
    append_message(&mut tape, "user", "");
    append_message(&mut tape, "user", "real");
    let msgs = build_messages(&tape, None, 50);
    assert_eq!(msgs.len(), 1);
    assert_eq!(msgs[0].content, "real");
}

#[test]
fn anchor_truncates_context_window() {
    let mut tape = TapeStore::open_with("ctx-trunc", Vec::new());
    append_message(&mut tape, "user", "old question");
    append_message(&mut tape, "assistant", "old answer");
    append(&mut tape, "anchor", anchor_payload("handoff", object(vec![("owner", "human")])));
    append_message(&mut tape, "user", "new question");
    append_message(&mut tape, "assistant", "new answer");
    let msgs = build_messages(&tape, None, 50);
    assert_eq!(msgs.len(), 2);
    assert_eq!(msgs[0].content, "new question");
    assert_eq!(msgs[1].content, "new answer");
}

#[test]
fn message_without_role_counts_as_user() {
    let mut tape = TapeStore::open_with("ctx-test", Vec::new());
    append(&mut tape, "message", object(vec![("content", "hi")]));
    let msgs = build_messages(&tape, None, 50);
    assert_eq!(msgs[0].role, "user");
}

#[test]
fn test_max_context_messages_truncation() {
    let mut tape = TapeStore::open_with("ctx-test", Vec::new());
    for i in 1..=5 {
        append_message(&mut tape, "user", &format!("Msg {}", i));
    }
    let msgs = build_messages(&tape, Some("System Prompt"), 3);
    assert_eq!(msgs.len(), 5);
    assert_eq!(msgs[0].role, "system");
    assert_eq!(msgs[0].content, "System Prompt");
    assert_eq!(msgs[1].role, "system");
    assert!(msgs[1].content.contains("truncated to fit the context window"));
    assert_eq!(msgs[2].content, "Msg 3");
    assert_eq!(msgs[3].content, "Msg 4");
    assert_eq!(msgs[4].content, "Msg 5");
}

#[test]
fn system_prompt_config_override() {
    let result = build_system_prompt(Some("Custom prompt"), None, "/ws", "2026-01-01 00:00:00 UTC");
    assert!(result.contains("Custom prompt"));
    assert!(result.contains("CrabClaw"));
    assert!(result.contains("<runtime_contract>"));
}

#[test]
fn system_prompt_workspace_file() {
    let result = build_system_prompt(None, Some("Workspace prompt"), "/ws", "now");
    assert!(result.contains("Workspace prompt"));
    assert!(result.contains("CrabClaw"));
}

#[test]
fn system_prompt_default_fallback() {
    let result = build_system_prompt(None, None, "/ws", "now");
    assert!(result.contains("CrabClaw"));
    assert!(result.contains("shell.exec"));
    assert!(result.contains("file.read"));
}

#[test]
fn system_prompt_combines_sources() {
    let result = build_system_prompt(Some(" Config override "), Some("Workspace prompt"), "/ws", "now");
    assert!(result.contains("CrabClaw"));
    assert!(result.contains("\n\nConfig override\n\nWorkspace prompt\n\n"));
    assert!(result.contains("<runtime_contract>"));
    assert!(result.contains("<context>\nCurrent Date/Time: now\n</context>"));
    assert!(result.contains("Current workspace: /ws\n"));
}

#[test]
fn agent_loop_replaces_colons_in_session_id() {
    assert_eq!(tape_name("telegram:123"), "telegram_123");
    assert_eq!(tape_name("cli"), "cli");
}
