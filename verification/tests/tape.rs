use crabclaw::json::Json;
use crabclaw::tape::{anchor_payload, bootstrap_state, message_payload, tape_info_reply, TapeStore};
use crabclaw::tape::{payload_matches, search_hit, search_listing};
use crabclaw::tape::handoff_state;

fn append(tape: &mut TapeStore, kind: &str, payload: Json) {
    let entry = tape.next_entry(kind, payload, "2026-01-01T00:00:00Z");
    tape.commit(entry);
}

fn append_message(tape: &mut TapeStore, role: &str, content: &str) {
    append(tape, "message", message_payload(role, content));
}

fn anchor(tape: &mut TapeStore, name: &str) {
    append(tape, "anchor", anchor_payload(name, bootstrap_state()));
}

#[test]
fn appended_entries_get_increasing_ids() {
    let mut tape = TapeStore::open_with("test", Vec::new());
    for _ in 0..5 {
        append(&mut tape, "event", Json::Null);
    }
    let ids: Vec<u64> = tape.entries().iter().map(|e| e.id).collect();
    assert_eq!(ids, vec![1, 2, 3, 4, 5]);
}

#[test]
fn message_entries_carry_role_and_content() {
    let mut tape = TapeStore::open_with("test", Vec::new());
    append(&mut tape, "event", Json::Null);
    append_message(&mut tape, "user", "hello");
    let e = &tape.entries()[1];
    assert_eq!(e.id, 2);
    assert_eq!(e.kind, "message");
    assert_eq!(e.payload.get("role").unwrap().as_str(), Some("user"));
    assert_eq!(e.payload.get("content").unwrap().as_str(), Some("hello"));
}

#[test]
fn reopened_tape_continues_after_last_id() {
    let mut first = TapeStore::open_with("persist", Vec::new());
    append_message(&mut first, "user", "first");
    append_message(&mut first, "assistant", "second");
    let entry = first.next_entry("event", Json::Null, "t");
    assert_eq!(entry.id, 3);
}

#[test]
fn info_reports_stats_since_last_anchor() {
    let mut tape = TapeStore::open_with("info", Vec::new());
    anchor(&mut tape, "phase-0");
    append_message(&mut tape, "user", "hello");
    append_message(&mut tape, "assistant", "hi");
    let info = tape.info();
    assert_eq!(info.name, "info");
    assert_eq!(info.entries, 3);
    assert_eq!(info.anchors, 1);
    assert_eq!(info.last_anchor, Some("phase-0".to_string()));
    assert_eq!(info.entries_since_last_anchor, 2);
    assert_eq!(
        tape_info_reply(&info),
        "Tape: info\nEntries: 3\nAnchors: 1\nLast anchor: phase-0"
    );
}

#[test]
fn info_without_anchor() {
    let mut tape = TapeStore::open_with("plain", Vec::new());
    append_message(&mut tape, "user", "hello");
    let info = tape.info();
    assert_eq!(info.anchors, 0);
    assert_eq!(info.last_anchor, None);
    assert_eq!(info.entries_since_last_anchor, 1);
    assert!(tape_info_reply(&info).ends_with("Last anchor: none"));
}

#[test]
fn bootstrap_anchor_is_needed_once() {
    let mut tape = TapeStore::open_with("bootstrap", Vec::new());
    assert!(!tape.has_anchor());
    anchor(&mut tape, "session/start");
    assert!(tape.has_anchor());
    assert_eq!(tape.entries().len(), 1);
    assert_eq!(tape.entries()[0].kind, "anchor");
}

#[test]
fn clear_restarts_ids() {
    let mut tape = TapeStore::open_with("reset", Vec::new());
    append_message(&mut tape, "user", "hello");
    append_message(&mut tape, "assistant", "hi");
    tape.clear();
    anchor(&mut tape, "session/start");
    assert_eq!(tape.entries().len(), 1);
    assert_eq!(tape.entries()[0].kind, "anchor");
    assert_eq!(tape.entries()[0].id, 1);
    assert_eq!(tape.since_last_anchor_start(), 1);
}

fn entry(id: u64, kind: &str, payload: Json) -> crabclaw::tape::TapeEntry {
    crabclaw::tape::TapeEntry { id, kind: kind.to_string(), payload, timestamp: "2026-01-01T00:00:00Z".to_string() }
}

fn event(i: u64) -> Json {
    Json::Object(vec![("i".to_string(), Json::Number(Some(i)))])
}

#[test]
fn append_and_read_entries() {
    let mut tape = TapeStore::open_with("test", Vec::new());
    append(&mut tape, "event", Json::Object(vec![("action".to_string(), Json::Str("start".to_string()))]));
    append_message(&mut tape, "user", "hello");
    assert_eq!(tape.entries().len(), 2);
    assert_eq!(tape.entries()[0].id, 1);
    assert_eq!(tape.entries()[0].kind, "event");
    assert_eq!(tape.entries()[1].id, 2);
    assert_eq!(tape.entries()[1].kind, "message");
    assert_eq!(tape.entries()[1].payload.get("role").unwrap().as_str(), Some("user"));
    assert_eq!(tape.entries()[1].payload.get("content").unwrap().as_str(), Some("hello"));
}

#[test]
fn ids_auto_increment() {
    let mut tape = TapeStore::open_with("test", Vec::new());
    for i in 0..5 {
        append(&mut tape, "event", event(i));
    }
    let ids: Vec<u64> = tape.entries().iter().map(|e| e.id).collect();
    assert_eq!(ids, vec![1, 2, 3, 4, 5]);
}

#[test]
fn persistence_across_reopen() {
    let entries = vec![
        entry(1, "message", message_payload("user", "first")),
        entry(2, "message", message_payload("assistant", "second")),
    ];
    let tape = TapeStore::open_with("persist", entries);
    assert_eq!(tape.entries().len(), 2);
    assert_eq!(tape.entries()[0].payload.get("content").unwrap().as_str(), Some("first"));
    assert_eq!(tape.entries()[1].payload.get("content").unwrap().as_str(), Some("second"));
}

#[test]
fn reset_clears_entries() {
    let mut tape = TapeStore::open_with("reset", Vec::new());
    append_message(&mut tape, "user", "hello");
    append_message(&mut tape, "assistant", "hi");
    assert_eq!(tape.entries().len(), 2);
    tape.clear();
    anchor(&mut tape, "session/start");
    assert_eq!(tape.entries().len(), 1);
    assert_eq!(tape.entries()[0].kind, "anchor");
    assert_eq!(tape.entries()[0].id, 1);
}

#[test]
fn info_reports_correct_stats() {
    let mut tape = TapeStore::open_with("info", Vec::new());
    anchor(&mut tape, "phase-0");
    append_message(&mut tape, "user", "hello");
    append_message(&mut tape, "assistant", "hi");
    let info = tape.info();
    assert_eq!(info.name, "info");
    assert_eq!(info.entries, 3);
    assert_eq!(info.anchors, 1);
    assert_eq!(info.last_anchor, Some("phase-0".to_string()));
    assert_eq!(info.entries_since_last_anchor, 2);
}

#[test]
fn ensure_bootstrap_anchor_creates_anchor_once() {
    let mut tape = TapeStore::open_with("bootstrap", Vec::new());
    assert_eq!(tape.entries().len(), 0);
    for _ in 0..2 {
        if !tape.has_anchor() {
            anchor(&mut tape, "session/start");
        }
        assert_eq!(tape.entries().len(), 1);
        assert_eq!(tape.entries()[0].kind, "anchor");
    }
}

#[test]
fn reopen_preserves_next_id() {
    let entries = vec![
        entry(1, "message", message_payload("user", "one")),
        entry(2, "message", message_payload("user", "two")),
    ];
    let mut tape = TapeStore::open_with("idtest", entries);
    assert_eq!(tape.entries().last().unwrap().id, 2);
    append_message(&mut tape, "user", "three");
    assert_eq!(tape.entries().last().unwrap().id, 3);
}

#[test]
fn tape_search_finds_messages() {
    let mut tape = TapeStore::open_with("router-test", Vec::new());
    anchor(&mut tape, "session/start");
    append_message(&mut tape, "user", "hello world");
    append_message(&mut tape, "assistant", "greetings");
    let texts = [
        r#"{"name":"session/start","state":{"owner":"human"}}"#,
        r#"{"content":"hello world","role":"user"}"#,
        r#"{"content":"greetings","role":"assistant"}"#,
    ];
    let rows: Vec<String> = tape
        .entries()
        .iter()
        .zip(texts.iter())
        .filter(|(_, t)| payload_matches(t, "world"))
        .map(|(e, t)| search_hit(e, t))
        .collect();
    let output = search_listing("world", &rows);
    assert!(output.contains("1 match"));
    assert_eq!(
        output,
        "Found 1 match(es) for 'world':\n  [2026-01-01T00:00:00Z] message #2: {\"content\":\"hello world\",\"role\":\"user\"}"
    );
    assert!(payload_matches("HELLO", "hello"));
    assert_eq!(search_listing("zzz", &vec![]), "No entries matching 'zzz'.");
}

#[test]
fn search_hit_shows_first_eighty_characters() {
    let tape_entry = entry(7, "event", Json::Null);
    let long = "x".repeat(100);
    let row = crabclaw::tape::search_hit(&tape_entry, &long);
    assert_eq!(row, format!("  [2026-01-01T00:00:00Z] event #7: {}", "x".repeat(80)));
}

#[test]
fn anchors_command_lists_anchors() {
    let mut tape = TapeStore::open_with("router-test", Vec::new());
    anchor(&mut tape, "session/start");
    append_message(&mut tape, "user", "hi");
    append(&mut tape, "anchor", anchor_payload("test-anchor", Json::Object(vec![])));
    let output = tape.anchor_listing();
    assert!(output.contains("test-anchor"));
    assert!(output.contains("Anchors ("));
    assert_eq!(
        output,
        "Anchors (2):\n  #1 [2026-01-01T00:00:00Z] session/start\n  #3 [2026-01-01T00:00:00Z] test-anchor"
    );
    let empty = TapeStore::open_with("e", Vec::new());
    assert_eq!(empty.anchor_listing(), "No anchors in tape.");
    let mut unnamed = TapeStore::open_with("u", Vec::new());
    append(&mut unnamed, "anchor", Json::Null);
    assert_eq!(unnamed.anchor_listing(), "Anchors (1):\n  #1 [2026-01-01T00:00:00Z] unnamed");
}

#[test]
fn handoff_creates_anchor() {
    let mut tape = TapeStore::open_with("router-test", Vec::new());
    append_message(&mut tape, "user", "old msg");
    let info = tape.info();
    let state = handoff_state(info.entries, info.last_anchor.clone());
    assert_eq!(state.get("entries_before").unwrap().as_u64(), Some(1));
    assert!(matches!(state.get("previous_anchor"), Some(Json::Null)));
    assert_eq!(state.get("type").unwrap().as_str(), Some("handoff"));
    append(&mut tape, "anchor", anchor_payload("checkpoint-1", state));
    let result = crabclaw::router::execute_handoff("checkpoint-1", info.entries, Ok(()));
    assert!(result.output.contains("checkpoint-1"));
    assert!(result.output.contains("created"));
    let last = tape.entries().last().unwrap();
    assert_eq!(last.kind, "anchor");
    assert_eq!(last.payload.get("name").unwrap().as_str(), Some("checkpoint-1"));
    assert_eq!(tape.info().last_anchor, Some("checkpoint-1".to_string()));
}
