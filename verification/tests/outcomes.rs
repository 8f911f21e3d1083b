//! Shell outcomes, web fetch replies, the login callback page, and the tool details block.

use crabclaw::auth::{callback_page, token_endpoint_error};
use crabclaw::error::CrabClawError;
use crabclaw::progressive::ProgressiveToolView;
use crabclaw::registry::ToolRegistry;
use crabclaw::shell::ShellResult;
use crabclaw::web::{fetch_reply, fetch_status_error, fetch_target};

#[test]
fn shell_outcomes_of_failures() {
    let t = ShellResult::timed_out_after(30);
    assert_eq!(t.stderr, "command timed out after 30s");
    assert!(t.timed_out);
    assert_eq!(t.exit_code, -1);
    assert!(!t.succeeded());
    let s = ShellResult::spawn_failed("no such file");
    assert_eq!(s.stderr, "failed to spawn shell: no such file");
    assert!(!s.timed_out);
    let w = ShellResult::wait_failed("interrupted");
    assert_eq!(w.stderr, "error waiting for process: interrupted");
    let killed = ShellResult::exited("out".to_string(), String::new(), None);
    assert_eq!(killed.exit_code, -1);
    let ok = ShellResult::exited("out".to_string(), String::new(), Some(0));
    assert!(ok.succeeded());
}

#[test]
fn e2e_web_fetch_missing_url_returns_error() {
    assert_eq!(fetch_target("   ").unwrap_err(), "Error: empty URL");
    assert_eq!(fetch_target("example.com").unwrap(), "https://example.com");
    assert_eq!(fetch_status_error("404 Not Found"), "Error: HTTP 404 Not Found");
}

#[test]
fn e2e_web_fetch_plain_text_passthrough() {
    assert_eq!(fetch_reply("text/plain", b"hello plain").unwrap(), "hello plain");
    assert_eq!(fetch_reply("text/plain", b"   \n").unwrap_err(), "Error: empty response body");
}

#[test]
fn e2e_web_fetch_tool_returns_page_content() {
    let html = b"<html><head><title>T</title><script>x()</script></head><body><h1>Hello</h1><p>World</p></body></html>";
    let page = fetch_reply("Text/HTML; charset=utf-8", html).unwrap();
    assert!(page.contains("Hello"));
    assert!(page.contains("World"));
    assert!(!page.contains("x()"));
}

#[test]
fn web_fetch_cuts_large_bodies() {
    let body = vec![b'a'; 1_000_005];
    let page = fetch_reply("text/plain", &body).unwrap();
    assert!(page.ends_with("\n\n[truncated: response exceeded 1000000 bytes]"));
    assert_eq!(page.len(), 1_000_000 + "\n\n[truncated: response exceeded 1000000 bytes]".len());
}

#[test]
fn login_callback_pages() {
    let ok = callback_page("GET /auth/callback?code=abc&state=s1 HTTP/1.1\r\n", "s1").unwrap();
    assert!(ok.starts_with("HTTP/1.1 200 OK\r\nContent-Type: text/html\r\nContent-Length: "));
    assert!(ok.contains("Login successful!"));
    let html = ok.split("\r\n\r\n").nth(1).unwrap();
    assert!(ok.contains(&format!("Content-Length: {}\r\n", html.len())));
    let failed = callback_page("GET /auth/callback?error=access_denied&error_description=User+cancelled HTTP/1.1", "s1").unwrap();
    assert!(failed.contains("<p>access_denied: User cancelled</p>"));
    assert!(callback_page("GET /auth/callback?state=s1 HTTP/1.1", "s1").is_none());
    assert!(callback_page("GET /auth/callback?code=abc&state=other HTTP/1.1", "s1").is_none());
}

#[test]
fn token_endpoint_errors() {
    assert!(matches!(token_endpoint_error(false, "400 Bad Request", "bad"), CrabClawError::Auth(m) if m == "token exchange failed (HTTP 400 Bad Request): bad"));
    assert!(matches!(token_endpoint_error(true, "401 Unauthorized", "no"), CrabClawError::Auth(m) if m == "token refresh failed (HTTP 401 Unauthorized): no. Please run `crabclaw auth login` again."));
}

fn test_registry() -> ToolRegistry {
    let mut registry = ToolRegistry::new();
    registry.register("shell.exec", "Execute shell commands", "builtin");
    registry.register("file.read", "Read file contents", "builtin");
    registry.register("file.write", "Write files", "builtin");
    registry.register("tape.info", "Show tape info", "builtin");
    registry
}

fn params() -> Vec<(String, String)> {
    vec![
        ("file.write".to_string(), "{\"type\":\"object\"}".to_string()),
        ("shell.exec".to_string(), "{\"required\":[\"command\"]}".to_string()),
    ]
}

#[test]
fn expanded_block_empty_when_no_hints() {
    let view = ProgressiveToolView::new(test_registry());
    assert!(view.expanded_block(&params()).is_empty());
}

#[test]
fn note_hint_expands_tool() {
    let mut view = ProgressiveToolView::new(test_registry());
    assert!(view.note_hint("file.write"));
    assert_eq!(view.expanded_count(), 1);
    let block = view.expanded_block(&params());
    assert!(block.contains("file.write"));
    assert!(!block.contains("shell.exec"));
    assert_eq!(
        block,
        "<tool_details>\n  <tool name=\"file.write\">\n    description: Write files\n    parameters: {\"type\":\"object\"}\n  </tool>\n</tool_details>"
    );
}

#[test]
fn note_selected_expands_tool() {
    let mut view = ProgressiveToolView::new(test_registry());
    view.note_selected("shell.exec");
    assert_eq!(view.expanded_count(), 1);
    let block = view.expanded_block(&params());
    assert!(block.contains("shell.exec"));
}

#[test]
fn reset_clears_expanded() {
    let mut view = ProgressiveToolView::new(test_registry());
    view.note_hint("file.write");
    view.note_hint("shell.exec");
    assert_eq!(view.expanded_count(), 2);
    view.reset();
    assert_eq!(view.expanded_count(), 0);
    assert!(view.expanded_block(&params()).is_empty());
}

#[test]
fn expanded_block_lists_tools_in_name_order() {
    let mut view = ProgressiveToolView::new(test_registry());
    view.note_hint("tape.info");
    view.note_hint("file.read");
    let block = view.expanded_block(&params());
    let file = block.find("file.read").unwrap();
    let tape = block.find("tape.info").unwrap();
    assert!(file < tape);
    assert!(block.contains("    parameters: \n"));
}
