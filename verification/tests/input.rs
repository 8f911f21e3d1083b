use crabclaw::error::CrabClawError;
use crabclaw::input::{file_prompt, resolve_prompt, stdin_prompt, PromptPlan};

#[test]
fn prompt_direct_string() {
    let result = resolve_prompt(Some("hello".to_string()), None);
    assert!(matches!(result, Ok(PromptPlan::Ready(p)) if p == "hello"));
}

#[test]
fn prompt_empty_string_errors() {
    match resolve_prompt(Some("  ".to_string()), None) {
        Err(CrabClawError::Config(msg)) => assert!(msg.contains("empty")),
        other => panic!("expected Config error, got: {other:?}"),
    }
}

#[test]
fn prompt_both_flags_errors() {
    match resolve_prompt(Some("hello".to_string()), Some("file.txt".to_string())) {
        Err(CrabClawError::Config(msg)) => assert!(msg.contains("not both")),
        other => panic!("expected Config error, got: {other:?}"),
    }
}

#[test]
fn prompt_from_file() {
    assert!(matches!(resolve_prompt(None, Some("prompt.txt".to_string())), Ok(PromptPlan::ReadFile(f)) if f == "prompt.txt"));
    assert_eq!(file_prompt("prompt.txt", "file content".to_string()).unwrap(), "file content");
}

#[test]
fn prompt_empty_file_errors() {
    match file_prompt("empty.txt", "   ".to_string()) {
        Err(CrabClawError::Config(msg)) => {
            assert!(msg.contains("empty"));
            assert_eq!(msg, "prompt file is empty: empty.txt");
        }
        other => panic!("expected Config error, got: {other:?}"),
    }
}

#[test]
fn prompt_from_stdin_or_refused() {
    assert!(matches!(resolve_prompt(None, None), Ok(PromptPlan::ReadStdin)));
    assert_eq!(stdin_prompt(false, "piped".to_string()).unwrap(), "piped");
    match stdin_prompt(true, String::new()) {
        Err(CrabClawError::Config(msg)) => assert_eq!(msg, "no prompt provided; use --prompt, --prompt-file, or stdin"),
        other => panic!("expected Config error, got: {other:?}"),
    }
    match stdin_prompt(false, " \n".to_string()) {
        Err(CrabClawError::Config(msg)) => assert_eq!(msg, "stdin prompt is empty"),
        other => panic!("expected Config error, got: {other:?}"),
    }
}
