use crabclaw::command::{detect_command, parse_kv_arguments, shell_split, CommandKind};

#[test]
fn empty_input_returns_none() {
    assert!(detect_command("").is_none());
    assert!(detect_command("   ").is_none());
}

#[test]
fn non_comma_input_returns_none() {
    assert!(detect_command("hello world").is_none());
    assert!(detect_command("what is rust?").is_none());
}

#[test]
fn bare_comma_returns_none() {
    assert!(detect_command(",").is_none());
    assert!(detect_command(",  ").is_none());
}

#[test]
fn help_command() {
    let cmd = detect_command(",help").unwrap();
    assert_eq!(cmd.kind, CommandKind::Internal);
    assert_eq!(cmd.name, "help");
    assert!(cmd.args.positional.is_empty());
}

#[test]
fn help_with_leading_space() {
    let cmd = detect_command(", help").unwrap();
    assert_eq!(cmd.name, "help");
}

#[test]
fn tape_info_command() {
    let cmd = detect_command(",tape.info").unwrap();
    assert_eq!(cmd.kind, CommandKind::Internal);
    assert_eq!(cmd.name, "tape.info");
}

#[test]
fn quit_command() {
    let cmd = detect_command(",quit").unwrap();
    assert_eq!(cmd.name, "quit");
}

#[test]
fn command_with_kv_args() {
    let cmd = detect_command(",handoff name=phase-1 summary=\"bootstrap done\"").unwrap();
    assert_eq!(cmd.name, "handoff");
    assert_eq!(cmd.args.get("name"), Some("phase-1"));
    assert_eq!(cmd.args.get("summary"), Some("bootstrap done"));
}

#[test]
fn command_with_flag_args() {
    let cmd = detect_command(",tape.reset --archive").unwrap();
    assert_eq!(cmd.name, "tape.reset");
    assert!(cmd.args.has_flag("archive"));
}

#[test]
fn command_with_double_dash_kv() {
    let cmd = detect_command(",tool.describe --name fs.read").unwrap();
    assert_eq!(cmd.name, "tool.describe");
    assert_eq!(cmd.args.get("name"), Some("fs.read"));
}

#[test]
fn command_with_positional_args() {
    let cmd = detect_command(",skills.describe friendly-python").unwrap();
    assert_eq!(cmd.name, "skills.describe");
    assert_eq!(cmd.args.positional, vec!["friendly-python"]);
}

#[test]
fn shell_split_handles_quotes() {
    let tokens = shell_split(r#"hello "world foo" bar"#);
    assert_eq!(tokens, vec!["hello", "world foo", "bar"]);
}

#[test]
fn shell_split_handles_single_quotes() {
    let tokens = shell_split("hello 'world foo' bar");
    assert_eq!(tokens, vec!["hello", "world foo", "bar"]);
}

#[test]
fn shell_split_handles_escapes() {
    let tokens = shell_split(r"hello\ world bar");
    assert_eq!(tokens, vec!["hello world", "bar"]);
}

#[test]
fn git_status_detected_as_shell() {
    let cmd = detect_command(",git status").unwrap();
    assert_eq!(cmd.kind, CommandKind::Shell);
    assert_eq!(cmd.name, "git");
    assert_eq!(cmd.raw, "git status");
}

#[test]
fn ls_detected_as_shell() {
    let cmd = detect_command(",ls -la").unwrap();
    assert_eq!(cmd.kind, CommandKind::Shell);
    assert_eq!(cmd.name, "ls");
    assert_eq!(cmd.raw, "ls -la");
}

#[test]
fn help_detected_as_internal() {
    let cmd = detect_command(",help").unwrap();
    assert_eq!(cmd.kind, CommandKind::Internal);
}

#[test]
fn tape_info_detected_as_internal() {
    let cmd = detect_command(",tape.info").unwrap();
    assert_eq!(cmd.kind, CommandKind::Internal);
}

#[test]
fn internal_command_keeps_trimmed_raw_line() {
    let cmd = detect_command("  ,tape.search foo  ").unwrap();
    assert_eq!(cmd.raw, ",tape.search foo");
    assert_eq!(cmd.args.positional, vec!["foo"]);
}

#[test]
fn parse_kv_arguments_mixed_forms() {
    let tokens: Vec<String> = ["--a=1", "--b", "2", "--c", "--d", "k=v", "=x", "pos"]
        .iter()
        .map(|s| s.to_string())
        .collect();
    let args = parse_kv_arguments(&tokens);
    assert_eq!(args.get("a"), Some("1"));
    assert_eq!(args.get("b"), Some("2"));
    assert!(args.has_flag("c"));
    assert_eq!(args.get("d"), Some("k=v"));
    assert_eq!(args.get("k"), None);
    assert_eq!(args.positional, vec!["=x", "pos"]);
    assert_eq!(args.get("missing"), None);
}

#[test]
fn shell_split_never_returns_empty_tokens() {
    assert_eq!(shell_split("  a   ''  b "), vec!["a", "b"]);
    assert!(shell_split("   ").is_empty());
}

#[test]
fn command_kind_labels() {
    assert_eq!(CommandKind::Internal.label(), "internal");
    assert_eq!(CommandKind::Shell.label(), "shell");
}
