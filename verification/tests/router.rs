use crabclaw::command::{detect_command, CommandKind};
use crabclaw::registry::builtin_registry;
use crabclaw::router::{
    assistant_result, execute_handoff, execute_help, execute_quit, execute_skills,
    execute_tape_reset, execute_tools, internal_block, plan_internal, plan_user_input,
    scan_assistant, shell_block, user_result_internal, user_result_shell, AssistantLine,
    InternalPlan, SkillInfo, UserPlan,
};
use crabclaw::shell::ShellResult;

#[test]
fn shell_command_git_status_type() {
    let cmd = detect_command(",git status").unwrap();
    assert_eq!(cmd.kind, CommandKind::Shell);
    assert_eq!(cmd.name, "git");
}

#[test]
fn internal_command_help_type() {
    let cmd = detect_command(",help").unwrap();
    assert_eq!(cmd.kind, CommandKind::Internal);
}

#[test]
fn empty_input_is_ignored_and_text_goes_to_model() {
    assert!(matches!(plan_user_input("   "), UserPlan::Ignore));
    match plan_user_input("  What is Rust?  ") {
        UserPlan::Model(p) => assert_eq!(p, "What is Rust?"),
        _ => panic!("expected model input"),
    }
    assert!(matches!(plan_user_input(",help"), UserPlan::Internal(_)));
    assert!(matches!(plan_user_input(",ls -la"), UserPlan::Shell(_)));
}

#[test]
fn router_help_command_returns_immediately() {
    let r = user_result_internal("help", &execute_help());
    assert!(!r.enter_model);
    assert!(r.immediate_output.contains("Available commands"));
    assert!(r.immediate_output.contains("help"));
    assert!(!r.exit_requested);
}

#[test]
fn router_quit_command_sets_exit() {
    let r = user_result_internal("quit", &execute_quit());
    assert!(!r.enter_model);
    assert!(r.exit_requested);
}

#[test]
fn failed_internal_command_goes_to_model() {
    let cmd = detect_command(",skills.describe").unwrap();
    match plan_internal(&cmd.name, &cmd.args) {
        InternalPlan::Failed(m) => {
            let r = user_result_internal(&cmd.name, &crabclaw::router::failure(m));
            assert!(r.enter_model);
            assert!(r.model_prompt.contains("usage"));
            assert_eq!(
                r.model_prompt,
                "<command name=\"skills.describe\" status=\"error\">\nusage: ,skills.describe <name>\n</command>"
            );
        }
        _ => panic!("expected a usage error"),
    }
}

#[test]
fn internal_plans() {
    let cmd = detect_command(",tape.search foo bar").unwrap();
    assert!(matches!(plan_internal(&cmd.name, &cmd.args), InternalPlan::TapeSearch(q) if q == "foo bar"));
    let cmd = detect_command(",tape.search").unwrap();
    assert!(matches!(plan_internal(&cmd.name, &cmd.args), InternalPlan::Failed(m) if m.contains("Usage")));
    let cmd = detect_command(",handoff").unwrap();
    assert!(matches!(plan_internal(&cmd.name, &cmd.args), InternalPlan::Handoff(n) if n == "handoff"));
    let cmd = detect_command(",tape.reset --archive").unwrap();
    assert!(matches!(plan_internal(&cmd.name, &cmd.args), InternalPlan::TapeReset(true)));
    let cmd = detect_command(",tape").unwrap();
    assert!(matches!(plan_internal(&cmd.name, &cmd.args), InternalPlan::TapeInfo));
    let cmd = detect_command(",tool.describe file.read").unwrap();
    assert!(matches!(plan_internal(&cmd.name, &cmd.args), InternalPlan::ToolDescribe(n) if n == "file.read"));
}

#[test]
fn tools_command_lists_builtins() {
    let r = execute_tools(&builtin_registry());
    assert!(r.success);
    assert!(r.output.contains("Registered tools"));
    assert!(r.output.contains("tape.info"));
    assert!(r.output.starts_with("Registered tools (15):\n  file.edit: "));
}

#[test]
fn skills_listing() {
    let r = execute_skills(&vec![]);
    assert_eq!(r.output, "No skills discovered.");
    let r = execute_skills(&vec![SkillInfo {
        name: "s".to_string(),
        description: "d".to_string(),
        source: "project".to_string(),
    }]);
    assert_eq!(r.output, "Discovered skills (1):\n  s: d [project]");
}

#[test]
fn handoff_and_reset_messages() {
    let r = execute_handoff("checkpoint-1", 3, Ok(()));
    assert!(r.output.contains("checkpoint-1"));
    assert!(r.output.contains("created"));
    assert_eq!(r.output, "Handoff anchor 'checkpoint-1' created. Context window reset (3 entries before).");
    let r = execute_tape_reset(Ok(None));
    assert!(r.output.contains("Tape reset"));
    assert!(!execute_tape_reset(Err("io".to_string())).success);
}

fn shell(stdout: &str, stderr: &str, exit_code: i32) -> ShellResult {
    ShellResult { stdout: stdout.to_string(), stderr: stderr.to_string(), exit_code, timed_out: false }
}

#[test]
fn shell_command_failure_wraps_to_model() {
    let r = user_result_shell("exit 1", &shell("", "", 1));
    assert!(r.enter_model);
    assert!(r.model_prompt.contains("<command cmd="));
    assert!(r.model_prompt.contains("exit_code=\"1\""));
    assert!(r.model_prompt.contains("</command>"));
    let ok = user_result_shell("echo hello_shell", &shell("hello_shell\n", "", 0));
    assert!(!ok.enter_model);
    assert!(ok.immediate_output.contains("hello_shell"));
}

#[test]
fn assistant_output_with_commands() {
    let text = "Let me look.\n```\n,ls\n```\nDone.\n,quit";
    let plan = scan_assistant(text);
    assert_eq!(plan.len(), 6);
    assert!(matches!(&plan[0], AssistantLine::Visible(s) if s == "Let me look."));
    assert!(matches!(&plan[1], AssistantLine::Visible(s) if s == "```"));
    assert!(matches!(&plan[2], AssistantLine::Run(c) if c.raw == "ls"));
    assert!(matches!(&plan[3], AssistantLine::Skipped));
    assert!(matches!(&plan[5], AssistantLine::Visible(s) if s == ",quit"));
    let block = shell_block("ls", &shell("a.txt\n", "", 0));
    assert_eq!(block, "<command name=\"ls\" status=\"ok\">\na.txt\n</command>");
    let result = assistant_result(text, &plan, vec![block], false);
    assert!(result.has_commands());
    assert_eq!(result.visible_text, "Let me look.\n```\nDone.\n,quit");
    assert_eq!(result.next_prompt(), "<command name=\"ls\" status=\"ok\">\na.txt\n</command>");
}

#[test]
fn assistant_output_without_commands_is_kept() {
    let text = "plain\r\ntext\n";
    let plan = scan_assistant(text);
    let result = assistant_result(text, &plan, vec![], false);
    assert!(!result.has_commands());
    assert_eq!(result.visible_text, text);
    assert!(matches!(&plan[0], AssistantLine::Visible(s) if s == "plain"));
    assert_eq!(plan.len(), 2);
}

#[test]
fn internal_block_format() {
    let b = internal_block("help", &execute_help());
    assert!(b.starts_with("<command name=\"help\" status=\"ok\">\nAvailable commands:"));
}
