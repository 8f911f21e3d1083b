//! Routing of user and assistant input, with the commands' effects given as values.

use crabclaw::command::{detect_command, CommandKind, ParsedArgs};
use crabclaw::registry::{builtin_registry, tool_parameters};
use crabclaw::router::{
    assistant_result, execute_help, execute_skills, execute_skills_describe, execute_tape_reset,
    execute_tool_describe, failure, internal_block, plan_internal, plan_user_input,
    scan_assistant, shell_block, user_result_ignored, user_result_internal, user_result_model,
    AssistantLine, AssistantRouteResult, CommandResult, InternalPlan, UserPlan, UserRouteResult,
};
use crabclaw::shell::ShellResult;

fn no_args() -> ParsedArgs {
    ParsedArgs { positional: vec![], kwargs: vec![], flags: vec![] }
}

/// Routes user input as the agent does, with `run` standing for running an internal
/// command and `shell` for running a shell command.
fn route(input: &str, shell: ShellResult) -> UserRouteResult {
    match plan_user_input(input) {
        UserPlan::Ignore => user_result_ignored(),
        UserPlan::Model(p) => user_result_model(p),
        UserPlan::Internal(c) => {
            let result = match plan_internal(&c.name, &c.args) {
                InternalPlan::Help => execute_help(),
                InternalPlan::Quit => crabclaw::router::execute_quit(),
                InternalPlan::Failed(m) => failure(m),
                InternalPlan::SkillsDescribe(n) => execute_skills_describe(&n, None),
                InternalPlan::ToolDescribe(n) => execute_tool_describe(&builtin_registry(), &n, ""),
                InternalPlan::Skills => execute_skills(&vec![]),
                _ => CommandResult { success: true, output: String::new(), exit_requested: false },
            };
            user_result_internal(&c.name, &result)
        }
        UserPlan::Shell(c) => crabclaw::router::user_result_shell(&c.raw, &shell),
    }
}

fn ok_shell(stdout: &str) -> ShellResult {
    ShellResult { stdout: stdout.to_string(), stderr: String::new(), exit_code: 0, timed_out: false }
}

/// Routes assistant output as the agent does, each shell command printing its own
/// arguments.
fn route_assistant(text: &str) -> AssistantRouteResult {
    let plan = scan_assistant(text);
    let mut blocks = Vec::new();
    let mut exit = false;
    for line in &plan {
        if let AssistantLine::Run(c) = line {
            match c.kind {
                CommandKind::Shell => {
                    let echoed = c.raw.trim_start_matches("echo ").to_string();
                    blocks.push(shell_block(&c.raw, &ok_shell(&format!("{echoed}\n"))));
                }
                CommandKind::Internal => {
                    let r = match plan_internal(&c.name, &c.args) {
                        InternalPlan::Help => execute_help(),
                        InternalPlan::Failed(m) => failure(m),
                        _ => CommandResult { success: true, output: String::new(), exit_requested: false },
                    };
                    exit |= r.exit_requested;
                    blocks.push(internal_block(&c.name, &r));
                }
            }
        }
    }
    assistant_result(text, &plan, blocks, exit)
}

#[test]
fn router_empty_input_does_nothing() {
    let result = route("", ok_shell(""));
    assert!(!result.enter_model);
    assert!(result.immediate_output.is_empty());
    assert!(!result.exit_requested);
}

#[test]
fn router_natural_language_routes_to_model() {
    let result = route("What is Rust?", ok_shell(""));
    assert!(result.enter_model);
    assert_eq!(result.model_prompt, "What is Rust?");
}

#[test]
fn unknown_command_falls_back_to_model() {
    let result = user_result_internal("nonexistent", &match plan_internal("nonexistent", &no_args()) {
        InternalPlan::Failed(m) => failure(m),
        _ => panic!("expected a failed plan"),
    });
    assert!(result.enter_model);
    assert!(result.model_prompt.contains("unknown internal command"));
    assert!(!result.exit_requested);
}

#[test]
fn router_tape_reset_resets_and_reports() {
    let cmd = detect_command(",tape.reset").unwrap();
    assert!(matches!(plan_internal(&cmd.name, &cmd.args), InternalPlan::TapeReset(false)));
    let result = user_result_internal("tape.reset", &execute_tape_reset(Ok(None)));
    assert!(!result.enter_model);
    assert!(result.immediate_output.contains("Tape reset"));
}

#[test]
fn router_tape_alias_works() {
    let cmd = detect_command(",tape").unwrap();
    assert!(matches!(plan_internal(&cmd.name, &cmd.args), InternalPlan::TapeInfo));
    let cmd = detect_command(",tape.info").unwrap();
    assert!(matches!(plan_internal(&cmd.name, &cmd.args), InternalPlan::TapeInfo));
}

#[test]
fn skills_command_empty_workspace() {
    let result = route(",skills", ok_shell(""));
    assert!(!result.enter_model);
    assert!(result.immediate_output.contains("No skills discovered"));
}

#[test]
fn skills_describe_missing_name() {
    let result = route(",skills.describe", ok_shell(""));
    assert!(result.enter_model);
    assert!(result.model_prompt.contains("usage"));
}

#[test]
fn skills_describe_not_found() {
    let result = route(",skills.describe nonexistent", ok_shell(""));
    assert!(result.enter_model);
    assert!(result.model_prompt.contains("skill not found"));
}

#[test]
fn tape_search_no_query_shows_usage() {
    let result = route(",tape.search", ok_shell(""));
    assert!(result.enter_model);
    assert!(result.model_prompt.contains("Usage"));
}

#[test]
fn tool_describe_shows_params() {
    let params = format!("{:?}", tool_parameters("shell.exec"));
    let result = user_result_internal(
        "tool.describe",
        &execute_tool_describe(&builtin_registry(), "shell.exec", &params),
    );
    assert!(!result.enter_model);
    assert!(result.immediate_output.contains("shell.exec"));
    assert!(result.immediate_output.contains("command"));
}

#[test]
fn tool_describe_unknown_tool() {
    let result = route(",tool.describe nonexistent", ok_shell(""));
    assert!(result.enter_model);
}

#[test]
fn shell_command_executes_echo() {
    let result = route(",echo hello_shell", ok_shell("hello_shell\n"));
    assert!(!result.enter_model);
    assert!(result.immediate_output.contains("hello_shell"));
    assert!(!result.exit_requested);
}

#[test]
fn shell_command_captures_stderr() {
    let err = ShellResult { stdout: String::new(), stderr: "oops\n".to_string(), exit_code: 0, timed_out: false };
    let result = route(",echo oops >&2", err);
    assert!(!result.enter_model);
    assert!(result.immediate_output.contains("oops"));
}

#[test]
fn assistant_no_commands_passthrough() {
    let result = route_assistant("Here is a normal response from the model.");
    assert!(!result.has_commands());
    assert_eq!(result.visible_text, "Here is a normal response from the model.");
    assert!(!result.exit_requested);
}

#[test]
fn assistant_shell_command_detected() {
    let result = route_assistant("Let me check:\n,echo hello world");
    assert!(result.has_commands());
    assert_eq!(result.command_blocks.len(), 1);
    assert!(result.command_blocks[0].contains("hello world"));
    assert!(result.command_blocks[0].contains("<command"));
    assert!(result.visible_text.contains("Let me check:"));
}

#[test]
fn assistant_internal_command_detected() {
    let result = route_assistant("Checking tools:\n,help");
    assert!(result.has_commands());
    assert_eq!(result.command_blocks.len(), 1);
    assert!(result.command_blocks[0].contains("help"));
}

#[test]
fn assistant_quit_blocked() {
    let result = route_assistant(",quit");
    assert!(!result.has_commands());
    assert!(!result.exit_requested);
}

#[test]
fn assistant_mixed_text_and_commands() {
    let result = route_assistant("Starting work.\n,echo step1\nDone with step 1.\n,echo step2\nAll done.");
    assert!(result.has_commands());
    assert_eq!(result.command_blocks.len(), 2);
    assert!(result.visible_text.contains("Starting work."));
    assert!(result.visible_text.contains("All done."));
}

#[test]
fn assistant_command_in_fence() {
    let result = route_assistant("Run this:\n```\n,echo inside_fence\n```");
    assert!(result.has_commands());
    assert_eq!(result.command_blocks.len(), 1);
    assert!(result.command_blocks[0].contains("inside_fence"));
}

#[test]
fn assistant_next_prompt() {
    let result = route_assistant(",echo hello\n,echo world");
    let prompt = result.next_prompt();
    assert!(prompt.contains("hello"));
    assert!(prompt.contains("world"));
}
