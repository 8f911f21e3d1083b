use crabclaw::registry::{
    builtin_registry, builtin_tool_specs, builtin_tools_contract_block, to_tool_definitions,
    tool_parameters, ToolRegistry,
};

#[test]
fn register_and_list() {
    let mut reg = ToolRegistry::new();
    reg.register("b.tool", "Tool B", "builtin");
    reg.register("a.tool", "Tool A", "builtin");

    let list = reg.list();
    assert_eq!(list.len(), 2);
    assert_eq!(list[0].name, "a.tool");
    assert_eq!(list[1].name, "b.tool");
}

#[test]
fn has_and_get() {
    let mut reg = ToolRegistry::new();
    reg.register("fs.read", "Read a file", "builtin");

    assert!(reg.has("fs.read"));
    assert!(!reg.has("fs.write"));

    let desc = reg.get("fs.read").unwrap();
    assert_eq!(desc.description, "Read a file");
    assert_eq!(desc.source, "builtin");

    assert!(reg.get("fs.write").is_none());
}

#[test]
fn later_registration_overwrites() {
    let mut reg = ToolRegistry::new();
    reg.register("tool", "Version 1", "builtin");
    reg.register("tool", "Version 2", "skill");

    let desc = reg.get("tool").unwrap();
    assert_eq!(desc.description, "Version 2");
    assert_eq!(desc.source, "skill");
    assert_eq!(reg.len(), 1);
}

#[test]
fn compact_rows_format() {
    let mut reg = ToolRegistry::new();
    reg.register("help", "Show help", "builtin");

    let rows = reg.compact_rows();
    assert_eq!(rows.len(), 1);
    assert!(rows[0].contains("help"));
    assert!(rows[0].contains("Show help"));
    assert!(rows[0].contains("[builtin]"));
    assert_eq!(rows[0], "help: Show help [builtin]");
}

#[test]
fn builtin_registry_has_expected_tools() {
    let reg = builtin_registry();
    assert!(reg.has("tape.info"));
    assert!(reg.has("help"));
    assert!(reg.has("tools"));
    assert!(reg.has("skills"));
    assert!(reg.len() >= 4);
}

#[test]
fn len_and_is_empty() {
    let reg = ToolRegistry::new();
    assert!(reg.is_empty());
    assert_eq!(reg.len(), 0);

    let reg = builtin_registry();
    assert!(!reg.is_empty());
}

#[test]
fn builtin_has_shell_exec() {
    let reg = builtin_registry();
    assert!(reg.has("shell.exec"));
    let desc = reg.get("shell.exec").unwrap();
    assert!(desc.description.contains("shell command"));
}

#[test]
fn tool_definitions_shell_exec_has_params() {
    let reg = builtin_registry();
    let defs = to_tool_definitions(&reg);
    let shell_def = defs.iter().find(|d| d.function.name == "shell.exec");
    assert!(shell_def.is_some());
    let params = &shell_def.unwrap().function.parameters;
    assert!(params.property("command").is_some());
    assert_eq!(params.required[0], "command");
}

#[test]
fn tool_definitions_file_read_has_params() {
    let reg = builtin_registry();
    let defs = to_tool_definitions(&reg);
    let def = defs.iter().find(|d| d.function.name == "file.read");
    assert!(def.is_some());
    let params = &def.unwrap().function.parameters;
    assert!(params.property("path").is_some());
    assert_eq!(params.required[0], "path");
}

#[test]
fn tool_definitions_file_write_has_params() {
    let reg = builtin_registry();
    let defs = to_tool_definitions(&reg);
    let def = defs.iter().find(|d| d.function.name == "file.write");
    assert!(def.is_some());
    let params = &def.unwrap().function.parameters;
    assert!(params.property("path").is_some());
    assert!(params.property("content").is_some());
}

#[test]
fn builtin_registry_lists_all_specs_sorted() {
    let reg = builtin_registry();
    assert_eq!(reg.len(), builtin_tool_specs().len());
    let names: Vec<String> = reg.list().iter().map(|d| d.name.clone()).collect();
    let mut sorted = names.clone();
    sorted.sort();
    assert_eq!(names, sorted);
    assert_eq!(names[0], "file.edit");
}

#[test]
fn tool_parameters_unknown_tool_is_empty() {
    let p = tool_parameters("no.such.tool");
    assert!(p.properties.is_empty());
    assert!(p.required.is_empty());
    let p = tool_parameters("schedule.add");
    assert_eq!(p.property("mode").unwrap().allowed, vec!["reminder", "agent"]);
    assert_eq!(p.property("after_seconds").unwrap().kind, "integer");
}

#[test]
fn contract_block_lists_builtin_tools() {
    let block = builtin_tools_contract_block();
    assert!(block.starts_with("<tools_contract>\nYou have access to the following built-in tools:\n- tape.info: "));
    assert!(block.contains("\n- web.search: Search the web for a query. Returns a search URL to fetch.\n"));
    assert!(block.ends_with("- Prefer reading files over asking the user to paste code\n</tools_contract>"));
}

use crabclaw::json::Json;
use crabclaw::registry::{
    plan_tool, plan_tool_with, shell_tool_reply, skill_body_reply, skill_list_reply,
    tool_help_reply, tool_list_reply, ToolAction,
};
use crabclaw::router::SkillInfo;
use crabclaw::schedule::JobMode;
use crabclaw::shell::ShellResult;

fn reply(a: ToolAction) -> String {
    match a {
        ToolAction::Reply(t) => t,
        _ => panic!("expected a reply"),
    }
}

#[test]
fn execute_shell_exec_empty_args() {
    let result = reply(plan_tool("shell.exec", ""));
    assert!(result.contains("no command"));
}

#[test]
fn execute_file_read_invalid_json_args() {
    let result = reply(plan_tool("file.read", "not-json"));
    assert!(result.contains("'path' argument is required"));
}

#[test]
fn execute_file_write_missing_path_rejected() {
    let result = reply(plan_tool("file.write", r#"{"content":"hello"}"#));
    assert!(result.contains("'path' argument is required"));
}

#[test]
fn execute_file_edit_missing_old_rejected() {
    let result = reply(plan_tool("file.edit", r#"{"path":"a.txt","new":"x"}"#));
    assert!(result.contains("'old' argument is required"));
}

#[test]
fn execute_skill_tool_not_found() {
    match plan_tool("skill.nonexistent", "{}") {
        ToolAction::SkillBody(name) => {
            assert_eq!(name, "nonexistent");
            assert!(skill_body_reply(&name, None).contains("Skill not found"));
        }
        _ => panic!("expected a skill body request"),
    }
}

#[test]
fn shell_tool_takes_command_or_raw_text() {
    match plan_tool("shell.exec", r#"{"command": "echo tool_works"}"#) {
        ToolAction::Shell(c) => assert_eq!(c, "echo tool_works"),
        _ => panic!("expected a shell command"),
    }
    match plan_tool("shell.exec", "  ls -la  ") {
        ToolAction::Shell(c) => assert_eq!(c, "ls -la"),
        _ => panic!("expected a shell command"),
    }
    assert_eq!(
        reply(plan_tool("shell.exec", r#"{"cmd": "ls"}"#)),
        "Error: 'command' argument is required."
    );
}

#[test]
fn file_edit_and_schedule_arguments() {
    match plan_tool("file.edit", r#"{"path":"a.txt","old":"x","new":"y","replace_all":true}"#) {
        ToolAction::FileEdit(p, o, n, all) => {
            assert_eq!((p.as_str(), o.as_str(), n.as_str(), all), ("a.txt", "x", "y", true));
        }
        _ => panic!("expected an edit"),
    }
    match plan_tool("schedule.add", r#"{"message":"ping","after_seconds":60,"mode":"agent"}"#) {
        ToolAction::ScheduleAdd(m, after, interval, mode) => {
            assert_eq!(m, "ping");
            assert_eq!(after, Some(60));
            assert_eq!(interval, None);
            assert_eq!(mode, JobMode::Agent);
        }
        _ => panic!("expected a job"),
    }
    assert_eq!(
        reply(plan_tool("schedule.remove", "{}")),
        "Error: 'job_id' argument is required."
    );
}

#[test]
fn fixed_replies_and_unknown_tools() {
    assert_eq!(
        reply(plan_tool("tape.reset", "")),
        "Tape reset is only available via the ,tape.reset command."
    );
    assert_eq!(reply(plan_tool("nope", "{}")), "Unknown tool: nope");
    assert!(matches!(plan_tool("tape.info", ""), ToolAction::TapeInfo));
    assert!(matches!(plan_tool_with("web.fetch", "", Some(&Json::Null)), ToolAction::Reply(_)));
}

#[test]
fn help_and_tool_list_replies() {
    let registry = builtin_registry();
    let help = tool_help_reply(&registry);
    assert!(help.starts_with("Available commands:\n  ,"));
    assert!(help.contains("  ,shell.exec: "));
    let tools = tool_list_reply(&registry);
    assert!(tools.contains("shell.exec"));
    assert_eq!(tool_list_reply(&ToolRegistry::new()), "No tools registered.");
}

#[test]
fn skill_and_shell_replies() {
    assert_eq!(skill_list_reply(&Vec::new()), "No skills discovered.");
    let skills = vec![SkillInfo {
        name: "deploy".to_string(),
        description: "Ship it".to_string(),
        source: "workspace".to_string(),
    }];
    assert_eq!(skill_list_reply(&skills), "  deploy \u{2014} Ship it [workspace]");
    let ok = ShellResult {
        stdout: "hi\n".to_string(),
        stderr: String::new(),
        exit_code: 0,
        timed_out: false,
    };
    assert_eq!(shell_tool_reply("echo hi", &ok), "hi");
    let failed = ShellResult { exit_code: 2, ..ok };
    assert!(shell_tool_reply("echo hi", &failed).contains("echo hi"));
    assert_eq!(skill_body_reply("x", Some("body".to_string())), "body");
}

#[test]
fn registering_a_new_name_adds_one_entry() {
    let mut reg = builtin_registry();
    let before = reg.len();
    reg.register("zz.custom", "Custom", "skill");
    assert_eq!(reg.len(), before + 1);
    reg.register("help", "Replaced help", "skill");
    assert_eq!(reg.len(), before + 1);
    let names: Vec<String> = reg.list().iter().map(|d| d.name.clone()).collect();
    let mut sorted = names.clone();
    sorted.sort();
    assert_eq!(names, sorted);
}
