use crabclaw::shell::{format_shell_output, wrap_failure_context, ShellResult};

#[test]
fn format_output_stdout_only() {
    let result = ShellResult {
        stdout: "hello\n".to_string(),
        stderr: String::new(),
        exit_code: 0,
        timed_out: false,
    };
    assert_eq!(format_shell_output(&result), "hello");
}

#[test]
fn format_output_stderr_only() {
    let result = ShellResult {
        stdout: String::new(),
        stderr: "error msg\n".to_string(),
        exit_code: 1,
        timed_out: false,
    };
    assert_eq!(format_shell_output(&result), "[stderr] error msg");
}

#[test]
fn format_output_both() {
    let result = ShellResult {
        stdout: "out\n".to_string(),
        stderr: "err\n".to_string(),
        exit_code: 1,
        timed_out: false,
    };
    assert_eq!(format_shell_output(&result), "out\n[stderr] err");
}

#[test]
fn format_output_empty() {
    let result = ShellResult {
        stdout: String::new(),
        stderr: String::new(),
        exit_code: 0,
        timed_out: false,
    };
    assert_eq!(format_shell_output(&result), "(no output)");
}

#[test]
fn wrap_failure_context_format() {
    let result = ShellResult {
        stdout: String::new(),
        stderr: "file not found\n".to_string(),
        exit_code: 1,
        timed_out: false,
    };
    let ctx = wrap_failure_context("cat missing.txt", &result);
    assert!(ctx.contains("<command cmd=\"cat missing.txt\" exit_code=\"1\">"));
    assert!(ctx.contains("file not found"));
    assert!(ctx.contains("</command>"));
}

#[test]
fn wrap_failure_context_negative_exit_code_exact() {
    let result = ShellResult {
        stdout: "partial  \n".to_string(),
        stderr: String::new(),
        exit_code: -1,
        timed_out: true,
    };
    let ctx = wrap_failure_context("sleep 60", &result);
    assert_eq!(ctx, "<command cmd=\"sleep 60\" exit_code=\"-1\">\npartial\n</command>");
}
