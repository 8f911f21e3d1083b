//! The results of shell commands and their rendering for people and for the model.
use vstd::prelude::*;

use crate::text::{
    append_chars, append_str, decimal, decimal_chars, signed_decimal, signed_decimal_chars,
    string_of, to_chars, trim_end, trim_end_chars,
};

verus! {

/// Result of executing a shell command.
#[derive(Debug, Clone)]
pub struct ShellResult {
    pub stdout: String,
    pub stderr: String,
    pub exit_code: i32,
    pub timed_out: bool,
}

/// The display text of a command's output: trailing whitespace of each stream removed,
/// standard error marked `[stderr] `, the two joined by a newline; `(no output)` when
/// both streams are empty.
pub open spec fn shell_output_text(stdout: Seq<char>, stderr: Seq<char>) -> Seq<char> {
    let out_part = trim_end(stdout);
    let err_part = "[stderr] "@ + trim_end(stderr);
    if stdout.len() > 0 && stderr.len() > 0 {
        out_part + "\n"@ + err_part
    } else if stdout.len() > 0 {
        out_part
    } else if stderr.len() > 0 {
        err_part
    } else {
        "(no output)"@
    }
}

/// The context block that tells the model which command failed and what it printed.
pub open spec fn failure_context_text(cmd: Seq<char>, exit_code: int, output: Seq<char>) -> Seq<
    char,
> {
    "<command cmd=\""@ + cmd + "\" exit_code=\""@ + signed_decimal(exit_code) + "\">\n"@ + output
        + "\n</command>"@
}

/// Format a shell result into a combined output string for display.
pub fn format_shell_output(result: &ShellResult) -> (r: String)
    ensures
        r@ == shell_output_text(result.stdout@, result.stderr@),
{
    let out = to_chars(result.stdout.as_str());
    let err = to_chars(result.stderr.as_str());
    let mut v: Vec<char> = Vec::new();
    if out.len() > 0 {
        let t = trim_end_chars(&out);
        append_chars(&mut v, &t);
    }
    if err.len() > 0 {
        if out.len() > 0 {
            append_str(&mut v, "\n");
        }
        append_str(&mut v, "[stderr] ");
        let t = trim_end_chars(&err);
        append_chars(&mut v, &t);
    }
    if out.len() == 0 && err.len() == 0 {
        append_str(&mut v, "(no output)");
    }
    proof {
        let e = Seq::<char>::empty();
        let ghost o = trim_end(result.stdout@);
        let ghost ep = "[stderr] "@ + trim_end(result.stderr@);
        if out.len() > 0 && err.len() > 0 {
            assert(v@ =~= o + "\n"@ + ep);
        } else if out.len() > 0 {
            assert(v@ =~= o);
        } else if err.len() > 0 {
            assert(v@ =~= ep);
        } else {
            assert(v@ =~= "(no output)"@);
        }
    }
    string_of(&v)
}

/// Wrap a failed command result into a structured XML context block for the LLM.
pub fn wrap_failure_context(cmd_line: &str, result: &ShellResult) -> (r: String)
    ensures
        r@ == failure_context_text(
            cmd_line@,
            result.exit_code as int,
            shell_output_text(result.stdout@, result.stderr@),
        ),
{
    let output = format_shell_output(result);
    let mut v: Vec<char> = Vec::new();
    append_str(&mut v, "<command cmd=\"");
    append_str(&mut v, cmd_line);
    append_str(&mut v, "\" exit_code=\"");
    let code = signed_decimal_chars(result.exit_code);
    append_chars(&mut v, &code);
    append_str(&mut v, "\">\n");
    append_str(&mut v, output.as_str());
    append_str(&mut v, "\n</command>");
    string_of(&v)
}

/// The time limit of a shell command, in seconds.
pub const DEFAULT_TIMEOUT_SECS: u64 = 30;

impl ShellResult {
    /// The result of a command that ran to its end: its two streams, and its exit code,
    /// `-1` when it has none (killed by a signal).
    pub fn exited(stdout: String, stderr: String, code: Option<i32>) -> (r: ShellResult)
        ensures
            r.stdout == stdout,
            r.stderr == stderr,
            r.exit_code == (match code {
                Some(c) => c as int,
                None => -1,
            }),
            !r.timed_out,
    {
        let exit_code: i32 = match code {
            Some(c) => c,
            None => -1,
        };
        ShellResult { stdout, stderr, exit_code, timed_out: false }
    }

    /// The result of a command that was killed when its time limit of `secs` ran out.
    pub fn timed_out_after(secs: u64) -> (r: ShellResult)
        ensures
            r.stdout@.len() == 0,
            r.stderr@ == "command timed out after "@ + decimal(secs as nat) + "s"@,
            r.exit_code == -1,
            r.timed_out,
    {
        let mut v: Vec<char> = Vec::new();
        append_str(&mut v, "command timed out after ");
        let d = decimal_chars(secs);
        append_chars(&mut v, &d);
        append_str(&mut v, "s");
        ShellResult { stdout: String::new(), stderr: string_of(&v), exit_code: -1, timed_out: true }
    }

    /// The result of a command whose shell could not be started, with the reason.
    pub fn spawn_failed(reason: &str) -> (r: ShellResult)
        ensures
            r.stdout@.len() == 0,
            r.stderr@ == "failed to spawn shell: "@ + reason@,
            r.exit_code == -1,
            !r.timed_out,
    {
        let mut v: Vec<char> = Vec::new();
        append_str(&mut v, "failed to spawn shell: ");
        append_str(&mut v, reason);
        ShellResult { stdout: String::new(), stderr: string_of(&v), exit_code: -1, timed_out: false }
    }

    /// The result of a command whose end could not be awaited, with the reason.
    pub fn wait_failed(reason: &str) -> (r: ShellResult)
        ensures
            r.stdout@.len() == 0,
            r.stderr@ == "error waiting for process: "@ + reason@,
            r.exit_code == -1,
            !r.timed_out,
    {
        let mut v: Vec<char> = Vec::new();
        append_str(&mut v, "error waiting for process: ");
        append_str(&mut v, reason);
        ShellResult { stdout: String::new(), stderr: string_of(&v), exit_code: -1, timed_out: false }
    }

    /// Whether the command succeeded: it exited with code 0 within its time limit.
    pub fn succeeded(&self) -> (r: bool)
        ensures
            r == (self.exit_code == 0 && !self.timed_out),
    {
        self.exit_code == 0 && !self.timed_out
    }
}

} // verus!
