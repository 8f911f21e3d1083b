//! Routing of user and assistant text: which input goes to the model, which runs as a
//! command, and how command outcomes are reported.
use vstd::prelude::*;

use crate::command::{
    detect, detect_command, texts, CommandKind, CommandView, DetectedCommand, ParsedArgs,
};
use crate::registry::{compact_rows_of, DescView, ToolRegistry};
use crate::shell::{
    failure_context_text, format_shell_output, shell_output_text, wrap_failure_context, ShellResult,
};
use crate::text::{
    append_chars, append_str, chars_eq, decimal, decimal_chars, join, join_strings, split_chars,
    split_on, starts_with, starts_with_str, string_from, string_of, to_chars, trim, trim_chars,
    char_vecs,
};

verus! {

/// Routing outcome for user input.
#[derive(Debug, Clone)]
pub struct UserRouteResult {
    pub enter_model: bool,
    pub model_prompt: String,
    pub immediate_output: String,
    pub exit_requested: bool,
}

/// The model of a user routing outcome.
pub type UserRouteView = (bool, Seq<char>, Seq<char>, bool);

impl View for UserRouteResult {
    type V = UserRouteView;

    open spec fn view(&self) -> UserRouteView {
        (self.enter_model, self.model_prompt@, self.immediate_output@, self.exit_requested)
    }
}

/// Routing outcome for assistant output: the text shown to the user, the outcome blocks of
/// the commands it ran, and whether it asked to exit.
#[derive(Debug, Clone)]
pub struct AssistantRouteResult {
    pub visible_text: String,
    pub command_blocks: Vec<String>,
    pub exit_requested: bool,
}

impl Default for AssistantRouteResult {
    fn default() -> (r: Self)
        ensures
            r.visible_text@ == Seq::<char>::empty(),
            r.command_blocks@.len() == 0,
            !r.exit_requested,
    {
        AssistantRouteResult {
            visible_text: String::new(),
            command_blocks: Vec::new(),
            exit_requested: false,
        }
    }
}

impl AssistantRouteResult {
    /// Whether any commands were run.
    pub fn has_commands(&self) -> (r: bool)
        ensures
            r == (self.command_blocks@.len() > 0),
    {
        self.command_blocks.len() > 0
    }

    /// The command blocks joined by newlines, to feed back to the model.
    pub fn next_prompt(&self) -> (r: String)
        ensures
            r@ == join(texts(self.command_blocks@), "\n"@),
    {
        join_strings(&self.command_blocks, "\n")
    }
}

/// The outcome of an internal command.
#[derive(Debug, Clone)]
pub struct CommandResult {
    pub success: bool,
    pub output: String,
    pub exit_requested: bool,
}

/// What to do with a line of user input.
pub enum UserPlan {
    /// Blank input: nothing happens.
    Ignore,
    /// Natural language: send the trimmed text to the model.
    Model(String),
    /// Run an internal command.
    Internal(DetectedCommand),
    /// Run a shell command.
    Shell(DetectedCommand),
}

/// Whether `p` is the plan that the routing rules give for `input`.
pub open spec fn plans_user(p: UserPlan, input: Seq<char>) -> bool {
    let stripped = trim(input);
    if stripped.len() == 0 {
        p is Ignore
    } else {
        match detect(stripped) {
            None => p matches UserPlan::Model(s) && s@ == stripped,
            Some(c) => if c.0 == CommandKind::Internal {
                p matches UserPlan::Internal(d) && d@ == c
            } else {
                p matches UserPlan::Shell(d) && d@ == c
            },
        }
    }
}

/// Decide what to do with user input: blank input is ignored, comma commands run, and
/// anything else goes to the model.
pub fn plan_user_input(input: &str) -> (r: UserPlan)
    ensures
        plans_user(r, input@),
{
    let v = to_chars(input);
    let t = trim_chars(&v);
    if t.len() == 0 {
        return UserPlan::Ignore;
    }
    let stripped = string_of(&t);
    match detect_command(stripped.as_str()) {
        None => UserPlan::Model(stripped),
        Some(c) => match c.kind {
            CommandKind::Internal => UserPlan::Internal(c),
            CommandKind::Shell => UserPlan::Shell(c),
        },
    }
}

/// The routing outcome of blank input: nothing is shown and the model is not asked.
pub fn user_result_ignored() -> (r: UserRouteResult)
    ensures
        r@ == (false, Seq::<char>::empty(), Seq::<char>::empty(), false),
{
    UserRouteResult {
        enter_model: false,
        model_prompt: String::new(),
        immediate_output: String::new(),
        exit_requested: false,
    }
}

/// The routing outcome of natural language: the text goes to the model as it is.
pub fn user_result_model(prompt: String) -> (r: UserRouteResult)
    ensures
        r@ == (true, prompt@, Seq::<char>::empty(), false),
{
    UserRouteResult {
        enter_model: true,
        model_prompt: prompt,
        immediate_output: String::new(),
        exit_requested: false,
    }
}

/// The prompt that tells the model an internal command failed.
pub open spec fn command_error_prompt(name: Seq<char>, output: Seq<char>) -> Seq<char> {
    "<command name=\""@ + name + "\" status=\"error\">\n"@ + output + "\n</command>"@
}

/// The routing outcome of an internal command run for the user: an exit request ends the
/// session; success shows the output; failure shows it and hands it to the model.
pub open spec fn internal_user_route(name: Seq<char>, success: bool, output: Seq<char>, exit: bool) -> UserRouteView {
    if exit {
        (false, Seq::empty(), Seq::empty(), true)
    } else if success {
        (false, Seq::empty(), output, false)
    } else {
        (true, command_error_prompt(name, output), output, false)
    }
}

/// The routing outcome of an internal command run for the user.
pub fn user_result_internal(name: &str, result: &CommandResult) -> (r: UserRouteResult)
    ensures
        r@ == internal_user_route(name@, result.success, result.output@, result.exit_requested),
{
    if result.exit_requested {
        return UserRouteResult {
            enter_model: false,
            model_prompt: String::new(),
            immediate_output: String::new(),
            exit_requested: true,
        };
    }
    if result.success {
        UserRouteResult {
            enter_model: false,
            model_prompt: String::new(),
            immediate_output: result.output.clone(),
            exit_requested: false,
        }
    } else {
        let mut v: Vec<char> = Vec::new();
        append_str(&mut v, "<command name=\"");
        append_str(&mut v, name);
        append_str(&mut v, "\" status=\"error\">\n");
        append_str(&mut v, result.output.as_str());
        append_str(&mut v, "\n</command>");
        UserRouteResult {
            enter_model: true,
            model_prompt: string_of(&v),
            immediate_output: result.output.clone(),
            exit_requested: false,
        }
    }
}

/// Whether a shell command succeeded: exit code zero and no timeout.
pub open spec fn shell_ok(r: ShellResult) -> bool {
    r.exit_code == 0 && !r.timed_out
}

/// The routing outcome of a shell command run for the user: its output is shown; a failed
/// command also goes to the model as a failure context.
pub open spec fn shell_user_route(raw: Seq<char>, r: ShellResult) -> UserRouteView {
    let shown = shell_output_text(r.stdout@, r.stderr@);
    if shell_ok(r) {
        (false, Seq::empty(), shown, false)
    } else {
        (true, failure_context_text(raw, r.exit_code as int, shown), shown, false)
    }
}

/// The routing outcome of a shell command run for the user.
pub fn user_result_shell(raw: &str, result: &ShellResult) -> (r: UserRouteResult)
    ensures
        r@ == shell_user_route(raw@, *result),
{
    let display = format_shell_output(result);
    if result.exit_code == 0 && !result.timed_out {
        UserRouteResult {
            enter_model: false,
            model_prompt: String::new(),
            immediate_output: display,
            exit_requested: false,
        }
    } else {
        let context = wrap_failure_context(raw, result);
        UserRouteResult {
            enter_model: true,
            model_prompt: context,
            immediate_output: display,
            exit_requested: false,
        }
    }
}

/// What an internal command does.
pub enum InternalPlan {
    Help,
    Quit,
    TapeInfo,
    TapeReset(bool),
    TapeSearch(String),
    Anchors,
    Handoff(String),
    Tools,
    ToolDescribe(String),
    Skills,
    SkillsDescribe(String),
    /// The command cannot run; the message says why.
    Failed(String),
}

/// Whether `p` is what the internal command `name` with arguments `args` does.
pub open spec fn plans_internal(p: InternalPlan, name: Seq<char>, args: crate::command::ArgsView) -> bool {
    if name == "help"@ {
        p is Help
    } else if name == "quit"@ {
        p is Quit
    } else if name == "tape.info"@ || name == "tape"@ {
        p is TapeInfo
    } else if name == "tape.reset"@ {
        p matches InternalPlan::TapeReset(a) && a == args.2.contains("archive"@)
    } else if name == "tape.search"@ {
        let q = join(args.0, " "@);
        if q.len() == 0 {
            p matches InternalPlan::Failed(m) && m@ == "Usage: ,tape.search <query>"@
        } else {
            p matches InternalPlan::TapeSearch(s) && s@ == q
        }
    } else if name == "anchors"@ {
        p is Anchors
    } else if name == "handoff"@ {
        p matches InternalPlan::Handoff(s) && s@ == if args.0.len() == 0 {
            "handoff"@
        } else {
            join(args.0, " "@)
        }
    } else if name == "tools"@ {
        p is Tools
    } else if name == "tool.describe"@ {
        if args.0.len() == 0 {
            p matches InternalPlan::Failed(m) && m@ == "Usage: ,tool.describe <tool_name>"@
        } else {
            p matches InternalPlan::ToolDescribe(s) && s@ == args.0[0]
        }
    } else if name == "skills"@ {
        p is Skills
    } else if name == "skills.describe"@ {
        if args.0.len() == 0 {
            p matches InternalPlan::Failed(m) && m@ == "usage: ,skills.describe <name>"@
        } else {
            p matches InternalPlan::SkillsDescribe(s) && s@ == args.0[0]
        }
    } else {
        p matches InternalPlan::Failed(m) && m@ == "unknown internal command: "@ + name
    }
}

fn is(name: &Vec<char>, lit: &str) -> (r: bool)
    ensures
        r == (name@ == lit@),
{
    let w = to_chars(lit);
    chars_eq(name, &w)
}

/// Decide what the internal command `name` does with `args`.
pub fn plan_internal(name: &str, args: &ParsedArgs) -> (r: InternalPlan)
    ensures
        plans_internal(r, name@, args@),
{
    let n = to_chars(name);
    if is(&n, "help") {
        InternalPlan::Help
    } else if is(&n, "quit") {
        InternalPlan::Quit
    } else if is(&n, "tape.info") || is(&n, "tape") {
        InternalPlan::TapeInfo
    } else if is(&n, "tape.reset") {
        InternalPlan::TapeReset(args.has_flag("archive"))
    } else if is(&n, "tape.search") {
        let q = join_strings(&args.positional, " ");
        if q.as_str().is_empty() {
            InternalPlan::Failed(string_from("Usage: ,tape.search <query>"))
        } else {
            InternalPlan::TapeSearch(q)
        }
    } else if is(&n, "anchors") {
        InternalPlan::Anchors
    } else if is(&n, "handoff") {
        if args.positional.len() == 0 {
            InternalPlan::Handoff(string_from("handoff"))
        } else {
            InternalPlan::Handoff(join_strings(&args.positional, " "))
        }
    } else if is(&n, "tools") {
        InternalPlan::Tools
    } else if is(&n, "tool.describe") {
        if args.positional.len() == 0 {
            InternalPlan::Failed(string_from("Usage: ,tool.describe <tool_name>"))
        } else {
            InternalPlan::ToolDescribe(args.positional[0].clone())
        }
    } else if is(&n, "skills") {
        InternalPlan::Skills
    } else if is(&n, "skills.describe") {
        if args.positional.len() == 0 {
            InternalPlan::Failed(string_from("usage: ,skills.describe <name>"))
        } else {
            InternalPlan::SkillsDescribe(args.positional[0].clone())
        }
    } else {
        let mut v: Vec<char> = Vec::new();
        append_str(&mut v, "unknown internal command: ");
        append_str(&mut v, name);
        InternalPlan::Failed(string_of(&v))
    }
}

/// A successful command result with output `s`.
pub open spec fn ok_output(r: CommandResult, s: Seq<char>) -> bool {
    r.success && r.output@ == s && !r.exit_requested
}

/// A failed command result with output `s`.
pub open spec fn failed_output(r: CommandResult, s: Seq<char>) -> bool {
    !r.success && r.output@ == s && !r.exit_requested
}

/// The result of a command that ran, with its output.
pub fn ok_result(output: String) -> (r: CommandResult)
    ensures
        ok_output(r, output@),
{
    CommandResult { success: true, output, exit_requested: false }
}

fn failed_result(output: String) -> (r: CommandResult)
    ensures
        failed_output(r, output@),
{
    CommandResult { success: false, output, exit_requested: false }
}

/// The result of a command that could not run.
pub fn failure(message: String) -> (r: CommandResult)
    ensures
        failed_output(r, message@),
{
    failed_result(message)
}

/// The text of the `,help` command.
pub open spec fn help_text() -> Seq<char> {
    "Available commands:\n  ,help               \u{2014} Show this help\n  ,quit               \u{2014} Exit the session\n  ,tape               \u{2014} Show tape session info\n  ,tape.info          \u{2014} Show tape session info (alias)\n  ,tape.reset         \u{2014} Reset the tape (--archive to keep backup)\n  ,tape.search <q>    \u{2014} Search tape entries by content\n  ,anchors            \u{2014} List all anchors in the tape\n  ,handoff [name]     \u{2014} Create a handoff anchor (resets context window)\n  ,tools              \u{2014} List all registered tools\n  ,tool.describe <n>  \u{2014} Show tool details and parameter schema\n  ,skills             \u{2014} List discovered skills\n  ,skills.describe <n>\u{2014} Show full body of a skill\n  ,<shell command>    \u{2014} Execute a shell command (e.g. ,ls, ,git status)"@
}

/// The result of `,help`.
pub fn execute_help() -> (r: CommandResult)
    ensures
        ok_output(r, help_text()),
{
    ok_result(
        string_from(
            "Available commands:\n  ,help               \u{2014} Show this help\n  ,quit               \u{2014} Exit the session\n  ,tape               \u{2014} Show tape session info\n  ,tape.info          \u{2014} Show tape session info (alias)\n  ,tape.reset         \u{2014} Reset the tape (--archive to keep backup)\n  ,tape.search <q>    \u{2014} Search tape entries by content\n  ,anchors            \u{2014} List all anchors in the tape\n  ,handoff [name]     \u{2014} Create a handoff anchor (resets context window)\n  ,tools              \u{2014} List all registered tools\n  ,tool.describe <n>  \u{2014} Show tool details and parameter schema\n  ,skills             \u{2014} List discovered skills\n  ,skills.describe <n>\u{2014} Show full body of a skill\n  ,<shell command>    \u{2014} Execute a shell command (e.g. ,ls, ,git status)",
        ),
    )
}

/// The result of `,quit`.
pub fn execute_quit() -> (r: CommandResult)
    ensures
        r.success && r.output@ == "exit"@ && r.exit_requested,
{
    CommandResult { success: true, output: string_from("exit"), exit_requested: true }
}

/// A header line, then each row indented by two spaces, joined by newlines.
pub open spec fn listing(header: Seq<char>, rows: Seq<Seq<char>>) -> Seq<char> {
    join(seq![header] + rows.map_values(|r: Seq<char>| "  "@ + r), "\n"@)
}

fn listing_exec(header: Vec<char>, rows: &Vec<String>) -> (r: String)
    ensures
        r@ == listing(header@, texts(rows@)),
{
    let mut lines: Vec<String> = Vec::new();
    lines.push(string_of(&header));
    let mut i: usize = 0;
    assert(texts(lines@) =~= seq![header@] + texts(rows@).take(0).map_values(
        |r: Seq<char>| "  "@ + r,
    ));
    while i < rows.len()
        invariant
            i <= rows.len(),
            texts(lines@) == seq![header@] + texts(rows@).take(i as int).map_values(
                |r: Seq<char>| "  "@ + r,
            ),
        decreases rows.len() - i,
    {
        let mut v: Vec<char> = Vec::new();
        append_str(&mut v, "  ");
        append_str(&mut v, rows[i].as_str());
        let ghost before = texts(lines@);
        let line = string_of(&v);
        lines.push(line);
        assert(texts(lines@) =~= before.push(line@));
        assert(texts(rows@).take(i + 1).map_values(|r: Seq<char>| "  "@ + r) =~= texts(
            rows@,
        ).take(i as int).map_values(|r: Seq<char>| "  "@ + r).push(line@));
        i += 1;
    }
    assert(texts(rows@).take(rows.len() as int) =~= texts(rows@));
    join_strings(&lines, "\n")
}

/// The result of `,tools`: the registered tools, one row each.
pub open spec fn tools_output(tools: Seq<DescView>) -> Seq<char> {
    if tools.len() == 0 {
        "No tools registered."@
    } else {
        listing(
            "Registered tools ("@ + decimal(tools.len()) + "):"@,
            compact_rows_of(tools),
        )
    }
}

/// The result of `,tools`.
pub fn execute_tools(registry: &ToolRegistry) -> (r: CommandResult)
    ensures
        ok_output(r, tools_output(registry@)),
{
    let rows = registry.compact_rows();
    if rows.len() == 0 {
        return ok_result(string_from("No tools registered."));
    }
    let mut header: Vec<char> = Vec::new();
    append_str(&mut header, "Registered tools (");
    let n = decimal_chars(rows.len() as u64);
    append_chars(&mut header, &n);
    append_str(&mut header, "):");
    ok_result(listing_exec(header, &rows))
}

/// A discovered skill.
#[derive(Debug, Clone)]
pub struct SkillInfo {
    pub name: String,
    pub description: String,
    pub source: String,
}

/// The row that lists a skill: `name: description [source]`.
pub open spec fn skill_row(s: SkillInfo) -> Seq<char> {
    s.name@ + ": "@ + s.description@ + " ["@ + s.source@ + "]"@
}

/// The result of `,skills` for the discovered skills.
pub open spec fn skills_output(skills: Seq<SkillInfo>) -> Seq<char> {
    if skills.len() == 0 {
        "No skills discovered."@
    } else {
        listing(
            "Discovered skills ("@ + decimal(skills.len()) + "):"@,
            skills.map_values(|s: SkillInfo| skill_row(s)),
        )
    }
}

/// The result of `,skills` for the discovered skills.
pub fn execute_skills(skills: &Vec<SkillInfo>) -> (r: CommandResult)
    ensures
        ok_output(r, skills_output(skills@)),
{
    if skills.len() == 0 {
        return ok_result(string_from("No skills discovered."));
    }
    let mut rows: Vec<String> = Vec::new();
    let mut i: usize = 0;
    while i < skills.len()
        invariant
            i <= skills.len(),
            texts(rows@) == skills@.take(i as int).map_values(|s: SkillInfo| skill_row(s)),
        decreases skills.len() - i,
    {
        let s = &skills[i];
        let mut v: Vec<char> = Vec::new();
        append_str(&mut v, s.name.as_str());
        append_str(&mut v, ": ");
        append_str(&mut v, s.description.as_str());
        append_str(&mut v, " [");
        append_str(&mut v, s.source.as_str());
        append_str(&mut v, "]");
        let ghost before = texts(rows@);
        let row = string_of(&v);
        rows.push(row);
        assert(texts(rows@) =~= before.push(row@));
        assert(skills@.take(i + 1).map_values(|s: SkillInfo| skill_row(s)) =~= skills@.take(
            i as int,
        ).map_values(|s: SkillInfo| skill_row(s)).push(row@));
        i += 1;
    }
    assert(skills@.take(skills.len() as int) =~= skills@);
    let mut header: Vec<char> = Vec::new();
    append_str(&mut header, "Discovered skills (");
    let n = decimal_chars(skills.len() as u64);
    append_chars(&mut header, &n);
    append_str(&mut header, "):");
    ok_result(listing_exec(header, &rows))
}

/// The result of `,skills.describe` once the skill's body was looked up.
pub fn execute_skills_describe(name: &str, body: Option<String>) -> (r: CommandResult)
    ensures
        match body {
            Some(b) => ok_output(r, b@),
            None => failed_output(r, "skill not found: "@ + name@),
        },
{
    match body {
        Some(b) => ok_result(b),
        None => {
            let mut v: Vec<char> = Vec::new();
            append_str(&mut v, "skill not found: ");
            append_str(&mut v, name);
            failed_result(string_of(&v))
        },
    }
}

/// The result of `,tool.describe`, given the tool's parameter schema as text.
pub open spec fn tool_describe_output(d: DescView, params: Seq<char>) -> Seq<char> {
    "Tool: "@ + d.0 + "\nDescription: "@ + d.1 + "\nSource: "@ + d.2 + "\nParameters:\n"@ + params
}

/// The result of `,tool.describe name`, given the text of the tool's parameter schema.
pub fn execute_tool_describe(registry: &ToolRegistry, name: &str, params_text: &str) -> (r:
    CommandResult)
    ensures
        match crate::registry::lookup(registry@, name@) {
            Some(d) => ok_output(r, tool_describe_output(d, params_text@)),
            None => failed_output(r, "Tool not found: "@ + name@),
        },
{
    match registry.get(name) {
        Some(tool) => {
            let mut v: Vec<char> = Vec::new();
            append_str(&mut v, "Tool: ");
            append_str(&mut v, tool.name.as_str());
            append_str(&mut v, "\nDescription: ");
            append_str(&mut v, tool.description.as_str());
            append_str(&mut v, "\nSource: ");
            append_str(&mut v, tool.source.as_str());
            append_str(&mut v, "\nParameters:\n");
            append_str(&mut v, params_text);
            ok_result(string_of(&v))
        },
        None => {
            let mut v: Vec<char> = Vec::new();
            append_str(&mut v, "Tool not found: ");
            append_str(&mut v, name);
            failed_result(string_of(&v))
        },
    }
}

/// The result of `,handoff`, given whether the anchor was written.
pub fn execute_handoff(anchor_name: &str, entries_before: usize, written: Result<(), String>) -> (r:
    CommandResult)
    ensures
        match written {
            Ok(_) => ok_output(
                r,
                "Handoff anchor '"@ + anchor_name@ + "' created. Context window reset ("@
                    + decimal(entries_before as nat) + " entries before)."@,
            ),
            Err(e) => failed_output(r, "Failed to create anchor: "@ + e@),
        },
{
    match written {
        Ok(_) => {
            let mut v: Vec<char> = Vec::new();
            append_str(&mut v, "Handoff anchor '");
            append_str(&mut v, anchor_name);
            append_str(&mut v, "' created. Context window reset (");
            let n = decimal_chars(entries_before as u64);
            append_chars(&mut v, &n);
            append_str(&mut v, " entries before).");
            ok_result(string_of(&v))
        },
        Err(e) => {
            let mut v: Vec<char> = Vec::new();
            append_str(&mut v, "Failed to create anchor: ");
            append_str(&mut v, e.as_str());
            failed_result(string_of(&v))
        },
    }
}

/// The result of `,tape.reset`, given the archive path on success.
pub fn execute_tape_reset(outcome: Result<Option<String>, String>) -> (r: CommandResult)
    ensures
        match outcome {
            Ok(Some(p)) => ok_output(r, "Tape reset. Archived: "@ + p@),
            Ok(None) => ok_output(r, "Tape reset."@),
            Err(e) => failed_output(r, "failed to reset tape: "@ + e@),
        },
{
    match outcome {
        Ok(Some(p)) => {
            let mut v: Vec<char> = Vec::new();
            append_str(&mut v, "Tape reset. Archived: ");
            append_str(&mut v, p.as_str());
            ok_result(string_of(&v))
        },
        Ok(None) => ok_result(string_from("Tape reset.")),
        Err(e) => {
            let mut v: Vec<char> = Vec::new();
            append_str(&mut v, "failed to reset tape: ");
            append_str(&mut v, e.as_str());
            failed_result(string_of(&v))
        },
    }
}

/// What the router does with one line of assistant output.
pub enum AssistantLine {
    /// Shown to the user.
    Visible(String),
    /// A fence line after a command: dropped.
    Skipped,
    /// A command to run.
    Run(DetectedCommand),
}

/// `s` without one trailing carriage return.
pub open spec fn strip_cr(s: Seq<char>) -> Seq<char> {
    if s.len() > 0 && s.last() == '\r' {
        s.drop_last()
    } else {
        s
    }
}

/// The lines of `s` as `str::lines` gives them: split at newlines, a carriage return
/// before a newline removed, and no empty last line after a final newline.
pub open spec fn text_lines(s: Seq<char>) -> Seq<Seq<char>> {
    let pieces = split_on(s, '\n');
    let head = pieces.drop_last().map_values(|p: Seq<char>| strip_cr(p));
    if pieces.last().len() > 0 {
        head.push(pieces.last())
    } else {
        head
    }
}

/// The model of an assistant line plan.
pub open spec fn line_view(l: AssistantLine) -> Option<Option<CommandView>> {
    match l {
        AssistantLine::Visible(_) => None,
        AssistantLine::Skipped => Some(None),
        AssistantLine::Run(c) => Some(Some(c@)),
    }
}

/// What the router does with `line`, given whether a command ran on an earlier line: a
/// fence line is shown unless a command ran before it, a command runs (except a `,quit`,
/// which is shown), and anything else is shown.
pub open spec fn line_plan(line: Seq<char>, seen_command: bool) -> Option<Option<CommandView>> {
    let stripped = trim(line);
    if starts_with(stripped, "```"@) {
        if seen_command {
            Some(None)
        } else {
            None
        }
    } else {
        match detect(stripped) {
            None => None,
            Some(c) => if c.0 == CommandKind::Internal && c.1 == "quit"@ {
                None
            } else {
                Some(Some(c))
            },
        }
    }
}

/// Whether `plan` is the routing of `lines`, with `seen` telling whether a command ran
/// before them.
pub open spec fn plans_lines(plan: Seq<AssistantLine>, lines: Seq<Seq<char>>, seen: bool) -> bool
    decreases lines.len(),
{
    if lines.len() == 0 {
        plan.len() == 0
    } else {
        plan.len() == lines.len() && line_view(plan[0]) == line_plan(lines[0], seen) && (
        plan[0] matches AssistantLine::Visible(s) ==> s@ == lines[0]) && plans_lines(
            plan.drop_first(),
            lines.drop_first(),
            seen || (plan[0] is Run),
        )
    }
}

proof fn lemma_plans_lines_push(
    plan: Seq<AssistantLine>,
    lines: Seq<Seq<char>>,
    seen: bool,
    item: AssistantLine,
    line: Seq<char>,
)
    requires
        plans_lines(plan, lines, seen),
        line_view(item) == line_plan(line, seen || exists|k: int| 0 <= k < plan.len() && plan[k] is Run),
        item matches AssistantLine::Visible(s) ==> s@ == line,
    ensures
        plans_lines(plan.push(item), lines.push(line), seen),
    decreases lines.len(),
{
    if lines.len() == 0 {
        assert(plan.len() == 0);
        assert(plan.push(item).drop_first() =~= Seq::<AssistantLine>::empty());
        assert(lines.push(line).drop_first() =~= Seq::<Seq<char>>::empty());
        assert(plans_lines(Seq::<AssistantLine>::empty(), Seq::<Seq<char>>::empty(), seen || (item is Run)));
        assert(plan.push(item)[0] == item);
        assert(lines.push(line)[0] == line);
    } else {
        let s2 = seen || (plan[0] is Run);
        assert((seen || exists|k: int| 0 <= k < plan.len() && plan[k] is Run) == (s2 || exists|k: int|
            0 <= k < plan.drop_first().len() && plan.drop_first()[k] is Run)) by {
            if exists|k: int| 0 <= k < plan.len() && plan[k] is Run {
                let k = choose|k: int| 0 <= k < plan.len() && plan[k] is Run;
                if k > 0 {
                    assert(plan.drop_first()[k - 1] is Run);
                }
            }
            if exists|k: int| 0 <= k < plan.drop_first().len() && plan.drop_first()[k] is Run {
                let k = choose|k: int| 0 <= k < plan.drop_first().len() && plan.drop_first()[k] is Run;
                assert(plan[k + 1] is Run);
            }
        }
        lemma_plans_lines_push(plan.drop_first(), lines.drop_first(), s2, item, line);
        assert(plan.push(item).drop_first() =~= plan.drop_first().push(item));
        assert(lines.push(line).drop_first() =~= lines.drop_first().push(line));
        assert(plan.push(item)[0] == plan[0]);
        assert(lines.push(line)[0] == lines[0]);
    }
}

/// Splits text into lines as `str::lines` does.
pub fn lines_of(text: &str) -> (r: Vec<String>)
    ensures
        texts(r@) == text_lines(text@),
{
    let v = to_chars(text);
    let pieces = split_chars(&v, '\n');
    let ghost ps = char_vecs(pieces@);
    let n = pieces.len();
    let mut out: Vec<String> = Vec::new();
    let mut i: usize = 0;
    while i + 1 < n
        invariant
            i + 1 <= n == pieces.len(),
            ps == char_vecs(pieces@),
            texts(out@) == ps.drop_last().take(i as int).map_values(|p: Seq<char>| strip_cr(p)),
        decreases n - i,
    {
        let p = &pieces[i];
        let line = if p.len() > 0 && p[p.len() - 1] == '\r' {
            crate::text::slice_chars(p, 0, p.len() - 1)
        } else {
            crate::text::slice_chars(p, 0, p.len())
        };
        assert(ps.drop_last()[i as int] == p@);
        assert(p@.subrange(0, p@.len() as int) =~= p@);
        assert(p@.len() > 0 ==> p@.subrange(0, p@.len() - 1) =~= p@.drop_last());
        let ghost before = texts(out@);
        let s = string_of(&line);
        out.push(s);
        assert(texts(out@) =~= before.push(strip_cr(ps.drop_last()[i as int])));
        assert(ps.drop_last().take(i + 1).map_values(|p: Seq<char>| strip_cr(p)) =~= ps.drop_last().take(
            i as int,
        ).map_values(|p: Seq<char>| strip_cr(p)).push(strip_cr(ps.drop_last()[i as int])));
        i += 1;
    }
    assert(ps.drop_last().take(i as int) =~= ps.drop_last());
    let last = &pieces[n - 1];
    assert(ps.last() == last@);
    if last.len() > 0 {
        let ghost before = texts(out@);
        let s = string_of(last);
        out.push(s);
        assert(texts(out@) =~= before.push(last@));
    }
    out
}

/// Plans the routing of assistant output, line by line.
pub fn scan_assistant(text: &str) -> (r: Vec<AssistantLine>)
    ensures
        plans_lines(r@, text_lines(text@), false),
{
    let lines = lines_of(text);
    let ghost ls = texts(lines@);
    let mut plan: Vec<AssistantLine> = Vec::new();
    let mut seen = false;
    let mut i: usize = 0;
    assert(ls.take(0) =~= Seq::<Seq<char>>::empty());
    while i < lines.len()
        invariant
            i <= lines.len(),
            ls == texts(lines@),
            plans_lines(plan@, ls.take(i as int), false),
            seen == exists|k: int| 0 <= k < plan@.len() && plan@[k] is Run,
        decreases lines.len() - i,
    {
        let line = &lines[i];
        let lc = to_chars(line.as_str());
        let stripped = trim_chars(&lc);
        let item = if starts_with_str(&stripped, "```") {
            if seen {
                AssistantLine::Skipped
            } else {
                AssistantLine::Visible(line.clone())
            }
        } else {
            let st = string_of(&stripped);
            match detect_command(st.as_str()) {
                None => AssistantLine::Visible(line.clone()),
                Some(c) => {
                    let cn = to_chars(c.name.as_str());
                    if c.kind == CommandKind::Internal && is(&cn, "quit") {
                        AssistantLine::Visible(line.clone())
                    } else {
                        AssistantLine::Run(c)
                    }
                },
            }
        };
        assert(ls[i as int] == line@);
        proof {
            lemma_plans_lines_push(plan@, ls.take(i as int), false, item, line@);
            assert(ls.take(i + 1) =~= ls.take(i as int).push(line@));
        }
        let ghost was = plan@;
        let is_run = match &item {
            AssistantLine::Run(_) => true,
            _ => false,
        };
        plan.push(item);
        proof {
            if is_run {
                assert(plan@[was.len() as int] is Run);
            }
            if exists|k: int| 0 <= k < was.len() && was[k] is Run {
                let k = choose|k: int| 0 <= k < was.len() && was[k] is Run;
                assert(plan@[k] is Run);
            }
            if exists|k: int| 0 <= k < plan@.len() && plan@[k] is Run {
                let k = choose|k: int| 0 <= k < plan@.len() && plan@[k] is Run;
                if k < was.len() {
                    assert(was[k] is Run);
                }
            }
        }
        seen = seen || is_run;
        i += 1;
    }
    assert(ls.take(lines.len() as int) =~= ls);
    plan
}

/// The outcome block of a shell command run for the assistant.
pub open spec fn shell_block_text(raw: Seq<char>, r: ShellResult) -> Seq<char> {
    let shown = shell_output_text(r.stdout@, r.stderr@);
    if shell_ok(r) {
        "<command name=\""@ + raw + "\" status=\"ok\">\n"@ + shown + "\n</command>"@
    } else {
        failure_context_text(raw, r.exit_code as int, shown)
    }
}

/// The outcome block of a shell command run for the assistant.
pub fn shell_block(raw: &str, result: &ShellResult) -> (r: String)
    ensures
        r@ == shell_block_text(raw@, *result),
{
    if result.exit_code == 0 && !result.timed_out {
        let output = format_shell_output(result);
        let mut v: Vec<char> = Vec::new();
        append_str(&mut v, "<command name=\"");
        append_str(&mut v, raw);
        append_str(&mut v, "\" status=\"ok\">\n");
        append_str(&mut v, output.as_str());
        append_str(&mut v, "\n</command>");
        string_of(&v)
    } else {
        wrap_failure_context(raw, result)
    }
}

/// The outcome block of an internal command run for the assistant.
pub open spec fn internal_block_text(name: Seq<char>, success: bool, output: Seq<char>) -> Seq<char> {
    "<command name=\""@ + name + "\" status=\""@ + (if success {
        "ok"@
    } else {
        "error"@
    }) + "\">\n"@ + output + "\n</command>"@
}

/// The outcome block of an internal command run for the assistant.
pub fn internal_block(name: &str, result: &CommandResult) -> (r: String)
    ensures
        r@ == internal_block_text(name@, result.success, result.output@),
{
    let mut v: Vec<char> = Vec::new();
    append_str(&mut v, "<command name=\"");
    append_str(&mut v, name);
    append_str(&mut v, "\" status=\"");
    if result.success {
        append_str(&mut v, "ok");
    } else {
        append_str(&mut v, "error");
    }
    append_str(&mut v, "\">\n");
    append_str(&mut v, result.output.as_str());
    append_str(&mut v, "\n</command>");
    string_of(&v)
}

/// The visible lines of a plan, in order.
pub open spec fn visible_lines(plan: Seq<AssistantLine>) -> Seq<Seq<char>>
    decreases plan.len(),
{
    if plan.len() == 0 {
        Seq::empty()
    } else {
        let r = visible_lines(plan.drop_last());
        match plan.last() {
            AssistantLine::Visible(s) => r.push(s@),
            _ => r,
        }
    }
}

/// The visible text of routed assistant output: the text as it is when no command ran,
/// else the visible lines joined and trimmed.
pub open spec fn visible_text_of(text: Seq<char>, plan: Seq<AssistantLine>, blocks: nat) -> Seq<char> {
    if blocks == 0 {
        text
    } else {
        trim(join(visible_lines(plan), "\n"@))
    }
}

/// The routing outcome of assistant output, given the plan and the blocks of the commands
/// that ran.
pub fn assistant_result(text: &str, plan: &Vec<AssistantLine>, blocks: Vec<String>, exit_requested: bool) -> (r: AssistantRouteResult)
    ensures
        r.visible_text@ == visible_text_of(text@, plan@, blocks@.len()),
        r.command_blocks == blocks,
        r.exit_requested == exit_requested,
{
    if blocks.len() == 0 {
        return AssistantRouteResult {
            visible_text: crate::text::string_from(text),
            command_blocks: blocks,
            exit_requested,
        };
    }
    let mut lines: Vec<String> = Vec::new();
    let mut i: usize = 0;
    while i < plan.len()
        invariant
            i <= plan.len(),
            texts(lines@) == visible_lines(plan@.take(i as int)),
        decreases plan.len() - i,
    {
        assert(plan@.take(i + 1).drop_last() =~= plan@.take(i as int));
        match &plan[i] {
            AssistantLine::Visible(s) => {
                let ghost before = texts(lines@);
                lines.push(s.clone());
                assert(texts(lines@) =~= before.push(s@));
            },
            _ => {},
        }
        i += 1;
    }
    assert(plan@.take(plan.len() as int) =~= plan@);
    let joined = join_strings(&lines, "\n");
    let jc = to_chars(joined.as_str());
    let t = trim_chars(&jc);
    AssistantRouteResult { visible_text: string_of(&t), command_blocks: blocks, exit_requested }
}

} // verus!
