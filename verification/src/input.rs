//! Where the prompt of a one-shot run comes from, and when it is refused.
use vstd::prelude::*;

use crate::error::CrabClawError;
use crate::text::{append_str, string_from, string_of, to_chars, trim, trim_chars};

verus! {

/// Where the prompt is taken from once the flags have been checked.
#[derive(Debug)]
pub enum PromptPlan {
    /// The `--prompt` text itself.
    Ready(String),
    /// The content of the file at this path.
    ReadFile(String),
    /// Whatever standard input holds.
    ReadStdin,
}

/// Whether a text is blank once trimmed.
fn is_blank(s: &str) -> (r: bool)
    ensures
        r == (trim(s@).len() == 0),
{
    let c = to_chars(s);
    let t = trim_chars(&c);
    t.len() == 0
}

/// Picks the prompt's source from the two flags: both at once is refused, a blank
/// `--prompt` is refused, a `--prompt` is used as it is, else the file, else standard
/// input.
pub fn resolve_prompt(prompt: Option<String>, prompt_file: Option<String>) -> (r: Result<
    PromptPlan,
    CrabClawError,
>)
    ensures
        (prompt is Some && prompt_file is Some) ==> (r matches Err(CrabClawError::Config(m)) && m@
            == "use either --prompt or --prompt-file, not both"@),
        prompt_file is None ==> match prompt {
            Some(p) => if trim(p@).len() == 0 {
                (r matches Err(CrabClawError::Config(m)) && m@ == "prompt cannot be empty"@)
            } else {
                (r matches Ok(PromptPlan::Ready(s)) && s@ == p@)
            },
            None => r matches Ok(PromptPlan::ReadStdin),
        },
        (prompt is None && prompt_file is Some) ==> (r matches Ok(PromptPlan::ReadFile(f)) && f@
            == prompt_file->0@),
{
    match (prompt, prompt_file) {
        (Some(_), Some(_)) => Err(
            CrabClawError::Config(string_from("use either --prompt or --prompt-file, not both")),
        ),
        (Some(p), None) => {
            if is_blank(p.as_str()) {
                Err(CrabClawError::Config(string_from("prompt cannot be empty")))
            } else {
                Ok(PromptPlan::Ready(p))
            }
        },
        (None, Some(f)) => Ok(PromptPlan::ReadFile(f)),
        (None, None) => Ok(PromptPlan::ReadStdin),
    }
}

/// The prompt read from the file shown as `path`: refused when blank.
pub fn file_prompt(path: &str, content: String) -> (r: Result<String, CrabClawError>)
    ensures
        trim(content@).len() == 0 ==> (r matches Err(CrabClawError::Config(m)) && m@
            == "prompt file is empty: "@ + path@),
        trim(content@).len() != 0 ==> (r matches Ok(s) && s@ == content@),
{
    if is_blank(content.as_str()) {
        let mut v: Vec<char> = Vec::new();
        append_str(&mut v, "prompt file is empty: ");
        append_str(&mut v, path);
        Err(CrabClawError::Config(string_of(&v)))
    } else {
        Ok(content)
    }
}

/// The prompt read from standard input: refused when the input is a terminal (there is
/// nothing piped in), or when what was read is blank.
pub fn stdin_prompt(is_terminal: bool, content: String) -> (r: Result<String, CrabClawError>)
    ensures
        is_terminal ==> (r matches Err(CrabClawError::Config(m)) && m@
            == "no prompt provided; use --prompt, --prompt-file, or stdin"@),
        !is_terminal && trim(content@).len() == 0 ==> (r matches Err(CrabClawError::Config(m))
            && m@ == "stdin prompt is empty"@),
        !is_terminal && trim(content@).len() != 0 ==> (r matches Ok(s) && s@ == content@),
{
    if is_terminal {
        Err(
            CrabClawError::Config(
                string_from("no prompt provided; use --prompt, --prompt-file, or stdin"),
            ),
        )
    } else if is_blank(content.as_str()) {
        Err(CrabClawError::Config(string_from("stdin prompt is empty")))
    } else {
        Ok(content)
    }
}

} // verus!
