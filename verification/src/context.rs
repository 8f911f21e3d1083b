//! The context sent to the model: the system prompt and the conversation taken from the
//! tape.
use vstd::prelude::*;

use crate::api_types::Message;
use crate::json::{field, text_of};
use crate::model_runner::msg_view;
use crate::tape::{entry_view, entry_views, since_last_anchor, EntryView, TapeStore};
use crate::text::{append_str, join, join_strings, str_eq, string_from, string_of, to_chars, trim, trim_chars};

verus! {

/// The role and content of a message entry: its payload's `role` (`user` when missing)
/// and `content` (empty when missing).
pub open spec fn entry_message(e: EntryView) -> (Seq<char>, Seq<char>) {
    (
        match text_of(field(e.2, "role"@)) {
            Some(r) => r,
            None => "user"@,
        },
        match text_of(field(e.2, "content"@)) {
            Some(c) => c,
            None => ""@,
        },
    )
}

/// The conversation among entries: the message entries whose content is not empty, in
/// order.
pub open spec fn tape_messages(es: Seq<EntryView>) -> Seq<(Seq<char>, Seq<char>)>
    decreases es.len(),
{
    if es.len() == 0 {
        Seq::empty()
    } else {
        let r = tape_messages(es.drop_last());
        let e = es.last();
        if e.1 == "message"@ && entry_message(e).1.len() > 0 {
            r.push(entry_message(e))
        } else {
            r
        }
    }
}

/// The note that replaces messages dropped from a long conversation.
pub open spec fn truncation_note() -> Seq<char> {
    "Older messages in this session have been truncated to fit the context window."@
}

/// The messages sent to the model, as role and content: the system prompt unless it is
/// blank; then the conversation since the last anchor, where only the last
/// `max_context_messages` are kept, after a note, when there are more.
pub open spec fn context_messages(
    es: Seq<EntryView>,
    system_prompt: Option<Seq<char>>,
    max: nat,
) -> Seq<(Seq<char>, Seq<char>)> {
    let head = match system_prompt {
        Some(p) => if trim(p).len() > 0 {
            seq![("system"@, p)]
        } else {
            Seq::empty()
        },
        None => Seq::empty(),
    };
    let tm = tape_messages(es.subrange(since_last_anchor(es), es.len() as int));
    if tm.len() > max {
        head + seq![("system"@, truncation_note())] + tm.subrange(tm.len() - max, tm.len() as int)
    } else {
        head + tm
    }
}

/// Whether messages carry exactly the given roles and contents, with no tool calls.
pub open spec fn messages_are(v: Seq<Message>, pairs: Seq<(Seq<char>, Seq<char>)>) -> bool {
    &&& v.len() == pairs.len()
    &&& forall|i: int|
        0 <= i < v.len() ==> msg_view(#[trigger] v[i]) == (pairs[i].0, pairs[i].1, None::<Seq<crate::model_runner::CallView>>, None::<Seq<char>>)
}

/// Build the messages for a model call from the tape: see `context_messages`.
pub fn build_messages(tape: &TapeStore, system_prompt: Option<&str>, max_context_messages: usize) -> (r: Vec<
    Message,
>)
    ensures
        messages_are(
            r@,
            context_messages(
                tape@.1,
                match system_prompt {
                    Some(p) => Some(p@),
                    None => None,
                },
                max_context_messages as nat,
            ),
        ),
{
    proof {
        reveal_strlit("");
    }
    let ghost es = tape@.1;
    let entries = tape.entries();
    let start = tape.since_last_anchor_start();
    let ghost tail = es.subrange(start as int, es.len() as int);
    let mut tm: Vec<Message> = Vec::new();
    let mut i: usize = start;
    assert(tail.take(0) =~= Seq::<EntryView>::empty());
    while i < entries.len()
        invariant
            start <= i <= entries.len(),
            entry_views(entries@) == es,
            tail == es.subrange(start as int, es.len() as int),
            messages_are(tm@, tape_messages(tail.take(i - start))),
        decreases entries.len() - i,
    {
        assert(tail.take(i + 1 - start).drop_last() =~= tail.take(i - start));
        assert(tail.take(i + 1 - start).last() == entry_view(entries@[i as int]));
        let e = &entries[i];
        if str_eq(e.kind.as_str(), "message") {
            let role = crate::json::str_field_or(&e.payload, "role", "user");
            let content = crate::json::str_field_or(&e.payload, "content", "");
            if to_chars(content.as_str()).len() > 0 {
                let ghost before = tm@;
                tm.push(Message { role, content, tool_calls: None, tool_call_id: None });
                assert(tm@ == before.push(tm@.last()));
            }
        }
        i += 1;
    }
    assert(tail.take(entries.len() - start) =~= tail);
    let ghost tmv = tape_messages(tail);
    let ghost sp = match system_prompt {
        Some(p) => Some(p@),
        None => None,
    };
    let ghost headspec: Seq<(Seq<char>, Seq<char>)> = match sp {
        Some(p) => if trim(p).len() > 0 {
            seq![("system"@, p)]
        } else {
            Seq::empty()
        },
        None => Seq::empty(),
    };
    let mut out: Vec<Message> = Vec::new();
    match system_prompt {
        Some(p) => {
            if trim_chars(&to_chars(p)).len() > 0 {
                out.push(Message::system(p));
            }
        },
        None => {},
    }
    assert(messages_are(out@, headspec));
    let n = tm.len();
    let ghost pre: Seq<(Seq<char>, Seq<char>)> = if n > max_context_messages {
        headspec + seq![("system"@, truncation_note())]
    } else {
        headspec
    };
    let keep = if n > max_context_messages {
        let ghost before = out@;
        out.push(
            Message::system("Older messages in this session have been truncated to fit the context window."),
        );
        assert forall|k: int| 0 <= k < out@.len() implies msg_view(#[trigger] out@[k]) == (
            pre[k].0,
            pre[k].1,
            None::<Seq<crate::model_runner::CallView>>,
            None::<Seq<char>>,
        ) by {
            if k < before.len() {
                assert(out@[k] == before[k]);
            }
        }
        n - max_context_messages
    } else {
        0
    };
    assert(messages_are(out@, pre));
    assert(pre + tmv.subrange(keep as int, keep as int) =~= pre);
    let mut j: usize = keep;
    while j < n
        invariant
            keep <= j <= n,
            n == tm@.len(),
            messages_are(tm@, tmv),
            messages_are(out@, pre + tmv.subrange(keep as int, j as int)),
        decreases n - j,
    {
        let m = &tm[j];
        let ghost before = out@;
        let ghost want = pre + tmv.subrange(keep as int, j + 1);
        assert(want =~= (pre + tmv.subrange(keep as int, j as int)).push(tmv[j as int]));
        out.push(
            Message { role: m.role.clone(), content: m.content.clone(), tool_calls: None, tool_call_id: None },
        );
        assert(msg_view(tm@[j as int]) == (tmv[j as int].0, tmv[j as int].1, None::<Seq<crate::model_runner::CallView>>, None::<Seq<char>>));
        assert forall|k: int| 0 <= k < out@.len() implies msg_view(#[trigger] out@[k]) == (
            want[k].0,
            want[k].1,
            None::<Seq<crate::model_runner::CallView>>,
            None::<Seq<char>>,
        ) by {
            if k < before.len() {
                assert(out@[k] == before[k]);
            }
        }
        j += 1;
    }
    assert(tmv.len() == n);
    assert(tmv.subrange(0, n as int) =~= tmv);
    assert(pre + tmv.subrange(keep as int, n as int) =~= context_messages(es, sp, max_context_messages as nat));
    out
}

/// The identity section of the system prompt.
pub open spec fn identity_section() -> Seq<char> {
    "<identity>\nYou are CrabClaw, a helpful coding assistant running in a terminal environment.\n</identity>"@
}

/// The runtime contract and the workspace it runs in.
pub open spec fn runtime_section(workspace: Seq<char>) -> Seq<char> {
    "<runtime_contract>\n1) Use tool calls for all actions (file ops, shell, web, tape, skills).\n2) Do not emit comma-prefixed commands in normal flow; use tool calls instead.\n3) Never emit '<command ...>' blocks yourself; those are runtime-generated.\n4) When enough evidence is collected, return a plain natural language answer.\n</runtime_contract>\n<workspace_context>\nCurrent workspace: "@
        + workspace + "\n</workspace_context>"@
}

/// The date and time section.
pub open spec fn datetime_section(datetime: Seq<char>) -> Seq<char> {
    "<context>\nCurrent Date/Time: "@ + datetime + "\n</context>"@
}

/// The section that lists the built-in tools.
pub open spec fn tools_section() -> Seq<char> {
    "<tools_contract>\nYou have access to the following built-in tools:\n- shell.exec: Execute shell commands in the user's workspace\n- file.read: Read file contents (workspace-sandboxed)\n- file.write: Write or create files (workspace-sandboxed)\n- file.list: List directory contents\n- file.search: Search for text within files (recursive grep)\n\nYou can also access any discovered skills from the workspace.\nWhen helping the user:\n- Be concise and actionable\n- Use tools proactively when they would help answer the question\n- If a shell command fails, analyze the error and suggest fixes\n- Prefer reading files over asking the user to paste code\n</tools_contract>"@
}

/// A section taken from a prompt when the prompt is not blank: the prompt trimmed.
pub open spec fn optional_section(p: Option<Seq<char>>) -> Seq<Seq<char>> {
    match p {
        Some(t) => if trim(t).len() > 0 {
            seq![trim(t)]
        } else {
            Seq::empty()
        },
        None => Seq::empty(),
    }
}

/// The system prompt: identity, then the configured prompt and the workspace's own
/// prompt file (each trimmed, when not blank), the runtime contract with the workspace,
/// the date and time, and the tools, separated by blank lines.
pub open spec fn system_prompt_of(
    config_prompt: Option<Seq<char>>,
    workspace_prompt: Option<Seq<char>>,
    workspace: Seq<char>,
    datetime: Seq<char>,
) -> Seq<char> {
    join(
        seq![identity_section()] + optional_section(config_prompt) + optional_section(workspace_prompt) + seq![
            runtime_section(workspace),
            datetime_section(datetime),
            tools_section(),
        ],
        "\n\n"@,
    )
}

/// Pushes the trimmed prompt as a section when it is not blank.
fn push_optional(sections: &mut Vec<String>, p: Option<&str>)
    ensures
        crate::command::texts(final(sections)@) == crate::command::texts(old(sections)@) + optional_section(
            match p {
                Some(t) => Some(t@),
                None => None,
            },
        ),
{
    match p {
        Some(t) => {
            let tr = trim_chars(&to_chars(t));
            if tr.len() > 0 {
                let ghost before = crate::command::texts(sections@);
                sections.push(string_of(&tr));
                assert(crate::command::texts(sections@) =~= before + seq![tr@]);
            } else {
                assert(crate::command::texts(sections@) =~= crate::command::texts(sections@) + Seq::<Seq<char>>::empty());
            }
        },
        None => {
            assert(crate::command::texts(sections@) =~= crate::command::texts(sections@) + Seq::<Seq<char>>::empty());
        },
    }
}

/// Build the system prompt from its sources: the configured prompt, the content of the
/// workspace's `.agent/system-prompt.md` when it could be read, the workspace path, and
/// the local date and time.
pub fn build_system_prompt(
    config_prompt: Option<&str>,
    workspace_prompt: Option<&str>,
    workspace: &str,
    datetime: &str,
) -> (r: String)
    ensures
        r@ == system_prompt_of(
            match config_prompt {
                Some(t) => Some(t@),
                None => None,
            },
            match workspace_prompt {
                Some(t) => Some(t@),
                None => None,
            },
            workspace@,
            datetime@,
        ),
{
    let mut sections: Vec<String> = Vec::new();
    sections.push(
        string_from(
            "<identity>\nYou are CrabClaw, a helpful coding assistant running in a terminal environment.\n</identity>",
        ),
    );
    assert(crate::command::texts(sections@) =~= seq![identity_section()]);
    push_optional(&mut sections, config_prompt);
    push_optional(&mut sections, workspace_prompt);
    let ghost mid = crate::command::texts(sections@);
    let mut rt: Vec<char> = Vec::new();
    append_str(
        &mut rt,
        "<runtime_contract>\n1) Use tool calls for all actions (file ops, shell, web, tape, skills).\n2) Do not emit comma-prefixed commands in normal flow; use tool calls instead.\n3) Never emit '<command ...>' blocks yourself; those are runtime-generated.\n4) When enough evidence is collected, return a plain natural language answer.\n</runtime_contract>\n<workspace_context>\nCurrent workspace: ",
    );
    append_str(&mut rt, workspace);
    append_str(&mut rt, "\n</workspace_context>");
    sections.push(string_of(&rt));
    assert(crate::command::texts(sections@) =~= mid.push(runtime_section(workspace@)));
    let mut dt: Vec<char> = Vec::new();
    append_str(&mut dt, "<context>\nCurrent Date/Time: ");
    append_str(&mut dt, datetime);
    append_str(&mut dt, "\n</context>");
    sections.push(string_of(&dt));
    assert(crate::command::texts(sections@) =~= mid.push(runtime_section(workspace@)).push(datetime_section(datetime@)));
    sections.push(
        string_from(
            "<tools_contract>\nYou have access to the following built-in tools:\n- shell.exec: Execute shell commands in the user's workspace\n- file.read: Read file contents (workspace-sandboxed)\n- file.write: Write or create files (workspace-sandboxed)\n- file.list: List directory contents\n- file.search: Search for text within files (recursive grep)\n\nYou can also access any discovered skills from the workspace.\nWhen helping the user:\n- Be concise and actionable\n- Use tools proactively when they would help answer the question\n- If a shell command fails, analyze the error and suggest fixes\n- Prefer reading files over asking the user to paste code\n</tools_contract>",
        ),
    );
    proof {
        let cp = match config_prompt {
            Some(t) => Some(t@),
            None => None,
        };
        let wp = match workspace_prompt {
            Some(t) => Some(t@),
            None => None,
        };
        assert(crate::command::texts(sections@) =~= seq![identity_section()] + optional_section(cp)
            + optional_section(wp) + seq![runtime_section(workspace@), datetime_section(datetime@), tools_section()]);
    }
    join_strings(&sections, "\n\n")
}

/// The name of a session's tape: its id with each `:` replaced by `_`.
pub open spec fn tape_name_of(session_id: Seq<char>) -> Seq<char> {
    session_id.map_values(|c: char| if c == ':' { '_' } else { c })
}

/// The name of a session's tape file.
pub fn tape_name(session_id: &str) -> (r: String)
    ensures
        r@ == tape_name_of(session_id@),
{
    let v = to_chars(session_id);
    let mut out: Vec<char> = Vec::new();
    let mut i: usize = 0;
    while i < v.len()
        invariant
            i <= v.len(),
            v@ == session_id@,
            out@ == session_id@.take(i as int).map_values(|c: char| if c == ':' { '_' } else { c }),
        decreases v.len() - i,
    {
        out.push(if v[i] == ':' { '_' } else { v[i] });
        assert(session_id@.take(i + 1).map_values(|c: char| if c == ':' { '_' } else { c }) =~= session_id@.take(
            i as int,
        ).map_values(|c: char| if c == ':' { '_' } else { c }).push(if v@[i as int] == ':' { '_' } else { v@[i as int] }));
        i += 1;
    }
    assert(session_id@.take(v.len() as int) =~= session_id@);
    string_of(&out)
}

/// Appending an anchor starts a new context: whatever the tape held before the anchor, the
/// messages sent to the model are those of the entries after it alone.
pub proof fn law_anchor_starts_new_context(
    es: Seq<EntryView>,
    a: EntryView,
    rest: Seq<EntryView>,
    system_prompt: Option<Seq<char>>,
    max: nat,
)
    requires
        a.1 == "anchor"@,
        forall|i: int| 0 <= i < rest.len() ==> #[trigger] rest[i].1 != "anchor"@,
    ensures
        context_messages(es.push(a) + rest, system_prompt, max) == context_messages(rest, system_prompt, max),
{
    let all = es.push(a) + rest;
    let n = es.len() as int;
    crate::tape::law_context_starts_after_last_anchor(all);
    crate::tape::law_context_starts_after_last_anchor(rest);
    let s = since_last_anchor(all);
    assert(all[n] == a);
    if s <= n {
        assert(all[n].1 != "anchor"@);
    }
    if s > n + 1 {
        assert(all[s - 1] == rest[s - 1 - n - 1]);
    }
    assert(s == n + 1);
    if since_last_anchor(rest) > 0 {
        assert(rest[since_last_anchor(rest) - 1].1 != "anchor"@);
    }
    assert(all.subrange(s, all.len() as int) =~= rest.subrange(0, rest.len() as int));
}

} // verus!
