//! Rules of the Codex Responses API provider: tool names, reasoning effort, and request
//! settings.
use vstd::prelude::*;

use crate::api_types::{Message, ToolCall, ToolCallFunction, ToolDefinition, ToolParams};
use crate::error::CrabClawError;
use crate::config::opt_text;
use crate::json::{count_of, deref_json, field, field_of, items_of, json_bytes_parse, json_text_parse, parse_json, parse_json_bytes, str_field, str_field_or, text_of, Json};
use crate::model_runner::{call_views, msg_view, CallView};
use std::collections::HashMap;

use crate::text::{append_str, char_vecs, split_chars, split_on, starts_with, starts_with_str, str_eq, string_from, string_of, to_chars, trim, trim_chars};

verus! {

/// The name of a tool as the Codex API accepts it: each `.` becomes `__`.
pub open spec fn encoded_tool_name(s: Seq<char>) -> Seq<char>
    decreases s.len(),
{
    if s.len() == 0 {
        Seq::empty()
    } else {
        encoded_tool_name(s.drop_last()) + if s.last() == '.' {
            "__"@
        } else {
            seq![s.last()]
        }
    }
}

/// Codex tool names may not hold dots: they become double underscores.
pub fn encode_tool_name(name: &str) -> (r: String)
    ensures
        r@ == encoded_tool_name(name@),
{
    let v = to_chars(name);
    let mut out: Vec<char> = Vec::new();
    let mut i: usize = 0;
    while i < v.len()
        invariant
            i <= v.len(),
            v@ == name@,
            out@ == encoded_tool_name(name@.take(i as int)),
        decreases v.len() - i,
    {
        assert(name@.take(i + 1).drop_last() =~= name@.take(i as int));
        if v[i] == '.' {
            append_str(&mut out, "__");
        } else {
            out.push(v[i]);
            assert(out@ =~= encoded_tool_name(name@.take(i as int)) + seq![v@[i as int]]);
        }
        i += 1;
    }
    assert(name@.take(v.len() as int) =~= name@);
    string_of(&out)
}

/// The tool name back from the Codex form: each `__`, read left to right, becomes `.`.
pub open spec fn decoded_tool_name(s: Seq<char>) -> Seq<char>
    decreases s.len(),
{
    if s.len() >= 2 && s[0] == '_' && s[1] == '_' {
        seq!['.'] + decoded_tool_name(s.subrange(2, s.len() as int))
    } else if s.len() > 0 {
        seq![s[0]] + decoded_tool_name(s.drop_first())
    } else {
        Seq::empty()
    }
}

/// Restores dots in a tool name that came back from the Codex API.
pub fn decode_tool_name(name: &str) -> (r: String)
    ensures
        r@ == decoded_tool_name(name@),
{
    let v = to_chars(name);
    let mut out: Vec<char> = Vec::new();
    let mut i: usize = 0;
    assert(name@.subrange(0, name@.len() as int) =~= name@);
    assert(out@ + decoded_tool_name(name@.subrange(0, name@.len() as int)) =~= decoded_tool_name(name@));
    while i < v.len()
        invariant
            i <= v.len(),
            v@ == name@,
            decoded_tool_name(name@) == out@ + decoded_tool_name(name@.subrange(i as int, name@.len() as int)),
        decreases v.len() - i,
    {
        let ghost rest = name@.subrange(i as int, name@.len() as int);
        if i + 1 < v.len() && v[i] == '_' && v[i + 1] == '_' {
            assert(rest.subrange(2, rest.len() as int) =~= name@.subrange(i + 2, name@.len() as int));
            out.push('.');
            assert(decoded_tool_name(name@) =~= out@ + decoded_tool_name(name@.subrange(i + 2, name@.len() as int)));
            i += 2;
        } else {
            assert(rest.drop_first() =~= name@.subrange(i + 1, name@.len() as int));
            out.push(v[i]);
            assert(decoded_tool_name(name@) =~= out@ + decoded_tool_name(name@.subrange(i + 1, name@.len() as int)));
            i += 1;
        }
    }
    assert(decoded_tool_name(name@.subrange(i as int, name@.len() as int)) =~= Seq::<char>::empty());
    assert(out@ + Seq::<char>::empty() =~= out@);
    string_of(&out)
}

/// `c` in lower case when it is an ASCII letter.
pub open spec fn ascii_lower(c: char) -> char {
    if 'A' <= c <= 'Z' {
        ((c as u32) + 32) as char
    } else {
        c
    }
}

/// The reasoning effort for `model` when the configured effort (lower-cased) is `e`:
/// `gpt-5-codex` takes low, medium or high (minimal becomes low, anything else high); the
/// `gpt-5.1-codex-mini` models take high for high or xhigh and medium otherwise; the
/// `gpt-5.2` and `gpt-5.3` models turn minimal into low; other models keep the effort.
pub open spec fn clamped_effort(model: Seq<char>, e: Seq<char>) -> Seq<char> {
    if model == "gpt-5-codex"@ {
        if e == "low"@ || e == "medium"@ || e == "high"@ {
            e
        } else if e == "minimal"@ {
            "low"@
        } else {
            "high"@
        }
    } else if starts_with(model, "gpt-5.1-codex-mini"@) {
        if e == "high"@ || e == "xhigh"@ {
            "high"@
        } else {
            "medium"@
        }
    } else if (starts_with(model, "gpt-5.2"@) || starts_with(model, "gpt-5.3"@)) && e == "minimal"@ {
        "low"@
    } else {
        e
    }
}

/// The reasoning effort for `model`, given the `CODEX_REASONING_EFFORT` setting (`high`
/// when unset), lower-cased and clamped to what the model takes.
pub fn resolve_reasoning_effort(model: &str, configured: Option<&str>) -> (r: String)
    ensures
        r@ == clamped_effort(
            model@,
            match configured {
                Some(c) => c@.map_values(|ch: char| ascii_lower(ch)),
                None => "high"@,
            },
        ),
{
    let raw = match configured {
        Some(c) => to_chars(c),
        None => to_chars("high"),
    };
    let mut e: Vec<char> = Vec::new();
    let mut i: usize = 0;
    while i < raw.len()
        invariant
            i <= raw.len(),
            e@ == raw@.take(i as int).map_values(|ch: char| ascii_lower(ch)),
        decreases raw.len() - i,
    {
        let c = raw[i];
        let lc = if 'A' <= c && c <= 'Z' {
            ((c as u32) + 32) as u8 as char
        } else {
            c
        };
        e.push(lc);
        assert(raw@.take(i + 1) =~= raw@.take(i as int).push(c));
        assert(e@ =~= raw@.take(i + 1).map_values(|ch: char| ascii_lower(ch)));
        i += 1;
    }
    assert(raw@.take(raw.len() as int) =~= raw@);
    proof {
        if configured is None {
            reveal_strlit("high");
            assert(raw@.map_values(|ch: char| ascii_lower(ch)) =~= raw@);
        }
    }
    let effort = string_of(&e);
    let m = to_chars(model);
    let is = |lit: &str| -> (b: bool)
        ensures
            b == (effort@ == lit@),
        { str_eq(effort.as_str(), lit) };
    if str_eq(model, "gpt-5-codex") {
        if is("low") || is("medium") || is("high") {
            effort
        } else if is("minimal") {
            string_from("low")
        } else {
            string_from("high")
        }
    } else if starts_with_str(&m, "gpt-5.1-codex-mini") {
        if is("high") || is("xhigh") {
            string_from("high")
        } else {
            string_from("medium")
        }
    } else if (starts_with_str(&m, "gpt-5.2") || starts_with_str(&m, "gpt-5.3")) && is("minimal") {
        string_from("low")
    } else {
        effort
    }
}

/// The instructions sent with a Codex request: the system prompt unless it is blank,
/// else the default.
pub open spec fn instructions_text(system_prompt: Option<Seq<char>>) -> Seq<char> {
    match system_prompt {
        Some(s) => if trim(s).len() > 0 {
            s
        } else {
            "You are CrabClaw, a concise and helpful coding assistant."@
        },
        None => "You are CrabClaw, a concise and helpful coding assistant."@,
    }
}

/// The instructions sent with a Codex request.
pub fn instructions(system_prompt: Option<&str>) -> (r: String)
    ensures
        r@ == instructions_text(
            match system_prompt {
                Some(s) => Some(s@),
                None => None,
            },
        ),
{
    match system_prompt {
        Some(s) => {
            let v = to_chars(s);
            let t = trim_chars(&v);
            if t.len() > 0 {
                string_from(s)
            } else {
                string_from("You are CrabClaw, a concise and helpful coding assistant.")
            }
        },
        None => string_from("You are CrabClaw, a concise and helpful coding assistant."),
    }
}

/// The tool choice of a Codex request: `none` without tools, else `auto`.
pub fn tool_choice(tool_count: usize) -> (r: String)
    ensures
        r@ == (if tool_count == 0 {
            "none"@
        } else {
            "auto"@
        }),
{
    if tool_count == 0 {
        string_from("none")
    } else {
        string_from("auto")
    }
}

/// The finish reason of a Codex reply: `tool_calls` when it asks for tools, else `stop`.
pub fn finish_reason(has_tool_calls: bool) -> (r: String)
    ensures
        r@ == (if has_tool_calls {
            "tool_calls"@
        } else {
            "stop"@
        }),
{
    if has_tool_calls {
        string_from("tool_calls")
    } else {
        string_from("stop")
    }
}

/// A tool call as the Codex reply gives it: call id, the name sent back (in Codex form),
/// and the arguments; the call's own name has its dots restored.
pub open spec fn codex_call(id: Seq<char>, name: Seq<char>, arguments: Seq<char>) -> CallView {
    (id, "function"@, decoded_tool_name(name), arguments)
}

/// Builds the tool call of a Codex reply.
fn make_call(id: &str, name: &str, arguments: &str) -> (r: ToolCall)
    ensures
        crate::model_runner::call_view(r) == codex_call(id@, name@, arguments@),
{
    ToolCall {
        id: string_from(id),
        call_type: string_from("function"),
        function: ToolCallFunction { name: decode_tool_name(name), arguments: string_from(arguments) },
    }
}

/// The text of member `key` of `j`, or `default` when it is not a string.
pub open spec fn text_or(j: Json, key: Seq<char>, default: Seq<char>) -> Seq<char> {
    match text_of(field(j, key)) {
        Some(t) => t,
        None => default,
    }
}

/// The tool call an output item asks for: a `function_call` item with a non-empty name.
pub open spec fn item_call(item: Json) -> Option<CallView> {
    if text_of(field(item, "type"@)) == Some("function_call"@) && text_or(item, "name"@, ""@).len() > 0 {
        Some(codex_call(text_or(item, "call_id"@, ""@), text_or(item, "name"@, ""@), text_or(item, "arguments"@, "{}"@)))
    } else {
        None
    }
}

/// The tool calls that the output items ask for, in order.
pub open spec fn calls_in(items: Seq<Json>) -> Seq<CallView>
    decreases items.len(),
{
    if items.len() == 0 {
        Seq::empty()
    } else {
        let c = calls_in(items.drop_last());
        match item_call(items.last()) {
            Some(x) => c.push(x),
            None => c,
        }
    }
}

/// The text of a content part: an `output_text` part whose text is not blank.
pub open spec fn part_text(part: Json) -> Option<Seq<char>> {
    match text_of(field(part, "text"@)) {
        Some(t) => if text_of(field(part, "type"@)) == Some("output_text"@) && trim(t).len() > 0 {
            Some(t)
        } else {
            None
        },
        None => None,
    }
}

/// The first text among content parts.
pub open spec fn first_part_text(parts: Seq<Json>) -> Option<Seq<char>>
    decreases parts.len(),
{
    if parts.len() == 0 {
        None
    } else {
        match first_part_text(parts.drop_last()) {
            Some(t) => Some(t),
            None => part_text(parts.last()),
        }
    }
}

/// The text an output item holds: the first text of its content, unless it is a call.
pub open spec fn item_text(item: Json) -> Option<Seq<char>> {
    if text_of(field(item, "type"@)) == Some("function_call"@) {
        None
    } else {
        match items_of(field(item, "content"@)) {
            Some(parts) => first_part_text(parts),
            None => None,
        }
    }
}

/// The first text among output items.
pub open spec fn first_item_text(items: Seq<Json>) -> Option<Seq<char>>
    decreases items.len(),
{
    if items.len() == 0 {
        None
    } else {
        match first_item_text(items.drop_last()) {
            Some(t) => Some(t),
            None => item_text(items.last()),
        }
    }
}

/// Text and tool calls of a completed response: its `output_text` unless blank, else the
/// first text of its output items; and the calls its items ask for.
pub open spec fn extracted(output: Seq<Json>, output_text: Option<Seq<char>>) -> (Seq<char>, Seq<CallView>) {
    let text = match output_text {
        Some(t) => if trim(t).len() > 0 {
            t
        } else {
            match first_item_text(output) {
                Some(x) => x,
                None => Seq::empty(),
            }
        },
        None => match first_item_text(output) {
            Some(x) => x,
            None => Seq::empty(),
        },
    };
    (text, calls_in(output))
}

/// The `output` of a response: missing means none; otherwise it must be an array.
pub open spec fn output_field(v: Option<Json>) -> Option<Seq<Json>> {
    match v {
        None => Some(Seq::empty()),
        Some(Json::Array(a)) => Some(a@),
        _ => None,
    }
}

/// The `output_text` of a response: missing or null means none; otherwise a string.
pub open spec fn output_text_field(v: Option<Json>) -> Option<Option<Seq<char>>> {
    match v {
        None => Some(None),
        Some(Json::Null) => Some(None),
        Some(Json::Str(s)) => Some(Some(s@)),
        _ => None,
    }
}

/// A response decoded as the record `{ output, output_text }`: from an object by member
/// name, or from an array of at most two items by position; nothing when a member has
/// the wrong kind.
pub open spec fn decoded_response(r: Json) -> Option<(Seq<Json>, Option<Seq<char>>)> {
    match r {
        Json::Object(_) => match (output_field(field(r, "output"@)), output_text_field(field(r, "output_text"@))) {
            (Some(o), Some(t)) => Some((o, t)),
            _ => None,
        },
        Json::Array(v) => if v@.len() <= 2 {
            match (
                output_field(if v@.len() > 0 { Some(v@[0]) } else { None }),
                output_text_field(if v@.len() > 1 { Some(v@[1]) } else { None }),
            ) {
                (Some(o), Some(t)) => Some((o, t)),
                _ => None,
            }
        } else {
            None
        },
        _ => None,
    }
}

/// What a Codex reply came to: its text and tool calls.
pub struct ParsedCodexResponse {
    pub text: String,
    pub tool_calls: Vec<ToolCall>,
}

impl View for ParsedCodexResponse {
    type V = (Seq<char>, Seq<CallView>);

    open spec fn view(&self) -> (Seq<char>, Seq<CallView>) {
        (self.text@, call_views(self.tool_calls@))
    }
}

/// The text of the first content part that holds one.
fn first_part_text_exec(parts: &Vec<Json>) -> (r: Option<String>)
    ensures
        opt_text(r) == first_part_text(parts@),
{
    let mut i: usize = 0;
    while i < parts.len()
        invariant
            i <= parts.len(),
            first_part_text(parts@.take(i as int)) is None,
        decreases parts.len() - i,
    {
        assert(parts@.take(i + 1).drop_last() =~= parts@.take(i as int));
        let p = &parts[i];
        match str_field(p, "text") {
            Some(t) => {
                let tv = to_chars(t.as_str());
                let kind = str_field(p, "type");
                let is_out = match &kind {
                    Some(k) => str_eq(k.as_str(), "output_text"),
                    None => false,
                };
                if is_out && trim_chars(&tv).len() > 0 {
                    proof {
                        lemma_first_part_text_prefix(parts@, i as int);
                    }
                    return Some(t);
                }
            },
            None => {},
        }
        i += 1;
    }
    assert(parts@.take(parts.len() as int) =~= parts@);
    None
}

/// Once a prefix of the parts holds a text, the whole holds that text.
proof fn lemma_first_part_text_prefix(parts: Seq<Json>, i: int)
    requires
        0 <= i < parts.len(),
        first_part_text(parts.take(i)) is None,
        part_text(parts[i]) is Some,
    ensures
        first_part_text(parts) == part_text(parts[i]),
    decreases parts.len(),
{
    assert(parts.take(i + 1).drop_last() =~= parts.take(i));
    if parts.len() > i + 1 {
        assert(parts.drop_last().take(i) =~= parts.take(i));
        lemma_first_part_text_prefix(parts.drop_last(), i);
    } else {
        assert(parts.take(i + 1) =~= parts);
    }
}

/// The items of an `output` that may be missing.
pub open spec fn output_items(o: Option<&Vec<Json>>) -> Seq<Json> {
    match o {
        Some(v) => v@,
        None => Seq::empty(),
    }
}

/// The text an output item holds.
fn item_text_exec(item: &Json) -> (r: Option<String>)
    ensures
        opt_text(r) == item_text(*item),
{
    let kind = str_field(item, "type");
    let is_call = match &kind {
        Some(k) => str_eq(k.as_str(), "function_call"),
        None => false,
    };
    if is_call {
        return None;
    }
    match item.get("content") {
        Some(c) => match c.as_array() {
            Some(parts) => first_part_text_exec(parts),
            None => None,
        },
        None => None,
    }
}

/// The tool call an output item asks for.
fn item_call_exec(item: &Json) -> (r: Option<ToolCall>)
    ensures
        match r {
            Some(c) => item_call(*item) == Some(crate::model_runner::call_view(c)),
            None => item_call(*item) is None,
        },
{
    let kind = str_field(item, "type");
    let is_call = match &kind {
        Some(k) => str_eq(k.as_str(), "function_call"),
        None => false,
    };
    let name = str_field_or(item, "name", "");
    let name_chars = to_chars(name.as_str());
    if is_call && name_chars.len() > 0 {
        let id = str_field_or(item, "call_id", "");
        let args = str_field_or(item, "arguments", "{}");
        Some(make_call(id.as_str(), name.as_str(), args.as_str()))
    } else {
        None
    }
}

/// Text and tool calls of a completed response, given its output items and output text.
pub fn extract_from_response(output: Option<&Vec<Json>>, output_text: Option<String>) -> (r: ParsedCodexResponse)
    ensures
        r@ == extracted(output_items(output), opt_text(output_text)),
{
    let empty: Vec<Json> = Vec::new();
    let items: &Vec<Json> = match output {
        Some(v) => v,
        None => &empty,
    };
    assert(items@ == output_items(output));
    let mut calls: Vec<ToolCall> = Vec::new();
    let mut found: Option<String> = None;
    let mut i: usize = 0;
    while i < items.len()
        invariant
            i <= items.len(),
            call_views(calls@) == calls_in(items@.take(i as int)),
            opt_text(found) == first_item_text(items@.take(i as int)),
        decreases items.len() - i,
    {
        assert(items@.take(i + 1).drop_last() =~= items@.take(i as int));
        assert(items@.take(i + 1).last() == items@[i as int]);
        match item_call_exec(&items[i]) {
            Some(c) => {
                calls.push(c);
                assert(call_views(calls@) =~= calls_in(items@.take(i as int)).push(
                    crate::model_runner::call_view(c),
                ));
            },
            None => {},
        }
        if found.is_none() {
            found = item_text_exec(&items[i]);
        }
        i += 1;
    }
    assert(items@.take(items.len() as int) =~= items@);
    let text = match output_text {
        Some(t) => {
            let tv = to_chars(t.as_str());
            if trim_chars(&tv).len() > 0 {
                t
            } else {
                match found {
                    Some(x) => x,
                    None => String::new(),
                }
            }
        },
        None => match found {
            Some(x) => x,
            None => String::new(),
        },
    };
    ParsedCodexResponse { text, tool_calls: calls }
}

/// The `output` member of a response, checked: `None` when it has the wrong kind.
fn output_member(o: Option<&Json>) -> (r: Option<Option<&Vec<Json>>>)
    ensures
        match r {
            Some(v) => output_field(deref_json(o)) == Some(output_items(v)),
            None => output_field(deref_json(o)) is None,
        },
{
    match o {
        None => Some(None),
        Some(j) => match j.as_array() {
            Some(v) => Some(Some(v)),
            None => None,
        },
    }
}

/// The `output_text` member of a response, checked: `None` when it has the wrong kind.
fn output_text_member(t: Option<&Json>) -> (r: Option<Option<String>>)
    ensures
        match r {
            Some(v) => output_text_field(deref_json(t)) == Some(opt_text(v)),
            None => output_text_field(deref_json(t)) is None,
        },
{
    match t {
        None => Some(None),
        Some(j) => match j {
            Json::Null => Some(None),
            Json::Str(s) => Some(Some(string_from(s.as_str()))),
            _ => None,
        },
    }
}

/// Text and tool calls of a response value, when it decodes as a response.
pub fn response_extract(r: &Json) -> (res: Option<ParsedCodexResponse>)
    ensures
        match res {
            Some(p) => decoded_response(*r) matches Some((o, t)) && p@ == extracted(o, t),
            None => decoded_response(*r) is None,
        },
{
    let (o, t): (Option<&Json>, Option<&Json>) = match r {
        Json::Object(_) => (r.get("output"), r.get("output_text")),
        Json::Array(v) => {
            if v.len() > 2 {
                return None;
            }
            (if v.len() > 0 { Some(&v[0]) } else { None }, if v.len() > 1 { Some(&v[1]) } else { None })
        },
        _ => {
            return None;
        },
    };
    proof {
        match r {
            Json::Object(_) => {
                assert(deref_json(o) == field(*r, "output"@));
                assert(deref_json(t) == field(*r, "output_text"@));
            },
            Json::Array(v) => {
                assert(deref_json(o) == (if v@.len() > 0 { Some(v@[0]) } else { None::<Json> }));
                assert(deref_json(t) == (if v@.len() > 1 { Some(v@[1]) } else { None::<Json> }));
            },
            _ => {},
        }
    }
    match output_member(o) {
        Some(items) => match output_text_member(t) {
            Some(text) => Some(extract_from_response(items, text)),
            None => None,
        },
        None => None,
    }
}

/// A function call being streamed: name, call id, and the argument text received so far.
pub type PendingView = (Seq<char>, Seq<char>, Seq<char>);

/// A function call being streamed, as the parser holds it.
pub type PendingCall = (String, String, String);

/// The model of a streamed function call.
pub open spec fn pending_view(e: PendingCall) -> PendingView {
    (e.0@, e.1@, e.2@)
}

/// The models of the streamed function calls, by output index.
pub open spec fn pending_views(p: Map<u64, PendingCall>) -> Map<u64, PendingView> {
    p.map_values(|e: PendingCall| pending_view(e))
}

/// The call streamed at output index `k`, if there is one.
pub open spec fn pend_get(p: Map<u64, PendingView>, k: u64) -> Option<PendingView> {
    if p.contains_key(k) {
        Some(p[k])
    } else {
        None
    }
}

/// What an event stream has given so far: the text deltas and whether any came, the text
/// of other events, the finished tool calls, the calls being streamed, and the error that
/// ended the stream, if one did.
pub struct SseView {
    pub buf: Seq<char>,
    pub saw: bool,
    pub text: Seq<char>,
    pub calls: Seq<CallView>,
    pub pending: Map<u64, PendingView>,
    pub error: Option<Seq<char>>,
}

/// The state before any event.
pub open spec fn sse_init() -> SseView {
    SseView {
        buf: Seq::empty(),
        saw: false,
        text: Seq::empty(),
        calls: Seq::empty(),
        pending: Map::empty(),
        error: None,
    }
}

/// Whether an event has type `k`.
pub open spec fn is_kind(e: Json, k: Seq<char>) -> bool {
    text_of(field(e, "type"@)) == Some(k)
}

/// The output index an event speaks of; 0 when it gives none.
pub open spec fn event_index(e: Json) -> u64 {
    match count_of(field(e, "output_index"@)) {
        Some(n) => n,
        None => 0,
    }
}

/// The message of an error event: its `message` member when it has one, else the message
/// of its response's error; `unknown error` when that is not a string.
pub open spec fn error_message(e: Json) -> Seq<char> {
    let m = match field(e, "message"@) {
        Some(v) => Some(v),
        None => field_of(field_of(field(e, "response"@), "error"@), "message"@),
    };
    match text_of(m) {
        Some(t) => t,
        None => "unknown error"@,
    }
}

/// A text delta extends the streamed text.
pub open spec fn on_text_delta(s: SseView, e: Json) -> SseView {
    match text_of(field(e, "delta"@)) {
        Some(d) => SseView { buf: s.buf + d, saw: true, ..s },
        None => s,
    }
}

/// A finished text counts when no delta came and it is not empty.
pub open spec fn on_text_done(s: SseView, e: Json) -> SseView {
    if s.saw {
        s
    } else {
        match text_of(field(e, "text"@)) {
            Some(t) => if t.len() > 0 {
                SseView { text: t, ..s }
            } else {
                s
            },
            None => s,
        }
    }
}

/// A new function call item starts being streamed at its output index.
pub open spec fn on_item_added(s: SseView, e: Json) -> SseView {
    match field(e, "item"@) {
        Some(item) => if text_of(field(item, "type"@)) == Some("function_call"@) {
            SseView {
                pending: s.pending.insert(
                    event_index(e),
                    (text_or(item, "name"@, ""@), text_or(item, "call_id"@, ""@), Seq::empty()),
                ),
                ..s
            }
        } else {
            s
        },
        None => s,
    }
}

/// An argument delta extends the call streamed at its output index.
pub open spec fn on_args_delta(s: SseView, e: Json) -> SseView {
    match text_of(field(e, "delta"@)) {
        Some(d) => match pend_get(s.pending, event_index(e)) {
            Some(x) => SseView { pending: s.pending.insert(event_index(e), (x.0, x.1, x.2 + d)), ..s },
            None => s,
        },
        None => s,
    }
}

/// A finished call: its own name, id and arguments win over what was streamed, and it
/// counts when it has a name; the streamed call is dropped.
pub open spec fn on_args_done(s: SseView, e: Json) -> SseView {
    let k = event_index(e);
    let entry = pend_get(s.pending, k);
    let name = text_or(e, "name"@, ""@);
    let id = text_or(e, "call_id"@, ""@);
    let args = text_or(e, "arguments"@, "{}"@);
    let final_name = if name.len() == 0 {
        match entry {
            Some(x) => x.0,
            None => ""@,
        }
    } else {
        name
    };
    let final_id = if id.len() == 0 {
        match entry {
            Some(x) => x.1,
            None => ""@,
        }
    } else {
        id
    };
    let final_args = if args != "{}"@ {
        args
    } else {
        match entry {
            Some(x) => x.2,
            None => "{}"@,
        }
    };
    SseView {
        calls: if final_name.len() > 0 {
            s.calls.push(codex_call(final_id, final_name, final_args))
        } else {
            s.calls
        },
        pending: s.pending.remove(k),
        ..s
    }
}

/// A completed response fills in the text when none came yet, and the calls when none
/// came yet and it has some.
pub open spec fn on_completed(s: SseView, e: Json) -> SseView {
    match field(e, "response"@) {
        Some(r) => match decoded_response(r) {
            Some((o, t)) => {
                let x = extracted(o, t);
                SseView {
                    text: if s.text.len() == 0 {
                        x.0
                    } else {
                        s.text
                    },
                    calls: if s.calls.len() == 0 && x.1.len() > 0 {
                        x.1
                    } else {
                        s.calls
                    },
                    ..s
                }
            },
            None => s,
        },
        None => s,
    }
}

/// The effect of one event; after an error nothing changes.
pub open spec fn sse_step(s: SseView, e: Json) -> SseView {
    if s.error is Some {
        s
    } else if is_kind(e, "error"@) || is_kind(e, "response.failed"@) {
        SseView { error: Some(error_message(e)), ..s }
    } else if is_kind(e, "response.output_text.delta"@) {
        on_text_delta(s, e)
    } else if is_kind(e, "response.output_text.done"@) {
        on_text_done(s, e)
    } else if is_kind(e, "response.output_item.added"@) {
        on_item_added(s, e)
    } else if is_kind(e, "response.function_call_arguments.delta"@) {
        on_args_delta(s, e)
    } else if is_kind(e, "response.function_call_arguments.done"@) {
        on_args_done(s, e)
    } else if is_kind(e, "response.completed"@) || is_kind(e, "response.done"@) {
        on_completed(s, e)
    } else {
        s
    }
}

/// The state after a sequence of events.
pub open spec fn sse_fold(events: Seq<Json>) -> SseView
    decreases events.len(),
{
    if events.len() == 0 {
        sse_init()
    } else {
        sse_step(sse_fold(events.drop_last()), events.last())
    }
}

/// The JSON text a line carries: the trimmed rest of a `data:` line, unless it is empty
/// or `[DONE]`.
pub open spec fn data_payload(line: Seq<char>) -> Option<Seq<char>> {
    if starts_with(line, "data:"@) {
        let p = trim(line.subrange(5, line.len() as int));
        if p.len() > 0 && p != "[DONE]"@ {
            Some(p)
        } else {
            None
        }
    } else {
        None
    }
}

/// The events of a stream's lines: the payloads that parse as JSON, in order.
pub open spec fn stream_events(lines: Seq<Seq<char>>) -> Seq<Json>
    decreases lines.len(),
{
    if lines.len() == 0 {
        Seq::empty()
    } else {
        let ev = stream_events(lines.drop_last());
        match data_payload(lines.last()) {
            Some(p) => match json_text_parse(p) {
                Some(j) => ev.push(j),
                None => ev,
            },
            None => ev,
        }
    }
}

/// Whether the stream gave neither text nor calls, so that the whole body is read as a
/// response instead.
pub open spec fn sse_empty(s: SseView) -> bool {
    (if s.saw && s.buf.len() > 0 {
        s.buf
    } else {
        s.text
    }).len() == 0 && s.calls.len() == 0
}

/// What a Codex reply comes to, given the stream's state and the whole body parsed as
/// JSON: the stream's error; else its text (the deltas when any came, else the other
/// text) and calls, or, when it gave neither, what the body decodes to as a response;
/// and an error when there is still neither text nor calls.
pub open spec fn sse_outcome(s: SseView, whole: Option<Json>) -> Result<(Seq<char>, Seq<CallView>), Seq<char>> {
    match s.error {
        Some(m) => Err("Codex stream error: "@ + m),
        None => {
            let text = if s.saw && s.buf.len() > 0 {
                s.buf
            } else {
                s.text
            };
            let got = if sse_empty(s) {
                match whole {
                    Some(w) => match decoded_response(w) {
                        Some((o, t)) => extracted(o, t),
                        None => (text, s.calls),
                    },
                    None => (text, s.calls),
                }
            } else {
                (text, s.calls)
            };
            if got.0.len() == 0 && got.1.len() == 0 {
                Err("No text content or tool calls in Codex response"@)
            } else {
                Ok(got)
            }
        },
    }
}

/// The state of an event stream being read.
pub struct SseState {
    pub buf: Vec<char>,
    pub saw: bool,
    pub text: String,
    pub calls: Vec<ToolCall>,
    pub pending: HashMap<u64, PendingCall>,
    pub error: Option<String>,
}

impl View for SseState {
    type V = SseView;

    open spec fn view(&self) -> SseView {
        SseView {
            buf: self.buf@,
            saw: self.saw,
            text: self.text@,
            calls: call_views(self.calls@),
            pending: pending_views(self.pending@),
            error: opt_text(self.error),
        }
    }
}

impl SseState {
    /// The state before any event.
    pub fn new() -> (r: SseState)
        ensures
            r@ == sse_init(),
    {
        let r = SseState {
            buf: Vec::new(),
            saw: false,
            text: String::new(),
            calls: Vec::new(),
            pending: HashMap::new(),
            error: None,
        };
        assert(call_views(r.calls@) =~= Seq::<CallView>::empty());
        assert(pending_views(r.pending@) =~= Map::<u64, PendingView>::empty());
        r
    }

    fn on_text_delta_exec(&mut self, e: &Json)
        ensures
            final(self)@ == on_text_delta(old(self)@, *e),
    {
        match str_field(e, "delta") {
            Some(d) => {
                self.saw = true;
                append_str(&mut self.buf, d.as_str());
            },
            None => {},
        }
    }

    fn on_text_done_exec(&mut self, e: &Json)
        ensures
            final(self)@ == on_text_done(old(self)@, *e),
    {
        if !self.saw {
            match str_field(e, "text") {
                Some(t) => {
                    let tv = to_chars(t.as_str());
                    if tv.len() > 0 {
                        self.text = t;
                    }
                },
                None => {},
            }
        }
    }

    fn on_item_added_exec(&mut self, e: &Json)
        ensures
            final(self)@ == on_item_added(old(self)@, *e),
    {
        let k: u64 = match e.get("output_index") {
            Some(v) => match v.as_u64() {
                Some(n) => n,
                None => 0,
            },
            None => 0,
        };
        assert(k == event_index(*e));
        match e.get("item") {
            Some(item) => {
                let kind = str_field(item, "type");
                let is_call = match &kind {
                    Some(t) => str_eq(t.as_str(), "function_call"),
                    None => false,
                };
                if is_call {
                    let name = str_field_or(item, "name", "");
                    let id = str_field_or(item, "call_id", "");
                    let ghost before = pending_views(self.pending@);
                    self.pending.insert(k, (name, id, String::new()));
                    assert(pending_views(self.pending@) =~= before.insert(
                        k,
                        (text_or(*item, "name"@, ""@), text_or(*item, "call_id"@, ""@), Seq::<char>::empty()),
                    ));
                }
            },
            None => {},
        }
    }

    fn on_args_delta_exec(&mut self, e: &Json)
        ensures
            final(self)@ == on_args_delta(old(self)@, *e),
    {
        let k: u64 = match e.get("output_index") {
            Some(v) => match v.as_u64() {
                Some(n) => n,
                None => 0,
            },
            None => 0,
        };
        match str_field(e, "delta") {
            Some(d) => {
                assert(k == event_index(*e));
                let found: Option<PendingCall> = match self.pending.get(&k) {
                    Some(x) => Some((x.0.clone(), x.1.clone(), x.2.clone())),
                    None => None,
                };
                match found {
                    Some(x) => {
                        let ghost before = pending_views(self.pending@);
                        let mut a = to_chars(x.2.as_str());
                        append_str(&mut a, d.as_str());
                        let v = (x.0, x.1, string_of(&a));
                        self.pending.insert(k, v);
                        assert(pending_views(self.pending@) =~= before.insert(k, pending_view(v)));
                    },
                    None => {},
                }
            },
            None => {},
        }
    }

    fn on_args_done_exec(&mut self, e: &Json)
        ensures
            final(self)@ == on_args_done(old(self)@, *e),
    {
        let k: u64 = match e.get("output_index") {
            Some(v) => match v.as_u64() {
                Some(n) => n,
                None => 0,
            },
            None => 0,
        };
        let ghost entry = pend_get(pending_views(self.pending@), k);
        let found: Option<PendingCall> = match self.pending.get(&k) {
            Some(x) => Some((x.0.clone(), x.1.clone(), x.2.clone())),
            None => None,
        };
        assert(match found {
            Some(x) => entry == Some(pending_view(x)),
            None => entry is None,
        });
        let name = str_field_or(e, "name", "");
        let id = str_field_or(e, "call_id", "");
        let args = str_field_or(e, "arguments", "{}");
        let final_name: String = if to_chars(name.as_str()).len() == 0 {
            match &found {
                Some(x) => x.0.clone(),
                None => String::new(),
            }
        } else {
            name
        };
        let final_id: String = if to_chars(id.as_str()).len() == 0 {
            match &found {
                Some(x) => x.1.clone(),
                None => String::new(),
            }
        } else {
            id
        };
        let final_args: String = if !str_eq(args.as_str(), "{}") {
            args
        } else {
            match &found {
                Some(x) => x.2.clone(),
                None => string_from("{}"),
            }
        };
        proof {
            reveal_strlit("");
            reveal_strlit("{}");
            assert(k == event_index(*e));
            let sn = text_or(*e, "name"@, ""@);
            let si = text_or(*e, "call_id"@, ""@);
            let sa = text_or(*e, "arguments"@, "{}"@);
            assert(final_name@ == (if sn.len() == 0 {
                match entry {
                    Some(x) => x.0,
                    None => ""@,
                }
            } else {
                sn
            }));
            assert(final_id@ == (if si.len() == 0 {
                match entry {
                    Some(x) => x.1,
                    None => ""@,
                }
            } else {
                si
            }));
            assert(final_args@ == (if sa != "{}"@ {
                sa
            } else {
                match entry {
                    Some(x) => x.2,
                    None => "{}"@,
                }
            }));
        }
        if to_chars(final_name.as_str()).len() > 0 {
            let c = make_call(final_id.as_str(), final_name.as_str(), final_args.as_str());
            self.calls.push(c);
            assert(call_views(self.calls@) =~= call_views(old(self).calls@).push(
                crate::model_runner::call_view(c),
            ));
        }
        let ghost before = pending_views(self.pending@);
        self.pending.remove(&k);
        assert(pending_views(self.pending@) =~= before.remove(k));
    }

    fn on_completed_exec(&mut self, e: &Json)
        ensures
            final(self)@ == on_completed(old(self)@, *e),
    {
        match e.get("response") {
            Some(r) => match response_extract(r) {
                Some(x) => {
                    if to_chars(self.text.as_str()).len() == 0 {
                        self.text = x.text;
                    }
                    if self.calls.len() == 0 && x.tool_calls.len() > 0 {
                        self.calls = x.tool_calls;
                    }
                },
                None => {},
            },
            None => {},
        }
    }

    /// Whether the stream gave neither text nor calls.
    pub fn is_empty_result(&self) -> (r: bool)
        ensures
            r == sse_empty(self@),
    {
        let t = if self.saw && self.buf.len() > 0 {
            self.buf.len()
        } else {
            to_chars(self.text.as_str()).len()
        };
        t == 0 && self.calls.len() == 0
    }

    /// What the reply comes to, given the whole body parsed as JSON when the stream gave
    /// neither text nor calls.
    pub fn finish(self, whole: Option<&Json>) -> (r: Result<ParsedCodexResponse, CrabClawError>)
        ensures
            match r {
                Ok(p) => sse_outcome(self@, deref_json(whole)) == Ok::<_, Seq<char>>(p@),
                Err(e) => e matches CrabClawError::Api(m) && sse_outcome(self@, deref_json(whole)) == Err::<(Seq<char>, Seq<CallView>), _>(m@),
            },
    {
        let ghost s = self@;
        let empty = self.is_empty_result();
        match self.error {
            Some(m) => {
                let mut v: Vec<char> = Vec::new();
                append_str(&mut v, "Codex stream error: ");
                append_str(&mut v, m.as_str());
                return Err(CrabClawError::Api(string_of(&v)));
            },
            None => {},
        }
        let text: String = if self.saw && self.buf.len() > 0 {
            string_of(&self.buf)
        } else {
            self.text
        };
        let mut got = ParsedCodexResponse { text, tool_calls: self.calls };
        if empty {
            match whole {
                Some(w) => match response_extract(w) {
                    Some(x) => {
                        got = x;
                    },
                    None => {},
                },
                None => {},
            }
        }
        if to_chars(got.text.as_str()).len() == 0 && got.tool_calls.len() == 0 {
            return Err(CrabClawError::Api(string_from("No text content or tool calls in Codex response")));
        }
        Ok(got)
    }

    /// Applies one event of the stream.
    pub fn apply_event(&mut self, e: &Json)
        ensures
            final(self)@ == sse_step(old(self)@, *e),
    {
        if self.error.is_some() {
            return;
        }
        let kind = str_field(e, "type");
        let k: Vec<char> = match &kind {
            Some(t) => to_chars(t.as_str()),
            None => Vec::new(),
        };
        let has = kind.is_some();
        let is = |lit: &str| -> (b: bool)
            ensures
                b == (text_of(field(*e, "type"@)) == Some(lit@)),
            { has && crate::text::chars_eq(&k, &to_chars(lit)) };
        if is("error") || is("response.failed") {
            let m = match e.get("message") {
                Some(v) => v.as_str(),
                None => match e.get("response") {
                    Some(r) => match r.get("error") {
                        Some(x) => match x.get("message") {
                            Some(v) => v.as_str(),
                            None => None,
                        },
                        None => None,
                    },
                    None => None,
                },
            };
            self.error = Some(
                match m {
                    Some(t) => string_from(t),
                    None => string_from("unknown error"),
                },
            );
        } else if is("response.output_text.delta") {
            self.on_text_delta_exec(e);
        } else if is("response.output_text.done") {
            self.on_text_done_exec(e);
        } else if is("response.output_item.added") {
            self.on_item_added_exec(e);
        } else if is("response.function_call_arguments.delta") {
            self.on_args_delta_exec(e);
        } else if is("response.function_call_arguments.done") {
            self.on_args_done_exec(e);
        } else if is("response.completed") || is("response.done") {
            self.on_completed_exec(e);
        }
    }
}

/// The JSON text a line carries, if it is a `data:` line with a payload.
fn data_payload_exec(line: &Vec<char>) -> (r: Option<Vec<char>>)
    ensures
        match r {
            Some(p) => data_payload(line@) == Some(p@),
            None => data_payload(line@) is None,
        },
{
    if !starts_with_str(line, "data:") {
        return None;
    }
    proof {
        reveal_strlit("data:");
    }
    let rest = crate::text::slice_chars(line, 5, line.len());
    let p = trim_chars(&rest);
    if p.len() > 0 && !crate::text::chars_eq(&p, &to_chars("[DONE]")) {
        Some(p)
    } else {
        None
    }
}

/// What a Codex reply body comes to: the events of its lines, read in order, and the
/// trimmed body parsed as JSON.
pub open spec fn sse_body_outcome(body: Seq<char>) -> Result<(Seq<char>, Seq<CallView>), Seq<char>> {
    sse_outcome(sse_fold(stream_events(split_on(body, '\n'))), json_text_parse(trim(body)))
}

/// Reads a Codex reply sent as server-sent events: text deltas, finished texts, streamed
/// function calls and completed responses, stopping at an error event; falls back to the
/// whole body read as one response; fails when there is neither text nor a tool call.
pub fn parse_sse_response(body: &str) -> (r: Result<ParsedCodexResponse, CrabClawError>)
    ensures
        match r {
            Ok(p) => sse_body_outcome(body@) == Ok::<_, Seq<char>>(p@),
            Err(e) => e matches CrabClawError::Api(m) && sse_body_outcome(body@) == Err::<(Seq<char>, Seq<CallView>), _>(m@),
        },
{
    let chars = to_chars(body);
    let lines = split_chars(&chars, '\n');
    let ghost ls = char_vecs(lines@);
    let mut state = SseState::new();
    let mut i: usize = 0;
    while i < lines.len()
        invariant
            i <= lines.len(),
            ls == char_vecs(lines@),
            state@ == sse_fold(stream_events(ls.take(i as int))),
        decreases lines.len() - i,
    {
        assert(ls.take(i + 1).drop_last() =~= ls.take(i as int));
        assert(ls.take(i + 1).last() == lines@[i as int]@);
        match data_payload_exec(&lines[i]) {
            Some(p) => {
                let text = string_of(&p);
                match parse_json(text.as_str()) {
                    Some(ev) => {
                        let ghost before = stream_events(ls.take(i as int));
                        assert(before.push(ev).drop_last() =~= before);
                        state.apply_event(&ev);
                    },
                    None => {},
                }
            },
            None => {},
        }
        i += 1;
    }
    assert(ls.take(lines.len() as int) =~= ls);
    if state.is_empty_result() && state.error.is_none() {
        let t = trim_chars(&chars);
        let whole = parse_json(string_of(&t).as_str());
        match whole {
            Some(w) => state.finish(Some(&w)),
            None => state.finish(None),
        }
    } else {
        state.finish(None)
    }
}

/// The payload part of a JWT: the second of its `.`-separated parts.
pub open spec fn jwt_payload(token: Seq<char>) -> Option<Seq<char>> {
    if split_on(token, '.').len() > 1 {
        Some(split_on(token, '.')[1])
    } else {
        None
    }
}

/// The claim `key` when it is a string that is not blank.
pub open spec fn claim_value(claims: Json, key: Seq<char>) -> Option<Seq<char>> {
    match text_of(field(claims, key)) {
        Some(v) => if trim(v).len() > 0 {
            Some(v)
        } else {
            None
        },
        None => None,
    }
}

/// The account id among a token's claims: the first of `account_id`, `accountId`,
/// `acct`, `sub` and `https://api.openai.com/account_id` that is a non-blank string.
pub open spec fn account_id_in(claims: Json) -> Option<Seq<char>> {
    match claim_value(claims, "account_id"@) {
        Some(v) => Some(v),
        None => match claim_value(claims, "accountId"@) {
            Some(v) => Some(v),
            None => match claim_value(claims, "acct"@) {
                Some(v) => Some(v),
                None => match claim_value(claims, "sub"@) {
                    Some(v) => Some(v),
                    None => claim_value(claims, "https://api.openai.com/account_id"@),
                },
            },
        },
    }
}

/// The claim `key` when it is a non-blank string.
fn claim_exec(claims: &Json, key: &str) -> (r: Option<String>)
    ensures
        opt_text(r) == claim_value(*claims, key@),
{
    match str_field(claims, key) {
        Some(v) => {
            let vc = to_chars(v.as_str());
            if trim_chars(&vc).len() > 0 {
                Some(v)
            } else {
                None
            }
        },
        None => None,
    }
}

/// The account id among a token's claims.
pub fn account_id_from_claims(claims: &Json) -> (r: Option<String>)
    ensures
        opt_text(r) == account_id_in(*claims),
{
    match claim_exec(claims, "account_id") {
        Some(v) => Some(v),
        None => match claim_exec(claims, "accountId") {
            Some(v) => Some(v),
            None => match claim_exec(claims, "acct") {
                Some(v) => Some(v),
                None => match claim_exec(claims, "sub") {
                    Some(v) => Some(v),
                    None => claim_exec(claims, "https://api.openai.com/account_id"),
                },
            },
        },
    }
}

/// The account id of a JWT id token: its payload part, base64-decoded and parsed as JSON,
/// read with `account_id_from_claims`; `None` when a step fails.
pub fn extract_account_id_from_jwt(token: &str) -> (r: Option<String>)
    ensures
        jwt_payload(token@) is None ==> r is None,
        forall|b: Seq<u8>|
            jwt_payload(token@) == Some(#[trigger] crate::auth::b64url(b)) ==> opt_text(r) == (match json_bytes_parse(b) {
                Some(c) => account_id_in(c),
                None => None,
            }),
        (jwt_payload(token@) matches Some(p) && forall|b: Seq<u8>| #[trigger] crate::auth::b64url(b) != p) ==> r is None,
{
    let chars = to_chars(token);
    let parts = split_chars(&chars, '.');
    proof {
        assert(char_vecs(parts@).len() == parts@.len());
    }
    if parts.len() < 2 {
        return None;
    }
    assert(char_vecs(parts@)[1] == parts@[1]@);
    let payload = string_of(&parts[1]);
    match crate::auth::base64_url_decode(payload.as_str()) {
        Some(bytes) => {
            proof {
                assert forall|b: Seq<u8>| jwt_payload(token@) == Some(#[trigger] crate::auth::b64url(b)) implies b == bytes@ by {
                    crate::auth::lemma_b64url_injective(b, bytes@);
                }
            }
            match parse_json_bytes(bytes.as_slice()) {
                Some(claims) => account_id_from_claims(&claims),
                None => None,
            }
        },
        None => None,
    }
}

/// An item of the input of a Codex request: user text, assistant text, a function call
/// (name in Codex form, arguments, call id), or a function call's output (call id, text).
pub enum InputItem {
    User(Seq<char>),
    Assistant(Seq<char>),
    Call(Seq<char>, Seq<char>, Seq<char>),
    CallOutput(Seq<char>, Seq<char>),
}

/// The input items one message gives: a user message its text; an assistant message a
/// call item per tool call, then its text unless blank; a tool message its output when it
/// names the call it answers; other messages nothing.
pub open spec fn message_items(m: (Seq<char>, Seq<char>, Option<Seq<CallView>>, Option<Seq<char>>)) -> Seq<InputItem> {
    if m.0 == "user"@ {
        seq![InputItem::User(m.1)]
    } else if m.0 == "assistant"@ {
        let calls = match m.2 {
            Some(c) => Seq::new(c.len(), |i: int| InputItem::Call(encoded_tool_name(c[i].2), c[i].3, c[i].0)),
            None => Seq::empty(),
        };
        if trim(m.1).len() > 0 {
            calls.push(InputItem::Assistant(m.1))
        } else {
            calls
        }
    } else if m.0 == "tool"@ {
        match m.3 {
            Some(id) => seq![InputItem::CallOutput(id, m.1)],
            None => Seq::empty(),
        }
    } else {
        Seq::empty()
    }
}

/// The input items of a conversation, message by message.
pub open spec fn input_items(msgs: Seq<Message>) -> Seq<InputItem>
    decreases msgs.len(),
{
    if msgs.len() == 0 {
        Seq::empty()
    } else {
        input_items(msgs.drop_last()) + message_items(msg_view(msgs.last()))
    }
}

/// Whether `j` is the string `t`.
pub open spec fn is_str(j: Json, t: Seq<char>) -> bool {
    j matches Json::Str(s) && s@ == t
}

/// Whether `j` is an object with exactly the members named `k1` and `k2`, in order, whose
/// values are the strings `v1` and `v2`.
pub open spec fn is_pair(j: Json, k1: Seq<char>, v1: Seq<char>, k2: Seq<char>, v2: Seq<char>) -> bool {
    j matches Json::Object(fs) && fs@.len() == 2 && fs@[0].0@ == k1 && is_str(fs@[0].1, v1) && fs@[1].0@ == k2
        && is_str(fs@[1].1, v2)
}

/// Whether `j` is a message item: `role`, then `content` holding one part of type
/// `part` with the text.
pub open spec fn is_message_item(j: Json, role: Seq<char>, part: Seq<char>, text: Seq<char>) -> bool {
    j matches Json::Object(fs) && fs@.len() == 2 && fs@[0].0@ == "role"@ && is_str(fs@[0].1, role) && fs@[1].0@
        == "content"@ && (fs@[1].1 matches Json::Array(ps) && ps@.len() == 1 && is_pair(
        ps@[0],
        "type"@,
        part,
        "text"@,
        text,
    ))
}

/// Whether `j` is the JSON of an input item.
pub open spec fn item_is(j: Json, it: InputItem) -> bool {
    match it {
        InputItem::User(t) => is_message_item(j, "user"@, "input_text"@, t),
        InputItem::Assistant(t) => is_message_item(j, "assistant"@, "output_text"@, t),
        InputItem::Call(name, args, id) => j matches Json::Object(fs) && fs@.len() == 4 && fs@[0].0@ == "type"@
            && is_str(fs@[0].1, "function_call"@) && fs@[1].0@ == "name"@ && is_str(fs@[1].1, name) && fs@[2].0@
            == "arguments"@ && is_str(fs@[2].1, args) && fs@[3].0@ == "call_id"@ && is_str(fs@[3].1, id),
        InputItem::CallOutput(id, out) => j matches Json::Object(fs) && fs@.len() == 3 && fs@[0].0@ == "type"@
            && is_str(fs@[0].1, "function_call_output"@) && fs@[1].0@ == "call_id"@ && is_str(fs@[1].1, id)
            && fs@[2].0@ == "output"@ && is_str(fs@[2].1, out),
    }
}

/// A member `key: text`.
fn text_member(key: &str, text: &str) -> (r: (String, Json))
    ensures
        r.0@ == key@,
        is_str(r.1, text@),
{
    (string_from(key), Json::Str(string_from(text)))
}

/// The JSON of a message item.
fn message_item(role: &str, part: &str, text: &str) -> (r: Json)
    ensures
        is_message_item(r, role@, part@, text@),
{
    let mut p: Vec<(String, Json)> = Vec::new();
    p.push(text_member("type", part));
    p.push(text_member("text", text));
    let mut parts: Vec<Json> = Vec::new();
    parts.push(Json::Object(p));
    let mut fs: Vec<(String, Json)> = Vec::new();
    fs.push(text_member("role", role));
    fs.push((string_from("content"), Json::Array(parts)));
    Json::Object(fs)
}

/// The JSON of a function call item.
fn call_item(name: &str, arguments: &str, call_id: &str) -> (r: Json)
    ensures
        item_is(r, InputItem::Call(name@, arguments@, call_id@)),
{
    let mut fs: Vec<(String, Json)> = Vec::new();
    fs.push(text_member("type", "function_call"));
    fs.push(text_member("name", name));
    fs.push(text_member("arguments", arguments));
    fs.push(text_member("call_id", call_id));
    Json::Object(fs)
}

/// The JSON of a function call output item.
fn call_output_item(call_id: &str, output: &str) -> (r: Json)
    ensures
        item_is(r, InputItem::CallOutput(call_id@, output@)),
{
    let mut fs: Vec<(String, Json)> = Vec::new();
    fs.push(text_member("type", "function_call_output"));
    fs.push(text_member("call_id", call_id));
    fs.push(text_member("output", output));
    Json::Object(fs)
}

/// The input of a Codex request: the conversation as Responses API items (system
/// messages go to the instructions instead).
pub fn build_responses_input(messages: &Vec<Message>) -> (r: Vec<Json>)
    ensures
        r@.len() == input_items(messages@).len(),
        forall|i: int| 0 <= i < r@.len() ==> item_is(#[trigger] r@[i], input_items(messages@)[i]),
{
    let mut out: Vec<Json> = Vec::new();
    let mut i: usize = 0;
    while i < messages.len()
        invariant
            i <= messages.len(),
            out@.len() == input_items(messages@.take(i as int)).len(),
            forall|j: int| 0 <= j < out@.len() ==> item_is(#[trigger] out@[j], input_items(messages@.take(i as int))[j]),
        decreases messages.len() - i,
    {
        assert(messages@.take(i + 1).drop_last() =~= messages@.take(i as int));
        let ghost before = input_items(messages@.take(i as int));
        let ghost start = out@.len();
        let m = &messages[i];
        let ghost mi = message_items(msg_view(*m));
        assert(input_items(messages@.take(i + 1)) == before + mi);
        let role = m.role.as_str();
        if str_eq(role, "user") {
            out.push(message_item("user", "input_text", m.content.as_str()));
            assert(mi == seq![InputItem::User(m.content@)]);
            assert(item_is(out@[start as int], mi[0]));
        } else if str_eq(role, "assistant") {
            match &m.tool_calls {
                Some(calls) => {
                    let mut k: usize = 0;
                    while k < calls.len()
                        invariant
                            k <= calls.len(),
                            out@.len() == start + k,
                            start == before.len(),
                            forall|j: int| 0 <= j < start ==> item_is(#[trigger] out@[j], before[j]),
                            forall|j: int|
                                0 <= j < k ==> item_is(
                                    #[trigger] out@[start + j],
                                    InputItem::Call(
                                        encoded_tool_name(calls@[j].function.name@),
                                        calls@[j].function.arguments@,
                                        calls@[j].id@,
                                    ),
                                ),
                        decreases calls.len() - k,
                    {
                        let c = &calls[k];
                        let en = encode_tool_name(c.function.name.as_str());
                        out.push(call_item(en.as_str(), c.function.arguments.as_str(), c.id.as_str()));
                        k += 1;
                    }
                },
                None => {},
            }
            let ghost ncalls: int = if m.tool_calls is Some {
                m.tool_calls->0@.len() as int
            } else {
                0
            };
            assert(out@.len() == start + ncalls);
            assert forall|k: int| 0 <= k < ncalls implies item_is(#[trigger] out@[start + k], mi[k]) by {
                let cv = call_views(m.tool_calls->0@);
                assert(cv[k] == crate::model_runner::call_view(m.tool_calls->0@[k]));
            }
            let content = to_chars(m.content.as_str());
            if trim_chars(&content).len() > 0 {
                out.push(message_item("assistant", "output_text", m.content.as_str()));
                assert(item_is(out@[start + ncalls], mi[ncalls]));
            }
            assert(mi.len() == out@.len() - start);
            assert forall|k: int| 0 <= k < mi.len() implies item_is(#[trigger] out@[start + k], mi[k]) by {
                if k < ncalls {
                    assert(item_is(out@[start + k], mi[k]));
                }
            }
        } else if str_eq(role, "tool") {
            match &m.tool_call_id {
                Some(id) => {
                    out.push(call_output_item(id.as_str(), m.content.as_str()));
                    assert(item_is(out@[start as int], mi[0]));
                },
                None => {},
            }
        }
        assert(out@.len() == input_items(messages@.take(i + 1)).len());
        assert forall|j: int| 0 <= j < out@.len() implies item_is(#[trigger] out@[j], input_items(messages@.take(i + 1))[j]) by {
            if j >= start {
                assert(input_items(messages@.take(i + 1))[j] == mi[j - start]);
                assert(out@[start + (j - start)] == out@[j]);
            } else {
                assert(input_items(messages@.take(i + 1))[j] == before[j]);
            }
        }
        i += 1;
    }
    assert(messages@.take(messages.len() as int) =~= messages@);
    out
}

/// A tool definition in the Responses API form.
pub struct CodexToolDef {
    pub tool_type: String,
    pub name: String,
    pub description: String,
    pub parameters: ToolParams,
    pub strict: bool,
}

impl View for CodexToolDef {
    type V = (Seq<char>, Seq<char>, Seq<char>, crate::api_types::ParamsView, bool);

    open spec fn view(&self) -> Self::V {
        (self.tool_type@, self.name@, self.description@, self.parameters@, self.strict)
    }
}

/// The Responses API form of a tool definition: a non-strict function whose name is in
/// Codex form.
pub open spec fn codex_tool(d: ToolDefinition) -> (Seq<char>, Seq<char>, Seq<char>, crate::api_types::ParamsView, bool) {
    ("function"@, encoded_tool_name(d.function.name@), d.function.description@, d.function.parameters@, false)
}

/// Convert tool definitions to the Responses API form; none when there are none.
pub fn convert_tools(tools: &Option<Vec<ToolDefinition>>) -> (r: Vec<CodexToolDef>)
    ensures
        match tools {
            Some(defs) => r@.len() == defs@.len() && forall|i: int|
                0 <= i < defs@.len() ==> (#[trigger] r@[i])@ == codex_tool(defs@[i]),
            None => r@.len() == 0,
        },
{
    let mut out: Vec<CodexToolDef> = Vec::new();
    match tools {
        Some(defs) => {
            let mut i: usize = 0;
            while i < defs.len()
                invariant
                    i <= defs.len(),
                    out@.len() == i,
                    forall|j: int| 0 <= j < i ==> (#[trigger] out@[j])@ == codex_tool(defs@[j]),
                decreases defs.len() - i,
            {
                let d = &defs[i];
                out.push(
                    CodexToolDef {
                        tool_type: string_from("function"),
                        name: encode_tool_name(d.function.name.as_str()),
                        description: d.function.description.clone(),
                        parameters: d.function.parameters.copy(),
                        strict: false,
                    },
                );
                i += 1;
            }
        },
        None => {},
    }
    out
}


/// The Codex form of a name holds no dot.
pub proof fn law_encoded_name_has_no_dot(name: Seq<char>)
    ensures
        forall|i: int| 0 <= i < encoded_tool_name(name).len() ==> #[trigger] encoded_tool_name(name)[i] != '.',
    decreases name.len(),
{
    if name.len() > 0 {
        law_encoded_name_has_no_dot(name.drop_last());
        reveal_strlit("__");
        let a = encoded_tool_name(name.drop_last());
        let b = if name.last() == '.' {
            "__"@
        } else {
            seq![name.last()]
        };
        assert(encoded_tool_name(name) == a + b);
        assert forall|i: int| 0 <= i < encoded_tool_name(name).len() implies #[trigger] encoded_tool_name(name)[i]
            != '.' by {
            if i >= a.len() {
                assert(encoded_tool_name(name)[i] == b[i - a.len()]);
            } else {
                assert(encoded_tool_name(name)[i] == a[i]);
            }
        }
    }
}

/// Encoding a name, read from its first character.
proof fn lemma_encoded_first(s: Seq<char>)
    requires
        s.len() > 0,
    ensures
        encoded_tool_name(s) == (if s[0] == '.' {
            "__"@
        } else {
            seq![s[0]]
        }) + encoded_tool_name(s.drop_first()),
    decreases s.len(),
{
    if s.len() == 1 {
        assert(s.drop_last() =~= Seq::<char>::empty());
        assert(s.drop_first() =~= Seq::<char>::empty());
        assert(encoded_tool_name(s.drop_last()) =~= Seq::<char>::empty());
        assert(encoded_tool_name(s.drop_first()) =~= Seq::<char>::empty());
    } else {
        lemma_encoded_first(s.drop_last());
        assert(s.drop_last().drop_first() =~= s.drop_first().drop_last());
        assert(s.drop_first().last() == s.last());
        assert(s.drop_last()[0] == s[0]);
        let h = if s[0] == '.' {
            "__"@
        } else {
            seq![s[0]]
        };
        let t = if s.last() == '.' {
            "__"@
        } else {
            seq![s.last()]
        };
        assert(encoded_tool_name(s) == encoded_tool_name(s.drop_last()) + t);
        assert(encoded_tool_name(s.drop_first()) == encoded_tool_name(s.drop_first().drop_last()) + t);
        assert(encoded_tool_name(s) =~= h + encoded_tool_name(s.drop_first()));
    }
}

/// A tool name without underscores comes back unchanged from its Codex form.
pub proof fn law_tool_name_round_trip(name: Seq<char>)
    requires
        !name.contains('_'),
    ensures
        decoded_tool_name(encoded_tool_name(name)) == name,
    decreases name.len(),
{
    reveal_strlit("__");
    if name.len() == 0 {
        assert(encoded_tool_name(name) =~= Seq::<char>::empty());
        assert(decoded_tool_name(Seq::<char>::empty()) =~= Seq::<char>::empty());
    } else {
        lemma_encoded_first(name);
        let rest = name.drop_first();
        assert(!rest.contains('_')) by {
            if rest.contains('_') {
                let k = choose|k: int| 0 <= k < rest.len() && rest[k] == '_';
                assert(name[k + 1] == '_');
            }
        }
        law_tool_name_round_trip(rest);
        let e = encoded_tool_name(name);
        let er = encoded_tool_name(rest);
        if name[0] == '.' {
            assert(e =~= "__"@ + er);
            assert(e.subrange(2, e.len() as int) =~= er);
            assert(decoded_tool_name(e) == seq!['.'] + decoded_tool_name(er));
        } else {
            assert(name[0] != '_');
            assert(e =~= seq![name[0]] + er);
            assert(e.drop_first() =~= er);
            assert(decoded_tool_name(e) == seq![name[0]] + decoded_tool_name(er));
        }
        assert(name =~= seq![name[0]] + rest);
    }
}


/// The concatenation of texts, in order.
pub open spec fn concat_texts(ts: Seq<Seq<char>>) -> Seq<char>
    decreases ts.len(),
{
    if ts.len() == 0 {
        Seq::empty()
    } else {
        concat_texts(ts.drop_last()) + ts.last()
    }
}

/// Whether `e` is a text delta event carrying `t`.
pub open spec fn is_text_delta(e: Json, t: Seq<char>) -> bool {
    is_kind(e, "response.output_text.delta"@) && text_of(field(e, "delta"@)) == Some(t)
}

/// A stream of text deltas gives their concatenation as its text.
pub proof fn law_text_deltas_concatenate(events: Seq<Json>, texts: Seq<Seq<char>>)
    requires
        events.len() == texts.len(),
        forall|i: int| 0 <= i < events.len() ==> is_text_delta(#[trigger] events[i], texts[i]),
    ensures
        sse_fold(events).buf == concat_texts(texts),
        sse_fold(events).saw == (events.len() > 0),
        sse_fold(events).error is None,
        sse_fold(events).calls.len() == 0,
    decreases events.len(),
{
    if events.len() > 0 {
        assert forall|i: int| 0 <= i < events.drop_last().len() implies is_text_delta(
            #[trigger] events.drop_last()[i],
            texts.drop_last()[i],
        ) by {
            assert(events.drop_last()[i] == events[i]);
        }
        law_text_deltas_concatenate(events.drop_last(), texts.drop_last());
        reveal_strlit("error");
        reveal_strlit("response.failed");
        reveal_strlit("response.output_text.delta");
        let e = events.last();
        assert(is_text_delta(e, texts.last()));
        assert("response.output_text.delta"@.len() != "error"@.len());
        assert("response.output_text.delta"@.len() != "response.failed"@.len());
        assert(!is_kind(e, "error"@) && !is_kind(e, "response.failed"@));
        assert(sse_fold(events) == on_text_delta(sse_fold(events.drop_last()), e));
    }
}

/// After an error event, later events change nothing: the stream ends at the error.
pub proof fn law_error_ends_stream(events: Seq<Json>, more: Seq<Json>)
    requires
        sse_fold(events).error is Some,
    ensures
        sse_fold(events + more) == sse_fold(events),
    decreases more.len(),
{
    if more.len() == 0 {
        assert(events + more =~= events);
    } else {
        assert((events + more).drop_last() =~= events + more.drop_last());
        law_error_ends_stream(events, more.drop_last());
    }
}

/// The common chat response for a parsed Codex reply: one assistant choice with the text,
/// the tool calls (none when there are none), and the finish reason that says whether it
/// asks for tools.
pub fn codex_chat_response(parsed: ParsedCodexResponse) -> (r: crate::api_types::ChatResponse)
    ensures
        r.id is None,
        r.usage is None,
        r.choices@.len() == 1,
        r.choices@[0].index == 0,
        r.choices@[0].message.role@ == "assistant"@,
        r.choices@[0].message.content@ == parsed.text@,
        r.choices@[0].message.tool_call_id is None,
        parsed.tool_calls@.len() == 0 ==> r.choices@[0].message.tool_calls is None,
        parsed.tool_calls@.len() > 0 ==> r.choices@[0].message.tool_calls == Some(parsed.tool_calls),
        opt_text(r.choices@[0].finish_reason) == Some(
            if parsed.tool_calls@.len() > 0 {
                "tool_calls"@
            } else {
                "stop"@
            },
        ),
{
    let has_calls = parsed.tool_calls.len() > 0;
    let tool_calls = if has_calls {
        Some(parsed.tool_calls)
    } else {
        None
    };
    let message = Message {
        role: string_from("assistant"),
        content: parsed.text,
        tool_calls,
        tool_call_id: None,
    };
    let choice = crate::api_types::Choice {
        index: 0,
        message,
        finish_reason: Some(finish_reason(has_calls)),
    };
    let mut choices: Vec<crate::api_types::Choice> = Vec::new();
    choices.push(choice);
    crate::api_types::ChatResponse { id: None, choices, usage: None }
}

/// The account id in a JWT: the claims of its payload part, which must be the base64url
/// form of some bytes that parse as JSON (see `extract_account_id_from_jwt`).
pub open spec fn jwt_account(token: Seq<char>) -> Option<Seq<char>> {
    match jwt_payload(token) {
        None => None,
        Some(p) => if exists|b: Seq<u8>| crate::auth::b64url(b) == p {
            match json_bytes_parse(choose|b: Seq<u8>| crate::auth::b64url(b) == p) {
                Some(c) => account_id_in(c),
                None => None,
            }
        } else {
            None
        },
    }
}

/// The account id that a Codex request is sent for, from the id token of the stored OAuth
/// tokens; an auth error when there is none.
pub fn codex_account_id(id_token: Option<&str>) -> (r: Result<String, CrabClawError>)
    ensures
        match id_token {
            Some(t) => match jwt_account(t@) {
                Some(a) => r matches Ok(s) && s@ == a,
                None => r matches Err(CrabClawError::Auth(m)) && m@
                    == "No account_id in OAuth token. Run `crabclaw auth login` again."@,
            },
            None => r matches Err(CrabClawError::Auth(m)) && m@
                == "No account_id in OAuth token. Run `crabclaw auth login` again."@,
        },
{
    let found = match id_token {
        Some(t) => {
            let f = extract_account_id_from_jwt(t);
            proof {
                if let Some(p) = jwt_payload(t@) {
                    if exists|b: Seq<u8>| crate::auth::b64url(b) == p {
                        let b = choose|b: Seq<u8>| crate::auth::b64url(b) == p;
                        assert(jwt_payload(t@) == Some(crate::auth::b64url(b)));
                    }
                }
            }
            f
        },
        None => None,
    };
    match found {
        Some(a) => Ok(a),
        None => Err(
            CrabClawError::Auth(
                string_from("No account_id in OAuth token. Run `crabclaw auth login` again."),
            ),
        ),
    }
}

/// The error when a Codex model is used without stored OAuth tokens.
pub fn codex_login_required() -> (r: CrabClawError)
    ensures
        r matches CrabClawError::Auth(m) && m@
            == "Codex models require OAuth login. Run `crabclaw auth login` first."@,
{
    CrabClawError::Auth(
        string_from("Codex models require OAuth login. Run `crabclaw auth login` first."),
    )
}

/// The error for a Codex reply with a failing status, shown as `status`, and its body.
pub fn codex_http_error(status: &str, body: &str) -> (r: CrabClawError)
    ensures
        r matches CrabClawError::Api(m) && m@ == "Codex API error (HTTP "@ + status@ + "): "@
            + body@,
{
    let mut v: Vec<char> = Vec::new();
    append_str(&mut v, "Codex API error (HTTP ");
    append_str(&mut v, status);
    append_str(&mut v, "): ");
    append_str(&mut v, body);
    CrabClawError::Api(string_of(&v))
}

} // verus!
