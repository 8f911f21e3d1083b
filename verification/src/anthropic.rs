//! The Anthropic Messages API: converting the conversation to its message form, and its
//! replies back to the common response form.
use vstd::prelude::*;

use crate::api_types::{ChatResponse, Choice, Message, ToolCall, ToolCallFunction, Usage};
use crate::json::{json_text_parse, parse_json, Json};
use crate::model_runner::{call_view, call_views, CallView};
use crate::text::{append_str, str_eq, string_from, string_of, to_chars};

verus! {

/// A content block of an Anthropic request message.
pub enum AnthropicContentItem {
    Text(String),
    ToolUse(String, String, Json),
    ToolResult(String, String),
}

/// The content of an Anthropic request message: plain text or blocks.
pub enum AnthropicContent {
    Text(String),
    Blocks(Vec<AnthropicContentItem>),
}

/// A message in Anthropic form.
pub struct AnthropicMessage {
    pub role: String,
    pub content: AnthropicContent,
}

/// What a content block is meant to hold: text; a tool use with its call id, name and
/// argument text; or a tool result for a call id.
pub enum ItemSpec {
    Text(Seq<char>),
    ToolUse(Seq<char>, Seq<char>, Seq<char>),
    ToolResult(Seq<char>, Seq<char>),
}

/// What a message's content is meant to hold.
pub enum ContentSpec {
    Text(Seq<char>),
    Blocks(Seq<ItemSpec>),
}

/// The input of a tool use with argument text `args`: the arguments parsed as JSON, or an
/// empty object when they are not JSON.
pub open spec fn input_is(j: Json, args: Seq<char>) -> bool {
    match json_text_parse(args) {
        Some(v) => j == v,
        None => j matches Json::Object(fs) && fs@.len() == 0,
    }
}

/// Whether a block holds what `s` describes.
pub open spec fn item_is(it: AnthropicContentItem, s: ItemSpec) -> bool {
    match (it, s) {
        (AnthropicContentItem::Text(t), ItemSpec::Text(u)) => t@ == u,
        (AnthropicContentItem::ToolUse(id, name, input), ItemSpec::ToolUse(i2, n2, args)) => id@ == i2 && name@
            == n2 && input_is(input, args),
        (AnthropicContentItem::ToolResult(id, c), ItemSpec::ToolResult(i2, c2)) => id@ == i2 && c@ == c2,
        _ => false,
    }
}

/// Whether blocks hold what the specs describe, one for one.
pub open spec fn items_are(v: Seq<AnthropicContentItem>, s: Seq<ItemSpec>) -> bool {
    v.len() == s.len() && forall|i: int| 0 <= i < v.len() ==> item_is(#[trigger] v[i], s[i])
}

/// Whether a message holds the role and content described.
pub open spec fn message_is(m: AnthropicMessage, role: Seq<char>, c: ContentSpec) -> bool {
    m.role@ == role && match (m.content, c) {
        (AnthropicContent::Text(t), ContentSpec::Text(u)) => t@ == u,
        (AnthropicContent::Blocks(b), ContentSpec::Blocks(s)) => items_are(b@, s),
        _ => false,
    }
}

/// Whether messages hold the roles and contents described, one for one.
pub open spec fn messages_are(v: Seq<AnthropicMessage>, s: Seq<(Seq<char>, ContentSpec)>) -> bool {
    v.len() == s.len() && forall|i: int| 0 <= i < v.len() ==> message_is(#[trigger] v[i], s[i].0, s[i].1)
}

/// The end of the run of tool messages that starts at `i`.
pub open spec fn tool_run_end(msgs: Seq<Message>, i: int) -> int
    decreases msgs.len() - i,
{
    if 0 <= i < msgs.len() && msgs[i].role@ == "tool"@ {
        tool_run_end(msgs, i + 1)
    } else {
        i
    }
}

/// The tool results of the tool messages from `i` up to `j`: one per message that names
/// the call it answers.
pub open spec fn tool_results(msgs: Seq<Message>, i: int, j: int) -> Seq<ItemSpec>
    decreases j - i,
{
    if i >= j {
        Seq::empty()
    } else {
        let r = tool_results(msgs, i, j - 1);
        match msgs[j - 1].tool_call_id {
            Some(id) => r.push(ItemSpec::ToolResult(id@, msgs[j - 1].content@)),
            None => r,
        }
    }
}

/// The blocks of an assistant message with tool calls: its text unless empty, then one
/// tool use per call.
pub open spec fn assistant_blocks(content: Seq<char>, calls: Seq<CallView>) -> Seq<ItemSpec> {
    (if content.len() > 0 {
        seq![ItemSpec::Text(content)]
    } else {
        Seq::empty()
    }) + Seq::new(calls.len(), |k: int| ItemSpec::ToolUse(calls[k].0, calls[k].2, calls[k].3))
}

/// The Anthropic messages from index `i` on: system messages are left out; an assistant
/// message with tool calls becomes blocks; a run of tool messages becomes one user message
/// of tool results; any other message keeps its role and text.
pub open spec fn anthropic_from(msgs: Seq<Message>, i: int) -> Seq<(Seq<char>, ContentSpec)>
    decreases msgs.len() - i,
{
    if i < 0 || i >= msgs.len() {
        Seq::empty()
    } else {
        let m = msgs[i];
        if m.role@ == "system"@ {
            anthropic_from(msgs, i + 1)
        } else if m.role@ == "assistant"@ {
            seq![
                (
                    "assistant"@,
                    match m.tool_calls {
                        Some(tc) => ContentSpec::Blocks(assistant_blocks(m.content@, call_views(tc@))),
                        None => ContentSpec::Text(m.content@),
                    },
                ),
            ] + anthropic_from(msgs, i + 1)
        } else if m.role@ == "tool"@ {
            let j = tool_run_end_bounded(msgs, i);
            seq![("user"@, ContentSpec::Blocks(tool_results(msgs, i, j)))] + anthropic_from(msgs, j)
        } else {
            seq![(m.role@, ContentSpec::Text(m.content@))] + anthropic_from(msgs, i + 1)
        }
    }
}

/// The end of a run of tool messages that starts at a tool message `i`: past `i`, and not
/// past the end.
pub open spec fn tool_run_end_bounded(msgs: Seq<Message>, i: int) -> int {
    let j = tool_run_end(msgs, i);
    if i < j <= msgs.len() {
        j
    } else {
        i + 1
    }
}

/// A run of tool messages that starts at a tool message ends past it and not past the end.
proof fn lemma_tool_run_end(msgs: Seq<Message>, i: int)
    requires
        0 <= i <= msgs.len(),
    ensures
        i <= tool_run_end(msgs, i) <= msgs.len(),
        i < msgs.len() && msgs[i].role@ == "tool"@ ==> i < tool_run_end(msgs, i),
        forall|k: int| i <= k < tool_run_end(msgs, i) ==> #[trigger] msgs[k].role@ == "tool"@,
        tool_run_end(msgs, i) < msgs.len() ==> msgs[tool_run_end(msgs, i)].role@ != "tool"@,
    decreases msgs.len() - i,
{
    if i < msgs.len() && msgs[i].role@ == "tool"@ {
        lemma_tool_run_end(msgs, i + 1);
    }
}

/// The input of a tool use: the arguments parsed as JSON, or an empty object.
fn tool_input(arguments: &str) -> (r: Json)
    ensures
        input_is(r, arguments@),
{
    match parse_json(arguments) {
        Some(v) => v,
        None => Json::Object(Vec::new()),
    }
}

/// Convert the conversation to Anthropic messages (see `anthropic_from`).
pub fn convert_messages_for_anthropic(messages: &Vec<Message>) -> (r: Vec<AnthropicMessage>)
    ensures
        messages_are(r@, anthropic_from(messages@, 0)),
{
    let ghost msgs = messages@;
    let mut out: Vec<AnthropicMessage> = Vec::new();
    let ghost mut done: Seq<(Seq<char>, ContentSpec)> = Seq::empty();
    let mut i: usize = 0;
    while i < messages.len()
        invariant
            i <= messages.len(),
            msgs == messages@,
            messages_are(out@, done),
            done + anthropic_from(msgs, i as int) == anthropic_from(msgs, 0),
        decreases messages.len() - i,
    {
        let m = &messages[i];
        let role = m.role.as_str();
        if str_eq(role, "system") {
            i += 1;
        } else if str_eq(role, "assistant") {
            let ghost head = (
                "assistant"@,
                if m.tool_calls is Some {
                    ContentSpec::Blocks(assistant_blocks(m.content@, call_views(m.tool_calls->0@)))
                } else {
                    ContentSpec::Text(m.content@)
                },
            );
            let msg = match &m.tool_calls {
                Some(calls) => {
                    let mut blocks: Vec<AnthropicContentItem> = Vec::new();
                    let content = to_chars(m.content.as_str());
                    if content.len() > 0 {
                        blocks.push(AnthropicContentItem::Text(m.content.clone()));
                    }
                    let ghost base: int = if m.content@.len() > 0 {
                        1
                    } else {
                        0
                    };
                    let ghost want = assistant_blocks(m.content@, call_views(calls@));
                    let mut k: usize = 0;
                    while k < calls.len()
                        invariant
                            k <= calls.len(),
                            want == assistant_blocks(m.content@, call_views(calls@)),
                            base == (if m.content@.len() > 0 { 1int } else { 0int }),
                            blocks@.len() == base + k,
                            forall|t: int| 0 <= t < base + k ==> item_is(#[trigger] blocks@[t], want[t]),
                        decreases calls.len() - k,
                    {
                        let c = &calls[k];
                        let input = tool_input(c.function.arguments.as_str());
                        let ghost before = blocks@;
                        blocks.push(AnthropicContentItem::ToolUse(c.id.clone(), c.function.name.clone(), input));
                        assert(call_views(calls@)[k as int] == call_view(calls@[k as int]));
                        assert(item_is(blocks@[base + k], want[base + k]));
                        assert forall|t: int| 0 <= t < base + k + 1 implies item_is(#[trigger] blocks@[t], want[t]) by {
                            if t < base + k {
                                assert(blocks@[t] == before[t]);
                            }
                        }
                        k += 1;
                    }
                    AnthropicMessage { role: string_from("assistant"), content: AnthropicContent::Blocks(blocks) }
                },
                None => AnthropicMessage {
                    role: string_from("assistant"),
                    content: AnthropicContent::Text(m.content.clone()),
                },
            };
            assert(message_is(msg, head.0, head.1));
            let ghost before = out@;
            out.push(msg);
            proof {
                assert(anthropic_from(msgs, i as int) == seq![head] + anthropic_from(msgs, i + 1));
                assert(done.push(head) + anthropic_from(msgs, i + 1) =~= done + anthropic_from(msgs, i as int));
                assert forall|t: int| 0 <= t < out@.len() implies message_is(#[trigger] out@[t], done.push(head)[t].0, done.push(head)[t].1) by {
                    if t < before.len() {
                        assert(out@[t] == before[t]);
                    }
                }
                done = done.push(head);
            }
            i += 1;
        } else if str_eq(role, "tool") {
            let start = i;
            proof {
                lemma_tool_run_end(msgs, start as int);
            }
            let ghost j = tool_run_end(msgs, start as int);
            let mut blocks: Vec<AnthropicContentItem> = Vec::new();
            while i < messages.len() && str_eq(messages[i].role.as_str(), "tool")
                invariant
                    start <= i <= j,
                    msgs == messages@,
                    j == tool_run_end(msgs, start as int),
                    j <= msgs.len(),
                    forall|k: int| start <= k < j ==> #[trigger] msgs[k].role@ == "tool"@,
                    j < msgs.len() ==> msgs[j].role@ != "tool"@,
                    items_are(blocks@, tool_results(msgs, start as int, i as int)),
                decreases messages.len() - i,
            {
                let tm = &messages[i];
                let ghost before = blocks@;
                match &tm.tool_call_id {
                    Some(id) => {
                        blocks.push(AnthropicContentItem::ToolResult(id.clone(), tm.content.clone()));
                        assert forall|t: int| 0 <= t < blocks@.len() implies item_is(
                            #[trigger] blocks@[t],
                            tool_results(msgs, start as int, i + 1)[t],
                        ) by {
                            if t < before.len() {
                                assert(blocks@[t] == before[t]);
                            }
                        }
                    },
                    None => {},
                }
                i += 1;
            }
            assert(i == j);
            let ghost head = ("user"@, ContentSpec::Blocks(tool_results(msgs, start as int, j)));
            let msg = AnthropicMessage { role: string_from("user"), content: AnthropicContent::Blocks(blocks) };
            assert(message_is(msg, head.0, head.1));
            let ghost before = out@;
            out.push(msg);
            proof {
                assert(tool_run_end_bounded(msgs, start as int) == j);
                assert(anthropic_from(msgs, start as int) == seq![head] + anthropic_from(msgs, j));
                assert(done.push(head) + anthropic_from(msgs, j) =~= done + anthropic_from(msgs, start as int));
                assert forall|t: int| 0 <= t < out@.len() implies message_is(#[trigger] out@[t], done.push(head)[t].0, done.push(head)[t].1) by {
                    if t < before.len() {
                        assert(out@[t] == before[t]);
                    }
                }
                done = done.push(head);
            }
        } else {
            let ghost head = (m.role@, ContentSpec::Text(m.content@));
            let msg = AnthropicMessage { role: m.role.clone(), content: AnthropicContent::Text(m.content.clone()) };
            assert(message_is(msg, head.0, head.1));
            let ghost before = out@;
            out.push(msg);
            proof {
                assert(anthropic_from(msgs, i as int) == seq![head] + anthropic_from(msgs, i + 1));
                assert(done.push(head) + anthropic_from(msgs, i + 1) =~= done + anthropic_from(msgs, i as int));
                assert forall|t: int| 0 <= t < out@.len() implies message_is(#[trigger] out@[t], done.push(head)[t].0, done.push(head)[t].1) by {
                    if t < before.len() {
                        assert(out@[t] == before[t]);
                    }
                }
                done = done.push(head);
            }
            i += 1;
        }
    }
    assert(done + anthropic_from(msgs, i as int) =~= done);
    out
}

/// A content block of an Anthropic reply; a tool use's input is held as its JSON text.
pub struct AnthropicContentBlock {
    pub block_type: String,
    pub text: Option<String>,
    pub id: Option<String>,
    pub name: Option<String>,
    pub input: Option<String>,
}

/// Anthropic token usage.
#[derive(Debug, Clone, Copy)]
pub struct AnthropicUsage {
    pub input_tokens: u32,
    pub output_tokens: u32,
}

/// A reply of the Anthropic messages endpoint.
pub struct AnthropicResponse {
    pub id: Option<String>,
    pub content: Vec<AnthropicContentBlock>,
    pub stop_reason: Option<String>,
    pub usage: Option<AnthropicUsage>,
}

/// The text of the reply: the texts of its text blocks, joined.
pub open spec fn reply_text(blocks: Seq<AnthropicContentBlock>) -> Seq<char>
    decreases blocks.len(),
{
    if blocks.len() == 0 {
        Seq::empty()
    } else {
        let b = blocks.last();
        reply_text(blocks.drop_last()) + if b.block_type@ == "text"@ && b.text is Some {
            b.text->0@
        } else {
            Seq::empty()
        }
    }
}

/// The tool call of a block: a tool use with an id, a name and an input.
pub open spec fn block_call(b: AnthropicContentBlock) -> Option<CallView> {
    if b.block_type@ == "tool_use"@ && b.id is Some && b.name is Some && b.input is Some {
        Some((b.id->0@, "function"@, b.name->0@, b.input->0@))
    } else {
        None
    }
}

/// The tool calls of the reply, in order.
pub open spec fn reply_calls(blocks: Seq<AnthropicContentBlock>) -> Seq<CallView>
    decreases blocks.len(),
{
    if blocks.len() == 0 {
        Seq::empty()
    } else {
        let r = reply_calls(blocks.drop_last());
        match block_call(blocks.last()) {
            Some(c) => r.push(c),
            None => r,
        }
    }
}

/// The tool calls of two runs of blocks read one after the other are the calls of the
/// first followed by those of the second: no call is dropped, repeated or reordered.
pub proof fn law_reply_calls_concat(a: Seq<AnthropicContentBlock>, b: Seq<AnthropicContentBlock>)
    ensures
        reply_calls(a + b) == reply_calls(a) + reply_calls(b),
    decreases b.len(),
{
    if b.len() == 0 {
        assert(a + b =~= a);
        assert(reply_calls(a) + Seq::<CallView>::empty() =~= reply_calls(a));
    } else {
        assert((a + b).drop_last() =~= a + b.drop_last());
        assert((a + b).last() == b.last());
        law_reply_calls_concat(a, b.drop_last());
        match block_call(b.last()) {
            Some(c) => {
                assert(reply_calls(a) + reply_calls(b.drop_last()).push(c) =~= (reply_calls(a)
                    + reply_calls(b.drop_last())).push(c));
            },
            None => {},
        }
    }
}

/// A single block gives one tool call exactly when it is a tool use with an id, a name
/// and an input: the call carries that id, the name and the input as its arguments.
pub proof fn law_reply_call_of_block(b: AnthropicContentBlock)
    ensures
        b.block_type@ == "tool_use"@ && b.id is Some && b.name is Some && b.input is Some
            ==> reply_calls(seq![b]) == seq![(b.id->0@, "function"@, b.name->0@, b.input->0@)],
        !(b.block_type@ == "tool_use"@ && b.id is Some && b.name is Some && b.input is Some)
            ==> reply_calls(seq![b]).len() == 0,
{
    let e = Seq::<AnthropicContentBlock>::empty();
    assert(seq![b].drop_last() =~= e);
    assert(seq![b].last() == b);
    assert(reply_calls(e) == Seq::<CallView>::empty());
    assert(reply_calls(seq![b]) == match block_call(b) {
        Some(c) => reply_calls(e).push(c),
        None => reply_calls(e),
    });
    assert(Seq::<CallView>::empty().push((b.id->0@, "function"@, b.name->0@, b.input->0@)) =~= seq![(b.id->0@, "function"@, b.name->0@, b.input->0@)]);
}

/// The text of two runs of blocks read one after the other is the text of the first
/// followed by that of the second.
pub proof fn law_reply_text_concat(a: Seq<AnthropicContentBlock>, b: Seq<AnthropicContentBlock>)
    ensures
        reply_text(a + b) == reply_text(a) + reply_text(b),
    decreases b.len(),
{
    if b.len() == 0 {
        assert(a + b =~= a);
        assert(reply_text(a) + Seq::<char>::empty() =~= reply_text(a));
    } else {
        assert((a + b).drop_last() =~= a + b.drop_last());
        assert((a + b).last() == b.last());
        law_reply_text_concat(a, b.drop_last());
        let t = if b.last().block_type@ == "text"@ && b.last().text is Some {
            b.last().text->0@
        } else {
            Seq::<char>::empty()
        };
        assert(reply_text(a) + reply_text(b.drop_last()) + t =~= reply_text(a) + (reply_text(
            b.drop_last(),
        ) + t));
    }
}

/// A single block gives its text when it is a text block with a text, and nothing else.
pub proof fn law_reply_text_of_block(b: AnthropicContentBlock)
    ensures
        b.block_type@ == "text"@ && b.text is Some ==> reply_text(seq![b]) == b.text->0@,
        !(b.block_type@ == "text"@ && b.text is Some) ==> reply_text(seq![b]).len() == 0,
{
    let e = Seq::<AnthropicContentBlock>::empty();
    assert(seq![b].drop_last() =~= e);
    assert(seq![b].last() == b);
    assert(reply_text(e) == Seq::<char>::empty());
    assert(Seq::<char>::empty() + b.text->0@ =~= b.text->0@);
}

/// Whether `r` is the common form of the reply `a`: its id; one assistant choice with the
/// joined text and the tool calls (none when there are none) and the stop reason, or no
/// choice when there is neither text nor a call; and the usage with its total.
pub open spec fn chat_response_of(a: AnthropicResponse, r: ChatResponse) -> bool {
    let text = reply_text(a.content@);
    let calls = reply_calls(a.content@);
    &&& crate::config::opt_text(r.id) == crate::config::opt_text(a.id)
    &&& if text.len() == 0 && calls.len() == 0 {
        r.choices@.len() == 0
    } else {
        &&& r.choices@.len() == 1
        &&& r.choices@[0].index == 0
        &&& r.choices@[0].message.role@ == "assistant"@
        &&& r.choices@[0].message.content@ == text
        &&& r.choices@[0].message.tool_call_id is None
        &&& match r.choices@[0].message.tool_calls {
            Some(tc) => calls.len() > 0 && call_views(tc@) == calls,
            None => calls.len() == 0,
        }
        &&& crate::config::opt_text(r.choices@[0].finish_reason) == crate::config::opt_text(a.stop_reason)
    }
    &&& match (a.usage, r.usage) {
        (Some(u), Some(v)) => v.prompt_tokens == u.input_tokens && v.completion_tokens == u.output_tokens
            && v.total_tokens == u.input_tokens + u.output_tokens,
        (None, None) => true,
        _ => false,
    }
}

impl AnthropicResponse {
    /// Convert to the common response form (see `chat_response_of`).
    pub fn into_chat_response(self) -> (r: ChatResponse)
        requires
            self.usage matches Some(u) ==> u.input_tokens + u.output_tokens <= u32::MAX,
        ensures
            chat_response_of(self, r),
    {
        let ghost blocks = self.content@;
        let mut text: Vec<char> = Vec::new();
        let mut calls: Vec<ToolCall> = Vec::new();
        let mut i: usize = 0;
        while i < self.content.len()
            invariant
                i <= self.content.len(),
                blocks == self.content@,
                text@ == reply_text(blocks.take(i as int)),
                call_views(calls@) == reply_calls(blocks.take(i as int)),
            decreases self.content.len() - i,
        {
            assert(blocks.take(i + 1).drop_last() =~= blocks.take(i as int));
            let b = &self.content[i];
            let ghost t0 = text@;
            let is_text = str_eq(b.block_type.as_str(), "text");
            if is_text {
                match &b.text {
                    Some(t) => append_str(&mut text, t.as_str()),
                    None => {},
                }
            }
            assert(text@ =~= t0 + if b.block_type@ == "text"@ && b.text is Some {
                b.text->0@
            } else {
                Seq::empty()
            });
            if str_eq(b.block_type.as_str(), "tool_use") {
                match (&b.id, &b.name, &b.input) {
                    (Some(id), Some(name), Some(input)) => {
                        let c = ToolCall {
                            id: id.clone(),
                            call_type: string_from("function"),
                            function: ToolCallFunction { name: name.clone(), arguments: input.clone() },
                        };
                        let ghost before = call_views(calls@);
                        calls.push(c);
                        assert(call_views(calls@) =~= before.push(call_view(c)));
                    },
                    _ => {},
                }
            }
            i += 1;
        }
        assert(blocks.take(self.content.len() as int) =~= blocks);
        let has_calls = calls.len() > 0;
        let message = Message {
            role: string_from("assistant"),
            content: string_of(&text),
            tool_calls: if has_calls {
                Some(calls)
            } else {
                None
            },
            tool_call_id: None,
        };
        let choices: Vec<Choice> = if text.len() == 0 && !has_calls {
            Vec::new()
        } else {
            let mut v: Vec<Choice> = Vec::new();
            v.push(Choice { index: 0, message, finish_reason: self.stop_reason });
            v
        };
        let usage = match self.usage {
            Some(u) => Some(
                Usage {
                    prompt_tokens: u.input_tokens,
                    completion_tokens: u.output_tokens,
                    total_tokens: u.input_tokens + u.output_tokens,
                },
            ),
            None => None,
        };
        ChatResponse { id: self.id, choices, usage }
    }
}

/// A chunk of an OpenAI-compatible streamed reply.
pub struct ChatStreamChunk {
    pub choices: Vec<StreamChoice>,
}

/// A choice within a streamed chunk.
pub struct StreamChoice {
    pub index: u32,
    pub delta: StreamDelta,
    pub finish_reason: Option<String>,
}

/// The new content of a streamed choice.
pub struct StreamDelta {
    pub content: Option<String>,
    pub tool_calls: Option<Vec<StreamToolCall>>,
}

/// A streamed piece of a tool call.
pub struct StreamToolCall {
    pub index: usize,
    pub id: Option<String>,
    pub function: Option<StreamToolCallFunction>,
}

/// The function of a streamed tool call piece.
pub struct StreamToolCallFunction {
    pub name: Option<String>,
    pub arguments: Option<String>,
}

/// An event of an Anthropic streamed reply.
pub enum AnthropicStreamEvent {
    MessageStart(AnthropicStreamMessage),
    ContentBlockStart(usize, AnthropicStreamBlock),
    ContentBlockDelta(usize, AnthropicStreamDelta),
    ContentBlockStop(usize),
    MessageDelta(AnthropicMessageDelta, AnthropicUsage),
    MessageStop,
    Ping,
    Error(AnthropicStreamError),
}

/// The message that an Anthropic stream starts.
pub struct AnthropicStreamMessage {
    pub id: String,
    pub role: String,
}

/// A content block that an Anthropic stream starts.
pub enum AnthropicStreamBlock {
    Text(String),
    ToolUse(String, String),
}

/// A delta of an Anthropic stream's content block.
pub enum AnthropicStreamDelta {
    TextDelta(String),
    InputJsonDelta(String),
}

/// The change to the message at the end of an Anthropic stream.
pub struct AnthropicMessageDelta {
    pub stop_reason: Option<String>,
}

/// An error reported within an Anthropic stream.
pub struct AnthropicStreamError {
    pub error_type: String,
    pub message: String,
}

} // verus!
