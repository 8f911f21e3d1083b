//! The model turn: settings of the runner and the bookkeeping of a tool-calling turn.
use vstd::prelude::*;

use crate::api_types::{Message, StreamChunk, ToolCall, ToolCallFunction};
use crate::config::AppConfig;
use crate::text::{append_str, string_from, string_of, to_chars};

verus! {

/// The default number of tool-calling rounds in a turn.
pub const DEFAULT_MAX_TOOL_ITERATIONS: usize = 5;

/// Result of a single model turn, which may include several tool-call rounds.
#[derive(Debug)]
pub struct ModelTurnResult {
    pub assistant_text: String,
    pub tool_rounds: usize,
    pub error: Option<String>,
}

impl Default for ModelTurnResult {
    fn default() -> (r: Self)
        ensures
            r.assistant_text@ == Seq::<char>::empty(),
            r.tool_rounds == 0,
            r.error is None,
    {
        ModelTurnResult { assistant_text: String::new(), tool_rounds: 0, error: None }
    }
}

/// Settings of the model turn runner: the configuration, the workspace, and the limit on
/// tool-calling rounds.
pub struct ModelRunner<'a> {
    pub config: &'a AppConfig,
    pub workspace: &'a str,
    pub max_tool_iterations: usize,
}

impl<'a> ModelRunner<'a> {
    /// A runner with the default limit of tool-calling rounds.
    pub fn new(config: &'a AppConfig, workspace: &'a str) -> (r: Self)
        ensures
            r.config == config,
            r.workspace == workspace,
            r.max_tool_iterations == DEFAULT_MAX_TOOL_ITERATIONS,
    {
        ModelRunner { config, workspace, max_tool_iterations: DEFAULT_MAX_TOOL_ITERATIONS }
    }

    /// The same runner with another limit of tool-calling rounds.
    pub fn with_max_iterations(self, max: usize) -> (r: Self)
        ensures
            r.config == self.config,
            r.workspace == self.workspace,
            r.max_tool_iterations == max,
    {
        ModelRunner { max_tool_iterations: max, ..self }
    }
}

/// The model of a tool call: id, call type, function name and arguments.
pub type CallView = (Seq<char>, Seq<char>, Seq<char>, Seq<char>);

/// The model of a tool call.
pub open spec fn call_view(c: ToolCall) -> CallView {
    (c.id@, c.call_type@, c.function.name@, c.function.arguments@)
}

/// The models of a list of tool calls.
pub open spec fn call_views(v: Seq<ToolCall>) -> Seq<CallView> {
    v.map_values(|c: ToolCall| call_view(c))
}

/// A copy of a tool call.
pub fn copy_call(c: &ToolCall) -> (r: ToolCall)
    ensures
        call_view(r) == call_view(*c),
{
    ToolCall {
        id: c.id.clone(),
        call_type: c.call_type.clone(),
        function: ToolCallFunction { name: c.function.name.clone(), arguments: c.function.arguments.clone() },
    }
}

/// What has been received of a streamed reply: its text and the tool calls.
pub struct StreamAccumulator {
    pub full_content: String,
    pub tool_calls: Vec<ToolCall>,
}

/// The model of a stream accumulator.
pub type AccView = (Seq<char>, Seq<CallView>);

impl View for StreamAccumulator {
    type V = AccView;

    open spec fn view(&self) -> AccView {
        (self.full_content@, call_views(self.tool_calls@))
    }
}

/// `n` copies of the call `c`.
pub open spec fn filler(n: nat, c: CallView) -> Seq<CallView> {
    Seq::new(n, |k: int| c)
}

/// The tool messages answering the first `n` calls with their results.
pub open spec fn tool_messages(n: nat, calls: Seq<CallView>, results: Seq<Seq<char>>) -> Seq<
    (Seq<char>, Seq<char>, Option<Seq<CallView>>, Option<Seq<char>>),
> {
    Seq::new(n, |k: int| ("tool"@, results[k], None::<Seq<CallView>>, Some(calls[k].0)))
}

/// The effect of one stream chunk, and whether it ends the stream: text is appended; a
/// tool-call start at an index past the known calls fills every new slot up to it with
/// the started call, and otherwise renames the call there; an argument chunk extends the
/// call at its index, if there is one.
pub open spec fn chunk_effect(acc: AccView, chunk: StreamChunk) -> (AccView, bool) {
    match chunk {
        StreamChunk::Content(t) => ((acc.0 + t@, acc.1), false),
        StreamChunk::ToolCallStart { index, id, name } => if acc.1.len() <= index {
            (
                (
                    acc.0,
                    acc.1 + filler(
                        (index + 1 - acc.1.len()) as nat,
                        (id@, "function"@, name@, Seq::<char>::empty()),
                    ),
                ),
                false,
            )
        } else {
            (
                (
                    acc.0,
                    acc.1.update(
                        index as int,
                        (id@, acc.1[index as int].1, name@, acc.1[index as int].3),
                    ),
                ),
                false,
            )
        },
        StreamChunk::ToolCallArgument { index, text } => if index < acc.1.len() {
            (
                (
                    acc.0,
                    acc.1.update(
                        index as int,
                        (
                            acc.1[index as int].0,
                            acc.1[index as int].1,
                            acc.1[index as int].2,
                            acc.1[index as int].3 + text@,
                        ),
                    ),
                ),
                false,
            )
        } else {
            (acc, false)
        },
        StreamChunk::Done => (acc, true),
    }
}

fn concat(a: &String, b: &String) -> (r: String)
    ensures
        r@ == a@ + b@,
{
    let mut v = to_chars(a.as_str());
    crate::text::append_str(&mut v, b.as_str());
    string_of(&v)
}

impl StreamAccumulator {
    /// An empty accumulator.
    pub fn new() -> (r: Self)
        ensures
            r@ == (Seq::<char>::empty(), Seq::<CallView>::empty()),
    {
        let r = StreamAccumulator { full_content: String::new(), tool_calls: Vec::new() };
        assert(call_views(r.tool_calls@) =~= Seq::<CallView>::empty());
        r
    }

    /// Applies one stream chunk; returns whether the stream is done.
    pub fn apply_chunk(&mut self, chunk: StreamChunk) -> (done: bool)
        ensures
            (final(self)@, done) == chunk_effect(old(self)@, chunk),
    {
        let ghost before = self@;
        match chunk {
            StreamChunk::Content(text) => {
                self.full_content = concat(&self.full_content, &text);
                false
            },
            StreamChunk::ToolCallStart { index, id, name } => {
                if self.tool_calls.len() <= index {
                    let ghost start = call_views(self.tool_calls@);
                    while self.tool_calls.len() <= index
                        invariant
                            start.len() <= self.tool_calls@.len() <= index + 1,
                            call_views(self.tool_calls@) == start + filler(
                                (self.tool_calls@.len() - start.len()) as nat,
                                (id@, "function"@, name@, Seq::<char>::empty()),
                            ),
                            self.full_content@ == before.0,
                            start == before.1,
                        decreases index + 1 - self.tool_calls@.len(),
                    {
                        let c = ToolCall {
                            id: id.clone(),
                            call_type: string_from("function"),
                            function: ToolCallFunction { name: name.clone(), arguments: String::new() },
                        };
                        let ghost prev = call_views(self.tool_calls@);
                        assert(call_view(c) == (id@, "function"@, name@, Seq::<char>::empty()));
                        self.tool_calls.push(c);
                        assert(call_views(self.tool_calls@) =~= prev.push(call_view(c)));
                        assert(call_views(self.tool_calls@) =~= start + filler(
                            (self.tool_calls@.len() - start.len()) as nat,
                            (id@, "function"@, name@, Seq::<char>::empty()),
                        ));
                    }
                } else {
                    let old_call = copy_call(&self.tool_calls[index]);
                    let c = ToolCall {
                        id: id,
                        call_type: old_call.call_type,
                        function: ToolCallFunction { name: name, arguments: old_call.function.arguments },
                    };
                    self.tool_calls.set(index, c);
                    assert(call_views(self.tool_calls@) =~= before.1.update(
                        index as int,
                        (call_view(c).0, before.1[index as int].1, call_view(c).2, before.1[index as int].3),
                    ));
                }
                false
            },
            StreamChunk::ToolCallArgument { index, text } => {
                if index < self.tool_calls.len() {
                    let old_call = copy_call(&self.tool_calls[index]);
                    let args = concat(&old_call.function.arguments, &text);
                    let c = ToolCall {
                        id: old_call.id,
                        call_type: old_call.call_type,
                        function: ToolCallFunction { name: old_call.function.name, arguments: args },
                    };
                    let ghost cv = call_view(c);
                    self.tool_calls.set(index, c);
                    assert(call_views(self.tool_calls@) =~= before.1.update(index as int, cv));
                }
                false
            },
            StreamChunk::Done => true,
        }
    }
}

/// What the runner does after a reply: run the requested tools, or finish with the
/// reply's text.
pub enum TurnAction {
    RunTools(Vec<ToolCall>),
    Finish(String),
}

/// What follows a streamed reply: its tool calls when there are any, else its text.
pub fn stream_action(acc: StreamAccumulator) -> (r: TurnAction)
    ensures
        match r {
            TurnAction::RunTools(calls) => acc.tool_calls@.len() > 0 && call_views(calls@)
                == acc@.1,
            TurnAction::Finish(t) => acc.tool_calls@.len() == 0 && t@ == acc@.0,
        },
{
    if acc.tool_calls.len() > 0 {
        TurnAction::RunTools(acc.tool_calls)
    } else {
        TurnAction::Finish(acc.full_content)
    }
}

/// The model of a message: role, content, tool calls and the call it answers.
pub open spec fn msg_view(m: Message) -> (Seq<char>, Seq<char>, Option<Seq<CallView>>, Option<Seq<char>>) {
    (
        m.role@,
        m.content@,
        match m.tool_calls {
            Some(c) => Some(call_views(c@)),
            None => None,
        },
        crate::config::opt_text(m.tool_call_id),
    )
}

/// The messages that record a tool round: the assistant's request, then one tool message
/// per call with its result.
pub open spec fn tool_round_messages(calls: Seq<CallView>, results: Seq<Seq<char>>) -> Seq<
    (Seq<char>, Seq<char>, Option<Seq<CallView>>, Option<Seq<char>>),
> {
    seq![("assistant"@, Seq::<char>::empty(), Some(calls), None::<Seq<char>>)] + tool_messages(
        calls.len(),
        calls,
        results,
    )
}

/// Appends the messages of a tool round to the conversation.
pub fn record_tool_round(messages: &mut Vec<Message>, calls: Vec<ToolCall>, results: &Vec<String>)
    requires
        calls@.len() == results@.len(),
    ensures
        final(messages)@.map_values(|m: Message| msg_view(m)) == old(messages)@.map_values(
            |m: Message| msg_view(m),
        ) + tool_round_messages(call_views(calls@), crate::command::texts(results@)),
{
    let ghost cv = call_views(calls@);
    let ghost rv = crate::command::texts(results@);
    let n = calls.len();
    let mut ids: Vec<String> = Vec::new();
    let mut i: usize = 0;
    while i < n
        invariant
            i <= n == calls@.len(),
            cv == call_views(calls@),
            ids@.len() == i,
            forall|k: int| 0 <= k < i ==> #[trigger] ids@[k]@ == cv[k].0,
        decreases n - i,
    {
        ids.push(calls[i].id.clone());
        i += 1;
    }
    let ghost base = old(messages)@.map_values(|m: Message| msg_view(m));
    messages.push(Message::assistant_with_tool_calls(calls));
    assert(messages@.map_values(|m: Message| msg_view(m)) =~= base + seq![
        ("assistant"@, Seq::<char>::empty(), Some(cv), None::<Seq<char>>),
    ]);
    let mut j: usize = 0;
    while j < n
        invariant
            j <= n == ids@.len() == results@.len() == rv.len() == cv.len(),
            rv == crate::command::texts(results@),
            forall|k: int| 0 <= k < n ==> #[trigger] ids@[k]@ == cv[k].0,
            messages@.map_values(|m: Message| msg_view(m)) == base + seq![
                ("assistant"@, Seq::<char>::empty(), Some(cv), None::<Seq<char>>),
            ] + tool_messages(j as nat, cv, rv),
        decreases n - j,
    {
        let m = Message::tool(ids[j].as_str(), results[j].as_str());
        let ghost prev = messages@.map_values(|m: Message| msg_view(m));
        assert(msg_view(m) == ("tool"@, rv[j as int], None::<Seq<CallView>>, Some(cv[j as int].0)));
        messages.push(m);
        assert(messages@.map_values(|m: Message| msg_view(m)) =~= prev.push(msg_view(m)));
        assert(tool_messages((j + 1) as nat, cv, rv) =~= tool_messages(j as nat, cv, rv).push(
            msg_view(m),
        ));
        assert(messages@.map_values(|m: Message| msg_view(m)) =~= base + seq![
            ("assistant"@, Seq::<char>::empty(), Some(cv), None::<Seq<char>>),
        ] + tool_messages((j + 1) as nat, cv, rv));
        j += 1;
    }
    assert(base + tool_round_messages(cv, rv) =~= base + seq![
        ("assistant"@, Seq::<char>::empty(), Some(cv), None::<Seq<char>>),
    ] + tool_messages(n as nat, cv, rv));
}

/// What follows a non-streamed reply: the tool calls of its first choice when it has a
/// list of them (even an empty one), else the first choice's text (empty when there is
/// none).
pub fn response_action(resp: crate::api_types::ChatResponse) -> (r: TurnAction)
    ensures
        match r {
            TurnAction::RunTools(calls) => resp.choices@.len() > 0 && resp.choices@[0].message.tool_calls
                == Some(calls),
            TurnAction::Finish(t) => (resp.choices@.len() == 0 || resp.choices@[0].message.tool_calls is None)
                && t@ == (if resp.choices@.len() > 0 {
                resp.choices@[0].message.content@
            } else {
                Seq::<char>::empty()
            }),
        },
{
    let mut resp = resp;
    if resp.choices.len() == 0 {
        return TurnAction::Finish(String::new());
    }
    let first = resp.choices.remove(0);
    match first.message.tool_calls {
        Some(calls) => TurnAction::RunTools(calls),
        None => TurnAction::Finish(first.message.content),
    }
}

} // verus!
