//! The chat-completion data model: messages, tool calls and tool definitions, responses.
use vstd::prelude::*;

use crate::text::string_from;

verus! {

/// The function inside a tool call.
#[derive(Debug, Clone)]
pub struct ToolCallFunction {
    pub name: String,
    pub arguments: String,
}

/// A tool call requested by the model.
#[derive(Debug, Clone)]
pub struct ToolCall {
    pub id: String,
    pub call_type: String,
    pub function: ToolCallFunction,
}

/// The call type given to a tool call that names none.
pub fn default_tool_type() -> (r: String)
    ensures
        r@ == "function"@,
{
    string_from("function")
}

/// A single message in the chat conversation.
#[derive(Debug, Clone)]
pub struct Message {
    pub role: String,
    pub content: String,
    pub tool_calls: Option<Vec<ToolCall>>,
    pub tool_call_id: Option<String>,
}

impl Message {
    /// A message from the user.
    pub fn user(content: &str) -> (r: Self)
        ensures
            r.role@ == "user"@,
            r.content@ == content@,
            r.tool_calls is None,
            r.tool_call_id is None,
    {
        Message {
            role: string_from("user"),
            content: string_from(content),
            tool_calls: None,
            tool_call_id: None,
        }
    }

    /// A system prompt message.
    pub fn system(content: &str) -> (r: Self)
        ensures
            r.role@ == "system"@,
            r.content@ == content@,
            r.tool_calls is None,
            r.tool_call_id is None,
    {
        Message {
            role: string_from("system"),
            content: string_from(content),
            tool_calls: None,
            tool_call_id: None,
        }
    }

    /// A message from the assistant.
    pub fn assistant(content: &str) -> (r: Self)
        ensures
            r.role@ == "assistant"@,
            r.content@ == content@,
            r.tool_calls is None,
            r.tool_call_id is None,
    {
        Message {
            role: string_from("assistant"),
            content: string_from(content),
            tool_calls: None,
            tool_call_id: None,
        }
    }

    /// A tool result message answering the call `tool_call_id`.
    pub fn tool(tool_call_id: &str, content: &str) -> (r: Self)
        ensures
            r.role@ == "tool"@,
            r.content@ == content@,
            r.tool_calls is None,
            r.tool_call_id matches Some(id) && id@ == tool_call_id@,
    {
        Message {
            role: string_from("tool"),
            content: string_from(content),
            tool_calls: None,
            tool_call_id: Some(string_from(tool_call_id)),
        }
    }

    /// An assistant message carrying tool calls and no text.
    pub fn assistant_with_tool_calls(tool_calls: Vec<ToolCall>) -> (r: Self)
        ensures
            r.role@ == "assistant"@,
            r.content@ == Seq::<char>::empty(),
            r.tool_calls == Some(tool_calls),
            r.tool_call_id is None,
    {
        Message {
            role: string_from("assistant"),
            content: String::new(),
            tool_calls: Some(tool_calls),
            tool_call_id: None,
        }
    }
}

/// The model of a parameter: name, JSON type, description, and allowed values.
pub type ParamView = (Seq<char>, Seq<char>, Seq<char>, Seq<Seq<char>>);

/// One parameter of a tool's JSON schema.
#[derive(Debug, Clone)]
pub struct ParamSpec {
    pub name: String,
    pub kind: String,
    pub description: String,
    pub allowed: Vec<String>,
}

impl View for ParamSpec {
    type V = ParamView;

    open spec fn view(&self) -> ParamView {
        (self.name@, self.kind@, self.description@, crate::command::texts(self.allowed@))
    }
}

/// The model of a tool's parameter schema: its properties and the required names.
pub type ParamsView = (Seq<ParamView>, Seq<Seq<char>>);

/// The parameter schema of a tool, an object with the given properties.
#[derive(Debug, Clone)]
pub struct ToolParams {
    pub properties: Vec<ParamSpec>,
    pub required: Vec<String>,
}

impl View for ToolParams {
    type V = ParamsView;

    open spec fn view(&self) -> ParamsView {
        (self.properties@.map_values(|p: ParamSpec| p@), crate::command::texts(self.required@))
    }
}

impl ParamSpec {
    /// A copy of the parameter.
    pub fn copy(&self) -> (r: ParamSpec)
        ensures
            r@ == self@,
    {
        let mut allowed: Vec<String> = Vec::new();
        let mut i: usize = 0;
        while i < self.allowed.len()
            invariant
                i <= self.allowed.len(),
                allowed@.len() == i,
                forall|k: int| 0 <= k < i ==> #[trigger] allowed@[k]@ == self.allowed@[k]@,
            decreases self.allowed.len() - i,
        {
            let c = self.allowed[i].clone();
            assert(c@ == self.allowed@[i as int]@);
            allowed.push(c);
            i += 1;
        }
        assert(crate::command::texts(allowed@) =~= crate::command::texts(self.allowed@));
        ParamSpec {
            name: self.name.clone(),
            kind: self.kind.clone(),
            description: self.description.clone(),
            allowed,
        }
    }
}

impl ToolParams {
    /// A copy of the schema.
    pub fn copy(&self) -> (r: ToolParams)
        ensures
            r@ == self@,
    {
        let mut properties: Vec<ParamSpec> = Vec::new();
        let mut i: usize = 0;
        while i < self.properties.len()
            invariant
                i <= self.properties.len(),
                properties@.len() == i,
                forall|k: int| 0 <= k < i ==> #[trigger] properties@[k]@ == self.properties@[k]@,
            decreases self.properties.len() - i,
        {
            let c = self.properties[i].copy();
            properties.push(c);
            i += 1;
        }
        assert(properties@.map_values(|p: ParamSpec| p@) =~= self@.0);
        let mut required: Vec<String> = Vec::new();
        let mut j: usize = 0;
        while j < self.required.len()
            invariant
                j <= self.required.len(),
                required@.len() == j,
                forall|k: int| 0 <= k < j ==> #[trigger] required@[k]@ == self.required@[k]@,
            decreases self.required.len() - j,
        {
            let c = self.required[j].clone();
            assert(c@ == self.required@[j as int]@);
            required.push(c);
            j += 1;
        }
        assert(crate::command::texts(required@) =~= crate::command::texts(self.required@));
        ToolParams { properties, required }
    }

    /// The property named `name`.
    pub fn property(&self, name: &str) -> (r: Option<&ParamSpec>)
        ensures
            match r {
                Some(p) => self@.0.contains(p@) && p@.0 == name@,
                None => forall|i: int| 0 <= i < self@.0.len() ==> #[trigger] self@.0[i].0 != name@,
            },
    {
        let key = crate::text::to_chars(name);
        let mut i: usize = 0;
        while i < self.properties.len()
            invariant
                i <= self.properties.len(),
                key@ == name@,
                forall|j: int| 0 <= j < i ==> #[trigger] self@.0[j].0 != name@,
            decreases self.properties.len() - i,
        {
            let k = crate::text::to_chars(self.properties[i].name.as_str());
            assert(self@.0[i as int] == self.properties@[i as int]@);
            if crate::text::chars_eq(&k, &key) {
                assert(self@.0.contains(self@.0[i as int]));
                return Some(&self.properties[i]);
            }
            i += 1;
        }
        None
    }
}

/// Function metadata within a tool definition.
#[derive(Debug, Clone)]
pub struct FunctionDefinition {
    pub name: String,
    pub description: String,
    pub parameters: ToolParams,
}

/// Tool definition sent to the API to describe available functions.
#[derive(Debug, Clone)]
pub struct ToolDefinition {
    pub tool_type: String,
    pub function: FunctionDefinition,
}

/// A single choice returned by the API.
#[derive(Debug, Clone)]
pub struct Choice {
    pub index: u32,
    pub message: Message,
    pub finish_reason: Option<String>,
}

impl Choice {
    /// Whether this choice asks for at least one tool call.
    pub fn has_tool_calls(&self) -> (r: bool)
        ensures
            r == (self.message.tool_calls matches Some(tc) && tc@.len() > 0),
    {
        match &self.message.tool_calls {
            Some(tc) => tc.len() > 0,
            None => false,
        }
    }
}

/// Token usage statistics.
#[derive(Debug, Clone)]
pub struct Usage {
    pub prompt_tokens: u32,
    pub completion_tokens: u32,
    pub total_tokens: u32,
}

/// Response body from the chat completions endpoint.
#[derive(Debug, Clone)]
pub struct ChatResponse {
    pub id: Option<String>,
    pub choices: Vec<Choice>,
    pub usage: Option<Usage>,
}

impl ChatResponse {
    /// The assistant's reply text: the first choice's content, when it is not empty.
    pub fn assistant_content(&self) -> (r: Option<&str>)
        ensures
            match r {
                Some(s) => self.choices@.len() > 0 && s@ == self.choices@[0].message.content@ && s@.len()
                    > 0,
                None => self.choices@.len() == 0 || self.choices@[0].message.content@.len() == 0,
            },
    {
        if self.choices.len() == 0 {
            return None;
        }
        let s = self.choices[0].message.content.as_str();
        if s.is_empty() {
            None
        } else {
            Some(s)
        }
    }

    /// Whether the first choice asks for tool calls.
    pub fn has_tool_calls(&self) -> (r: bool)
        ensures
            r == (self.choices@.len() > 0 && (self.choices@[0].message.tool_calls matches Some(tc)
                && tc@.len() > 0)),
    {
        if self.choices.len() == 0 {
            return false;
        }
        self.choices[0].has_tool_calls()
    }

    /// The tool calls of the first choice.
    pub fn tool_calls(&self) -> (r: Option<&Vec<ToolCall>>)
        ensures
            match r {
                Some(tc) => self.choices@.len() > 0 && self.choices@[0].message.tool_calls == Some(
                    *tc,
                ),
                None => self.choices@.len() == 0 || self.choices@[0].message.tool_calls is None,
            },
    {
        if self.choices.len() == 0 {
            return None;
        }
        match &self.choices[0].message.tool_calls {
            Some(tc) => Some(tc),
            None => None,
        }
    }
}

/// Error body returned by the API on failure.
#[derive(Debug, Clone)]
pub struct ApiErrorBody {
    pub error: Option<ApiErrorDetail>,
}

/// Detail inside an API error response.
#[derive(Debug, Clone)]
pub struct ApiErrorDetail {
    pub message: String,
    pub error_type: Option<String>,
    pub code: Option<String>,
}

/// One piece of a streamed reply.
#[derive(Debug, Clone)]
pub enum StreamChunk {
    /// Incremental text output.
    Content(String),
    /// A tool call started, with its index, id and name.
    ToolCallStart { index: usize, id: String, name: String },
    /// A chunk of the JSON arguments of a tool call.
    ToolCallArgument { index: usize, text: String },
    /// The stream finished normally.
    Done,
}

} // verus!
