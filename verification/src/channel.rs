//! Replies assembled from what a turn produced, and the channels a configuration enables.
use vstd::prelude::*;

use crate::config::AppConfig;
use crate::error::CrabClawError;
use crate::text::{append_str, join, join_strings, string_from, string_of};

verus! {

/// The reply made of `parts`: none when there are no parts, else the parts separated by a
/// blank line.
pub open spec fn reply_of(parts: Seq<Seq<char>>) -> Option<Seq<char>> {
    if parts.len() == 0 {
        None
    } else {
        Some(join(parts, "\n\n"@))
    }
}

/// The part of a reply that reports an error.
pub open spec fn error_part(e: Seq<char>) -> Seq<char> {
    "Error: "@ + e
}

/// The part of a reply that an optional output gives.
pub open spec fn opt_part(o: Option<Seq<char>>) -> Seq<Seq<char>> {
    match o {
        Some(s) => seq![s],
        None => Seq::empty(),
    }
}

/// The part that an optional output gives when it is not empty.
pub open spec fn nonempty_part(o: Option<Seq<char>>) -> Seq<Seq<char>> {
    match o {
        Some(s) => if s.len() > 0 {
            seq![s]
        } else {
            Seq::empty()
        },
        None => Seq::empty(),
    }
}

/// The error part, when there is an error.
pub open spec fn err_part(o: Option<Seq<char>>) -> Seq<Seq<char>> {
    match o {
        Some(e) => seq![error_part(e)],
        None => Seq::empty(),
    }
}

/// Result of processing a channel message through the router and model.
#[derive(Debug, Clone)]
pub struct ChannelResponse {
    pub immediate_output: Option<String>,
    pub assistant_output: Option<String>,
    pub error: Option<String>,
}

impl Default for ChannelResponse {
    fn default() -> (r: Self)
        ensures
            r.immediate_output is None,
            r.assistant_output is None,
            r.error is None,
    {
        ChannelResponse { immediate_output: None, assistant_output: None, error: None }
    }
}

fn push_text(parts: &mut Vec<String>, s: &String)
    ensures
        crate::command::texts(final(parts)@) == crate::command::texts(old(parts)@).push(s@),
{
    let mut v: Vec<char> = Vec::new();
    append_str(&mut v, s.as_str());
    let t = string_of(&v);
    parts.push(t);
    assert(crate::command::texts(parts@) =~= crate::command::texts(old(parts)@).push(s@));
}

fn push_error(parts: &mut Vec<String>, e: &String)
    ensures
        crate::command::texts(final(parts)@) == crate::command::texts(old(parts)@).push(
            error_part(e@),
        ),
{
    let mut v: Vec<char> = Vec::new();
    append_str(&mut v, "Error: ");
    append_str(&mut v, e.as_str());
    let t = string_of(&v);
    parts.push(t);
    assert(crate::command::texts(parts@) =~= crate::command::texts(old(parts)@).push(
        error_part(e@),
    ));
}

fn reply_from_parts(parts: &Vec<String>) -> (r: Option<String>)
    ensures
        crate::config::opt_text(r) == reply_of(crate::command::texts(parts@)),
{
    if parts.len() == 0 {
        None
    } else {
        Some(join_strings(parts, "\n\n"))
    }
}

impl ChannelResponse {
    /// Combine all parts into a single reply: the immediate output, the model's output and
    /// the error, separated by blank lines.
    pub fn to_reply(&self) -> (r: Option<String>)
        ensures
            crate::config::opt_text(r) == reply_of(
                opt_part(crate::config::opt_text(self.immediate_output)) + opt_part(
                    crate::config::opt_text(self.assistant_output),
                ) + err_part(crate::config::opt_text(self.error)),
            ),
    {
        let mut parts: Vec<String> = Vec::new();
        assert(crate::command::texts(parts@) =~= Seq::<Seq<char>>::empty());
        if let Some(s) = &self.immediate_output {
            push_text(&mut parts, s);
        }
        if let Some(s) = &self.assistant_output {
            push_text(&mut parts, s);
        }
        if let Some(e) = &self.error {
            push_error(&mut parts, e);
        }
        assert(crate::command::texts(parts@) =~= opt_part(
            crate::config::opt_text(self.immediate_output),
        ) + opt_part(crate::config::opt_text(self.assistant_output)) + err_part(
            crate::config::opt_text(self.error),
        ));
        reply_from_parts(&parts)
    }
}

/// The outcome of one agent-loop turn.
#[derive(Debug, Clone)]
pub struct LoopResult {
    pub immediate_output: Option<String>,
    pub assistant_output: Option<String>,
    pub exit_requested: bool,
    pub tool_rounds: usize,
    pub error: Option<String>,
}

impl Default for LoopResult {
    fn default() -> (r: Self)
        ensures
            r.immediate_output is None,
            r.assistant_output is None,
            !r.exit_requested,
            r.tool_rounds == 0,
            r.error is None,
    {
        LoopResult {
            immediate_output: None,
            assistant_output: None,
            exit_requested: false,
            tool_rounds: 0,
            error: None,
        }
    }
}

impl LoopResult {
    /// Combine the non-empty outputs and the error into a single reply.
    pub fn to_reply(&self) -> (r: Option<String>)
        ensures
            crate::config::opt_text(r) == reply_of(
                nonempty_part(crate::config::opt_text(self.immediate_output)) + nonempty_part(
                    crate::config::opt_text(self.assistant_output),
                ) + err_part(crate::config::opt_text(self.error)),
            ),
    {
        let mut parts: Vec<String> = Vec::new();
        assert(crate::command::texts(parts@) =~= Seq::<Seq<char>>::empty());
        if let Some(s) = &self.immediate_output {
            if !s.as_str().is_empty() {
                push_text(&mut parts, s);
            }
        }
        if let Some(s) = &self.assistant_output {
            if !s.as_str().is_empty() {
                push_text(&mut parts, s);
            }
        }
        if let Some(e) = &self.error {
            push_error(&mut parts, e);
        }
        assert(crate::command::texts(parts@) =~= nonempty_part(
            crate::config::opt_text(self.immediate_output),
        ) + nonempty_part(crate::config::opt_text(self.assistant_output)) + err_part(
            crate::config::opt_text(self.error),
        ));
        reply_from_parts(&parts)
    }
}

/// The channels that the agent can serve.
#[derive(Debug, Clone, Copy, PartialEq, Eq, Structural)]
pub enum ChannelKind {
    Telegram,
}

/// The channels that a configuration enables, in order.
pub open spec fn enabled_kinds(telegram: bool) -> Seq<ChannelKind> {
    if telegram {
        seq![ChannelKind::Telegram]
    } else {
        Seq::empty()
    }
}

/// Manages which channels run: a channel is registered when its configuration enables it.
pub struct ChannelManager {
    channels: Vec<ChannelKind>,
}

impl ChannelManager {
    /// The registered channels.
    pub closed spec fn kinds(&self) -> Seq<ChannelKind> {
        self.channels@
    }

    /// Registers the channels that `config` enables.
    pub fn new(config: &AppConfig) -> (r: Self)
        ensures
            r.kinds() == enabled_kinds(config.telegram_token is Some),
    {
        let mut channels: Vec<ChannelKind> = Vec::new();
        if config.telegram_enabled() {
            channels.push(ChannelKind::Telegram);
        }
        assert(channels@ =~= enabled_kinds(config.telegram_token is Some));
        ChannelManager { channels }
    }

    /// The names of the registered channels.
    pub fn enabled_channels(&self) -> (r: Vec<&'static str>)
        ensures
            r@.len() == self.kinds().len(),
            forall|i: int| 0 <= i < r@.len() ==> #[trigger] r@[i]@ == "telegram"@,
    {
        let mut out: Vec<&'static str> = Vec::new();
        let mut i: usize = 0;
        while i < self.channels.len()
            invariant
                i <= self.channels.len(),
                out@.len() == i,
                forall|j: int| 0 <= j < out@.len() ==> #[trigger] out@[j]@ == "telegram"@,
            decreases self.channels.len() - i,
        {
            match self.channels[i] {
                ChannelKind::Telegram => out.push("telegram"),
            }
            i += 1;
        }
        out
    }

    /// The channel that serving runs: the first registered one; a configuration error when
    /// none is registered.
    pub fn first_channel(&self) -> (r: Result<ChannelKind, CrabClawError>)
        ensures
            self.kinds().len() > 0 ==> r == Ok::<ChannelKind, CrabClawError>(self.kinds()[0]),
            self.kinds().len() == 0 ==> (r matches Err(CrabClawError::Config(m)) && m@
                == "no channels enabled; set TELEGRAM_TOKEN to enable Telegram"@),
    {
        if self.channels.len() == 0 {
            Err(
                CrabClawError::Config(
                    string_from("no channels enabled; set TELEGRAM_TOKEN to enable Telegram"),
                ),
            )
        } else {
            Ok(self.channels[0])
        }
    }

    /// Whether any channel is registered; running with none is a configuration error.
    pub fn has_channels(&self) -> (r: bool)
        ensures
            r == (self.kinds().len() > 0),
    {
        self.channels.len() > 0
    }
}

} // verus!
