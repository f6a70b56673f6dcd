//! Lifecycle hooks of the loop and progress reporting: which progress messages are
//! sent before tools run, and how the final content is cleaned. Sending the
//! messages happens around these.

use vstd::prelude::*;

use crate::agent::react::{format_tool_hint, strip_think, think_blocks_removed};
use crate::channels::messages::{progress_metadata, OutboundMessage};
use crate::text::{join_spec, trim_spec, views};

verus! {

/// The hook that does nothing: no progress messages, the content unchanged.
pub struct NoopHook;

impl NoopHook {
    /// No progress messages.
    pub fn before_execute_tools(&self, _content: &str, _previews: &[String]) -> (r: Vec<OutboundMessage>)
        ensures
            r@.len() == 0,
    {
        Vec::new()
    }

    /// The content, unchanged.
    pub fn finalize_content(&self, content: Option<String>) -> (r: Option<String>)
        ensures
            r == content,
    {
        content
    }
}

/// The hook of an interactive conversation: before tools run it reports the
/// model's cleaned thinking and a tool hint to the chat; it strips thinking blocks
/// from the final content.
pub struct LoopHook {
    /// The channel of the conversation.
    pub channel: String,
    /// The chat of the conversation.
    pub chat_id: String,
}

/// The text of a thinking progress message for the model's content.
pub open spec fn cleaned_thinking(content: Seq<char>) -> Seq<char> {
    trim_spec(think_blocks_removed(content))
}

impl LoopHook {
    /// A hook for the conversation in `chat_id` on `channel`.
    pub fn new(channel: String, chat_id: String) -> (h: Self)
        ensures
            h.channel == channel,
            h.chat_id == chat_id,
    {
        LoopHook { channel, chat_id }
    }

    /// The progress messages to send before tools run: the cleaned thinking, when
    /// it is not empty, then the tool hint (the previews joined with `, `), marked
    /// as a tool hint.
    pub fn before_execute_tools(&self, content: &str, previews: &[String]) -> (r: Vec<OutboundMessage>)
        ensures
            r@.len() == if cleaned_thinking(content@).len() > 0 { 2int } else { 1int },
            forall|i: int|
                0 <= i < r@.len() ==> #[trigger] r@[i].channel@ == self.channel@ && r@[i].chat_id@
                    == self.chat_id@ && r@[i].media@.len() == 0,
            cleaned_thinking(content@).len() > 0 ==> r@[0].content@ == cleaned_thinking(content@)
                && r@[0].metadata@ == progress_metadata(false),
            r@.last().content@ == join_spec(views(previews@), ", "@),
            r@.last().metadata@ == progress_metadata(true),
    {
        let mut r: Vec<OutboundMessage> = Vec::new();
        let cleaned = strip_think(content);
        if !cleaned.as_str().is_empty() {
            r.push(OutboundMessage::progress(self.channel.as_str(), self.chat_id.as_str(), cleaned.as_str(), false));
        }
        let hint = format_tool_hint(previews);
        r.push(OutboundMessage::progress(self.channel.as_str(), self.chat_id.as_str(), hint.as_str(), true));
        r
    }

    /// The final content with thinking blocks stripped (see `strip_think`).
    pub fn finalize_content(&self, content: Option<String>) -> (r: Option<String>)
        ensures
            match content {
                Some(c) => r matches Some(s) && s@ == cleaned_thinking(c@),
                None => r is None,
            },
    {
        match content {
            Some(c) => Some(strip_think(c.as_str())),
            None => None,
        }
    }
}

/// Reports progress: `content` is cleaned thinking, or a tool hint when
/// `is_tool_hint`; an error text when it could not be reported.
pub trait ProgressTracker {
    fn track(&self, content: String, is_tool_hint: bool) -> Result<(), String>;
}

/// Reports progress as progress messages to one chat.
pub struct ChannelProgressTracker {
    /// The channel of the chat.
    pub channel: String,
    /// The chat.
    pub chat_id: String,
}

impl ChannelProgressTracker {
    /// A tracker for the chat `chat_id` on `channel`.
    pub fn new(channel: String, chat_id: String) -> (t: Self)
        ensures
            t.channel == channel,
            t.chat_id == chat_id,
    {
        ChannelProgressTracker { channel, chat_id }
    }

    /// The message that reports `content`: a progress message to the chat, marked
    /// as a tool hint when `is_tool_hint`.
    pub fn message(&self, content: &str, is_tool_hint: bool) -> (m: OutboundMessage)
        ensures
            m.channel@ == self.channel@,
            m.chat_id@ == self.chat_id@,
            m.content@ == content@,
            m.media@.len() == 0,
            m.metadata@ == progress_metadata(is_tool_hint),
    {
        OutboundMessage::progress(self.channel.as_str(), self.chat_id.as_str(), content, is_tool_hint)
    }
}


/// Hooks run one after the other. Calling the hooks and awaiting them happens
/// around this; it decides which hook runs next and what the composite answers:
/// every hook runs, in order, whatever the earlier ones answered; a failing hook
/// is logged and the composite still succeeds; and for the final content each
/// hook is handed what the previous one returned.
pub struct CompositeHook {
    /// How many hooks there are.
    pub hooks: usize,
}

/// One call of a composite hook in progress.
pub struct CompositeCall {
    /// How many hooks there are.
    pub hooks: usize,
    /// How many have run.
    pub done: usize,
    /// The content handed to the next hook (for the final content).
    pub content: Option<String>,
    /// The error texts of the hooks that failed, in order, to be logged.
    pub failures: Vec<String>,
}

impl CompositeHook {
    /// A composite of `hooks` hooks.
    pub fn new(hooks: usize) -> (r: Self)
        ensures
            r.hooks == hooks,
    {
        CompositeHook { hooks }
    }

    /// Starts a call; `content` is what the final-content pipeline starts from.
    pub fn start(&self, content: Option<String>) -> (c: CompositeCall)
        ensures
            c.hooks == self.hooks,
            c.done == 0,
            c.content == content,
            c.failures@.len() == 0,
    {
        CompositeCall { hooks: self.hooks, done: 0, content, failures: Vec::new() }
    }
}

impl CompositeCall {
    /// The hook that runs next (its index), none when all have run.
    pub fn next_hook(&self) -> (r: Option<usize>)
        ensures
            r == (if self.done < self.hooks {
                Some(self.done)
            } else {
                None::<usize>
            }),
    {
        if self.done < self.hooks {
            Some(self.done)
        } else {
            None
        }
    }

    /// Records the answer of the hook that ran: a failure is kept for the log, and
    /// the next hook runs either way.
    pub fn record_result(&mut self, result: Result<(), String>)
        requires
            old(self).done < old(self).hooks,
        ensures
            final(self).hooks == old(self).hooks,
            final(self).done == old(self).done + 1,
            final(self).content == old(self).content,
            final(self).failures@ == match result {
                Ok(_) => old(self).failures@,
                Err(e) => old(self).failures@.push(e),
            },
    {
        self.done = self.done + 1;
        match result {
            Ok(_) => {},
            Err(e) => self.failures.push(e),
        }
    }

    /// Records the final content the hook that ran returned: the next hook is
    /// handed it.
    pub fn record_content(&mut self, content: Option<String>)
        requires
            old(self).done < old(self).hooks,
        ensures
            final(self).hooks == old(self).hooks,
            final(self).done == old(self).done + 1,
            final(self).content == content,
            final(self).failures@ == old(self).failures@,
    {
        self.done = self.done + 1;
        self.content = content;
    }

    /// The answer of a call once every hook ran: success, whatever the hooks
    /// answered, with the failures to log.
    pub fn finish(self) -> (r: (Result<(), String>, Vec<String>))
        requires
            self.done == self.hooks,
        ensures
            r.0 is Ok,
            r.1@ == self.failures@,
    {
        (Ok(()), self.failures)
    }

    /// The final content once every hook ran: what the last one returned, or the
    /// content itself when there are no hooks.
    pub fn finish_content(self) -> (r: Option<String>)
        requires
            self.done == self.hooks,
        ensures
            r == self.content,
    {
        self.content
    }
}

} // verus!
