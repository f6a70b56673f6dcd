//! How the loop routes messages: the session a message belongs to, system messages,
//! direct calls, the replies that stand in for failures, and the queue of messages
//! that arrive while one is being processed.

use vstd::prelude::*;

use crate::agent::cmd::{command_name, is_stop_cmd, kind_matches, parse_command, Command, CommandKind, DreamCmd};
use crate::agent::utils::{parse_system_message_target, system_target_spec};
use crate::channels::messages::{colon_join, string_views, InboundMessage, MetaValue, OutboundMessage};
use crate::text::{chars_of, concat_str, eq_ignore_ascii_case_spec, starts_with_chars, starts_with_spec, trim_end_spec};

verus! {

/// The session of a message: the key given by the caller, else `channel:chat_id`.
pub open spec fn session_key_spec(given: Option<Seq<char>>, channel: Seq<char>, chat_id: Seq<char>) -> Seq<char> {
    match given {
        Some(k) => k,
        None => colon_join(channel, chat_id),
    }
}

/// The session key of an inbound message (see `session_key_spec`).
pub fn session_key_for(inbound: &InboundMessage, given: Option<&str>) -> (k: String)
    ensures
        k@ == session_key_spec(
            match given {
                Some(g) => Some(g@),
                None => None,
            },
            inbound.channel@,
            inbound.chat_id@,
        ),
{
    match given {
        Some(g) => String::from_str(g),
        None => inbound.session_key(),
    }
}

/// Whether a session belongs to a scheduled job: its key starts with `cron:`.
pub fn is_scheduled(session_key: &str) -> (b: bool)
    ensures
        b == starts_with_spec(session_key@, "cron:"@),
{
    let k = chars_of(session_key);
    let p = chars_of("cron:");
    starts_with_chars(k.as_slice(), p.as_slice())
}

/// Whether a message is a system message, routed by its chat id.
pub fn is_system_message(inbound: &InboundMessage) -> (b: bool)
    ensures
        b == (inbound.channel@ == "system"@),
{
    inbound.channel == String::from_str("system")
}

/// The inbound message of a direct call: from `user`, on `channel` (default
/// `cli`) in `chat_id` (default `direct`), with the media paths in order.
pub fn direct_inbound(content: &str, channel: Option<&str>, chat_id: Option<&str>, media: &[String]) -> (m:
    InboundMessage)
    ensures
        m.channel@ == match channel {
            Some(c) => c@,
            None => "cli"@,
        },
        m.chat_id@ == match chat_id {
            Some(c) => c@,
            None => "direct"@,
        },
        m.sender_id@ == "user"@,
        m.content@ == content@,
        string_views(m.media@) == string_views(media@),
        m.metadata@ == Map::<Seq<char>, MetaValue>::empty(),
{
    let channel = match channel {
        Some(c) => c,
        None => "cli",
    };
    let chat_id = match chat_id {
        Some(c) => c,
        None => "direct",
    };
    let mut m = InboundMessage::new(channel, "user", chat_id, content);
    assert(string_views(m.media@) =~= string_views(media@.take(0)));
    let mut i: usize = 0;
    while i < media.len()
        invariant
            i <= media@.len(),
            m.channel@ == channel@,
            m.chat_id@ == chat_id@,
            m.sender_id@ == "user"@,
            m.content@ == content@,
            string_views(m.media@) == string_views(media@.take(i as int)),
            m.metadata@ == Map::<Seq<char>, MetaValue>::empty(),
        decreases media@.len() - i,
    {
        m = m.add_media(media[i].as_str());
        assert(string_views(media@.take(i + 1)) =~= string_views(media@.take(i as int)).push(media@[i as int]@));
        i = i + 1;
    }
    assert(media@.take(media@.len() as int) =~= media@);
    m
}

/// Where an incoming message goes.
pub enum Route {
    /// A system message: answered in the chat its chat id names, in that session.
    System { channel: String, chat_id: String, session_key: String },
    /// A slash command, run in the message's session.
    Command { kind: CommandKind, session_key: String },
    /// A conversation turn in the message's session; `scheduled` for the sessions
    /// of scheduled jobs.
    Chat { session_key: String, scheduled: bool },
}

/// Where an incoming message goes: system messages by their chat id; otherwise,
/// in the session given by the caller (else `channel:chat_id`), a message starting
/// with `/` is a command and any other a conversation turn.
pub fn route_inbound(inbound: &InboundMessage, given: Option<&str>) -> (r: Route)
    ensures
        inbound.channel@ == "system"@ ==> (r matches Route::System { channel, chat_id, session_key } && channel@
            == system_target_spec(inbound.chat_id@).0 && chat_id@ == system_target_spec(inbound.chat_id@).1
            && session_key@ == system_target_spec(inbound.chat_id@).2),
        inbound.channel@ != "system"@ ==> ({
            let k = session_key_spec(
                match given {
                    Some(g) => Some(g@),
                    None => None,
                },
                inbound.channel@,
                inbound.chat_id@,
            );
            if inbound.content@.len() > 0 && inbound.content@[0] == '/' {
                r matches Route::Command { kind, session_key } && kind_matches(kind, command_name(inbound.content@))
                    && session_key@ == k
            } else {
                r matches Route::Chat { session_key, scheduled } && session_key@ == k && scheduled
                    == starts_with_spec(k, "cron:"@)
            }
        }),
{
    if is_system_message(inbound) {
        let (channel, chat_id, session_key) = parse_system_message_target(inbound.chat_id.as_str());
        return Route::System { channel: String::from_str(channel), chat_id: String::from_str(chat_id), session_key };
    }
    let session_key = session_key_for(inbound, given);
    match parse_command(inbound.content.as_str()) {
        Some(kind) => Route::Command { kind, session_key },
        None => {
            let scheduled = is_scheduled(session_key.as_str());
            Route::Chat { session_key, scheduled }
        },
    }
}

/// The step of handling a message that failed.
pub enum FailureKind {
    /// Building the model's messages failed.
    BuildMessages,
    /// The reasoning loop failed.
    Processing,
    /// The consolidation task could not be joined.
    Consolidation,
}

/// The text that reports a failure of `kind` with error text `e`.
pub open spec fn failure_text(kind: FailureKind, e: Seq<char>) -> Seq<char> {
    match kind {
        FailureKind::BuildMessages => "构建消息失败: "@ + e,
        FailureKind::Processing => "处理失败: "@ + e,
        FailureKind::Consolidation => "记忆整合任务失败: "@ + e,
    }
}

/// The reply that reports a failure to the chat the message came from.
pub fn failure_reply(channel: &str, chat_id: &str, kind: FailureKind, error: &str) -> (m: OutboundMessage)
    ensures
        m.channel@ == channel@,
        m.chat_id@ == chat_id@,
        m.content@ == failure_text(kind, error@),
        m.media@.len() == 0,
        m.metadata@ == Map::<Seq<char>, MetaValue>::empty(),
{
    let text = match kind {
        FailureKind::BuildMessages => concat_str("构建消息失败: ", error),
        FailureKind::Processing => concat_str("处理失败: ", error),
        FailureKind::Consolidation => concat_str("记忆整合任务失败: ", error),
    };
    OutboundMessage::new(channel, chat_id, text.as_str())
}

/// The reply to a command: its answer, or its error text; both go to the chat.
pub fn command_reply(channel: &str, chat_id: &str, outcome: Result<String, String>) -> (m: OutboundMessage)
    ensures
        m.channel@ == channel@,
        m.chat_id@ == chat_id@,
        m.content@ == match outcome {
            Ok(s) => s@,
            Err(s) => s@,
        },
        m.metadata@ == Map::<Seq<char>, MetaValue>::empty(),
{
    let text = match outcome {
        Ok(s) => s,
        Err(s) => s,
    };
    OutboundMessage::new(channel, chat_id, text.as_str())
}

/// The reply to `/dream`: the memory consolidation run's result, as `DreamCmd`
/// answers with it, sent to the chat.
pub fn dream_reply(channel: &str, chat_id: &str, msg: InboundMessage, session_key: String, result: String) -> (m:
    OutboundMessage)
    ensures
        m.channel@ == channel@,
        m.chat_id@ == chat_id@,
        m.content@ == result@,
        m.metadata@ == Map::<Seq<char>, MetaValue>::empty(),
{
    let cmd = DreamCmd { result };
    command_reply(channel, chat_id, cmd.run(msg, session_key))
}

/// The text handed back to the model for one tool call: its output, or its error.
pub open spec fn tool_result_text_spec(outcome: Result<Seq<char>, Seq<char>>) -> Seq<char> {
    match outcome {
        Ok(o) => "Tool Call Result:\n"@ + o,
        Err(e) => "Tool Call Error: "@ + e,
    }
}

/// The text handed back to the model for one tool call (see `tool_result_text_spec`).
pub fn tool_result_text(outcome: Result<&str, &str>) -> (r: String)
    ensures
        r@ == tool_result_text_spec(
            match outcome {
                Ok(o) => Ok(o@),
                Err(e) => Err(e@),
            },
        ),
{
    match outcome {
        Ok(o) => concat_str("Tool Call Result:\n", o),
        Err(e) => concat_str("Tool Call Error: ", e),
    }
}

/// Whether a message's content is `/stop` (see `is_stop_cmd`).
pub open spec fn is_stop_spec(content: Seq<char>) -> bool {
    eq_ignore_ascii_case_spec(trim_end_spec(content), "/stop"@)
}

/// What happens when a message arrives while another is being processed.
pub enum WhileBusy {
    /// `/stop`: the processing is cancelled and this message is answered.
    Stop(InboundMessage),
    /// Any other message waits its turn.
    Queued,
    /// The inbound channel closed: the processing is cancelled and the loop ends.
    Closed,
}

/// The messages that arrived while another was being processed, oldest first.
pub struct RunQueue {
    pending: Vec<InboundMessage>,
}

impl RunQueue {
    /// The waiting messages, oldest first.
    pub closed spec fn pending(self) -> Seq<InboundMessage> {
        self.pending@
    }

    /// An empty queue.
    pub fn new() -> (q: Self)
        ensures
            q.pending() == Seq::<InboundMessage>::empty(),
    {
        RunQueue { pending: Vec::new() }
    }

    /// The next message to process from the queue: the oldest, if any.
    pub fn next_pending(&mut self) -> (r: Option<InboundMessage>)
        ensures
            old(self).pending().len() == 0 ==> r is None && final(self).pending() == old(self).pending(),
            old(self).pending().len() > 0 ==> r == Some(old(self).pending()[0]) && final(self).pending()
                == old(self).pending().drop_first(),
    {
        if self.pending.len() == 0 {
            None
        } else {
            Some(self.pending.remove(0))
        }
    }

    /// What to do with what the inbound channel gave while a message is being
    /// processed: `/stop` cancels; another message joins the queue; a closed
    /// channel ends the loop.
    pub fn while_busy(&mut self, incoming: Option<InboundMessage>) -> (r: WhileBusy)
        ensures
            match incoming {
                Some(m) => if is_stop_spec(m.content@) {
                    r == WhileBusy::Stop(m) && final(self).pending() == old(self).pending()
                } else {
                    r is Queued && final(self).pending() == old(self).pending().push(m)
                },
                None => r is Closed && final(self).pending() == old(self).pending(),
            },
    {
        match incoming {
            Some(m) => {
                if is_stop_cmd(m.content.as_str()) {
                    WhileBusy::Stop(m)
                } else {
                    self.pending.push(m);
                    WhileBusy::Queued
                }
            },
            None => WhileBusy::Closed,
        }
    }
}

} // verus!
