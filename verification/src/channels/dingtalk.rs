//! DingTalk channel logic: configuration, who may talk to the bot, which incoming
//! robot messages become inbound messages, and how media are named and typed.

use vstd::prelude::*;

use crate::channels::error::ChannelError;
use crate::channels::messages::{InboundMessage, MetaValue};
use crate::text::{
    chars_of, push_str, string_of, trim_chars, trim_spec,
};

verus! {

/// DingTalk channel configuration.
#[derive(Debug)]
pub struct DingTalkConfig {
    /// Whether the channel is enabled.
    pub enabled: bool,
    /// App key.
    pub client_id: String,
    /// App secret.
    pub client_secret: String,
    /// Staff ids that may talk to the bot; `*` admits everyone.
    pub allow_from: Vec<String>,
}

impl Default for DingTalkConfig {
    fn default() -> (c: Self)
        ensures
            !c.enabled,
            c.client_id@.len() == 0,
            c.client_secret@.len() == 0,
            c.allow_from@.len() == 0,
    {
        DingTalkConfig { enabled: false, client_id: String::new(), client_secret: String::new(), allow_from: Vec::new() }
    }
}

impl Clone for DingTalkConfig {
    fn clone(&self) -> (c: Self)
        ensures
            c.enabled == self.enabled,
            c.client_id == self.client_id,
            c.client_secret == self.client_secret,
            c.allow_from@ == self.allow_from@,
    {
        DingTalkConfig {
            enabled: self.enabled,
            client_id: self.client_id.clone(),
            client_secret: self.client_secret.clone(),
            allow_from: self.allow_from.clone(),
        }
    }
}

/// An enabled configuration needs both credentials.
pub open spec fn dingtalk_config_valid(c: DingTalkConfig) -> bool {
    !c.enabled || (c.client_id@.len() > 0 && c.client_secret@.len() > 0)
}

impl DingTalkConfig {
    /// Checks the configuration: an enabled channel needs a client id and a client secret.
    pub fn validate(&self) -> (r: Result<(), ChannelError>)
        ensures
            r is Ok <==> dingtalk_config_valid(*self),
            r matches Err(e) ==> e is Config,
    {
        if self.enabled && self.client_id.as_str().is_empty() {
            return Err(ChannelError::Config(String::from_str("dingtalk.clientId is required when the channel is enabled")));
        }
        if self.enabled && self.client_secret.as_str().is_empty() {
            return Err(ChannelError::Config(String::from_str("dingtalk.clientSecret is required when the channel is enabled")));
        }
        Ok(())
    }
}

/// `list` holds a string with view `s`.
pub open spec fn list_has(list: Seq<String>, s: Seq<char>) -> bool {
    exists|i: int| 0 <= i < list.len() && list[i]@ == s
}

pub fn list_contains(list: &[String], s: &str) -> (b: bool)
    ensures
        b == list_has(list@, s@),
{
    let t = String::from_str(s);
    let mut i: usize = 0;
    while i < list.len()
        invariant
            i <= list@.len(),
            t@ == s@,
            forall|j: int| 0 <= j < i ==> list@[j]@ != s@,
        decreases list@.len() - i,
    {
        if list[i] == t {
            return true;
        }
        i = i + 1;
    }
    false
}

/// Who may talk to the DingTalk bot: nobody when the list is empty, everyone when it
/// holds `*`, otherwise exactly the listed staff ids.
pub open spec fn dingtalk_permits(allow_from: Seq<String>, sender_id: Seq<char>) -> bool {
    list_has(allow_from, "*"@) || list_has(allow_from, sender_id)
}

/// An empty DingTalk allow list admits nobody; one holding `*` admits everyone.
pub proof fn law_dingtalk_admits(allow_from: Seq<String>, sender_id: Seq<char>)
    ensures
        allow_from.len() == 0 ==> !dingtalk_permits(allow_from, sender_id),
        list_has(allow_from, "*"@) ==> dingtalk_permits(allow_from, sender_id),
{
}

impl DingTalkConfig {
    /// Checks a sender against the DingTalk allow list (see `dingtalk_permits`).
    pub fn check_permission(&self, sender_id: &str) -> (b: bool)
        ensures
            b == dingtalk_permits(self.allow_from@, sender_id@),
            self.allow_from@.len() == 0 ==> !b,
    {
        list_contains(self.allow_from.as_slice(), "*") || list_contains(self.allow_from.as_slice(), sender_id)
    }
}

/// The fields of an incoming DingTalk robot message that decide what happens to it.
#[derive(Debug)]
pub struct ChatbotFields {
    /// The first entry of the message's text list, if any.
    pub text: Option<String>,
    pub sender_staff_id: Option<String>,
    pub sender_id: Option<String>,
    pub sender_nick: Option<String>,
    pub conversation_id: Option<String>,
}

/// The sender id of a robot message: the staff id, else the sender id, else empty.
pub open spec fn chatbot_sender(m: ChatbotFields) -> Seq<char> {
    match m.sender_staff_id {
        Some(s) => s@,
        None => match m.sender_id {
            Some(s) => s@,
            None => Seq::empty(),
        },
    }
}

/// The text of a robot message (empty when it has none).
pub open spec fn chatbot_text(m: ChatbotFields) -> Seq<char> {
    match m.text {
        Some(t) => t@,
        None => Seq::empty(),
    }
}

/// The chat of a robot message: its conversation, else its sender.
pub open spec fn chatbot_chat(m: ChatbotFields) -> Seq<char> {
    match m.conversation_id {
        Some(c) => c@,
        None => chatbot_sender(m),
    }
}

/// Decides what an incoming robot message becomes: `None` when its text is blank or
/// its sender is not permitted, else a `dingtalk` inbound message from the sender in
/// the sender's conversation.
pub fn dingtalk_inbound(config: &DingTalkConfig, m: &ChatbotFields) -> (r: Option<InboundMessage>)
    ensures
        match r {
            None => trim_spec(chatbot_text(*m)).len() == 0 || !dingtalk_permits(config.allow_from@, chatbot_sender(*m)),
            Some(msg) => {
                &&& trim_spec(chatbot_text(*m)).len() > 0
                &&& dingtalk_permits(config.allow_from@, chatbot_sender(*m))
                &&& msg.channel@ == "dingtalk"@
                &&& msg.sender_id@ == chatbot_sender(*m)
                &&& msg.chat_id@ == chatbot_chat(*m)
                &&& msg.content@ == chatbot_text(*m)
                &&& msg.media@.len() == 0
                &&& msg.metadata@ == Map::<Seq<char>, MetaValue>::empty()
            },
        },
{
    let text = match &m.text {
        Some(t) => t.clone(),
        None => String::new(),
    };
    let tc = chars_of(text.as_str());
    let trimmed = trim_chars(tc.as_slice());
    if trimmed.len() == 0 {
        return None;
    }
    let sender = match &m.sender_staff_id {
        Some(s) => s.clone(),
        None => match &m.sender_id {
            Some(s) => s.clone(),
            None => String::new(),
        },
    };
    if !config.check_permission(sender.as_str()) {
        return None;
    }
    let chat = match &m.conversation_id {
        Some(c) => c.clone(),
        None => sender.clone(),
    };
    Some(InboundMessage::new("dingtalk", sender.as_str(), chat.as_str(), text.as_str()))
}

/// The markdown body of a DingTalk reply.
pub open spec fn reply_markdown_spec(content: Seq<char>) -> Seq<char> {
    "**Nanobot Reply**\n\n"@ + content
}

/// The markdown body of a reply: a bold header line, a blank line, the content.
pub fn reply_markdown(content: &str) -> (r: String)
    ensures
        r@ == reply_markdown_spec(content@),
{
    let mut v = chars_of("**Nanobot Reply**\n\n");
    push_str(&mut v, content);
    string_of(v.as_slice())
}

} // verus!
