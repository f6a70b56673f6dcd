//! The `message` tool: the model sends a message to a chat on its own, with
//! optional attachments. Checking local files and sending happen around this.

use vstd::prelude::*;

use crate::channels::messages::{string_views, MetaValue, OutboundMessage};
use crate::text::{
    chars_of, decimal, decimal_chars, push_all, push_str, starts_with_chars, starts_with_spec, string_of,
};

verus! {

/// The tool's parameters.
pub struct MessageParams {
    /// The text to send.
    pub content: String,
    /// The target channel; the current one when absent.
    pub channel: Option<String>,
    /// The target chat; the current one when absent.
    pub chat_id: Option<String>,
    /// Paths or URLs of attachments.
    pub media: Vec<String>,
}

/// A media path that is a URL is passed on as it is.
pub open spec fn is_media_url_spec(path: Seq<char>) -> bool {
    starts_with_spec(path, "http://"@) || starts_with_spec(path, "https://"@)
}

/// Whether a media path is an `http://` or `https://` URL.
pub fn is_media_url(path: &str) -> (b: bool)
    ensures
        b == is_media_url_spec(path@),
{
    let p = chars_of(path);
    let h = chars_of("http://");
    let hs = chars_of("https://");
    starts_with_chars(p.as_slice(), h.as_slice()) || starts_with_chars(p.as_slice(), hs.as_slice())
}

/// Where the message goes: the parameters' channel and chat, each defaulting to
/// the current conversation's.
pub fn message_target(params: &MessageParams, current_channel: &str, current_chat_id: &str) -> (r: (
    String,
    String,
))
    ensures
        r.0@ == match params.channel {
            Some(c) => c@,
            None => current_channel@,
        },
        r.1@ == match params.chat_id {
            Some(c) => c@,
            None => current_chat_id@,
        },
{
    let channel = match &params.channel {
        Some(c) => c.clone(),
        None => String::from_str(current_channel),
    };
    let chat_id = match &params.chat_id {
        Some(c) => c.clone(),
        None => String::from_str(current_chat_id),
    };
    (channel, chat_id)
}

/// The message the tool sends: the content to the chat, with the resolved media
/// in order.
pub fn build_message(channel: &str, chat_id: &str, content: &str, media: &[String]) -> (m: OutboundMessage)
    ensures
        m.channel@ == channel@,
        m.chat_id@ == chat_id@,
        m.content@ == content@,
        string_views(m.media@) == string_views(media@),
        m.metadata@ == Map::<Seq<char>, MetaValue>::empty(),
{
    let mut m = OutboundMessage::new(channel, chat_id, content);
    assert(string_views(m.media@) =~= string_views(media@.take(0)));
    let mut i: usize = 0;
    while i < media.len()
        invariant
            i <= media@.len(),
            m.channel@ == channel@,
            m.chat_id@ == chat_id@,
            m.content@ == content@,
            string_views(m.media@) == string_views(media@.take(i as int)),
            m.metadata@ == Map::<Seq<char>, MetaValue>::empty(),
        decreases media@.len() - i,
    {
        m = m.add_media(media[i].as_str());
        assert(string_views(media@.take(i + 1)) =~= string_views(media@.take(i as int)).push(media@[i as int]@));
        i = i + 1;
    }
    assert(media@.take(media@.len() as int) =~= media@);
    m
}

/// The tool's answer after sending: the target, the content's length in bytes,
/// and the number of attachments when there are any.
pub open spec fn sent_summary_spec(channel: Seq<char>, chat_id: Seq<char>, bytes: nat, media: nat) -> Seq<char> {
    "Message sent to "@ + channel + ":"@ + chat_id + " ("@ + decimal(bytes) + " chars"@ + (if media == 0 {
        Seq::empty()
    } else {
        ", "@ + decimal(media) + " media files"@
    }) + ")"@
}

/// The tool's answer after sending (see `sent_summary_spec`).
pub fn sent_summary(channel: &str, chat_id: &str, content: &str, media_count: usize) -> (r: String)
    ensures
        r@ == sent_summary_spec(channel@, chat_id@, content.len() as nat, media_count as nat),
{
    proof {
        reveal_strlit("");
    }
    let mut v = chars_of("Message sent to ");
    push_str(&mut v, channel);
    push_str(&mut v, ":");
    push_str(&mut v, chat_id);
    push_str(&mut v, " (");
    let len = content.len();
    let n = decimal_chars(len as u64);
    push_all(&mut v, n.as_slice());
    push_str(&mut v, " chars");
    let ghost before_media = v@;
    if media_count > 0 {
        push_str(&mut v, ", ");
        let m = decimal_chars(media_count as u64);
        push_all(&mut v, m.as_slice());
        push_str(&mut v, " media files");
    }
    push_str(&mut v, ")");
    proof {
        if media_count == 0 {
            assert(before_media + Seq::<char>::empty() =~= before_media);
        }
        assert(v@ =~= sent_summary_spec(channel@, chat_id@, content.len() as nat, media_count as nat));
    }
    string_of(v.as_slice())
}

} // verus!
