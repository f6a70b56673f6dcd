//! Feishu (Lark) channel logic: the client, who may talk to the bot, which incoming
//! messages become inbound messages, and what a reply is made of. The WebSocket
//! stream, the message context and the HTTP sending run around this.

pub mod interactive;
pub mod post;

use vstd::prelude::*;

use crate::channels::dingtalk::{list_contains, list_has, reply_markdown, reply_markdown_spec};
use crate::channels::error::{ChannelError, ChannelResult};
use crate::channels::messages::{InboundMessage, MetaValue};
use crate::text::{chars_of, concat_str, push_str, slice_vec, str_is_empty, string_of, trim_str, trim_spec};

verus! {

/// The Feishu client of the SDK, which sends messages.
#[verifier::external_type_specification]
#[verifier::external_body]
pub struct ExFeishuClient(feishu_sdk::client::Client);

/// Feishu channel configuration.
pub struct FeishuConfig {
    /// Whether the channel is enabled.
    pub enabled: bool,
    /// App id.
    pub app_id: String,
    /// App secret.
    pub app_secret: String,
    /// Open ids that may talk to the bot; empty or `*` admits everyone.
    pub allow_from: Vec<String>,
}

/// The error text of the SDK for a missing configuration value.
pub open spec fn missing_config_text(what: Seq<char>) -> Seq<char> {
    "missing config value: "@ + what
}

/// The configuration error that creating the SDK client reports before anything
/// else: a missing app id, else a missing app secret.
pub open spec fn credentials_error_spec(c: FeishuConfig) -> Option<Seq<char>> {
    if c.app_id@.len() == 0 {
        Some(missing_config_text("app_id"@))
    } else if c.app_secret@.len() == 0 {
        Some(missing_config_text("app_secret"@))
    } else {
        None
    }
}

/// The configuration error of a Feishu configuration (see `credentials_error_spec`).
pub fn credentials_error(config: &FeishuConfig) -> (r: Option<String>)
    ensures
        match credentials_error_spec(*config) {
            Some(e) => r matches Some(m) && m@ == e,
            None => r is None,
        },
{
    proof {
        reveal_strlit("missing config value: ");
        reveal_strlit("app_id");
        reveal_strlit("app_secret");
    }
    if str_is_empty(config.app_id.as_str()) {
        Some(concat_str("missing config value: ", "app_id"))
    } else if str_is_empty(config.app_secret.as_str()) {
        Some(concat_str("missing config value: ", "app_secret"))
    } else {
        None
    }
}

/// The Feishu channel: its configuration, its client and its name.
pub struct Feishu {
    config: FeishuConfig,
    client: feishu_sdk::client::Client,
    name: String,
}

/// The text of the error returned when the client cannot be created.
pub open spec fn client_error_text(e: Seq<char>) -> Seq<char> {
    "创建飞书客户端失败: "@ + e
}

impl Feishu {
    /// The channel's configuration.
    pub closed spec fn config_spec(&self) -> FeishuConfig {
        self.config
    }

    /// The channel's name.
    pub closed spec fn name_spec(&self) -> Seq<char> {
        self.name@
    }

    /// The SDK client the channel was built with.
    pub closed spec fn client_spec(&self) -> feishu_sdk::client::Client {
        self.client
    }

    /// Builds the channel from its configuration and the outcome of creating the
    /// client: a client gives a channel named `feishu` that holds that client; an
    /// error gives `StartFailed` with the error's text.
    pub fn from_client(config: FeishuConfig, client: Result<feishu_sdk::client::Client, String>) -> (r:
        ChannelResult<Feishu>)
        ensures
            match client {
                Ok(c) => r matches Ok(f) && f.config_spec() == config && f.name_spec() == "feishu"@
                    && f.client_spec() == c,
                Err(e) => r matches Err(ChannelError::StartFailed(m)) && m@ == client_error_text(e@),
            },
    {
        match client {
            Ok(c) => Ok(Feishu { config, client: c, name: String::from_str("feishu") }),
            Err(e) => Err(ChannelError::StartFailed(concat_str("创建飞书客户端失败: ", e.as_str()))),
        }
    }

    /// Creates the channel from its configuration and the outcome of creating the
    /// SDK client for it (which the caller does, as the SDK sets up its HTTP client
    /// there): an empty app id or app secret is refused with `StartFailed` and the
    /// SDK's text for it; otherwise the channel is what `from_client` builds.
    pub fn new(config: FeishuConfig, client: Result<feishu_sdk::client::Client, String>) -> (r: ChannelResult<Feishu>)
        ensures
            match credentials_error_spec(config) {
                Some(e) => r matches Err(ChannelError::StartFailed(m)) && m@ == client_error_text(e),
                None => match client {
                    Ok(c) => r matches Ok(f) && f.config_spec() == config && f.name_spec() == "feishu"@
                        && f.client_spec() == c,
                    Err(e) => r matches Err(ChannelError::StartFailed(m)) && m@ == client_error_text(e@),
                },
            },
    {
        match credentials_error(&config) {
            Some(e) => Err(ChannelError::StartFailed(concat_str("创建飞书客户端失败: ", e.as_str()))),
            None => Feishu::from_client(config, client),
        }
    }

    /// The channel's name, `feishu`.
    pub fn name(&self) -> (r: &str)
        ensures
            r@ == self.name_spec(),
    {
        self.name.as_str()
    }

    /// The channel's configuration.
    pub fn config(&self) -> (r: &FeishuConfig)
        ensures
            *r == self.config_spec(),
    {
        &self.config
    }

    /// The SDK client the channel was built with, for sending.
    pub fn client(&self) -> (r: &feishu_sdk::client::Client)
        ensures
            *r == self.client_spec(),
    {
        &self.client
    }

    /// Checks a sender against the allow list (see `feishu_permits`).
    pub fn check_permission(&self, sender_id: &str) -> (b: bool)
        ensures
            b == feishu_permits(self.config_spec().allow_from@, sender_id@),
    {
        feishu_check_permission(self.config.allow_from.as_slice(), sender_id)
    }
}

/// `s[i..j]` is one of the pieces that splitting `s` at `sep` gives.
pub open spec fn is_piece(s: Seq<char>, sep: char, i: int, j: int) -> bool {
    &&& 0 <= i <= j <= s.len()
    &&& (i == 0 || s[i - 1] == sep)
    &&& (j == s.len() || s[j] == sep)
    &&& forall|k: int| i <= k < j ==> s[k] != sep
}

/// Some piece of `s` split at `|` is in the list.
pub open spec fn some_piece_listed(list: Seq<String>, s: Seq<char>) -> bool {
    exists|i: int, j: int| is_piece(s, '|', i, j) && #[trigger] list_has(list, s.subrange(i, j))
}

/// Who may talk to the Feishu bot: everyone when the list is empty or holds `*`;
/// otherwise a listed open id, or an id holding `|` one of whose `|`-separated
/// pieces is listed.
pub open spec fn feishu_permits(allow_from: Seq<String>, sender_id: Seq<char>) -> bool {
    ||| allow_from.len() == 0
    ||| list_has(allow_from, "*"@)
    ||| list_has(allow_from, sender_id)
    ||| (sender_id.contains('|') && some_piece_listed(allow_from, sender_id))
}

/// An empty allow list, or one holding `*`, admits every sender; a listed id is
/// admitted, and so is an id with `|` whose first piece is listed.
pub proof fn law_feishu_admits(allow_from: Seq<String>, sender_id: Seq<char>, k: int)
    requires
        0 <= k < sender_id.len(),
        sender_id[k] == '|',
        forall|m: int| 0 <= m < k ==> sender_id[m] != '|',
    ensures
        allow_from.len() == 0 ==> feishu_permits(allow_from, sender_id),
        list_has(allow_from, "*"@) ==> feishu_permits(allow_from, sender_id),
        list_has(allow_from, sender_id.take(k)) ==> feishu_permits(allow_from, sender_id),
{
    if list_has(allow_from, sender_id.take(k)) {
        assert(is_piece(sender_id, '|', 0, k));
        assert(sender_id.subrange(0, k) =~= sender_id.take(k));
        assert(sender_id.contains('|'));
    }
}

/// Whether some `|`-separated piece of `s` is in the list.
fn piece_listed(list: &[String], s: &[char]) -> (b: bool)
    ensures
        b == some_piece_listed(list@, s@),
{
    let n = s.len();
    let mut start: usize = 0;
    let mut k: usize = 0;
    while k < n
        invariant
            n == s@.len(),
            start <= k <= n,
            start == 0 || s@[start - 1] == '|',
            forall|m: int| start <= m < k ==> s@[m] != '|',
            forall|i: int, j: int|
                is_piece(s@, '|', i, j) && j < k ==> !#[trigger] list_has(list@, s@.subrange(i, j)),
        decreases n - k,
    {
        if s[k] == '|' {
            if piece_at(list, s, start, k) {
                return true;
            }
            start = k + 1;
        }
        k = k + 1;
    }
    piece_at(list, s, start, n)
}

/// Checks the piece `s[start..k]`, which ends at a separator or at the end: when it
/// is not listed, no piece ending at or before `k` is listed.
fn piece_at(list: &[String], s: &[char], start: usize, k: usize) -> (b: bool)
    requires
        start <= k <= s@.len(),
        start == 0 || s@[start - 1] == '|',
        k == s@.len() || s@[k as int] == '|',
        forall|m: int| start <= m < k ==> s@[m] != '|',
        forall|i: int, j: int|
            is_piece(s@, '|', i, j) && j < k ==> !#[trigger] list_has(list@, s@.subrange(i, j)),
    ensures
        b ==> some_piece_listed(list@, s@),
        !b ==> forall|i: int, j: int|
            is_piece(s@, '|', i, j) && j <= k ==> !#[trigger] list_has(list@, s@.subrange(i, j)),
{
    let piece = slice_vec(s, start, k);
    let ps = string_of(piece.as_slice());
    assert(is_piece(s@, '|', start as int, k as int));
    let found = list_contains(list, ps.as_str());
    proof {
        if !found {
            assert forall|i: int, j: int| is_piece(s@, '|', i, j) && j <= k implies !#[trigger] list_has(
                list@,
                s@.subrange(i, j),
            ) by {
                if j == k {
                    if i < start {
                        assert(s@[start - 1] == '|');
                    }
                    if i > start {
                        assert(s@[i - 1] == '|');
                    }
                }
            }
        }
    }
    found
}

/// Checks a sender against a Feishu allow list.
pub fn feishu_check_permission(allow_from: &[String], sender_id: &str) -> (b: bool)
    ensures
        b == feishu_permits(allow_from@, sender_id@),
{
    if allow_from.len() == 0 {
        return true;
    }
    if list_contains(allow_from, "*") || list_contains(allow_from, sender_id) {
        return true;
    }
    let s = chars_of(sender_id);
    let mut has_bar = false;
    let mut i: usize = 0;
    while i < s.len()
        invariant
            i <= s@.len(),
            s@ == sender_id@,
            has_bar == (exists|m: int| 0 <= m < i && s@[m] == '|'),
        decreases s@.len() - i,
    {
        if s[i] == '|' {
            has_bar = true;
        }
        i = i + 1;
    }
    assert(has_bar == sender_id@.contains('|'));
    has_bar && piece_listed(allow_from, s.as_slice())
}

/// What `serde_json::from_str::<serde_json::Value>` followed by reading the `text`
/// member as a string gives for a text (`None` when the text is not JSON or has no
/// string `text` member).
pub uninterp spec fn json_text_member(s: Seq<char>) -> Option<Seq<char>>;

/// Parses `s` as JSON and reads its `text` member as a string. The result is named
/// by `json_text_member`: the JSON grammar is not restated here.
#[verifier::external_body]
fn json_text_field(s: &str) -> (r: Option<String>)
    ensures
        match r {
            Some(t) => json_text_member(s@) == Some(t@),
            None => json_text_member(s@) is None,
        },
{
    match serde_json::from_str::<serde_json::Value>(s) {
        Ok(json) => json.get("text").and_then(|v| v.as_str()).map(|t| t.to_string()),
        Err(_) => None,
    }
}

/// The fields of an incoming Feishu message event that decide what happens to it.
pub struct FeishuMessageFields {
    pub chat_id: Option<String>,
    /// The sender's open id.
    pub sender_open_id: Option<String>,
    pub sender_type: Option<String>,
    pub message_type: Option<String>,
    /// The raw `content` string of the message (JSON).
    pub content: Option<String>,
}

/// The view of an optional string, empty when absent.
pub open spec fn or_empty(o: Option<String>) -> Seq<char> {
    match o {
        Some(s) => s@,
        None => Seq::empty(),
    }
}

/// Whether an event is a text message with a chat and a content, the events whose
/// text is read at all.
pub open spec fn is_text_event(m: FeishuMessageFields) -> bool {
    &&& m.chat_id is Some
    &&& m.message_type matches Some(t) && t@ == "text"@
    &&& m.content is Some
}

/// What an incoming event becomes, given the `text` member read from its content:
/// nothing unless it is a text message with a chat and content whose trimmed text is
/// not empty and whose sender is permitted; else a `feishu` inbound message from the
/// sender's open id in the chat, with the trimmed text.
pub open spec fn feishu_inbound_spec(
    allow_from: Seq<String>,
    m: FeishuMessageFields,
    text: Option<Seq<char>>,
) -> Option<(Seq<char>, Seq<char>, Seq<char>)> {
    let t = trim_spec(
        match text {
            Some(t) => t,
            None => Seq::empty(),
        },
    );
    if is_text_event(m) && t.len() > 0 && feishu_permits(allow_from, or_empty(m.sender_open_id)) {
        Some((or_empty(m.sender_open_id), or_empty(m.chat_id), t))
    } else {
        None
    }
}

/// The inbound message that an event gives, given the `text` member read from its
/// content (`feishu_inbound_spec` says which).
pub fn feishu_inbound_with_text(allow_from: &[String], m: &FeishuMessageFields, text: Option<&str>) -> (r:
    Option<InboundMessage>)
    ensures
        match feishu_inbound_spec(
            allow_from@,
            *m,
            match text {
                Some(t) => Some(t@),
                None => None,
            },
        ) {
            Some((sender, chat, content)) => r matches Some(msg) && msg.channel@ == "feishu"@
                && msg.sender_id@ == sender && msg.chat_id@ == chat && msg.content@ == content
                && msg.media@.len() == 0 && msg.metadata@ == Map::<Seq<char>, MetaValue>::empty(),
            None => r is None,
        },
{
    proof {
        reveal_strlit("text");
        reveal_strlit("");
    }
    let chat = match &m.chat_id {
        Some(c) => c,
        None => {
            return None;
        },
    };
    match &m.message_type {
        Some(t) => {
            if !(*t == String::from_str("text")) {
                return None;
            }
        },
        None => {
            return None;
        },
    }
    if m.content.is_none() {
        return None;
    }
    let raw = match text {
        Some(t) => t,
        None => "",
    };
    let content = trim_str(raw);
    if content.as_str().is_empty() {
        return None;
    }
    let sender = match &m.sender_open_id {
        Some(s) => s.as_str(),
        None => "",
    };
    assert(sender@ == or_empty(m.sender_open_id));
    if !feishu_check_permission(allow_from, sender) {
        return None;
    }
    let msg = InboundMessage::new("feishu", sender, chat.as_str(), content.as_str());
    assert(is_text_event(*m));
    Some(msg)
}

impl Feishu {
    /// What an incoming event becomes: its content's `text` member is read as JSON,
    /// then `feishu_inbound_with_text` decides, with this channel's allow list.
    pub fn inbound(&self, m: &FeishuMessageFields) -> (r: Option<InboundMessage>)
        ensures
            match feishu_inbound_spec(
                self.config_spec().allow_from@,
                *m,
                match m.content {
                    Some(c) => json_text_member(c@),
                    None => None,
                },
            ) {
                Some((sender, chat, content)) => r matches Some(msg) && msg.channel@ == "feishu"@
                    && msg.sender_id@ == sender && msg.chat_id@ == chat && msg.content@ == content,
                None => r is None,
            },
    {
        match &m.content {
            Some(c) => {
                let text = json_text_field(c.as_str());
                let t = match &text {
                    Some(t) => Some(t.as_str()),
                    None => None,
                };
                feishu_inbound_with_text(self.config.allow_from.as_slice(), m, t)
            },
            None => feishu_inbound_with_text(self.config.allow_from.as_slice(), m, None),
        }
    }
}

/// The lower-case hexadecimal digit for `d`, from 0 to 15.
pub open spec fn hex_digit(d: int) -> char {
    if d < 10 {
        ('0' as int + d) as char
    } else {
        ('a' as int + d - 10) as char
    }
}

/// How serde_json writes one character inside a string literal: `"` and `\` after
/// a backslash; backspace, form feed, line feed, carriage return and tab as `\b`,
/// `\f`, `\n`, `\r`, `\t`; any other character below U+0020 as `\u00` and two
/// lower-case hexadecimal digits; every other character as it is.
pub open spec fn json_escape_char(c: char) -> Seq<char> {
    if c == '"' {
        seq!['\\', '"']
    } else if c == '\\' {
        seq!['\\', '\\']
    } else if c == '\u{8}' {
        seq!['\\', 'b']
    } else if c == '\u{c}' {
        seq!['\\', 'f']
    } else if c == '\n' {
        seq!['\\', 'n']
    } else if c == '\r' {
        seq!['\\', 'r']
    } else if c == '\t' {
        seq!['\\', 't']
    } else if (c as int) < 0x20 {
        seq!['\\', 'u', '0', '0', hex_digit(c as int / 16), hex_digit(c as int % 16)]
    } else {
        seq![c]
    }
}

/// The characters of `s`, each escaped as serde_json writes it in a string.
pub open spec fn json_escaped(s: Seq<char>) -> Seq<char>
    decreases s.len(),
{
    if s.len() == 0 {
        Seq::empty()
    } else {
        json_escaped(s.drop_last()) + json_escape_char(s.last())
    }
}

/// What `serde_json::to_string` gives for a string: the escaped characters
/// between double quotes.
pub open spec fn json_string_literal(s: Seq<char>) -> Seq<char> {
    seq!['"'] + json_escaped(s) + seq!['"']
}

/// `serde_json::to_string` of a string: its JSON literal, quoted and escaped as
/// `json_string_literal` states (serde_json's escape table and its compact
/// formatter). Serializing a string into memory does not fail.
#[verifier::external_body]
fn json_quote(s: &str) -> (r: String)
    ensures
        r@ == json_string_literal(s@),
{
    match serde_json::to_string(s) {
        Ok(q) => q,
        Err(_) => String::new(),
    }
}

/// The `content` JSON of a reply card whose one element is a `div` holding the
/// given `lark_md` text, as serde_json writes it (keys in sorted order).
pub open spec fn card_json(quoted_markdown: Seq<char>) -> Seq<char> {
    "{\"config\":{\"wide_screen_mode\":true},\"elements\":[{\"tag\":\"div\",\"text\":{\"content\":"@
        + quoted_markdown + ",\"tag\":\"lark_md\"}}]}"@
}

/// The `content` of the interactive message that replies with `content`: a wide
/// card with one `div` whose `lark_md` text is the reply markdown.
pub fn reply_card_content(content: &str) -> (r: String)
    ensures
        r@ == card_json(json_string_literal(reply_markdown_spec(content@))),
{
    let md = reply_markdown(content);
    let quoted = json_quote(md.as_str());
    let mut v = chars_of("{\"config\":{\"wide_screen_mode\":true},\"elements\":[{\"tag\":\"div\",\"text\":{\"content\":");
    push_str(&mut v, quoted.as_str());
    push_str(&mut v, ",\"tag\":\"lark_md\"}}]}");
    string_of(v.as_slice())
}

/// What the message context holds for the chat a reply goes to.
pub enum StoredEvent {
    /// No event was stored for the chat.
    Missing,
    /// The stored event has no event data.
    NoData,
    /// The event data is not a message event; the parse error's text.
    Unparsable(String),
    /// The message event, with its chat id if it has one.
    Message { chat_id: Option<String> },
}

/// Where a reply to `chat_id` is sent, given what the context holds for it: the
/// stored event's chat id (empty when it has none); `SendFailed` when nothing is
/// stored, the event has no data, or its data is not a message event.
pub fn feishu_reply_target(chat_id: &str, stored: StoredEvent) -> (r: ChannelResult<String>)
    ensures
        match stored {
            StoredEvent::Missing => r matches Err(ChannelError::SendFailed(m)) && m@ == "找不到消息上下文: "@
                + chat_id@,
            StoredEvent::NoData => r matches Err(ChannelError::SendFailed(m)) && m@ == "原始事件数据为空"@,
            StoredEvent::Unparsable(e) => r matches Err(ChannelError::SendFailed(m)) && m@
                == "解析原始消息事件失败: "@ + e@,
            StoredEvent::Message { chat_id: c } => r matches Ok(t) && t@ == or_empty(c),
        },
{
    match stored {
        StoredEvent::Missing => Err(ChannelError::SendFailed(concat_str("找不到消息上下文: ", chat_id))),
        StoredEvent::NoData => Err(ChannelError::SendFailed(String::from_str("原始事件数据为空"))),
        StoredEvent::Unparsable(e) => Err(ChannelError::SendFailed(concat_str("解析原始消息事件失败: ", e.as_str()))),
        StoredEvent::Message { chat_id: c } => match c {
            Some(c) => Ok(c),
            None => Ok(String::new()),
        },
    }
}

/// The outcome of sending a reply, given the request's error (if it failed) or
/// the API's response code and message: `SendFailed` with the error, or with the
/// message when the code is not 0; `Ok` otherwise.
pub fn feishu_send_outcome(request_error: Option<&str>, code: i64, msg: &str) -> (r: ChannelResult<()>)
    ensures
        match request_error {
            Some(e) => r matches Err(ChannelError::SendFailed(m)) && m@ == "发送飞书消息失败: "@ + e@,
            None => if code != 0 {
                r matches Err(ChannelError::SendFailed(m)) && m@ == "发送飞书消息失败: "@ + msg@
            } else {
                r is Ok
            },
        },
{
    match request_error {
        Some(e) => Err(ChannelError::SendFailed(concat_str("发送飞书消息失败: ", e))),
        None => if code != 0 {
            Err(ChannelError::SendFailed(concat_str("发送飞书消息失败: ", msg)))
        } else {
            Ok(())
        },
    }
}

/// Forwards the SDK's log lines to the crate's log, each marked `[Feishu]`.
pub struct TracingLogger;

impl TracingLogger {
    /// The line logged for an SDK message: `[Feishu] ` and the message.
    pub fn line(&self, message: &str) -> (r: String)
        ensures
            r@ == "[Feishu] "@ + message@,
    {
        concat_str("[Feishu] ", message)
    }
}

} // verus!
