//! Inbound and outbound messages.

use vstd::prelude::*;

use crate::text::{chars_of, find_char, push_str, string_of};

verus! {

/// A metadata value. JSON values other than booleans and strings are held as
/// their serialized JSON text.
#[derive(Debug)]
pub enum MetaValue {
    Bool(bool),
    Text(String),
    Json(String),
}

impl Clone for MetaValue {
    fn clone(&self) -> (r: Self)
        ensures
            r == *self,
    {
        match self {
            MetaValue::Bool(b) => MetaValue::Bool(*b),
            MetaValue::Text(s) => MetaValue::Text(s.clone()),
            MetaValue::Json(s) => MetaValue::Json(s.clone()),
        }
    }
}

/// The map that a list of insertions leaves: later insertions of a key override
/// earlier ones.
pub open spec fn entries_map(s: Seq<(String, MetaValue)>) -> Map<Seq<char>, MetaValue>
    decreases s.len(),
{
    if s.len() == 0 {
        Map::empty()
    } else {
        entries_map(s.drop_last()).insert(s.last().0@, s.last().1)
    }
}

/// String-keyed metadata of a message. Its `String` keys
/// are kept in a `Vec` rather than std's `HashMap`/`HashSet` or `BTreeMap`/`BTreeSet`:
/// vstd specifies those only for keys whose hashing or ordering it models
/// (`obeys_key_model`, `key_obeys_cmp_spec`), which it establishes for integers and
/// `bool` but not for `String`, so nothing could be proved of them here.
#[derive(Debug)]
pub struct Metadata {
    entries: Vec<(String, MetaValue)>,
}

impl Clone for Metadata {
    fn clone(&self) -> (r: Self)
        ensures
            r@ == self@,
    {
        Metadata { entries: self.to_pairs() }
    }
}

impl View for Metadata {
    type V = Map<Seq<char>, MetaValue>;

    closed spec fn view(&self) -> Map<Seq<char>, MetaValue> {
        entries_map(self.entries@)
    }
}

proof fn lemma_entries_map_suffix(s: Seq<(String, MetaValue)>, i: int, k: Seq<char>)
    requires
        0 <= i <= s.len(),
        forall|j: int| i <= j < s.len() ==> (#[trigger] s[j]).0@ != k,
    ensures
        entries_map(s).contains_key(k) == entries_map(s.take(i)).contains_key(k),
        entries_map(s)[k] == entries_map(s.take(i))[k],
    decreases s.len() - i,
{
    if i < s.len() {
        assert(s.drop_last().take(i) =~= s.take(i));
        assert(s.last() == s[s.len() - 1]);
        lemma_entries_map_suffix(s.drop_last(), i, k);
    } else {
        assert(s.take(i) =~= s);
    }
}

impl Metadata {
    /// Empty metadata.
    pub fn new() -> (m: Metadata)
        ensures
            m@ == Map::<Seq<char>, MetaValue>::empty(),
    {
        Metadata { entries: Vec::new() }
    }

    /// Sets `key` to `value`, replacing an earlier value of `key`.
    pub fn insert(&mut self, key: &str, value: MetaValue)
        ensures
            final(self)@ == old(self)@.insert(key@, value),
    {
        let k = String::from_str(key);
        self.entries.push((k, value));
        proof {
            assert(self.entries@.drop_last() =~= old(self).entries@);
        }
    }

    /// The value of `key`, if set.
    pub fn get(&self, key: &str) -> (r: Option<&MetaValue>)
        ensures
            match r {
                Some(v) => self@.contains_key(key@) && self@[key@] == *v,
                None => !self@.contains_key(key@),
            },
    {
        let k = String::from_str(key);
        let mut i: usize = self.entries.len();
        while i > 0
            invariant
                i <= self.entries@.len(),
                k@ == key@,
                forall|j: int| i <= j < self.entries@.len() ==> (#[trigger] self.entries@[j]).0@ != key@,
            decreases i,
        {
            if self.entries[i - 1].0 == k {
                proof {
                    let s = self.entries@;
                    lemma_entries_map_suffix(s, i as int, key@);
                    assert(s.take(i as int).drop_last() =~= s.take(i - 1));
                    assert(s.take(i as int).last() == s[i - 1]);
                }
                return Some(&self.entries[i - 1].1);
            }
            i = i - 1;
        }
        proof {
            lemma_entries_map_suffix(self.entries@, 0, key@);
        }
        None
    }

    /// Whether no key is set.
    pub fn is_empty(&self) -> (b: bool)
        ensures
            b == (self@.dom() =~= Set::<Seq<char>>::empty()),
    {
        proof {
            let s = self.entries@;
            if s.len() > 0 {
                assert(entries_map(s).contains_key(s.last().0@));
            }
        }
        self.entries.len() == 0
    }

    /// The keys in the order they were first set, with their current values.
    pub fn to_pairs(&self) -> (r: Vec<(String, MetaValue)>)
        ensures
            entries_map(r@) == self@,
    {
        let mut r: Vec<(String, MetaValue)> = Vec::new();
        let mut i: usize = 0;
        while i < self.entries.len()
            invariant
                i <= self.entries@.len(),
                r@ == self.entries@.take(i as int),
            decreases self.entries@.len() - i,
        {
            let k = self.entries[i].0.clone();
            let v = self.entries[i].1.clone();
            r.push((k, v));
            assert(self.entries@.take(i + 1) =~= self.entries@.take(i as int).push(self.entries@[i as int]));
            i = i + 1;
        }
        assert(self.entries@.take(self.entries@.len() as int) =~= self.entries@);
        r
    }

    /// Whether `key` holds the JSON boolean `true`.
    pub fn flag(&self, key: &str) -> (b: bool)
        ensures
            b == (self@.contains_key(key@) && self@[key@] matches MetaValue::Bool(true)),
    {
        match self.get(key) {
            Some(MetaValue::Bool(v)) => *v,
            _ => false,
        }
    }
}

} // verus!

verus! {

/// The views of a list of strings.
pub open spec fn string_views(v: Seq<String>) -> Seq<Seq<char>> {
    Seq::new(v.len(), |i: int| v[i]@)
}

/// A message received from a chat platform.
#[derive(Debug)]
pub struct InboundMessage {
    /// Channel name.
    pub channel: String,
    /// Sender identifier.
    pub sender_id: String,
    /// Chat identifier.
    pub chat_id: String,
    /// Text content.
    pub content: String,
    /// Media file paths.
    pub media: Vec<String>,
    /// Metadata.
    pub metadata: Metadata,
}

/// A message to be sent to a chat platform.
#[derive(Debug)]
pub struct OutboundMessage {
    /// Target channel.
    pub channel: String,
    /// Target chat.
    pub chat_id: String,
    /// Text content.
    pub content: String,
    /// Media file paths.
    pub media: Vec<String>,
    /// Metadata (may hold `_progress` and `_tool_hint` flags).
    pub metadata: Metadata,
}

/// `a:b`.
pub open spec fn colon_join(a: Seq<char>, b: Seq<char>) -> Seq<char> {
    a + ":"@ + b
}

fn clone_strings(v: &Vec<String>) -> (r: Vec<String>)
    ensures
        r@ == v@,
{
    let mut r: Vec<String> = Vec::new();
    let mut i: usize = 0;
    while i < v.len()
        invariant
            i <= v@.len(),
            r@ == v@.take(i as int),
        decreases v@.len() - i,
    {
        r.push(v[i].clone());
        assert(v@.take(i + 1) =~= v@.take(i as int).push(v@[i as int]));
        i = i + 1;
    }
    assert(v@.take(v@.len() as int) =~= v@);
    r
}

impl Clone for InboundMessage {
    fn clone(&self) -> (r: Self)
        ensures
            r.channel == self.channel,
            r.sender_id == self.sender_id,
            r.chat_id == self.chat_id,
            r.content == self.content,
            r.media@ == self.media@,
            r.metadata@ == self.metadata@,
    {
        InboundMessage {
            channel: self.channel.clone(),
            sender_id: self.sender_id.clone(),
            chat_id: self.chat_id.clone(),
            content: self.content.clone(),
            media: clone_strings(&self.media),
            metadata: self.metadata.clone(),
        }
    }
}

impl Clone for OutboundMessage {
    fn clone(&self) -> (r: Self)
        ensures
            r.channel == self.channel,
            r.chat_id == self.chat_id,
            r.content == self.content,
            r.media@ == self.media@,
            r.metadata@ == self.metadata@,
    {
        OutboundMessage {
            channel: self.channel.clone(),
            chat_id: self.chat_id.clone(),
            content: self.content.clone(),
            media: clone_strings(&self.media),
            metadata: self.metadata.clone(),
        }
    }
}

impl InboundMessage {
    /// A new inbound message without media or metadata.
    pub fn new(channel: &str, sender_id: &str, chat_id: &str, content: &str) -> (m: Self)
        ensures
            m.channel@ == channel@,
            m.sender_id@ == sender_id@,
            m.chat_id@ == chat_id@,
            m.content@ == content@,
            m.media@.len() == 0,
            m.metadata@ == Map::<Seq<char>, MetaValue>::empty(),
    {
        InboundMessage {
            channel: String::from_str(channel),
            sender_id: String::from_str(sender_id),
            chat_id: String::from_str(chat_id),
            content: String::from_str(content),
            media: Vec::new(),
            metadata: Metadata::new(),
        }
    }

    /// Adds a media path.
    pub fn add_media(self, media: &str) -> (m: Self)
        ensures
            string_views(m.media@) == string_views(self.media@).push(media@),
            m.channel == self.channel,
            m.sender_id == self.sender_id,
            m.chat_id == self.chat_id,
            m.content == self.content,
            m.metadata@ == self.metadata@,
    {
        let mut m = self;
        m.media.push(String::from_str(media));
        proof {
            assert(string_views(m.media@) =~= string_views(self.media@).push(media@));
        }
        m
    }

    /// Sets a metadata entry.
    pub fn add_metadata(self, key: &str, value: MetaValue) -> (m: Self)
        ensures
            m.metadata@ == self.metadata@.insert(key@, value),
            m.channel == self.channel,
            m.sender_id == self.sender_id,
            m.chat_id == self.chat_id,
            m.content == self.content,
            m.media@ == self.media@,
    {
        let mut m = self;
        m.metadata.insert(key, value);
        m
    }

    /// The session key `channel:chat_id`.
    pub fn session_key(&self) -> (k: String)
        ensures
            k@ == colon_join(self.channel@, self.chat_id@),
    {
        proof {
            reveal_strlit(":");
        }
        let mut v = chars_of(self.channel.as_str());
        push_str(&mut v, ":");
        push_str(&mut v, self.chat_id.as_str());
        string_of(v.as_slice())
    }

    /// Splits a session id `channel:chat_id` at its first `:` into
    /// `(channel, "user", chat_id)`; `None` when it has no `:`.
    pub fn from_session_id(session_id: &str, content: &str) -> (r: Option<(String, String, String)>)
        ensures
            match r {
                Some(t) => exists|i: int|
                    0 <= i < session_id@.len() && session_id@[i] == ':'
                    && (forall|j: int| 0 <= j < i ==> session_id@[j] != ':')
                    && t.0@ == session_id@.take(i) && t.1@ == "user"@
                    && t.2@ == session_id@.skip(i + 1),
                None => forall|j: int| 0 <= j < session_id@.len() ==> session_id@[j] != ':',
            },
    {
        let cs = chars_of(session_id);
        let n = cs.len();
        match find_char(cs.as_slice(), ':') {
            Some(i) => {
                let head = crate::text::slice_vec(cs.as_slice(), 0, i);
                let tail = crate::text::slice_vec(cs.as_slice(), i + 1, n);
                let r = (string_of(head.as_slice()), String::from_str("user"), string_of(tail.as_slice()));
                proof {
                    assert(r.0@ =~= session_id@.take(i as int));
                    assert(r.2@ =~= session_id@.skip(i + 1));
                }
                Some(r)
            },
            None => None,
        }
    }
}

/// A session key splits back into its parts: when the channel name has no `:`,
/// the first `:` of `channel:chat_id` is the one after the channel, so
/// `from_session_id` of a session key gives back the channel and the chat id.
pub proof fn law_session_id_round_trip(channel: Seq<char>, chat_id: Seq<char>, i: int)
    requires
        forall|j: int| 0 <= j < channel.len() ==> channel[j] != ':',
        0 <= i < colon_join(channel, chat_id).len(),
        colon_join(channel, chat_id)[i] == ':',
        forall|j: int| 0 <= j < i ==> colon_join(channel, chat_id)[j] != ':',
    ensures
        i == channel.len(),
        colon_join(channel, chat_id).take(i) == channel,
        colon_join(channel, chat_id).skip(i + 1) == chat_id,
{
    reveal_strlit(":");
    let s = colon_join(channel, chat_id);
    let n = channel.len() as int;
    assert(s[n] == ':');
    if i < n {
        assert(s[i] == channel[i]);
    }
    assert(s.take(n) =~= channel);
    assert(s.skip(n + 1) =~= chat_id);
}

/// The metadata of a progress message.
pub open spec fn progress_metadata(is_tool_hint: bool) -> Map<Seq<char>, MetaValue> {
    if is_tool_hint {
        Map::empty().insert("_progress"@, MetaValue::Bool(true)).insert("_tool_hint"@, MetaValue::Bool(true))
    } else {
        Map::empty().insert("_progress"@, MetaValue::Bool(true))
    }
}

/// A progress message is always recognized as one, and as a tool hint exactly
/// when it was made as one: `progress(.., h)` has `is_progress()` true and
/// `is_tool_hint()` equal to `h`.
pub proof fn law_progress_flags(is_tool_hint: bool)
    ensures
        progress_metadata(is_tool_hint).contains_key("_progress"@),
        progress_metadata(is_tool_hint)["_progress"@] matches MetaValue::Bool(true),
        (progress_metadata(is_tool_hint).contains_key("_tool_hint"@) && progress_metadata(
            is_tool_hint,
        )["_tool_hint"@] matches MetaValue::Bool(true)) == is_tool_hint,
{
    reveal_strlit("_progress");
    reveal_strlit("_tool_hint");
    assert("_progress"@.len() != "_tool_hint"@.len());
}

impl OutboundMessage {
    /// A new outbound message without media or metadata.
    pub fn new(channel: &str, chat_id: &str, content: &str) -> (m: Self)
        ensures
            m.channel@ == channel@,
            m.chat_id@ == chat_id@,
            m.content@ == content@,
            m.media@.len() == 0,
            m.metadata@ == Map::<Seq<char>, MetaValue>::empty(),
    {
        OutboundMessage {
            channel: String::from_str(channel),
            chat_id: String::from_str(chat_id),
            content: String::from_str(content),
            media: Vec::new(),
            metadata: Metadata::new(),
        }
    }

    /// A progress message: `_progress` is set, and `_tool_hint` too when `is_tool_hint`.
    pub fn progress(channel: &str, chat_id: &str, content: &str, is_tool_hint: bool) -> (m: Self)
        ensures
            m.channel@ == channel@,
            m.chat_id@ == chat_id@,
            m.content@ == content@,
            m.media@.len() == 0,
            m.metadata@ == progress_metadata(is_tool_hint),
    {
        let mut metadata = Metadata::new();
        metadata.insert("_progress", MetaValue::Bool(true));
        if is_tool_hint {
            metadata.insert("_tool_hint", MetaValue::Bool(true));
        }
        OutboundMessage {
            channel: String::from_str(channel),
            chat_id: String::from_str(chat_id),
            content: String::from_str(content),
            media: Vec::new(),
            metadata,
        }
    }

    /// Whether `_progress` is the JSON boolean `true`.
    pub fn is_progress(&self) -> (b: bool)
        ensures
            b == (self.metadata@.contains_key("_progress"@)
                && self.metadata@["_progress"@] matches MetaValue::Bool(true)),
    {
        self.metadata.flag("_progress")
    }

    /// Whether `_tool_hint` is the JSON boolean `true`.
    pub fn is_tool_hint(&self) -> (b: bool)
        ensures
            b == (self.metadata@.contains_key("_tool_hint"@)
                && self.metadata@["_tool_hint"@] matches MetaValue::Bool(true)),
    {
        self.metadata.flag("_tool_hint")
    }

    /// Adds a media path.
    pub fn add_media(self, media: &str) -> (m: Self)
        ensures
            string_views(m.media@) == string_views(self.media@).push(media@),
            m.channel == self.channel,
            m.chat_id == self.chat_id,
            m.content == self.content,
            m.metadata@ == self.metadata@,
    {
        let mut m = self;
        m.media.push(String::from_str(media));
        proof {
            assert(string_views(m.media@) =~= string_views(self.media@).push(media@));
        }
        m
    }

    /// Sets a metadata entry.
    pub fn add_metadata(self, key: &str, value: MetaValue) -> (m: Self)
        ensures
            m.metadata@ == self.metadata@.insert(key@, value),
            m.channel == self.channel,
            m.chat_id == self.chat_id,
            m.content == self.content,
            m.media@ == self.media@,
    {
        let mut m = self;
        m.metadata.insert(key, value);
        m
    }
}

} // verus!
