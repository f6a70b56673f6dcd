//! Routing of system messages and the shortening of large tool results.

use vstd::prelude::*;
use vstd::string::*;
use vstd::utf8::*;

use crate::text::{
    chars_of, decimal, decimal_chars, find_char, first_index_of, has_char, lemma_first_index, push_all, push_str,
    string_of,
};

verus! {

broadcast use vstd::utf8::encode_utf8_decode_utf8;

/// What `parse_system_message_target` returns, over character sequences:
/// `(channel, target chat id, session key)`.
pub open spec fn system_target_spec(chat_id: Seq<char>) -> (Seq<char>, Seq<char>, Seq<char>) {
    if has_char(chat_id, ':') {
        let i = first_index_of(chat_id, ':');
        (chat_id.take(i), chat_id.skip(i + 1), chat_id)
    } else {
        ("cli"@, chat_id, "cli:"@ + chat_id)
    }
}

/// A session key parses back into its parts: a system message addressed to the
/// session key `channel:chat_id` of a channel name without `:` is routed to that
/// channel and chat, in that session.
pub proof fn law_system_target_of_session_key(channel: Seq<char>, chat_id: Seq<char>)
    requires
        !has_char(channel, ':'),
    ensures
        system_target_spec(channel + ":"@ + chat_id) == (channel, chat_id, channel + ":"@ + chat_id),
{
    reveal_strlit(":");
    let s = channel + ":"@ + chat_id;
    let i = channel.len() as int;
    assert(s[i] == ':');
    assert forall|j: int| 0 <= j < i implies s[j] != ':' by {
        assert(s[j] == channel[j]);
    }
    lemma_first_index(s, ':', i);
    assert(s.take(i) =~= channel);
    assert(s.skip(i + 1) =~= chat_id);
}

/// Parses the routing target of a system message.
///
/// `chat_id` of the form `channel:target` (split at the first `:`) gives
/// `(channel, target, chat_id)`; without a `:` the channel is `cli` and the
/// session key is `cli:chat_id`.
pub fn parse_system_message_target(chat_id: &str) -> (r: (&str, &str, String))
    ensures
        r.0@ == system_target_spec(chat_id@).0,
        r.1@ == system_target_spec(chat_id@).1,
        r.2@ == system_target_spec(chat_id@).2,
        r.2@ == r.0@ + ":"@ + r.1@,
{
    proof {
        reveal_strlit(":");
        reveal_strlit("cli");
        reveal_strlit("cli:");
    }
    let cs = chars_of(chat_id);
    match find_char(cs.as_slice(), ':') {
        Some(i) => {
            let n = chat_id.unicode_len();
            let channel = chat_id.substring_char(0, i);
            let target = chat_id.substring_char(i + 1, n);
            proof {
                let s = chat_id@;
                assert(has_char(s, ':'));
                let k = first_index_of(s, ':');
                assert(0 <= k < s.len() && s[k] == ':' && forall|j: int| 0 <= j < k ==> s[j] != ':');
                assert(k == i as int) by {
                    if k < i {
                        assert(s[k] != ':');
                    }
                    if k > i {
                        assert(s[i as int] != ':');
                    }
                }
                assert(channel@ =~= s.take(i as int));
                assert(target@ =~= s.skip(i + 1));
                assert(s =~= s.take(i as int) + ":"@ + s.skip(i + 1));
            }
            (channel, target, String::from_str(chat_id))
        },
        None => {
            let mut key: Vec<char> = chars_of("cli:");
            push_all(&mut key, cs.as_slice());
            proof {
                assert(!has_char(chat_id@, ':'));
            }
            ("cli", chat_id, string_of(key.as_slice()))
        },
    }
}

/// The characters whose UTF-8 encoding is `s`'s bytes `[from, to)`.
pub open spec fn byte_slice(s: &str, from: int, to: int) -> Seq<char> {
    decode_utf8(s.spec_bytes().subrange(from, to))
}

/// Byte length of `s`, which is what `str::len` counts.
pub open spec fn byte_len(s: &str) -> int {
    s.spec_bytes().len() as int
}

/// The text `truncate_result` returns.
pub open spec fn truncated_spec(s: &str, max_chars: int) -> Seq<char> {
    let half = max_chars / 2;
    byte_slice(s, 0, half) + "\n\n[... "@ + decimal((byte_len(s) - max_chars) as nat)
        + " chars truncated ...]\n\n"@ + byte_slice(s, byte_len(s) - half, byte_len(s))
}

/// The string slice of `s` between byte offsets `from` and `to`.
pub(crate) fn byte_substring<'a>(s: &'a str, from: usize, to: usize) -> (r: &'a str)
    requires
        from <= to <= byte_len(s),
        is_char_boundary(s.spec_bytes(), from as int),
        is_char_boundary(s.spec_bytes(), to as int),
    ensures
        r.spec_bytes() == s.spec_bytes().subrange(from as int, to as int),
        r@ == byte_slice(s, from as int, to as int),
{
    proof {
        vstd::utf8::encode_utf8_valid_utf8(s@);
    }
    let (a, _b) = s.split_at(to);
    proof {
        let bytes = s.spec_bytes();
        let ab = a.spec_bytes();
        vstd::utf8::encode_utf8_valid_utf8(a@);
        assert(ab =~= bytes.subrange(0, to as int));
        if from == to {
            vstd::utf8::is_char_boundary_start_end_of_seq(ab);
        } else {
            vstd::utf8::is_char_boundary_iff_not_is_continuation_byte(bytes, from as int);
            vstd::utf8::is_char_boundary_iff_not_is_continuation_byte(ab, from as int);
            assert(ab[from as int] == bytes[from as int]);
        }
    }
    let (_c, d) = a.split_at(from);
    proof {
        assert(d.spec_bytes() =~= s.spec_bytes().subrange(from as int, to as int));
        vstd::utf8::encode_utf8_decode_utf8(d@);
    }
    d
}

/// Shortens a tool result that is longer than `max_chars` bytes: the first and the
/// last `max_chars / 2` bytes around a note of how many bytes were cut.
pub fn truncate_result(result: &str, max_chars: usize) -> (r: String)
    requires
        max_chars <= byte_len(result),
        is_char_boundary(result.spec_bytes(), (max_chars / 2) as int),
        is_char_boundary(result.spec_bytes(), byte_len(result) - max_chars / 2),
    ensures
        r@ == truncated_spec(result, max_chars as int),
{
    proof {
        reveal_strlit("\n\n[... ");
        reveal_strlit(" chars truncated ...]\n\n");
    }
    let len = result.as_bytes().len();
    let half = max_chars / 2;
    proof {
        vstd::utf8::encode_utf8_valid_utf8(result@);
        vstd::utf8::is_char_boundary_start_end_of_seq(result.spec_bytes());
    }
    let head = byte_substring(result, 0, half);
    let tail = byte_substring(result, len - half, len);
    let mut v: Vec<char> = chars_of(head);
    push_str(&mut v, "\n\n[... ");
    let total = decimal_chars((len - max_chars) as u64);
    push_all(&mut v, total.as_slice());
    push_str(&mut v, " chars truncated ...]\n\n");
    push_str(&mut v, tail);
    string_of(v.as_slice())
}

} // verus!

verus! {

/// A tool result of at most `max_chars` bytes is kept as it is.
pub fn tool_result_fits(result: &str, max_chars: usize) -> (b: bool)
    ensures
        b == (byte_len(result) <= max_chars),
{
    result.as_bytes().len() <= max_chars
}

/// The byte length of the preview that a persisted tool result keeps.
pub open spec fn preview_len(s: &str) -> int {
    if byte_len(s) < 1200 { byte_len(s) } else { 1200 }
}

/// The text that stands in for a tool result saved to `path`.
pub open spec fn persisted_reference_spec(s: &str, path: Seq<char>) -> Seq<char> {
    byte_slice(s, 0, preview_len(s)) + "\n\n[... truncated "@ + decimal(byte_len(s) as nat)
        + " chars total — full output saved to "@ + path + "]"@
}

/// The reference that replaces a large tool result once it is saved to `path`:
/// a preview of its first 1200 bytes, its total size, and the path.
pub fn persisted_reference(result: &str, path: &str) -> (r: String)
    requires
        is_char_boundary(result.spec_bytes(), preview_len(result)),
    ensures
        r@ == persisted_reference_spec(result, path@),
{
    proof {
        reveal_strlit("\n\n[... truncated ");
        reveal_strlit(" chars total — full output saved to ");
        reveal_strlit("]");
        vstd::utf8::encode_utf8_valid_utf8(result@);
        vstd::utf8::is_char_boundary_start_end_of_seq(result.spec_bytes());
    }
    let len = result.as_bytes().len();
    let plen = if len < 1200 { len } else { 1200 };
    let preview = byte_substring(result, 0, plen);
    let mut v: Vec<char> = chars_of(preview);
    push_str(&mut v, "\n\n[... truncated ");
    let total = decimal_chars(len as u64);
    push_all(&mut v, total.as_slice());
    push_str(&mut v, " chars total — full output saved to ");
    push_str(&mut v, path);
    push_str(&mut v, "]");
    string_of(v.as_slice())
}


/// The file a large tool result is saved to, `<tool call id>.txt`, and the
/// temporary file it is written to first, `<tool call id>.txt.tmp`.
pub fn result_file_names(tool_call_id: &str) -> (r: (String, String))
    ensures
        r.0@ == tool_call_id@ + ".txt"@,
        r.1@ == tool_call_id@ + ".txt.tmp"@,
{
    let mut a = chars_of(tool_call_id);
    push_str(&mut a, ".txt");
    let mut b = chars_of(tool_call_id);
    push_str(&mut b, ".txt.tmp");
    (string_of(a.as_slice()), string_of(b.as_slice()))
}

/// What stands in for a tool result longer than `max_chars` bytes, given where
/// saving it ended: saved to `path`, its reference (`persisted_reference`); not
/// saved (creating the directory, writing or renaming failed), the result cut
/// around its middle (`truncate_result`).
pub fn persist_outcome(result: &str, max_chars: usize, saved: Option<&str>) -> (r: String)
    requires
        max_chars < byte_len(result),
        saved is Some ==> is_char_boundary(result.spec_bytes(), preview_len(result)),
        saved is None ==> is_char_boundary(result.spec_bytes(), (max_chars / 2) as int),
        saved is None ==> is_char_boundary(result.spec_bytes(), byte_len(result) - max_chars / 2),
    ensures
        r@ == match saved {
            Some(path) => persisted_reference_spec(result, path@),
            None => truncated_spec(result, max_chars as int),
        },
{
    match saved {
        Some(path) => persisted_reference(result, path),
        None => truncate_result(result, max_chars),
    }
}

} // verus!
